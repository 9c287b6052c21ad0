//! The messages of a session as the index stores them: who wrote each and what it says.

use vstd::prelude::*;

use crate::exec_events::{payload_text, payload_text_of};
use crate::json::{JsonValue, jget, str_field};
use crate::replay::optional_string;
use crate::text::{opt_text_is, opt_view, text_is};

verus! {

/// Who wrote a message.
#[derive(Debug, Clone, Copy, PartialEq, Eq, Structural)]
pub enum MessageRole {
    User,
    Agent,
}

/// The name a role is stored under.
pub open spec fn role_name(r: MessageRole) -> Seq<char> {
    match r {
        MessageRole::User => "user"@,
        MessageRole::Agent => "agent"@,
    }
}

/// The role stored under a name, or the message that refuses the name.
pub open spec fn parsed_role(s: Seq<char>) -> Result<MessageRole, Seq<char>> {
    if s == "user"@ {
        Ok(MessageRole::User)
    } else if s == "agent"@ {
        Ok(MessageRole::Agent)
    } else {
        Err("invalid canonical message role "@ + s)
    }
}

impl MessageRole {
    /// The name the role is stored under.
    pub fn as_str(self) -> (r: &'static str)
        ensures
            r@ == role_name(self),
    {
        match self {
            MessageRole::User => "user",
            MessageRole::Agent => "agent",
        }
    }

    /// The role stored under a name (see [`parsed_role`]).
    pub fn from_str(value: &str) -> (r: Result<MessageRole, String>)
        ensures
            match r {
                Ok(role) => parsed_role(value@) == Ok::<MessageRole, Seq<char>>(role),
                Err(m) => parsed_role(value@) == Err::<MessageRole, Seq<char>>(m@),
            },
    {
        let v = String::from_str(value);
        if text_is(&v, "user") {
            Ok(MessageRole::User)
        } else if text_is(&v, "agent") {
            Ok(MessageRole::Agent)
        } else {
            let mut m = String::from_str("invalid canonical message role ");
            m.append(value);
            Err(m)
        }
    }
}

/// A role read back from its stored name is the role.
pub proof fn lemma_role_name_round_trip(r: MessageRole)
    ensures
        parsed_role(role_name(r)) == Ok::<MessageRole, Seq<char>>(r),
{
    reveal_strlit("user");
    reveal_strlit("agent");
    if r == MessageRole::Agent {
        assert("agent"@ != "user"@) by {
            assert("agent"@[0] != "user"@[0]);
        }
    }
}

/// A message of a session.
#[derive(Debug, Clone, PartialEq, Eq)]
pub struct NormalizedMessage {
    pub role: MessageRole,
    pub phase: Option<String>,
    pub content: String,
}

/// A message as a mathematical value.
pub struct MessageView {
    pub role: MessageRole,
    pub phase: Option<Seq<char>>,
    pub content: Seq<char>,
}

impl View for NormalizedMessage {
    type V = MessageView;

    open spec fn view(&self) -> MessageView {
        MessageView { role: self.role, phase: opt_view(self.phase), content: self.content@ }
    }
}

/// The message of an event payload: a `user_message` or `agent_message` with a string
/// `message` and an optional string `phase`.
pub open spec fn event_message(p: JsonValue) -> Option<MessageView> {
    let ptype = str_field(p, "type"@);
    if ptype == Some("user_message"@) || ptype == Some("agent_message"@) {
        match (str_field(p, "message"@), optional_string(p, "phase"@)) {
            (Some(content), Some(phase)) => Some(
                MessageView {
                    role: if ptype == Some("user_message"@) {
                        MessageRole::User
                    } else {
                        MessageRole::Agent
                    },
                    phase,
                    content,
                },
            ),
            _ => None,
        }
    } else {
        None
    }
}

/// The message of a `response_item` payload of type `message` from the user or the assistant,
/// its content as text.
pub open spec fn item_message(p: JsonValue) -> Option<MessageView> {
    if str_field(p, "type"@) == Some("message"@) {
        let role = str_field(p, "role"@);
        if role == Some("user"@) || role == Some("assistant"@) {
            match optional_string(p, "phase"@) {
                Some(phase) => Some(
                    MessageView {
                        role: if role == Some("user"@) {
                            MessageRole::User
                        } else {
                            MessageRole::Agent
                        },
                        phase,
                        content: payload_text(p, "content"@),
                    },
                ),
                None => None,
            }
        } else {
            None
        }
    } else {
        None
    }
}

/// The message a record holds: that of the payload of an `event_msg` or `response_item`
/// record, or of the record itself where it is of neither type.
pub open spec fn record_message(v: JsonValue) -> Option<MessageView> {
    let t = str_field(v, "type"@);
    if t == Some("event_msg"@) {
        match jget(v, "payload"@) {
            Some(p) => event_message(p),
            None => None,
        }
    } else if t == Some("response_item"@) {
        match jget(v, "payload"@) {
            Some(p) => item_message(p),
            None => None,
        }
    } else {
        event_message(v)
    }
}

/// An optional string member (see [`optional_string`]).
fn phase_of(p: &JsonValue) -> (r: Result<Option<String>, ()>)
    ensures
        match r {
            Ok(o) => optional_string(*p, "phase"@) == Some(opt_view(o)),
            Err(_) => optional_string(*p, "phase"@) is None,
        },
{
    match p.get("phase") {
        None => Ok(None),
        Some(JsonValue::Null) => Ok(None),
        Some(JsonValue::Str(s)) => Ok(Some(s.clone())),
        Some(_) => Err(()),
    }
}

/// The message of an event payload (see [`event_message`]).
fn event_message_of(p: &JsonValue) -> (r: Option<NormalizedMessage>)
    ensures
        match r {
            Some(m) => event_message(*p) == Some(m@),
            None => event_message(*p) is None,
        },
{
    let ptype = p.str_field("type");
    let is_user = opt_text_is(ptype.as_ref(), "user_message");
    if !is_user && !opt_text_is(ptype.as_ref(), "agent_message") {
        return None;
    }
    let content = match p.str_field("message") {
        Some(c) => c,
        None => return None,
    };
    let phase = match phase_of(p) {
        Ok(ph) => ph,
        Err(_) => return None,
    };
    Some(
        NormalizedMessage {
            role: if is_user {
                MessageRole::User
            } else {
                MessageRole::Agent
            },
            phase,
            content,
        },
    )
}

/// The message of a `response_item` payload (see [`item_message`]).
fn item_message_of(p: &JsonValue) -> (r: Option<NormalizedMessage>)
    ensures
        match r {
            Some(m) => item_message(*p) == Some(m@),
            None => item_message(*p) is None,
        },
{
    let ptype = p.str_field("type");
    if !opt_text_is(ptype.as_ref(), "message") {
        return None;
    }
    let role = p.str_field("role");
    let is_user = opt_text_is(role.as_ref(), "user");
    if !is_user && !opt_text_is(role.as_ref(), "assistant") {
        return None;
    }
    let phase = match phase_of(p) {
        Ok(ph) => ph,
        Err(_) => return None,
    };
    Some(
        NormalizedMessage {
            role: if is_user {
                MessageRole::User
            } else {
                MessageRole::Agent
            },
            phase,
            content: payload_text_of(p, "content"),
        },
    )
}

/// The message a record holds (see [`record_message`]).
pub fn normalize_message_record(v: &JsonValue) -> (r: Option<NormalizedMessage>)
    ensures
        match r {
            Some(m) => record_message(*v) == Some(m@),
            None => record_message(*v) is None,
        },
{
    let t = v.str_field("type");
    if opt_text_is(t.as_ref(), "event_msg") {
        match v.get("payload") {
            Some(p) => event_message_of(p),
            None => None,
        }
    } else if opt_text_is(t.as_ref(), "response_item") {
        match v.get("payload") {
            Some(p) => item_message_of(p),
            None => None,
        }
    } else {
        event_message_of(v)
    }
}

} // verus!
