//! Replay of a session: the timeline entries that a session log or a JSON array of events gives.

use vstd::prelude::*;

use crate::exec_events::{is_exec_tool_payload, payload_text, payload_text_of};
use crate::json::{JsonMember, JsonValue, jget, jstr, str_field, value_to_text};
use crate::text::{all_white, chars_of, is_blank, opt_text_is, opt_view};
use crate::ui_state::{Key, KeyPress, is_ctrl_c, selection_fits};

verus! {

/// One command of an `exec_command_end` event.
#[derive(Debug, Clone, PartialEq, Eq)]
pub struct ParsedCmd {
    pub kind: Option<String>,
    pub cmd: String,
    pub name: Option<String>,
    pub path: Option<String>,
}

/// An event that the replay shows as it is.
#[derive(Debug, Clone, PartialEq, Eq)]
pub enum PayloadEvent {
    UserMessage { message: String, phase: Option<String> },
    AgentMessage { message: String, phase: Option<String> },
    ExecCommandEnd { parsed_cmd: Vec<ParsedCmd>, aggregated_output: String },
}

/// A record after normalisation: a shown event, an exec tool call, or an exec tool call's
/// output.
#[derive(Debug, Clone, PartialEq, Eq)]
pub enum NormalizedEvent {
    Payload(PayloadEvent),
    ExecToolCall { call_id: Option<String>, kind: String, name: String, input: String },
    ExecToolOutput { call_id: Option<String>, output: String },
}

/// A parsed command as a mathematical value.
pub struct ParsedCmdView {
    pub kind: Option<Seq<char>>,
    pub cmd: Seq<char>,
    pub name: Option<Seq<char>>,
    pub path: Option<Seq<char>>,
}

/// A shown event as a mathematical value.
pub enum PayloadView {
    UserMessage { message: Seq<char>, phase: Option<Seq<char>> },
    AgentMessage { message: Seq<char>, phase: Option<Seq<char>> },
    ExecCommandEnd { parsed_cmd: Seq<ParsedCmdView>, aggregated_output: Seq<char> },
}

/// A normalised record as a mathematical value.
pub enum NormalizedView {
    Payload(PayloadView),
    ExecToolCall { call_id: Option<Seq<char>>, kind: Seq<char>, name: Seq<char>, input: Seq<char> },
    ExecToolOutput { call_id: Option<Seq<char>>, output: Seq<char> },
}

impl View for ParsedCmd {
    type V = ParsedCmdView;

    open spec fn view(&self) -> ParsedCmdView {
        ParsedCmdView {
            kind: opt_view(self.kind),
            cmd: self.cmd@,
            name: opt_view(self.name),
            path: opt_view(self.path),
        }
    }
}

/// The views of parsed commands.
pub open spec fn cmd_views(cmds: Seq<ParsedCmd>) -> Seq<ParsedCmdView> {
    cmds.map_values(|c: ParsedCmd| c@)
}

impl View for PayloadEvent {
    type V = PayloadView;

    open spec fn view(&self) -> PayloadView {
        match self {
            PayloadEvent::UserMessage { message, phase } => PayloadView::UserMessage {
                message: message@,
                phase: opt_view(*phase),
            },
            PayloadEvent::AgentMessage { message, phase } => PayloadView::AgentMessage {
                message: message@,
                phase: opt_view(*phase),
            },
            PayloadEvent::ExecCommandEnd { parsed_cmd, aggregated_output } => PayloadView::ExecCommandEnd {
                parsed_cmd: cmd_views(parsed_cmd@),
                aggregated_output: aggregated_output@,
            },
        }
    }
}

impl View for NormalizedEvent {
    type V = NormalizedView;

    open spec fn view(&self) -> NormalizedView {
        match self {
            NormalizedEvent::Payload(e) => NormalizedView::Payload(e@),
            NormalizedEvent::ExecToolCall { call_id, kind, name, input } => NormalizedView::ExecToolCall {
                call_id: opt_view(*call_id),
                kind: kind@,
                name: name@,
                input: input@,
            },
            NormalizedEvent::ExecToolOutput { call_id, output } => NormalizedView::ExecToolOutput {
                call_id: opt_view(*call_id),
                output: output@,
            },
        }
    }
}

/// An optional string member: missing or `null` is none, a string is itself, anything else is
/// refused (the outer `None`).
pub open spec fn optional_string(v: JsonValue, key: Seq<char>) -> Option<Option<Seq<char>>> {
    match jget(v, key) {
        None => Some(None),
        Some(JsonValue::Null) => Some(None),
        Some(JsonValue::Str(s)) => Some(Some(s@)),
        _ => None,
    }
}

/// A string member that defaults to empty where missing; anything but a string is refused.
pub open spec fn defaulted_string(v: JsonValue, key: Seq<char>) -> Option<Seq<char>> {
    match jget(v, key) {
        None => Some(Seq::empty()),
        Some(JsonValue::Str(s)) => Some(s@),
        _ => None,
    }
}

/// A parsed command decoded from a JSON object: `type`, `name` and `path` optional strings,
/// `cmd` a string that defaults to empty.
pub open spec fn decoded_cmd(v: JsonValue) -> Option<ParsedCmdView> {
    match v {
        JsonValue::Object(_, _) => match (
            optional_string(v, "type"@),
            defaulted_string(v, "cmd"@),
            optional_string(v, "name"@),
            optional_string(v, "path"@),
        ) {
            (Some(kind), Some(cmd), Some(name), Some(path)) => Some(
                ParsedCmdView { kind, cmd, name, path },
            ),
            _ => None,
        },
        _ => None,
    }
}

/// Parsed commands decoded from a JSON array, in order; refused where one item is refused.
pub open spec fn decoded_cmds(items: Seq<JsonValue>) -> Option<Seq<ParsedCmdView>>
    decreases items.len(),
{
    if items.len() == 0 {
        Some(Seq::empty())
    } else {
        match (decoded_cmds(items.drop_last()), decoded_cmd(items.last())) {
            (Some(prev), Some(c)) => Some(prev.push(c)),
            _ => None,
        }
    }
}

/// The `parsed_cmd` member of an event: empty where missing, else an array of commands.
pub open spec fn decoded_cmd_list(v: JsonValue) -> Option<Seq<ParsedCmdView>> {
    match jget(v, "parsed_cmd"@) {
        None => Some(Seq::empty()),
        Some(JsonValue::Array(items)) => decoded_cmds(items@),
        _ => None,
    }
}

/// A shown event decoded from a JSON object whose `type` member names it: `user_message` and
/// `agent_message` with a string `message` and an optional `phase`; `exec_command_end` with
/// its commands and an `aggregated_output` string that defaults to empty.
pub open spec fn decoded_payload(v: JsonValue) -> Option<PayloadView> {
    match v {
        JsonValue::Object(_, _) => {
            let tag = str_field(v, "type"@);
            if tag == Some("user_message"@) || tag == Some("agent_message"@) {
                match (str_field(v, "message"@), optional_string(v, "phase"@)) {
                    (Some(message), Some(phase)) => if tag == Some("user_message"@) {
                        Some(PayloadView::UserMessage { message, phase })
                    } else {
                        Some(PayloadView::AgentMessage { message, phase })
                    },
                    _ => None,
                }
            } else if tag == Some("exec_command_end"@) {
                match (decoded_cmd_list(v), defaulted_string(v, "aggregated_output"@)) {
                    (Some(parsed_cmd), Some(aggregated_output)) => Some(
                        PayloadView::ExecCommandEnd { parsed_cmd, aggregated_output },
                    ),
                    _ => None,
                }
            } else {
                None
            }
        },
        _ => None,
    }
}

/// An optional string member (see [`optional_string`]).
fn optional_string_of(v: &JsonValue, key: &str) -> (r: Result<Option<String>, ()>)
    ensures
        match r {
            Ok(o) => optional_string(*v, key@) == Some(opt_view(o)),
            Err(_) => optional_string(*v, key@) is None,
        },
{
    match v.get(key) {
        None => Ok(None),
        Some(JsonValue::Null) => Ok(None),
        Some(JsonValue::Str(s)) => Ok(Some(s.clone())),
        Some(_) => Err(()),
    }
}

/// A string member that defaults to empty (see [`defaulted_string`]).
fn defaulted_string_of(v: &JsonValue, key: &str) -> (r: Result<String, ()>)
    ensures
        match r {
            Ok(s) => defaulted_string(*v, key@) == Some(s@),
            Err(_) => defaulted_string(*v, key@) is None,
        },
{
    match v.get(key) {
        None => Ok(String::new()),
        Some(JsonValue::Str(s)) => Ok(s.clone()),
        Some(_) => Err(()),
    }
}

/// A parsed command decoded from a JSON value (see [`decoded_cmd`]).
pub fn decode_cmd(v: &JsonValue) -> (r: Option<ParsedCmd>)
    ensures
        match r {
            Some(c) => decoded_cmd(*v) == Some(c@),
            None => decoded_cmd(*v) is None,
        },
{
    match v {
        JsonValue::Object(_, _) => {},
        _ => return None,
    }
    let kind = match optional_string_of(v, "type") {
        Ok(k) => k,
        Err(_) => return None,
    };
    let cmd = match defaulted_string_of(v, "cmd") {
        Ok(c) => c,
        Err(_) => return None,
    };
    let name = match optional_string_of(v, "name") {
        Ok(n) => n,
        Err(_) => return None,
    };
    let path = match optional_string_of(v, "path") {
        Ok(p) => p,
        Err(_) => return None,
    };
    Some(ParsedCmd { kind, cmd, name, path })
}

/// The `parsed_cmd` member of an event (see [`decoded_cmd_list`]).
fn decode_cmd_list(v: &JsonValue) -> (r: Option<Vec<ParsedCmd>>)
    ensures
        match r {
            Some(cs) => decoded_cmd_list(*v) == Some(cmd_views(cs@)),
            None => decoded_cmd_list(*v) is None,
        },
{
    match v.get("parsed_cmd") {
        None => {
            let cs: Vec<ParsedCmd> = Vec::new();
            assert(cmd_views(cs@) =~= Seq::<ParsedCmdView>::empty());
            Some(cs)
        },
        Some(JsonValue::Array(items)) => {
            let mut cs: Vec<ParsedCmd> = Vec::new();
            let mut i: usize = 0;
            while i < items.len()
                invariant
                    i <= items@.len(),
                    decoded_cmd_list(*v) == decoded_cmds(items@),
                    decoded_cmds(items@.take(i as int)) == Some(cmd_views(cs@)),
                decreases items.len() - i,
            {
                assert(items@.take(i + 1).drop_last() =~= items@.take(i as int));
                assert(items@.take(i + 1).last() == items@[i as int]);
                match decode_cmd(&items[i]) {
                    Some(c) => {
                        let ghost before = cmd_views(cs@);
                        cs.push(c);
                        assert(cmd_views(cs@) =~= before.push(c@));
                    },
                    None => {
                        proof {
                            lemma_decoded_cmds_refused(items@, i as int);
                        }
                        return None;
                    },
                }
                i = i + 1;
            }
            assert(items@.take(items@.len() as int) =~= items@);
            Some(cs)
        },
        Some(_) => None,
    }
}

proof fn lemma_decoded_cmds_refused(items: Seq<JsonValue>, i: int)
    requires
        0 <= i < items.len(),
        decoded_cmd(items[i]) is None,
    ensures
        decoded_cmds(items) is None,
    decreases items.len(),
{
    if i < items.len() - 1 {
        lemma_decoded_cmds_refused(items.drop_last(), i);
    }
}

/// A shown event decoded from a JSON value (see [`decoded_payload`]).
pub fn decode_payload(v: &JsonValue) -> (r: Option<PayloadEvent>)
    ensures
        match r {
            Some(e) => decoded_payload(*v) == Some(e@),
            None => decoded_payload(*v) is None,
        },
{
    match v {
        JsonValue::Object(_, _) => {},
        _ => return None,
    }
    let tag = v.str_field("type");
    let is_user = opt_text_is(tag.as_ref(), "user_message");
    let is_agent = opt_text_is(tag.as_ref(), "agent_message");
    if is_user || is_agent {
        let message = match v.str_field("message") {
            Some(m) => m,
            None => return None,
        };
        let phase = match optional_string_of(v, "phase") {
            Ok(p) => p,
            Err(_) => return None,
        };
        if is_user {
            Some(PayloadEvent::UserMessage { message, phase })
        } else {
            Some(PayloadEvent::AgentMessage { message, phase })
        }
    } else if opt_text_is(tag.as_ref(), "exec_command_end") {
        let parsed_cmd = match decode_cmd_list(v) {
            Some(cs) => cs,
            None => return None,
        };
        let aggregated_output = match defaulted_string_of(v, "aggregated_output") {
            Ok(s) => s,
            Err(_) => return None,
        };
        Some(PayloadEvent::ExecCommandEnd { parsed_cmd, aggregated_output })
    } else {
        None
    }
}

/// A present member, or `null`.
pub open spec fn member_or_null(v: JsonValue, key: Seq<char>) -> JsonValue {
    match jget(v, key) {
        Some(x) => x,
        None => JsonValue::Null,
    }
}

/// The event of a `response_item` payload: a user or assistant message (its content as
/// text), an exec tool call, or a tool call's output; nothing for anything else.
pub open spec fn response_item_event(p: JsonValue) -> Option<NormalizedView> {
    let ptype = str_field(p, "type"@);
    if ptype == Some("message"@) {
        let message = payload_text(p, "content"@);
        let phase = str_field(p, "phase"@);
        match str_field(p, "role"@) {
            Some(role) => if role == "user"@ {
                Some(NormalizedView::Payload(PayloadView::UserMessage { message, phase }))
            } else if role == "assistant"@ {
                Some(NormalizedView::Payload(PayloadView::AgentMessage { message, phase }))
            } else {
                None
            },
            None => None,
        }
    } else if (ptype == Some("custom_tool_call"@) || ptype == Some("function_call"@))
        && is_exec_tool_payload(p) {
        let input = payload_text(p, "input"@);
        Some(
            NormalizedView::ExecToolCall {
                call_id: str_field(p, "call_id"@),
                kind: ptype->0,
                name: match str_field(p, "name"@) {
                    Some(n) => n,
                    None => "exec"@,
                },
                input: if all_white(input) {
                    payload_text(p, "arguments"@)
                } else {
                    input
                },
            },
        )
    } else if ptype == Some("custom_tool_call_output"@) || ptype == Some("function_call_output"@) {
        Some(
            NormalizedView::ExecToolOutput {
                call_id: str_field(p, "call_id"@),
                output: payload_text(p, "output"@),
            },
        )
    } else {
        None
    }
}

/// The event of a `response_item` payload (see [`response_item_event`]).
pub fn normalize_response_item(p: &JsonValue) -> (r: Option<NormalizedEvent>)
    ensures
        match r {
            Some(e) => response_item_event(*p) == Some(e@),
            None => response_item_event(*p) is None,
        },
{
    let ptype = p.str_field("type");
    if opt_text_is(ptype.as_ref(), "message") {
        let message = payload_text_of(p, "content");
        let phase = p.str_field("phase");
        return match p.str_field("role") {
            Some(role) => if text_is_user(&role) {
                Some(NormalizedEvent::Payload(PayloadEvent::UserMessage { message, phase }))
            } else if crate::text::text_is(&role, "assistant") {
                Some(NormalizedEvent::Payload(PayloadEvent::AgentMessage { message, phase }))
            } else {
                None
            },
            None => None,
        };
    }
    let name = p.str_field("name");
    let is_exec = opt_text_is(name.as_ref(), "exec") || opt_text_is(name.as_ref(), "exec_command");
    if (opt_text_is(ptype.as_ref(), "custom_tool_call") || opt_text_is(ptype.as_ref(), "function_call"))
        && is_exec {
        let kind = match ptype {
            Some(t) => t,
            None => String::from_str("tool_call"),
        };
        let input = payload_text_of(p, "input");
        let input = if is_blank(&chars_of(input.as_str())) {
            payload_text_of(p, "arguments")
        } else {
            input
        };
        return Some(
            NormalizedEvent::ExecToolCall {
                call_id: p.str_field("call_id"),
                kind,
                name: match name {
                    Some(n) => n,
                    None => String::from_str("exec"),
                },
                input,
            },
        );
    }
    if opt_text_is(ptype.as_ref(), "custom_tool_call_output") || opt_text_is(
        ptype.as_ref(),
        "function_call_output",
    ) {
        return Some(
            NormalizedEvent::ExecToolOutput {
                call_id: p.str_field("call_id"),
                output: payload_text_of(p, "output"),
            },
        );
    }
    None
}

/// Whether a role is `user`.
fn text_is_user(role: &String) -> (b: bool)
    ensures
        b == (role@ == "user"@),
{
    crate::text::text_is(role, "user")
}

/// What a record normalises to: an event where the record itself is one; else, for an object
/// whose `type` is missing, `null` or a string, the event of an `event_msg` payload or of a
/// `response_item` payload, or nothing; anything else is refused (`Err`).
pub open spec fn normalized_record(v: JsonValue) -> Result<Option<NormalizedView>, ()> {
    match decoded_payload(v) {
        Some(e) => Ok(Some(NormalizedView::Payload(e))),
        None => match v {
            JsonValue::Object(_, _) => match optional_string(v, "type"@) {
                None => Err(()),
                Some(rtype) => {
                    let payload = match jget(v, "payload"@) {
                        None => None,
                        Some(JsonValue::Null) => None,
                        Some(p) => Some(p),
                    };
                    if rtype == Some("event_msg"@) {
                        match payload {
                            Some(p) => match decoded_payload(p) {
                                Some(e) => Ok(Some(NormalizedView::Payload(e))),
                                None => Ok(None),
                            },
                            None => Ok(None),
                        }
                    } else if rtype == Some("response_item"@) {
                        match payload {
                            Some(p) => Ok(response_item_event(p)),
                            None => Ok(None),
                        }
                    } else {
                        Ok(None)
                    }
                },
            },
            _ => Err(()),
        },
    }
}

/// The view of a normalisation result.
pub open spec fn normalized_result_view(r: Result<Option<NormalizedEvent>, ()>) -> Result<Option<NormalizedView>, ()> {
    match r {
        Ok(Some(e)) => Ok(Some(e@)),
        Ok(None) => Ok(None),
        Err(_) => Err(()),
    }
}

/// Normalises one record (see [`normalized_record`]).
pub fn normalize_record(v: &JsonValue) -> (r: Result<Option<NormalizedEvent>, ()>)
    ensures
        normalized_result_view(r) == normalized_record(*v),
{
    match decode_payload(v) {
        Some(e) => return Ok(Some(NormalizedEvent::Payload(e))),
        None => {},
    }
    match v {
        JsonValue::Object(_, _) => {},
        _ => return Err(()),
    }
    let rtype = match optional_string_of(v, "type") {
        Ok(t) => t,
        Err(_) => return Err(()),
    };
    let payload = match v.get("payload") {
        None => None,
        Some(JsonValue::Null) => None,
        Some(p) => Some(p),
    };
    if opt_text_is(rtype.as_ref(), "event_msg") {
        match payload {
            Some(p) => match decode_payload(p) {
                Some(e) => Ok(Some(NormalizedEvent::Payload(e))),
                None => Ok(None),
            },
            None => Ok(None),
        }
    } else if opt_text_is(rtype.as_ref(), "response_item") {
        match payload {
            Some(p) => Ok(normalize_response_item(p)),
            None => Ok(None),
        }
    } else {
        Ok(None)
    }
}

/// What kind of timeline entry an entry is.
#[derive(Debug, Clone, Copy, PartialEq, Eq, Structural)]
pub enum EntryKind {
    User,
    Agent,
    Exec,
}

/// One timeline entry: its position, kind, one-line title and detail text.
#[derive(Debug, Clone, PartialEq, Eq)]
pub struct Entry {
    pub index: usize,
    pub kind: EntryKind,
    pub title: String,
    pub detail: String,
}

/// A timeline entry as a mathematical value.
pub struct EntryView {
    pub index: int,
    pub kind: EntryKind,
    pub title: Seq<char>,
    pub detail: Seq<char>,
}

impl View for Entry {
    type V = EntryView;

    open spec fn view(&self) -> EntryView {
        EntryView { index: self.index as int, kind: self.kind, title: self.title@, detail: self.detail@ }
    }
}

/// The views of entries.
pub open spec fn entry_views(entries: Seq<Entry>) -> Seq<EntryView> {
    entries.map_values(|e: Entry| e@)
}

/// `s` with zeros in front up to `width` characters.
pub open spec fn zero_padded(s: Seq<char>, width: nat) -> Seq<char> {
    if s.len() >= width {
        s
    } else {
        Seq::new((width - s.len()) as nat, |i: int| '0') + s
    }
}

/// An entry's position as its title shows it: `#` and at least four digits.
pub open spec fn index_label(index: nat) -> Seq<char> {
    "#"@ + zero_padded(crate::text::decimal(index), 4)
}

/// An entry's position as its title shows it (see [`index_label`]).
pub fn index_label_text(index: usize) -> (r: String)
    ensures
        r@ == index_label(index as nat),
{
    let digits = chars_of(crate::text::decimal_text(index as u64).as_str());
    let mut cs: Vec<char> = vec!['#'];
    let mut k: usize = digits.len();
    while k < 4
        invariant
            digits.len() <= k <= 4 || (digits.len() > 4 && k == digits.len()),
            cs@ == seq!['#'] + Seq::new((k - digits@.len()) as nat, |i: int| '0'),
        decreases 4 - k,
    {
        cs.push('0');
        assert(cs@ =~= seq!['#'] + Seq::new((k + 1 - digits@.len()) as nat, |i: int| '0'));
        k = k + 1;
    }
    let ghost zeros = Seq::new((k - digits@.len()) as nat, |i: int| '0');
    let mut m: usize = 0;
    while m < digits.len()
        invariant
            m <= digits@.len(),
            cs@ == seq!['#'] + zeros + digits@.take(m as int),
        decreases digits.len() - m,
    {
        cs.push(digits[m]);
        assert(cs@ =~= seq!['#'] + zeros + digits@.take(m + 1));
        m = m + 1;
    }
    assert(digits@.take(digits@.len() as int) =~= digits@);
    proof {
        reveal_strlit("#");
        if digits@.len() >= 4 {
            assert(zeros =~= Seq::<char>::empty());
        }
    }
    assert(cs@ =~= index_label(index as nat));
    crate::text::string_of(&cs)
}

/// ` [phase]` for a non-empty phase, else nothing.
pub open spec fn phase_suffix(phase: Option<Seq<char>>) -> Seq<char> {
    match phase {
        Some(p) => if p.len() > 0 {
            " ["@ + p + "]"@
        } else {
            Seq::empty()
        },
        None => Seq::empty(),
    }
}

/// ` [phase]` for a non-empty phase, else nothing.
pub fn phase_suffix_text(phase: &Option<String>) -> (r: String)
    ensures
        r@ == phase_suffix(opt_view(*phase)),
{
    match phase {
        Some(p) => {
            if p.as_str().is_empty() {
                String::new()
            } else {
                let mut out = String::from_str(" [");
                out.append(p.as_str());
                out.append("]");
                out
            }
        },
        None => String::new(),
    }
}

/// `s` with each line feed turned into a space.
pub open spec fn one_line(s: Seq<char>) -> Seq<char> {
    s.map_values(|c: char| if c == '\n' { ' ' } else { c })
}

/// The first `max` characters of `s`, and `…` where more followed.
pub open spec fn truncated(s: Seq<char>, max: nat) -> Seq<char> {
    if s.len() <= max {
        s
    } else {
        s.take(max as int).push('\u{2026}')
    }
}

/// `s` with each line feed turned into a space.
pub fn one_line_text(s: &str) -> (r: Vec<char>)
    ensures
        r@ == one_line(s@),
{
    let cs = chars_of(s);
    let mut out: Vec<char> = Vec::new();
    let mut i: usize = 0;
    while i < cs.len()
        invariant
            i <= cs@.len(),
            cs@ == s@,
            out@ == one_line(cs@.take(i as int)),
        decreases cs.len() - i,
    {
        let c = cs[i];
        out.push(if c == '\n' { ' ' } else { c });
        assert(out@ =~= one_line(cs@.take(i + 1)));
        i = i + 1;
    }
    assert(cs@.take(cs@.len() as int) =~= cs@);
    out
}

/// The first `max_chars` characters of `value`, and `…` where more followed.
pub fn truncate(value: &[char], max_chars: usize) -> (r: String)
    ensures
        r@ == truncated(value@, max_chars as nat),
{
    if value.len() <= max_chars {
        crate::text::string_of(value)
    } else {
        let mut head = crate::text::copy_range(value, 0, max_chars);
        head.push('\u{2026}');
        assert(head@ =~= value@.take(max_chars as int).push('\u{2026}'));
        crate::text::string_of(&head)
    }
}

/// A command's one-line summary: its non-empty name, else its non-empty path, else its
/// command on one line, cut at 80 characters.
pub open spec fn cmd_summary(c: ParsedCmdView) -> Seq<char> {
    if c.name is Some && c.name->0.len() > 0 {
        c.name->0
    } else if c.path is Some && c.path->0.len() > 0 {
        c.path->0
    } else {
        truncated(one_line(c.cmd), 80)
    }
}

/// A parsed command's name, where it has a non-empty one.
pub open spec fn named(c: ParsedCmdView) -> bool {
    c.name matches Some(n) && n.len() > 0
}

/// A parsed command's path, where it has a non-empty one.
pub open spec fn pathed(c: ParsedCmdView) -> bool {
    c.path matches Some(p) && p.len() > 0
}

/// How a parsed command is summed up: by its non-empty name; without one, by its non-empty
/// path; without either, by its command with each line feed turned into a space, cut after 80
/// characters, where a final `…` marks that more followed. An exec entry of one command is
/// titled by its position, `EXEC` and that summary.
pub proof fn lemma_cmd_summary(c: ParsedCmdView, index: nat, output: Seq<char>)
    ensures
        named(c) ==> cmd_summary(c) == c.name->0,
        !named(c) && pathed(c) ==> cmd_summary(c) == c.path->0,
        !named(c) && !pathed(c) ==> {
            let s = cmd_summary(c);
            &&& s.len() == if c.cmd.len() <= 80 {
                c.cmd.len()
            } else {
                81
            }
            &&& forall|i: int| 0 <= i < s.len() && i < 80 && i < c.cmd.len() ==> s[i] == if c.cmd[i] == '\n' {
                ' '
            } else {
                c.cmd[i]
            }
            &&& c.cmd.len() > 80 ==> s[80] == '\u{2026}'
        },
        entry_of(index, PayloadView::ExecCommandEnd { parsed_cmd: seq![c], aggregated_output: output }).title
            == index_label(index) + " EXEC "@ + cmd_summary(c),
        !named(c) && pathed(c) ==> entry_of(
            index,
            PayloadView::ExecCommandEnd { parsed_cmd: seq![c], aggregated_output: output },
        ).title == index_label(index) + " EXEC "@ + c.path->0,
{
    let cs = seq![c];
    assert(cs.map_values(|x: ParsedCmdView| cmd_summary(x)) =~= seq![cmd_summary(c)]);
}

/// A command's one-line summary (see [`cmd_summary`]).
pub fn format_cmd_summary(c: &ParsedCmd) -> (r: String)
    ensures
        r@ == cmd_summary(c@),
{
    match &c.name {
        Some(n) => if !n.as_str().is_empty() {
            return n.clone();
        },
        None => {},
    }
    match &c.path {
        Some(p) => if !p.as_str().is_empty() {
            return p.clone();
        },
        None => {},
    }
    truncate(&one_line_text(c.cmd.as_str()), 80)
}

/// `label` and the text, where there is one.
pub open spec fn labelled(label: Seq<char>, o: Option<Seq<char>>) -> Seq<Seq<char>> {
    match o {
        Some(x) => seq![label + x],
        None => Seq::empty(),
    }
}

/// A command's detail: its type, name and path joined by ` | ` on a line where it has any,
/// then `$ ` and the command.
pub open spec fn cmd_detail(c: ParsedCmdView) -> Seq<char> {
    let parts = labelled("type: "@, c.kind) + labelled("name: "@, c.name) + labelled("path: "@, c.path);
    (if parts.len() == 0 {
        Seq::empty()
    } else {
        crate::text::join(parts, " | "@) + "\n"@
    }) + "$ "@ + c.cmd
}

/// Pushes `label` and the text where there is one.
fn push_labelled(parts: &mut Vec<String>, label: &str, o: &Option<String>)
    ensures
        crate::listing::string_views(final(parts)@) == crate::listing::string_views(old(parts)@) + labelled(label@, opt_view(*o)),
{
    let ghost before = crate::listing::string_views(parts@);
    match o {
        Some(x) => {
            let mut t = String::from_str(label);
            t.append(x.as_str());
            parts.push(t);
            assert(crate::listing::string_views(parts@) =~= before + labelled(label@, opt_view(*o)));
        },
        None => {
            assert(crate::listing::string_views(parts@) =~= before + labelled(label@, opt_view(*o)));
        },
    }
}

/// A command's detail (see [`cmd_detail`]).
pub fn format_cmd_detail(c: &ParsedCmd) -> (r: String)
    ensures
        r@ == cmd_detail(c@),
{
    let mut parts: Vec<String> = Vec::new();
    assert(crate::listing::string_views(parts@) =~= Seq::<Seq<char>>::empty());
    push_labelled(&mut parts, "type: ", &c.kind);
    push_labelled(&mut parts, "name: ", &c.name);
    push_labelled(&mut parts, "path: ", &c.path);
    assert(crate::listing::string_views(parts@) =~= labelled("type: "@, c@.kind) + labelled(
        "name: "@,
        c@.name,
    ) + labelled("path: "@, c@.path));
    let mut out = if parts.len() == 0 {
        String::new()
    } else {
        let mut m = crate::text::join_strings(&parts, " | ");
        m.append("\n");
        m
    };
    out.append("$ ");
    out.append(c.cmd.as_str());
    out
}

/// The detail lines of a list of commands, each ending in a line feed.
pub open spec fn cmd_lines(cmds: Seq<ParsedCmdView>) -> Seq<char>
    decreases cmds.len(),
{
    if cmds.len() == 0 {
        Seq::empty()
    } else {
        cmd_lines(cmds.drop_last()) + cmd_detail(cmds.last()) + "\n"@
    }
}

/// The entry that a shown event at position `index` gives.
pub open spec fn entry_of(index: nat, e: PayloadView) -> EntryView {
    match e {
        PayloadView::UserMessage { message, phase } => EntryView {
            index: index as int,
            kind: EntryKind::User,
            title: index_label(index) + " USER"@ + phase_suffix(phase),
            detail: message,
        },
        PayloadView::AgentMessage { message, phase } => EntryView {
            index: index as int,
            kind: EntryKind::Agent,
            title: index_label(index) + " AGENT"@ + phase_suffix(phase),
            detail: message,
        },
        PayloadView::ExecCommandEnd { parsed_cmd, aggregated_output } => EntryView {
            index: index as int,
            kind: EntryKind::Exec,
            title: index_label(index) + " EXEC "@ + crate::text::join(
                parsed_cmd.map_values(|c: ParsedCmdView| cmd_summary(c)),
                " && "@,
            ),
            detail: (if parsed_cmd.len() > 0 {
                "COMMANDS\n"@ + "--------\n"@ + cmd_lines(parsed_cmd) + "\n"@
            } else {
                Seq::empty()
            }) + "OUTPUT\n"@ + "------\n"@ + aggregated_output,
        },
    }
}

/// The entry that a shown event at position `index` gives (see [`entry_of`]).
pub fn to_entry(index: usize, event: &PayloadEvent) -> (r: Entry)
    ensures
        r@ == entry_of(index as nat, event@),
{
    match event {
        PayloadEvent::UserMessage { message, phase } => {
            let mut title = index_label_text(index);
            title.append(" USER");
            title.append(phase_suffix_text(phase).as_str());
            Entry { index, kind: EntryKind::User, title, detail: message.clone() }
        },
        PayloadEvent::AgentMessage { message, phase } => {
            let mut title = index_label_text(index);
            title.append(" AGENT");
            title.append(phase_suffix_text(phase).as_str());
            Entry { index, kind: EntryKind::Agent, title, detail: message.clone() }
        },
        PayloadEvent::ExecCommandEnd { parsed_cmd, aggregated_output } => {
            let ghost cv = cmd_views(parsed_cmd@);
            let mut summaries: Vec<String> = Vec::new();
            let mut lines = String::new();
            let mut k: usize = 0;
            while k < parsed_cmd.len()
                invariant
                    k <= parsed_cmd@.len(),
                    cv == cmd_views(parsed_cmd@),
                    crate::listing::string_views(summaries@) == cv.take(k as int).map_values(
                        |c: ParsedCmdView| cmd_summary(c),
                    ),
                    lines@ == cmd_lines(cv.take(k as int)),
                decreases parsed_cmd.len() - k,
            {
                let ghost before = crate::listing::string_views(summaries@);
                let s = format_cmd_summary(&parsed_cmd[k]);
                summaries.push(s);
                assert(crate::listing::string_views(summaries@) =~= before.push(s@));
                assert(cv.take(k + 1).map_values(|c: ParsedCmdView| cmd_summary(c)) =~= cv.take(
                    k as int,
                ).map_values(|c: ParsedCmdView| cmd_summary(c)).push(cmd_summary(cv[k as int])));
                assert(cv.take(k + 1).drop_last() =~= cv.take(k as int));
                lines.append(format_cmd_detail(&parsed_cmd[k]).as_str());
                lines.append("\n");
                k = k + 1;
            }
            assert(cv.take(parsed_cmd@.len() as int) =~= cv);
            let mut title = index_label_text(index);
            title.append(" EXEC ");
            title.append(crate::text::join_strings(&summaries, " && ").as_str());
            let mut detail = String::new();
            if parsed_cmd.len() > 0 {
                detail.append("COMMANDS\n");
                detail.append("--------\n");
                detail.append(lines.as_str());
                detail.append("\n");
            }
            detail.append("OUTPUT\n");
            detail.append("------\n");
            detail.append(aggregated_output.as_str());
            proof {
                if parsed_cmd@.len() == 0 {
                    assert(Seq::<char>::empty() + "OUTPUT\n"@ =~= "OUTPUT\n"@);
                }
            }
            Entry { index, kind: EntryKind::Exec, title, detail }
        },
    }
}

/// The first position at or after `i` where `needle` occurs in `s`.
pub open spec fn find_from(s: Seq<char>, needle: Seq<char>, i: int) -> Option<int>
    decreases s.len() + 1 - i,
{
    if i < 0 || i + needle.len() > s.len() {
        None
    } else if s.subrange(i, i + needle.len()) == needle {
        Some(i)
    } else {
        find_from(s, needle, i + 1)
    }
}

/// Where the balanced object that opens before position `i` closes: the scan keeps the
/// nesting `depth`, whether it is inside a string, and whether the last character was a
/// backslash inside a string.
pub open spec fn object_end(s: Seq<char>, i: int, depth: int, in_string: bool, escaped: bool) -> Option<int>
    decreases s.len() - i,
{
    if i < 0 || i >= s.len() {
        None
    } else {
        let c = s[i];
        if escaped {
            object_end(s, i + 1, depth, in_string, false)
        } else if c == '\\' && in_string {
            object_end(s, i + 1, depth, in_string, true)
        } else if c == '"' {
            object_end(s, i + 1, depth, !in_string, false)
        } else if c == '{' && !in_string {
            object_end(s, i + 1, depth + 1, in_string, false)
        } else if c == '}' && !in_string {
            let d = if depth > 0 {
                depth - 1
            } else {
                0
            };
            if d == 0 {
                Some(i)
            } else {
                object_end(s, i + 1, d, in_string, false)
            }
        } else {
            object_end(s, i + 1, depth, in_string, false)
        }
    }
}

/// The first balanced JSON object in `s`: from its first `{` to the `}` that closes it,
/// braces inside strings not counted.
pub open spec fn json_object_in(s: Seq<char>) -> Option<Seq<char>> {
    match find_from(s, seq!['{'], 0) {
        Some(start) => match object_end(s, start, 0, false, false) {
            Some(end) => Some(s.subrange(start, end + 1)),
            None => None,
        },
        None => None,
    }
}

/// The position of the first occurrence of `needle` in `s` at or after `from`.
fn find_chars(s: &[char], needle: &[char], from: usize) -> (r: Option<usize>)
    requires
        from <= s@.len(),
    ensures
        match r {
            Some(i) => find_from(s@, needle@, from as int) == Some(i as int),
            None => find_from(s@, needle@, from as int) is None,
        },
{
    let n: usize = s.len();
    let m: usize = needle.len();
    let mut i: usize = from;
    while i <= n && n - i >= m
        invariant
            from <= i,
            n == s@.len(),
            m == needle@.len(),
            find_from(s@, needle@, from as int) == find_from(s@, needle@, i as int),
        decreases n + 1 - i,
    {
        let mut k: usize = 0;
        let mut same = true;
        while k < m
            invariant
                k <= m,
                i + m <= n,
                n == s@.len(),
                m == needle@.len(),
                same <==> (forall|j: int| 0 <= j < k ==> s@[i + j] == needle@[j]),
            decreases m - k,
        {
            if s[i + k] != needle[k] {
                same = false;
            }
            k = k + 1;
        }
        if same {
            assert(s@.subrange(i as int, i + m) =~= needle@);
            return Some(i);
        }
        assert(s@.subrange(i as int, i + m) != needle@) by {
            let j = choose|j: int| 0 <= j < m && s@[i + j] != needle@[j];
            assert(s@.subrange(i as int, i + m)[j] != needle@[j]);
        }
        i = i + 1;
    }
    None
}

/// The first balanced JSON object in `s` (see [`json_object_in`]).
pub fn json_object_at(s: &[char]) -> (r: Option<Vec<char>>)
    ensures
        match r {
            Some(o) => json_object_in(s@) == Some(o@),
            None => json_object_in(s@) is None,
        },
{
    let open: Vec<char> = vec!['{'];
    assert(open@ =~= seq!['{']);
    let start = match find_chars(s, &open, 0) {
        Some(st) => st,
        None => return None,
    };
    proof {
        lemma_find_from_bound(s@, seq!['{'], 0, start as int);
    }
    let n: usize = s.len();
    let mut depth: usize = 0;
    let mut in_string = false;
    let mut escaped = false;
    let mut i: usize = start;
    while i < n
        invariant
            start <= i <= n == s@.len(),
            depth <= i - start,
            find_from(s@, seq!['{'], 0) == Some(start as int),
            object_end(s@, start as int, 0, false, false) == object_end(
                s@,
                i as int,
                depth as int,
                in_string,
                escaped,
            ),
        decreases n - i,
    {
        let c = s[i];
        if escaped {
            escaped = false;
        } else if c == '\\' && in_string {
            escaped = true;
        } else if c == '"' {
            in_string = !in_string;
        } else if c == '{' && !in_string {
            depth = depth + 1;
        } else if c == '}' && !in_string {
            depth = if depth > 0 {
                depth - 1
            } else {
                0
            };
            if depth == 0 {
                let obj = crate::text::copy_range(s, start, i + 1);
                return Some(obj);
            }
        }
        i = i + 1;
    }
    None
}

/// The command of an exec tool call's input: the `cmd` string of the input where it is JSON
/// holding one, else that of the first JSON object after `tools.exec_command(`.
pub open spec fn extracted_command(input: Seq<char>) -> Option<Seq<char>> {
    let direct = match crate::json::json_parse_result(input) {
        Ok(v) => str_field(v, "cmd"@),
        Err(_) => None,
    };
    if direct is Some {
        direct
    } else {
        match find_from(input, "tools.exec_command("@, 0) {
            Some(p) => match json_object_in(input.skip(p + "tools.exec_command("@.len())) {
                Some(obj) => match crate::json::json_parse_result(obj) {
                    Ok(v) => str_field(v, "cmd"@),
                    Err(_) => None,
                },
                None => None,
            },
            None => None,
        }
    }
}

/// The command of an exec tool call's input (see [`extracted_command`]).
pub fn extract_exec_command(input: &str) -> (r: Option<String>)
    ensures
        opt_view(r) == extracted_command(input@),
{
    match crate::json::parse_json(input) {
        Ok(v) => match v.str_field("cmd") {
            Some(c) => return Some(c),
            None => {},
        },
        Err(_) => {},
    }
    let cs = chars_of(input);
    let marker_text = "tools.exec_command(";
    let marker = chars_of(marker_text);
    let p = match find_chars(&cs, &marker, 0) {
        Some(p) => p,
        None => return None,
    };
    proof {
        lemma_find_from_bound(cs@, marker@, 0, p as int);
    }
    let total: usize = cs.len();
    let skip: usize = marker.len();
    assert(p + skip <= total);
    let rest = crate::text::copy_range(&cs, p + skip, total);
    assert(rest@ =~= input@.skip(p + marker_text@.len()));
    let obj = match json_object_at(&rest) {
        Some(o) => o,
        None => return None,
    };
    let obj_text = crate::text::string_of(&obj);
    match crate::json::parse_json(obj_text.as_str()) {
        Ok(v) => v.str_field("cmd"),
        Err(_) => None,
    }
}

proof fn lemma_find_from_bound(s: Seq<char>, needle: Seq<char>, i: int, p: int)
    requires
        find_from(s, needle, i) == Some(p),
    ensures
        i <= p,
        p + needle.len() <= s.len(),
    decreases s.len() + 1 - i,
{
    if !(i < 0 || i + needle.len() > s.len()) && s.subrange(i, i + needle.len()) != needle {
        lemma_find_from_bound(s, needle, i + 1, p);
    }
}

/// The entry that an exec tool call at position `index` gives; its output is appended later.
pub open spec fn tool_entry(
    index: nat,
    call_id: Option<Seq<char>>,
    kind: Seq<char>,
    name: Seq<char>,
    input: Seq<char>,
) -> EntryView {
    let command = match extracted_command(input) {
        Some(c) => c,
        None => input,
    };
    EntryView {
        index: index as int,
        kind: EntryKind::Exec,
        title: index_label(index) + " EXEC "@ + truncated(one_line(command), 80),
        detail: "COMMANDS\n"@ + "--------\n"@ + "type: "@ + kind + " | name: "@ + name + (match call_id {
            Some(id) => " | call_id: "@ + id,
            None => Seq::empty(),
        }) + "\n"@ + "$ "@ + command + "\n"@ + (if command != input {
            "\n"@ + "RAW INPUT\n"@ + "---------\n"@ + input + "\n"@
        } else {
            Seq::empty()
        }) + "\n"@ + "OUTPUT\n"@ + "------\n"@,
    }
}

/// The entry that an exec tool call at position `index` gives (see [`tool_entry`]).
pub fn to_exec_tool_entry(index: usize, call_id: &Option<String>, kind: &str, name: &str, input: &str) -> (r: Entry)
    ensures
        r@ == tool_entry(index as nat, opt_view(*call_id), kind@, name@, input@),
{
    let command = match extract_exec_command(input) {
        Some(c) => c,
        None => String::from_str(input),
    };
    let summary = truncate(&one_line_text(command.as_str()), 80);
    let mut title = index_label_text(index);
    title.append(" EXEC ");
    title.append(summary.as_str());
    let mut detail = String::from_str("COMMANDS\n");
    detail.append("--------\n");
    detail.append("type: ");
    detail.append(kind);
    detail.append(" | name: ");
    detail.append(name);
    let ghost before_id = detail@;
    match call_id {
        Some(id) => {
            detail.append(" | call_id: ");
            detail.append(id.as_str());
            assert(detail@ =~= before_id + (" | call_id: "@ + id@));
        },
        None => {
            assert(detail@ =~= before_id + Seq::<char>::empty());
        },
    }
    detail.append("\n");
    detail.append("$ ");
    detail.append(command.as_str());
    detail.append("\n");
    let input_text = String::from_str(input);
    let ghost before_raw = detail@;
    if !command.eq(&input_text) {
        detail.append("\n");
        detail.append("RAW INPUT\n");
        detail.append("---------\n");
        detail.append(input);
        detail.append("\n");
        assert(detail@ =~= before_raw + ("\n"@ + "RAW INPUT\n"@ + "---------\n"@ + input@ + "\n"@));
    } else {
        assert(detail@ =~= before_raw + Seq::<char>::empty());
    }
    detail.append("\n");
    detail.append("OUTPUT\n");
    detail.append("------\n");
    Entry { index, kind: EntryKind::Exec, title, detail }
}

/// Why replay input was refused; the parser's message where there is one.
#[derive(Debug, Clone, PartialEq, Eq)]
pub enum ReplayError {
    InvalidArray(Option<String>),
    InvalidStream(String),
    InvalidRecord,
}

/// A replay error as a mathematical value.
pub enum ReplayErrorView {
    InvalidArray(Option<Seq<char>>),
    InvalidStream(Seq<char>),
    InvalidRecord,
}

impl View for ReplayError {
    type V = ReplayErrorView;

    open spec fn view(&self) -> ReplayErrorView {
        match self {
            ReplayError::InvalidArray(m) => ReplayErrorView::InvalidArray(opt_view(*m)),
            ReplayError::InvalidStream(m) => ReplayErrorView::InvalidStream(m@),
            ReplayError::InvalidRecord => ReplayErrorView::InvalidRecord,
        }
    }
}

/// The message of a replay error.
pub open spec fn replay_error_text(e: ReplayErrorView) -> Seq<char> {
    match e {
        ReplayErrorView::InvalidArray(_) => "invalid json array input"@,
        ReplayErrorView::InvalidStream(_) => "invalid json/jsonl stream object"@,
        ReplayErrorView::InvalidRecord => "invalid top-level codex record"@,
    }
}

impl ReplayError {
    /// The message of this error.
    pub fn message(&self) -> (r: &'static str)
        ensures
            r@ == replay_error_text(self@),
    {
        match self {
            ReplayError::InvalidArray(_) => "invalid json array input",
            ReplayError::InvalidStream(_) => "invalid json/jsonl stream object",
            ReplayError::InvalidRecord => "invalid top-level codex record",
        }
    }
}

/// The JSON values of replay input: the items of a JSON array where the text starts with `[`,
/// else the stream of JSON values it holds.
pub open spec fn json_values_of(text: Seq<char>) -> Result<Seq<JsonValue>, ReplayErrorView> {
    if text.len() > 0 && text[0] == '[' {
        match crate::json::json_parse_result(text) {
            Ok(JsonValue::Array(items)) => Ok(items@),
            Ok(_) => Err(ReplayErrorView::InvalidArray(None)),
            Err(m) => Err(ReplayErrorView::InvalidArray(Some(m))),
        }
    } else {
        match crate::json::json_stream_result(text) {
            Ok(values) => Ok(values),
            Err(m) => Err(ReplayErrorView::InvalidStream(m)),
        }
    }
}

/// The JSON values of replay input (see [`json_values_of`]).
pub fn parse_json_values(text: &str) -> (r: Result<Vec<JsonValue>, ReplayError>)
    ensures
        match r {
            Ok(vs) => json_values_of(text@) == Ok::<Seq<JsonValue>, ReplayErrorView>(vs@),
            Err(e) => json_values_of(text@) == Err::<Seq<JsonValue>, ReplayErrorView>(e@),
        },
{
    let cs = chars_of(text);
    if cs.len() > 0 && cs[0] == '[' {
        match crate::json::parse_json(text) {
            Ok(JsonValue::Array(items)) => Ok(items),
            Ok(_) => Err(ReplayError::InvalidArray(None)),
            Err(m) => Err(ReplayError::InvalidArray(Some(m))),
        }
    } else {
        match crate::json::parse_json_stream(text) {
            Ok(values) => Ok(values),
            Err(m) => Err(ReplayError::InvalidStream(m)),
        }
    }
}

/// The last exec tool entry that carries call id `id`.
pub open spec fn last_call(ids: Seq<Option<Seq<char>>>, id: Seq<char>) -> Option<int>
    decreases ids.len(),
{
    if ids.len() == 0 {
        None
    } else if ids.last() == Some(id) {
        Some(ids.len() - 1)
    } else {
        last_call(ids.drop_last(), id)
    }
}

/// The timeline after one normalised record: shown events and, where exec entries are
/// included, exec tool calls become entries; a tool call's output is appended to the last exec
/// tool entry with its call id. Each entry's call id is kept beside it.
pub open spec fn replay_step(
    st: (Seq<EntryView>, Seq<Option<Seq<char>>>),
    ev: NormalizedView,
    include_exec: bool,
) -> (Seq<EntryView>, Seq<Option<Seq<char>>>) {
    match ev {
        NormalizedView::Payload(e) => if !include_exec && e is ExecCommandEnd {
            st
        } else {
            (st.0.push(entry_of(st.0.len(), e)), st.1.push(None))
        },
        NormalizedView::ExecToolCall { call_id, kind, name, input } => if !include_exec {
            st
        } else {
            (st.0.push(tool_entry(st.0.len(), call_id, kind, name, input)), st.1.push(call_id))
        },
        NormalizedView::ExecToolOutput { call_id, output } => match call_id {
            Some(id) => match last_call(st.1, id) {
                Some(k) => (
                    st.0.update(k, EntryView { detail: st.0[k].detail + output, ..st.0[k] }),
                    st.1,
                ),
                None => st,
            },
            None => st,
        },
    }
}

/// The timeline of a sequence of JSON values, or `Err` where one is not a record.
pub open spec fn replay_fold(values: Seq<JsonValue>, include_exec: bool) -> Result<
    (Seq<EntryView>, Seq<Option<Seq<char>>>),
    (),
>
    decreases values.len(),
{
    if values.len() == 0 {
        Ok((Seq::empty(), Seq::empty()))
    } else {
        match replay_fold(values.drop_last(), include_exec) {
            Err(_) => Err(()),
            Ok(st) => match normalized_record(values.last()) {
                Err(_) => Err(()),
                Ok(None) => Ok(st),
                Ok(Some(ev)) => Ok(replay_step(st, ev, include_exec)),
            },
        }
    }
}

/// The timeline entries of replay input: none for blank input; else the entries of its JSON
/// values (see [`replay_fold`]), or why it was refused.
pub open spec fn loaded_entries(input: Seq<char>, include_exec: bool) -> Result<Seq<EntryView>, ReplayErrorView> {
    let t = crate::text::trim(input);
    if t.len() == 0 {
        Ok(Seq::empty())
    } else {
        match json_values_of(t) {
            Err(e) => Err(e),
            Ok(values) => match replay_fold(values, include_exec) {
                Ok(st) => Ok(st.0),
                Err(_) => Err(ReplayErrorView::InvalidRecord),
            },
        }
    }
}

proof fn lemma_last_call(ids: Seq<Option<Seq<char>>>, id: Seq<char>)
    ensures
        last_call(ids, id) matches Some(k) ==> 0 <= k < ids.len() && ids[k] == Some(id),
    decreases ids.len(),
{
    if ids.len() > 0 {
        lemma_last_call(ids.drop_last(), id);
    }
}

proof fn lemma_replay_fold_refused(values: Seq<JsonValue>, i: int, include_exec: bool)
    requires
        0 <= i < values.len(),
        replay_fold(values.take(i + 1), include_exec) is Err,
    ensures
        replay_fold(values, include_exec) is Err,
    decreases values.len(),
{
    if i + 1 < values.len() {
        assert(values.drop_last().take(i + 1) =~= values.take(i + 1));
        lemma_replay_fold_refused(values.drop_last(), i, include_exec);
    } else {
        assert(values.take(i + 1) =~= values);
    }
}

/// The index of the last exec tool entry that carries call id `id`.
fn last_call_index(ids: &Vec<Option<String>>, id: &String) -> (r: Option<usize>)
    ensures
        match r {
            Some(k) => last_call(ids@.map_values(|o: Option<String>| opt_view(o)), id@) == Some(k as int),
            None => last_call(ids@.map_values(|o: Option<String>| opt_view(o)), id@) is None,
        },
{
    let ghost iv = ids@.map_values(|o: Option<String>| opt_view(o));
    let mut i: usize = ids.len();
    assert(iv.take(iv.len() as int) =~= iv);
    while i > 0
        invariant
            i <= ids@.len(),
            iv == ids@.map_values(|o: Option<String>| opt_view(o)),
            last_call(iv, id@) == last_call(iv.take(i as int), id@),
        decreases i,
    {
        assert(iv.take(i as int).drop_last() =~= iv.take(i - 1));
        assert(iv.take(i as int).last() == opt_view(ids@[i - 1]));
        let matched = match &ids[i - 1] {
            Some(c) => c.eq(id),
            None => false,
        };
        if matched {
            return Some(i - 1);
        }
        i = i - 1;
    }
    None
}

/// The timeline entries of replay input (see [`loaded_entries`]).
/// The timeline of parsed replay records, in order (see [`replay_fold`]): `InvalidRecord` where
/// a value is not a record.
pub fn entries_from_values(values: &[JsonValue], include_exec: bool) -> (r: Result<Vec<Entry>, ReplayError>)
    ensures
        match replay_fold(values@, include_exec) {
            Ok(st) => r matches Ok(es) && entry_views(es@) == st.0,
            Err(_) => r matches Err(e) && e == ReplayError::InvalidRecord,
        },
{
    let mut entries: Vec<Entry> = Vec::new();
    let mut call_ids: Vec<Option<String>> = Vec::new();
    let mut i: usize = 0;
    assert(values@.take(0) =~= Seq::<JsonValue>::empty());
    assert(entry_views(entries@) =~= Seq::<EntryView>::empty());
    assert(call_ids@.map_values(|o: Option<String>| opt_view(o)) =~= Seq::<Option<Seq<char>>>::empty());
    while i < values.len()
        invariant
            i <= values@.len(),
            call_ids@.len() == entries@.len(),
            replay_fold(values@.take(i as int), include_exec) == Ok::<
                (Seq<EntryView>, Seq<Option<Seq<char>>>),
                (),
            >((entry_views(entries@), call_ids@.map_values(|o: Option<String>| opt_view(o)))),
        decreases values.len() - i,
    {
        assert(values@.take(i + 1).drop_last() =~= values@.take(i as int));
        assert(values@.take(i + 1).last() == values@[i as int]);
        let ghost ev0 = entry_views(entries@);
        let ghost ids0 = call_ids@.map_values(|o: Option<String>| opt_view(o));
        let event = match normalize_record(&values[i]) {
            Ok(e) => e,
            Err(_) => {
                proof {
                    lemma_replay_fold_refused(values@, i as int, include_exec);
                }
                return Err(ReplayError::InvalidRecord);
            },
        };
        match event {
            None => {},
            Some(NormalizedEvent::Payload(e)) => {
                let is_exec_end = match &e {
                    PayloadEvent::ExecCommandEnd { .. } => true,
                    _ => false,
                };
                if include_exec || !is_exec_end {
                    let index = entries.len();
                    let entry = to_entry(index, &e);
                    entries.push(entry);
                    call_ids.push(None);
                    assert(entry_views(entries@) =~= ev0.push(entry@));
                    assert(call_ids@.map_values(|o: Option<String>| opt_view(o)) =~= ids0.push(None));
                }
            },
            Some(NormalizedEvent::ExecToolCall { call_id, kind, name, input }) => {
                if include_exec {
                    let index = entries.len();
                    let entry = to_exec_tool_entry(index, &call_id, kind.as_str(), name.as_str(), input.as_str());
                    entries.push(entry);
                    call_ids.push(call_id);
                    assert(entry_views(entries@) =~= ev0.push(entry@));
                    assert(call_ids@.map_values(|o: Option<String>| opt_view(o)) =~= ids0.push(
                        opt_view(call_id),
                    ));
                }
            },
            Some(NormalizedEvent::ExecToolOutput { call_id, output }) => {
                match call_id {
                    Some(id) => match last_call_index(&call_ids, &id) {
                        Some(k) => {
                            proof {
                                lemma_last_call(ids0, id@);
                            }
                            let old_entry = &entries[k];
                            let mut detail = old_entry.detail.clone();
                            detail.append(output.as_str());
                            let updated = Entry {
                                index: old_entry.index,
                                kind: old_entry.kind,
                                title: old_entry.title.clone(),
                                detail,
                            };
                            entries.set(k, updated);
                            assert(entry_views(entries@) =~= ev0.update(
                                k as int,
                                EntryView { detail: ev0[k as int].detail + output@, ..ev0[k as int] },
                            ));
                        },
                        None => {},
                    },
                    None => {},
                }
            },
        }
        i = i + 1;
    }
    assert(values@.take(values@.len() as int) =~= values@);
    Ok(entries)
}

pub fn load_entries_from_str(input: &str, include_exec: bool) -> (r: Result<Vec<Entry>, ReplayError>)
    ensures
        match r {
            Ok(es) => loaded_entries(input@, include_exec) == Ok::<Seq<EntryView>, ReplayErrorView>(entry_views(es@)),
            Err(e) => loaded_entries(input@, include_exec) == Err::<Seq<EntryView>, ReplayErrorView>(e@),
        },
{
    let trimmed_chars = crate::text::trim_chars(&chars_of(input));
    if trimmed_chars.len() == 0 {
        let es: Vec<Entry> = Vec::new();
        assert(entry_views(es@) =~= Seq::<EntryView>::empty());
        return Ok(es);
    }
    let trimmed = crate::text::string_of(&trimmed_chars);
    let values = match parse_json_values(trimmed.as_str()) {
        Ok(vs) => vs,
        Err(e) => return Err(e),
    };
    entries_from_values(&values, include_exec)
}

/// Laws of [`load_entries_from_str`], whose result is `loaded_entries(input, include_exec)`:
/// input of white space alone gives no entries; asking for exec entries never changes whether
/// the input is refused, nor why; each entry is numbered by its position, and its title begins
/// with that number's label and a space; without exec entries requested none is an exec entry;
/// and the user and agent entries, each with its detail, come in the same order either way.
pub proof fn lemma_load_entries_laws(input: Seq<char>)
    ensures
        crate::text::trim(input).len() == 0 ==> loaded_entries(input, false) == Ok::<Seq<EntryView>, ReplayErrorView>(Seq::empty())
            && loaded_entries(input, true) == Ok::<Seq<EntryView>, ReplayErrorView>(Seq::empty()),
        (loaded_entries(input, false) is Err) <==> (loaded_entries(input, true) is Err),
        (loaded_entries(input, false) is Err) ==> loaded_entries(input, false) == loaded_entries(input, true),
        forall|include_exec: bool| #[trigger] loaded_entries(input, include_exec) matches Ok(es) ==> {
            &&& forall|k: int| 0 <= k < es.len() ==> (#[trigger] es[k]).index == k
            &&& forall|k: int| 0 <= k < es.len() ==> numbered_title((#[trigger] es[k]).title, k as nat)
        },
        loaded_entries(input, false) matches Ok(ef) ==> {
            &&& forall|k: int| 0 <= k < ef.len() ==> (#[trigger] ef[k]).kind != EntryKind::Exec
            &&& loaded_entries(input, true) matches Ok(et) && message_parts(ef) == message_parts(et)
        },
{
    let t = crate::text::trim(input);
    if t.len() > 0 {
        match json_values_of(t) {
            Ok(values) => {
                lemma_folds_agree(values);
                lemma_fold_keeps_order(values, false);
                lemma_fold_keeps_order(values, true);
            },
            Err(_) => {},
        }
    }
}

/// The label of an entry kind in the timeline, five characters wide.
pub open spec fn kind_text(kind: EntryKind) -> Seq<char> {
    match kind {
        EntryKind::User => "USER "@,
        EntryKind::Agent => "AGENT"@,
        EntryKind::Exec => "EXEC "@,
    }
}

/// The label of an entry kind in the timeline.
pub fn kind_label(kind: EntryKind) -> (r: &'static str)
    ensures
        r@ == kind_text(kind),
{
    match kind {
        EntryKind::User => "USER ",
        EntryKind::Agent => "AGENT",
        EntryKind::Exec => "EXEC ",
    }
}

/// Which pane of the replay view has the focus.
#[derive(Debug, Clone, Copy, PartialEq, Eq, Structural)]
pub enum ReplayFocus {
    Timeline,
    Detail,
}

/// Which pane, if any, fills the replay view.
#[derive(Debug, Clone, Copy, PartialEq, Eq, Structural)]
pub enum Fullscreen {
    Off,
    Timeline,
    Detail,
}

/// What a key press asks of the program running the replay view.
#[derive(Debug, Clone, PartialEq, Eq)]
pub enum ReplayAction {
    Quit,
    /// Copy this text to the clipboard, then report the outcome with `copy_finished`.
    Copy(String),
}

/// The state of the replay view.
#[derive(Debug, Clone)]
pub struct ReplayApp {
    pub entries: Vec<Entry>,
    pub selected: Option<usize>,
    pub detail_scroll: u16,
    pub focus: ReplayFocus,
    pub fullscreen: Fullscreen,
    pub show_help: bool,
    pub status: Option<String>,
}

/// The replay view's state apart from its entries.
pub struct ReplayUi {
    pub selected: Option<usize>,
    pub detail_scroll: u16,
    pub focus: ReplayFocus,
    pub fullscreen: Fullscreen,
    pub show_help: bool,
    pub status: Option<Seq<char>>,
}

/// What a key press asks for, as a mathematical value.
pub enum ReplayActionView {
    Continue,
    Quit,
    Copy(Seq<char>),
}

impl ReplayApp {
    /// The state apart from the entries.
    pub open spec fn ui(&self) -> ReplayUi {
        ReplayUi {
            selected: self.selected,
            detail_scroll: self.detail_scroll,
            focus: self.focus,
            fullscreen: self.fullscreen,
            show_help: self.show_help,
            status: opt_view(self.status),
        }
    }
}

/// The selection after moving down, wrapping to the first entry.
pub open spec fn after_next(u: ReplayUi, n: int) -> ReplayUi {
    if n == 0 {
        u
    } else {
        let next: usize = if u.selected is Some && u.selected->0 + 1 < n {
            (u.selected->0 + 1) as usize
        } else {
            0
        };
        ReplayUi { selected: Some(next), detail_scroll: 0, status: None, ..u }
    }
}

/// The selection after moving up, wrapping to the last entry.
pub open spec fn after_previous(u: ReplayUi, n: int) -> ReplayUi {
    if n == 0 {
        u
    } else {
        let previous: usize = if u.selected is None || u.selected->0 == 0 {
            (n - 1) as usize
        } else {
            (u.selected->0 - 1) as usize
        };
        ReplayUi { selected: Some(previous), detail_scroll: 0, status: None, ..u }
    }
}

/// The detail scroll moved by `delta` lines (down where `down` holds), saturating.
pub open spec fn after_scroll(u: ReplayUi, down: bool, delta: u16) -> ReplayUi {
    ReplayUi {
        detail_scroll: if down {
            u.detail_scroll.saturating_add(delta)
        } else {
            u.detail_scroll.saturating_sub(delta)
        },
        status: None,
        ..u
    }
}

/// `which` toggled as the fullscreen pane.
pub open spec fn after_fullscreen(u: ReplayUi, which: Fullscreen) -> ReplayUi {
    ReplayUi {
        fullscreen: if u.fullscreen == which {
            Fullscreen::Off
        } else {
            which
        },
        status: None,
        ..u
    }
}

/// The text copied from the detail pane: the selected entry's title, a blank line, and its
/// detail.
pub open spec fn detail_copy(entries: Seq<EntryView>, selected: Option<usize>) -> Option<Seq<char>> {
    match selected {
        Some(i) => if i < entries.len() {
            Some(entries[i as int].title + "\n\n"@ + entries[i as int].detail)
        } else {
            None
        },
        None => None,
    }
}

/// The replay view after a key press over `entries`, and what the key asks for: Control-C and
/// `q` quit; `Esc` leaves fullscreen, else help, else quits; `Tab` switches focus; `1`, `2` and
/// `f` toggle fullscreen panes; `y` copies the detail where the detail pane is in view;
/// movement keys move the selection in the timeline and scroll the detail pane; `?` toggles
/// help.
pub open spec fn replay_key(u: ReplayUi, entries: Seq<EntryView>, k: KeyPress) -> (ReplayUi, ReplayActionView) {
    let n = entries.len() as int;
    let key = k.key;
    if is_ctrl_c(k) || key == Key::Char('q') {
        (u, ReplayActionView::Quit)
    } else if key == Key::Esc {
        if u.fullscreen != Fullscreen::Off {
            (ReplayUi { fullscreen: Fullscreen::Off, status: None, ..u }, ReplayActionView::Continue)
        } else if u.show_help {
            (ReplayUi { show_help: false, ..u }, ReplayActionView::Continue)
        } else {
            (u, ReplayActionView::Quit)
        }
    } else if key == Key::Tab {
        (
            ReplayUi {
                focus: if u.focus == ReplayFocus::Timeline {
                    ReplayFocus::Detail
                } else {
                    ReplayFocus::Timeline
                },
                status: None,
                ..u
            },
            ReplayActionView::Continue,
        )
    } else if key == Key::Char('1') {
        (after_fullscreen(u, Fullscreen::Timeline), ReplayActionView::Continue)
    } else if key == Key::Char('2') {
        (after_fullscreen(u, Fullscreen::Detail), ReplayActionView::Continue)
    } else if key == Key::Char('f') {
        (
            after_fullscreen(
                u,
                if u.focus == ReplayFocus::Timeline {
                    Fullscreen::Timeline
                } else {
                    Fullscreen::Detail
                },
            ),
            ReplayActionView::Continue,
        )
    } else if key == Key::Char('y') {
        if u.focus == ReplayFocus::Detail || u.fullscreen == Fullscreen::Detail {
            match detail_copy(entries, u.selected) {
                Some(text) => (u, ReplayActionView::Copy(text)),
                None => (ReplayUi { status: Some("nothing to copy"@), ..u }, ReplayActionView::Continue),
            }
        } else {
            (u, ReplayActionView::Continue)
        }
    } else if key == Key::Char('j') || key == Key::Down || key == Key::Char('d') || key == Key::PageDown {
        if u.focus == ReplayFocus::Timeline {
            (after_next(u, n), ReplayActionView::Continue)
        } else {
            (
                after_scroll(u, true, if key == Key::Char('j') || key == Key::Down { 1 } else { 10 }),
                ReplayActionView::Continue,
            )
        }
    } else if key == Key::Char('k') || key == Key::Up || key == Key::Char('u') || key == Key::PageUp {
        if u.focus == ReplayFocus::Timeline {
            (after_previous(u, n), ReplayActionView::Continue)
        } else {
            (
                after_scroll(u, false, if key == Key::Char('k') || key == Key::Up { 1 } else { 10 }),
                ReplayActionView::Continue,
            )
        }
    } else if key == Key::Char('g') || key == Key::Home {
        if u.focus == ReplayFocus::Timeline {
            (ReplayUi { selected: Some(0), detail_scroll: 0, status: None, ..u }, ReplayActionView::Continue)
        } else {
            (ReplayUi { detail_scroll: 0, status: None, ..u }, ReplayActionView::Continue)
        }
    } else if key == Key::Char('G') || key == Key::End {
        if u.focus == ReplayFocus::Timeline {
            if n > 0 {
                (
                    ReplayUi { selected: Some((n - 1) as usize), detail_scroll: 0, status: None, ..u },
                    ReplayActionView::Continue,
                )
            } else {
                (ReplayUi { status: None, ..u }, ReplayActionView::Continue)
            }
        } else {
            (ReplayUi { detail_scroll: u16::MAX, status: None, ..u }, ReplayActionView::Continue)
        }
    } else if key == Key::Char('?') {
        (ReplayUi { show_help: !u.show_help, ..u }, ReplayActionView::Continue)
    } else {
        (u, ReplayActionView::Continue)
    }
}

/// The view of a replay action.
pub open spec fn replay_action_view(a: Option<ReplayAction>) -> ReplayActionView {
    match a {
        None => ReplayActionView::Continue,
        Some(ReplayAction::Quit) => ReplayActionView::Quit,
        Some(ReplayAction::Copy(t)) => ReplayActionView::Copy(t@),
    }
}

impl ReplayApp {
    /// A replay view over `entries`, the first one selected where there is one.
    pub fn new(entries: Vec<Entry>) -> (r: ReplayApp)
        ensures
            r.entries@ == entries@,
            r.ui() == (ReplayUi {
                selected: if entries@.len() > 0 {
                    Some(0usize)
                } else {
                    None
                },
                detail_scroll: 0,
                focus: ReplayFocus::Timeline,
                fullscreen: Fullscreen::Off,
                show_help: false,
                status: None,
            }),
    {
        let selected = if entries.len() > 0 {
            Some(0)
        } else {
            None
        };
        ReplayApp {
            entries,
            selected,
            detail_scroll: 0,
            focus: ReplayFocus::Timeline,
            fullscreen: Fullscreen::Off,
            show_help: false,
            status: None,
        }
    }

    /// The selected entry, where the selection is within the entries.
    pub fn selected_entry(&self) -> (r: Option<&Entry>)
        ensures
            match r {
                Some(e) => self.selected matches Some(i) && i < self.entries@.len() && *e
                    == self.entries@[i as int],
                None => !(self.selected matches Some(i) && i < self.entries@.len()),
            },
    {
        match self.selected {
            Some(i) => if i < self.entries.len() {
                Some(&self.entries[i])
            } else {
                None
            },
            None => None,
        }
    }

    /// Moves the selection down, wrapping to the first entry.
    pub fn next(&mut self)
        ensures
            final(self).entries@ == old(self).entries@,
            final(self).ui() == after_next(old(self).ui(), old(self).entries@.len() as int),
    {
        if self.entries.len() == 0 {
            return;
        }
        let next = match self.selected {
            Some(i) => if i < self.entries.len() - 1 {
                i + 1
            } else {
                0
            },
            None => 0,
        };
        self.selected = Some(next);
        self.detail_scroll = 0;
        self.status = None;
    }

    /// Moves the selection up, wrapping to the last entry.
    pub fn previous(&mut self)
        ensures
            final(self).entries@ == old(self).entries@,
            final(self).ui() == after_previous(old(self).ui(), old(self).entries@.len() as int),
    {
        if self.entries.len() == 0 {
            return;
        }
        let previous = match self.selected {
            Some(i) => if i == 0 {
                self.entries.len() - 1
            } else {
                i - 1
            },
            None => self.entries.len() - 1,
        };
        self.selected = Some(previous);
        self.detail_scroll = 0;
        self.status = None;
    }

    /// Scrolls the detail pane by `delta` lines, down where `down` holds.
    pub fn scroll_detail(&mut self, down: bool, delta: u16)
        ensures
            final(self).entries@ == old(self).entries@,
            final(self).ui() == after_scroll(old(self).ui(), down, delta),
    {
        self.detail_scroll = if down {
            self.detail_scroll.saturating_add(delta)
        } else {
            self.detail_scroll.saturating_sub(delta)
        };
        self.status = None;
    }

    /// Toggles `which` as the fullscreen pane.
    pub fn toggle_fullscreen(&mut self, which: Fullscreen)
        ensures
            final(self).entries@ == old(self).entries@,
            final(self).ui() == after_fullscreen(old(self).ui(), which),
    {
        self.fullscreen = if self.fullscreen == which {
            Fullscreen::Off
        } else {
            which
        };
        self.status = None;
    }

    /// The text copied from the detail pane (see [`detail_copy`]).
    pub fn selected_detail_string(&self) -> (r: Option<String>)
        ensures
            opt_view(r) == detail_copy(entry_views(self.entries@), self.selected),
    {
        match self.selected_entry() {
            Some(e) => {
                let mut out = e.title.clone();
                out.append("\n\n");
                out.append(e.detail.as_str());
                Some(out)
            },
            None => None,
        }
    }

    /// Records the outcome of copying the detail pane: success, or the clipboard's error
    /// message.
    pub fn copy_finished(&mut self, outcome: Result<(), String>)
        ensures
            final(self).entries@ == old(self).entries@,
            final(self).ui() == (ReplayUi {
                status: Some(
                    match outcome {
                        Ok(()) => "copied detail pane to clipboard"@,
                        Err(m) => "clipboard copy failed: "@ + m@,
                    },
                ),
                ..old(self).ui()
            }),
    {
        self.status = Some(
            match outcome {
                Ok(()) => String::from_str("copied detail pane to clipboard"),
                Err(m) => {
                    let mut out = String::from_str("clipboard copy failed: ");
                    out.append(m.as_str());
                    out
                },
            },
        );
    }

    /// Applies a key press (see [`replay_key`]); what it asks of the caller is returned.
    pub fn handle_key(&mut self, k: KeyPress) -> (r: Option<ReplayAction>)
        ensures
            final(self).entries@ == old(self).entries@,
            (final(self).ui(), replay_action_view(r)) == replay_key(old(self).ui(), entry_views(old(self).entries@), k),
    {
        let key = k.key;
        if (key == Key::Char('c') && k.ctrl) || key == Key::Char('q') {
            return Some(ReplayAction::Quit);
        }
        if key == Key::Esc {
            if self.fullscreen != Fullscreen::Off {
                self.fullscreen = Fullscreen::Off;
                self.status = None;
                return None;
            } else if self.show_help {
                self.show_help = false;
                return None;
            } else {
                return Some(ReplayAction::Quit);
            }
        }
        if key == Key::Tab {
            self.focus = if self.focus == ReplayFocus::Timeline {
                ReplayFocus::Detail
            } else {
                ReplayFocus::Timeline
            };
            self.status = None;
            return None;
        }
        if key == Key::Char('1') {
            self.toggle_fullscreen(Fullscreen::Timeline);
            return None;
        }
        if key == Key::Char('2') {
            self.toggle_fullscreen(Fullscreen::Detail);
            return None;
        }
        if key == Key::Char('f') {
            if self.focus == ReplayFocus::Timeline {
                self.toggle_fullscreen(Fullscreen::Timeline);
            } else {
                self.toggle_fullscreen(Fullscreen::Detail);
            }
            return None;
        }
        if key == Key::Char('y') {
            if self.focus == ReplayFocus::Detail || self.fullscreen == Fullscreen::Detail {
                match self.selected_detail_string() {
                    Some(text) => return Some(ReplayAction::Copy(text)),
                    None => {
                        self.status = Some(String::from_str("nothing to copy"));
                        return None;
                    },
                }
            }
            return None;
        }
        if key == Key::Char('j') || key == Key::Down || key == Key::Char('d') || key == Key::PageDown {
            if self.focus == ReplayFocus::Timeline {
                self.next();
            } else {
                let delta: u16 = if key == Key::Char('j') || key == Key::Down {
                    1
                } else {
                    10
                };
                self.scroll_detail(true, delta);
            }
            return None;
        }
        if key == Key::Char('k') || key == Key::Up || key == Key::Char('u') || key == Key::PageUp {
            if self.focus == ReplayFocus::Timeline {
                self.previous();
            } else {
                let delta: u16 = if key == Key::Char('k') || key == Key::Up {
                    1
                } else {
                    10
                };
                self.scroll_detail(false, delta);
            }
            return None;
        }
        if key == Key::Char('g') || key == Key::Home {
            if self.focus == ReplayFocus::Timeline {
                self.selected = Some(0);
            }
            self.detail_scroll = 0;
            self.status = None;
            return None;
        }
        if key == Key::Char('G') || key == Key::End {
            if self.focus == ReplayFocus::Timeline {
                if self.entries.len() > 0 {
                    self.selected = Some(self.entries.len() - 1);
                    self.detail_scroll = 0;
                }
            } else {
                self.detail_scroll = 65535;
            }
            self.status = None;
            return None;
        }
        if key == Key::Char('?') {
            self.show_help = !self.show_help;
        }
        None
    }
}

/// A timeline in good order: each entry's index is its position, each entry has a call id
/// slot, and, where exec entries were not requested, none is an exec entry.
pub open spec fn timeline_ok(st: (Seq<EntryView>, Seq<Option<Seq<char>>>), include_exec: bool) -> bool {
    &&& st.1.len() == st.0.len()
    &&& forall|k: int| 0 <= k < st.0.len() ==> (#[trigger] st.0[k]).index == k
    &&& forall|k: int| 0 <= k < st.0.len() ==> numbered_title((#[trigger] st.0[k]).title, k as nat)
    &&& !include_exec ==> forall|k: int| 0 <= k < st.0.len() ==> (#[trigger] st.0[k]).kind != EntryKind::Exec
}

/// `title` begins with the label of position `index` and a space.
pub open spec fn numbered_title(title: Seq<char>, index: nat) -> bool {
    let l = index_label(index);
    &&& title.len() > l.len()
    &&& title.take(l.len() as int) == l
    &&& title[l.len() as int] == ' '
}

proof fn lemma_numbered(index: nat, a: Seq<char>, b: Seq<char>)
    requires
        a.len() > 0,
        a[0] == ' ',
    ensures
        numbered_title(index_label(index) + a + b, index),
{
    let l = index_label(index);
    assert((l + a + b).take(l.len() as int) =~= l);
    assert((l + a + b)[l.len() as int] == a[0]);
}

proof fn lemma_new_entries_numbered(
    index: nat,
    e: PayloadView,
    call_id: Option<Seq<char>>,
    kind: Seq<char>,
    name: Seq<char>,
    input: Seq<char>,
)
    ensures
        numbered_title(entry_of(index, e).title, index),
        numbered_title(tool_entry(index, call_id, kind, name, input).title, index),
{
    reveal_strlit(" USER");
    reveal_strlit(" AGENT");
    reveal_strlit(" EXEC ");
    match e {
        PayloadView::UserMessage { message, phase } => lemma_numbered(index, " USER"@, phase_suffix(phase)),
        PayloadView::AgentMessage { message, phase } => lemma_numbered(index, " AGENT"@, phase_suffix(phase)),
        PayloadView::ExecCommandEnd { parsed_cmd, aggregated_output } => lemma_numbered(
            index,
            " EXEC "@,
            crate::text::join(parsed_cmd.map_values(|c: ParsedCmdView| cmd_summary(c)), " && "@),
        ),
    }
    let command = match extracted_command(input) {
        Some(c) => c,
        None => input,
    };
    lemma_numbered(index, " EXEC "@, truncated(one_line(command), 80));
}

proof fn lemma_step_keeps_order(
    st: (Seq<EntryView>, Seq<Option<Seq<char>>>),
    ev: NormalizedView,
    include_exec: bool,
)
    requires
        timeline_ok(st, include_exec),
    ensures
        timeline_ok(replay_step(st, ev, include_exec), include_exec),
{
    let next = replay_step(st, ev, include_exec);
    match ev {
        NormalizedView::Payload(e) => {
            lemma_new_entries_numbered(st.0.len(), e, None, Seq::empty(), Seq::empty(), Seq::empty());
        },
        NormalizedView::ExecToolCall { call_id, kind, name, input } => {
            lemma_new_entries_numbered(st.0.len(), PayloadView::UserMessage { message: Seq::empty(), phase: None }, call_id, kind, name, input);
        },
        NormalizedView::ExecToolOutput { call_id, output } => {
            match call_id {
                Some(id) => {
                    lemma_last_call(st.1, id);
                },
                None => {},
            }
        },
        _ => {},
    }
    assert forall|k: int| 0 <= k < next.0.len() implies (#[trigger] next.0[k]).index == k && numbered_title(
        next.0[k].title,
        k as nat,
    ) by {
        if k < st.0.len() {
            assert(st.0[k].index == k);
            assert(numbered_title(st.0[k].title, k as nat));
        }
    }
    if !include_exec {
        assert forall|k: int| 0 <= k < next.0.len() implies (#[trigger] next.0[k]).kind != EntryKind::Exec by {
            if k < st.0.len() {
                assert(st.0[k].kind != EntryKind::Exec);
            }
        }
    }
}

proof fn lemma_fold_keeps_order(values: Seq<JsonValue>, include_exec: bool)
    ensures
        replay_fold(values, include_exec) matches Ok(st) ==> timeline_ok(st, include_exec),
    decreases values.len(),
{
    if values.len() > 0 {
        lemma_fold_keeps_order(values.drop_last(), include_exec);
        match replay_fold(values.drop_last(), include_exec) {
            Ok(st) => match normalized_record(values.last()) {
                Ok(Some(ev)) => lemma_step_keeps_order(st, ev, include_exec),
                _ => {},
            },
            Err(_) => {},
        }
    }
}



/// Over a non-empty timeline, whatever key is pressed, the selection stays within the entries.
pub proof fn lemma_replay_key_keeps_selection(u: ReplayUi, entries: Seq<EntryView>, k: KeyPress)
    requires
        entries.len() > 0,
        selection_fits(u.selected, entries.len() as int),
    ensures
        selection_fits(replay_key(u, entries, k).0.selected, entries.len() as int),
{
}


/// What the replay view's keys ask for: Control-C and `q` quit; `Esc` first leaves a
/// fullscreen pane, then closes help, and only then quits; `1` shows the timeline fullscreen,
/// or leaves it where it is shown, so that pressed twice it goes back (unless the detail pane
/// was fullscreen); `y` with the detail pane focused copies the selected entry's
/// title, a blank line and its detail.
pub proof fn lemma_replay_requests(u: ReplayUi, entries: Seq<EntryView>, k: KeyPress)
    ensures
        is_ctrl_c(k) || k.key == Key::Char('q') ==> replay_key(u, entries, k) == (u, ReplayActionView::Quit),
        k.key == Key::Esc && u.fullscreen != Fullscreen::Off ==> {
            &&& replay_key(u, entries, k).0.fullscreen == Fullscreen::Off
            &&& replay_key(u, entries, k).1 == ReplayActionView::Continue
        },
        k.key == Key::Esc && u.fullscreen == Fullscreen::Off && u.show_help ==> {
            &&& !replay_key(u, entries, k).0.show_help
            &&& replay_key(u, entries, k).1 == ReplayActionView::Continue
        },
        k.key == Key::Esc && u.fullscreen == Fullscreen::Off && !u.show_help ==> replay_key(u, entries, k).1
            == ReplayActionView::Quit,
        k.key == Key::Char('1') ==> replay_key(u, entries, k).0.fullscreen == (if u.fullscreen == Fullscreen::Timeline {
            Fullscreen::Off
        } else {
            Fullscreen::Timeline
        }),
        k.key == Key::Char('1') && u.fullscreen != Fullscreen::Detail ==> replay_key(replay_key(u, entries, k).0, entries, k).0.fullscreen == u.fullscreen,
        (k.key == Key::Char('y') && u.focus == ReplayFocus::Detail && (u.selected matches Some(i) && i
            < entries.len())) ==> replay_key(u, entries, k).1 == ReplayActionView::Copy(
            entries[u.selected->0 as int].title + "\n\n"@ + entries[u.selected->0 as int].detail,
        ),
{
}

/// Keys that move to the ends of the timeline: with the timeline focused over a non-empty
/// timeline, `G` or End selects the last entry and `g` or Home the first, each showing its
/// detail from the top, clearing the status and asking for nothing.
pub proof fn lemma_replay_end_keys(u: ReplayUi, entries: Seq<EntryView>, k: KeyPress)
    requires
        u.focus == ReplayFocus::Timeline,
        0 < entries.len() <= usize::MAX,
    ensures
        k.key == Key::Char('G') || k.key == Key::End ==> {
            let v = replay_key(u, entries, k).0;
            &&& v.selected matches Some(i) && i == entries.len() - 1
            &&& v.detail_scroll == 0
            &&& v.status is None
            &&& replay_key(u, entries, k).1 == ReplayActionView::Continue
        },
        k.key == Key::Char('g') || k.key == Key::Home ==> {
            let v = replay_key(u, entries, k).0;
            &&& v.selected == Some(0usize)
            &&& v.detail_scroll == 0
            &&& v.status is None
            &&& replay_key(u, entries, k).1 == ReplayActionView::Continue
        },
{
}

/// Moving through the timeline one entry at a time: with the timeline focused and an entry
/// selected, a move down (`j` or Down) and then a move up (`k` or Up) come back to it, and so
/// do a move up and then a move down; from the last entry a move down wraps to the first, and
/// from the first a move up wraps to the last.
pub proof fn lemma_replay_steps(u: ReplayUi, entries: Seq<EntryView>, down: KeyPress, up: KeyPress)
    requires
        u.focus == ReplayFocus::Timeline,
        entries.len() <= usize::MAX,
        u.selected matches Some(i) && i < entries.len(),
        down.key == Key::Char('j') || down.key == Key::Down,
        up.key == Key::Char('k') || up.key == Key::Up,
    ensures
        replay_key(replay_key(u, entries, down).0, entries, up).0.selected == u.selected,
        replay_key(replay_key(u, entries, up).0, entries, down).0.selected == u.selected,
        u.selected == Some((entries.len() - 1) as usize) ==> replay_key(u, entries, down).0.selected == Some(0usize),
        u.selected == Some(0usize) ==> (replay_key(u, entries, up).0.selected matches Some(j) && j == entries.len() - 1),
{
}

/// The user and agent entries of a timeline, in order, as kind and detail.
pub open spec fn message_parts(es: Seq<EntryView>) -> Seq<(EntryKind, Seq<char>)>
    decreases es.len(),
{
    if es.len() == 0 {
        Seq::empty()
    } else if es.last().kind == EntryKind::Exec {
        message_parts(es.drop_last())
    } else {
        message_parts(es.drop_last()).push((es.last().kind, es.last().detail))
    }
}

proof fn lemma_parts_update(es: Seq<EntryView>, k: int, x: EntryView)
    requires
        0 <= k < es.len(),
        es[k].kind == EntryKind::Exec,
        x.kind == EntryKind::Exec,
    ensures
        message_parts(es.update(k, x)) == message_parts(es),
    decreases es.len(),
{
    let u = es.update(k, x);
    if k == es.len() - 1 {
        assert(u.drop_last() =~= es.drop_last());
    } else {
        assert(u.drop_last() =~= es.drop_last().update(k, x));
        lemma_parts_update(es.drop_last(), k, x);
    }
}

proof fn lemma_no_calls(ids: Seq<Option<Seq<char>>>, id: Seq<char>)
    requires
        forall|k: int| 0 <= k < ids.len() ==> (#[trigger] ids[k]) is None,
    ensures
        last_call(ids, id) is None,
    decreases ids.len(),
{
    if ids.len() > 0 {
        assert(ids[ids.len() - 1] is None);
        lemma_no_calls(ids.drop_last(), id);
    }
}

/// How a timeline without exec entries stands to one with them.
pub open spec fn timelines_agree(
    sf: (Seq<EntryView>, Seq<Option<Seq<char>>>),
    st: (Seq<EntryView>, Seq<Option<Seq<char>>>),
) -> bool {
    &&& message_parts(sf.0) == message_parts(st.0)
    &&& forall|k: int| 0 <= k < sf.1.len() ==> (#[trigger] sf.1[k]) is None
    &&& st.1.len() == st.0.len()
    &&& forall|k: int| 0 <= k < st.1.len() && (#[trigger] st.1[k]) is Some ==> st.0[k].kind == EntryKind::Exec
}

proof fn lemma_steps_agree(
    sf: (Seq<EntryView>, Seq<Option<Seq<char>>>),
    st: (Seq<EntryView>, Seq<Option<Seq<char>>>),
    ev: NormalizedView,
)
    requires
        timelines_agree(sf, st),
    ensures
        timelines_agree(replay_step(sf, ev, false), replay_step(st, ev, true)),
{
    let nf = replay_step(sf, ev, false);
    let nt = replay_step(st, ev, true);
    match ev {
        NormalizedView::Payload(e) => {
            let ef = entry_of(sf.0.len(), e);
            let et = entry_of(st.0.len(), e);
            assert(nt.0.drop_last() =~= st.0);
            if !(e is ExecCommandEnd) {
                assert(nf.0.drop_last() =~= sf.0);
                assert(ef.kind == et.kind && ef.detail == et.detail);
            }
            assert forall|k: int| 0 <= k < nt.1.len() && (#[trigger] nt.1[k]) is Some implies nt.0[k].kind
                == EntryKind::Exec by {
                assert(k < st.1.len());
                assert(nt.1[k] == st.1[k] && nt.0[k] == st.0[k]);
            }
        },
        NormalizedView::ExecToolCall { call_id, kind, name, input } => {
            assert(nt.0.drop_last() =~= st.0);
            assert forall|k: int| 0 <= k < nt.1.len() && (#[trigger] nt.1[k]) is Some implies nt.0[k].kind
                == EntryKind::Exec by {
                if k < st.1.len() {
                    assert(nt.1[k] == st.1[k] && nt.0[k] == st.0[k]);
                }
            }
        },
        NormalizedView::ExecToolOutput { call_id, output } => {
            match call_id {
                Some(id) => {
                    lemma_no_calls(sf.1, id);
                    lemma_last_call(st.1, id);
                    match last_call(st.1, id) {
                        Some(k) => {
                            assert(st.1[k] is Some);
                            let x = EntryView { detail: st.0[k].detail + output, ..st.0[k] };
                            lemma_parts_update(st.0, k, x);
                            assert forall|j: int| 0 <= j < nt.1.len() && (#[trigger] nt.1[j]) is Some implies nt.0[j].kind
                                == EntryKind::Exec by {
                                assert(nt.1[j] == st.1[j]);
                            }
                        },
                        None => {},
                    }
                },
                None => {},
            }
        },
    }
}

proof fn lemma_folds_agree(values: Seq<JsonValue>)
    ensures
        (replay_fold(values, false) is Err) == (replay_fold(values, true) is Err),
        replay_fold(values, false) matches Ok(sf) ==> (replay_fold(values, true) matches Ok(st) && timelines_agree(sf, st)),
    decreases values.len(),
{
    if values.len() == 0 {
        let e = (Seq::<EntryView>::empty(), Seq::<Option<Seq<char>>>::empty());
        assert(timelines_agree(e, e));
    } else {
        lemma_folds_agree(values.drop_last());
        match replay_fold(values.drop_last(), false) {
            Ok(sf) => {
                let st = replay_fold(values.drop_last(), true)->Ok_0;
                match normalized_record(values.last()) {
                    Ok(Some(ev)) => lemma_steps_agree(sf, st, ev),
                    _ => {},
                }
            },
            Err(_) => {},
        }
    }
}


} // verus!

