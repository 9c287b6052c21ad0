//! Command-execution records found in session logs.

use vstd::prelude::*;

use crate::json::{
    JsonValue, jget, json_parse_result, parse_json, str_field, value_text, value_to_text,
};
use crate::text::{all_white, copy_opt, is_blank, join, join_strings, opt_text_is, opt_view, text_is, chars_of};

verus! {

/// One command execution of a session.
#[derive(Debug, Clone, PartialEq, Eq)]
pub struct ExecEvent {
    pub session_path: String,
    pub session_id: Option<String>,
    pub event_index: usize,
    pub call_id: Option<String>,
    pub kind: String,
    pub name: Option<String>,
    pub command: String,
    pub output: String,
}

/// The mathematical content of an [`ExecEvent`].
pub struct ExecEventView {
    pub session_path: Seq<char>,
    pub session_id: Option<Seq<char>>,
    pub event_index: int,
    pub call_id: Option<Seq<char>>,
    pub kind: Seq<char>,
    pub name: Option<Seq<char>>,
    pub command: Seq<char>,
    pub output: Seq<char>,
}

impl View for ExecEvent {
    type V = ExecEventView;

    open spec fn view(&self) -> ExecEventView {
        ExecEventView {
            session_path: self.session_path@,
            session_id: opt_view(self.session_id),
            event_index: self.event_index as int,
            call_id: opt_view(self.call_id),
            kind: self.kind@,
            name: opt_view(self.name),
            command: self.command@,
            output: self.output@,
        }
    }
}

/// The views of a sequence of events.
pub open spec fn event_views(events: Seq<ExecEvent>) -> Seq<ExecEventView> {
    events.map_values(|e: ExecEvent| e@)
}

/// The payload of a record (`record.get("payload")`, or `null`).
pub open spec fn payload_of(rec: JsonValue) -> JsonValue {
    match jget(rec, "payload"@) {
        Some(p) => p,
        None => JsonValue::Null,
    }
}

/// The text of member `field` of `p` (`payload_text`): empty where it is missing.
pub open spec fn payload_text(p: JsonValue, field: Seq<char>) -> Seq<char> {
    match jget(p, field) {
        Some(v) => value_text(v),
        None => Seq::empty(),
    }
}

/// A tool call named `exec` or `exec_command`.
pub open spec fn is_exec_tool_payload(p: JsonValue) -> bool {
    str_field(p, "name"@) == Some("exec"@) || str_field(p, "name"@) == Some("exec_command"@)
}

/// The command of an exec tool call: its `input` (or, where that is blank, its `arguments`),
/// or the `cmd` string member of that text where it parses as JSON.
pub open spec fn exec_tool_command(p: JsonValue) -> Seq<char> {
    let input = payload_text(p, "input"@);
    let input = if all_white(input) {
        payload_text(p, "arguments"@)
    } else {
        input
    };
    match json_parse_result(input) {
        Ok(args) => match str_field(args, "cmd"@) {
            Some(c) => c,
            None => input,
        },
        Err(_) => input,
    }
}

/// A present text that is not blank.
pub open spec fn nonblank(o: Option<Seq<char>>) -> bool {
    o matches Some(t) && !all_white(t)
}

/// The first non-blank of the `name`, `path` and `type` string members of a parsed command.
pub open spec fn command_name(cmd: JsonValue) -> Option<Seq<char>> {
    if nonblank(str_field(cmd, "name"@)) {
        str_field(cmd, "name"@)
    } else if nonblank(str_field(cmd, "path"@)) {
        str_field(cmd, "path"@)
    } else if nonblank(str_field(cmd, "type"@)) {
        str_field(cmd, "type"@)
    } else {
        None
    }
}

/// The `parsed_cmd` array of a payload, or nothing.
pub open spec fn parsed_cmds(p: JsonValue) -> Seq<JsonValue> {
    match jget(p, "parsed_cmd"@) {
        Some(JsonValue::Array(items)) => items@,
        _ => Seq::empty(),
    }
}

/// The `cmd` strings of parsed commands, in order, skipping those without one.
pub open spec fn cmd_texts(items: Seq<JsonValue>) -> Seq<Seq<char>>
    decreases items.len(),
{
    if items.len() == 0 {
        Seq::empty()
    } else {
        let prev = cmd_texts(items.drop_last());
        match str_field(items.last(), "cmd"@) {
            Some(c) => prev.push(c),
            None => prev,
        }
    }
}

/// The `cmd` string of a parsed command, where it has one.
pub open spec fn cmd_of(x: JsonValue) -> Option<Seq<char>> {
    str_field(x, "cmd"@)
}

/// The `cmd` strings of parsed commands are those of every command that has one, each once and
/// in order: a filter-map of the commands by their `cmd`.
pub proof fn lemma_cmd_texts(items: Seq<JsonValue>)
    ensures
        cmd_texts(items) == items.filter_map(|x: JsonValue| cmd_of(x)),
        cmd_texts(items).len() <= items.len(),
        forall|i: int| 0 <= i < items.len() && #[trigger] cmd_of(items[i]) is Some ==> cmd_texts(items).contains(
            cmd_of(items[i])->0,
        ),
    decreases items.len(),
{
    if items.len() > 0 {
        let p = items.drop_last();
        lemma_cmd_texts(p);
        match cmd_of(items.last()) {
            Some(c) => {
                assert(cmd_texts(items) =~= p.filter_map(|x: JsonValue| cmd_of(x)) + seq![c]);
            },
            None => {},
        }
        assert forall|i: int| 0 <= i < items.len() && #[trigger] cmd_of(items[i]) is Some implies cmd_texts(
            items,
        ).contains(cmd_of(items[i])->0) by {
            if i < p.len() {
                assert(p[i] == items[i]);
                let k = choose|k: int| 0 <= k < cmd_texts(p).len() && cmd_texts(p)[k] == cmd_of(p[i])->0;
                assert(cmd_texts(items)[k] == cmd_texts(p)[k]);
            } else {
                assert(cmd_texts(items).last() == cmd_of(items[i])->0);
            }
        }
    }
}

/// The first command name among parsed commands.
pub open spec fn first_command_name(items: Seq<JsonValue>) -> Option<Seq<char>>
    decreases items.len(),
{
    if items.len() == 0 {
        None
    } else {
        match first_command_name(items.drop_last()) {
            Some(n) => Some(n),
            None => command_name(items.last()),
        }
    }
}

/// The name of an exec event is that of the first parsed command that has one: the commands
/// before it have none, and where no command has one there is none. A command's name is its
/// non-blank `name`; without one, its non-blank `path`; without either, its non-blank `type`.
pub proof fn lemma_first_command_name(items: Seq<JsonValue>)
    ensures
        first_command_name(items) is None <==> forall|k: int| 0 <= k < items.len() ==> #[trigger] command_name(
            items[k],
        ) is None,
        first_command_name(items) matches Some(n) ==> exists|k: int|
            0 <= k < items.len() && #[trigger] command_name(items[k]) == Some(n) && forall|j: int|
                0 <= j < k ==> #[trigger] command_name(items[j]) is None,
        forall|k: int| 0 <= k < items.len() ==> {
            let c = #[trigger] items[k];
            &&& nonblank(str_field(c, "name"@)) ==> command_name(c) == str_field(c, "name"@)
            &&& !nonblank(str_field(c, "name"@)) && nonblank(str_field(c, "path"@)) ==> command_name(c) == str_field(c, "path"@)
            &&& command_name(c) matches Some(t) ==> !all_white(t)
        },
    decreases items.len(),
{
    if items.len() > 0 {
        let p = items.drop_last();
        lemma_first_command_name(p);
        assert forall|k: int| 0 <= k < p.len() implies #[trigger] p[k] == items[k] by {}
        match first_command_name(p) {
            Some(n) => {
                let k = choose|k: int|
                    0 <= k < p.len() && #[trigger] command_name(p[k]) == Some(n) && forall|j: int|
                        0 <= j < k ==> #[trigger] command_name(p[j]) is None;
                assert(command_name(items[k]) == Some(n));
                assert forall|j: int| 0 <= j < k implies #[trigger] command_name(items[j]) is None by {
                    assert(command_name(p[j]) is None);
                }
            },
            None => {
                if command_name(items.last()) is Some {
                    let k = items.len() - 1;
                    assert forall|j: int| 0 <= j < k implies #[trigger] command_name(items[j]) is None by {
                        assert(command_name(p[j]) is None);
                    }
                }
                assert((forall|k: int| 0 <= k < items.len() ==> #[trigger] command_name(items[k]) is None) ==> command_name(items.last()) is None);
                if command_name(items.last()) is None {
                    assert forall|k: int| 0 <= k < items.len() implies #[trigger] command_name(items[k]) is None by {
                        if k < p.len() {
                            assert(command_name(p[k]) is None);
                        }
                    }
                }
            },
        }
    }
}

/// The event that an `exec_command_end` payload on line `index` gives.
pub open spec fn legacy_event(path: Seq<char>, index: int, p: JsonValue) -> ExecEventView {
    ExecEventView {
        session_path: path,
        session_id: None,
        event_index: index,
        call_id: None,
        kind: "exec_command_end"@,
        name: first_command_name(parsed_cmds(p)),
        command: join(cmd_texts(parsed_cmds(p)), "\n"@),
        output: payload_text(p, "aggregated_output"@),
    }
}

/// The command of an `exec_command_end` event is the `cmd` strings of its parsed commands,
/// every one that has one, in order, joined by line feeds.
pub proof fn lemma_legacy_command(path: Seq<char>, index: int, p: JsonValue)
    ensures
        legacy_event(path, index, p).command == join(parsed_cmds(p).filter_map(|x: JsonValue| cmd_of(x)), "\n"@),
{
    lemma_cmd_texts(parsed_cmds(p));
}

/// The event that an exec tool call payload on line `index` gives; its output comes later.
pub open spec fn tool_event(path: Seq<char>, index: int, p: JsonValue) -> ExecEventView {
    ExecEventView {
        session_path: path,
        session_id: None,
        event_index: index,
        call_id: str_field(p, "call_id"@),
        kind: match str_field(p, "type"@) {
            Some(t) => t,
            None => "tool_call"@,
        },
        name: str_field(p, "name"@),
        command: exec_tool_command(p),
        output: Seq::empty(),
    }
}

/// The last event that carries call id `id`.
pub open spec fn last_with_call_id(events: Seq<ExecEventView>, id: Seq<char>) -> Option<int>
    decreases events.len(),
{
    if events.len() == 0 {
        None
    } else if events.last().call_id == Some(id) {
        Some(events.len() - 1)
    } else {
        last_with_call_id(events.drop_last(), id)
    }
}

/// The exec events after reading record `rec` on line `index`.
pub open spec fn exec_step(
    path: Seq<char>,
    events: Seq<ExecEventView>,
    index: int,
    rec: JsonValue,
) -> Seq<ExecEventView> {
    let rtype = str_field(rec, "type"@);
    let p = payload_of(rec);
    let ptype = str_field(p, "type"@);
    if rtype == Some("event_msg"@) && ptype == Some("exec_command_end"@) {
        events.push(legacy_event(path, index, p))
    } else if rtype != Some("response_item"@) {
        events
    } else if (ptype == Some("custom_tool_call"@) || ptype == Some("function_call"@))
        && is_exec_tool_payload(p) {
        events.push(tool_event(path, index, p))
    } else if ptype == Some("custom_tool_call_output"@) || ptype == Some("function_call_output"@) {
        match str_field(p, "call_id"@) {
            Some(id) => match last_with_call_id(events, id) {
                Some(k) => events.update(
                    k,
                    ExecEventView { output: payload_text(p, "output"@), ..events[k] },
                ),
                None => events,
            },
            None => events,
        }
    } else {
        events
    }
}

/// The exec events of a sequence of records (lines that hold no record are `None`).
pub open spec fn exec_fold(path: Seq<char>, recs: Seq<Option<JsonValue>>) -> Seq<ExecEventView>
    decreases recs.len(),
{
    if recs.len() == 0 {
        Seq::empty()
    } else {
        let prev = exec_fold(path, recs.drop_last());
        match recs.last() {
            Some(rec) => exec_step(path, prev, recs.len() - 1, rec),
            None => prev,
        }
    }
}


/// The text of member `field` of `p`; empty where it is missing.
pub fn payload_text_of(p: &JsonValue, field: &str) -> (r: String)
    ensures
        r@ == payload_text(*p, field@),
{
    match p.get(field) {
        Some(v) => value_to_text(v),
        None => String::new(),
    }
}

/// Whether an optional text is present and not blank.
fn is_nonblank(o: &Option<String>) -> (b: bool)
    ensures
        b == nonblank(opt_view(*o)),
{
    match o {
        Some(t) => !is_blank(&chars_of(t.as_str())),
        None => false,
    }
}

/// The first non-blank of the `name`, `path` and `type` members of a parsed command.
pub fn command_name_of(cmd: &JsonValue) -> (r: Option<String>)
    ensures
        opt_view(r) == command_name(*cmd),
{
    let name = cmd.str_field("name");
    if is_nonblank(&name) {
        return name;
    }
    let path = cmd.str_field("path");
    if is_nonblank(&path) {
        return path;
    }
    let kind = cmd.str_field("type");
    if is_nonblank(&kind) {
        return kind;
    }
    None
}

/// The event that an `exec_command_end` payload on line `line_number` gives.
pub fn legacy_exec_event(path: &str, line_number: usize, p: &JsonValue) -> (e: ExecEvent)
    ensures
        e@ == legacy_event(path@, line_number as int, *p),
{
    let mut texts: Vec<String> = Vec::new();
    let mut name: Option<String> = None;
    match p.get("parsed_cmd") {
        Some(JsonValue::Array(items)) => {
            let mut i: usize = 0;
            while i < items.len()
                invariant
                    i <= items@.len(),
                    parsed_cmds(*p) == items@,
                    texts@.map_values(|t: String| t@) == cmd_texts(items@.take(i as int)),
                    opt_view(name) == first_command_name(items@.take(i as int)),
                decreases items.len() - i,
            {
                assert(items@.take(i + 1).drop_last() =~= items@.take(i as int));
                assert(items@.take(i + 1).last() == items@[i as int]);
                match items[i].str_field("cmd") {
                    Some(c) => {
                        texts.push(c);
                        assert(texts@.map_values(|t: String| t@) =~= cmd_texts(items@.take(i as int)).push(
                            texts@.last()@,
                        ));
                    },
                    None => {},
                }
                if name.is_none() {
                    name = command_name_of(&items[i]);
                }
                i = i + 1;
            }
            assert(items@.take(items@.len() as int) =~= items@);
        },
        _ => {
            assert(texts@.map_values(|t: String| t@) =~= Seq::<Seq<char>>::empty());
        },
    }
    ExecEvent {
        session_path: String::from_str(path),
        session_id: None,
        event_index: line_number,
        call_id: None,
        kind: String::from_str("exec_command_end"),
        name,
        command: join_strings(&texts, "\n"),
        output: payload_text_of(p, "aggregated_output"),
    }
}

/// The command of an exec tool call payload (see [`exec_tool_command`]).
pub fn exec_tool_command_of(p: &JsonValue) -> (r: String)
    ensures
        r@ == exec_tool_command(*p),
{
    let input = payload_text_of(p, "input");
    let input = if is_blank(&chars_of(input.as_str())) {
        payload_text_of(p, "arguments")
    } else {
        input
    };
    match parse_json(input.as_str()) {
        Ok(args) => match args.str_field("cmd") {
            Some(c) => c,
            None => input,
        },
        Err(_) => input,
    }
}

/// The event that an exec tool call payload on line `line_number` gives.
pub fn tool_exec_event(path: &str, line_number: usize, p: &JsonValue) -> (e: ExecEvent)
    ensures
        e@ == tool_event(path@, line_number as int, *p),
{
    let kind = match p.str_field("type") {
        Some(t) => t,
        None => String::from_str("tool_call"),
    };
    ExecEvent {
        session_path: String::from_str(path),
        session_id: None,
        event_index: line_number,
        call_id: p.str_field("call_id"),
        kind,
        name: p.str_field("name"),
        command: exec_tool_command_of(p),
        output: String::new(),
    }
}

proof fn lemma_last_with_call_id(events: Seq<ExecEventView>, id: Seq<char>)
    ensures
        last_with_call_id(events, id) matches Some(k) ==> 0 <= k < events.len() && events[k].call_id
            == Some(id),
    decreases events.len(),
{
    if events.len() > 0 {
        lemma_last_with_call_id(events.drop_last(), id);
    }
}

/// The index of the last event that carries call id `id`.
fn last_index_with_call_id(events: &Vec<ExecEvent>, id: &String) -> (r: Option<usize>)
    ensures
        match r {
            Some(k) => last_with_call_id(event_views(events@), id@) == Some(k as int),
            None => last_with_call_id(event_views(events@), id@) is None,
        },
{
    let mut i: usize = events.len();
    assert(events@.take(events@.len() as int) =~= events@);
    while i > 0
        invariant
            i <= events@.len(),
            last_with_call_id(event_views(events@), id@) == last_with_call_id(
                event_views(events@.take(i as int)),
                id@,
            ),
        decreases i,
    {
        let ghost vs = event_views(events@.take(i as int));
        assert(vs.last() == events@[i - 1]@);
        assert(vs.drop_last() =~= event_views(events@.take(i - 1)));
        let matched = match &events[i - 1].call_id {
            Some(c) => c.eq(id),
            None => false,
        };
        if matched {
            return Some(i - 1);
        }
        i = i - 1;
    }
    None
}

/// Reads record `rec` from line `line_number` into the exec events (see [`exec_step`]).
pub fn collect_exec_event(path: &str, line_number: usize, rec: &JsonValue, events: &mut Vec<ExecEvent>)
    ensures
        event_views(final(events)@) == exec_step(path@, event_views(old(events)@), line_number as int, *rec),
{
    let ghost before = event_views(events@);
    let null = JsonValue::Null;
    let p = match rec.get("payload") {
        Some(p) => p,
        None => &null,
    };
    let rtype = rec.str_field("type");
    let ptype = p.str_field("type");
    if opt_text_is(rtype.as_ref(), "event_msg") && opt_text_is(ptype.as_ref(), "exec_command_end") {
        let e = legacy_exec_event(path, line_number, p);
        events.push(e);
        assert(event_views(events@) =~= before.push(e@));
        return;
    }
    if !opt_text_is(rtype.as_ref(), "response_item") {
        return;
    }
    let name = p.str_field("name");
    if (opt_text_is(ptype.as_ref(), "custom_tool_call") || opt_text_is(ptype.as_ref(), "function_call"))
        && (opt_text_is(name.as_ref(), "exec") || opt_text_is(name.as_ref(), "exec_command")) {
        let e = tool_exec_event(path, line_number, p);
        events.push(e);
        assert(event_views(events@) =~= before.push(e@));
        return;
    }
    if opt_text_is(ptype.as_ref(), "custom_tool_call_output") || opt_text_is(
        ptype.as_ref(),
        "function_call_output",
    ) {
        match p.str_field("call_id") {
            Some(id) => match last_index_with_call_id(events, &id) {
                Some(k) => {
                    proof {
                        lemma_last_with_call_id(before, id@);
                    }
                    let output = payload_text_of(p, "output");
                    let mut e = events.remove(k);
                    e.output = output;
                    events.insert(k, e);
                    assert(event_views(events@) =~= before.update(
                        k as int,
                        ExecEventView { output: payload_text(*p, "output"@), ..before[k as int] },
                    ));
                },
                None => {},
            },
            None => {},
        }
    }
}

} // verus!
