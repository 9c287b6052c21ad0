//! Session rows: reading one session log, and filtering sessions.

use vstd::prelude::*;

use crate::exec_events::{
    ExecEvent, ExecEventView, collect_exec_event, event_views, exec_fold, payload_of,
};
use crate::json::{
    JsonValue, jget, json_parse_result, member_get, parse_json, str_field, str_or_empty,
};
use crate::text::{
    all_white, chars_of, contains_chars, contains_seq, copy_opt, is_blank, join, join_strings,
    lowercase, opt_text_is, opt_view, string_of, to_lowercase, trim, trim_chars, views, words,
    words_of,
};

verus! {

/// One session: where its log is, its metadata, and its first user message.
#[derive(Debug, Clone, PartialEq, Eq)]
pub struct SessionRow {
    pub path: String,
    pub id: Option<String>,
    pub timestamp: Option<String>,
    pub cwd: Option<String>,
    pub repository_url: Option<String>,
    pub branch: Option<String>,
    pub first_message: String,
    pub is_subsession: bool,
}

/// The mathematical content of a [`SessionRow`].
pub struct SessionRowView {
    pub path: Seq<char>,
    pub id: Option<Seq<char>>,
    pub timestamp: Option<Seq<char>>,
    pub cwd: Option<Seq<char>>,
    pub repository_url: Option<Seq<char>>,
    pub branch: Option<Seq<char>>,
    pub first_message: Seq<char>,
    pub is_subsession: bool,
}

impl View for SessionRow {
    type V = SessionRowView;

    open spec fn view(&self) -> SessionRowView {
        SessionRowView {
            path: self.path@,
            id: opt_view(self.id),
            timestamp: opt_view(self.timestamp),
            cwd: opt_view(self.cwd),
            repository_url: opt_view(self.repository_url),
            branch: opt_view(self.branch),
            first_message: self.first_message@,
            is_subsession: self.is_subsession,
        }
    }
}

/// A session row and the exec events of its log.
#[derive(Debug, Clone)]
pub struct ParsedSessionFile {
    pub row: SessionRow,
    pub exec_events: Vec<ExecEvent>,
}

/// A line of a session log that is not valid JSON: its number (from 1) and the parser's message.
#[derive(Debug, Clone, PartialEq, Eq)]
pub struct InvalidLine {
    pub line_number: usize,
    pub message: String,
}

/// What reading one session log gives: the session, if the log has metadata, and the lines
/// that were skipped as invalid JSON.
#[derive(Debug, Clone)]
pub struct SessionParse {
    pub session: Option<ParsedSessionFile>,
    pub invalid_lines: Vec<InvalidLine>,
}

/// The lines of a text, split at each line feed (as `str::split('\n')` splits it).
pub open spec fn lines(s: Seq<char>) -> Seq<Seq<char>>
    decreases s.len(),
{
    if s.len() == 0 {
        seq![Seq::empty()]
    } else {
        let prev = lines(s.drop_last());
        if s.last() == '\n' {
            prev.push(Seq::empty())
        } else {
            prev.drop_last().push(prev.last().push(s.last()))
        }
    }
}

/// The record a log line holds: the JSON value of its trimmed text, unless that is empty or
/// not valid JSON.
pub open spec fn line_record(line: Seq<char>) -> Option<JsonValue> {
    let t = trim(line);
    if t.len() == 0 {
        None
    } else {
        match json_parse_result(t) {
            Ok(v) => Some(v),
            Err(_) => None,
        }
    }
}

/// The parser's message for a log line that is not valid JSON.
pub open spec fn line_error(line: Seq<char>) -> Option<Seq<char>> {
    let t = trim(line);
    if t.len() == 0 {
        None
    } else {
        match json_parse_result(t) {
            Ok(_) => None,
            Err(m) => Some(m),
        }
    }
}

/// The records of a session log, one per line.
pub open spec fn session_records(contents: Seq<char>) -> Seq<Option<JsonValue>> {
    lines(contents).map_values(|l: Seq<char>| line_record(l))
}

/// The invalid lines among `ls`, numbered from 1, with the parser's messages.
pub open spec fn invalid_lines(ls: Seq<Seq<char>>) -> Seq<(int, Seq<char>)>
    decreases ls.len(),
{
    if ls.len() == 0 {
        Seq::empty()
    } else {
        let prev = invalid_lines(ls.drop_last());
        match line_error(ls.last()) {
            Some(m) => prev.push((ls.len() as int, m)),
            None => prev,
        }
    }
}

/// The views of a sequence of invalid lines.
pub open spec fn invalid_views(v: Seq<InvalidLine>) -> Seq<(int, Seq<char>)> {
    v.map_values(|l: InvalidLine| (l.line_number as int, l.message@))
}

/// A `session_meta` record.
pub open spec fn is_meta_record(rec: JsonValue) -> bool {
    str_field(rec, "type"@) == Some("session_meta"@)
}

/// The message of a user-message event record.
pub open spec fn user_message_of(rec: JsonValue) -> Option<Seq<char>> {
    if str_field(rec, "type"@) == Some("event_msg"@) && str_field(payload_of(rec), "type"@) == Some(
        "user_message"@,
    ) {
        Some(str_or_empty(str_field(payload_of(rec), "message"@)))
    } else {
        None
    }
}

/// The first `session_meta` record.
pub open spec fn first_meta(recs: Seq<Option<JsonValue>>) -> Option<JsonValue>
    decreases recs.len(),
{
    if recs.len() == 0 {
        None
    } else {
        match first_meta(recs.drop_last()) {
            Some(m) => Some(m),
            None => match recs.last() {
                Some(r) => if is_meta_record(r) {
                    Some(r)
                } else {
                    None
                },
                None => None,
            },
        }
    }
}

/// The message of the first user-message event.
pub open spec fn first_user_message(recs: Seq<Option<JsonValue>>) -> Option<Seq<char>>
    decreases recs.len(),
{
    if recs.len() == 0 {
        None
    } else {
        match first_user_message(recs.drop_last()) {
            Some(m) => Some(m),
            None => match recs.last() {
                Some(r) => user_message_of(r),
                None => None,
            },
        }
    }
}

/// The first `k` records hold both the metadata and a user message.
pub open spec fn found_both(recs: Seq<Option<JsonValue>>, k: int) -> bool {
    first_meta(recs.take(k)) is Some && first_user_message(recs.take(k)) is Some
}

/// The number of lines read from line `k` on, when reading stops as soon as both the metadata
/// and a user message were found.
pub open spec fn stop_from(recs: Seq<Option<JsonValue>>, k: int) -> int
    decreases recs.len() - k,
{
    if k >= recs.len() {
        recs.len() as int
    } else if found_both(recs, k + 1) {
        k + 1
    } else {
        stop_from(recs, k + 1)
    }
}

/// The number of lines read: all of them where exec events are collected, else until both the
/// metadata and a user message were found.
pub open spec fn scanned_lines(recs: Seq<Option<JsonValue>>, include_exec: bool) -> int {
    if include_exec {
        recs.len() as int
    } else {
        stop_from(recs, 0)
    }
}

/// A subsession's metadata payload: `thread_source` is `"subagent"`, `source` is an object
/// with a `subagent` member, or `agent_role` is a non-blank string.
pub open spec fn is_subsession_payload(p: JsonValue) -> bool {
    let thread_source = str_or_empty(str_field(p, "thread_source"@));
    let source_is_subagent = match jget(p, "source"@) {
        Some(JsonValue::Object(members, _)) => member_get(members@, "subagent"@) is Some,
        _ => false,
    };
    let has_agent_role = match str_field(p, "agent_role"@) {
        Some(role) => !all_white(role),
        None => false,
    };
    thread_source == "subagent"@ || source_is_subagent || has_agent_role
}

/// The row that a `session_meta` record gives, with the given first message.
pub open spec fn meta_row(path: Seq<char>, rec: JsonValue, first_message: Seq<char>) -> SessionRowView {
    let p = payload_of(rec);
    let git = match jget(p, "git"@) {
        Some(g) => g,
        None => JsonValue::Null,
    };
    SessionRowView {
        path,
        id: str_field(p, "id"@),
        timestamp: str_field(p, "timestamp"@),
        cwd: str_field(p, "cwd"@),
        repository_url: str_field(git, "repository_url"@),
        branch: str_field(git, "branch"@),
        first_message,
        is_subsession: is_subsession_payload(p),
    }
}

/// The events with their session id set.
pub open spec fn with_session_id(events: Seq<ExecEventView>, id: Option<Seq<char>>) -> Seq<
    ExecEventView,
> {
    events.map_values(|e: ExecEventView| ExecEventView { session_id: id, ..e })
}

/// Whether a session metadata payload marks a subsession.
pub fn is_subsession_meta(payload: &JsonValue) -> (b: bool)
    ensures
        b == is_subsession_payload(*payload),
{
    let thread_source = payload.str_field("thread_source");
    let source_is_subagent = match payload.get("source") {
        Some(source) => match source {
            JsonValue::Object(_, _) => source.get("subagent").is_some(),
            _ => false,
        },
        None => false,
    };
    let has_agent_role = match payload.str_field("agent_role") {
        Some(role) => !is_blank(&chars_of(role.as_str())),
        None => false,
    };
    let is_thread_subagent = match &thread_source {
        Some(t) => opt_text_is(Some(t), "subagent"),
        None => {
            assert(str_or_empty(None) =~= Seq::<char>::empty());
            assert(Seq::<char>::empty() != "subagent"@) by {
                reveal_strlit("subagent");
            }
            false
        },
    };
    is_thread_subagent || source_is_subagent || has_agent_role
}


/// The row that a `session_meta` record gives, with an empty first message.
fn meta_row_of(path: &str, rec: &JsonValue) -> (r: SessionRow)
    ensures
        r@ == meta_row(path@, *rec, Seq::empty()),
{
    let null = JsonValue::Null;
    let p = match rec.get("payload") {
        Some(p) => p,
        None => &null,
    };
    let null_git = JsonValue::Null;
    let git = match p.get("git") {
        Some(g) => g,
        None => &null_git,
    };
    SessionRow {
        path: String::from_str(path),
        id: p.str_field("id"),
        timestamp: p.str_field("timestamp"),
        cwd: p.str_field("cwd"),
        repository_url: git.str_field("repository_url"),
        branch: git.str_field("branch"),
        first_message: String::new(),
        is_subsession: is_subsession_meta(p),
    }
}

/// The lines of `s`, split at each line feed.
pub fn split_lines(s: &[char]) -> (r: Vec<Vec<char>>)
    ensures
        views(r@) == lines(s@),
{
    let mut out: Vec<Vec<char>> = Vec::new();
    let mut cur: Vec<char> = Vec::new();
    let mut i: usize = 0;
    assert(s@.take(0) =~= Seq::<char>::empty());
    assert(views(out@) + seq![cur@] =~= lines(Seq::<char>::empty()));
    while i < s.len()
        invariant
            i <= s@.len(),
            lines(s@.take(i as int)) == views(out@) + seq![cur@],
        decreases s.len() - i,
    {
        let c = s[i];
        let ghost prev = lines(s@.take(i as int));
        let ghost old_out = views(out@);
        let ghost old_cur = cur@;
        assert(s@.take(i + 1).drop_last() =~= s@.take(i as int));
        assert(s@.take(i + 1).last() == c);
        assert(prev.drop_last() =~= old_out);
        assert(prev.last() == old_cur);
        if c == '\n' {
            let w = cur;
            cur = Vec::new();
            out.push(w);
            assert(views(out@) + seq![cur@] =~= prev.push(Seq::empty()));
        } else {
            cur.push(c);
            assert(views(out@) + seq![cur@] =~= prev.drop_last().push(prev.last().push(c)));
        }
        i = i + 1;
    }
    assert(s@.take(s@.len() as int) =~= s@);
    out.push(cur);
    assert(views(out@) =~= lines(s@));
    out
}

proof fn lemma_first_meta_prefix(recs: Seq<Option<JsonValue>>, k: int)
    requires
        0 <= k <= recs.len(),
        first_meta(recs.take(k)) is Some,
    ensures
        first_meta(recs) == first_meta(recs.take(k)),
    decreases recs.len() - k,
{
    if k < recs.len() {
        let r2 = recs.drop_last();
        assert(r2.take(k) =~= recs.take(k));
        lemma_first_meta_prefix(r2, k);
    } else {
        assert(recs.take(k) =~= recs);
    }
}

proof fn lemma_first_user_message_prefix(recs: Seq<Option<JsonValue>>, k: int)
    requires
        0 <= k <= recs.len(),
        first_user_message(recs.take(k)) is Some,
    ensures
        first_user_message(recs) == first_user_message(recs.take(k)),
    decreases recs.len() - k,
{
    if k < recs.len() {
        let r2 = recs.drop_last();
        assert(r2.take(k) =~= recs.take(k));
        lemma_first_user_message_prefix(r2, k);
    } else {
        assert(recs.take(k) =~= recs);
    }
}

/// One line of a session log as reading it gives it: blank, not valid JSON (with the parser's
/// message), or a JSON value.
#[derive(Debug)]
pub enum LineRecord {
    Blank,
    Invalid(String),
    Value(JsonValue),
}

/// The JSON value of a line, if it holds one.
pub open spec fn record_value(r: LineRecord) -> Option<JsonValue> {
    match r {
        LineRecord::Value(v) => Some(v),
        _ => None,
    }
}

/// The JSON values of lines, one per line.
pub open spec fn record_values(rs: Seq<LineRecord>) -> Seq<Option<JsonValue>> {
    rs.map_values(|r: LineRecord| record_value(r))
}

/// The lines that are not valid JSON, numbered from 1, with the parser's messages.
pub open spec fn record_errors(rs: Seq<LineRecord>) -> Seq<(int, Seq<char>)>
    decreases rs.len(),
{
    if rs.len() == 0 {
        Seq::empty()
    } else {
        let prev = record_errors(rs.drop_last());
        match rs.last() {
            LineRecord::Invalid(m) => prev.push((rs.len() as int, m@)),
            _ => prev,
        }
    }
}

/// The parser's message for a line, if it is not valid JSON.
pub open spec fn record_error(r: LineRecord) -> Option<Seq<char>> {
    match r {
        LineRecord::Invalid(m) => Some(m@),
        _ => None,
    }
}

/// One line of a session log, trimmed and parsed.
pub fn line_to_record(line: &Vec<char>) -> (r: LineRecord)
    ensures
        record_value(r) == line_record(line@),
        record_error(r) == line_error(line@),
{
    let t = trim_chars(line);
    if t.len() == 0 {
        return LineRecord::Blank;
    }
    let text = string_of(&t);
    match parse_json(text.as_str()) {
        Err(message) => LineRecord::Invalid(message),
        Ok(value) => LineRecord::Value(value),
    }
}

/// What reading a session log has found so far.
struct SessionScan {
    meta: Option<SessionRow>,
    first: Option<String>,
    events: Vec<ExecEvent>,
    invalid: Vec<InvalidLine>,
}

/// `s` holds what the lines `seen` give.
spec fn scan_holds(s: SessionScan, path: Seq<char>, seen: Seq<LineRecord>, include_exec: bool) -> bool {
    let recs = record_values(seen);
    &&& s.meta is Some <==> first_meta(recs) is Some
    &&& s.meta matches Some(m) ==> m@ == meta_row(path, first_meta(recs)->0, Seq::empty())
    &&& opt_view(s.first) == first_user_message(recs)
    &&& include_exec ==> event_views(s.events@) == exec_fold(path, recs)
    &&& !include_exec ==> s.events@.len() == 0
    &&& invalid_views(s.invalid@) == record_errors(seen)
}

fn empty_scan() -> (s: SessionScan)
    ensures
        forall|path: Seq<char>, include_exec: bool| #[trigger] scan_holds(s, path, Seq::empty(), include_exec),
{
    let s = SessionScan { meta: None, first: None, events: Vec::new(), invalid: Vec::new() };
    assert(record_values(Seq::<LineRecord>::empty()) =~= Seq::<Option<JsonValue>>::empty());
    assert(event_views(s.events@) =~= Seq::<ExecEventView>::empty());
    assert(invalid_views(s.invalid@) =~= Seq::<(int, Seq<char>)>::empty());
    s
}

/// Takes in the next line of a log.
fn read_record(
    s: &mut SessionScan,
    path: &str,
    index: usize,
    rec: &LineRecord,
    include_exec: bool,
    Ghost(seen): Ghost<Seq<LineRecord>>,
)
    requires
        scan_holds(*old(s), path@, seen, include_exec),
        index == seen.len() < usize::MAX,
    ensures
        scan_holds(*final(s), path@, seen.push(*rec), include_exec),
{
    let ghost next = seen.push(*rec);
    let ghost recs = record_values(seen);
    assert(next.drop_last() =~= seen);
    assert(record_values(next) =~= recs.push(record_value(*rec)));
    assert(record_values(next).drop_last() =~= recs);
    match rec {
        LineRecord::Blank => {},
        LineRecord::Invalid(message) => {
            let ghost before = invalid_views(s.invalid@);
            s.invalid.push(InvalidLine { line_number: index + 1, message: message.clone() });
            assert(invalid_views(s.invalid@) =~= before.push(((seen.len() + 1) as int, message@)));
        },
        LineRecord::Value(value) => {
            let rtype = value.str_field("type");
            if s.meta.is_none() && opt_text_is(rtype.as_ref(), "session_meta") {
                s.meta = Some(meta_row_of(path, value));
            }
            if s.first.is_none() && opt_text_is(rtype.as_ref(), "event_msg") {
                let null = JsonValue::Null;
                let p = match value.get("payload") {
                    Some(p) => p,
                    None => &null,
                };
                let ptype = p.str_field("type");
                if opt_text_is(ptype.as_ref(), "user_message") {
                    s.first = Some(
                        match p.str_field("message") {
                            Some(m) => m,
                            None => String::new(),
                        },
                    );
                }
            }
            if include_exec {
                collect_exec_event(path, index, value, &mut s.events);
            }
        },
    }
}


/// The session a finished reading gives: the metadata row with the first user message, and
/// the exec events, each with the session's id.
fn finish_scan(s: SessionScan, Ghost(path): Ghost<Seq<char>>, Ghost(recs): Ghost<Seq<Option<JsonValue>>>, include_exec: bool) -> (r: SessionParse)
    requires
        s.meta is Some <==> first_meta(recs) is Some,
        s.meta matches Some(m) ==> m@ == meta_row(path, first_meta(recs)->0, Seq::empty()),
        opt_view(s.first) == first_user_message(recs),
        include_exec ==> event_views(s.events@) == exec_fold(path, recs),
        !include_exec ==> s.events@.len() == 0,
    ensures
        invalid_views(r.invalid_lines@) == invalid_views(s.invalid@),
        r.session is Some <==> first_meta(recs) is Some,
        r.session matches Some(ps) ==> {
            &&& ps.row@ == meta_row(path, first_meta(recs)->0, str_or_empty(first_user_message(recs)))
            &&& event_views(ps.exec_events@) == if include_exec {
                with_session_id(exec_fold(path, recs), ps.row@.id)
            } else {
                Seq::empty()
            }
        },
{
    let SessionScan { meta, first, mut events, invalid } = s;
    match meta {
        None => SessionParse { session: None, invalid_lines: invalid },
        Some(mut row) => {
            row.first_message = match first {
                Some(m) => m,
                None => String::new(),
            };
            let ghost before = event_views(events@);
            let mut k: usize = 0;
            while k < events.len()
                invariant
                    k <= events@.len(),
                    before.len() == events@.len(),
                    forall|j: int| 0 <= j < k ==> #[trigger] events@[j]@ == (ExecEventView {
                        session_id: row@.id,
                        ..before[j]
                    }),
                    forall|j: int| k <= j < events@.len() ==> #[trigger] events@[j]@ == before[j],
                decreases events.len() - k,
            {
                let ghost old_events = events@;
                let e = &events[k];
                let updated = ExecEvent {
                    session_path: e.session_path.clone(),
                    session_id: copy_opt(&row.id),
                    event_index: e.event_index,
                    call_id: copy_opt(&e.call_id),
                    kind: e.kind.clone(),
                    name: copy_opt(&e.name),
                    command: e.command.clone(),
                    output: e.output.clone(),
                };
                events.set(k, updated);
                assert forall|j: int| 0 <= j < k + 1 implies #[trigger] events@[j]@ == (ExecEventView {
                    session_id: row@.id,
                    ..before[j]
                }) by {
                    if j < k {
                        assert(events@[j] == old_events[j]);
                        assert(old_events[j]@ == (ExecEventView { session_id: row@.id, ..before[j] }));
                    } else {
                        assert(old_events[j]@ == before[j]);
                    }
                }
                k = k + 1;
            }
            assert(event_views(events@) =~= with_session_id(before, row@.id));
            SessionParse {
                session: Some(ParsedSessionFile { row, exec_events: events }),
                invalid_lines: invalid,
            }
        },
    }
}

/// A session log from its lines, already parsed: the metadata from its first `session_meta`
/// record, the message of its first user-message event, and, where `include_exec` holds, its
/// exec events. Invalid lines are reported; without `include_exec`, reading stops once both
/// the metadata and a user message were found.
pub fn session_from_records(path: &str, records: &[LineRecord], include_exec: bool) -> (r: SessionParse)
    ensures
        ({
            let recs = record_values(records@);
            &&& invalid_views(r.invalid_lines@) == record_errors(
                records@.take(scanned_lines(recs, include_exec)),
            )
            &&& (r.session is Some <==> first_meta(recs) is Some)
            &&& r.session matches Some(s) ==> {
                &&& s.row@ == meta_row(
                    path@,
                    first_meta(recs)->0,
                    str_or_empty(first_user_message(recs)),
                )
                &&& event_views(s.exec_events@) == if include_exec {
                    with_session_id(exec_fold(path@, recs), s.row@.id)
                } else {
                    Seq::empty()
                }
            }
        }),
{
    let ghost recs = record_values(records@);
    let n: usize = records.len();
    let mut scan = empty_scan();
    let mut done = false;
    let mut i: usize = 0;
    assert(records@.take(0) =~= Seq::<LineRecord>::empty());
    while i < n && !done
        invariant
            i <= n == records@.len(),
            recs == record_values(records@),
            scan_holds(scan, path@, records@.take(i as int), include_exec),
            done ==> !include_exec && found_both(recs, i as int) && stop_from(recs, 0) == i,
            !done && !include_exec ==> stop_from(recs, 0) == stop_from(recs, i as int),
            !done && !include_exec ==> !found_both(recs, i as int),
        decreases n - i,
    {
        let ghost seen = records@.take(i as int);
        assert(records@.take(i + 1) =~= seen.push(records@[i as int]));
        assert(record_values(seen) =~= recs.take(i as int));
        read_record(&mut scan, path, i, &records[i], include_exec, Ghost(seen));
        assert(record_values(records@.take(i + 1)) =~= recs.take(i + 1));
        done = !include_exec && scan.meta.is_some() && scan.first.is_some();
        i = i + 1;
    }
    proof {
        assert(record_values(records@.take(i as int)) =~= recs.take(i as int));
        if done {
            lemma_first_meta_prefix(recs, i as int);
            lemma_first_user_message_prefix(recs, i as int);
        } else {
            assert(recs.take(i as int) =~= recs);
        }
    }
    assert(scanned_lines(recs, include_exec) == i);
    finish_scan(scan, Ghost(path@), Ghost(recs), include_exec)
}

/// Reads one session log: the metadata from its first `session_meta` record, the message of its
/// first user-message event, and, where `include_exec` holds, its exec events. Lines that are
/// not valid JSON are skipped and reported; without `include_exec`, reading stops once both the
/// metadata and a user message were found, and the lines after that are not parsed.
pub fn parse_session_text(path: &str, contents: &str, include_exec: bool) -> (r: SessionParse)
    ensures
        ({
            let recs = session_records(contents@);
            &&& invalid_views(r.invalid_lines@) == invalid_lines(
                lines(contents@).take(scanned_lines(recs, include_exec)),
            )
            &&& (r.session is Some <==> first_meta(recs) is Some)
            &&& r.session matches Some(s) ==> {
                &&& s.row@ == meta_row(
                    path@,
                    first_meta(recs)->0,
                    str_or_empty(first_user_message(recs)),
                )
                &&& event_views(s.exec_events@) == if include_exec {
                    with_session_id(exec_fold(path@, recs), s.row@.id)
                } else {
                    Seq::empty()
                }
            }
        }),
{
    let chars = chars_of(contents);
    let ls = split_lines(&chars);
    let ghost all_lines = lines(contents@);
    let ghost recs = session_records(contents@);
    let n: usize = ls.len();
    let mut scan = empty_scan();
    let mut done = false;
    let mut i: usize = 0;
    let ghost mut seen: Seq<LineRecord> = Seq::empty();
    assert(recs.take(0) =~= Seq::<Option<JsonValue>>::empty());
    assert(all_lines.take(0) =~= Seq::<Seq<char>>::empty());
    assert(record_values(seen) =~= Seq::<Option<JsonValue>>::empty());
    while i < n && !done
        invariant
            i <= n == ls@.len(),
            views(ls@) == all_lines,
            all_lines == lines(contents@),
            recs == session_records(contents@),
            recs.len() == n,
            forall|j: int| 0 <= j < n ==> #[trigger] recs[j] == line_record(all_lines[j]),
            seen.len() == i,
            record_values(seen) == recs.take(i as int),
            record_errors(seen) == invalid_lines(all_lines.take(i as int)),
            scan_holds(scan, path@, seen, include_exec),
            done ==> !include_exec && found_both(recs, i as int) && stop_from(recs, 0) == i,
            !done && !include_exec ==> stop_from(recs, 0) == stop_from(recs, i as int),
            !done && !include_exec ==> !found_both(recs, i as int),
        decreases n - i,
    {
        let ghost line = all_lines[i as int];
        assert(ls@[i as int]@ == line);
        let rec = line_to_record(&ls[i]);
        read_record(&mut scan, path, i, &rec, include_exec, Ghost(seen));
        proof {
            let next = seen.push(rec);
            assert(next.drop_last() =~= seen);
            assert(all_lines.take(i + 1).drop_last() =~= all_lines.take(i as int));
            assert(all_lines.take(i + 1).last() == line);
            assert(record_values(next) =~= recs.take(i + 1));
            seen = next;
        }
        done = !include_exec && scan.meta.is_some() && scan.first.is_some();
        i = i + 1;
    }
    proof {
        if done {
            lemma_first_meta_prefix(recs, i as int);
            lemma_first_user_message_prefix(recs, i as int);
        } else {
            assert(recs.take(i as int) =~= recs);
            assert(all_lines.take(i as int) =~= all_lines);
        }
    }
    assert(scanned_lines(recs, include_exec) == i);
    finish_scan(scan, Ghost(path@), Ghost(recs), include_exec)
}

/// The row that a session log gives, if it has metadata.
pub open spec fn parsed_row(path: Seq<char>, contents: Seq<char>) -> Option<SessionRowView> {
    let recs = session_records(contents);
    match first_meta(recs) {
        Some(m) => Some(meta_row(path, m, str_or_empty(first_user_message(recs)))),
        None => None,
    }
}

/// The exec events that a session log gives, if it has metadata and `include_exec` holds.
pub open spec fn parsed_events(path: Seq<char>, contents: Seq<char>, include_exec: bool) -> Seq<
    ExecEventView,
> {
    match parsed_row(path, contents) {
        Some(row) => if include_exec {
            with_session_id(exec_fold(path, session_records(contents)), row.id)
        } else {
            Seq::empty()
        },
        None => Seq::empty(),
    }
}

/// The session row of a log, if it has metadata (see [`parse_session_text`]).
pub fn parse_session_file(path: &str, contents: &str) -> (r: Option<SessionRow>)
    ensures
        match r {
            Some(row) => parsed_row(path@, contents@) == Some(row@),
            None => parsed_row(path@, contents@) is None,
        },
{
    match parse_session_text(path, contents, false).session {
        Some(parsed) => Some(parsed.row),
        None => None,
    }
}

/// Which sessions a listing shows.
#[derive(Debug, Clone, Copy)]
pub struct CollectOptions {
    pub include_subsessions: bool,
    pub include_empty_messages: bool,
    pub include_exec: bool,
}

impl Default for CollectOptions {
    fn default() -> (r: Self)
        ensures
            !r.include_subsessions,
            !r.include_empty_messages,
            !r.include_exec,
    {
        CollectOptions { include_subsessions: false, include_empty_messages: false, include_exec: false }
    }
}

/// A row is shown unless its first message is blank or it is a subsession, each unless the
/// options include those.
pub open spec fn included(row: SessionRowView, options: CollectOptions) -> bool {
    &&& (options.include_empty_messages || !all_white(row.first_message))
    &&& (options.include_subsessions || !row.is_subsession)
}

/// Whether the options show `row`.
pub fn should_include_row(row: &SessionRow, options: CollectOptions) -> (b: bool)
    ensures
        b == included(row@, options),
{
    if !options.include_empty_messages && is_blank(&chars_of(row.first_message.as_str())) {
        return false;
    }
    if !options.include_subsessions && row.is_subsession {
        return false;
    }
    true
}

/// The date of a session: the first ten characters of its timestamp, or nothing.
pub open spec fn date_of(row: SessionRowView) -> Seq<char> {
    match row.timestamp {
        Some(t) => if t.len() <= 10 {
            t
        } else {
            t.take(10)
        },
        None => Seq::empty(),
    }
}

/// The date of a session: the first ten characters of its timestamp, or nothing.
pub fn session_date(row: &SessionRow) -> (r: String)
    ensures
        r@ == date_of(row@),
{
    match &row.timestamp {
        Some(t) => {
            let cs = chars_of(t.as_str());
            if cs.len() <= 10 {
                t.clone()
            } else {
                let head = crate::text::copy_range(&cs, 0, 10);
                string_of(&head)
            }
        },
        None => String::new(),
    }
}

/// The text searched for a session: its message, cwd, repository, branch, timestamp and date,
/// one per line, in lower case.
pub open spec fn searchable(row: SessionRowView) -> Seq<char> {
    lowercase(
        join(
            seq![
                row.first_message,
                str_or_empty(row.cwd),
                str_or_empty(row.repository_url),
                str_or_empty(row.branch),
                str_or_empty(row.timestamp),
                date_of(row),
            ],
            "\n"@,
        ),
    )
}

/// An optional string, or the empty string.
fn or_empty(o: &Option<String>) -> (r: String)
    ensures
        r@ == str_or_empty(opt_view(*o)),
{
    match o {
        Some(s) => s.clone(),
        None => String::new(),
    }
}

/// The text searched for a session (see [`searchable`]).
pub fn searchable_text(row: &SessionRow) -> (r: String)
    ensures
        r@ == searchable(row@),
{
    let mut parts: Vec<String> = Vec::new();
    parts.push(row.first_message.clone());
    parts.push(or_empty(&row.cwd));
    parts.push(or_empty(&row.repository_url));
    parts.push(or_empty(&row.branch));
    parts.push(or_empty(&row.timestamp));
    parts.push(session_date(row));
    let joined = join_strings(&parts, "\n");
    assert(parts@.map_values(|p: String| p@) =~= seq![
        row@.first_message,
        str_or_empty(row@.cwd),
        str_or_empty(row@.repository_url),
        str_or_empty(row@.branch),
        str_or_empty(row@.timestamp),
        date_of(row@),
    ]);
    to_lowercase(joined.as_str())
}

/// The lower-cased words of a query.
pub open spec fn query_terms(query: Seq<char>) -> Seq<Seq<char>> {
    words(query).map_values(|w: Seq<char>| lowercase(w))
}

/// Every term occurs in the row's searched text.
pub open spec fn row_matches(row: SessionRowView, terms: Seq<Seq<char>>) -> bool {
    forall|k: int| 0 <= k < terms.len() ==> contains_seq(searchable(row), #[trigger] terms[k])
}

/// The rows, in order, that match every term.
pub open spec fn matching_rows(rows: Seq<SessionRow>, terms: Seq<Seq<char>>) -> Seq<SessionRow>
    decreases rows.len(),
{
    if rows.len() == 0 {
        Seq::empty()
    } else {
        let prev = matching_rows(rows.drop_last(), terms);
        if row_matches(rows.last()@, terms) {
            prev.push(rows.last())
        } else {
            prev
        }
    }
}

/// A copy of a row.
pub fn copy_row(row: &SessionRow) -> (r: SessionRow)
    ensures
        r == *row,
{
    SessionRow {
        path: row.path.clone(),
        id: copy_opt(&row.id),
        timestamp: copy_opt(&row.timestamp),
        cwd: copy_opt(&row.cwd),
        repository_url: copy_opt(&row.repository_url),
        branch: copy_opt(&row.branch),
        first_message: row.first_message.clone(),
        is_subsession: row.is_subsession,
    }
}

/// The lower-cased words of a query.
pub fn query_term_list(query: &str) -> (r: Vec<Vec<char>>)
    ensures
        views(r@) == query_terms(query@),
{
    let qchars = chars_of(query);
    let ws = words_of(&qchars);
    let mut terms: Vec<Vec<char>> = Vec::new();
    let mut t: usize = 0;
    while t < ws.len()
        invariant
            t <= ws@.len(),
            views(ws@) == words(query@),
            views(terms@) == words(query@).take(t as int).map_values(|w: Seq<char>| lowercase(w)),
        decreases ws.len() - t,
    {
        let word = string_of(&ws[t]);
        assert(word@ == words(query@)[t as int]);
        let low = to_lowercase(word.as_str());
        let ghost before = views(terms@);
        let low_chars = chars_of(low.as_str());
        terms.push(low_chars);
        assert(views(terms@) =~= before.push(low@));
        assert(words(query@).take(t + 1).map_values(|w: Seq<char>| lowercase(w)) =~= words(
            query@,
        ).take(t as int).map_values(|w: Seq<char>| lowercase(w)).push(lowercase(words(query@)[t as int])));
        t = t + 1;
    }
    assert(words(query@).take(ws@.len() as int) =~= words(query@));
    terms
}

/// The rows whose searched text holds every lower-cased word of the query; all rows for a
/// query without words.
pub fn filter_sessions(rows: &[SessionRow], query: &str) -> (r: Vec<SessionRow>)
    ensures
        r@ == matching_rows(rows@, query_terms(query@)),
{
    let terms = query_term_list(query);
    let ghost tv = views(terms@);
    assert(tv == query_terms(query@));
    let mut out: Vec<SessionRow> = Vec::new();
    let mut i: usize = 0;
    while i < rows.len()
        invariant
            i <= rows@.len(),
            tv == views(terms@),
            tv == query_terms(query@),
            out@ == matching_rows(rows@.take(i as int), tv),
        decreases rows.len() - i,
    {
        assert(rows@.take(i + 1).drop_last() =~= rows@.take(i as int));
        assert(rows@.take(i + 1).last() == rows@[i as int]);
        let hay = chars_of(searchable_text(&rows[i]).as_str());
        let mut all = true;
        let mut k: usize = 0;
        while k < terms.len()
            invariant
                k <= terms@.len(),
                i < rows@.len(),
                tv == views(terms@),
                hay@ == searchable(rows@[i as int]@),
                all <==> (forall|m: int| 0 <= m < k ==> contains_seq(hay@, #[trigger] tv[m])),
            decreases terms.len() - k,
        {
            assert(terms@[k as int]@ == tv[k as int]);
            if !contains_chars(&hay, &terms[k]) {
                all = false;
            }
            k = k + 1;
        }
        if all {
            out.push(copy_row(&rows[i]));
        }
        i = i + 1;
    }
    assert(rows@.take(rows@.len() as int) =~= rows@);
    out
}

/// Laws of [`filter_sessions`], whose result is `matching_rows(rows, query_terms(query))`:
/// filtering by two queries joined by a space equals filtering by the first, then filtering
/// what is left by the second; filtering twice by one query equals filtering once; and a query
/// of white space alone keeps every row.
pub proof fn lemma_filter_sessions_laws(rows: Seq<SessionRow>, q1: Seq<char>, q2: Seq<char>)
    ensures
        matching_rows(rows, query_terms(q1 + seq![' '] + q2)) == matching_rows(
            matching_rows(rows, query_terms(q1)),
            query_terms(q2),
        ),
        matching_rows(matching_rows(rows, query_terms(q1)), query_terms(q1)) == matching_rows(
            rows,
            query_terms(q1),
        ),
        all_white(q1) ==> matching_rows(rows, query_terms(q1)) == rows,
{
    lemma_words_joined(q1, q2);
    assert(query_terms(q1 + seq![' '] + q2) =~= query_terms(q1) + query_terms(q2));
    lemma_matching_joined(rows, query_terms(q1), query_terms(q2));
    let t = query_terms(q1);
    lemma_matching_joined(rows, t, t);
    lemma_matching_twice(rows, t);
    if all_white(q1) {
        lemma_words_of_white(q1);
        assert(query_terms(q1) =~= Seq::<Seq<char>>::empty());
        lemma_no_terms_keeps_all(rows);
    }
}


/// One session log: its path and its text.
#[derive(Debug, Clone)]
pub struct SessionSource {
    pub path: String,
    pub contents: String,
}

/// An invalid line of one session log.
#[derive(Debug, Clone, PartialEq, Eq)]
pub struct SourceInvalidLine {
    pub path: String,
    pub line_number: usize,
    pub message: String,
}

/// The rows, exec events and counts that a set of session logs gives.
#[derive(Debug, Clone)]
pub struct CollectedSessionData {
    pub rows: Vec<SessionRow>,
    pub exec_events: Vec<ExecEvent>,
    pub total_files: usize,
    pub skipped: usize,
    pub invalid_lines: Vec<SourceInvalidLine>,
}

/// The shown row of a log, if it has one.
pub open spec fn shown_row(src: SessionSource, options: CollectOptions) -> Option<SessionRowView> {
    match parsed_row(src.path@, src.contents@) {
        Some(row) => if included(row, options) {
            Some(row)
        } else {
            None
        },
        None => None,
    }
}

/// The shown rows of the logs, in order.
pub open spec fn collected_rows(srcs: Seq<SessionSource>, options: CollectOptions) -> Seq<SessionRowView>
    decreases srcs.len(),
{
    if srcs.len() == 0 {
        Seq::empty()
    } else {
        let prev = collected_rows(srcs.drop_last(), options);
        match shown_row(srcs.last(), options) {
            Some(row) => prev.push(row),
            None => prev,
        }
    }
}

/// The exec events of the shown logs, in order, where the options include exec events.
pub open spec fn collected_events(srcs: Seq<SessionSource>, options: CollectOptions) -> Seq<ExecEventView>
    decreases srcs.len(),
{
    if srcs.len() == 0 {
        Seq::empty()
    } else {
        let prev = collected_events(srcs.drop_last(), options);
        match shown_row(srcs.last(), options) {
            Some(_) => prev + parsed_events(srcs.last().path@, srcs.last().contents@, options.include_exec),
            None => prev,
        }
    }
}

/// The number of logs without a shown row.
pub open spec fn skipped_count(srcs: Seq<SessionSource>, options: CollectOptions) -> int
    decreases srcs.len(),
{
    if srcs.len() == 0 {
        0
    } else {
        skipped_count(srcs.drop_last(), options) + if shown_row(srcs.last(), options) is Some {
            0int
        } else {
            1int
        }
    }
}

/// The invalid lines of one log that reading it passes over, with the log's path.
pub open spec fn source_invalid(src: SessionSource, include_exec: bool) -> Seq<(Seq<char>, int, Seq<char>)> {
    invalid_lines(
        lines(src.contents@).take(scanned_lines(session_records(src.contents@), include_exec)),
    ).map_values(|l: (int, Seq<char>)| (src.path@, l.0, l.1))
}

/// The invalid lines of all logs, in order.
pub open spec fn collected_invalid(srcs: Seq<SessionSource>, include_exec: bool) -> Seq<(Seq<char>, int, Seq<char>)>
    decreases srcs.len(),
{
    if srcs.len() == 0 {
        Seq::empty()
    } else {
        collected_invalid(srcs.drop_last(), include_exec) + source_invalid(srcs.last(), include_exec)
    }
}

/// The views of a sequence of rows.
pub open spec fn row_views(rows: Seq<SessionRow>) -> Seq<SessionRowView> {
    rows.map_values(|r: SessionRow| r@)
}

/// The views of a sequence of invalid source lines.
pub open spec fn source_invalid_views(v: Seq<SourceInvalidLine>) -> Seq<(Seq<char>, int, Seq<char>)> {
    v.map_values(|l: SourceInvalidLine| (l.path@, l.line_number as int, l.message@))
}

/// Reads the session logs in the given order: the rows that the options show, the exec events
/// of those sessions where the options include them, how many logs there were and how many gave
/// no shown row, and the invalid lines passed over.
pub fn collect_session_data(sources: &[SessionSource], options: CollectOptions) -> (r: CollectedSessionData)
    ensures
        row_views(r.rows@) == collected_rows(sources@, options),
        event_views(r.exec_events@) == collected_events(sources@, options),
        r.total_files == sources@.len(),
        r.skipped == skipped_count(sources@, options),
        source_invalid_views(r.invalid_lines@) == collected_invalid(sources@, options.include_exec),
        sorted_by_path(sources@) ==> rows_in_path_order(row_views(r.rows@)),
{
    let mut rows: Vec<SessionRow> = Vec::new();
    let mut exec_events: Vec<ExecEvent> = Vec::new();
    let mut invalid: Vec<SourceInvalidLine> = Vec::new();
    let mut skipped: usize = 0;
    let mut i: usize = 0;
    while i < sources.len()
        invariant
            i <= sources@.len(),
            skipped <= i,
            row_views(rows@) == collected_rows(sources@.take(i as int), options),
            event_views(exec_events@) == collected_events(sources@.take(i as int), options),
            skipped == skipped_count(sources@.take(i as int), options),
            source_invalid_views(invalid@) == collected_invalid(sources@.take(i as int), options.include_exec),
        decreases sources.len() - i,
    {
        let ghost pre = sources@.take(i as int);
        let ghost src = sources@[i as int];
        assert(sources@.take(i + 1).drop_last() =~= pre);
        assert(sources@.take(i + 1).last() == src);
        let source = &sources[i];
        let parsed = parse_session_text(source.path.as_str(), source.contents.as_str(), options.include_exec);
        let ghost old_invalid = source_invalid_views(invalid@);
        let mut j: usize = 0;
        while j < parsed.invalid_lines.len()
            invariant
                j <= parsed.invalid_lines@.len(),
                source_invalid_views(invalid@) == old_invalid + invalid_views(parsed.invalid_lines@).take(
                    j as int,
                ).map_values(|l: (int, Seq<char>)| (source.path@, l.0, l.1)),
            decreases parsed.invalid_lines.len() - j,
        {
            let line = &parsed.invalid_lines[j];
            let entry = SourceInvalidLine {
                path: source.path.clone(),
                line_number: line.line_number,
                message: line.message.clone(),
            };
            let ghost before = source_invalid_views(invalid@);
            invalid.push(entry);
            assert(source_invalid_views(invalid@) =~= before.push(entry_view(&entry)));
            assert(invalid_views(parsed.invalid_lines@).take(j + 1).map_values(
                |l: (int, Seq<char>)| (source.path@, l.0, l.1),
            ) =~= invalid_views(parsed.invalid_lines@).take(j as int).map_values(
                |l: (int, Seq<char>)| (source.path@, l.0, l.1),
            ).push((source.path@, line.line_number as int, line.message@)));
            j = j + 1;
        }
        assert(invalid_views(parsed.invalid_lines@).take(parsed.invalid_lines@.len() as int)
            =~= invalid_views(parsed.invalid_lines@));
        assert(source_invalid_views(invalid@) =~= collected_invalid(sources@.take(i + 1), options.include_exec));
        match parsed.session {
            Some(mut session) => {
                if should_include_row(&session.row, options) {
                    let ghost before_rows = row_views(rows@);
                    let ghost before_events = event_views(exec_events@);
                    let ghost new_events = event_views(session.exec_events@);
                    let row = session.row;
                    rows.push(row);
                    assert(row_views(rows@) =~= before_rows.push(row@));
                    exec_events.append(&mut session.exec_events);
                    assert(event_views(exec_events@) =~= before_events + new_events);
                } else {
                    skipped = skipped + 1;
                }
            },
            None => {
                skipped = skipped + 1;
            },
        }
        i = i + 1;
    }
    assert(sources@.take(sources@.len() as int) =~= sources@);
    proof {
        if sorted_by_path(sources@) {
            lemma_rows_ascend_by_path(sources@, options);
        }
    }
    CollectedSessionData {
        rows,
        exec_events,
        total_files: sources.len(),
        skipped,
        invalid_lines: invalid,
    }
}

/// The view of one invalid source line.
pub open spec fn entry_view(l: &SourceInvalidLine) -> (Seq<char>, int, Seq<char>) {
    (l.path@, l.line_number as int, l.message@)
}

/// The shown rows of the logs, how many logs there were, and how many gave no shown row.
pub fn collect_rows(sources: &[SessionSource], options: CollectOptions) -> (r: (Vec<SessionRow>, usize, usize))
    ensures
        row_views(r.0@) == collected_rows(sources@, options),
        r.1 == sources@.len(),
        r.2 == skipped_count(sources@, options),
{
    let data = collect_session_data(sources, options);
    (data.rows, data.total_files, data.skipped)
}

/// Every log is either listed or counted as skipped.
pub proof fn lemma_rows_and_skipped_cover_all(srcs: Seq<SessionSource>, options: CollectOptions)
    ensures
        collected_rows(srcs, options).len() + skipped_count(srcs, options) == srcs.len(),
    decreases srcs.len(),
{
    if srcs.len() > 0 {
        lemma_rows_and_skipped_cover_all(srcs.drop_last(), options);
    }
}

/// Every listed row is one that the options show.
pub proof fn lemma_listed_rows_are_shown(srcs: Seq<SessionSource>, options: CollectOptions)
    ensures
        forall|k: int| 0 <= k < collected_rows(srcs, options).len() ==> included(
            #[trigger] collected_rows(srcs, options)[k],
            options,
        ),
    decreases srcs.len(),
{
    if srcs.len() > 0 {
        lemma_listed_rows_are_shown(srcs.drop_last(), options);
        let prev = collected_rows(srcs.drop_last(), options);
        let cur = collected_rows(srcs, options);
        assert forall|k: int| 0 <= k < cur.len() implies included(#[trigger] cur[k], options) by {
            if k < prev.len() {
                assert(included(prev[k], options));
            }
        }
    }
}

/// Without exec events requested, no exec event is collected.
pub proof fn lemma_no_exec_unless_requested(srcs: Seq<SessionSource>, options: CollectOptions)
    requires
        !options.include_exec,
    ensures
        collected_events(srcs, options) == Seq::<ExecEventView>::empty(),
    decreases srcs.len(),
{
    if srcs.len() > 0 {
        lemma_no_exec_unless_requested(srcs.drop_last(), options);
        assert(collected_events(srcs, options) =~= Seq::<ExecEventView>::empty());
    }
}

/// A query without terms keeps every row, in order.
pub proof fn lemma_no_terms_keeps_all(rows: Seq<SessionRow>)
    ensures
        matching_rows(rows, Seq::empty()) == rows,
    decreases rows.len(),
{
    if rows.len() > 0 {
        lemma_no_terms_keeps_all(rows.drop_last());
        assert(row_matches(rows.last()@, Seq::empty()));
        assert(rows.drop_last().push(rows.last()) =~= rows);
    }
}

/// Filtering keeps only matching rows, each one of the given rows, and never more rows than
/// were given.
pub proof fn lemma_filter_keeps_matching_rows(rows: Seq<SessionRow>, terms: Seq<Seq<char>>)
    ensures
        matching_rows(rows, terms).len() <= rows.len(),
        forall|k: int| 0 <= k < matching_rows(rows, terms).len() ==> {
            &&& row_matches((#[trigger] matching_rows(rows, terms)[k])@, terms)
            &&& rows.contains(matching_rows(rows, terms)[k])
        },
    decreases rows.len(),
{
    if rows.len() > 0 {
        lemma_filter_keeps_matching_rows(rows.drop_last(), terms);
        let prev = matching_rows(rows.drop_last(), terms);
        let cur = matching_rows(rows, terms);
        assert forall|k: int| 0 <= k < cur.len() implies {
            &&& row_matches((#[trigger] cur[k])@, terms)
            &&& rows.contains(cur[k])
        } by {
            if k < prev.len() {
                assert(row_matches(prev[k]@, terms));
                assert(rows.drop_last().contains(prev[k]));
                let j = choose|j: int| 0 <= j < rows.drop_last().len() && rows.drop_last()[j] == prev[k];
                assert(rows[j] == prev[k]);
            } else {
                assert(cur[k] == rows.last());
                assert(rows[rows.len() - 1] == rows.last());
            }
        }
    }
}


proof fn lemma_words_nonempty(s: Seq<char>)
    requires
        s.len() > 0,
        !crate::text::is_white(s.last()),
    ensures
        words(s).len() > 0,
{
}

proof fn lemma_words_of_white(s: Seq<char>)
    requires
        all_white(s),
    ensures
        words(s) == Seq::<Seq<char>>::empty(),
    decreases s.len(),
{
    if s.len() > 0 {
        assert(all_white(s.drop_last()));
        assert(crate::text::is_white(s[s.len() - 1]));
        lemma_words_of_white(s.drop_last());
    }
}

/// The words of two texts joined by a space are the words of the first, then those of the
/// second.
proof fn lemma_words_joined(a: Seq<char>, b: Seq<char>)
    ensures
        words(a + seq![' '] + b) == words(a) + words(b),
    decreases b.len(),
{
    let ab = a + seq![' '] + b;
    assert(crate::text::is_white(' '));
    if b.len() == 0 {
        assert(ab =~= a.push(' '));
        assert(ab.drop_last() =~= a);
        assert(words(a) + words(b) =~= words(a));
    } else {
        let bp = b.drop_last();
        let c = b.last();
        lemma_words_joined(a, bp);
        assert(ab.drop_last() =~= a + seq![' '] + bp);
        assert(ab.last() == c);
        let wa = words(a);
        let wb = words(bp);
        if crate::text::is_white(c) {
            assert(words(b) == wb);
        } else {
            if bp.len() >= 1 && !crate::text::is_white(bp.last()) {
                assert(ab[ab.len() - 2] == bp.last());
                assert(b[b.len() - 2] == bp.last());
                lemma_words_nonempty(bp);
                assert((wa + wb).drop_last().push((wa + wb).last().push(c)) =~= wa + wb.drop_last().push(
                    wb.last().push(c),
                ));
            } else {
                if bp.len() >= 1 {
                    assert(ab[ab.len() - 2] == bp.last());
                    assert(b[b.len() - 2] == bp.last());
                } else {
                    assert(ab[ab.len() - 2] == ' ');
                }
                assert((wa + wb).push(seq![c]) =~= wa + wb.push(seq![c]));
            }
        }
    }
}

proof fn lemma_matches_joined(row: SessionRowView, t1: Seq<Seq<char>>, t2: Seq<Seq<char>>)
    ensures
        row_matches(row, t1 + t2) == (row_matches(row, t1) && row_matches(row, t2)),
{
    let t = t1 + t2;
    if row_matches(row, t) {
        assert forall|k: int| 0 <= k < t1.len() implies contains_seq(searchable(row), #[trigger] t1[k]) by {
            assert(t[k] == t1[k]);
        }
        assert forall|k: int| 0 <= k < t2.len() implies contains_seq(searchable(row), #[trigger] t2[k]) by {
            assert(t[t1.len() + k] == t2[k]);
        }
    }
    if row_matches(row, t1) && row_matches(row, t2) {
        assert forall|k: int| 0 <= k < t.len() implies contains_seq(searchable(row), #[trigger] t[k]) by {
            if k < t1.len() {
                assert(t[k] == t1[k]);
            } else {
                assert(t[k] == t2[k - t1.len()]);
            }
        }
    }
}

proof fn lemma_matching_joined(rows: Seq<SessionRow>, t1: Seq<Seq<char>>, t2: Seq<Seq<char>>)
    ensures
        matching_rows(rows, t1 + t2) == matching_rows(matching_rows(rows, t1), t2),
    decreases rows.len(),
{
    if rows.len() > 0 {
        let p = rows.drop_last();
        let x = rows.last();
        lemma_matching_joined(p, t1, t2);
        lemma_matches_joined(x@, t1, t2);
        let m1 = matching_rows(p, t1);
        if row_matches(x@, t1) {
            assert(m1.push(x).drop_last() =~= m1);
            assert(m1.push(x).last() == x);
        }
    }
}

proof fn lemma_matching_twice(rows: Seq<SessionRow>, t: Seq<Seq<char>>)
    ensures
        matching_rows(rows, t + t) == matching_rows(rows, t),
    decreases rows.len(),
{
    if rows.len() > 0 {
        lemma_matching_twice(rows.drop_last(), t);
        lemma_matches_joined(rows.last()@, t, t);
    }
}


/// Whether exec events are asked for changes neither the listed rows nor the count of skipped
/// logs; only the exec events differ, and without the request there are none.
pub proof fn lemma_rows_ignore_exec_flag(srcs: Seq<SessionSource>, o1: CollectOptions, o2: CollectOptions)
    requires
        o1.include_subsessions == o2.include_subsessions,
        o1.include_empty_messages == o2.include_empty_messages,
    ensures
        collected_rows(srcs, o1) == collected_rows(srcs, o2),
        skipped_count(srcs, o1) == skipped_count(srcs, o2),
        !o1.include_exec ==> collected_events(srcs, o1) == Seq::<ExecEventView>::empty(),
    decreases srcs.len(),
{
    if srcs.len() > 0 {
        lemma_rows_ignore_exec_flag(srcs.drop_last(), o1, o2);
    }
    if !o1.include_exec {
        lemma_no_exec_unless_requested(srcs, o1);
    }
}


/// The rank of a path character in path order: `/` before every other character, so that
/// paths written without `.` components or repeated separators compare component by
/// component, as `Path`s do.
pub open spec fn path_rank(c: char) -> int {
    if c == '/' {
        0
    } else {
        (c as u32) as int + 1
    }
}

/// `a` comes no later than `b` in path order.
pub open spec fn path_le(a: Seq<char>, b: Seq<char>) -> bool
    decreases a.len(),
{
    if a.len() == 0 {
        true
    } else if b.len() == 0 {
        false
    } else if path_rank(a[0]) != path_rank(b[0]) {
        path_rank(a[0]) < path_rank(b[0])
    } else {
        path_le(a.drop_first(), b.drop_first())
    }
}

/// Any two paths are ordered one way or the other.
pub proof fn lemma_path_le_total(a: Seq<char>, b: Seq<char>)
    ensures
        path_le(a, b) || path_le(b, a),
    decreases a.len(),
{
    if a.len() > 0 && b.len() > 0 && path_rank(a[0]) == path_rank(b[0]) {
        lemma_path_le_total(a.drop_first(), b.drop_first());
    }
}

/// Path order is transitive.
pub proof fn lemma_path_le_trans(a: Seq<char>, b: Seq<char>, c: Seq<char>)
    requires
        path_le(a, b),
        path_le(b, c),
    ensures
        path_le(a, c),
    decreases a.len(),
{
    if a.len() > 0 && b.len() > 0 && c.len() > 0 && path_rank(a[0]) == path_rank(b[0]) && path_rank(b[0])
        == path_rank(c[0]) {
        lemma_path_le_trans(a.drop_first(), b.drop_first(), c.drop_first());
    }
}

/// Whether `a` comes no later than `b` in path order (see [`path_le`]).
pub fn path_le_text(a: &str, b: &str) -> (r: bool)
    ensures
        r == path_le(a@, b@),
{
    let ac = chars_of(a);
    let bc = chars_of(b);
    let mut i: usize = 0;
    assert(ac@.skip(0) =~= ac@);
    assert(bc@.skip(0) =~= bc@);
    while i < ac.len() && i < bc.len()
        invariant
            i <= ac@.len(),
            i <= bc@.len(),
            ac@ == a@,
            bc@ == b@,
            path_le(a@, b@) == path_le(ac@.skip(i as int), bc@.skip(i as int)),
        decreases ac.len() - i,
    {
        let x = ac[i];
        let y = bc[i];
        let rx: u64 = if x == '/' {
            0
        } else {
            (x as u32) as u64 + 1
        };
        let ry: u64 = if y == '/' {
            0
        } else {
            (y as u32) as u64 + 1
        };
        assert(ac@.skip(i as int)[0] == x);
        assert(bc@.skip(i as int)[0] == y);
        assert(rx == path_rank(x));
        assert(ry == path_rank(y));
        if rx != ry {
            return rx < ry;
        }
        assert(ac@.skip(i as int).drop_first() =~= ac@.skip(i + 1));
        assert(bc@.skip(i as int).drop_first() =~= bc@.skip(i + 1));
        i = i + 1;
    }
    i >= ac.len()
}

/// Logs in ascending path order.
pub open spec fn sorted_by_path(s: Seq<SessionSource>) -> bool {
    forall|i: int, j: int| 0 <= i < j < s.len() ==> path_le((#[trigger] s[i]).path@, (#[trigger] s[j]).path@)
}

fn copy_source(s: &SessionSource) -> (r: SessionSource)
    ensures
        r == *s,
{
    SessionSource { path: s.path.clone(), contents: s.contents.clone() }
}

/// The logs in ascending path order.
pub fn sort_sources(sources: &[SessionSource]) -> (r: Vec<SessionSource>)
    ensures
        sorted_by_path(r@),
        r@.to_multiset() == sources@.to_multiset(),
{
    let mut out: Vec<SessionSource> = Vec::new();
    let mut i: usize = 0;
    assert(sources@.take(0) =~= Seq::<SessionSource>::empty());
    while i < sources.len()
        invariant
            i <= sources@.len(),
            sorted_by_path(out@),
            out@.to_multiset() == sources@.take(i as int).to_multiset(),
        decreases sources.len() - i,
    {
        let x = copy_source(&sources[i]);
        let mut p: usize = 0;
        while p < out.len() && path_le_text(out[p].path.as_str(), x.path.as_str())
            invariant
                p <= out@.len(),
                i < sources@.len(),
                x == sources@[i as int],
                sorted_by_path(out@),
                out@.to_multiset() == sources@.take(i as int).to_multiset(),
                forall|k: int| 0 <= k < p ==> path_le((#[trigger] out@[k]).path@, x.path@),
            decreases out.len() - p,
        {
            p = p + 1;
        }
        let ghost old_out = out@;
        if p < out.len() {
            proof {
                lemma_path_le_total(old_out[p as int].path@, x.path@);
            }
        }
        out.insert(p, x);
        let ghost n = out@;
        assert(n =~= old_out.insert(p as int, x));
        assert forall|a: int, b: int| 0 <= a < b < n.len() implies path_le((#[trigger] n[a]).path@, (#[trigger] n[b]).path@) by {
            if b < p {
                assert(n[a] == old_out[a] && n[b] == old_out[b]);
            } else if b == p {
                assert(n[a] == old_out[a]);
            } else if a > p {
                assert(n[a] == old_out[a - 1] && n[b] == old_out[b - 1]);
            } else {
                assert(n[b] == old_out[b - 1]);
                assert(path_le(x.path@, old_out[p as int].path@));
                if b - 1 > p {
                    assert(path_le(old_out[p as int].path@, old_out[b - 1].path@));
                    lemma_path_le_trans(x.path@, old_out[p as int].path@, old_out[b - 1].path@);
                }
                if a < p {
                    assert(n[a] == old_out[a]);
                    assert(path_le(old_out[a].path@, x.path@));
                    lemma_path_le_trans(old_out[a].path@, x.path@, old_out[b - 1].path@);
                }
            }
        }
        proof {
            let before = sources@.take(i as int);
            assert(sources@.take(i + 1) =~= before.push(sources@[i as int]));
            assert(x == sources@[i as int]);
            vstd::seq_lib::to_multiset_insert(old_out, p as int, x);
            vstd::seq_lib::to_multiset_build(before, x);
        }
        i = i + 1;
    }
    assert(sources@.take(sources@.len() as int) =~= sources@);
    out
}

proof fn lemma_rows_from_sources(srcs: Seq<SessionSource>, options: CollectOptions)
    ensures
        forall|k: int| 0 <= k < collected_rows(srcs, options).len() ==> exists|j: int|
            0 <= j < srcs.len() && (#[trigger] collected_rows(srcs, options)[k]).path == srcs[j].path@
                && (forall|m: int| k < m < collected_rows(srcs, options).len() ==> exists|j2: int|
                j < j2 < srcs.len() && (#[trigger] collected_rows(srcs, options)[m]).path == srcs[j2].path@),
    decreases srcs.len(),
{
    if srcs.len() > 0 {
        let p = srcs.drop_last();
        lemma_rows_from_sources(p, options);
        let prev = collected_rows(p, options);
        let cur = collected_rows(srcs, options);
        let last = srcs.len() - 1;
        assert forall|k: int| 0 <= k < cur.len() implies exists|j: int|
            0 <= j < srcs.len() && (#[trigger] cur[k]).path == srcs[j].path@ && (forall|m: int|
                k < m < cur.len() ==> exists|j2: int| j < j2 < srcs.len() && (#[trigger] cur[m]).path
                    == srcs[j2].path@) by {
            if k < prev.len() {
                let j = choose|j: int|
                    0 <= j < p.len() && prev[k].path == p[j].path@ && (forall|m: int|
                        k < m < prev.len() ==> exists|j2: int| j < j2 < p.len() && (#[trigger] prev[m]).path
                            == p[j2].path@);
                assert(cur[k] == prev[k]);
                assert(srcs[j] == p[j]);
                assert forall|m: int| k < m < cur.len() implies exists|j2: int|
                    j < j2 < srcs.len() && (#[trigger] cur[m]).path == srcs[j2].path@ by {
                    if m < prev.len() {
                        let j2 = choose|j2: int| j < j2 < p.len() && (#[trigger] prev[m]).path == p[j2].path@;
                        assert(cur[m] == prev[m]);
                        assert(srcs[j2] == p[j2]);
                    } else {
                        assert(cur[m].path == srcs[last].path@);
                    }
                }
            } else {
                assert(cur[k].path == srcs[last].path@);
            }
        }
    }
}

/// Rows in ascending path order.
pub open spec fn rows_in_path_order(rows: Seq<SessionRowView>) -> bool {
    forall|a: int, b: int| 0 <= a < b < rows.len() ==> path_le((#[trigger] rows[a]).path, (#[trigger] rows[b]).path)
}

/// Logs in ascending path order give rows in ascending path order.
pub proof fn lemma_rows_ascend_by_path(srcs: Seq<SessionSource>, options: CollectOptions)
    requires
        sorted_by_path(srcs),
    ensures
        rows_in_path_order(collected_rows(srcs, options)),
{
    lemma_rows_from_sources(srcs, options);
    let rows = collected_rows(srcs, options);
    assert forall|a: int, b: int| 0 <= a < b < rows.len() implies path_le((#[trigger] rows[a]).path, (#[trigger] rows[b]).path) by {
        let j = choose|j: int|
            0 <= j < srcs.len() && rows[a].path == srcs[j].path@ && (forall|m: int|
                a < m < rows.len() ==> exists|j2: int| j < j2 < srcs.len() && (#[trigger] rows[m]).path
                    == srcs[j2].path@);
        let j2 = choose|j2: int| j < j2 < srcs.len() && (#[trigger] rows[b]).path == srcs[j2].path@;
        assert(path_le(srcs[j].path@, srcs[j2].path@));
    }
}

} // verus!

