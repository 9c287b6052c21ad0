//! The stand-alone selector and recorder: their command lines, the selector's in-memory search
//! by scope, and the recorder command it runs.

use vstd::prelude::*;

use crate::application::flag_if;
use crate::cli::{ErrorView, arg_views, expand_home, expanded, join_path, path_join, CliError};
use crate::json::str_or_empty;
use crate::listing::string_views;
use crate::session::{
    SessionRow, SessionRowView, copy_row, date_of, query_term_list, query_terms, session_date,
};
use crate::text::{
    chars_of, contains_chars, contains_seq, decimal, decimal_text, join, join_strings, lowercase,
    opt_view, text_is,
    to_lowercase, views,
};

verus! {

/// The field of a session that the stand-alone selector searches.
#[derive(Debug, Clone, Copy, PartialEq, Eq, Structural)]
pub enum LegacyScope {
    All,
    FirstMessage,
    Cwd,
    Branch,
    Repository,
    Date,
}

/// The scope after `s` in the cycle all, message, cwd, branch, repo, date.
pub open spec fn legacy_next(s: LegacyScope) -> LegacyScope {
    match s {
        LegacyScope::All => LegacyScope::FirstMessage,
        LegacyScope::FirstMessage => LegacyScope::Cwd,
        LegacyScope::Cwd => LegacyScope::Branch,
        LegacyScope::Branch => LegacyScope::Repository,
        LegacyScope::Repository => LegacyScope::Date,
        LegacyScope::Date => LegacyScope::All,
    }
}

/// The name of a scope.
pub open spec fn legacy_label(s: LegacyScope) -> Seq<char> {
    match s {
        LegacyScope::All => "all"@,
        LegacyScope::FirstMessage => "message"@,
        LegacyScope::Cwd => "cwd"@,
        LegacyScope::Branch => "branch"@,
        LegacyScope::Repository => "repo"@,
        LegacyScope::Date => "date"@,
    }
}

/// The text of a row that a scope searches: for `All` the message, cwd, repository, branch,
/// timestamp and date, one per line.
pub open spec fn scope_text(s: LegacyScope, row: SessionRowView) -> Seq<char> {
    match s {
        LegacyScope::All => join(
            seq![
                row.first_message,
                str_or_empty(row.cwd),
                str_or_empty(row.repository_url),
                str_or_empty(row.branch),
                str_or_empty(row.timestamp),
                date_of(row),
            ],
            "\n"@,
        ),
        LegacyScope::FirstMessage => row.first_message,
        LegacyScope::Cwd => str_or_empty(row.cwd),
        LegacyScope::Branch => str_or_empty(row.branch),
        LegacyScope::Repository => str_or_empty(row.repository_url),
        LegacyScope::Date => date_of(row),
    }
}

/// An optional text, or nothing.
fn or_empty(o: &Option<String>) -> (r: String)
    ensures
        r@ == str_or_empty(opt_view(*o)),
{
    match o {
        Some(s) => s.clone(),
        None => String::new(),
    }
}

impl LegacyScope {
    /// The next scope in the cycle.
    pub fn next(self) -> (r: LegacyScope)
        ensures
            r == legacy_next(self),
    {
        match self {
            LegacyScope::All => LegacyScope::FirstMessage,
            LegacyScope::FirstMessage => LegacyScope::Cwd,
            LegacyScope::Cwd => LegacyScope::Branch,
            LegacyScope::Branch => LegacyScope::Repository,
            LegacyScope::Repository => LegacyScope::Date,
            LegacyScope::Date => LegacyScope::All,
        }
    }

    /// The name of the scope.
    pub fn label(self) -> (r: &'static str)
        ensures
            r@ == legacy_label(self),
    {
        match self {
            LegacyScope::All => "all",
            LegacyScope::FirstMessage => "message",
            LegacyScope::Cwd => "cwd",
            LegacyScope::Branch => "branch",
            LegacyScope::Repository => "repo",
            LegacyScope::Date => "date",
        }
    }

    /// The text of `row` that this scope searches.
    pub fn text(self, row: &SessionRow) -> (r: String)
        ensures
            r@ == scope_text(self, row@),
    {
        match self {
            LegacyScope::All => {
                let mut parts: Vec<String> = Vec::new();
                parts.push(row.first_message.clone());
                parts.push(or_empty(&row.cwd));
                parts.push(or_empty(&row.repository_url));
                parts.push(or_empty(&row.branch));
                parts.push(or_empty(&row.timestamp));
                parts.push(session_date(row));
                assert(parts@.map_values(|p: String| p@) =~= seq![
                    row@.first_message,
                    str_or_empty(row@.cwd),
                    str_or_empty(row@.repository_url),
                    str_or_empty(row@.branch),
                    str_or_empty(row@.timestamp),
                    date_of(row@),
                ]);
                join_strings(&parts, "\n")
            },
            LegacyScope::FirstMessage => row.first_message.clone(),
            LegacyScope::Cwd => or_empty(&row.cwd),
            LegacyScope::Branch => or_empty(&row.branch),
            LegacyScope::Repository => or_empty(&row.repository_url),
            LegacyScope::Date => session_date(row),
        }
    }
}

/// The scope reached from `s` by `n` steps of [`legacy_next`].
pub open spec fn legacy_next_n(s: LegacyScope, n: nat) -> LegacyScope
    decreases n,
{
    if n == 0 {
        s
    } else {
        legacy_next(legacy_next_n(s, (n - 1) as nat))
    }
}

/// Cycling the stand-alone selector's scope comes back after six steps and not before.
pub proof fn lemma_legacy_scope_cycle(s: LegacyScope)
    ensures
        legacy_next_n(s, 6) == s,
        forall|k: nat| 0 < k < 6 ==> legacy_next_n(s, k) != s,
{
    reveal_with_fuel(legacy_next_n, 7);
    assert forall|k: nat| 0 < k < 6 implies legacy_next_n(s, k) != s by {
        if k == 1 {
        } else if k == 2 {
        } else if k == 3 {
        } else if k == 4 {
        } else {
            assert(k == 5);
        }
    }
}

/// Every term occurs in the lower-cased text that the scope searches.
pub open spec fn scope_row_matches(row: SessionRowView, terms: Seq<Seq<char>>, scope: LegacyScope) -> bool {
    forall|k: int| 0 <= k < terms.len() ==> contains_seq(lowercase(scope_text(scope, row)), #[trigger] terms[k])
}

/// The rows, in order, whose scoped text matches every term.
pub open spec fn scope_matching_rows(rows: Seq<SessionRow>, terms: Seq<Seq<char>>, scope: LegacyScope) -> Seq<SessionRow>
    decreases rows.len(),
{
    if rows.len() == 0 {
        Seq::empty()
    } else {
        let prev = scope_matching_rows(rows.drop_last(), terms, scope);
        if scope_row_matches(rows.last()@, terms, scope) {
            prev.push(rows.last())
        } else {
            prev
        }
    }
}

/// The rows whose text in the scope holds every lower-cased word of the query, compared in
/// lower case; all rows for a query without words.
pub fn filter_sessions_by_scope(rows: &[SessionRow], query: &str, scope: LegacyScope) -> (r: Vec<SessionRow>)
    ensures
        r@ == scope_matching_rows(rows@, query_terms(query@), scope),
{
    let terms = query_term_list(query);
    let ghost tv = views(terms@);
    let mut out: Vec<SessionRow> = Vec::new();
    let mut i: usize = 0;
    while i < rows.len()
        invariant
            i <= rows@.len(),
            tv == views(terms@),
            tv == query_terms(query@),
            out@ == scope_matching_rows(rows@.take(i as int), tv, scope),
        decreases rows.len() - i,
    {
        assert(rows@.take(i + 1).drop_last() =~= rows@.take(i as int));
        assert(rows@.take(i + 1).last() == rows@[i as int]);
        let text = scope.text(&rows[i]);
        let hay = chars_of(to_lowercase(text.as_str()).as_str());
        let mut all = true;
        let mut k: usize = 0;
        while k < terms.len()
            invariant
                k <= terms@.len(),
                i < rows@.len(),
                tv == views(terms@),
                hay@ == lowercase(scope_text(scope, rows@[i as int]@)),
                all <==> (forall|m: int| 0 <= m < k ==> contains_seq(hay@, #[trigger] tv[m])),
            decreases terms.len() - k,
        {
            assert(terms@[k as int]@ == tv[k as int]);
            if !contains_chars(&hay, &terms[k]) {
                all = false;
            }
            k = k + 1;
        }
        if all {
            out.push(copy_row(&rows[i]));
        }
        i = i + 1;
    }
    assert(rows@.take(rows@.len() as int) =~= rows@);
    out
}

/// The arguments of the recorder run during a refresh: the database, and `--include-exec`
/// where asked for.
pub open spec fn recorder_args(db: Seq<char>, include_exec: bool) -> Seq<Seq<char>> {
    seq!["--output"@, db] + flag_if(include_exec, "--include-exec"@)
}

/// The arguments of the recorder run during a refresh (see [`recorder_args`]).
pub fn record_command_args(db: &str, include_exec: bool) -> (r: Vec<String>)
    ensures
        string_views(r@) == recorder_args(db@, include_exec),
{
    let mut args: Vec<String> = Vec::new();
    args.push(String::from_str("--output"));
    args.push(String::from_str(db));
    let ghost a0 = string_views(args@);
    assert(a0 =~= seq!["--output"@, db@]);
    if include_exec {
        args.push(String::from_str("--include-exec"));
    }
    assert(string_views(args@) =~= a0 + flag_if(include_exec, "--include-exec"@));
    args
}

/// The stand-alone selector's options.
#[derive(Debug, Clone, PartialEq, Eq)]
pub struct SelectorArgs {
    pub db: String,
    pub replay_command: String,
    pub record_command: String,
    pub refresh: bool,
    pub print_path: bool,
    pub include_exec: bool,
}

/// What the stand-alone selector's command line asks for.
#[derive(Debug, Clone, PartialEq, Eq)]
pub enum SelectorArgsAction {
    Run(SelectorArgs),
    Help,
    Version,
}

/// The stand-alone recorder's options.
#[derive(Debug, Clone, PartialEq, Eq)]
pub struct RecorderArgs {
    pub output: String,
    pub sessions_root: String,
    pub include_subsessions: bool,
    pub include_empty_messages: bool,
    pub include_exec: bool,
}

/// What the stand-alone recorder's command line asks for.
#[derive(Debug, Clone, PartialEq, Eq)]
pub enum RecorderArgsAction {
    Run(RecorderArgs),
    Help,
    Version,
}

/// The stand-alone selector's options as mathematical values.
pub struct SelectorArgsView {
    pub db: Seq<char>,
    pub replay_command: Seq<char>,
    pub record_command: Seq<char>,
    pub refresh: bool,
    pub print_path: bool,
    pub include_exec: bool,
}

/// The stand-alone recorder's options as mathematical values.
pub struct RecorderArgsView {
    pub output: Seq<char>,
    pub sessions_root: Seq<char>,
    pub include_subsessions: bool,
    pub include_empty_messages: bool,
    pub include_exec: bool,
}

/// What a stand-alone command line asks for, as a mathematical value.
pub enum ArgsActionView<T> {
    Run(T),
    Help,
    Version,
}

impl View for SelectorArgs {
    type V = SelectorArgsView;

    open spec fn view(&self) -> SelectorArgsView {
        SelectorArgsView {
            db: self.db@,
            replay_command: self.replay_command@,
            record_command: self.record_command@,
            refresh: self.refresh,
            print_path: self.print_path,
            include_exec: self.include_exec,
        }
    }
}

impl View for RecorderArgs {
    type V = RecorderArgsView;

    open spec fn view(&self) -> RecorderArgsView {
        RecorderArgsView {
            output: self.output@,
            sessions_root: self.sessions_root@,
            include_subsessions: self.include_subsessions,
            include_empty_messages: self.include_empty_messages,
            include_exec: self.include_exec,
        }
    }
}

/// The view of a stand-alone selector parse result.
pub open spec fn selector_result_view(r: Result<SelectorArgsAction, CliError>) -> Result<
    ArgsActionView<SelectorArgsView>,
    ErrorView,
> {
    match r {
        Ok(SelectorArgsAction::Run(a)) => Ok(ArgsActionView::Run(a@)),
        Ok(SelectorArgsAction::Help) => Ok(ArgsActionView::Help),
        Ok(SelectorArgsAction::Version) => Ok(ArgsActionView::Version),
        Err(e) => Err(e@),
    }
}

/// The view of a stand-alone recorder parse result.
pub open spec fn recorder_result_view(r: Result<RecorderArgsAction, CliError>) -> Result<
    ArgsActionView<RecorderArgsView>,
    ErrorView,
> {
    match r {
        Ok(RecorderArgsAction::Run(a)) => Ok(ArgsActionView::Run(a@)),
        Ok(RecorderArgsAction::Help) => Ok(ArgsActionView::Help),
        Ok(RecorderArgsAction::Version) => Ok(ArgsActionView::Version),
        Err(e) => Err(e@),
    }
}

/// The stand-alone selector's options read from argument `i` on.
pub open spec fn selector_args_from(
    args: Seq<Seq<char>>,
    i: int,
    home: Option<Seq<char>>,
    o: SelectorArgsView,
) -> Result<ArgsActionView<SelectorArgsView>, ErrorView>
    decreases args.len() - i,
{
    if i < 0 || i >= args.len() {
        Ok(ArgsActionView::Run(o))
    } else {
        let a = args[i];
        if a == "--db"@ {
            if i + 1 >= args.len() {
                Err(ErrorView::MissingValue(a, "path"@))
            } else {
                match expanded(args[i + 1], home) {
                    Ok(p) => selector_args_from(args, i + 2, home, SelectorArgsView { db: p, ..o }),
                    Err(e) => Err(e),
                }
            }
        } else if a == "--replay-command"@ {
            if i + 1 >= args.len() {
                Err(ErrorView::MissingValue(a, "command"@))
            } else {
                selector_args_from(args, i + 2, home, SelectorArgsView { replay_command: args[i + 1], ..o })
            }
        } else if a == "--record-command"@ {
            if i + 1 >= args.len() {
                Err(ErrorView::MissingValue(a, "command"@))
            } else {
                selector_args_from(args, i + 2, home, SelectorArgsView { record_command: args[i + 1], ..o })
            }
        } else if a == "--no-refresh"@ {
            selector_args_from(args, i + 1, home, SelectorArgsView { refresh: false, ..o })
        } else if a == "--print-path"@ {
            selector_args_from(args, i + 1, home, SelectorArgsView { print_path: true, ..o })
        } else if a == "--include-exec"@ {
            selector_args_from(args, i + 1, home, SelectorArgsView { include_exec: true, ..o })
        } else if a == "-h"@ || a == "--help"@ {
            Ok(ArgsActionView::Help)
        } else if a == "-V"@ || a == "--version"@ {
            Ok(ArgsActionView::Version)
        } else {
            Err(ErrorView::UnknownArgument(a))
        }
    }
}

/// The stand-alone selector's command line: the home directory must be known; the database
/// defaults to `codex-session-info.sqlite3` there, the replay command to `codex-replay-tui`,
/// and the recorder to `default_record_command`.
pub open spec fn selector_args(args: Seq<Seq<char>>, home: Option<Seq<char>>, default_record_command: Seq<char>) -> Result<
    ArgsActionView<SelectorArgsView>,
    ErrorView,
> {
    match home {
        None => Err(ErrorView::HomeNotSet),
        Some(h) => selector_args_from(
            args,
            0,
            home,
            SelectorArgsView {
                db: path_join(h, "codex-session-info.sqlite3"@),
                replay_command: "codex-replay-tui"@,
                record_command: default_record_command,
                refresh: true,
                print_path: false,
                include_exec: false,
            },
        ),
    }
}

/// The value after the option at `i`, or the error for the option that lacks it.
fn value_after(args: &[String], i: usize, noun: &str) -> (r: Result<String, CliError>)
    requires
        i < args@.len(),
    ensures
        match r {
            Ok(v) => i + 1 < args@.len() && v@ == args@[i + 1]@,
            Err(e) => i + 1 >= args@.len() && e@ == ErrorView::MissingValue(args@[i as int]@, noun@),
        },
{
    if args.len() - i > 1 {
        Ok(args[i + 1].clone())
    } else {
        Err(CliError::MissingValue(args[i].clone(), String::from_str(noun)))
    }
}

/// Reads the stand-alone selector's command line (see [`selector_args`]).
pub fn parse_selector_args(args: &[String], home: &Option<String>, default_record_command: &str) -> (r: Result<
    SelectorArgsAction,
    CliError,
>)
    ensures
        selector_result_view(r) == selector_args(arg_views(args@), opt_view(*home), default_record_command@),
{
    let ghost av = arg_views(args@);
    let ghost hv = opt_view(*home);
    let db = match home {
        Some(h) => join_path(h.as_str(), "codex-session-info.sqlite3"),
        None => return Err(CliError::HomeNotSet),
    };
    let mut parsed = SelectorArgs {
        db,
        replay_command: String::from_str("codex-replay-tui"),
        record_command: String::from_str(default_record_command),
        refresh: true,
        print_path: false,
        include_exec: false,
    };
    let ghost d = parsed@;
    assert(selector_args(av, hv, default_record_command@) == selector_args_from(av, 0, hv, d));
    let mut i: usize = 0;
    while i < args.len()
        invariant
            i <= args@.len(),
            av == arg_views(args@),
            hv == opt_view(*home),
            selector_args(av, hv, default_record_command@) == selector_args_from(av, 0, hv, d),
            selector_args_from(av, 0, hv, d) == selector_args_from(av, i as int, hv, parsed@),
        decreases args.len() - i,
    {
        let a = &args[i];
        assert(av[i as int] == a@);
        if text_is(a, "--db") {
            let v = match value_after(args, i, "path") {
                Ok(v) => v,
                Err(e) => return Err(e),
            };
            assert(av[i + 1] == v@);
            parsed.db = match expand_home(v.as_str(), home) {
                Ok(p) => p,
                Err(e) => return Err(e),
            };
            i = i + 2;
        } else if text_is(a, "--replay-command") {
            parsed.replay_command = match value_after(args, i, "command") {
                Ok(v) => v,
                Err(e) => return Err(e),
            };
            i = i + 2;
        } else if text_is(a, "--record-command") {
            parsed.record_command = match value_after(args, i, "command") {
                Ok(v) => v,
                Err(e) => return Err(e),
            };
            i = i + 2;
        } else if text_is(a, "--no-refresh") {
            parsed.refresh = false;
            i = i + 1;
        } else if text_is(a, "--print-path") {
            parsed.print_path = true;
            i = i + 1;
        } else if text_is(a, "--include-exec") {
            parsed.include_exec = true;
            i = i + 1;
        } else if text_is(a, "-h") || text_is(a, "--help") {
            return Ok(SelectorArgsAction::Help);
        } else if text_is(a, "-V") || text_is(a, "--version") {
            return Ok(SelectorArgsAction::Version);
        } else {
            return Err(CliError::UnknownArgument(a.clone()));
        }
    }
    Ok(SelectorArgsAction::Run(parsed))
}

/// The stand-alone recorder's options read from argument `i` on.
pub open spec fn recorder_args_from(
    args: Seq<Seq<char>>,
    i: int,
    home: Option<Seq<char>>,
    o: RecorderArgsView,
) -> Result<ArgsActionView<RecorderArgsView>, ErrorView>
    decreases args.len() - i,
{
    if i < 0 || i >= args.len() {
        Ok(ArgsActionView::Run(o))
    } else {
        let a = args[i];
        if a == "-o"@ || a == "--output"@ {
            if i + 1 >= args.len() {
                Err(ErrorView::MissingValue(a, "path"@))
            } else {
                match expanded(args[i + 1], home) {
                    Ok(p) => recorder_args_from(args, i + 2, home, RecorderArgsView { output: p, ..o }),
                    Err(e) => Err(e),
                }
            }
        } else if a == "--sessions-root"@ {
            if i + 1 >= args.len() {
                Err(ErrorView::MissingValue(a, "path"@))
            } else {
                match expanded(args[i + 1], home) {
                    Ok(p) => recorder_args_from(args, i + 2, home, RecorderArgsView { sessions_root: p, ..o }),
                    Err(e) => Err(e),
                }
            }
        } else if a == "--include-subsessions"@ {
            recorder_args_from(args, i + 1, home, RecorderArgsView { include_subsessions: true, ..o })
        } else if a == "--include-empty-messages"@ {
            recorder_args_from(args, i + 1, home, RecorderArgsView { include_empty_messages: true, ..o })
        } else if a == "--include-exec"@ {
            recorder_args_from(args, i + 1, home, RecorderArgsView { include_exec: true, ..o })
        } else if a == "-h"@ || a == "--help"@ {
            Ok(ArgsActionView::Help)
        } else if a == "-V"@ || a == "--version"@ {
            Ok(ArgsActionView::Version)
        } else {
            Err(ErrorView::UnknownArgument(a))
        }
    }
}

/// The stand-alone selector's flags: a flag that is read sets its option (`--no-refresh`
/// switches refreshing off, the others switch their options on), and nothing read after it
/// sets the option back.
pub proof fn lemma_selector_args_flags(args: Seq<Seq<char>>, i: int, home: Option<Seq<char>>, o: SelectorArgsView)
    ensures
        selector_args_from(args, i, home, o) matches Ok(ArgsActionView::Run(r)) ==> {
            &&& !o.refresh ==> !r.refresh
            &&& o.print_path ==> r.print_path
            &&& o.include_exec ==> r.include_exec
            &&& (0 <= i < args.len() && args[i] == "--no-refresh"@) ==> !r.refresh
            &&& (0 <= i < args.len() && args[i] == "--print-path"@) ==> r.print_path
            &&& (0 <= i < args.len() && args[i] == "--include-exec"@) ==> r.include_exec
        },
    decreases args.len() - i,
{
    crate::cli::lemma_option_words();
    if 0 <= i < args.len() {
        let a = args[i];
        if a == "--db"@ {
            if i + 1 < args.len() {
                match expanded(args[i + 1], home) {
                    Ok(p) => lemma_selector_args_flags(args, i + 2, home, SelectorArgsView { db: p, ..o }),
                    Err(_) => {},
                }
            }
        } else if a == "--replay-command"@ {
            if i + 1 < args.len() {
                lemma_selector_args_flags(args, i + 2, home, SelectorArgsView { replay_command: args[i + 1], ..o });
            }
        } else if a == "--record-command"@ {
            if i + 1 < args.len() {
                lemma_selector_args_flags(args, i + 2, home, SelectorArgsView { record_command: args[i + 1], ..o });
            }
        } else if a == "--no-refresh"@ {
            lemma_selector_args_flags(args, i + 1, home, SelectorArgsView { refresh: false, ..o });
        } else if a == "--print-path"@ {
            lemma_selector_args_flags(args, i + 1, home, SelectorArgsView { print_path: true, ..o });
        } else if a == "--include-exec"@ {
            lemma_selector_args_flags(args, i + 1, home, SelectorArgsView { include_exec: true, ..o });
        }
    }
}

/// A stand-alone recorder argument that takes the next argument as its value.
pub open spec fn recorder_takes_value(a: Seq<char>) -> bool {
    a == "-o"@ || a == "--output"@ || a == "--sessions-root"@
}

/// The stand-alone recorder's flags: a flag that is read switches its option on, and nothing
/// read after it switches the option off again.
pub proof fn lemma_recorder_flags(args: Seq<Seq<char>>, i: int, home: Option<Seq<char>>, o: RecorderArgsView)
    ensures
        recorder_args_from(args, i, home, o) matches Ok(ArgsActionView::Run(r)) ==> {
            &&& o.include_subsessions ==> r.include_subsessions
            &&& o.include_empty_messages ==> r.include_empty_messages
            &&& o.include_exec ==> r.include_exec
            &&& (0 <= i < args.len() && args[i] == "--include-subsessions"@) ==> r.include_subsessions
            &&& (0 <= i < args.len() && args[i] == "--include-empty-messages"@) ==> r.include_empty_messages
            &&& (0 <= i < args.len() && args[i] == "--include-exec"@) ==> r.include_exec
        },
    decreases args.len() - i,
{
    crate::cli::lemma_option_words();
    if 0 <= i < args.len() {
        let a = args[i];
        if a == "-o"@ || a == "--output"@ {
            if i + 1 < args.len() {
                match expanded(args[i + 1], home) {
                    Ok(p) => lemma_recorder_flags(args, i + 2, home, RecorderArgsView { output: p, ..o }),
                    Err(_) => {},
                }
            }
        } else if a == "--sessions-root"@ {
            if i + 1 < args.len() {
                match expanded(args[i + 1], home) {
                    Ok(p) => lemma_recorder_flags(args, i + 2, home, RecorderArgsView { sessions_root: p, ..o }),
                    Err(_) => {},
                }
            }
        } else if a == "--include-subsessions"@ {
            let o2 = RecorderArgsView { include_subsessions: true, ..o };
            assert(recorder_args_from(args, i, home, o) == recorder_args_from(args, i + 1, home, o2));
            lemma_recorder_flags(args, i + 1, home, o2);
        } else if a == "--include-empty-messages"@ {
            let o2 = RecorderArgsView { include_empty_messages: true, ..o };
            assert(recorder_args_from(args, i, home, o) == recorder_args_from(args, i + 1, home, o2));
            lemma_recorder_flags(args, i + 1, home, o2);
        } else if a == "--include-exec"@ {
            let o2 = RecorderArgsView { include_exec: true, ..o };
            assert(recorder_args_from(args, i, home, o) == recorder_args_from(args, i + 1, home, o2));
            lemma_recorder_flags(args, i + 1, home, o2);
        }
    }
}

proof fn lemma_recorder_flag_after(args: Seq<Seq<char>>, i: int, j: int, home: Option<Seq<char>>, o: RecorderArgsView)
    requires
        0 <= i <= j < args.len(),
        forall|m: int| 0 <= m < args.len() ==> !recorder_takes_value(#[trigger] args[m]),
    ensures
        recorder_args_from(args, i, home, o) matches Ok(ArgsActionView::Run(r)) ==> {
            &&& args[j] == "--include-subsessions"@ ==> r.include_subsessions
            &&& args[j] == "--include-empty-messages"@ ==> r.include_empty_messages
            &&& args[j] == "--include-exec"@ ==> r.include_exec
        },
    decreases j - i,
{
    crate::cli::lemma_option_words();
    if i == j {
        lemma_recorder_flags(args, i, home, o);
    } else {
        let a = args[i];
        assert(!recorder_takes_value(a));
        if a == "--include-subsessions"@ {
            lemma_recorder_flag_after(args, i + 1, j, home, RecorderArgsView { include_subsessions: true, ..o });
        } else if a == "--include-empty-messages"@ {
            lemma_recorder_flag_after(args, i + 1, j, home, RecorderArgsView { include_empty_messages: true, ..o });
        } else if a == "--include-exec"@ {
            lemma_recorder_flag_after(args, i + 1, j, home, RecorderArgsView { include_exec: true, ..o });
        }
    }
}

/// Where no argument of the stand-alone recorder's command line takes a value, a command line
/// that runs and holds `--include-subsessions`, `--include-empty-messages` or `--include-exec`
/// anywhere has that option on.
pub proof fn lemma_recorder_flag_anywhere(args: Seq<Seq<char>>, home: Option<Seq<char>>, j: int)
    requires
        0 <= j < args.len(),
        forall|m: int| 0 <= m < args.len() ==> !recorder_takes_value(#[trigger] args[m]),
    ensures
        recorder_command_line(args, home) matches Ok(ArgsActionView::Run(r)) ==> {
            &&& args[j] == "--include-subsessions"@ ==> r.include_subsessions
            &&& args[j] == "--include-empty-messages"@ ==> r.include_empty_messages
            &&& args[j] == "--include-exec"@ ==> r.include_exec
        },
{
    match home {
        Some(h) => lemma_recorder_flag_after(
            args,
            0,
            j,
            home,
            RecorderArgsView {
                output: path_join(h, "codex-session-info.sqlite3"@),
                sessions_root: path_join(path_join(h, ".codex"@), "sessions"@),
                include_subsessions: false,
                include_empty_messages: false,
                include_exec: false,
            },
        ),
        None => {},
    }
}

/// The stand-alone recorder's command line: the home directory must be known; the output
/// defaults to `codex-session-info.sqlite3` there and the sessions root to `.codex/sessions`.
pub open spec fn recorder_command_line(args: Seq<Seq<char>>, home: Option<Seq<char>>) -> Result<
    ArgsActionView<RecorderArgsView>,
    ErrorView,
> {
    match home {
        None => Err(ErrorView::HomeNotSet),
        Some(h) => recorder_args_from(
            args,
            0,
            home,
            RecorderArgsView {
                output: path_join(h, "codex-session-info.sqlite3"@),
                sessions_root: path_join(path_join(h, ".codex"@), "sessions"@),
                include_subsessions: false,
                include_empty_messages: false,
                include_exec: false,
            },
        ),
    }
}

/// Reads the stand-alone recorder's command line (see [`recorder_command_line`]).
pub fn parse_recorder_args(args: &[String], home: &Option<String>) -> (r: Result<RecorderArgsAction, CliError>)
    ensures
        recorder_result_view(r) == recorder_command_line(arg_views(args@), opt_view(*home)),
{
    let ghost av = arg_views(args@);
    let ghost hv = opt_view(*home);
    let h = match home {
        Some(h) => h,
        None => return Err(CliError::HomeNotSet),
    };
    let codex = join_path(h.as_str(), ".codex");
    let mut parsed = RecorderArgs {
        output: join_path(h.as_str(), "codex-session-info.sqlite3"),
        sessions_root: join_path(codex.as_str(), "sessions"),
        include_subsessions: false,
        include_empty_messages: false,
        include_exec: false,
    };
    let ghost d = parsed@;
    assert(recorder_command_line(av, hv) == recorder_args_from(av, 0, hv, d));
    let mut i: usize = 0;
    while i < args.len()
        invariant
            i <= args@.len(),
            av == arg_views(args@),
            hv == opt_view(*home),
            recorder_command_line(av, hv) == recorder_args_from(av, 0, hv, d),
            recorder_args_from(av, 0, hv, d) == recorder_args_from(av, i as int, hv, parsed@),
        decreases args.len() - i,
    {
        let a = &args[i];
        assert(av[i as int] == a@);
        if text_is(a, "-o") || text_is(a, "--output") {
            let v = match value_after(args, i, "path") {
                Ok(v) => v,
                Err(e) => return Err(e),
            };
            assert(av[i + 1] == v@);
            parsed.output = match expand_home(v.as_str(), home) {
                Ok(p) => p,
                Err(e) => return Err(e),
            };
            i = i + 2;
        } else if text_is(a, "--sessions-root") {
            let v = match value_after(args, i, "path") {
                Ok(v) => v,
                Err(e) => return Err(e),
            };
            assert(av[i + 1] == v@);
            parsed.sessions_root = match expand_home(v.as_str(), home) {
                Ok(p) => p,
                Err(e) => return Err(e),
            };
            i = i + 2;
        } else if text_is(a, "--include-subsessions") {
            parsed.include_subsessions = true;
            i = i + 1;
        } else if text_is(a, "--include-empty-messages") {
            parsed.include_empty_messages = true;
            i = i + 1;
        } else if text_is(a, "--include-exec") {
            parsed.include_exec = true;
            i = i + 1;
        } else if text_is(a, "-h") || text_is(a, "--help") {
            return Ok(RecorderArgsAction::Help);
        } else if text_is(a, "-V") || text_is(a, "--version") {
            return Ok(RecorderArgsAction::Version);
        } else {
            return Err(CliError::UnknownArgument(a.clone()));
        }
    }
    Ok(RecorderArgsAction::Run(parsed))
}


/// What the stand-alone recorder reports after writing its database.
pub open spec fn recorder_report_text(
    rows: nat,
    execs: nat,
    output: Seq<char>,
    total: nat,
    skipped: nat,
    include_exec: bool,
) -> Seq<char> {
    if include_exec {
        "wrote "@ + decimal(rows) + " session rows and "@ + decimal(execs) + " exec rows to "@ + output
            + " from "@ + decimal(total) + " jsonl files; skipped "@ + decimal(skipped)
            + " filtered or invalid sessions"@
    } else {
        "wrote "@ + decimal(rows) + " session rows to "@ + output + " from "@ + decimal(total)
            + " jsonl files; skipped "@ + decimal(skipped)
            + " filtered or invalid sessions; exec indexing disabled"@
    }
}

/// What the stand-alone recorder reports (see [`recorder_report_text`]).
pub fn recorder_report(
    rows: usize,
    execs: usize,
    output: &str,
    total: usize,
    skipped: usize,
    include_exec: bool,
) -> (r: String)
    ensures
        r@ == recorder_report_text(rows as nat, execs as nat, output@, total as nat, skipped as nat, include_exec),
{
    let mut m = String::from_str("wrote ");
    m.append(decimal_text(rows as u64).as_str());
    if include_exec {
        m.append(" session rows and ");
        m.append(decimal_text(execs as u64).as_str());
        m.append(" exec rows to ");
    } else {
        m.append(" session rows to ");
    }
    m.append(output);
    m.append(" from ");
    m.append(decimal_text(total as u64).as_str());
    m.append(" jsonl files; skipped ");
    m.append(decimal_text(skipped as u64).as_str());
    if include_exec {
        m.append(" filtered or invalid sessions");
    } else {
        m.append(" filtered or invalid sessions; exec indexing disabled");
    }
    m
}


/// Searching the stand-alone selector's `All` scope finds exactly what the canonical in-memory
/// search finds: the same rows, in the same order.
pub proof fn lemma_all_scope_is_full_search(rows: Seq<SessionRow>, terms: Seq<Seq<char>>)
    ensures
        scope_matching_rows(rows, terms, LegacyScope::All) == crate::session::matching_rows(rows, terms),
    decreases rows.len(),
{
    if rows.len() > 0 {
        lemma_all_scope_is_full_search(rows.drop_last(), terms);
        assert(lowercase(scope_text(LegacyScope::All, rows.last()@)) == crate::session::searchable(rows.last()@));
    }
}

} // verus!

