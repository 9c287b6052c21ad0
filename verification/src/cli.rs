//! The command line: the selector, `index` and `replay` commands and their options.

use vstd::prelude::*;

use crate::text::{chars_of, opt_view, string_of, text_is};

verus! {

/// What the command line asks for.
#[derive(Debug, Clone, PartialEq, Eq)]
pub enum CliAction {
    Run(Command),
    PrintHelp(HelpTopic),
    PrintVersion,
}

/// Which help text to print.
#[derive(Debug, Clone, Copy, PartialEq, Eq, Structural)]
pub enum HelpTopic {
    Root,
    Index,
    Replay,
}

/// A command to run.
#[derive(Debug, Clone, PartialEq, Eq)]
pub enum Command {
    Select(SelectOptions),
    Index(IndexOptions),
    Replay(ReplayOptions),
}

/// Options of the session selector.
#[derive(Debug, Clone, PartialEq, Eq)]
pub struct SelectOptions {
    pub db: String,
    pub refresh: bool,
    pub print_path: bool,
    pub include_exec: bool,
    pub include_subsessions: bool,
    pub include_empty_messages: bool,
    pub record_command: Option<String>,
    pub replay_command: Option<String>,
}

/// Options of the `index` command.
#[derive(Debug, Clone, PartialEq, Eq)]
pub struct IndexOptions {
    pub output: String,
    pub sessions_root: String,
    pub rebuild: bool,
    pub include_subsessions: bool,
    pub include_empty_messages: bool,
    pub include_exec: bool,
}

/// Options of the `replay` command.
#[derive(Debug, Clone, PartialEq, Eq)]
pub struct ReplayOptions {
    pub input: Option<String>,
    pub include_exec: bool,
}

/// Why a command line was refused.
#[derive(Debug, Clone, PartialEq, Eq)]
pub enum CliError {
    UnknownArgument(String),
    UnknownIndexArgument(String),
    UnknownReplayArgument(String),
    /// An option that lacks its value, and what the value is.
    MissingValue(String, String),
    MultipleInputs,
    HomeNotSet,
}

/// The selector's options as mathematical values.
pub struct SelectView {
    pub db: Seq<char>,
    pub refresh: bool,
    pub print_path: bool,
    pub include_exec: bool,
    pub include_subsessions: bool,
    pub include_empty_messages: bool,
    pub record_command: Option<Seq<char>>,
    pub replay_command: Option<Seq<char>>,
}

/// The `index` options as mathematical values.
pub struct IndexView {
    pub output: Seq<char>,
    pub sessions_root: Seq<char>,
    pub rebuild: bool,
    pub include_subsessions: bool,
    pub include_empty_messages: bool,
    pub include_exec: bool,
}

/// The `replay` options as mathematical values.
pub struct ReplayView {
    pub input: Option<Seq<char>>,
    pub include_exec: bool,
}

/// A command as a mathematical value.
pub enum CommandView {
    Select(SelectView),
    Index(IndexView),
    Replay(ReplayView),
}

/// A command-line action as a mathematical value.
pub enum ActionView {
    Run(CommandView),
    PrintHelp(HelpTopic),
    PrintVersion,
}

/// A command-line error as a mathematical value.
pub enum ErrorView {
    UnknownArgument(Seq<char>),
    UnknownIndexArgument(Seq<char>),
    UnknownReplayArgument(Seq<char>),
    MissingValue(Seq<char>, Seq<char>),
    MultipleInputs,
    HomeNotSet,
}

impl View for SelectOptions {
    type V = SelectView;

    open spec fn view(&self) -> SelectView {
        SelectView {
            db: self.db@,
            refresh: self.refresh,
            print_path: self.print_path,
            include_exec: self.include_exec,
            include_subsessions: self.include_subsessions,
            include_empty_messages: self.include_empty_messages,
            record_command: opt_view(self.record_command),
            replay_command: opt_view(self.replay_command),
        }
    }
}

impl View for IndexOptions {
    type V = IndexView;

    open spec fn view(&self) -> IndexView {
        IndexView {
            output: self.output@,
            sessions_root: self.sessions_root@,
            rebuild: self.rebuild,
            include_subsessions: self.include_subsessions,
            include_empty_messages: self.include_empty_messages,
            include_exec: self.include_exec,
        }
    }
}

impl View for ReplayOptions {
    type V = ReplayView;

    open spec fn view(&self) -> ReplayView {
        ReplayView { input: opt_view(self.input), include_exec: self.include_exec }
    }
}

impl View for CliAction {
    type V = ActionView;

    open spec fn view(&self) -> ActionView {
        match self {
            CliAction::Run(Command::Select(o)) => ActionView::Run(CommandView::Select(o@)),
            CliAction::Run(Command::Index(o)) => ActionView::Run(CommandView::Index(o@)),
            CliAction::Run(Command::Replay(o)) => ActionView::Run(CommandView::Replay(o@)),
            CliAction::PrintHelp(t) => ActionView::PrintHelp(*t),
            CliAction::PrintVersion => ActionView::PrintVersion,
        }
    }
}

impl View for CliError {
    type V = ErrorView;

    open spec fn view(&self) -> ErrorView {
        match self {
            CliError::UnknownArgument(a) => ErrorView::UnknownArgument(a@),
            CliError::UnknownIndexArgument(a) => ErrorView::UnknownIndexArgument(a@),
            CliError::UnknownReplayArgument(a) => ErrorView::UnknownReplayArgument(a@),
            CliError::MissingValue(o, n) => ErrorView::MissingValue(o@, n@),
            CliError::MultipleInputs => ErrorView::MultipleInputs,
            CliError::HomeNotSet => ErrorView::HomeNotSet,
        }
    }
}

/// The message of a command-line error.
pub open spec fn error_text(e: ErrorView) -> Seq<char> {
    match e {
        ErrorView::UnknownArgument(a) => "unknown argument: "@ + a,
        ErrorView::UnknownIndexArgument(a) => "unknown index argument: "@ + a,
        ErrorView::UnknownReplayArgument(a) => "unknown replay argument: "@ + a,
        ErrorView::MissingValue(o, n) => o + " requires a "@ + n,
        ErrorView::MultipleInputs => "only one input path may be provided"@,
        ErrorView::HomeNotSet => "HOME is not set"@,
    }
}

impl CliError {
    /// The message of this error.
    pub fn message(&self) -> (r: String)
        ensures
            r@ == error_text(self@),
    {
        match self {
            CliError::UnknownArgument(a) => {
                let mut m = String::from_str("unknown argument: ");
                m.append(a.as_str());
                m
            },
            CliError::UnknownIndexArgument(a) => {
                let mut m = String::from_str("unknown index argument: ");
                m.append(a.as_str());
                m
            },
            CliError::UnknownReplayArgument(a) => {
                let mut m = String::from_str("unknown replay argument: ");
                m.append(a.as_str());
                m
            },
            CliError::MissingValue(o, n) => {
                let mut m = o.clone();
                m.append(" requires a ");
                m.append(n.as_str());
                m
            },
            CliError::MultipleInputs => String::from_str("only one input path may be provided"),
            CliError::HomeNotSet => String::from_str("HOME is not set"),
        }
    }
}

/// `part` joined onto `base` as `Path::join` joins them on Unix: an absolute `part` stands
/// alone, and a `/` separates the two unless `base` is empty or already ends with one.
pub open spec fn path_join(base: Seq<char>, part: Seq<char>) -> Seq<char> {
    if part.len() > 0 && part[0] == '/' {
        part
    } else if base.len() == 0 || base.last() == '/' {
        base + part
    } else {
        base + seq!['/'] + part
    }
}

/// `part` joined onto `base` (see [`path_join`]).
pub fn join_path(base: &str, part: &str) -> (r: String)
    ensures
        r@ == path_join(base@, part@),
{
    let b = chars_of(base);
    let p = chars_of(part);
    if p.len() > 0 && p[0] == '/' {
        return String::from_str(part);
    }
    let mut out = String::from_str(base);
    if b.len() > 0 && b[b.len() - 1] != '/' {
        let sep: Vec<char> = vec!['/'];
        let s = string_of(&sep);
        out.append(s.as_str());
    }
    out.append(part);
    out
}

/// The default index path under a home directory.
pub open spec fn default_db(home: Seq<char>) -> Seq<char> {
    path_join(home, "codex-session-info.sqlite3"@)
}

/// The selector's defaults, where the home directory is known.
pub open spec fn select_defaults(home: Option<Seq<char>>) -> Option<SelectView> {
    match home {
        Some(h) => Some(
            SelectView {
                db: default_db(h),
                refresh: true,
                print_path: false,
                include_exec: false,
                include_subsessions: false,
                include_empty_messages: false,
                record_command: None,
                replay_command: None,
            },
        ),
        None => None,
    }
}

/// The `index` defaults, where the home directory is known.
pub open spec fn index_defaults(home: Option<Seq<char>>) -> Option<IndexView> {
    match home {
        Some(h) => Some(
            IndexView {
                output: default_db(h),
                sessions_root: path_join(path_join(h, ".codex"@), "sessions"@),
                rebuild: false,
                include_subsessions: false,
                include_empty_messages: false,
                include_exec: false,
            },
        ),
        None => None,
    }
}

/// The `replay` defaults.
pub open spec fn replay_defaults() -> ReplayView {
    ReplayView { input: None, include_exec: false }
}

impl SelectOptions {
    /// The selector's defaults under the home directory `home`.
    pub fn defaults(home: &Option<String>) -> (r: Result<SelectOptions, CliError>)
        ensures
            match r {
                Ok(o) => select_defaults(opt_view(*home)) == Some(o@),
                Err(e) => select_defaults(opt_view(*home)) is None && e@ == ErrorView::HomeNotSet,
            },
    {
        match home {
            Some(h) => Ok(
                SelectOptions {
                    db: join_path(h.as_str(), "codex-session-info.sqlite3"),
                    refresh: true,
                    print_path: false,
                    include_exec: false,
                    include_subsessions: false,
                    include_empty_messages: false,
                    record_command: None,
                    replay_command: None,
                },
            ),
            None => Err(CliError::HomeNotSet),
        }
    }
}

impl IndexOptions {
    /// The `index` defaults under the home directory `home`.
    pub fn defaults(home: &Option<String>) -> (r: Result<IndexOptions, CliError>)
        ensures
            match r {
                Ok(o) => index_defaults(opt_view(*home)) == Some(o@),
                Err(e) => index_defaults(opt_view(*home)) is None && e@ == ErrorView::HomeNotSet,
            },
    {
        match home {
            Some(h) => {
                let codex = join_path(h.as_str(), ".codex");
                Ok(
                    IndexOptions {
                        output: join_path(h.as_str(), "codex-session-info.sqlite3"),
                        sessions_root: join_path(codex.as_str(), "sessions"),
                        rebuild: false,
                        include_subsessions: false,
                        include_empty_messages: false,
                        include_exec: false,
                    },
                )
            },
            None => Err(CliError::HomeNotSet),
        }
    }
}

impl ReplayOptions {
    /// The `replay` defaults: read standard input, exec entries hidden.
    pub fn defaults() -> (r: ReplayOptions)
        ensures
            r@ == replay_defaults(),
    {
        ReplayOptions { input: None, include_exec: false }
    }
}

/// A path with a leading `~` or `~/` taken as the home directory.
pub open spec fn expanded(value: Seq<char>, home: Option<Seq<char>>) -> Result<Seq<char>, ErrorView> {
    if value == seq!['~'] {
        match home {
            Some(h) => Ok(h),
            None => Err(ErrorView::HomeNotSet),
        }
    } else if value.len() >= 2 && value[0] == '~' && value[1] == '/' {
        match home {
            Some(h) => Ok(path_join(h, value.skip(2))),
            None => Err(ErrorView::HomeNotSet),
        }
    } else {
        Ok(value)
    }
}

/// A path with a leading `~` or `~/` taken as the home directory (see [`expanded`]).
pub fn expand_home(value: &str, home: &Option<String>) -> (r: Result<String, CliError>)
    ensures
        match r {
            Ok(p) => expanded(value@, opt_view(*home)) == Ok::<Seq<char>, ErrorView>(p@),
            Err(e) => expanded(value@, opt_view(*home)) == Err::<Seq<char>, ErrorView>(e@),
        },
{
    let cs = chars_of(value);
    let is_tilde = cs.len() == 1 && cs[0] == '~';
    assert(is_tilde <==> value@ == seq!['~']) by {
        if value@ == seq!['~'] {
            assert(cs@.len() == 1 && cs@[0] == '~');
        }
        if is_tilde {
            assert(value@ =~= seq!['~']);
        }
    }
    if is_tilde {
        return match home {
            Some(h) => Ok(h.clone()),
            None => Err(CliError::HomeNotSet),
        };
    }
    if cs.len() >= 2 && cs[0] == '~' && cs[1] == '/' {
        let rest = crate::text::copy_range(&cs, 2, cs.len());
        assert(rest@ =~= value@.skip(2));
        let rest_text = string_of(&rest);
        return match home {
            Some(h) => Ok(join_path(h.as_str(), rest_text.as_str())),
            None => Err(CliError::HomeNotSet),
        };
    }
    Ok(String::from_str(value))
}

/// The views of the arguments.
pub open spec fn arg_views(args: Seq<String>) -> Seq<Seq<char>> {
    args.map_values(|a: String| a@)
}

/// The selector's options read from argument `i` on.
pub open spec fn select_from(args: Seq<Seq<char>>, i: int, home: Option<Seq<char>>, o: SelectView) -> Result<
    ActionView,
    ErrorView,
>
    decreases args.len() - i,
{
    if i < 0 || i >= args.len() {
        Ok(ActionView::Run(CommandView::Select(o)))
    } else {
        let a = args[i];
        if a == "--db"@ {
            if i + 1 >= args.len() {
                Err(ErrorView::MissingValue(a, "path"@))
            } else {
                match expanded(args[i + 1], home) {
                    Ok(p) => select_from(args, i + 2, home, SelectView { db: p, ..o }),
                    Err(e) => Err(e),
                }
            }
        } else if a == "--record-command"@ {
            if i + 1 >= args.len() {
                Err(ErrorView::MissingValue(a, "command"@))
            } else {
                select_from(args, i + 2, home, SelectView { record_command: Some(args[i + 1]), ..o })
            }
        } else if a == "--replay-command"@ {
            if i + 1 >= args.len() {
                Err(ErrorView::MissingValue(a, "command"@))
            } else {
                select_from(args, i + 2, home, SelectView { replay_command: Some(args[i + 1]), ..o })
            }
        } else if a == "--no-refresh"@ {
            select_from(args, i + 1, home, SelectView { refresh: false, ..o })
        } else if a == "--print-path"@ {
            select_from(args, i + 1, home, SelectView { print_path: true, ..o })
        } else if a == "--include-exec"@ {
            select_from(args, i + 1, home, SelectView { include_exec: true, ..o })
        } else if a == "--include-subsessions"@ {
            select_from(args, i + 1, home, SelectView { include_subsessions: true, ..o })
        } else if a == "--include-empty-messages"@ {
            select_from(args, i + 1, home, SelectView { include_empty_messages: true, ..o })
        } else if a == "-h"@ || a == "--help"@ {
            Ok(ActionView::PrintHelp(HelpTopic::Root))
        } else if a == "-V"@ || a == "--version"@ {
            Ok(ActionView::PrintVersion)
        } else {
            Err(ErrorView::UnknownArgument(a))
        }
    }
}

/// The `index` options read from argument `i` on.
pub open spec fn index_from(args: Seq<Seq<char>>, i: int, home: Option<Seq<char>>, o: IndexView) -> Result<
    ActionView,
    ErrorView,
>
    decreases args.len() - i,
{
    if i < 0 || i >= args.len() {
        Ok(ActionView::Run(CommandView::Index(o)))
    } else {
        let a = args[i];
        if a == "-o"@ || a == "--output"@ {
            if i + 1 >= args.len() {
                Err(ErrorView::MissingValue(a, "path"@))
            } else {
                match expanded(args[i + 1], home) {
                    Ok(p) => index_from(args, i + 2, home, IndexView { output: p, ..o }),
                    Err(e) => Err(e),
                }
            }
        } else if a == "--sessions-root"@ {
            if i + 1 >= args.len() {
                Err(ErrorView::MissingValue(a, "path"@))
            } else {
                match expanded(args[i + 1], home) {
                    Ok(p) => index_from(args, i + 2, home, IndexView { sessions_root: p, ..o }),
                    Err(e) => Err(e),
                }
            }
        } else if a == "--rebuild"@ {
            index_from(args, i + 1, home, IndexView { rebuild: true, ..o })
        } else if a == "--include-subsessions"@ {
            index_from(args, i + 1, home, IndexView { include_subsessions: true, ..o })
        } else if a == "--include-empty-messages"@ {
            index_from(args, i + 1, home, IndexView { include_empty_messages: true, ..o })
        } else if a == "--include-exec"@ {
            index_from(args, i + 1, home, IndexView { include_exec: true, ..o })
        } else if a == "-h"@ || a == "--help"@ {
            Ok(ActionView::PrintHelp(HelpTopic::Index))
        } else if a == "-V"@ || a == "--version"@ {
            Ok(ActionView::PrintVersion)
        } else {
            Err(ErrorView::UnknownIndexArgument(a))
        }
    }
}

/// The `replay` options read from argument `i` on; a second input path is refused.
pub open spec fn replay_from(args: Seq<Seq<char>>, i: int, o: ReplayView) -> Result<ActionView, ErrorView>
    decreases args.len() - i,
{
    if i < 0 || i >= args.len() {
        Ok(ActionView::Run(CommandView::Replay(o)))
    } else {
        let a = args[i];
        if a == "--include-exec"@ {
            replay_from(args, i + 1, ReplayView { include_exec: true, ..o })
        } else if a == "-h"@ || a == "--help"@ {
            Ok(ActionView::PrintHelp(HelpTopic::Replay))
        } else if a == "-V"@ || a == "--version"@ {
            Ok(ActionView::PrintVersion)
        } else if a != seq!['-'] && a.len() > 0 && a[0] == '-' {
            Err(ErrorView::UnknownReplayArgument(a))
        } else if o.input is Some {
            Err(ErrorView::MultipleInputs)
        } else {
            replay_from(args, i + 1, ReplayView { input: Some(a), ..o })
        }
    }
}

/// What a command line asks for: with no arguments the selector; `index` and `replay` start
/// their commands; `-h`/`--help` and `-V`/`--version` first print help or the version;
/// anything else is read as selector options.
pub open spec fn parsed_args(args: Seq<Seq<char>>, home: Option<Seq<char>>) -> Result<ActionView, ErrorView> {
    if args.len() == 0 {
        match select_defaults(home) {
            Some(o) => Ok(ActionView::Run(CommandView::Select(o))),
            None => Err(ErrorView::HomeNotSet),
        }
    } else if args[0] == "index"@ {
        match index_defaults(home) {
            Some(o) => index_from(args, 1, home, o),
            None => Err(ErrorView::HomeNotSet),
        }
    } else if args[0] == "replay"@ {
        replay_from(args, 1, replay_defaults())
    } else if args[0] == "-h"@ || args[0] == "--help"@ {
        Ok(ActionView::PrintHelp(HelpTopic::Root))
    } else if args[0] == "-V"@ || args[0] == "--version"@ {
        Ok(ActionView::PrintVersion)
    } else {
        match select_defaults(home) {
            Some(o) => select_from(args, 0, home, o),
            None => Err(ErrorView::HomeNotSet),
        }
    }
}

/// The view of a parse result.
pub open spec fn cli_result_view(r: Result<CliAction, CliError>) -> Result<ActionView, ErrorView> {
    match r {
        Ok(a) => Ok(a@),
        Err(e) => Err(e@),
    }
}

/// The value that follows the option at `i`, or the error for the option that lacks it.
fn required_value(args: &[String], i: usize, noun: &str) -> (r: Result<String, CliError>)
    requires
        i < args@.len(),
    ensures
        match r {
            Ok(v) => i + 1 < args@.len() && v@ == args@[i + 1]@,
            Err(e) => i + 1 >= args@.len() && e@ == ErrorView::MissingValue(args@[i as int]@, noun@),
        },
{
    if args.len() - i > 1 {
        Ok(args[i + 1].clone())
    } else {
        Err(CliError::MissingValue(args[i].clone(), String::from_str(noun)))
    }
}

/// Reads the selector's options from argument `start` on.
fn parse_select_args(args: &[String], start: usize, home: &Option<String>) -> (r: Result<CliAction, CliError>)
    requires
        start <= args@.len(),
    ensures
        cli_result_view(r) == match select_defaults(opt_view(*home)) {
            Some(o) => select_from(arg_views(args@), start as int, opt_view(*home), o),
            None => Err(ErrorView::HomeNotSet),
        },
{
    let ghost av = arg_views(args@);
    let ghost hv = opt_view(*home);
    let mut options = match SelectOptions::defaults(home) {
        Ok(o) => o,
        Err(e) => return Err(e),
    };
    let ghost d = options@;
    let mut i: usize = start;
    while i < args.len()
        invariant
            start <= i <= args@.len(),
            av == arg_views(args@),
            hv == opt_view(*home),
            select_defaults(hv) == Some(d),
            select_from(av, start as int, hv, d) == select_from(av, i as int, hv, options@),
        decreases args.len() - i,
    {
        let a = &args[i];
        assert(av[i as int] == a@);
        if text_is(a, "--db") {
            let v = match required_value(args, i, "path") {
                Ok(v) => v,
                Err(e) => return Err(e),
            };
            assert(av[i + 1] == v@);
            options.db = match expand_home(v.as_str(), home) {
                Ok(p) => p,
                Err(e) => return Err(e),
            };
            i = i + 2;
        } else if text_is(a, "--record-command") {
            let v = match required_value(args, i, "command") {
                Ok(v) => v,
                Err(e) => return Err(e),
            };
            options.record_command = Some(v);
            i = i + 2;
        } else if text_is(a, "--replay-command") {
            let v = match required_value(args, i, "command") {
                Ok(v) => v,
                Err(e) => return Err(e),
            };
            options.replay_command = Some(v);
            i = i + 2;
        } else if text_is(a, "--no-refresh") {
            options.refresh = false;
            i = i + 1;
        } else if text_is(a, "--print-path") {
            options.print_path = true;
            i = i + 1;
        } else if text_is(a, "--include-exec") {
            options.include_exec = true;
            i = i + 1;
        } else if text_is(a, "--include-subsessions") {
            options.include_subsessions = true;
            i = i + 1;
        } else if text_is(a, "--include-empty-messages") {
            options.include_empty_messages = true;
            i = i + 1;
        } else if text_is(a, "-h") || text_is(a, "--help") {
            return Ok(CliAction::PrintHelp(HelpTopic::Root));
        } else if text_is(a, "-V") || text_is(a, "--version") {
            return Ok(CliAction::PrintVersion);
        } else {
            return Err(CliError::UnknownArgument(a.clone()));
        }
    }
    Ok(CliAction::Run(Command::Select(options)))
}

/// Reads the `index` options from argument `start` on.
fn parse_index_args(args: &[String], start: usize, home: &Option<String>) -> (r: Result<CliAction, CliError>)
    requires
        start <= args@.len(),
    ensures
        cli_result_view(r) == match index_defaults(opt_view(*home)) {
            Some(o) => index_from(arg_views(args@), start as int, opt_view(*home), o),
            None => Err(ErrorView::HomeNotSet),
        },
{
    let ghost av = arg_views(args@);
    let ghost hv = opt_view(*home);
    let mut options = match IndexOptions::defaults(home) {
        Ok(o) => o,
        Err(e) => return Err(e),
    };
    let ghost d = options@;
    let mut i: usize = start;
    while i < args.len()
        invariant
            start <= i <= args@.len(),
            av == arg_views(args@),
            hv == opt_view(*home),
            index_defaults(hv) == Some(d),
            index_from(av, start as int, hv, d) == index_from(av, i as int, hv, options@),
        decreases args.len() - i,
    {
        let a = &args[i];
        assert(av[i as int] == a@);
        if text_is(a, "-o") || text_is(a, "--output") {
            let v = match required_value(args, i, "path") {
                Ok(v) => v,
                Err(e) => return Err(e),
            };
            assert(av[i + 1] == v@);
            options.output = match expand_home(v.as_str(), home) {
                Ok(p) => p,
                Err(e) => return Err(e),
            };
            i = i + 2;
        } else if text_is(a, "--sessions-root") {
            let v = match required_value(args, i, "path") {
                Ok(v) => v,
                Err(e) => return Err(e),
            };
            assert(av[i + 1] == v@);
            options.sessions_root = match expand_home(v.as_str(), home) {
                Ok(p) => p,
                Err(e) => return Err(e),
            };
            i = i + 2;
        } else if text_is(a, "--rebuild") {
            options.rebuild = true;
            i = i + 1;
        } else if text_is(a, "--include-subsessions") {
            options.include_subsessions = true;
            i = i + 1;
        } else if text_is(a, "--include-empty-messages") {
            options.include_empty_messages = true;
            i = i + 1;
        } else if text_is(a, "--include-exec") {
            options.include_exec = true;
            i = i + 1;
        } else if text_is(a, "-h") || text_is(a, "--help") {
            return Ok(CliAction::PrintHelp(HelpTopic::Index));
        } else if text_is(a, "-V") || text_is(a, "--version") {
            return Ok(CliAction::PrintVersion);
        } else {
            return Err(CliError::UnknownIndexArgument(a.clone()));
        }
    }
    Ok(CliAction::Run(Command::Index(options)))
}

/// Sets the replay input; refused where one was set before (the new path is kept either way).
pub fn set_replay_input(options: &mut ReplayOptions, input: String) -> (r: Result<(), CliError>)
    ensures
        final(options)@ == (ReplayView { input: Some(input@), ..old(options)@ }),
        r is Err <==> old(options).input is Some,
        r matches Err(e) ==> e@ == ErrorView::MultipleInputs,
{
    let had_input = options.input.is_some();
    options.input = Some(input);
    if had_input {
        Err(CliError::MultipleInputs)
    } else {
        Ok(())
    }
}

/// Reads the `replay` options from argument `start` on.
fn parse_replay_args(args: &[String], start: usize) -> (r: Result<CliAction, CliError>)
    requires
        start <= args@.len(),
    ensures
        cli_result_view(r) == replay_from(arg_views(args@), start as int, replay_defaults()),
{
    let ghost av = arg_views(args@);
    let mut options = ReplayOptions::defaults();
    let mut i: usize = start;
    while i < args.len()
        invariant
            start <= i <= args@.len(),
            av == arg_views(args@),
            replay_from(av, start as int, replay_defaults()) == replay_from(av, i as int, options@),
        decreases args.len() - i,
    {
        let a = &args[i];
        assert(av[i as int] == a@);
        if text_is(a, "--include-exec") {
            options.include_exec = true;
        } else if text_is(a, "-h") || text_is(a, "--help") {
            return Ok(CliAction::PrintHelp(HelpTopic::Replay));
        } else if text_is(a, "-V") || text_is(a, "--version") {
            return Ok(CliAction::PrintVersion);
        } else {
            let cs = chars_of(a.as_str());
            let is_dash = cs.len() == 1 && cs[0] == '-';
            assert(is_dash <==> a@ == seq!['-']) by {
                if a@ == seq!['-'] {
                    assert(cs@.len() == 1 && cs@[0] == '-');
                }
                if is_dash {
                    assert(a@ =~= seq!['-']);
                }
            }
            if !is_dash && cs.len() > 0 && cs[0] == '-' {
                return Err(CliError::UnknownReplayArgument(a.clone()));
            }
            match set_replay_input(&mut options, a.clone()) {
                Ok(()) => {},
                Err(e) => return Err(e),
            }
        }
        i = i + 1;
    }
    Ok(CliAction::Run(Command::Replay(options)))
}

/// Reads a command line (the arguments after the program name; see [`parsed_args`]). `home`
/// is the home directory, where it is known.
pub fn parse_args(args: &[String], home: &Option<String>) -> (r: Result<CliAction, CliError>)
    ensures
        cli_result_view(r) == parsed_args(arg_views(args@), opt_view(*home)),
{
    let ghost av = arg_views(args@);
    if args.len() == 0 {
        return match SelectOptions::defaults(home) {
            Ok(o) => Ok(CliAction::Run(Command::Select(o))),
            Err(e) => Err(e),
        };
    }
    let first = &args[0];
    assert(av[0] == first@);
    if text_is(first, "index") {
        parse_index_args(args, 1, home)
    } else if text_is(first, "replay") {
        parse_replay_args(args, 1)
    } else if text_is(first, "-h") || text_is(first, "--help") {
        Ok(CliAction::PrintHelp(HelpTopic::Root))
    } else if text_is(first, "-V") || text_is(first, "--version") {
        Ok(CliAction::PrintVersion)
    } else {
        parse_select_args(args, 0, home)
    }
}

/// The root help text after its first line.
pub const ROOT_HELP: &'static str = "

Open a TUI for choosing a local Codex session and replaying its JSONL timeline.

Usage:
  select-codex-session [SELECTOR_OPTIONS]
  select-codex-session index [INDEX_OPTIONS]
  select-codex-session replay [REPLAY_OPTIONS] [PATH|-]

Commands:
  index                          Build the SQLite session index
  replay                         Replay one JSONL/JSON session

Selector options:
      --db PATH                  SQLite index path
                                 default: ~/codex-session-info.sqlite3
      --record-command COMMAND   Optional external recorder override
                                 default: internal indexer
      --replay-command COMMAND   Optional external replay override
                                 default: internal replay
      --no-refresh               Do not rebuild the SQLite index before opening
      --include-exec             Index and show command execution records
      --include-subsessions      Show subsessions from the canonical index
      --include-empty-messages   Show sessions without a first user message
      --print-path               Print the selected JSONL path instead of replaying
  -h, --help                     Show this help
  -V, --version                  Show version

Keys:
  Enter                          replay selected session, then return here
  /                              interactive search
  Tab                            switch pane focus; while searching, cycle scope
  h/l or Left/Right              horizontal scroll in sessions pane
  e                              toggle exec entries for replay
  y                              copy `codex resume <session-id>` to clipboard
  q, Esc, Ctrl-C                 quit";

/// The `index` help text after its first line.
pub const INDEX_HELP: &'static str = "

Build a SQLite index from local Codex session JSONL files.

Usage:
  select-codex-session index [INDEX_OPTIONS]

Options:
  -o, --output PATH              SQLite output path
                                 default: ~/codex-session-info.sqlite3
      --sessions-root PATH       Codex sessions root
                                 default: ~/.codex/sessions
      --rebuild                  Rebuild the index from all session files
      --include-subsessions      Include subagent/subsession records
      --include-empty-messages   Include sessions without a first user message
      --include-exec             Compatibility option; canonical index always stores exec events
  -h, --help                     Show this help
  -V, --version                  Show version

Schema:
  sessions(path, id, timestamp, cwd, repository_url, branch, first_message)
  exec_events(session_path, session_id, event_index, call_id, kind, name, command, output)";

/// The `replay` help text after its first line.
pub const REPLAY_HELP: &'static str = "

Replay a Codex session JSONL file in a terminal UI.

Usage:
  select-codex-session replay [REPLAY_OPTIONS] [PATH|-]

Options:
      --include-exec     Show command execution records in the timeline
                         default: hidden; press e to toggle
  -h, --help             Show this help
  -V, --version          Show version

Input:
  PATH    Raw Codex JSONL file or a JSON array of preprocessed events
  -       Read JSONL/JSON from stdin
  omitted Read JSONL/JSON from stdin

Keys:
  Tab                switch focus between timeline/detail
  j/k or Up/Down     move or scroll, depending on focus
  d/u or Page keys   page move or page scroll
  g/G                first/last event or detail top/bottom
  1/2/f              fullscreen controls
  e                  toggle command execution entries
  y                  copy detail pane to clipboard
  q, Esc, Ctrl-C     quit";

/// The text after the first line of a help page.
pub open spec fn help_body(topic: HelpTopic) -> Seq<char> {
    match topic {
        HelpTopic::Root => ROOT_HELP@,
        HelpTopic::Index => INDEX_HELP@,
        HelpTopic::Replay => REPLAY_HELP@,
    }
}

/// The line that names the program and its version.
pub open spec fn version_line(version: Seq<char>) -> Seq<char> {
    "select-codex-session "@ + version
}

/// A help page: the version line, then the topic's text.
pub open spec fn help_page(topic: HelpTopic, version: Seq<char>) -> Seq<char> {
    version_line(version) + help_body(topic)
}

/// The line that names the program and its version.
pub fn version_text(version: &str) -> (r: String)
    ensures
        r@ == version_line(version@),
{
    let mut out = String::from_str("select-codex-session ");
    out.append(version);
    out
}

/// The help page of a topic, for program version `version`.
pub fn help_text(topic: HelpTopic, version: &str) -> (r: String)
    ensures
        r@ == help_page(topic, version@),
{
    let mut out = version_text(version);
    match topic {
        HelpTopic::Root => out.append(ROOT_HELP),
        HelpTopic::Index => out.append(INDEX_HELP),
        HelpTopic::Replay => out.append(REPLAY_HELP),
    }
    out
}

/// The option words of the command line differ from each other.
pub(crate) proof fn lemma_option_words()
    ensures
        "--include-empty-messages"@ != "--db"@,
        "--include-empty-messages"@ != "--help"@,
        "--include-empty-messages"@ != "--include-exec"@,
        "--include-empty-messages"@ != "--output"@,
        "--include-empty-messages"@ != "--record-command"@,
        "--include-empty-messages"@ != "--replay-command"@,
        "--include-empty-messages"@ != "--sessions-root"@,
        "--include-empty-messages"@ != "--version"@,
        "--include-empty-messages"@ != "-V"@,
        "--include-empty-messages"@ != "-h"@,
        "--include-empty-messages"@ != "-o"@,
        "--include-exec"@ != "--db"@,
        "--include-exec"@ != "--help"@,
        "--include-exec"@ != "--include-empty-messages"@,
        "--include-exec"@ != "--include-subsessions"@,
        "--include-exec"@ != "--output"@,
        "--include-exec"@ != "--record-command"@,
        "--include-exec"@ != "--replay-command"@,
        "--include-exec"@ != "--sessions-root"@,
        "--include-exec"@ != "--version"@,
        "--include-exec"@ != "-V"@,
        "--include-exec"@ != "-h"@,
        "--include-exec"@ != "-o"@,
        "--include-subsessions"@ != "--db"@,
        "--include-subsessions"@ != "--help"@,
        "--include-subsessions"@ != "--include-empty-messages"@,
        "--include-subsessions"@ != "--include-exec"@,
        "--include-subsessions"@ != "--output"@,
        "--include-subsessions"@ != "--record-command"@,
        "--include-subsessions"@ != "--replay-command"@,
        "--include-subsessions"@ != "--sessions-root"@,
        "--include-subsessions"@ != "--version"@,
        "--include-subsessions"@ != "-V"@,
        "--include-subsessions"@ != "-h"@,
        "--include-subsessions"@ != "-o"@,
        "--no-refresh"@ != "--db"@,
        "--no-refresh"@ != "--help"@,
        "--no-refresh"@ != "--include-empty-messages"@,
        "--no-refresh"@ != "--include-exec"@,
        "--no-refresh"@ != "--include-subsessions"@,
        "--no-refresh"@ != "--print-path"@,
        "--no-refresh"@ != "--record-command"@,
        "--no-refresh"@ != "--replay-command"@,
        "--no-refresh"@ != "--version"@,
        "--no-refresh"@ != "-V"@,
        "--no-refresh"@ != "-h"@,
        "--print-path"@ != "--db"@,
        "--print-path"@ != "--help"@,
        "--print-path"@ != "--include-empty-messages"@,
        "--print-path"@ != "--include-exec"@,
        "--print-path"@ != "--include-subsessions"@,
        "--print-path"@ != "--record-command"@,
        "--print-path"@ != "--replay-command"@,
        "--print-path"@ != "--version"@,
        "--print-path"@ != "-V"@,
        "--print-path"@ != "-h"@,
        "--rebuild"@ != "--help"@,
        "--rebuild"@ != "--include-empty-messages"@,
        "--rebuild"@ != "--include-exec"@,
        "--rebuild"@ != "--include-subsessions"@,
        "--rebuild"@ != "--output"@,
        "--rebuild"@ != "--sessions-root"@,
        "--rebuild"@ != "--version"@,
        "--rebuild"@ != "-V"@,
        "--rebuild"@ != "-h"@,
        "--rebuild"@ != "-o"@,
{
    reveal_strlit("--db");
    reveal_strlit("--help");
    reveal_strlit("--include-empty-messages");
    reveal_strlit("--include-exec");
    reveal_strlit("--include-subsessions");
    reveal_strlit("--no-refresh");
    reveal_strlit("--output");
    reveal_strlit("--print-path");
    reveal_strlit("--rebuild");
    reveal_strlit("--record-command");
    reveal_strlit("--replay-command");
    reveal_strlit("--sessions-root");
    reveal_strlit("--version");
    reveal_strlit("-V");
    reveal_strlit("-h");
    reveal_strlit("-o");
    assert("--db"@.len() == 4);
    assert("--help"@.len() == 6);
    assert("--include-empty-messages"@.len() == 24);
    assert("--include-exec"@.len() == 14);
    assert("--include-subsessions"@.len() == 21);
    assert("--no-refresh"@.len() == 12);
    assert("--output"@.len() == 8);
    assert("--print-path"@.len() == 12);
    assert("--rebuild"@.len() == 9);
    assert("--record-command"@.len() == 16);
    assert("--replay-command"@.len() == 16);
    assert("--sessions-root"@.len() == 15);
    assert("--version"@.len() == 9);
    assert("-V"@.len() == 2);
    assert("-h"@.len() == 2);
    assert("-o"@.len() == 2);
    assert("--no-refresh"@[2] != "--print-path"@[2]);
    assert("--rebuild"@[2] != "--version"@[2]);
}


/// The selector's flags: a flag that is read sets its option (`--no-refresh` switches
/// refreshing off, the others switch their options on), and nothing read after it sets the
/// option back.
pub proof fn lemma_select_flags(args: Seq<Seq<char>>, i: int, home: Option<Seq<char>>, o: SelectView)
    ensures
        select_from(args, i, home, o) matches Ok(ActionView::Run(CommandView::Select(r))) ==> {
            &&& !o.refresh ==> !r.refresh
            &&& o.print_path ==> r.print_path
            &&& o.include_exec ==> r.include_exec
            &&& o.include_subsessions ==> r.include_subsessions
            &&& o.include_empty_messages ==> r.include_empty_messages
            &&& (0 <= i < args.len() && args[i] == "--no-refresh"@) ==> !r.refresh
            &&& (0 <= i < args.len() && args[i] == "--print-path"@) ==> r.print_path
            &&& (0 <= i < args.len() && args[i] == "--include-exec"@) ==> r.include_exec
            &&& (0 <= i < args.len() && args[i] == "--include-subsessions"@) ==> r.include_subsessions
            &&& (0 <= i < args.len() && args[i] == "--include-empty-messages"@) ==> r.include_empty_messages
        },
    decreases args.len() - i,
{
    lemma_option_words();
    if 0 <= i < args.len() {
        let a = args[i];
        if a == "--db"@ {
            if i + 1 < args.len() {
                match expanded(args[i + 1], home) {
                    Ok(p) => lemma_select_flags(args, i + 2, home, SelectView { db: p, ..o }),
                    Err(_) => {},
                }
            }
        } else if a == "--record-command"@ {
            if i + 1 < args.len() {
                lemma_select_flags(args, i + 2, home, SelectView { record_command: Some(args[i + 1]), ..o });
            }
        } else if a == "--replay-command"@ {
            if i + 1 < args.len() {
                lemma_select_flags(args, i + 2, home, SelectView { replay_command: Some(args[i + 1]), ..o });
            }
        } else if a == "--no-refresh"@ {
            lemma_select_flags(args, i + 1, home, SelectView { refresh: false, ..o });
        } else if a == "--print-path"@ {
            lemma_select_flags(args, i + 1, home, SelectView { print_path: true, ..o });
        } else if a == "--include-exec"@ {
            lemma_select_flags(args, i + 1, home, SelectView { include_exec: true, ..o });
        } else if a == "--include-subsessions"@ {
            lemma_select_flags(args, i + 1, home, SelectView { include_subsessions: true, ..o });
        } else if a == "--include-empty-messages"@ {
            lemma_select_flags(args, i + 1, home, SelectView { include_empty_messages: true, ..o });
        }
    }
}

/// The `index` command's flags: a flag that is read switches its option on, and nothing read
/// after it switches the option off again.
pub proof fn lemma_index_flags(args: Seq<Seq<char>>, i: int, home: Option<Seq<char>>, o: IndexView)
    ensures
        index_from(args, i, home, o) matches Ok(ActionView::Run(CommandView::Index(r))) ==> {
            &&& o.rebuild ==> r.rebuild
            &&& o.include_subsessions ==> r.include_subsessions
            &&& o.include_empty_messages ==> r.include_empty_messages
            &&& o.include_exec ==> r.include_exec
            &&& (0 <= i < args.len() && args[i] == "--rebuild"@) ==> r.rebuild
            &&& (0 <= i < args.len() && args[i] == "--include-subsessions"@) ==> r.include_subsessions
            &&& (0 <= i < args.len() && args[i] == "--include-empty-messages"@) ==> r.include_empty_messages
            &&& (0 <= i < args.len() && args[i] == "--include-exec"@) ==> r.include_exec
        },
    decreases args.len() - i,
{
    lemma_option_words();
    if 0 <= i < args.len() {
        let a = args[i];
        if a == "-o"@ || a == "--output"@ {
            if i + 1 < args.len() {
                match expanded(args[i + 1], home) {
                    Ok(p) => lemma_index_flags(args, i + 2, home, IndexView { output: p, ..o }),
                    Err(_) => {},
                }
            }
        } else if a == "--sessions-root"@ {
            if i + 1 < args.len() {
                match expanded(args[i + 1], home) {
                    Ok(p) => lemma_index_flags(args, i + 2, home, IndexView { sessions_root: p, ..o }),
                    Err(_) => {},
                }
            }
        } else if a == "--rebuild"@ {
            lemma_index_flags(args, i + 1, home, IndexView { rebuild: true, ..o });
        } else if a == "--include-subsessions"@ {
            lemma_index_flags(args, i + 1, home, IndexView { include_subsessions: true, ..o });
        } else if a == "--include-empty-messages"@ {
            lemma_index_flags(args, i + 1, home, IndexView { include_empty_messages: true, ..o });
        } else if a == "--include-exec"@ {
            lemma_index_flags(args, i + 1, home, IndexView { include_exec: true, ..o });
        }
    }
}

/// The `replay` command's `--include-exec`: read anywhere, it switches exec entries on, and
/// nothing read after it switches them off again.
pub proof fn lemma_replay_flag(args: Seq<Seq<char>>, i: int, o: ReplayView)
    ensures
        replay_from(args, i, o) matches Ok(ActionView::Run(CommandView::Replay(r))) ==> {
            &&& o.include_exec ==> r.include_exec
            &&& (0 <= i < args.len() && args[i] == "--include-exec"@) ==> r.include_exec
        },
    decreases args.len() - i,
{
    lemma_option_words();
    if 0 <= i < args.len() {
        let a = args[i];
        if a == "--include-exec"@ {
            lemma_replay_flag(args, i + 1, ReplayView { include_exec: true, ..o });
        } else if !(a == "-h"@ || a == "--help"@ || a == "-V"@ || a == "--version"@) && !(a != seq!['-']
            && a.len() > 0 && a[0] == '-') && o.input is None {
            lemma_replay_flag(args, i + 1, ReplayView { input: Some(a), ..o });
        }
    }
}

} // verus!
