//! The arguments handed to external recorder and replay commands.

use vstd::prelude::*;

use crate::listing::string_views;
use crate::ui_state::ExecVisibility;

verus! {

/// The option `flag` where `on` holds, else nothing.
pub open spec fn flag_if(on: bool, flag: Seq<char>) -> Seq<Seq<char>> {
    if on {
        seq![flag]
    } else {
        Seq::empty()
    }
}

/// The arguments of an external recorder: the output path, then the include options given.
pub open spec fn record_args(db: Seq<char>, include_subsessions: bool, include_empty_messages: bool, include_exec: bool) -> Seq<Seq<char>> {
    seq!["--output"@, db] + flag_if(include_subsessions, "--include-subsessions"@) + flag_if(
        include_empty_messages,
        "--include-empty-messages"@,
    ) + flag_if(include_exec, "--include-exec"@)
}

/// The arguments of an external recorder (see [`record_args`]).
pub fn external_record_args(
    db: &str,
    include_subsessions: bool,
    include_empty_messages: bool,
    include_exec: bool,
) -> (r: Vec<String>)
    ensures
        string_views(r@) == record_args(db@, include_subsessions, include_empty_messages, include_exec),
{
    let mut args: Vec<String> = Vec::new();
    args.push(String::from_str("--output"));
    args.push(String::from_str(db));
    let ghost a0 = string_views(args@);
    assert(a0 =~= seq!["--output"@, db@]);
    if include_subsessions {
        args.push(String::from_str("--include-subsessions"));
    }
    let ghost a1 = string_views(args@);
    assert(a1 =~= a0 + flag_if(include_subsessions, "--include-subsessions"@));
    if include_empty_messages {
        args.push(String::from_str("--include-empty-messages"));
    }
    let ghost a2 = string_views(args@);
    assert(a2 =~= a1 + flag_if(include_empty_messages, "--include-empty-messages"@));
    if include_exec {
        args.push(String::from_str("--include-exec"));
    }
    assert(string_views(args@) =~= a2 + flag_if(include_exec, "--include-exec"@));
    args
}

/// The arguments of an external replay command: `--include-exec` where exec entries are shown,
/// then the session path.
pub open spec fn replay_args(path: Seq<char>, visibility: ExecVisibility) -> Seq<Seq<char>> {
    flag_if(visibility == ExecVisibility::Shown, "--include-exec"@) + seq![path]
}

/// The arguments of an external replay command (see [`replay_args`]).
pub fn external_replay_args(path: &str, exec_visibility: ExecVisibility) -> (r: Vec<String>)
    ensures
        string_views(r@) == replay_args(path@, exec_visibility),
{
    let mut args: Vec<String> = Vec::new();
    if exec_visibility.is_shown() {
        args.push(String::from_str("--include-exec"));
    }
    let ghost a0 = string_views(args@);
    assert(a0 =~= flag_if(exec_visibility == ExecVisibility::Shown, "--include-exec"@));
    args.push(String::from_str(path));
    assert(string_views(args@) =~= a0 + seq![path@]);
    args
}

/// `--include-exec` reaches an external recorder exactly where indexing exec records was asked
/// for, and an external replay exactly where the selector's flag asked to show them (for a
/// database and session path that are not themselves that option).
pub proof fn lemma_include_exec_passed_on(
    db: Seq<char>,
    path: Seq<char>,
    include_subsessions: bool,
    include_empty_messages: bool,
    include_exec: bool,
)
    requires
        db != "--include-exec"@,
        path != "--include-exec"@,
    ensures
        record_args(db, include_subsessions, include_empty_messages, include_exec).contains(
            "--include-exec"@,
        ) == include_exec,
        replay_args(
            path,
            if include_exec {
                ExecVisibility::Shown
            } else {
                ExecVisibility::Hidden
            },
        ).contains("--include-exec"@) == include_exec,
{
    reveal_strlit("--include-exec");
    reveal_strlit("--include-subsessions");
    reveal_strlit("--include-empty-messages");
    reveal_strlit("--output");
    let flag = "--include-exec"@;
    let args = record_args(db, include_subsessions, include_empty_messages, include_exec);
    if include_exec {
        assert(args[args.len() - 1] == flag);
    } else {
        assert forall|i: int| 0 <= i < args.len() implies args[i] != flag by {
            if i == 0 {
                assert(args[i].len() != flag.len());
            } else if i == 1 {
            } else {
                assert(args[i] == "--include-subsessions"@ || args[i] == "--include-empty-messages"@);
                assert(args[i].len() != flag.len());
            }
        }
    }
    let vis = if include_exec {
        ExecVisibility::Shown
    } else {
        ExecVisibility::Hidden
    };
    let rargs = replay_args(path, vis);
    if include_exec {
        assert(rargs[0] == flag);
    } else {
        assert(rargs =~= seq![path]);
        assert forall|i: int| 0 <= i < rargs.len() implies rargs[i] != flag by {}
    }
}

} // verus!
