//! The decisions of an incremental refresh: which source logs a scan reads again, which it
//! drops, which session row it writes, and how each write is entered in the refresh's delta.

use vstd::prelude::*;

use crate::indexer::{
    classify_source, deleted_paths, missing_paths, normalized_keys, source_action,
    DeltaView, FileFingerprint, IndexDelta, ScanCounts, SourceAction,
};
use crate::listing::string_views;
use crate::store::{ExecChange, RowChange};

verus! {

/// A source log's path with a fingerprint: as the index stores it, or as a scan finds it.
#[derive(Debug, Clone, PartialEq, Eq)]
pub struct SourceEntry {
    pub path: String,
    pub fingerprint: FileFingerprint,
}

/// The paths of source entries.
pub open spec fn entry_paths(es: Seq<SourceEntry>) -> Seq<Seq<char>> {
    es.map_values(|e: SourceEntry| e.path@)
}

/// The fingerprint that the index holds for `path`: that of the first entry with the path.
pub open spec fn stored_fingerprint(stored: Seq<SourceEntry>, path: Seq<char>) -> Option<FileFingerprint>
    decreases stored.len(),
{
    if stored.len() == 0 {
        None
    } else if stored[0].path@ == path {
        Some(stored[0].fingerprint)
    } else {
        stored_fingerprint(stored.drop_first(), path)
    }
}

/// What a scan does with each log it found, in the order it found them.
pub open spec fn scan_actions(stored: Seq<SourceEntry>, current: Seq<SourceEntry>, force_all: bool) -> Seq<SourceAction> {
    current.map_values(
        |c: SourceEntry| source_action(stored_fingerprint(stored, c.path@), c.fingerprint, force_all),
    )
}

/// What a scan decided: an action for each log found, and the stored paths no longer found.
#[derive(Debug, Clone, PartialEq, Eq)]
pub struct ScanDecision {
    pub actions: Vec<SourceAction>,
    pub deleted: Vec<String>,
}

/// The fingerprint that the index holds for `path` (see [`stored_fingerprint`]).
pub fn fingerprint_for(stored: &[SourceEntry], path: &String) -> (r: Option<FileFingerprint>)
    ensures
        r == stored_fingerprint(stored@, path@),
{
    let mut i: usize = 0;
    assert(stored@.skip(0) =~= stored@);
    while i < stored.len()
        invariant
            i <= stored@.len(),
            stored_fingerprint(stored@, path@) == stored_fingerprint(stored@.skip(i as int), path@),
        decreases stored.len() - i,
    {
        assert(stored@.skip(i as int)[0] == stored@[i as int]);
        assert(stored@.skip(i as int).drop_first() =~= stored@.skip(i + 1));
        if stored[i].path.eq(path) {
            return Some(stored[i].fingerprint);
        }
        i = i + 1;
    }
    None
}

/// The paths of source entries, in order.
pub fn paths_of(es: &[SourceEntry]) -> (r: Vec<String>)
    ensures
        string_views(r@) == entry_paths(es@),
{
    let mut out: Vec<String> = Vec::new();
    let mut i: usize = 0;
    while i < es.len()
        invariant
            i <= es@.len(),
            string_views(out@) == entry_paths(es@.take(i as int)),
        decreases es.len() - i,
    {
        let ghost before = string_views(out@);
        out.push(es[i].path.clone());
        assert(string_views(out@) =~= before.push(es@[i as int].path@));
        assert(entry_paths(es@.take(i + 1)) =~= entry_paths(es@.take(i as int)).push(es@[i as int].path@));
        i = i + 1;
    }
    assert(es@.take(es@.len() as int) =~= es@);
    out
}

/// Decides a scan: each log found is classified against the fingerprint the index holds for
/// its path, and the stored paths that were not found are dropped.
pub fn plan_scan(stored: &[SourceEntry], current: &[SourceEntry], force_all: bool) -> (r: ScanDecision)
    ensures
        r.actions@ == scan_actions(stored@, current@, force_all),
        string_views(r.deleted@) == missing_paths(entry_paths(stored@), entry_paths(current@)),
{
    let mut actions: Vec<SourceAction> = Vec::new();
    let mut i: usize = 0;
    while i < current.len()
        invariant
            i <= current@.len(),
            actions@ == scan_actions(stored@, current@.take(i as int), force_all),
        decreases current.len() - i,
    {
        let known = fingerprint_for(stored, &current[i].path);
        actions.push(classify_source(known, current[i].fingerprint, force_all));
        assert(scan_actions(stored@, current@.take(i + 1), force_all) =~= scan_actions(
            stored@,
            current@.take(i as int),
            force_all,
        ).push(source_action(stored_fingerprint(stored@, current@[i as int].path@), current@[i as int].fingerprint, force_all)));
        i = i + 1;
    }
    assert(current@.take(current@.len() as int) =~= current@);
    let stored_paths = paths_of(stored);
    let current_paths = paths_of(current);
    ScanDecision { actions, deleted: deleted_paths(&stored_paths, &current_paths) }
}

/// The index holds exactly the logs found: each with the fingerprint found, and no other path.
pub open spec fn index_matches(stored: Seq<SourceEntry>, current: Seq<SourceEntry>) -> bool {
    &&& forall|i: int| 0 <= i < current.len() ==> stored_fingerprint(stored, (#[trigger] current[i]).path@) == Some(current[i].fingerprint)
    &&& forall|j: int| 0 <= j < stored.len() ==> entry_paths(current).contains((#[trigger] stored[j]).path@)
}

proof fn lemma_nothing_missing(stored: Seq<Seq<char>>, current: Seq<Seq<char>>)
    requires
        forall|j: int| 0 <= j < stored.len() ==> current.contains(#[trigger] stored[j]),
    ensures
        missing_paths(stored, current) == Seq::<Seq<char>>::empty(),
    decreases stored.len(),
{
    if stored.len() > 0 {
        let p = stored.drop_last();
        assert forall|j: int| 0 <= j < p.len() implies current.contains(#[trigger] p[j]) by {
            assert(p[j] == stored[j]);
        }
        lemma_nothing_missing(p, current);
        assert(current.contains(stored[stored.len() - 1]));
    }
}

/// A refresh over logs that the index holds as they are, with nothing forced, reads no log
/// again and drops no path: every log found is unchanged.
pub proof fn lemma_unchanged_logs_plan_nothing(stored: Seq<SourceEntry>, current: Seq<SourceEntry>)
    requires
        index_matches(stored, current),
    ensures
        forall|i: int| 0 <= i < current.len() ==> #[trigger] scan_actions(stored, current, false)[i] == SourceAction::Unchanged,
        missing_paths(entry_paths(stored), entry_paths(current)) == Seq::<Seq<char>>::empty(),
{
    assert forall|i: int| 0 <= i < current.len() implies #[trigger] scan_actions(stored, current, false)[i]
        == SourceAction::Unchanged by {
        assert(stored_fingerprint(stored, current[i].path@) == Some(current[i].fingerprint));
    }
    let sp = entry_paths(stored);
    assert forall|j: int| 0 <= j < sp.len() implies entry_paths(current).contains(#[trigger] sp[j]) by {
        assert(sp[j] == stored[j].path@);
    }
    lemma_nothing_missing(sp, entry_paths(current));
}

/// What became of one log found by a scan.
#[derive(Debug, Clone, Copy, PartialEq, Eq, Structural)]
pub enum ScanOutcome {
    /// The index holds it as it is.
    Unchanged,
    /// It was read, and the index did not know it.
    New,
    /// It was read, and the index held an earlier state of it.
    Changed,
    /// It kept changing while it was read, so it was left as the index holds it.
    Unstable,
}

/// The outcome of a log from the scan's action and whether reading it gave a stable result.
pub open spec fn outcome_for(action: SourceAction, stable: bool) -> ScanOutcome {
    match action {
        SourceAction::Unchanged => ScanOutcome::Unchanged,
        SourceAction::Parse { known } => if !stable {
            ScanOutcome::Unstable
        } else if known {
            ScanOutcome::Changed
        } else {
            ScanOutcome::New
        },
    }
}

/// The outcome of a log (see [`outcome_for`]).
pub fn scan_outcome(action: SourceAction, stable: bool) -> (r: ScanOutcome)
    ensures
        r == outcome_for(action, stable),
{
    match action {
        SourceAction::Unchanged => ScanOutcome::Unchanged,
        SourceAction::Parse { known } => if !stable {
            ScanOutcome::Unstable
        } else if known {
            ScanOutcome::Changed
        } else {
            ScanOutcome::New
        },
    }
}

/// How many of the outcomes are `o`.
pub open spec fn outcome_count(os: Seq<ScanOutcome>, o: ScanOutcome) -> nat
    decreases os.len(),
{
    if os.len() == 0 {
        0
    } else {
        outcome_count(os.drop_last(), o) + if os.last() == o {
            1nat
        } else {
            0nat
        }
    }
}

proof fn lemma_outcome_count_bound(os: Seq<ScanOutcome>, o: ScanOutcome)
    ensures
        outcome_count(os, o) <= os.len(),
    decreases os.len(),
{
    if os.len() > 0 {
        lemma_outcome_count_bound(os.drop_last(), o);
    }
}

/// The counts of a scan: every log found, each outcome, and the paths dropped.
pub fn tally_scan(outcomes: &[ScanOutcome], deleted: usize) -> (r: ScanCounts)
    ensures
        r.scanned_files == outcomes@.len(),
        r.new_files == outcome_count(outcomes@, ScanOutcome::New),
        r.changed_files == outcome_count(outcomes@, ScanOutcome::Changed),
        r.unchanged_files == outcome_count(outcomes@, ScanOutcome::Unchanged),
        r.unstable_files == outcome_count(outcomes@, ScanOutcome::Unstable),
        r.deleted_files == deleted,
{
    let mut new_files: usize = 0;
    let mut changed_files: usize = 0;
    let mut unchanged_files: usize = 0;
    let mut unstable_files: usize = 0;
    let mut i: usize = 0;
    while i < outcomes.len()
        invariant
            i <= outcomes@.len(),
            new_files == outcome_count(outcomes@.take(i as int), ScanOutcome::New),
            changed_files == outcome_count(outcomes@.take(i as int), ScanOutcome::Changed),
            unchanged_files == outcome_count(outcomes@.take(i as int), ScanOutcome::Unchanged),
            unstable_files == outcome_count(outcomes@.take(i as int), ScanOutcome::Unstable),
        decreases outcomes.len() - i,
    {
        let ghost before = outcomes@.take(i as int);
        assert(outcomes@.take(i + 1).drop_last() =~= before);
        proof {
            lemma_outcome_count_bound(before, ScanOutcome::New);
            lemma_outcome_count_bound(before, ScanOutcome::Changed);
            lemma_outcome_count_bound(before, ScanOutcome::Unchanged);
            lemma_outcome_count_bound(before, ScanOutcome::Unstable);
        }
        match outcomes[i] {
            ScanOutcome::New => new_files = new_files + 1,
            ScanOutcome::Changed => changed_files = changed_files + 1,
            ScanOutcome::Unchanged => unchanged_files = unchanged_files + 1,
            ScanOutcome::Unstable => unstable_files = unstable_files + 1,
        }
        i = i + 1;
    }
    assert(outcomes@.take(outcomes@.len() as int) =~= outcomes@);
    ScanCounts {
        scanned_files: outcomes.len(),
        new_files,
        changed_files,
        unchanged_files,
        deleted_files: deleted,
        unstable_files,
    }
}

/// The outcomes of the logs found, from the scan's actions and the stability of each read.
pub open spec fn scan_outcomes(actions: Seq<SourceAction>, stable: Seq<bool>) -> Seq<ScanOutcome> {
    Seq::new(actions.len(), |i: int| outcome_for(actions[i], stable[i]))
}

proof fn lemma_all_unchanged_count(os: Seq<ScanOutcome>, o: ScanOutcome)
    requires
        forall|i: int| 0 <= i < os.len() ==> os[i] == ScanOutcome::Unchanged,
    ensures
        outcome_count(os, o) == if o == ScanOutcome::Unchanged {
            os.len()
        } else {
            0
        },
    decreases os.len(),
{
    if os.len() > 0 {
        let p = os.drop_last();
        assert forall|i: int| 0 <= i < p.len() implies p[i] == ScanOutcome::Unchanged by {
            assert(p[i] == os[i]);
        }
        lemma_all_unchanged_count(p, o);
    }
}

/// A refresh over logs that the index holds as they are, with nothing forced, counts every log
/// found as unchanged and none as new, changed, unstable or deleted, so it parses no file; and
/// an empty list of keys stays empty when the delta is put in order.
pub proof fn lemma_unchanged_refresh_reports_nothing(
    stored: Seq<SourceEntry>,
    current: Seq<SourceEntry>,
    stable: Seq<bool>,
    keys: Seq<i64>,
)
    requires
        index_matches(stored, current),
        stable.len() == current.len(),
        normalized_keys(Seq::empty(), keys),
    ensures
        ({
            let os = scan_outcomes(scan_actions(stored, current, false), stable);
            &&& outcome_count(os, ScanOutcome::Unchanged) == current.len()
            &&& outcome_count(os, ScanOutcome::New) == 0
            &&& outcome_count(os, ScanOutcome::Changed) == 0
            &&& outcome_count(os, ScanOutcome::Unstable) == 0
        }),
        missing_paths(entry_paths(stored), entry_paths(current)).len() == 0,
        keys == Seq::<i64>::empty(),
{
    lemma_unchanged_logs_plan_nothing(stored, current);
    let acts = scan_actions(stored, current, false);
    let os = scan_outcomes(acts, stable);
    assert forall|i: int| 0 <= i < os.len() implies os[i] == ScanOutcome::Unchanged by {
        assert(acts[i] == SourceAction::Unchanged);
    }
    lemma_all_unchanged_count(os, ScanOutcome::Unchanged);
    lemma_all_unchanged_count(os, ScanOutcome::New);
    lemma_all_unchanged_count(os, ScanOutcome::Changed);
    lemma_all_unchanged_count(os, ScanOutcome::Unstable);
    if keys.len() > 0 {
        assert(keys.contains(keys[0]));
        assert(!Seq::<i64>::empty().contains(keys[0]));
    }
}

/// What a refresh writes for a parsed session's row.
#[derive(Debug, Clone, Copy, PartialEq, Eq, Structural)]
pub enum SessionWrite {
    /// A new row, under a key the index gives it.
    Insert,
    /// The stored row under this key is rewritten.
    Update(i64),
    /// The stored row under this key stays as it is.
    Keep(i64),
}

/// The write for a row change: an insert where the index holds no row for the log, else the
/// change applied to the stored row's key.
pub open spec fn write_for(change: RowChange, existing: Option<i64>) -> SessionWrite {
    match existing {
        None => SessionWrite::Insert,
        Some(k) => match change {
            RowChange::Insert => SessionWrite::Insert,
            RowChange::Update => SessionWrite::Update(k),
            RowChange::Keep => SessionWrite::Keep(k),
        },
    }
}

/// The write for a row change (see [`write_for`]).
pub fn session_write(change: RowChange, existing: Option<i64>) -> (r: SessionWrite)
    ensures
        r == write_for(change, existing),
{
    match existing {
        None => SessionWrite::Insert,
        Some(k) => match change {
            RowChange::Insert => SessionWrite::Insert,
            RowChange::Update => SessionWrite::Update(k),
            RowChange::Keep => SessionWrite::Keep(k),
        },
    }
}

/// The key of the session that a write leaves in the index; `inserted` is the key an insert got.
pub open spec fn written_key(write: SessionWrite, inserted: i64) -> i64 {
    match write {
        SessionWrite::Insert => inserted,
        SessionWrite::Update(k) => k,
        SessionWrite::Keep(k) => k,
    }
}

/// The delta after a session write: an insert or an update enters its key in its list and in
/// the touched sessions; a kept row enters nothing.
pub open spec fn with_session_write(d: DeltaView, write: SessionWrite, inserted: i64) -> DeltaView {
    match write {
        SessionWrite::Insert => DeltaView {
            inserted_session_keys: d.inserted_session_keys.push(inserted),
            touched_session_keys: d.touched_session_keys.push(inserted),
            ..d
        },
        SessionWrite::Update(k) => DeltaView {
            updated_session_keys: d.updated_session_keys.push(k),
            touched_session_keys: d.touched_session_keys.push(k),
            ..d
        },
        SessionWrite::Keep(_) => d,
    }
}

/// Enters a session write in the delta and gives the key of the session written.
pub fn record_session_write(write: SessionWrite, inserted: i64, delta: &mut IndexDelta) -> (key: i64)
    ensures
        key == written_key(write, inserted),
        final(delta)@ == with_session_write(old(delta)@, write, inserted),
{
    match write {
        SessionWrite::Insert => {
            delta.inserted_session_keys.push(inserted);
            delta.touched_session_keys.push(inserted);
            inserted
        },
        SessionWrite::Update(k) => {
            delta.updated_session_keys.push(k);
            delta.touched_session_keys.push(k);
            k
        },
        SessionWrite::Keep(k) => k,
    }
}

/// The delta after an exec change of the session `session`: the change's key enters the list
/// of its kind (`inserted` is the key an insert got), and the session enters the touched ones.
pub open spec fn with_exec_change(d: DeltaView, change: ExecChange, inserted: i64, session: i64) -> DeltaView {
    let touched = d.touched_session_keys.push(session);
    match change {
        ExecChange::Insert(_) => DeltaView {
            inserted_exec_keys: d.inserted_exec_keys.push(inserted),
            touched_session_keys: touched,
            ..d
        },
        ExecChange::Update(k, _) => DeltaView {
            updated_exec_keys: d.updated_exec_keys.push(k),
            touched_session_keys: touched,
            ..d
        },
        ExecChange::Delete(k) => DeltaView {
            deleted_exec_keys: d.deleted_exec_keys.push(k),
            touched_session_keys: touched,
            ..d
        },
    }
}

/// Enters an exec change of a session in the delta (see [`with_exec_change`]).
pub fn record_exec_change(change: &ExecChange, inserted: i64, session: i64, delta: &mut IndexDelta)
    ensures
        final(delta)@ == with_exec_change(old(delta)@, *change, inserted, session),
{
    match change {
        ExecChange::Insert(_) => delta.inserted_exec_keys.push(inserted),
        ExecChange::Update(k, _) => delta.updated_exec_keys.push(*k),
        ExecChange::Delete(k) => delta.deleted_exec_keys.push(*k),
    }
    delta.touched_session_keys.push(session);
}

/// The delta after a session and its exec events leave the index.
pub open spec fn with_session_removal(d: DeltaView, session: i64, exec_keys: Seq<i64>) -> DeltaView {
    DeltaView {
        deleted_exec_keys: d.deleted_exec_keys + exec_keys,
        deleted_session_keys: d.deleted_session_keys.push(session),
        touched_session_keys: d.touched_session_keys.push(session),
        ..d
    }
}

/// Enters in the delta a session that leaves the index with the exec events under `exec_keys`.
pub fn record_session_removal(session: i64, exec_keys: &[i64], delta: &mut IndexDelta)
    ensures
        final(delta)@ == with_session_removal(old(delta)@, session, exec_keys@),
{
    let mut i: usize = 0;
    let ghost start = delta.deleted_exec_keys@;
    while i < exec_keys.len()
        invariant
            i <= exec_keys@.len(),
            delta@ == (DeltaView { deleted_exec_keys: start + exec_keys@.take(i as int), ..old(delta)@ }),
            start == old(delta)@.deleted_exec_keys,
        decreases exec_keys.len() - i,
    {
        delta.deleted_exec_keys.push(exec_keys[i]);
        assert(start + exec_keys@.take(i + 1) =~= (start + exec_keys@.take(i as int)).push(exec_keys@[i as int]));
        i = i + 1;
    }
    assert(exec_keys@.take(exec_keys@.len() as int) =~= exec_keys@);
    delta.deleted_session_keys.push(session);
    delta.touched_session_keys.push(session);
}

} // verus!
