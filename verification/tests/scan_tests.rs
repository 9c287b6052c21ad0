use codex_session_selector::exec_events::ExecEvent;
use codex_session_selector::indexer::{FileFingerprint, IndexDelta, SourceAction};
use codex_session_selector::refresh::{
    fingerprint_for, plan_scan, record_exec_change, record_session_removal, record_session_write,
    scan_outcome, session_write, tally_scan, ScanOutcome, SessionWrite, SourceEntry,
};
use codex_session_selector::store::{ExecChange, RowChange};

fn print(size: u64, secs: i64) -> FileFingerprint {
    FileFingerprint { size, modified_secs: secs, modified_nanos: 7 }
}

fn entry(path: &str, size: u64, secs: i64) -> SourceEntry {
    SourceEntry { path: path.to_string(), fingerprint: print(size, secs) }
}

fn exec(index: usize) -> ExecEvent {
    ExecEvent {
        session_path: "/s/a.jsonl".to_string(),
        session_id: None,
        event_index: index,
        call_id: None,
        kind: "exec_command_end".to_string(),
        name: None,
        command: "pwd".to_string(),
        output: "/tmp".to_string(),
    }
}

#[test]
fn stored_fingerprint_is_found_by_path() {
    let stored = vec![entry("/s/a.jsonl", 10, 1), entry("/s/b.jsonl", 20, 2)];
    assert_eq!(fingerprint_for(&stored, &"/s/b.jsonl".to_string()), Some(print(20, 2)));
    assert_eq!(fingerprint_for(&stored, &"/s/c.jsonl".to_string()), None);
}

#[test]
fn unchanged_logs_plan_nothing() {
    let stored = vec![entry("/s/a.jsonl", 10, 1), entry("/s/b.jsonl", 20, 2)];
    let found = vec![entry("/s/b.jsonl", 20, 2), entry("/s/a.jsonl", 10, 1)];
    let decision = plan_scan(&stored, &found, false);
    assert_eq!(decision.actions, vec![SourceAction::Unchanged, SourceAction::Unchanged]);
    assert!(decision.deleted.is_empty());
    let forced = plan_scan(&stored, &found, true);
    assert_eq!(forced.actions, vec![SourceAction::Parse { known: true }, SourceAction::Parse { known: true }]);
}

#[test]
fn scan_reads_new_and_changed_logs_and_drops_missing_ones() {
    let stored = vec![entry("/s/a.jsonl", 10, 1), entry("/s/b.jsonl", 20, 2), entry("/s/c.jsonl", 5, 3)];
    let found = vec![entry("/s/a.jsonl", 11, 1), entry("/s/b.jsonl", 20, 2), entry("/s/d.jsonl", 1, 1)];
    let decision = plan_scan(&stored, &found, false);
    assert_eq!(
        decision.actions,
        vec![SourceAction::Parse { known: true }, SourceAction::Unchanged, SourceAction::Parse { known: false }]
    );
    assert_eq!(decision.deleted, vec!["/s/c.jsonl".to_string()]);
}

#[test]
fn session_writes_follow_row_changes() {
    assert_eq!(session_write(RowChange::Insert, None), SessionWrite::Insert);
    assert_eq!(session_write(RowChange::Keep, None), SessionWrite::Insert);
    assert_eq!(session_write(RowChange::Update, Some(4)), SessionWrite::Update(4));
    assert_eq!(session_write(RowChange::Keep, Some(4)), SessionWrite::Keep(4));
}

#[test]
fn writes_are_entered_in_the_delta() {
    let mut delta = IndexDelta::default();
    assert_eq!(record_session_write(SessionWrite::Keep(3), 99, &mut delta), 3);
    assert_eq!(delta, IndexDelta::default());
    assert_eq!(record_session_write(SessionWrite::Insert, 9, &mut delta), 9);
    assert_eq!(record_session_write(SessionWrite::Update(3), 99, &mut delta), 3);
    assert_eq!(delta.inserted_session_keys, vec![9]);
    assert_eq!(delta.updated_session_keys, vec![3]);
    assert_eq!(delta.touched_session_keys, vec![9, 3]);

    record_exec_change(&ExecChange::Insert(exec(0)), 40, 9, &mut delta);
    record_exec_change(&ExecChange::Update(41, exec(1)), 0, 3, &mut delta);
    record_exec_change(&ExecChange::Delete(42), 0, 3, &mut delta);
    assert_eq!(delta.inserted_exec_keys, vec![40]);
    assert_eq!(delta.updated_exec_keys, vec![41]);
    assert_eq!(delta.deleted_exec_keys, vec![42]);
    assert_eq!(delta.touched_session_keys, vec![9, 3, 9, 3, 3]);

    record_session_removal(5, &[50, 51], &mut delta);
    assert_eq!(delta.deleted_exec_keys, vec![42, 50, 51]);
    assert_eq!(delta.deleted_session_keys, vec![5]);
    assert_eq!(delta.touched_session_keys, vec![9, 3, 9, 3, 3, 5]);
    assert!(delta.inserted_message_keys.is_empty());
}

#[test]
fn scan_outcomes_are_counted() {
    assert_eq!(scan_outcome(SourceAction::Unchanged, false), ScanOutcome::Unchanged);
    assert_eq!(scan_outcome(SourceAction::Parse { known: true }, true), ScanOutcome::Changed);
    assert_eq!(scan_outcome(SourceAction::Parse { known: false }, true), ScanOutcome::New);
    assert_eq!(scan_outcome(SourceAction::Parse { known: true }, false), ScanOutcome::Unstable);
    let outcomes = vec![
        ScanOutcome::Unchanged,
        ScanOutcome::New,
        ScanOutcome::Changed,
        ScanOutcome::Unchanged,
        ScanOutcome::Unstable,
    ];
    let counts = tally_scan(&outcomes, 3);
    assert_eq!(counts.scanned_files, 5);
    assert_eq!(counts.new_files, 1);
    assert_eq!(counts.changed_files, 1);
    assert_eq!(counts.unchanged_files, 2);
    assert_eq!(counts.unstable_files, 1);
    assert_eq!(counts.deleted_files, 3);
}

#[test]
fn unchanged_refresh_counts_every_log_as_unchanged() {
    let stored = vec![entry("/s/a.jsonl", 10, 1), entry("/s/b.jsonl", 20, 2)];
    let found = vec![entry("/s/a.jsonl", 10, 1), entry("/s/b.jsonl", 20, 2)];
    let decision = plan_scan(&stored, &found, false);
    let outcomes: Vec<ScanOutcome> = decision.actions.iter().map(|a| scan_outcome(*a, true)).collect();
    let counts = tally_scan(&outcomes, decision.deleted.len());
    assert_eq!(counts.unchanged_files, 2);
    assert_eq!(counts.new_files + counts.changed_files + counts.unstable_files + counts.deleted_files, 0);
}
