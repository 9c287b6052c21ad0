//! What an incremental refresh changes in the index for one session: whether its row is
//! written again, and which of its exec events are inserted, updated or deleted.

use vstd::prelude::*;

use crate::exec_events::{ExecEvent, ExecEventView, event_views};
use crate::session::SessionRow;
use crate::text::copy_opt;

verus! {

/// Whether two optional texts are equal.
fn opt_text_eq(a: &Option<String>, b: &Option<String>) -> (r: bool)
    ensures
        r == (crate::text::opt_view(*a) == crate::text::opt_view(*b)),
{
    match (a, b) {
        (Some(x), Some(y)) => x.eq(y),
        (None, None) => true,
        _ => false,
    }
}

/// Whether two rows hold the same values.
pub fn rows_equal(a: &SessionRow, b: &SessionRow) -> (r: bool)
    ensures
        r == (a@ == b@),
{
    a.path.eq(&b.path) && opt_text_eq(&a.id, &b.id) && opt_text_eq(&a.timestamp, &b.timestamp)
        && opt_text_eq(&a.cwd, &b.cwd) && opt_text_eq(&a.repository_url, &b.repository_url)
        && opt_text_eq(&a.branch, &b.branch) && a.first_message.eq(&b.first_message)
        && a.is_subsession == b.is_subsession
}

/// Whether two exec events hold the same values.
pub fn events_equal(a: &ExecEvent, b: &ExecEvent) -> (r: bool)
    ensures
        r == (a@ == b@),
{
    a.session_path.eq(&b.session_path) && opt_text_eq(&a.session_id, &b.session_id) && a.event_index
        == b.event_index && opt_text_eq(&a.call_id, &b.call_id) && a.kind.eq(&b.kind) && opt_text_eq(
        &a.name,
        &b.name,
    ) && a.command.eq(&b.command) && a.output.eq(&b.output)
}

/// A copy of an exec event.
pub fn copy_event(e: &ExecEvent) -> (r: ExecEvent)
    ensures
        r@ == e@,
{
    ExecEvent {
        session_path: e.session_path.clone(),
        session_id: copy_opt(&e.session_id),
        event_index: e.event_index,
        call_id: copy_opt(&e.call_id),
        kind: e.kind.clone(),
        name: copy_opt(&e.name),
        command: e.command.clone(),
        output: e.output.clone(),
    }
}

/// An exec event as the index holds it, with its key.
#[derive(Debug, Clone, PartialEq, Eq)]
pub struct StoredExec {
    pub key: i64,
    pub event: ExecEvent,
}

/// A change to a session's exec events in the index.
#[derive(Debug, Clone, PartialEq, Eq)]
pub enum ExecChange {
    Insert(ExecEvent),
    Update(i64, ExecEvent),
    Delete(i64),
}

/// A stored exec event as a mathematical value.
pub struct StoredView {
    pub key: i64,
    pub event: ExecEventView,
}

/// A change as a mathematical value.
pub enum ChangeView {
    Insert(ExecEventView),
    Update(i64, ExecEventView),
    Delete(i64),
}

/// The views of stored exec events.
pub open spec fn stored_views(s: Seq<StoredExec>) -> Seq<StoredView> {
    s.map_values(|x: StoredExec| StoredView { key: x.key, event: x.event@ })
}

/// The views of changes.
pub open spec fn change_views(s: Seq<ExecChange>) -> Seq<ChangeView> {
    s.map_values(
        |c: ExecChange|
            match c {
                ExecChange::Insert(e) => ChangeView::Insert(e@),
                ExecChange::Update(k, e) => ChangeView::Update(k, e@),
                ExecChange::Delete(k) => ChangeView::Delete(k),
            },
    )
}

/// The event index of the first event that repeats the index of an earlier one.
pub open spec fn first_duplicate(events: Seq<ExecEventView>) -> Option<int>
    decreases events.len(),
{
    if events.len() == 0 {
        None
    } else {
        match first_duplicate(events.drop_last()) {
            Some(x) => Some(x),
            None => if exists|i: int| 0 <= i < events.len() - 1 && #[trigger] events[i].event_index == events.last().event_index {
                Some(events.last().event_index)
            } else {
                None
            },
        }
    }
}

/// `e` placed after the events whose index is not above its own.
pub open spec fn insert_by_index(sorted: Seq<ExecEventView>, e: ExecEventView) -> Seq<ExecEventView>
    decreases sorted.len(),
{
    if sorted.len() == 0 {
        seq![e]
    } else if e.event_index < sorted[0].event_index {
        seq![e] + sorted
    } else {
        seq![sorted[0]] + insert_by_index(sorted.drop_first(), e)
    }
}

/// The events in increasing order of their index.
pub open spec fn sorted_by_index(events: Seq<ExecEventView>) -> Seq<ExecEventView>
    decreases events.len(),
{
    if events.len() == 0 {
        Seq::empty()
    } else {
        insert_by_index(sorted_by_index(events.drop_last()), events.last())
    }
}

/// The first stored event with index `index`.
pub open spec fn stored_at(stored: Seq<StoredView>, index: int) -> Option<StoredView>
    decreases stored.len(),
{
    if stored.len() == 0 {
        None
    } else if stored[0].event.event_index == index {
        Some(stored[0])
    } else {
        stored_at(stored.drop_first(), index)
    }
}

/// For each parsed event, in the given order: an insert where none is stored at its index, an
/// update of the stored one where that differs, and nothing where it is the same.
pub open spec fn upserts(stored: Seq<StoredView>, events: Seq<ExecEventView>) -> Seq<ChangeView>
    decreases events.len(),
{
    if events.len() == 0 {
        Seq::empty()
    } else {
        let prev = upserts(stored, events.drop_last());
        let e = events.last();
        match stored_at(stored, e.event_index) {
            None => prev.push(ChangeView::Insert(e)),
            Some(s) => if s.event == e {
                prev
            } else {
                prev.push(ChangeView::Update(s.key, e))
            },
        }
    }
}

/// The stored events, in stored order, whose index no parsed event has, as deletions.
pub open spec fn removals(stored: Seq<StoredView>, events: Seq<ExecEventView>) -> Seq<ChangeView>
    decreases stored.len(),
{
    if stored.len() == 0 {
        Seq::empty()
    } else {
        let prev = removals(stored.drop_last(), events);
        if exists|i: int| 0 <= i < events.len() && #[trigger] events[i].event_index == stored.last().event.event_index {
            prev
        } else {
            prev.push(ChangeView::Delete(stored.last().key))
        }
    }
}

/// The changes that bring a session's stored exec events to the parsed ones: refused with the
/// repeated index where two parsed events share one; else the inserts and updates in increasing
/// index order, then the deletions of stored events no parsed event replaces.
pub open spec fn exec_diff(stored: Seq<StoredView>, events: Seq<ExecEventView>) -> Result<Seq<ChangeView>, int> {
    match first_duplicate(events) {
        Some(x) => Err(x),
        None => Ok(upserts(stored, sorted_by_index(events)) + removals(stored, events)),
    }
}

/// The position before which `e` goes: the first event with a greater index.
spec fn insert_position(sorted: Seq<ExecEventView>, e: ExecEventView) -> int
    decreases sorted.len(),
{
    if sorted.len() == 0 {
        0
    } else if e.event_index < sorted[0].event_index {
        0
    } else {
        1 + insert_position(sorted.drop_first(), e)
    }
}

proof fn lemma_insert_position(sorted: Seq<ExecEventView>, e: ExecEventView, p: int)
    requires
        0 <= p <= sorted.len(),
        forall|k: int| 0 <= k < p ==> !(e.event_index < #[trigger] sorted[k].event_index),
        p < sorted.len() ==> e.event_index < sorted[p].event_index,
    ensures
        insert_by_index(sorted, e) == sorted.take(p).push(e) + sorted.skip(p),
    decreases sorted.len(),
{
    if sorted.len() == 0 {
        assert(sorted.take(p).push(e) + sorted.skip(p) =~= seq![e]);
    } else if p == 0 {
        assert(sorted.take(p).push(e) + sorted.skip(p) =~= seq![e] + sorted);
    } else {
        let t = sorted.drop_first();
        assert forall|k: int| 0 <= k < p - 1 implies !(e.event_index < #[trigger] t[k].event_index) by {
            assert(t[k] == sorted[k + 1]);
        }
        if p - 1 < t.len() {
            assert(t[p - 1] == sorted[p]);
        }
        assert(!(e.event_index < sorted[0].event_index));
        lemma_insert_position(t, e, p - 1);
        assert(seq![sorted[0]] + (t.take(p - 1).push(e) + t.skip(p - 1)) =~= sorted.take(p).push(e)
            + sorted.skip(p));
    }
}

/// Whether some parsed event has index `index`.
fn parsed_has_index(events: &[ExecEvent], index: usize) -> (r: bool)
    ensures
        r == exists|i: int| 0 <= i < events@.len() && #[trigger] event_views(events@)[i].event_index == index,
{
    let mut i: usize = 0;
    while i < events.len()
        invariant
            i <= events@.len(),
            forall|k: int| 0 <= k < i ==> #[trigger] event_views(events@)[k].event_index != index,
        decreases events.len() - i,
    {
        assert(event_views(events@)[i as int] == events@[i as int]@);
        if events[i].event_index == index {
            assert(event_views(events@)[i as int].event_index == index);
            return true;
        }
        i = i + 1;
    }
    false
}

/// The first stored event with index `index` (see [`stored_at`]).
fn find_stored(stored: &[StoredExec], index: usize) -> (r: Option<usize>)
    ensures
        match r {
            Some(k) => k < stored@.len() && stored_at(stored_views(stored@), index as int) == Some(
                stored_views(stored@)[k as int],
            ),
            None => stored_at(stored_views(stored@), index as int) is None,
        },
{
    let ghost sv = stored_views(stored@);
    let mut i: usize = 0;
    assert(sv.skip(0) =~= sv);
    while i < stored.len()
        invariant
            i <= stored@.len(),
            sv == stored_views(stored@),
            stored_at(sv, index as int) == stored_at(sv.skip(i as int), index as int),
        decreases stored.len() - i,
    {
        assert(sv.skip(i as int)[0] == sv[i as int]);
        assert(sv.skip(i as int).drop_first() =~= sv.skip(i + 1));
        if stored[i].event.event_index == index {
            return Some(i);
        }
        i = i + 1;
    }
    None
}

/// The changes that bring a session's stored exec events to the parsed ones (see
/// [`exec_diff`]); the stored events come in increasing index order, as the index lists them.
pub fn plan_exec_diff(stored: &[StoredExec], parsed: &[ExecEvent]) -> (r: Result<Vec<ExecChange>, usize>)
    ensures
        match r {
            Ok(cs) => exec_diff(stored_views(stored@), event_views(parsed@)) == Ok::<Seq<ChangeView>, int>(
                change_views(cs@),
            ),
            Err(x) => exec_diff(stored_views(stored@), event_views(parsed@)) == Err::<Seq<ChangeView>, int>(
                x as int,
            ),
        },
{
    let ghost pv = event_views(parsed@);
    let ghost sv = stored_views(stored@);
    // Refuse a repeated index, reporting the first repetition.
    let mut j: usize = 0;
    assert(pv.take(0) =~= Seq::<ExecEventView>::empty());
    while j < parsed.len()
        invariant
            j <= parsed@.len(),
            pv == event_views(parsed@),
            first_duplicate(pv.take(j as int)) is None,
        decreases parsed.len() - j,
    {
        let ghost pre = pv.take(j as int);
        let ghost post = pv.take(j + 1);
        assert(post.drop_last() =~= pre);
        assert(post.last() == parsed@[j as int]@);
        let mut i: usize = 0;
        while i < j
            invariant
                i <= j < parsed@.len(),
                pv == event_views(parsed@),
                post == pv.take(j + 1),
                post.len() == j + 1,
                first_duplicate(post.drop_last()) is None,
                post.last() == parsed@[j as int]@,
                forall|k: int| 0 <= k < i ==> #[trigger] post[k].event_index != post.last().event_index,
            decreases j - i,
        {
            assert(post[i as int] == parsed@[i as int]@);
            if parsed[i].event_index == parsed[j].event_index {
                assert(post[i as int].event_index == post.last().event_index);
                proof {
                    lemma_first_duplicate_prefix(pv, j + 1);
                }
                return Err(parsed[j].event_index);
            }
            i = i + 1;
        }
        j = j + 1;
    }
    assert(pv.take(parsed@.len() as int) =~= pv);
    // Order the parsed events by index.
    let mut sorted: Vec<ExecEvent> = Vec::new();
    let mut m: usize = 0;
    assert(event_views(sorted@) =~= sorted_by_index(pv.take(0)));
    while m < parsed.len()
        invariant
            m <= parsed@.len(),
            pv == event_views(parsed@),
            event_views(sorted@) == sorted_by_index(pv.take(m as int)),
        decreases parsed.len() - m,
    {
        assert(pv.take(m + 1).drop_last() =~= pv.take(m as int));
        assert(pv.take(m + 1).last() == parsed@[m as int]@);
        let e = &parsed[m];
        let ghost before = event_views(sorted@);
        let mut p: usize = 0;
        while p < sorted.len() && !(e.event_index < sorted[p].event_index)
            invariant
                p <= sorted@.len(),
                before == event_views(sorted@),
                forall|k: int| 0 <= k < p ==> !(e@.event_index < #[trigger] before[k].event_index),
            decreases sorted.len() - p,
        {
            assert(before[p as int] == sorted@[p as int]@);
            p = p + 1;
        }
        if p < sorted.len() {
            assert(before[p as int] == sorted@[p as int]@);
        }
        proof {
            lemma_insert_position(before, e@, p as int);
        }
        sorted.insert(p, copy_event(e));
        assert(event_views(sorted@) =~= before.take(p as int).push(e@) + before.skip(p as int));
        m = m + 1;
    }
    assert(pv.take(parsed@.len() as int) =~= pv);
    let ghost sorted_views = event_views(sorted@);
    // Inserts and updates, in index order.
    let mut changes: Vec<ExecChange> = Vec::new();
    let mut k: usize = 0;
    assert(sorted_views.take(0) =~= Seq::<ExecEventView>::empty());
    assert(change_views(changes@) =~= upserts(sv, sorted_views.take(0)));
    while k < sorted.len()
        invariant
            k <= sorted@.len(),
            sorted_views == event_views(sorted@),
            sv == stored_views(stored@),
            change_views(changes@) == upserts(sv, sorted_views.take(k as int)),
        decreases sorted.len() - k,
    {
        assert(sorted_views.take(k + 1).drop_last() =~= sorted_views.take(k as int));
        assert(sorted_views.take(k + 1).last() == sorted@[k as int]@);
        let e = &sorted[k];
        let ghost before = change_views(changes@);
        match find_stored(stored, e.event_index) {
            None => {
                changes.push(ExecChange::Insert(copy_event(e)));
                assert(change_views(changes@) =~= before.push(ChangeView::Insert(e@)));
            },
            Some(at) => {
                let s = &stored[at];
                assert(sv[at as int] == StoredView { key: s.key, event: s.event@ });
                if !events_equal(&s.event, e) {
                    changes.push(ExecChange::Update(s.key, copy_event(e)));
                    assert(change_views(changes@) =~= before.push(ChangeView::Update(s.key, e@)));
                }
            },
        }
        k = k + 1;
    }
    assert(sorted_views.take(sorted@.len() as int) =~= sorted_views);
    let ghost ups = change_views(changes@);
    // Deletions of stored events that no parsed event replaces.
    let mut d: usize = 0;
    assert(sv.take(0) =~= Seq::<StoredView>::empty());
    assert(change_views(changes@) =~= ups + removals(sv.take(0), pv));
    while d < stored.len()
        invariant
            d <= stored@.len(),
            sv == stored_views(stored@),
            pv == event_views(parsed@),
            change_views(changes@) == ups + removals(sv.take(d as int), pv),
        decreases stored.len() - d,
    {
        assert(sv.take(d + 1).drop_last() =~= sv.take(d as int));
        assert(sv.take(d + 1).last() == sv[d as int]);
        let ghost before = change_views(changes@);
        if !parsed_has_index(parsed, stored[d].event.event_index) {
            changes.push(ExecChange::Delete(stored[d].key));
            assert(change_views(changes@) =~= before.push(ChangeView::Delete(stored@[d as int].key)));
            assert(ups + removals(sv.take(d + 1), pv) =~= (ups + removals(sv.take(d as int), pv)).push(
                ChangeView::Delete(stored@[d as int].key),
            ));
        }
        d = d + 1;
    }
    assert(sv.take(stored@.len() as int) =~= sv);
    Ok(changes)
}

proof fn lemma_first_duplicate_prefix(events: Seq<ExecEventView>, k: int)
    requires
        0 <= k <= events.len(),
        first_duplicate(events.take(k)) is Some,
    ensures
        first_duplicate(events) == first_duplicate(events.take(k)),
    decreases events.len() - k,
{
    if k < events.len() {
        assert(events.drop_last().take(k) =~= events.take(k));
        lemma_first_duplicate_prefix(events.drop_last(), k);
    } else {
        assert(events.take(k) =~= events);
    }
}

/// What a refresh does with a parsed session's row.
#[derive(Debug, Clone, Copy, PartialEq, Eq, Structural)]
pub enum RowChange {
    Insert,
    Update,
    Keep,
}

/// A row is inserted where the index has none for its source, updated where the stored one
/// differs, and kept where it is the same.
pub fn row_change(existing: Option<&SessionRow>, parsed: &SessionRow) -> (r: RowChange)
    ensures
        r == match existing {
            None => RowChange::Insert,
            Some(e) => if e@ == parsed@ {
                RowChange::Keep
            } else {
                RowChange::Update
            },
        },
{
    match existing {
        None => RowChange::Insert,
        Some(e) => if rows_equal(e, parsed) {
            RowChange::Keep
        } else {
            RowChange::Update
        },
    }
}


/// What SQLite reports of a refreshed index before it is committed.
pub struct StoreHealth {
    /// Whether `PRAGMA foreign_key_check` reported a row.
    pub foreign_key_violation: bool,
    /// The first line of `PRAGMA quick_check`.
    pub quick_check: String,
    pub metadata_rows: i64,
    pub indexed_sources: i64,
    pub sessions: i64,
    /// Sources marked skipped that still have a session.
    pub skipped_with_session: i64,
}

/// A refreshed index is consistent where its keys hold, SQLite finds it sound, it records one
/// sessions root, each indexed source has its session, and no skipped source has one; the
/// first failure is the outcome.
pub open spec fn store_check(h: StoreHealth) -> Result<(), Seq<char>> {
    if h.foreign_key_violation {
        Err("foreign key check failed"@)
    } else if h.quick_check@ != "ok"@ {
        Err("SQLite quick check failed: "@ + h.quick_check@)
    } else if h.metadata_rows != 1 {
        Err("index_metadata must contain exactly one row"@)
    } else if h.indexed_sources != h.sessions {
        Err("indexed source and session counts differ"@)
    } else if h.skipped_with_session != 0 {
        Err("skipped sources must not have sessions"@)
    } else {
        Ok(())
    }
}

/// The consistency check of a refreshed index (see [`store_check`]).
pub fn verify_invariants(h: &StoreHealth) -> (r: Result<(), String>)
    ensures
        match r {
            Ok(()) => store_check(*h) == Ok::<(), Seq<char>>(()),
            Err(e) => store_check(*h) == Err::<(), Seq<char>>(e@),
        },
{
    if h.foreign_key_violation {
        return Err(String::from_str("foreign key check failed"));
    }
    if !crate::text::text_is(&h.quick_check, "ok") {
        let mut m = String::from_str("SQLite quick check failed: ");
        m.append(h.quick_check.as_str());
        return Err(m);
    }
    if h.metadata_rows != 1 {
        return Err(String::from_str("index_metadata must contain exactly one row"));
    }
    if h.indexed_sources != h.sessions {
        return Err(String::from_str("indexed source and session counts differ"));
    }
    if h.skipped_with_session != 0 {
        return Err(String::from_str("skipped sources must not have sessions"));
    }
    Ok(())
}

} // verus!

verus! {

/// No two events share an index.
pub open spec fn distinct_indices(events: Seq<ExecEventView>) -> bool {
    forall|i: int, j: int| 0 <= i < j < events.len() ==> #[trigger] events[i].event_index != #[trigger] events[j].event_index
}

/// No two stored events share a key.
pub open spec fn distinct_keys(stored: Seq<StoredView>) -> bool {
    forall|i: int, j: int| 0 <= i < j < stored.len() ==> #[trigger] stored[i].key != #[trigger] stored[j].key
}

/// The events of the stored rows.
pub open spec fn stored_events(stored: Seq<StoredView>) -> Seq<ExecEventView> {
    stored.map_values(|s: StoredView| s.event)
}

/// A session's events by index.
pub open spec fn index_map(events: Seq<ExecEventView>) -> Map<int, ExecEventView>
    decreases events.len(),
{
    if events.len() == 0 {
        Map::empty()
    } else {
        index_map(events.drop_last()).insert(events.last().event_index, events.last())
    }
}

/// The index of the first stored event with key `key`, or -1.
pub open spec fn key_index(stored: Seq<StoredView>, key: i64) -> int
    decreases stored.len(),
{
    if stored.len() == 0 {
        -1
    } else if stored[0].key == key {
        stored[0].event.event_index
    } else {
        key_index(stored.drop_first(), key)
    }
}

/// One change applied to a session's events by index; a deletion names the stored row by key.
pub open spec fn apply_change(m: Map<int, ExecEventView>, stored: Seq<StoredView>, c: ChangeView) -> Map<int, ExecEventView> {
    match c {
        ChangeView::Insert(e) => m.insert(e.event_index, e),
        ChangeView::Update(_, e) => m.insert(e.event_index, e),
        ChangeView::Delete(k) => m.remove(key_index(stored, k)),
    }
}

/// Changes applied in order.
pub open spec fn apply_changes(m: Map<int, ExecEventView>, stored: Seq<StoredView>, cs: Seq<ChangeView>) -> Map<int, ExecEventView>
    decreases cs.len(),
{
    if cs.len() == 0 {
        m
    } else {
        apply_change(apply_changes(m, stored, cs.drop_last()), stored, cs.last())
    }
}

proof fn lemma_index_map(events: Seq<ExecEventView>)
    ensures
        forall|i: int| #[trigger] index_map(events).dom().contains(i) <==> exists|k: int|
            0 <= k < events.len() && events[k].event_index == i,
        distinct_indices(events) ==> forall|k: int| 0 <= k < events.len() ==> #[trigger] index_map(events)[events[k].event_index]
            == events[k],
    decreases events.len(),
{
    if events.len() > 0 {
        let p = events.drop_last();
        lemma_index_map(p);
        assert forall|i: int| #[trigger] index_map(events).dom().contains(i) <==> exists|k: int|
            0 <= k < events.len() && events[k].event_index == i by {
            if index_map(p).dom().contains(i) {
                let k = choose|k: int| 0 <= k < p.len() && p[k].event_index == i;
                assert(events[k] == p[k]);
            }
            if exists|k: int| 0 <= k < events.len() && events[k].event_index == i {
                let k = choose|k: int| 0 <= k < events.len() && events[k].event_index == i;
                if k < events.len() - 1 {
                    assert(p[k] == events[k]);
                }
            }
        }
        if distinct_indices(events) {
            assert(distinct_indices(p)) by {
                assert forall|i: int, j: int| 0 <= i < j < p.len() implies #[trigger] p[i].event_index != #[trigger] p[j].event_index by {
                    assert(p[i] == events[i] && p[j] == events[j]);
                }
            }
            assert forall|k: int| 0 <= k < events.len() implies #[trigger] index_map(events)[events[k].event_index]
                == events[k] by {
                if k < events.len() - 1 {
                    assert(p[k] == events[k]);
                    assert(events[k].event_index != events.last().event_index);
                    assert(index_map(p)[p[k].event_index] == p[k]);
                }
            }
        }
    }
}

proof fn lemma_no_duplicate_distinct(events: Seq<ExecEventView>)
    requires
        first_duplicate(events) is None,
    ensures
        distinct_indices(events),
    decreases events.len(),
{
    if events.len() > 0 {
        let p = events.drop_last();
        lemma_no_duplicate_distinct(p);
        assert forall|i: int, j: int| 0 <= i < j < events.len() implies #[trigger] events[i].event_index
            != #[trigger] events[j].event_index by {
            if j < events.len() - 1 {
                assert(p[i] == events[i] && p[j] == events[j]);
            } else {
                if events[i].event_index == events.last().event_index {
                    assert(0 <= i < events.len() - 1 && events[i].event_index == events.last().event_index);
                }
            }
        }
    }
}


proof fn lemma_insert_facts(sorted: Seq<ExecEventView>, e: ExecEventView)
    ensures
        insert_by_index(sorted, e).len() == sorted.len() + 1,
        forall|x: ExecEventView| #[trigger] insert_by_index(sorted, e).contains(x) <==> (sorted.contains(x) || x == e),
        distinct_indices(sorted) && (forall|k: int| 0 <= k < sorted.len() ==> #[trigger] sorted[k].event_index
            != e.event_index) ==> distinct_indices(insert_by_index(sorted, e)),
    decreases sorted.len(),
{
    let r = insert_by_index(sorted, e);
    if sorted.len() == 0 {
        assert forall|x: ExecEventView| #[trigger] r.contains(x) <==> (sorted.contains(x) || x == e) by {
            if r.contains(x) {
                assert(r[0] == x);
            }
            if x == e {
                assert(r[0] == e);
            }
        }
    } else if e.event_index < sorted[0].event_index {
        assert(r =~= seq![e] + sorted);
        assert forall|x: ExecEventView| #[trigger] r.contains(x) <==> (sorted.contains(x) || x == e) by {
            if r.contains(x) {
                let k = choose|k: int| 0 <= k < r.len() && r[k] == x;
                if k > 0 {
                    assert(sorted[k - 1] == x);
                }
            }
            if sorted.contains(x) {
                let k = choose|k: int| 0 <= k < sorted.len() && sorted[k] == x;
                assert(r[k + 1] == x);
            }
            if x == e {
                assert(r[0] == e);
            }
        }
        if distinct_indices(sorted) && (forall|k: int| 0 <= k < sorted.len() ==> #[trigger] sorted[k].event_index
            != e.event_index) {
            assert forall|i: int, j: int| 0 <= i < j < r.len() implies #[trigger] r[i].event_index
                != #[trigger] r[j].event_index by {
                if i == 0 {
                    assert(r[j] == sorted[j - 1]);
                } else {
                    assert(r[i] == sorted[i - 1] && r[j] == sorted[j - 1]);
                }
            }
        }
    } else {
        let t = sorted.drop_first();
        lemma_insert_facts(t, e);
        let rt = insert_by_index(t, e);
        assert(r =~= seq![sorted[0]] + rt);
        assert forall|x: ExecEventView| #[trigger] r.contains(x) <==> (sorted.contains(x) || x == e) by {
            if r.contains(x) {
                let k = choose|k: int| 0 <= k < r.len() && r[k] == x;
                if k == 0 {
                    assert(sorted[0] == x);
                } else {
                    assert(rt[k - 1] == x);
                    assert(rt.contains(x));
                    if t.contains(x) {
                        let m = choose|m: int| 0 <= m < t.len() && t[m] == x;
                        assert(sorted[m + 1] == x);
                    }
                }
            }
            if sorted.contains(x) {
                let k = choose|k: int| 0 <= k < sorted.len() && sorted[k] == x;
                if k == 0 {
                    assert(r[0] == x);
                } else {
                    assert(t[k - 1] == x);
                    assert(rt.contains(x));
                    let m = choose|m: int| 0 <= m < rt.len() && rt[m] == x;
                    assert(r[m + 1] == x);
                }
            }
            if x == e {
                assert(rt.contains(e));
                let m = choose|m: int| 0 <= m < rt.len() && rt[m] == e;
                assert(r[m + 1] == e);
            }
        }
        if distinct_indices(sorted) && (forall|k: int| 0 <= k < sorted.len() ==> #[trigger] sorted[k].event_index
            != e.event_index) {
            assert(distinct_indices(t)) by {
                assert forall|i: int, j: int| 0 <= i < j < t.len() implies #[trigger] t[i].event_index
                    != #[trigger] t[j].event_index by {
                    assert(t[i] == sorted[i + 1] && t[j] == sorted[j + 1]);
                }
            }
            assert forall|k: int| 0 <= k < t.len() implies #[trigger] t[k].event_index != e.event_index by {
                assert(t[k] == sorted[k + 1]);
            }
            assert forall|i: int, j: int| 0 <= i < j < r.len() implies #[trigger] r[i].event_index
                != #[trigger] r[j].event_index by {
                if i == 0 {
                    let x = rt[j - 1];
                    assert(r[j] == x);
                    assert(rt.contains(x));
                    if t.contains(x) {
                        let m = choose|m: int| 0 <= m < t.len() && t[m] == x;
                        assert(sorted[m + 1] == x);
                    }
                } else {
                    assert(r[i] == rt[i - 1] && r[j] == rt[j - 1]);
                }
            }
        }
    }
}

proof fn lemma_sorted_facts(events: Seq<ExecEventView>)
    ensures
        sorted_by_index(events).len() == events.len(),
        forall|x: ExecEventView| #[trigger] sorted_by_index(events).contains(x) <==> events.contains(x),
        distinct_indices(events) ==> distinct_indices(sorted_by_index(events)),
    decreases events.len(),
{
    if events.len() > 0 {
        let p = events.drop_last();
        let e = events.last();
        lemma_sorted_facts(p);
        let sp = sorted_by_index(p);
        lemma_insert_facts(sp, e);
        assert forall|x: ExecEventView| #[trigger] sorted_by_index(events).contains(x) <==> events.contains(x) by {
            if p.contains(x) {
                let k = choose|k: int| 0 <= k < p.len() && p[k] == x;
                assert(events[k] == x);
            }
            if events.contains(x) {
                let k = choose|k: int| 0 <= k < events.len() && events[k] == x;
                if k < events.len() - 1 {
                    assert(p[k] == x);
                }
            }
        }
        if distinct_indices(events) {
            assert(distinct_indices(p)) by {
                assert forall|i: int, j: int| 0 <= i < j < p.len() implies #[trigger] p[i].event_index
                    != #[trigger] p[j].event_index by {
                    assert(p[i] == events[i] && p[j] == events[j]);
                }
            }
            assert forall|k: int| 0 <= k < sp.len() implies #[trigger] sp[k].event_index != e.event_index by {
                let x = sp[k];
                assert(sp.contains(x));
                let m = choose|m: int| 0 <= m < p.len() && p[m] == x;
                assert(events[m] == x);
            }
        }
    }
}


proof fn lemma_stored_at(stored: Seq<StoredView>, i: int)
    ensures
        match stored_at(stored, i) {
            Some(s) => exists|k: int| 0 <= k < stored.len() && stored[k] == s && s.event.event_index == i,
            None => forall|k: int| 0 <= k < stored.len() ==> (#[trigger] stored[k]).event.event_index != i,
        },
    decreases stored.len(),
{
    if stored.len() > 0 && stored[0].event.event_index != i {
        let t = stored.drop_first();
        lemma_stored_at(t, i);
        match stored_at(t, i) {
            Some(s) => {
                let k = choose|k: int| 0 <= k < t.len() && t[k] == s && s.event.event_index == i;
                assert(stored[k + 1] == s);
            },
            None => {
                assert forall|k: int| 0 <= k < stored.len() implies (#[trigger] stored[k]).event.event_index != i by {
                    if k > 0 {
                        assert(stored[k] == t[k - 1]);
                    }
                }
            },
        }
    } else if stored.len() > 0 {
        assert(stored[0] == stored[0]);
    }
}

proof fn lemma_key_index(stored: Seq<StoredView>, k: int)
    requires
        distinct_keys(stored),
        0 <= k < stored.len(),
    ensures
        key_index(stored, stored[k].key) == stored[k].event.event_index,
    decreases stored.len(),
{
    if k > 0 {
        let t = stored.drop_first();
        assert(stored[0].key != stored[k].key);
        assert(distinct_keys(t)) by {
            assert forall|i: int, j: int| 0 <= i < j < t.len() implies #[trigger] t[i].key != #[trigger] t[j].key by {
                assert(t[i] == stored[i + 1] && t[j] == stored[j + 1]);
            }
        }
        assert(t[k - 1] == stored[k]);
        lemma_key_index(t, k - 1);
    }
}

proof fn lemma_apply_upserts(stored: Seq<StoredView>, list: Seq<ExecEventView>)
    requires
        distinct_indices(stored_events(stored)),
        distinct_indices(list),
    ensures
        apply_changes(index_map(stored_events(stored)), stored, upserts(stored, list)) == index_map(
            stored_events(stored),
        ).union_prefer_right(index_map(list)),
    decreases list.len(),
{
    let sm = index_map(stored_events(stored));
    if list.len() == 0 {
        assert(sm.union_prefer_right(index_map(list)) =~= sm);
    } else {
        let p = list.drop_last();
        let e = list.last();
        assert(distinct_indices(p)) by {
            assert forall|i: int, j: int| 0 <= i < j < p.len() implies #[trigger] p[i].event_index
                != #[trigger] p[j].event_index by {
                assert(p[i] == list[i] && p[j] == list[j]);
            }
        }
        lemma_apply_upserts(stored, p);
        let prev = upserts(stored, p);
        let before = apply_changes(sm, stored, prev);
        assert(before == sm.union_prefer_right(index_map(p)));
        match stored_at(stored, e.event_index) {
            None => {
                let c = ChangeView::Insert(e);
                assert(prev.push(c).drop_last() =~= prev);
                assert(apply_changes(sm, stored, prev.push(c)) == before.insert(e.event_index, e));
                assert(before.insert(e.event_index, e) =~= sm.union_prefer_right(index_map(list)));
            },
            Some(st) => {
                if st.event == e {
                    lemma_stored_at(stored, e.event_index);
                    let k = choose|k: int| 0 <= k < stored.len() && stored[k] == st && st.event.event_index
                        == e.event_index;
                    lemma_index_map(stored_events(stored));
                    assert(stored_events(stored)[k] == st.event);
                    assert(sm[stored_events(stored)[k].event_index] == stored_events(stored)[k]);
                    lemma_index_map(p);
                    assert(!index_map(p).dom().contains(e.event_index)) by {
                        if index_map(p).dom().contains(e.event_index) {
                            let m = choose|m: int| 0 <= m < p.len() && p[m].event_index == e.event_index;
                            assert(list[m].event_index == list[list.len() - 1].event_index);
                        }
                    }
                    assert(before =~= sm.union_prefer_right(index_map(list)));
                } else {
                    let c = ChangeView::Update(st.key, e);
                    assert(prev.push(c).drop_last() =~= prev);
                    assert(apply_changes(sm, stored, prev.push(c)) == before.insert(e.event_index, e));
                    assert(before.insert(e.event_index, e) =~= sm.union_prefer_right(index_map(list)));
                }
            },
        }
    }
}

proof fn lemma_apply_concat(m: Map<int, ExecEventView>, stored: Seq<StoredView>, a: Seq<ChangeView>, b: Seq<ChangeView>)
    ensures
        apply_changes(m, stored, a + b) == apply_changes(apply_changes(m, stored, a), stored, b),
    decreases b.len(),
{
    if b.len() == 0 {
        assert(a + b =~= a);
    } else {
        assert((a + b).drop_last() =~= a + b.drop_last());
        assert((a + b).last() == b.last());
        lemma_apply_concat(m, stored, a, b.drop_last());
    }
}

/// The indices of stored events that no parsed event has.
pub open spec fn removed_indices(stored: Seq<StoredView>, events: Seq<ExecEventView>) -> Set<int> {
    Set::new(
        |i: int|
            (exists|k: int| 0 <= k < stored.len() && #[trigger] stored[k].event.event_index == i) && !(exists|m: int|
                0 <= m < events.len() && #[trigger] events[m].event_index == i),
    )
}

proof fn lemma_apply_removals(m: Map<int, ExecEventView>, stored: Seq<StoredView>, j: int, events: Seq<ExecEventView>)
    requires
        0 <= j <= stored.len(),
        distinct_keys(stored),
    ensures
        apply_changes(m, stored, removals(stored.take(j), events)) == m.remove_keys(
            removed_indices(stored.take(j), events),
        ),
    decreases j,
{
    let pj = stored.take(j);
    if j == 0 {
        assert(removed_indices(pj, events) =~= Set::empty());
        assert(m.remove_keys(Set::empty()) =~= m);
    } else {
        let q = stored.take(j - 1);
        lemma_apply_removals(m, stored, j - 1, events);
        assert(pj.drop_last() =~= q);
        assert(pj.last() == stored[j - 1]);
        let s = stored[j - 1];
        let i0 = s.event.event_index;
        let rq = removed_indices(q, events);
        let rp = removed_indices(pj, events);
        if exists|mm: int| 0 <= mm < events.len() && #[trigger] events[mm].event_index == i0 {
            assert(removals(pj, events) == removals(q, events));
            assert forall|i: int| #[trigger] rp.contains(i) <==> rq.contains(i) by {
                if rp.contains(i) {
                    let k = choose|k: int| 0 <= k < pj.len() && #[trigger] pj[k].event.event_index == i;
                    if k < j - 1 {
                        assert(q[k] == pj[k]);
                    }
                }
                if rq.contains(i) {
                    let k = choose|k: int| 0 <= k < q.len() && #[trigger] q[k].event.event_index == i;
                    assert(pj[k] == q[k]);
                }
            }
            assert(rp =~= rq);
        } else {
            let c = ChangeView::Delete(s.key);
            assert(removals(pj, events) == removals(q, events).push(c));
            assert(removals(q, events).push(c).drop_last() =~= removals(q, events));
            lemma_key_index(stored, j - 1);
            assert forall|i: int| #[trigger] rp.contains(i) <==> (rq.contains(i) || i == i0) by {
                if rp.contains(i) {
                    let k = choose|k: int| 0 <= k < pj.len() && #[trigger] pj[k].event.event_index == i;
                    if k < j - 1 {
                        assert(q[k] == pj[k]);
                    }
                }
                if rq.contains(i) {
                    let k = choose|k: int| 0 <= k < q.len() && #[trigger] q[k].event.event_index == i;
                    assert(pj[k] == q[k]);
                }
                if i == i0 {
                    assert(pj[j - 1].event.event_index == i0);
                }
            }
            assert(rp =~= rq.insert(i0));
            assert(m.remove_keys(rq).remove(i0) =~= m.remove_keys(rq.insert(i0)));
        }
    }
}

/// Applying the changes that a refresh plans for a session's exec events to the events the
/// index stores gives exactly the parsed events, by index: every parsed event is in place,
/// and every stored event that no parsed event replaces is gone. The stored rows have distinct
/// keys and distinct indices, as the index's keys ensure; parsed events that share an index
/// are refused instead.
pub proof fn lemma_exec_diff_reaches_parsed(stored: Seq<StoredView>, events: Seq<ExecEventView>)
    requires
        distinct_indices(stored_events(stored)),
        distinct_keys(stored),
        first_duplicate(events) is None,
    ensures
        exec_diff(stored, events) matches Ok(cs) && apply_changes(index_map(stored_events(stored)), stored, cs)
            == index_map(events),
{
    let sm = index_map(stored_events(stored));
    let sorted = sorted_by_index(events);
    lemma_no_duplicate_distinct(events);
    lemma_sorted_facts(events);
    lemma_apply_upserts(stored, sorted);
    lemma_index_map(sorted);
    lemma_index_map(events);
    lemma_index_map(stored_events(stored));
    let em = index_map(events);
    assert forall|i: int| #[trigger] index_map(sorted).dom().contains(i) <==> em.dom().contains(i) by {
        if index_map(sorted).dom().contains(i) {
            let k = choose|k: int| 0 <= k < sorted.len() && sorted[k].event_index == i;
            assert(sorted.contains(sorted[k]));
            let m = choose|m: int| 0 <= m < events.len() && events[m] == sorted[k];
            assert(events[m].event_index == i);
        }
        if em.dom().contains(i) {
            let m = choose|m: int| 0 <= m < events.len() && events[m].event_index == i;
            assert(events.contains(events[m]));
            assert(sorted_by_index(events).contains(events[m]));
            let k = choose|k: int| 0 <= k < sorted.len() && sorted[k] == events[m];
            assert(sorted[k].event_index == i);
        }
    }
    assert forall|i: int| #[trigger] index_map(sorted).dom().contains(i) implies index_map(sorted)[i] == em[i] by {
        let k = choose|k: int| 0 <= k < sorted.len() && sorted[k].event_index == i;
        assert(index_map(sorted)[sorted[k].event_index] == sorted[k]);
        assert(sorted.contains(sorted[k]));
        let m = choose|m: int| 0 <= m < events.len() && events[m] == sorted[k];
        assert(em[events[m].event_index] == events[m]);
    }
    assert(index_map(sorted) =~= em);
    let ups = upserts(stored, sorted);
    let rems = removals(stored, events);
    lemma_apply_concat(sm, stored, ups, rems);
    let mm = sm.union_prefer_right(em);
    assert(stored.take(stored.len() as int) =~= stored);
    lemma_apply_removals(mm, stored, stored.len() as int, events);
    let r = removed_indices(stored, events);
    assert forall|i: int| #[trigger] mm.remove_keys(r).dom().contains(i) <==> em.dom().contains(i) by {
        if em.dom().contains(i) {
            let m = choose|m: int| 0 <= m < events.len() && events[m].event_index == i;
            assert(events[m].event_index == i);
            assert(!r.contains(i));
        }
        if mm.remove_keys(r).dom().contains(i) && !em.dom().contains(i) {
            assert(sm.dom().contains(i));
            let k = choose|k: int| 0 <= k < stored_events(stored).len() && stored_events(stored)[k].event_index == i;
            assert(stored[k].event.event_index == i);
            assert(r.contains(i));
        }
    }
    assert(mm.remove_keys(r) =~= em);
}


proof fn lemma_distinct_no_duplicate(events: Seq<ExecEventView>)
    requires
        distinct_indices(events),
    ensures
        first_duplicate(events) is None,
    decreases events.len(),
{
    if events.len() > 0 {
        let p = events.drop_last();
        assert(distinct_indices(p)) by {
            assert forall|i: int, j: int| 0 <= i < j < p.len() implies #[trigger] p[i].event_index
                != #[trigger] p[j].event_index by {
                assert(p[i] == events[i] && p[j] == events[j]);
            }
        }
        lemma_distinct_no_duplicate(p);
        assert(!exists|i: int| 0 <= i < events.len() - 1 && #[trigger] events[i].event_index == events.last().event_index) by {
            if exists|i: int| 0 <= i < events.len() - 1 && #[trigger] events[i].event_index == events.last().event_index {
                let i = choose|i: int| 0 <= i < events.len() - 1 && #[trigger] events[i].event_index
                    == events.last().event_index;
                assert(events[i].event_index != events[events.len() - 1].event_index);
            }
        }
    }
}

proof fn lemma_upserts_of_stored(stored: Seq<StoredView>, list: Seq<ExecEventView>)
    requires
        distinct_indices(stored_events(stored)),
        forall|k: int| 0 <= k < list.len() ==> stored_events(stored).contains(#[trigger] list[k]),
    ensures
        upserts(stored, list) == Seq::<ChangeView>::empty(),
    decreases list.len(),
{
    if list.len() > 0 {
        let p = list.drop_last();
        let e = list.last();
        assert forall|k: int| 0 <= k < p.len() implies stored_events(stored).contains(#[trigger] p[k]) by {
            assert(p[k] == list[k]);
        }
        lemma_upserts_of_stored(stored, p);
        assert(stored_events(stored).contains(list[list.len() - 1]));
        let j = choose|j: int| 0 <= j < stored_events(stored).len() && stored_events(stored)[j] == e;
        assert(stored[j].event == e);
        lemma_stored_at(stored, e.event_index);
        match stored_at(stored, e.event_index) {
            Some(st) => {
                let k = choose|k: int| 0 <= k < stored.len() && stored[k] == st && st.event.event_index == e.event_index;
                if k != j {
                    assert(stored_events(stored)[k].event_index == stored_events(stored)[j].event_index);
                    if k < j {
                        assert(stored_events(stored)[k].event_index != stored_events(stored)[j].event_index);
                    } else {
                        assert(stored_events(stored)[j].event_index != stored_events(stored)[k].event_index);
                    }
                }
            },
            None => {
                assert(stored[j].event.event_index != e.event_index);
            },
        }
    }
}

proof fn lemma_removals_of_stored(stored: Seq<StoredView>, j: int)
    requires
        0 <= j <= stored.len(),
    ensures
        removals(stored.take(j), stored_events(stored)) == Seq::<ChangeView>::empty(),
    decreases j,
{
    if j > 0 {
        lemma_removals_of_stored(stored, j - 1);
        let pj = stored.take(j);
        assert(pj.drop_last() =~= stored.take(j - 1));
        assert(pj.last() == stored[j - 1]);
        assert(stored_events(stored)[j - 1].event_index == pj.last().event.event_index);
    }
}

/// A session whose parsed events are exactly the stored ones needs no change: an unchanged log
/// leaves the index, and its keys, as they are.
pub proof fn lemma_unchanged_events_plan_nothing(stored: Seq<StoredView>)
    requires
        distinct_indices(stored_events(stored)),
    ensures
        exec_diff(stored, stored_events(stored)) == Ok::<Seq<ChangeView>, int>(Seq::empty()),
{
    let events = stored_events(stored);
    lemma_distinct_no_duplicate(events);
    lemma_sorted_facts(events);
    assert forall|k: int| 0 <= k < sorted_by_index(events).len() implies events.contains(
        #[trigger] sorted_by_index(events)[k],
    ) by {
        assert(sorted_by_index(events).contains(sorted_by_index(events)[k]));
    }
    lemma_upserts_of_stored(stored, sorted_by_index(events));
    assert(stored.take(stored.len() as int) =~= stored);
    lemma_removals_of_stored(stored, stored.len() as int);
    assert(Seq::<ChangeView>::empty() + Seq::<ChangeView>::empty() =~= Seq::<ChangeView>::empty());
}

/// What a planned change may name, given the stored rows and the parsed events.
pub open spec fn change_fits(stored: Seq<StoredView>, events: Seq<ExecEventView>, c: ChangeView) -> bool {
    match c {
        ChangeView::Insert(e) => stored_at(stored, e.event_index) is None,
        ChangeView::Update(key, e) => exists|j: int|
            0 <= j < stored.len() && stored[j].key == key && #[trigger] stored[j].event.event_index == e.event_index,
        ChangeView::Delete(key) => exists|j: int|
            0 <= j < stored.len() && #[trigger] stored[j].key == key && !(exists|m: int|
                0 <= m < events.len() && #[trigger] events[m].event_index == stored[j].event.event_index),
    }
}

proof fn lemma_upserts_fit(stored: Seq<StoredView>, events: Seq<ExecEventView>, list: Seq<ExecEventView>)
    ensures
        forall|k: int| 0 <= k < upserts(stored, list).len() ==> change_fits(stored, events, #[trigger] upserts(stored, list)[k]),
    decreases list.len(),
{
    if list.len() > 0 {
        let p = list.drop_last();
        let e = list.last();
        lemma_upserts_fit(stored, events, p);
        let prev = upserts(stored, p);
        lemma_stored_at(stored, e.event_index);
        match stored_at(stored, e.event_index) {
            None => {
                assert forall|k: int| 0 <= k < upserts(stored, list).len() implies change_fits(
                    stored,
                    events,
                    #[trigger] upserts(stored, list)[k],
                ) by {
                    if k < prev.len() {
                        assert(upserts(stored, list)[k] == prev[k]);
                    }
                }
            },
            Some(st) => {
                let j = choose|j: int| 0 <= j < stored.len() && stored[j] == st && st.event.event_index == e.event_index;
                assert forall|k: int| 0 <= k < upserts(stored, list).len() implies change_fits(
                    stored,
                    events,
                    #[trigger] upserts(stored, list)[k],
                ) by {
                    if k < prev.len() {
                        assert(upserts(stored, list)[k] == prev[k]);
                    } else {
                        assert(stored[j].key == st.key && stored[j].event.event_index == e.event_index);
                    }
                }
            },
        }
    }
}

proof fn lemma_removals_fit(stored: Seq<StoredView>, events: Seq<ExecEventView>, j: int)
    requires
        0 <= j <= stored.len(),
    ensures
        forall|k: int| 0 <= k < removals(stored.take(j), events).len() ==> change_fits(
            stored,
            events,
            #[trigger] removals(stored.take(j), events)[k],
        ),
    decreases j,
{
    if j > 0 {
        lemma_removals_fit(stored, events, j - 1);
        let pj = stored.take(j);
        let prev = removals(stored.take(j - 1), events);
        assert(pj.drop_last() =~= stored.take(j - 1));
        assert(pj.last() == stored[j - 1]);
        assert forall|k: int| 0 <= k < removals(pj, events).len() implies change_fits(
            stored,
            events,
            #[trigger] removals(pj, events)[k],
        ) by {
            if k < prev.len() {
                assert(removals(pj, events)[k] == prev[k]);
            } else {
                assert(stored[j - 1].key == pj.last().key);
            }
        }
    }
}

/// The planned changes keep the index's keys: an insert is planned only where no row is stored
/// at the event's index, an update names the key of the row stored at the event's index, and a
/// deletion names the key of a stored row whose index no parsed event has.
pub proof fn lemma_exec_diff_keeps_keys(stored: Seq<StoredView>, events: Seq<ExecEventView>)
    ensures
        exec_diff(stored, events) matches Ok(cs) ==> forall|k: int|
            0 <= k < cs.len() ==> change_fits(stored, events, #[trigger] cs[k]),
{
    if first_duplicate(events) is None {
        let ups = upserts(stored, sorted_by_index(events));
        let rems = removals(stored, events);
        lemma_upserts_fit(stored, events, sorted_by_index(events));
        assert(stored.take(stored.len() as int) =~= stored);
        lemma_removals_fit(stored, events, stored.len() as int);
        assert forall|k: int| 0 <= k < (ups + rems).len() implies change_fits(stored, events, #[trigger] (ups + rems)[k]) by {
            if k < ups.len() {
                assert((ups + rems)[k] == ups[k]);
            } else {
                assert((ups + rems)[k] == rems[k - ups.len()]);
            }
        }
    }
}

} // verus!

