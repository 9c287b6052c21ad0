//! The index refresh: whether it updates or rebuilds, the summary it reports, the SQLite it
//! needs, the lexical form of the sessions root, and the key lists it reports as changed.

use vstd::prelude::*;

use crate::cli::path_join;
use crate::listing::string_views;
use crate::text::{
    chars_of, decimal, decimal_text, join, join_strings, parse_u32, parsed_u32, signed_decimal,
    signed_decimal_text, split_chars, split_on, string_of, views,
};

verus! {

/// The schema version this library writes.
pub const SCHEMA_VERSION: i64 = 2;

/// Whether a refresh updates the index in place or rebuilds it.
#[derive(Debug, Clone, Copy, PartialEq, Eq, Structural)]
pub enum IndexMode {
    Incremental,
    Rebuild,
}

/// What the index holds before a refresh, as far as the refresh cares.
#[derive(Debug, Clone, PartialEq, Eq)]
pub enum SchemaState {
    Empty,
    Legacy,
    CanonicalV1 { sessions_root: String },
    Current { sessions_root: String },
    Future { version: i64 },
    Unknown { version: i64, reason: String },
}

/// The mode a refresh runs in, or why it refuses: an empty or legacy index is rebuilt; a
/// canonical one is updated unless a rebuild was asked for or its sessions root differs; a
/// newer schema is never overwritten; an unknown one is replaced only on request.
pub open spec fn chosen_mode(state: SchemaState, root: Seq<char>, rebuild: bool) -> Result<IndexMode, Seq<char>> {
    match state {
        SchemaState::Empty => Ok(IndexMode::Rebuild),
        SchemaState::Legacy => Ok(IndexMode::Rebuild),
        SchemaState::CanonicalV1 { sessions_root } => if rebuild || sessions_root@ != root {
            Ok(IndexMode::Rebuild)
        } else {
            Ok(IndexMode::Incremental)
        },
        SchemaState::Current { sessions_root } => if rebuild || sessions_root@ != root {
            Ok(IndexMode::Rebuild)
        } else {
            Ok(IndexMode::Incremental)
        },
        SchemaState::Future { version } => Err(
            "index schema version "@ + signed_decimal(version as int)
                + " is newer than supported version "@ + signed_decimal(SCHEMA_VERSION as int)
                + "; refusing to overwrite it"@,
        ),
        SchemaState::Unknown { version, reason } => if !rebuild {
            Err(
                "unrecognized index schema version "@ + signed_decimal(version as int) + ": "@
                    + reason@ + "; run index --rebuild to replace it"@,
            )
        } else {
            Ok(IndexMode::Rebuild)
        },
    }
}

/// The mode a refresh runs in (see [`chosen_mode`]).
pub fn choose_mode(state: &SchemaState, root: &str, rebuild: bool) -> (r: Result<IndexMode, String>)
    ensures
        match r {
            Ok(m) => chosen_mode(*state, root@, rebuild) == Ok::<IndexMode, Seq<char>>(m),
            Err(e) => chosen_mode(*state, root@, rebuild) == Err::<IndexMode, Seq<char>>(e@),
        },
{
    match state {
        SchemaState::Empty => Ok(IndexMode::Rebuild),
        SchemaState::Legacy => Ok(IndexMode::Rebuild),
        SchemaState::CanonicalV1 { sessions_root } | SchemaState::Current { sessions_root } => {
            let same = crate::text::text_is(sessions_root, root);
            if rebuild || !same {
                Ok(IndexMode::Rebuild)
            } else {
                Ok(IndexMode::Incremental)
            }
        },
        SchemaState::Future { version } => {
            let mut m = String::from_str("index schema version ");
            m.append(signed_decimal_text(*version).as_str());
            m.append(" is newer than supported version ");
            m.append(signed_decimal_text(SCHEMA_VERSION).as_str());
            m.append("; refusing to overwrite it");
            Err(m)
        },
        SchemaState::Unknown { version, reason } => {
            if !rebuild {
                let mut m = String::from_str("unrecognized index schema version ");
                m.append(signed_decimal_text(*version).as_str());
                m.append(": ");
                m.append(reason.as_str());
                m.append("; run index --rebuild to replace it");
                Err(m)
            } else {
                Ok(IndexMode::Rebuild)
            }
        },
    }
}

/// The counts of a scan of the session logs.
#[derive(Debug, Clone, Copy, PartialEq, Eq, Structural)]
pub struct ScanCounts {
    pub scanned_files: usize,
    pub new_files: usize,
    pub changed_files: usize,
    pub unchanged_files: usize,
    pub deleted_files: usize,
    pub unstable_files: usize,
}

/// The counts the index holds after a refresh.
#[derive(Debug, Clone, Copy, PartialEq, Eq, Structural)]
pub struct StoredCounts {
    pub skipped_files: usize,
    pub session_rows: usize,
    pub exec_rows: usize,
    pub message_rows: usize,
}

/// What a refresh did.
#[derive(Debug, Clone, PartialEq, Eq)]
pub struct IndexSummary {
    pub mode: IndexMode,
    pub scanned_files: usize,
    pub parsed_files: usize,
    pub new_files: usize,
    pub changed_files: usize,
    pub unchanged_files: usize,
    pub deleted_files: usize,
    pub unstable_files: usize,
    pub skipped_files: usize,
    pub session_rows: usize,
    pub exec_rows: usize,
    pub message_rows: usize,
    pub output: String,
}

/// The summary of a refresh from its mode, its scan and the index's counts; the parsed files
/// are the new and the changed ones.
pub fn summary_from(mode: IndexMode, plan: &ScanCounts, counts: &StoredCounts, output: String) -> (r: IndexSummary)
    requires
        plan.new_files + plan.changed_files <= usize::MAX,
    ensures
        r.mode == mode,
        r.scanned_files == plan.scanned_files,
        r.parsed_files == plan.new_files + plan.changed_files,
        r.new_files == plan.new_files,
        r.changed_files == plan.changed_files,
        r.unchanged_files == plan.unchanged_files,
        r.deleted_files == plan.deleted_files,
        r.unstable_files == plan.unstable_files,
        r.skipped_files == counts.skipped_files,
        r.session_rows == counts.session_rows,
        r.exec_rows == counts.exec_rows,
        r.message_rows == counts.message_rows,
        r.output@ == output@,
{
    IndexSummary {
        mode,
        scanned_files: plan.scanned_files,
        parsed_files: plan.new_files + plan.changed_files,
        new_files: plan.new_files,
        changed_files: plan.changed_files,
        unchanged_files: plan.unchanged_files,
        deleted_files: plan.deleted_files,
        unstable_files: plan.unstable_files,
        skipped_files: counts.skipped_files,
        session_rows: counts.session_rows,
        exec_rows: counts.exec_rows,
        message_rows: counts.message_rows,
        output,
    }
}

/// The decimal numeral of a count.
pub open spec fn count_text(n: usize) -> Seq<char> {
    decimal(n as nat)
}

/// The line that reports a refresh.
pub open spec fn summary_text(s: IndexSummary) -> Seq<char> {
    (if s.mode == IndexMode::Incremental {
        "updated"@
    } else {
        "rebuilt"@
    }) + " canonical index at "@ + s.output@ + ": scanned "@ + count_text(s.scanned_files)
        + " jsonl files; parsed "@ + count_text(s.parsed_files) + " ("@ + count_text(s.new_files)
        + " new, "@ + count_text(s.changed_files) + " changed), kept "@ + count_text(
        s.unchanged_files,
    ) + " unchanged, removed "@ + count_text(s.deleted_files) + " deleted, deferred "@
        + count_text(s.unstable_files) + " unstable, skipped "@ + count_text(s.skipped_files)
        + "; stored "@ + count_text(s.session_rows) + " sessions, "@ + count_text(s.message_rows)
        + " messages and "@ + count_text(s.exec_rows) + " exec events"@
}

/// The line that reports a refresh (see [`summary_text`]).
pub fn format_summary(summary: &IndexSummary) -> (r: String)
    ensures
        r@ == summary_text(*summary),
{
    let mut out = match summary.mode {
        IndexMode::Incremental => String::from_str("updated"),
        IndexMode::Rebuild => String::from_str("rebuilt"),
    };
    out.append(" canonical index at ");
    out.append(summary.output.as_str());
    out.append(": scanned ");
    out.append(decimal_text(summary.scanned_files as u64).as_str());
    out.append(" jsonl files; parsed ");
    out.append(decimal_text(summary.parsed_files as u64).as_str());
    out.append(" (");
    out.append(decimal_text(summary.new_files as u64).as_str());
    out.append(" new, ");
    out.append(decimal_text(summary.changed_files as u64).as_str());
    out.append(" changed), kept ");
    out.append(decimal_text(summary.unchanged_files as u64).as_str());
    out.append(" unchanged, removed ");
    out.append(decimal_text(summary.deleted_files as u64).as_str());
    out.append(" deleted, deferred ");
    out.append(decimal_text(summary.unstable_files as u64).as_str());
    out.append(" unstable, skipped ");
    out.append(decimal_text(summary.skipped_files as u64).as_str());
    out.append("; stored ");
    out.append(decimal_text(summary.session_rows as u64).as_str());
    out.append(" sessions, ");
    out.append(decimal_text(summary.message_rows as u64).as_str());
    out.append(" messages and ");
    out.append(decimal_text(summary.exec_rows as u64).as_str());
    out.append(" exec events");
    out
}

/// The three numbers of a version text `major.minor.patch` (later pieces ignored), where each
/// reads as a `u32`.
pub open spec fn sqlite_version(v: Seq<char>) -> Option<(u32, u32, u32)> {
    let p = split_on(v, '.');
    if p.len() >= 3 {
        match (parsed_u32(p[0]), parsed_u32(p[1]), parsed_u32(p[2])) {
            (Some(a), Some(b), Some(c)) => Some((a, b, c)),
            _ => None,
        }
    } else {
        None
    }
}

/// The three numbers of a version text (see [`sqlite_version`]).
pub fn parse_sqlite_version(version: &str) -> (r: Option<(u32, u32, u32)>)
    ensures
        r == sqlite_version(version@),
{
    let pieces = split_chars(&chars_of(version), '.');
    if pieces.len() < 3 {
        return None;
    }
    let major = parse_u32(&pieces[0]);
    let minor = parse_u32(&pieces[1]);
    let patch = parse_u32(&pieces[2]);
    match (major, minor, patch) {
        (Some(a), Some(b), Some(c)) => Some((a, b, c)),
        _ => None,
    }
}

/// `v` is at least `min` in the order major, minor, patch.
pub open spec fn version_at_least(v: (u32, u32, u32), min: (u32, u32, u32)) -> bool {
    v.0 > min.0 || (v.0 == min.0 && (v.1 > min.1 || (v.1 == min.1 && v.2 >= min.2)))
}

/// Whether SQLite suits the index: version 3.43.0 or newer, with FTS5 compiled in; else the
/// message that names the version found.
pub open spec fn runtime_requirement(version: Seq<char>, fts5: i64) -> Result<(), Seq<char>> {
    match sqlite_version(version) {
        Some(v) => if version_at_least(v, (3, 43, 0)) && fts5 == 1 {
            Ok(())
        } else {
            Err("SQLite 3.43.0 or newer with FTS5 is required; found "@ + version)
        },
        None => Err("SQLite 3.43.0 or newer with FTS5 is required; found "@ + version),
    }
}

/// Whether SQLite suits the index (see [`runtime_requirement`]); `fts5` is what SQLite answers
/// for `sqlite_compileoption_used('ENABLE_FTS5')`.
pub fn check_runtime(version: &str, fts5: i64) -> (r: Result<(), String>)
    ensures
        match r {
            Ok(()) => runtime_requirement(version@, fts5) == Ok::<(), Seq<char>>(()),
            Err(m) => runtime_requirement(version@, fts5) == Err::<(), Seq<char>>(m@),
        },
{
    let ok = match parse_sqlite_version(version) {
        Some(v) => (v.0 > 3 || (v.0 == 3 && (v.1 > 43 || (v.1 == 43 && v.2 >= 0)))) && fts5 == 1,
        None => false,
    };
    if ok {
        Ok(())
    } else {
        let mut m = String::from_str("SQLite 3.43.0 or newer with FTS5 is required; found ");
        m.append(version);
        Err(m)
    }
}

/// A path made absolute against `cwd` where it is relative.
pub open spec fn absolute_of(path: Seq<char>, cwd: Seq<char>) -> Seq<char> {
    if path.len() > 0 && path[0] == '/' {
        path
    } else {
        path_join(cwd, path)
    }
}

/// The components of a path after lexical normalisation: empty and `.` components dropped,
/// and `..` dropping the component before it where there is one.
pub open spec fn lexical_parts(pieces: Seq<Seq<char>>) -> Seq<Seq<char>>
    decreases pieces.len(),
{
    if pieces.len() == 0 {
        Seq::empty()
    } else {
        let prev = lexical_parts(pieces.drop_last());
        let p = pieces.last();
        if p.len() == 0 || p == seq!['.'] {
            prev
        } else if p == seq!['.', '.'] {
            if prev.len() > 0 {
                prev.drop_last()
            } else {
                prev
            }
        } else {
            prev.push(p)
        }
    }
}

/// The lexically normalised absolute form of `path` against the working directory `cwd`.
pub open spec fn lexical_path(path: Seq<char>, cwd: Seq<char>) -> Seq<char> {
    let a = absolute_of(path, cwd);
    let parts = lexical_parts(split_on(a, '/'));
    if a.len() > 0 && a[0] == '/' {
        seq!['/'] + join(parts, seq!['/'])
    } else {
        join(parts, seq!['/'])
    }
}

/// The lexically normalised absolute form of `path` (see [`lexical_path`]).
pub fn absolute_lexical_path(path: &str, cwd: &str) -> (r: String)
    ensures
        r@ == lexical_path(path@, cwd@),
{
    let pcs = chars_of(path);
    let absolute = if pcs.len() > 0 && pcs[0] == '/' {
        String::from_str(path)
    } else {
        crate::cli::join_path(cwd, path)
    };
    let acs = chars_of(absolute.as_str());
    let pieces = split_chars(&acs, '/');
    let ghost pv = views(pieces@);
    let mut parts: Vec<String> = Vec::new();
    let mut i: usize = 0;
    assert(pv.take(0) =~= Seq::<Seq<char>>::empty());
    assert(string_views(parts@) =~= Seq::<Seq<char>>::empty());
    while i < pieces.len()
        invariant
            i <= pieces@.len(),
            pv == views(pieces@),
            string_views(parts@) == lexical_parts(pv.take(i as int)),
        decreases pieces.len() - i,
    {
        assert(pv.take(i + 1).drop_last() =~= pv.take(i as int));
        assert(pv.take(i + 1).last() == pieces@[i as int]@);
        let piece = &pieces[i];
        let ghost before = string_views(parts@);
        let is_dot = piece.len() == 1 && piece[0] == '.';
        let is_dot_dot = piece.len() == 2 && piece[0] == '.' && piece[1] == '.';
        assert(is_dot <==> piece@ == seq!['.']) by {
            if piece@ == seq!['.'] {
                assert(piece@.len() == 1 && piece@[0] == '.');
            }
            if is_dot {
                assert(piece@ =~= seq!['.']);
            }
        }
        assert(is_dot_dot <==> piece@ == seq!['.', '.']) by {
            if piece@ == seq!['.', '.'] {
                assert(piece@.len() == 2 && piece@[0] == '.' && piece@[1] == '.');
            }
            if is_dot_dot {
                assert(piece@ =~= seq!['.', '.']);
            }
        }
        if piece.len() == 0 || is_dot {
        } else if is_dot_dot {
            if parts.len() > 0 {
                parts.pop();
                assert(string_views(parts@) =~= before.drop_last());
            }
        } else {
            parts.push(string_of(piece));
            assert(string_views(parts@) =~= before.push(piece@));
        }
        i = i + 1;
    }
    assert(pv.take(pieces@.len() as int) =~= pv);
    let sep: Vec<char> = vec!['/'];
    assert(sep@ =~= seq!['/']);
    let sep_text = string_of(&sep);
    let joined = join_strings(&parts, sep_text.as_str());
    assert(parts@.map_values(|p: String| p@) =~= string_views(parts@));
    assert(joined@ == join(lexical_parts(pv), seq!['/']));
    assert(acs@ == absolute_of(path@, cwd@));
    assert(pv == split_on(absolute_of(path@, cwd@), '/'));
    if acs.len() > 0 && acs[0] == '/' {
        let mut out = string_of(&sep);
        out.append(joined.as_str());
        out
    } else {
        joined
    }
}

/// A normalised component: not empty, and neither `.` nor `..`.
pub open spec fn clean_part(p: Seq<char>) -> bool {
    p.len() > 0 && p != seq!['.'] && p != seq!['.', '.']
}

/// Normalised components hold neither empty, `.` nor `..` components.
pub proof fn lemma_lexical_parts_clean(pieces: Seq<Seq<char>>)
    ensures
        forall|k: int| 0 <= k < lexical_parts(pieces).len() ==> clean_part(#[trigger] lexical_parts(pieces)[k]),
    decreases pieces.len(),
{
    if pieces.len() > 0 {
        let prev = lexical_parts(pieces.drop_last());
        lemma_lexical_parts_clean(pieces.drop_last());
        let cur = lexical_parts(pieces);
        assert forall|k: int| 0 <= k < cur.len() implies clean_part(#[trigger] cur[k]) by {
            if k < prev.len() {
                assert(clean_part(prev[k]));
            }
        }
    }
}

proof fn lemma_push_contains(s: Seq<i64>, x: i64, y: i64)
    ensures
        s.push(x).contains(y) <==> (s.contains(y) || x == y),
{
    if s.push(x).contains(y) {
        let k = choose|k: int| 0 <= k < s.push(x).len() && #[trigger] s.push(x)[k] == y;
        if k < s.len() {
            assert(s[k] == y);
        }
    }
    if s.contains(y) {
        let k = choose|k: int| 0 <= k < s.len() && #[trigger] s[k] == y;
        assert(s.push(x)[k] == y);
    }
    if x == y {
        assert(s.push(x)[s.len() as int] == y);
    }
}

/// Keys in increasing order, each once.
pub open spec fn strictly_increasing(s: Seq<i64>) -> bool {
    forall|i: int, j: int| 0 <= i < j < s.len() ==> s[i] < s[j]
}

/// The keys of `v` in increasing order, each once (as sorting and removing repeats gives them).
pub fn sorted_unique(v: &Vec<i64>) -> (r: Vec<i64>)
    ensures
        strictly_increasing(r@),
        forall|x: i64| r@.contains(x) <==> v@.contains(x),
{
    let mut out: Vec<i64> = Vec::new();
    let mut i: usize = 0;
    while i < v.len()
        invariant
            i <= v@.len(),
            strictly_increasing(out@),
            forall|x: i64| out@.contains(x) <==> v@.take(i as int).contains(x),
        decreases v.len() - i,
    {
        let x = v[i];
        assert(v@.take(i + 1) =~= v@.take(i as int).push(x));
        let ghost start_out = out@;
        let mut p: usize = 0;
        while p < out.len() && out[p] < x
            invariant
                p <= out@.len(),
                forall|k: int| 0 <= k < p ==> out@[k] < x,
            decreases out.len() - p,
        {
            p = p + 1;
        }
        if p < out.len() && out[p] == x {
            assert(out@.contains(x));
            assert forall|y: i64| out@.contains(y) <==> (start_out.contains(y) || y == x) by {}
        } else {
            let ghost before = out@;
            out.insert(p, x);
            assert(out@ =~= before.subrange(0, p as int).push(x) + before.subrange(p as int, before.len() as int));
            assert forall|a: int, b: int| 0 <= a < b < out@.len() implies out@[a] < out@[b] by {
                if b < p {
                } else if b == p {
                } else if a < p {
                    assert(out@[b] == before[b - 1]);
                    assert(before[b - 1] >= x) by {
                        if p < before.len() {
                            assert(before[p as int] > x);
                            if b - 1 > p {
                                assert(before[p as int] < before[b - 1]);
                            }
                        }
                    }
                } else if a == p {
                    assert(out@[b] == before[b - 1]);
                    assert(before[p as int] > x);
                    if b - 1 > p {
                        assert(before[p as int] < before[b - 1]);
                    }
                } else {
                    assert(out@[a] == before[a - 1]);
                    assert(out@[b] == before[b - 1]);
                }
            }
            assert forall|y: i64| out@.contains(y) <==> (before.contains(y) || y == x) by {
                if out@.contains(y) {
                    let k = choose|k: int| 0 <= k < out@.len() && #[trigger] out@[k] == y;
                    if k < p {
                        assert(before[k] == y);
                    } else if k > p {
                        assert(before[k - 1] == y);
                    }
                }
                if before.contains(y) {
                    let k = choose|k: int| 0 <= k < before.len() && #[trigger] before[k] == y;
                    if k < p {
                        assert(out@[k] == y);
                    } else {
                        assert(out@[k + 1] == y);
                    }
                }
                if y == x {
                    assert(out@[p as int] == x);
                }
            }
        }
        let ghost pre = v@.take(i as int);
        let ghost post = v@.take(i + 1);
        assert(post =~= pre.push(x));
        assert forall|y: i64| post.contains(y) <==> (pre.contains(y) || y == x) by {
            if post.contains(y) {
                let k = choose|k: int| 0 <= k < post.len() && #[trigger] post[k] == y;
                if k < i {
                    assert(pre[k] == y);
                }
            }
            if pre.contains(y) {
                let k = choose|k: int| 0 <= k < pre.len() && #[trigger] pre[k] == y;
                assert(post[k] == y);
            }
            if y == x {
                assert(post[i as int] == x);
            }
        }
        assert forall|y: i64| out@.contains(y) <==> post.contains(y) by {
            assert(start_out.contains(y) <==> pre.contains(y));
        }
        i = i + 1;
    }
    assert(v@.take(v@.len() as int) =~= v@);
    out
}

/// Two key lists in increasing order with the same keys are the same list, so sorting and
/// removing repeats gives one answer, and doing it again changes nothing.
pub proof fn lemma_sorted_keys_determined(a: Seq<i64>, b: Seq<i64>)
    requires
        strictly_increasing(a),
        strictly_increasing(b),
        forall|x: i64| a.contains(x) <==> b.contains(x),
    ensures
        a == b,
    decreases a.len(),
{
    if a.len() == 0 {
        if b.len() > 0 {
            assert(b.contains(b[0]));
        }
        assert(a =~= b);
    } else {
        assert(a.contains(a[0]));
        assert(b.len() > 0);
        assert(b.contains(b[0]));
        let j = choose|j: int| 0 <= j < b.len() && b[j] == a[0];
        let i = choose|i: int| 0 <= i < a.len() && a[i] == b[0];
        assert(a[0] <= a[i]);
        assert(b[0] <= b[j]);
        assert(a[0] == b[0]);
        let ta = a.drop_first();
        let tb = b.drop_first();
        assert forall|x: i64| ta.contains(x) <==> tb.contains(x) by {
            if ta.contains(x) {
                let k = choose|k: int| 0 <= k < ta.len() && ta[k] == x;
                assert(a[k + 1] == x);
                assert(a.contains(x));
                assert(x != a[0]);
                let m = choose|m: int| 0 <= m < b.len() && b[m] == x;
                assert(m != 0);
                assert(tb[m - 1] == x);
            }
            if tb.contains(x) {
                let k = choose|k: int| 0 <= k < tb.len() && tb[k] == x;
                assert(b[k + 1] == x);
                assert(b.contains(x));
                assert(x != b[0]);
                let m = choose|m: int| 0 <= m < a.len() && a[m] == x;
                assert(m != 0);
                assert(ta[m - 1] == x);
            }
        }
        lemma_sorted_keys_determined(ta, tb);
        assert(a =~= seq![a[0]] + ta);
        assert(b =~= seq![b[0]] + tb);
    }
}

/// The keys a refresh inserted, updated or deleted, by table, and the sessions it touched.
#[derive(Debug, Clone, Default, PartialEq, Eq)]
pub struct IndexDelta {
    pub inserted_session_keys: Vec<i64>,
    pub updated_session_keys: Vec<i64>,
    pub deleted_session_keys: Vec<i64>,
    pub inserted_exec_keys: Vec<i64>,
    pub updated_exec_keys: Vec<i64>,
    pub deleted_exec_keys: Vec<i64>,
    pub inserted_message_keys: Vec<i64>,
    pub updated_message_keys: Vec<i64>,
    pub deleted_message_keys: Vec<i64>,
    pub touched_session_keys: Vec<i64>,
}

/// The key lists of a delta as sequences.
pub struct DeltaView {
    pub inserted_session_keys: Seq<i64>,
    pub updated_session_keys: Seq<i64>,
    pub deleted_session_keys: Seq<i64>,
    pub inserted_exec_keys: Seq<i64>,
    pub updated_exec_keys: Seq<i64>,
    pub deleted_exec_keys: Seq<i64>,
    pub inserted_message_keys: Seq<i64>,
    pub updated_message_keys: Seq<i64>,
    pub deleted_message_keys: Seq<i64>,
    pub touched_session_keys: Seq<i64>,
}

impl View for IndexDelta {
    type V = DeltaView;

    open spec fn view(&self) -> DeltaView {
        DeltaView {
            inserted_session_keys: self.inserted_session_keys@,
            updated_session_keys: self.updated_session_keys@,
            deleted_session_keys: self.deleted_session_keys@,
            inserted_exec_keys: self.inserted_exec_keys@,
            updated_exec_keys: self.updated_exec_keys@,
            deleted_exec_keys: self.deleted_exec_keys@,
            inserted_message_keys: self.inserted_message_keys@,
            updated_message_keys: self.updated_message_keys@,
            deleted_message_keys: self.deleted_message_keys@,
            touched_session_keys: self.touched_session_keys@,
        }
    }
}

/// `after` holds the keys of `before` in increasing order, each once.
pub open spec fn normalized_keys(before: Seq<i64>, after: Seq<i64>) -> bool {
    strictly_increasing(after) && forall|x: i64| after.contains(x) <==> before.contains(x)
}

/// Sorts the session and exec key lists and the touched sessions, each key once; the message
/// key lists stay as they are.
pub fn normalize_delta(delta: &mut IndexDelta)
    ensures
        normalized_keys(old(delta).inserted_session_keys@, final(delta).inserted_session_keys@),
        normalized_keys(old(delta).updated_session_keys@, final(delta).updated_session_keys@),
        normalized_keys(old(delta).deleted_session_keys@, final(delta).deleted_session_keys@),
        normalized_keys(old(delta).inserted_exec_keys@, final(delta).inserted_exec_keys@),
        normalized_keys(old(delta).updated_exec_keys@, final(delta).updated_exec_keys@),
        normalized_keys(old(delta).deleted_exec_keys@, final(delta).deleted_exec_keys@),
        normalized_keys(old(delta).touched_session_keys@, final(delta).touched_session_keys@),
        final(delta).inserted_message_keys@ == old(delta).inserted_message_keys@,
        final(delta).updated_message_keys@ == old(delta).updated_message_keys@,
        final(delta).deleted_message_keys@ == old(delta).deleted_message_keys@,
{
    delta.inserted_session_keys = sorted_unique(&delta.inserted_session_keys);
    delta.updated_session_keys = sorted_unique(&delta.updated_session_keys);
    delta.deleted_session_keys = sorted_unique(&delta.deleted_session_keys);
    delta.inserted_exec_keys = sorted_unique(&delta.inserted_exec_keys);
    delta.updated_exec_keys = sorted_unique(&delta.updated_exec_keys);
    delta.deleted_exec_keys = sorted_unique(&delta.deleted_exec_keys);
    delta.touched_session_keys = sorted_unique(&delta.touched_session_keys);
}

/// What a source log's file looked like when it was read: size and modification time.
#[derive(Debug, Clone, Copy, PartialEq, Eq, Structural)]
pub struct FileFingerprint {
    pub size: u64,
    pub modified_secs: i64,
    pub modified_nanos: u32,
}

/// What a scan does with one source log.
#[derive(Debug, Clone, Copy, PartialEq, Eq, Structural)]
pub enum SourceAction {
    /// The index holds it as it is now.
    Unchanged,
    /// It is read again; `known` tells whether the index held an earlier state of it.
    Parse { known: bool },
}

/// A source log is unchanged where the index holds it with the same fingerprint and not every
/// source is to be read again; else it is read, as a changed source where the index knew it.
pub open spec fn source_action(stored: Option<FileFingerprint>, current: FileFingerprint, force_all: bool) -> SourceAction {
    if !force_all && stored == Some(current) {
        SourceAction::Unchanged
    } else {
        SourceAction::Parse { known: stored is Some }
    }
}

/// What a scan does with one source log (see [`source_action`]).
pub fn classify_source(stored: Option<FileFingerprint>, current: FileFingerprint, force_all: bool) -> (r: SourceAction)
    ensures
        r == source_action(stored, current, force_all),
{
    match stored {
        Some(old) => if !force_all && old == current {
            SourceAction::Unchanged
        } else {
            SourceAction::Parse { known: true }
        },
        None => SourceAction::Parse { known: false },
    }
}

/// A read is kept where the file looked the same before and after it.
pub fn read_was_stable(before: FileFingerprint, after: FileFingerprint) -> (b: bool)
    ensures
        b == (before == after),
{
    before == after
}

/// The stored source paths that the scan no longer found, in stored order.
pub open spec fn missing_paths(stored: Seq<Seq<char>>, current: Seq<Seq<char>>) -> Seq<Seq<char>>
    decreases stored.len(),
{
    if stored.len() == 0 {
        Seq::empty()
    } else {
        let prev = missing_paths(stored.drop_last(), current);
        if current.contains(stored.last()) {
            prev
        } else {
            prev.push(stored.last())
        }
    }
}

/// Whether `paths` holds `p`.
pub(crate) fn contains_text(paths: &[String], p: &String) -> (b: bool)
    ensures
        b == string_views(paths@).contains(p@),
{
    let mut i: usize = 0;
    while i < paths.len()
        invariant
            i <= paths@.len(),
            forall|k: int| 0 <= k < i ==> string_views(paths@)[k] != p@,
        decreases paths.len() - i,
    {
        if paths[i].eq(p) {
            assert(string_views(paths@)[i as int] == p@);
            return true;
        }
        i = i + 1;
    }
    proof {
        if string_views(paths@).contains(p@) {
            let k = choose|k: int| 0 <= k < string_views(paths@).len() && string_views(paths@)[k] == p@;
            assert(string_views(paths@)[k] != p@);
        }
    }
    false
}

/// The stored source paths that the scan no longer found (see [`missing_paths`]).
pub fn deleted_paths(stored: &[String], current: &[String]) -> (r: Vec<String>)
    ensures
        string_views(r@) == missing_paths(string_views(stored@), string_views(current@)),
{
    let ghost sv = string_views(stored@);
    let ghost cv = string_views(current@);
    let mut out: Vec<String> = Vec::new();
    let mut i: usize = 0;
    assert(string_views(out@) =~= missing_paths(sv.take(0), cv));
    while i < stored.len()
        invariant
            i <= stored@.len(),
            sv == string_views(stored@),
            cv == string_views(current@),
            string_views(out@) == missing_paths(sv.take(i as int), cv),
        decreases stored.len() - i,
    {
        assert(sv.take(i + 1).drop_last() =~= sv.take(i as int));
        assert(sv.take(i + 1).last() == stored@[i as int]@);
        if !contains_text(current, &stored[i]) {
            let ghost before = string_views(out@);
            out.push(stored[i].clone());
            assert(string_views(out@) =~= before.push(stored@[i as int]@));
        }
        i = i + 1;
    }
    assert(sv.take(stored@.len() as int) =~= sv);
    out
}

/// The first path that repeats an earlier one.
pub open spec fn first_repeat(paths: Seq<Seq<char>>) -> Option<int>
    decreases paths.len(),
{
    if paths.len() == 0 {
        None
    } else {
        match first_repeat(paths.drop_last()) {
            Some(k) => Some(k),
            None => if paths.drop_last().contains(paths.last()) {
                Some(paths.len() - 1)
            } else {
                None
            },
        }
    }
}

/// The position of the first path that repeats an earlier one (see [`first_repeat`]).
pub fn first_repeated_path(paths: &[String]) -> (r: Option<usize>)
    ensures
        match r {
            Some(k) => first_repeat(string_views(paths@)) == Some(k as int),
            None => first_repeat(string_views(paths@)) is None,
        },
{
    let ghost pv = string_views(paths@);
    let mut seen: Vec<String> = Vec::new();
    let mut i: usize = 0;
    assert(pv.take(0) =~= Seq::<Seq<char>>::empty());
    while i < paths.len()
        invariant
            i <= paths@.len(),
            pv == string_views(paths@),
            string_views(seen@) == pv.take(i as int),
            first_repeat(pv.take(i as int)) is None,
        decreases paths.len() - i,
    {
        assert(pv.take(i + 1).drop_last() =~= pv.take(i as int));
        assert(pv.take(i + 1).last() == paths@[i as int]@);
        if contains_text(&seen, &paths[i]) {
            proof {
                lemma_first_repeat_prefix(pv, i + 1);
            }
            return Some(i);
        }
        let ghost before = string_views(seen@);
        seen.push(paths[i].clone());
        assert(string_views(seen@) =~= before.push(paths@[i as int]@));
        i = i + 1;
    }
    assert(pv.take(paths@.len() as int) =~= pv);
    None
}

proof fn lemma_first_repeat_prefix(paths: Seq<Seq<char>>, k: int)
    requires
        0 <= k <= paths.len(),
        first_repeat(paths.take(k)) is Some,
    ensures
        first_repeat(paths) == first_repeat(paths.take(k)),
    decreases paths.len() - k,
{
    if k < paths.len() {
        assert(paths.drop_last().take(k) =~= paths.take(k));
        lemma_first_repeat_prefix(paths.drop_last(), k);
    } else {
        assert(paths.take(k) =~= paths);
    }
}

/// The text that the full-text index holds for one session, column by column.
#[derive(Debug, Clone, PartialEq, Eq)]
pub struct SearchDocument {
    pub session_key: i64,
    pub first_message: String,
    pub cwd: String,
    pub repository_url: String,
    pub branch: String,
    pub timestamp: String,
    pub date: String,
    pub exec_command: String,
    pub exec_output: String,
}

/// The document of a session: its message, metadata and date, and its commands and their
/// outputs, one per line in event order.
pub fn search_document(
    session_key: i64,
    row: &crate::session::SessionRow,
    commands: &Vec<String>,
    outputs: &Vec<String>,
) -> (r: SearchDocument)
    ensures
        r.session_key == session_key,
        r.first_message@ == row.first_message@,
        r.cwd@ == crate::json::str_or_empty(row@.cwd),
        r.repository_url@ == crate::json::str_or_empty(row@.repository_url),
        r.branch@ == crate::json::str_or_empty(row@.branch),
        r.timestamp@ == crate::json::str_or_empty(row@.timestamp),
        r.date@ == crate::session::date_of(row@),
        r.exec_command@ == join(string_views(commands@), "\n"@),
        r.exec_output@ == join(string_views(outputs@), "\n"@),
{
    assert(commands@.map_values(|p: String| p@) =~= string_views(commands@));
    assert(outputs@.map_values(|p: String| p@) =~= string_views(outputs@));
    SearchDocument {
        session_key,
        first_message: row.first_message.clone(),
        cwd: text_or_empty(&row.cwd),
        repository_url: text_or_empty(&row.repository_url),
        branch: text_or_empty(&row.branch),
        timestamp: text_or_empty(&row.timestamp),
        date: crate::session::session_date(row),
        exec_command: join_strings(commands, "\n"),
        exec_output: join_strings(outputs, "\n"),
    }
}

/// An optional text, or nothing.
fn text_or_empty(o: &Option<String>) -> (r: String)
    ensures
        r@ == crate::json::str_or_empty(crate::text::opt_view(*o)),
{
    match o {
        Some(s) => s.clone(),
        None => String::new(),
    }
}

/// How the full-text index is brought up to date after an incremental refresh.
#[derive(Debug, Clone, Copy, PartialEq, Eq, Structural)]
pub enum FtsSyncMode {
    /// Only the changed sessions' documents are written again.
    Delta,
    /// Every document is written into an empty index.
    Populate,
    /// The index is dropped, made again and filled.
    Rebuild,
}

/// An existing full-text index is trusted for a delta only where it is marked clean and its
/// rows match the sessions one to one.
pub fn preflight_mode(dirty: Option<i64>, rows_mismatch: bool) -> (r: FtsSyncMode)
    ensures
        r == (if dirty != Some(0i64) || rows_mismatch {
            FtsSyncMode::Rebuild
        } else {
            FtsSyncMode::Delta
        }),
{
    match dirty {
        Some(d) => if d != 0 || rows_mismatch {
            FtsSyncMode::Rebuild
        } else {
            FtsSyncMode::Delta
        },
        None => FtsSyncMode::Rebuild,
    }
}

/// The sessions whose documents a delta rewrites: the touched ones that were not deleted, in
/// increasing order, each once.
pub fn documents_to_rewrite(delta: &IndexDelta) -> (r: Vec<i64>)
    ensures
        strictly_increasing(r@),
        forall|x: i64| r@.contains(x) <==> (delta.touched_session_keys@.contains(x)
            && !delta.deleted_session_keys@.contains(x)),
{
    let touched = sorted_unique(&delta.touched_session_keys);
    let mut out: Vec<i64> = Vec::new();
    let mut i: usize = 0;
    while i < touched.len()
        invariant
            i <= touched@.len(),
            strictly_increasing(touched@),
            forall|x: i64| touched@.contains(x) <==> delta.touched_session_keys@.contains(x),
            forall|a: int, b: int| 0 <= a < b < out@.len() ==> out@[a] < out@[b],
            forall|k: int| 0 <= k < out@.len() ==> exists|j: int| 0 <= j < i && touched@[j] == #[trigger] out@[k],
            forall|x: i64| out@.contains(x) <==> (touched@.take(i as int).contains(x)
                && !delta.deleted_session_keys@.contains(x)),
        decreases touched.len() - i,
    {
        let key = touched[i];
        let mut deleted = false;
        let mut j: usize = 0;
        while j < delta.deleted_session_keys.len()
            invariant
                j <= delta.deleted_session_keys@.len(),
                deleted <==> delta.deleted_session_keys@.take(j as int).contains(key),
            decreases delta.deleted_session_keys.len() - j,
        {
            assert(delta.deleted_session_keys@.take(j + 1) =~= delta.deleted_session_keys@.take(j as int).push(
                delta.deleted_session_keys@[j as int],
            ));
            proof {
                lemma_push_contains(
                    delta.deleted_session_keys@.take(j as int),
                    delta.deleted_session_keys@[j as int],
                    key,
                );
            }
            if delta.deleted_session_keys[j] == key {
                deleted = true;
            }
            j = j + 1;
        }
        assert(delta.deleted_session_keys@.take(j as int) =~= delta.deleted_session_keys@);
        let ghost before = out@;
        assert(touched@.take(i + 1) =~= touched@.take(i as int).push(key));
        if !deleted {
            out.push(key);
            assert forall|a: int, b: int| 0 <= a < b < out@.len() implies out@[a] < out@[b] by {
                if b == out@.len() - 1 && a < b {
                    let j0 = choose|j0: int| 0 <= j0 < i && touched@[j0] == #[trigger] before[a];
                    assert(touched@[j0] < touched@[i as int]);
                }
            }
            assert forall|k: int| 0 <= k < out@.len() implies exists|j0: int| 0 <= j0 < i + 1 && touched@[j0] == #[trigger] out@[k] by {
                if k < before.len() {
                    let j0 = choose|j0: int| 0 <= j0 < i && touched@[j0] == #[trigger] before[k];
                    assert(touched@[j0] == out@[k]);
                } else {
                    assert(touched@[i as int] == out@[k]);
                }
            }
        }
        let ghost pre = touched@.take(i as int);
        let ghost post = touched@.take(i + 1);
        assert(post =~= pre.push(key));
        assert forall|x: i64| post.contains(x) <==> (pre.contains(x) || x == key) by {
            if post.contains(x) {
                let k = choose|k: int| 0 <= k < post.len() && #[trigger] post[k] == x;
                if k < i {
                    assert(pre[k] == x);
                }
            }
            if pre.contains(x) {
                let k = choose|k: int| 0 <= k < pre.len() && #[trigger] pre[k] == x;
                assert(post[k] == x);
            }
            if x == key {
                assert(post[i as int] == x);
            }
        }
        assert forall|x: i64| out@.contains(x) <==> (before.contains(x) || (x == key && !deleted)) by {
            if out@.contains(x) {
                let k = choose|k: int| 0 <= k < out@.len() && #[trigger] out@[k] == x;
                if k < before.len() {
                    assert(before[k] == x);
                }
            }
            if before.contains(x) {
                let k = choose|k: int| 0 <= k < before.len() && #[trigger] before[k] == x;
                assert(out@[k] == x);
            }
            if x == key && !deleted {
                assert(out@[out@.len() - 1] == x);
            }
        }
        assert forall|x: i64| out@.contains(x) <==> (post.contains(x)
            && !delta.deleted_session_keys@.contains(x)) by {
            assert(before.contains(x) <==> (pre.contains(x) && !delta.deleted_session_keys@.contains(x)));
        }
        i = i + 1;
    }
    assert(touched@.take(touched@.len() as int) =~= touched@);
    out
}

/// Each run of white space as one space, and no `;` at the end: the form in which stored SQL
/// is compared.
pub open spec fn normalized_sql(sql: Seq<char>) -> Seq<char> {
    trim_semicolons(join(crate::text::words(sql), seq![' ']))
}

/// `s` without the `;` characters at its end.
pub open spec fn trim_semicolons(s: Seq<char>) -> Seq<char>
    decreases s.len(),
{
    if s.len() > 0 && s.last() == ';' {
        trim_semicolons(s.drop_last())
    } else {
        s
    }
}

/// The form in which stored SQL is compared (see [`normalized_sql`]).
pub fn normalize_sql(sql: &str) -> (r: String)
    ensures
        r@ == normalized_sql(sql@),
{
    let words = crate::text::words_of(&chars_of(sql));
    let mut parts: Vec<String> = Vec::new();
    let mut i: usize = 0;
    while i < words.len()
        invariant
            i <= words@.len(),
            string_views(parts@) == views(words@).take(i as int),
        decreases words.len() - i,
    {
        let ghost before = string_views(parts@);
        let w = string_of(&words[i]);
        assert(w@ == views(words@)[i as int]);
        parts.push(w);
        assert(string_views(parts@) =~= before.push(w@));
        assert(views(words@).take(i + 1) =~= views(words@).take(i as int).push(views(words@)[i as int]));
        i = i + 1;
    }
    assert(views(words@).take(words@.len() as int) =~= views(words@));
    assert(parts@.map_values(|p: String| p@) =~= string_views(parts@));
    let sep: Vec<char> = vec![' '];
    assert(sep@ =~= seq![' ']);
    let joined = join_strings(&parts, string_of(&sep).as_str());
    let cs = chars_of(joined.as_str());
    let mut end: usize = cs.len();
    assert(cs@.take(end as int) =~= cs@);
    while end > 0 && cs[end - 1] == ';'
        invariant
            end <= cs@.len(),
            trim_semicolons(cs@) == trim_semicolons(cs@.take(end as int)),
        decreases end,
    {
        assert(cs@.take(end as int).drop_last() =~= cs@.take(end - 1));
        end = end - 1;
    }
    let kept = crate::text::copy_range(&cs, 0, end);
    assert(kept@ =~= cs@.take(end as int));
    string_of(&kept)
}

/// What the index holds, from its `user_version`, whether it has tables, whether they have the
/// legacy layout, and, for versions 1 and 2, the sessions root its validation found or the
/// reason it failed.
pub open spec fn schema_state_of(
    version: i64,
    has_tables: bool,
    legacy: bool,
    validation: Result<Seq<char>, Seq<char>>,
) -> SchemaStateView {
    if version > SCHEMA_VERSION {
        SchemaStateView::Future { version }
    } else if version == 0 && !has_tables {
        SchemaStateView::Empty
    } else if version == 0 && legacy {
        SchemaStateView::Legacy
    } else if version == 1 || version == SCHEMA_VERSION {
        match validation {
            Ok(root) => if version == 1 {
                SchemaStateView::CanonicalV1 { sessions_root: root }
            } else {
                SchemaStateView::Current { sessions_root: root }
            },
            Err(reason) => SchemaStateView::Unknown { version, reason },
        }
    } else {
        SchemaStateView::Unknown {
            version,
            reason: "expected schema version "@ + signed_decimal(SCHEMA_VERSION as int) + ", found "@
                + signed_decimal(version as int),
        }
    }
}

/// A schema state as a mathematical value.
pub enum SchemaStateView {
    Empty,
    Legacy,
    CanonicalV1 { sessions_root: Seq<char> },
    Current { sessions_root: Seq<char> },
    Future { version: i64 },
    Unknown { version: i64, reason: Seq<char> },
}

impl View for SchemaState {
    type V = SchemaStateView;

    open spec fn view(&self) -> SchemaStateView {
        match self {
            SchemaState::Empty => SchemaStateView::Empty,
            SchemaState::Legacy => SchemaStateView::Legacy,
            SchemaState::CanonicalV1 { sessions_root } => SchemaStateView::CanonicalV1 { sessions_root: sessions_root@ },
            SchemaState::Current { sessions_root } => SchemaStateView::Current { sessions_root: sessions_root@ },
            SchemaState::Future { version } => SchemaStateView::Future { version: *version },
            SchemaState::Unknown { version, reason } => SchemaStateView::Unknown { version: *version, reason: reason@ },
        }
    }
}

/// What the index holds (see [`schema_state_of`]). The caller asks whether the layout is
/// legacy only for version 0 with tables, and validates only versions 1 and 2; what it passes
/// otherwise is not read.
pub fn classify_schema(
    version: i64,
    has_tables: bool,
    legacy: bool,
    validation: Result<String, String>,
) -> (r: SchemaState)
    ensures
        r@ == schema_state_of(
            version,
            has_tables,
            legacy,
            match validation {
                Ok(root) => Ok(root@),
                Err(reason) => Err(reason@),
            },
        ),
{
    if version > SCHEMA_VERSION {
        SchemaState::Future { version }
    } else if version == 0 && !has_tables {
        SchemaState::Empty
    } else if version == 0 && legacy {
        SchemaState::Legacy
    } else if version == 1 || version == SCHEMA_VERSION {
        match validation {
            Ok(root) => if version == 1 {
                SchemaState::CanonicalV1 { sessions_root: root }
            } else {
                SchemaState::Current { sessions_root: root }
            },
            Err(reason) => SchemaState::Unknown { version, reason },
        }
    } else {
        let mut reason = String::from_str("expected schema version ");
        reason.append(signed_decimal_text(SCHEMA_VERSION).as_str());
        reason.append(", found ");
        reason.append(signed_decimal_text(version).as_str());
        SchemaState::Unknown { version, reason }
    }
}


/// Whether a refresh parses every source again, whatever its fingerprint: an index of version 1
/// gains its full-text table from the parsed logs.
pub fn must_reparse_all(state: &SchemaState) -> (b: bool)
    ensures
        b == (*state is CanonicalV1),
{
    match state {
        SchemaState::CanonicalV1 { .. } => true,
        _ => false,
    }
}

/// How the full-text index is prepared before the sessions are written.
#[derive(Debug, Clone, Copy, PartialEq, Eq, Structural)]
pub enum FtsStart {
    /// A version 1 index updated in place: the full-text tables are created, then filled.
    Create,
    /// A current index updated in place: its state decides (see [`preflight_mode`]).
    Check,
    /// A rebuilt index: the schema is new, and the index is filled.
    Fill,
}

/// How the full-text index is prepared for a refresh in `mode` of an index in `state`.
pub fn fts_start(state: &SchemaState, mode: IndexMode) -> (r: FtsStart)
    ensures
        r == (if mode == IndexMode::Incremental && *state is CanonicalV1 {
            FtsStart::Create
        } else if mode == IndexMode::Incremental && *state is Current {
            FtsStart::Check
        } else {
            FtsStart::Fill
        }),
{
    match (state, mode) {
        (SchemaState::CanonicalV1 { .. }, IndexMode::Incremental) => FtsStart::Create,
        (SchemaState::Current { .. }, IndexMode::Incremental) => FtsStart::Check,
        _ => FtsStart::Fill,
    }
}

/// The refusal of a migration from version 1 while sources were changing during the scan.
pub open spec fn migration_refusal(unstable: nat) -> Seq<char> {
    "cannot migrate index schema to "@ + signed_decimal(SCHEMA_VERSION as int) + " while "@
        + decimal(unstable) + " source files are changing; retry the index refresh"@
}

/// A migration from version 1 reads every source; it is refused while some of them changed as
/// they were read.
pub fn migration_check(state: &SchemaState, unstable: usize) -> (r: Result<(), String>)
    ensures
        match r {
            Ok(()) => !(*state is CanonicalV1 && unstable > 0),
            Err(e) => *state is CanonicalV1 && unstable > 0 && e@ == migration_refusal(unstable as nat),
        },
{
    if must_reparse_all(state) && unstable > 0 {
        let mut m = String::from_str("cannot migrate index schema to ");
        m.append(signed_decimal_text(SCHEMA_VERSION).as_str());
        m.append(" while ");
        m.append(decimal_text(unstable as u64).as_str());
        m.append(" source files are changing; retry the index refresh");
        Err(m)
    } else {
        Ok(())
    }
}


/// The refresh's rules of mode: a newer schema is never overwritten, whatever is asked; an
/// unrecognized one is replaced exactly when a rebuild is asked for; an empty or legacy index
/// is always rebuilt; a rebuild that is asked for is done wherever the schema is not newer;
/// and a canonical index is updated in place exactly when no rebuild is asked for and its
/// sessions root is the one given.
pub proof fn lemma_mode_rules(state: SchemaState, root: Seq<char>, rebuild: bool)
    ensures
        state is Future ==> chosen_mode(state, root, rebuild) is Err,
        state is Unknown ==> (chosen_mode(state, root, rebuild) is Ok <==> rebuild),
        (state is Empty || state is Legacy) ==> chosen_mode(state, root, rebuild) == Ok::<IndexMode, Seq<char>>(
            IndexMode::Rebuild,
        ),
        rebuild && !(state is Future) ==> chosen_mode(state, root, rebuild) == Ok::<IndexMode, Seq<char>>(
            IndexMode::Rebuild,
        ),
        (chosen_mode(state, root, rebuild) == Ok::<IndexMode, Seq<char>>(IndexMode::Incremental)) <==> (!rebuild
            && match state {
            SchemaState::CanonicalV1 { sessions_root } => sessions_root@ == root,
            SchemaState::Current { sessions_root } => sessions_root@ == root,
            _ => false,
        }),
{
}


/// Whether a source's log gave a session (indexed) or not (skipped), as `source_files` records it.
#[derive(Debug, Clone, Copy, PartialEq, Eq, Structural)]
pub enum ParseStatus {
    Indexed,
    Skipped,
}

/// The name of a parse status in the index.
pub open spec fn status_name(s: ParseStatus) -> Seq<char> {
    match s {
        ParseStatus::Indexed => "indexed"@,
        ParseStatus::Skipped => "skipped"@,
    }
}

impl ParseStatus {
    /// The status of a source whose log gave a session or not.
    pub fn of_parse(has_session: bool) -> (r: ParseStatus)
        ensures
            r == (if has_session {
                ParseStatus::Indexed
            } else {
                ParseStatus::Skipped
            }),
    {
        if has_session {
            ParseStatus::Indexed
        } else {
            ParseStatus::Skipped
        }
    }

    /// The name the index stores.
    pub fn as_str(self) -> (r: &'static str)
        ensures
            r@ == status_name(self),
    {
        match self {
            ParseStatus::Indexed => "indexed",
            ParseStatus::Skipped => "skipped",
        }
    }

    /// The status a stored name stands for (see [`status_named`]).
    pub fn from_name(name: &str) -> (r: Option<ParseStatus>)
        ensures
            r == status_named(name@),
    {
        let text = String::from_str(name);
        if crate::text::text_is(&text, "indexed") {
            Some(ParseStatus::Indexed)
        } else if crate::text::text_is(&text, "skipped") {
            Some(ParseStatus::Skipped)
        } else {
            None
        }
    }
}

/// The status a stored name stands for; none for any other text.
pub open spec fn status_named(name: Seq<char>) -> Option<ParseStatus> {
    if name == "indexed"@ {
        Some(ParseStatus::Indexed)
    } else if name == "skipped"@ {
        Some(ParseStatus::Skipped)
    } else {
        None
    }
}

/// The name of a status reads back as that status.
pub proof fn lemma_status_name_round_trip(s: ParseStatus)
    ensures
        status_named(status_name(s)) == Some(s),
{
    reveal_strlit("indexed");
    reveal_strlit("skipped");
    assert("indexed"@[0] != "skipped"@[0]);
}

} // verus!
