//! The one-line summary of a session in the selector's list, its horizontal scrolling, and
//! the command that resumes a session.

use vstd::prelude::*;

use crate::json::str_or_empty;
use crate::session::{SessionRow, SessionRowView, date_of, session_date};
use crate::text::{all_white, chars_of, copy_range, is_blank, opt_view, string_of};

verus! {

/// A text, or `-` where it is blank.
pub open spec fn dash(value: Seq<char>) -> Seq<char> {
    if all_white(value) {
        "-"@
    } else {
        value
    }
}

/// A text, or `-` where it is blank.
pub fn dash_empty(value: &str) -> (r: String)
    ensures
        r@ == dash(value@),
{
    if is_blank(&chars_of(value)) {
        String::from_str("-")
    } else {
        String::from_str(value)
    }
}

/// An optional text, or nothing.
fn text_or_empty(o: &Option<String>) -> (r: String)
    ensures
        r@ == str_or_empty(opt_view(*o)),
{
    match o {
        Some(s) => s.clone(),
        None => String::new(),
    }
}

/// The pieces of a row's summary: its date, cwd, branch and repository, each `-` where blank,
/// with ` | ` between them.
pub open spec fn metadata_texts(row: SessionRowView) -> Seq<Seq<char>> {
    seq![
        dash(date_of(row)),
        " | "@,
        dash(str_or_empty(row.cwd)),
        " | "@,
        dash(str_or_empty(row.branch)),
        " | "@,
        dash(str_or_empty(row.repository_url)),
    ]
}

/// The texts of a sequence of strings.
pub open spec fn string_views(v: Seq<String>) -> Seq<Seq<char>> {
    v.map_values(|s: String| s@)
}

/// The pieces of a row's summary (see [`metadata_texts`]).
pub fn metadata_segments(row: &SessionRow) -> (r: Vec<String>)
    ensures
        string_views(r@) == metadata_texts(row@),
{
    let date = session_date(row);
    let mut out: Vec<String> = Vec::new();
    out.push(dash_empty(date.as_str()));
    out.push(String::from_str(" | "));
    out.push(dash_empty(text_or_empty(&row.cwd).as_str()));
    out.push(String::from_str(" | "));
    out.push(dash_empty(text_or_empty(&row.branch).as_str()));
    out.push(String::from_str(" | "));
    out.push(dash_empty(text_or_empty(&row.repository_url).as_str()));
    assert(string_views(out@) =~= metadata_texts(row@));
    out
}

/// The pieces joined without separator.
pub open spec fn concat(parts: Seq<Seq<char>>) -> Seq<char>
    decreases parts.len(),
{
    if parts.len() == 0 {
        Seq::empty()
    } else {
        concat(parts.drop_last()) + parts.last()
    }
}

/// The pieces joined without separator.
pub fn concat_strings(parts: &Vec<String>) -> (r: String)
    ensures
        r@ == concat(string_views(parts@)),
{
    let ghost ps = string_views(parts@);
    let mut out = String::new();
    let mut i: usize = 0;
    assert(ps.take(0) =~= Seq::<Seq<char>>::empty());
    while i < parts.len()
        invariant
            i <= parts@.len(),
            ps == string_views(parts@),
            out@ == concat(ps.take(i as int)),
        decreases parts.len() - i,
    {
        assert(ps.take(i + 1).drop_last() =~= ps.take(i as int));
        out.append(parts[i].as_str());
        i = i + 1;
    }
    assert(ps.take(parts@.len() as int) =~= ps);
    out
}

/// A row's summary as plain text.
pub fn metadata_plain(row: &SessionRow) -> (r: String)
    ensures
        r@ == concat(metadata_texts(row@)),
{
    concat_strings(&metadata_segments(row))
}

/// The visible parts of the segments from segment `k` on, when `remaining` characters are
/// scrolled off to the left; each part comes with its segment's index, and a segment that is
/// scrolled off entirely gives none.
pub open spec fn scrolled_from(segs: Seq<Seq<char>>, k: int, remaining: int) -> Seq<(int, Seq<char>)>
    decreases segs.len() - k,
{
    if k < 0 || k >= segs.len() {
        Seq::empty()
    } else if remaining >= segs[k].len() {
        scrolled_from(segs, k + 1, remaining - segs[k].len())
    } else {
        seq![(k, segs[k].skip(remaining))] + scrolled_from(segs, k + 1, 0)
    }
}

/// The views of scrolled parts.
pub open spec fn part_views(v: Seq<(usize, String)>) -> Seq<(int, Seq<char>)> {
    v.map_values(|p: (usize, String)| (p.0 as int, p.1@))
}

/// The visible parts of the segments when `scroll` characters are scrolled off to the left,
/// each with its segment's index (see [`scrolled_from`]).
pub fn scrolled_segments(segments: &[String], scroll: usize) -> (r: Vec<(usize, String)>)
    ensures
        part_views(r@) == scrolled_from(string_views(segments@), 0, scroll as int),
{
    let ghost sv = string_views(segments@);
    let mut out: Vec<(usize, String)> = Vec::new();
    let mut remaining: usize = scroll;
    let mut k: usize = 0;
    assert(scrolled_from(sv, 0, scroll as int) =~= part_views(out@) + scrolled_from(sv, 0, scroll as int));
    while k < segments.len()
        invariant
            k <= segments@.len(),
            sv == string_views(segments@),
            scrolled_from(sv, 0, scroll as int) == part_views(out@) + scrolled_from(
                sv,
                k as int,
                remaining as int,
            ),
        decreases segments.len() - k,
    {
        let cs = chars_of(segments[k].as_str());
        assert(sv[k as int] == cs@);
        let count: usize = cs.len();
        if remaining >= count {
            remaining = remaining - count;
        } else {
            let visible = copy_range(&cs, remaining, count);
            assert(visible@ =~= sv[k as int].skip(remaining as int));
            let text = string_of(&visible);
            let ghost before = part_views(out@);
            out.push((k, text));
            assert(part_views(out@) =~= before.push((k as int, text@)));
            assert(part_views(out@) + scrolled_from(sv, k + 1, 0) =~= before + (seq![
                (k as int, sv[k as int].skip(remaining as int)),
            ] + scrolled_from(sv, k + 1, 0)));
            remaining = 0;
        }
        k = k + 1;
    }
    assert(scrolled_from(sv, k as int, remaining as int) =~= Seq::<(int, Seq<char>)>::empty());
    assert(part_views(out@) + Seq::<(int, Seq<char>)>::empty() =~= part_views(out@));
    out
}

/// The command that resumes a session, where it has a non-blank id.
pub open spec fn resume_for(row: SessionRowView) -> Option<Seq<char>> {
    match row.id {
        Some(id) => if all_white(id) {
            None
        } else {
            Some("codex resume "@ + id)
        },
        None => None,
    }
}

/// The command that resumes a session, where it has a non-blank id.
pub fn resume_command(row: &SessionRow) -> (r: Option<String>)
    ensures
        opt_view(r) == resume_for(row@),
{
    match &row.id {
        Some(id) => {
            if is_blank(&chars_of(id.as_str())) {
                None
            } else {
                let mut out = String::from_str("codex resume ");
                out.append(id.as_str());
                Some(out)
            }
        },
        None => None,
    }
}

/// The texts of scrolled parts.
pub open spec fn part_texts(parts: Seq<(int, Seq<char>)>) -> Seq<Seq<char>> {
    parts.map_values(|p: (int, Seq<char>)| p.1)
}

/// A text without its first `r` characters; nothing where it is no longer.
pub open spec fn skip_chars(t: Seq<char>, r: int) -> Seq<char> {
    if r >= t.len() {
        Seq::empty()
    } else {
        t.skip(r)
    }
}

proof fn lemma_concat_front(s: Seq<Seq<char>>)
    requires
        s.len() > 0,
    ensures
        concat(s) == s[0] + concat(s.drop_first()),
    decreases s.len(),
{
    if s.len() == 1 {
        assert(s.drop_first() =~= Seq::<Seq<char>>::empty());
        assert(s.drop_last() =~= Seq::<Seq<char>>::empty());
        assert(concat(s.drop_last()) =~= Seq::<char>::empty());
        assert(concat(s) =~= s[0]);
        assert(s[0] + concat(s.drop_first()) =~= s[0]);
    } else {
        lemma_concat_front(s.drop_last());
        assert(s.drop_last().drop_first() =~= s.drop_first().drop_last());
        assert(s.drop_first().last() == s.last());
        assert(s.drop_last()[0] == s[0]);
        assert(concat(s) =~= s[0] + concat(s.drop_first()));
    }
}

proof fn lemma_scrolled_from(segs: Seq<Seq<char>>, k: int, r: int)
    requires
        0 <= k <= segs.len(),
        r >= 0,
    ensures
        concat(part_texts(scrolled_from(segs, k, r))) == skip_chars(concat(segs.skip(k)), r),
    decreases segs.len() - k,
{
    if k == segs.len() {
        assert(segs.skip(k) =~= Seq::<Seq<char>>::empty());
        assert(part_texts(scrolled_from(segs, k, r)) =~= Seq::<Seq<char>>::empty());
    } else {
        let t = segs[k];
        let rest = concat(segs.skip(k + 1));
        lemma_concat_front(segs.skip(k));
        assert(segs.skip(k).drop_first() =~= segs.skip(k + 1));
        assert(segs.skip(k)[0] == t);
        if r >= t.len() {
            lemma_scrolled_from(segs, k + 1, r - t.len());
            if r < t.len() + rest.len() {
                assert((t + rest).skip(r) =~= rest.skip(r - t.len()));
            }
        } else {
            lemma_scrolled_from(segs, k + 1, 0);
            let sc = scrolled_from(segs, k + 1, 0);
            let whole = seq![(k, t.skip(r))] + sc;
            assert(part_texts(whole) =~= seq![t.skip(r)] + part_texts(sc));
            lemma_concat_front(part_texts(whole));
            assert((seq![t.skip(r)] + part_texts(sc)).drop_first() =~= part_texts(sc));
            assert(skip_chars(rest, 0) =~= rest);
            assert((t + rest).skip(r) =~= t.skip(r) + rest);
        }
    }
}

/// Scrolling a row of segments by `scroll` characters shows the row's whole text without its
/// first `scroll` characters.
pub proof fn lemma_scrolled_text(segs: Seq<Seq<char>>, scroll: int)
    requires
        scroll >= 0,
    ensures
        concat(part_texts(scrolled_from(segs, 0, scroll))) == skip_chars(concat(segs), scroll),
{
    lemma_scrolled_from(segs, 0, scroll);
    assert(segs.skip(0) =~= segs);
}

} // verus!
