//! Search queries: what the user types, parsed into groups of terms, and the full-text match
//! expression that a parsed query compiles to.

use vstd::prelude::*;

use crate::text::{char_is_whitespace, chars_of, is_white, join, join_strings, string_of};

verus! {

/// Which column of the index a search looks in.
#[derive(Debug, Clone, Copy, PartialEq, Eq, Structural)]
pub enum SearchScope {
    All,
    FirstMessage,
    Cwd,
    Branch,
    Repository,
    Date,
    Exec,
}

/// One term of a query: a bare word, matched as a prefix, or a quoted phrase.
#[derive(Debug, Clone, PartialEq, Eq)]
pub enum QueryAtom {
    Prefix(String),
    Phrase(String),
}

/// Terms that must all match.
#[derive(Debug, Clone, PartialEq, Eq)]
pub struct QueryGroup {
    pub atoms: Vec<QueryAtom>,
}

/// Groups of terms, one of which must match.
#[derive(Debug, Clone, PartialEq, Eq)]
pub struct SearchQuery {
    pub groups: Vec<QueryGroup>,
}

/// Why a query was refused.
#[derive(Debug, Clone, Copy, PartialEq, Eq, Structural)]
pub enum QueryError {
    NoSearchableToken,
    InvalidOr,
}

/// The message of a query error.
pub open spec fn error_message(e: QueryError) -> Seq<char> {
    match e {
        QueryError::NoSearchableToken => "query contains no searchable token"@,
        QueryError::InvalidOr => "OR requires an expression on both sides"@,
    }
}

impl QueryError {
    /// The message shown for this error.
    pub fn message(&self) -> (s: &'static str)
        ensures
            s@ == error_message(*self),
    {
        match self {
            QueryError::NoSearchableToken => "query contains no searchable token",
            QueryError::InvalidOr => "OR requires an expression on both sides",
        }
    }
}

/// A query term as a mathematical value.
pub enum AtomView {
    Prefix(Seq<char>),
    Phrase(Seq<char>),
}

impl View for QueryAtom {
    type V = AtomView;

    open spec fn view(&self) -> AtomView {
        match self {
            QueryAtom::Prefix(t) => AtomView::Prefix(t@),
            QueryAtom::Phrase(t) => AtomView::Phrase(t@),
        }
    }
}

/// The views of a sequence of terms.
pub open spec fn atom_views(atoms: Seq<QueryAtom>) -> Seq<AtomView> {
    atoms.map_values(|a: QueryAtom| a@)
}

/// The views of a sequence of groups.
pub open spec fn group_views(groups: Seq<QueryGroup>) -> Seq<Seq<AtomView>> {
    groups.map_values(|g: QueryGroup| atom_views(g.atoms@))
}

/// The position of the first character at or after `i` that is not white space.
pub open spec fn skip_white(s: Seq<char>, i: int) -> int
    decreases s.len() - i,
{
    if 0 <= i < s.len() && is_white(s[i]) {
        skip_white(s, i + 1)
    } else {
        i
    }
}

/// The position of the first white-space character at or after `i`.
pub open spec fn word_end(s: Seq<char>, i: int) -> int
    decreases s.len() - i,
{
    if 0 <= i < s.len() && !is_white(s[i]) {
        word_end(s, i + 1)
    } else {
        i
    }
}

/// The text of a quoted phrase whose body starts at `i`, and the position after it. The phrase
/// ends at the next unescaped `"` or at the end of the input; `\"` and `\\` stand for `"` and
/// `\`, and any other backslash for itself.
pub open spec fn quoted(s: Seq<char>, i: int) -> (Seq<char>, int)
    decreases s.len() - i,
{
    if !(0 <= i < s.len()) {
        (Seq::empty(), i)
    } else if s[i] == '"' {
        (Seq::empty(), i + 1)
    } else if s[i] == '\\' && i + 1 < s.len() && (s[i + 1] == '"' || s[i + 1] == '\\') {
        let r = quoted(s, i + 2);
        (seq![s[i + 1]] + r.0, r.1)
    } else {
        let r = quoted(s, i + 1);
        (seq![s[i]] + r.0, r.1)
    }
}

/// A piece of a query: a quoted phrase, or a run of characters without white space.
pub enum Lexeme {
    Quoted(Seq<char>),
    Bare(Seq<char>),
}

/// Skipping white space moves forward and stays within the text.
pub proof fn lemma_skip_white(s: Seq<char>, i: int)
    requires
        0 <= i,
    ensures
        i <= skip_white(s, i),
        i <= s.len() ==> skip_white(s, i) <= s.len(),
        skip_white(s, i) < s.len() ==> !is_white(s[skip_white(s, i)]),
    decreases s.len() - i,
{
    if 0 <= i < s.len() && is_white(s[i]) {
        lemma_skip_white(s, i + 1);
    }
}

/// A word ends at or after its start, and after it where the start is not white space.
pub proof fn lemma_word_end(s: Seq<char>, i: int)
    requires
        0 <= i <= s.len(),
    ensures
        i <= word_end(s, i) <= s.len(),
        i < s.len() && !is_white(s[i]) ==> i < word_end(s, i),
    decreases s.len() - i,
{
    if 0 <= i < s.len() && !is_white(s[i]) {
        lemma_word_end(s, i + 1);
    }
}

/// Reading a quoted phrase moves forward and stays within the text.
pub proof fn lemma_quoted(s: Seq<char>, i: int)
    requires
        0 <= i <= s.len(),
    ensures
        i <= quoted(s, i).1 <= s.len(),
    decreases s.len() - i,
{
    if !(0 <= i < s.len()) {
    } else if s[i] == '"' {
    } else if s[i] == '\\' && i + 1 < s.len() && (s[i + 1] == '"' || s[i + 1] == '\\') {
        lemma_quoted(s, i + 2);
    } else {
        lemma_quoted(s, i + 1);
    }
}

/// The pieces of a query from position `i` on.
pub open spec fn lexemes(s: Seq<char>, i: int) -> Seq<Lexeme>
    decreases s.len() - i,
{
    let j = skip_white(s, i);
    if i < 0 || !(0 <= j < s.len()) {
        Seq::empty()
    } else if s[j] == '"' {
        proof {
            lemma_skip_white(s, i);
            lemma_quoted(s, j + 1);
        }
        let q = quoted(s, j + 1);
        seq![Lexeme::Quoted(q.0)] + lexemes(s, q.1)
    } else {
        proof {
            lemma_skip_white(s, i);
            lemma_word_end(s, j);
        }
        let k = word_end(s, j);
        seq![Lexeme::Bare(s.subrange(j, k))] + lexemes(s, k)
    }
}

/// A query token: a term, or the `|` that separates groups.
pub enum TokenView {
    Atom(AtomView),
    Or,
}

/// The token that a piece of a query stands for.
pub open spec fn lexeme_token(l: Lexeme) -> TokenView {
    match l {
        Lexeme::Quoted(t) => TokenView::Atom(AtomView::Phrase(t)),
        Lexeme::Bare(w) => if w == seq!['|'] {
            TokenView::Or
        } else {
            TokenView::Atom(AtomView::Prefix(w))
        },
    }
}

/// What `char::is_alphanumeric` answers (the Unicode `Alphabetic` or `Numeric` property).
pub uninterp spec fn alphanumeric(c: char) -> bool;

/// `char::is_alphanumeric`. Its result is the named `alphanumeric` of the character; the Unicode
/// tables it consults are not written out.
#[verifier::external_body]
fn char_is_alphanumeric(c: char) -> (b: bool)
    ensures
        b == alphanumeric(c),
{
    c.is_alphanumeric()
}

/// A text holds a letter or a digit.
pub open spec fn searchable(t: Seq<char>) -> bool {
    exists|k: int| 0 <= k < t.len() && alphanumeric(#[trigger] t[k])
}

/// The text of a term.
pub open spec fn atom_text(a: AtomView) -> Seq<char> {
    match a {
        AtomView::Prefix(t) => t,
        AtomView::Phrase(t) => t,
    }
}

/// A piece is acceptable: it is a `|`, or its text is searchable.
pub open spec fn lexeme_ok(l: Lexeme) -> bool {
    match lexeme_token(l) {
        TokenView::Or => true,
        TokenView::Atom(a) => searchable(atom_text(a)),
    }
}

/// The groups of a token sequence, split at each `|`.
pub open spec fn query_groups(tokens: Seq<TokenView>) -> Seq<Seq<AtomView>>
    decreases tokens.len(),
{
    if tokens.len() == 0 {
        seq![Seq::empty()]
    } else {
        let prev = query_groups(tokens.drop_last());
        match tokens.last() {
            TokenView::Or => prev.push(Seq::empty()),
            TokenView::Atom(a) => prev.drop_last().push(prev.last().push(a)),
        }
    }
}

/// Some group is empty.
pub open spec fn has_empty_group(gs: Seq<Seq<AtomView>>) -> bool {
    exists|k: int| 0 <= k < gs.len() && (#[trigger] gs[k]).len() == 0
}

/// What a query text parses to: `NoSearchableToken` where a term holds no letter or digit,
/// else no groups for a blank text, `InvalidOr` where a `|` lacks a term on either side, and
/// otherwise the groups of terms.
pub open spec fn parsed_query(s: Seq<char>) -> Result<Seq<Seq<AtomView>>, QueryError> {
    let ls = lexemes(s, 0);
    if exists|k: int| 0 <= k < ls.len() && !lexeme_ok(#[trigger] ls[k]) {
        Err(QueryError::NoSearchableToken)
    } else {
        let ts = ls.map_values(|l: Lexeme| lexeme_token(l));
        if ts.len() == 0 {
            Ok(Seq::empty())
        } else if has_empty_group(query_groups(ts)) {
            Err(QueryError::InvalidOr)
        } else {
            Ok(query_groups(ts))
        }
    }
}

/// Checks that a text holds a letter or a digit.
pub fn ensure_searchable(text: &str) -> (r: Result<(), QueryError>)
    ensures
        r is Ok <==> searchable(text@),
        r matches Err(e) ==> e == QueryError::NoSearchableToken,
{
    let cs = chars_of(text);
    let mut i: usize = 0;
    while i < cs.len()
        invariant
            i <= cs@.len(),
            cs@ == text@,
            forall|k: int| 0 <= k < i ==> !alphanumeric(#[trigger] cs@[k]),
        decreases cs.len() - i,
    {
        if char_is_alphanumeric(cs[i]) {
            return Ok(());
        }
        i = i + 1;
    }
    Err(QueryError::NoSearchableToken)
}

/// The position of the first character at or after `i` that is not white space.
fn skip_white_at(s: &[char], i: usize) -> (r: usize)
    requires
        i <= s@.len(),
    ensures
        r == skip_white(s@, i as int),
        i <= r <= s@.len(),
{
    let mut j: usize = i;
    while j < s.len() && char_is_whitespace(s[j])
        invariant
            i <= j <= s@.len(),
            skip_white(s@, i as int) == skip_white(s@, j as int),
        decreases s.len() - j,
    {
        j = j + 1;
    }
    j
}

/// The position of the first white-space character at or after `i`.
fn word_end_at(s: &[char], i: usize) -> (r: usize)
    requires
        i <= s@.len(),
    ensures
        r == word_end(s@, i as int),
        i <= r <= s@.len(),
{
    let mut j: usize = i;
    while j < s.len() && !char_is_whitespace(s[j])
        invariant
            i <= j <= s@.len(),
            word_end(s@, i as int) == word_end(s@, j as int),
        decreases s.len() - j,
    {
        j = j + 1;
    }
    j
}

/// The text of the quoted phrase whose body starts at `start`, and the position after it.
fn read_phrase(s: &[char], start: usize) -> (r: (Vec<char>, usize))
    requires
        start <= s@.len(),
    ensures
        r.0@ == quoted(s@, start as int).0,
        r.1 == quoted(s@, start as int).1,
{
    let n: usize = s.len();
    let mut text: Vec<char> = Vec::new();
    let mut i: usize = start;
    loop
        invariant
            start <= i <= n == s@.len(),
            text@ + quoted(s@, i as int).0 == quoted(s@, start as int).0,
            quoted(s@, i as int).1 == quoted(s@, start as int).1,
        decreases n - i,
    {
        if i >= n {
            assert(text@ + Seq::<char>::empty() =~= text@);
            return (text, i);
        }
        let c = s[i];
        if c == '"' {
            assert(text@ + Seq::<char>::empty() =~= text@);
            return (text, i + 1);
        }
        let ghost old_text = text@;
        if c == '\\' && i + 1 < n && (s[i + 1] == '"' || s[i + 1] == '\\') {
            let d = s[i + 1];
            text.push(d);
            assert(text@ + quoted(s@, i + 2).0 =~= old_text + (seq![d] + quoted(s@, i + 2).0));
            i = i + 2;
        } else {
            text.push(c);
            assert(text@ + quoted(s@, i + 1).0 =~= old_text + (seq![c] + quoted(s@, i + 1).0));
            i = i + 1;
        }
    }
}

/// A token of a query before the tokens are grouped.
enum Token {
    Atom(QueryAtom),
    Or,
}

/// The view of a token.
spec fn token_view(t: Token) -> TokenView {
    match t {
        Token::Atom(a) => TokenView::Atom(a@),
        Token::Or => TokenView::Or,
    }
}

/// The views of a sequence of tokens.
spec fn token_views(ts: Seq<Token>) -> Seq<TokenView> {
    ts.map_values(|t: Token| token_view(t))
}

/// Splits a query text into its tokens, refusing the first term without a letter or digit.
fn lex_query(s: &[char]) -> (r: Result<Vec<Token>, QueryError>)
    ensures
        match r {
            Ok(ts) => {
                &&& forall|k: int| 0 <= k < lexemes(s@, 0).len() ==> lexeme_ok(#[trigger] lexemes(s@, 0)[k])
                &&& token_views(ts@) == lexemes(s@, 0).map_values(|l: Lexeme| lexeme_token(l))
            },
            Err(e) => {
                &&& e == QueryError::NoSearchableToken
                &&& exists|k: int| 0 <= k < lexemes(s@, 0).len() && !lexeme_ok(#[trigger] lexemes(s@, 0)[k])
            },
        },
{
    let n: usize = s.len();
    let mut tokens: Vec<Token> = Vec::new();
    let mut i: usize = 0;
    let ghost mut done: Seq<Lexeme> = Seq::empty();
    assert(lexemes(s@, 0) =~= done + lexemes(s@, 0));
    loop
        invariant
            i <= n == s@.len(),
            lexemes(s@, 0) == done + lexemes(s@, i as int),
            token_views(tokens@) == done.map_values(|l: Lexeme| lexeme_token(l)),
            forall|k: int| 0 <= k < done.len() ==> lexeme_ok(#[trigger] done[k]),
        decreases n - i,
    {
        let start = i;
        let j = skip_white_at(s, i);
        if j >= n {
            assert(lexemes(s@, start as int) =~= Seq::<Lexeme>::empty());
            assert(lexemes(s@, 0) =~= done);
            assert(token_views(tokens@) =~= lexemes(s@, 0).map_values(|l: Lexeme| lexeme_token(l)));
            return Ok(tokens);
        }
        let ghost before = token_views(tokens@);
        if s[j] == '"' {
            let (text, next) = read_phrase(s, j + 1);
            proof {
                lemma_quoted(s@, j + 1);
            }
            let ghost lex = Lexeme::Quoted(text@);
            assert(lexemes(s@, start as int) == seq![lex] + lexemes(s@, next as int));
            assert((done + lexemes(s@, start as int))[done.len() as int] == lex);
            let phrase = string_of(&text);
            match ensure_searchable(phrase.as_str()) {
                Err(e) => {
                    assert(!lexeme_ok(lexemes(s@, 0)[done.len() as int]));
                    return Err(e);
                },
                Ok(()) => {},
            }
            tokens.push(Token::Atom(QueryAtom::Phrase(phrase)));
            proof {
                assert(lexemes(s@, 0) =~= done.push(lex) + lexemes(s@, next as int));
                assert(token_views(tokens@) =~= before.push(lexeme_token(lex)));
                assert(done.push(lex).map_values(|l: Lexeme| lexeme_token(l)) =~= done.map_values(
                    |l: Lexeme| lexeme_token(l),
                ).push(lexeme_token(lex)));
                done = done.push(lex);
            }
            i = next;
        } else {
            let k = word_end_at(s, j);
            proof {
                lemma_word_end(s@, j as int);
            }
            let word = crate::text::copy_range(s, j, k);
            let ghost lex = Lexeme::Bare(word@);
            assert(lexemes(s@, start as int) == seq![lex] + lexemes(s@, k as int));
            assert((done + lexemes(s@, start as int))[done.len() as int] == lex);
            let is_or = k == j + 1 && s[j] == '|';
            assert(is_or <==> word@ == seq!['|']) by {
                if word@ == seq!['|'] {
                    assert(word@.len() == 1);
                    assert(word@[0] == s@[j as int]);
                }
                if is_or {
                    assert(word@ =~= seq!['|']);
                }
            }
            let text = string_of(&word);
            if is_or {
                tokens.push(Token::Or);
            } else {
                match ensure_searchable(text.as_str()) {
                    Err(e) => {
                        assert(!lexeme_ok(lexemes(s@, 0)[done.len() as int]));
                        return Err(e);
                    },
                    Ok(()) => {},
                }
                tokens.push(Token::Atom(QueryAtom::Prefix(text)));
            }
            proof {
                assert(lexemes(s@, 0) =~= done.push(lex) + lexemes(s@, k as int));
                assert(token_views(tokens@) =~= before.push(lexeme_token(lex)));
                assert(done.push(lex).map_values(|l: Lexeme| lexeme_token(l)) =~= done.map_values(
                    |l: Lexeme| lexeme_token(l),
                ).push(lexeme_token(lex)));
                done = done.push(lex);
            }
            i = k;
        }
    }
}

/// A copy of a term.
fn copy_atom(a: &QueryAtom) -> (r: QueryAtom)
    ensures
        r@ == a@,
{
    match a {
        QueryAtom::Prefix(t) => QueryAtom::Prefix(t.clone()),
        QueryAtom::Phrase(t) => QueryAtom::Phrase(t.clone()),
    }
}

/// The groups of the tokens, split at each `|`.
fn group_tokens(tokens: &Vec<Token>) -> (r: Vec<QueryGroup>)
    ensures
        group_views(r@) == query_groups(token_views(tokens@)),
{
    let ghost ts = token_views(tokens@);
    let mut groups: Vec<QueryGroup> = Vec::new();
    let mut cur: Vec<QueryAtom> = Vec::new();
    let mut t: usize = 0;
    assert(ts.take(0) =~= Seq::<TokenView>::empty());
    assert(atom_views(cur@) =~= Seq::<AtomView>::empty());
    assert(group_views(groups@).push(atom_views(cur@)) =~= query_groups(ts.take(0)));
    while t < tokens.len()
        invariant
            t <= tokens@.len(),
            ts == token_views(tokens@),
            query_groups(ts.take(t as int)) == group_views(groups@).push(atom_views(cur@)),
        decreases tokens.len() - t,
    {
        let ghost prev = query_groups(ts.take(t as int));
        let ghost old_groups = group_views(groups@);
        let ghost old_cur = atom_views(cur@);
        assert(ts.take(t + 1).drop_last() =~= ts.take(t as int));
        assert(ts.take(t + 1).last() == token_view(tokens@[t as int]));
        assert(prev.drop_last() =~= old_groups);
        assert(prev.last() == old_cur);
        match &tokens[t] {
            Token::Or => {
                let g = QueryGroup { atoms: cur };
                cur = Vec::new();
                groups.push(g);
                assert(atom_views(cur@) =~= Seq::<AtomView>::empty());
                assert(group_views(groups@).push(atom_views(cur@)) =~= prev.push(Seq::empty()));
            },
            Token::Atom(a) => {
                cur.push(copy_atom(a));
                assert(atom_views(cur@) =~= old_cur.push(a@));
                assert(group_views(groups@).push(atom_views(cur@)) =~= prev.drop_last().push(
                    prev.last().push(a@),
                ));
            },
        }
        t = t + 1;
    }
    assert(ts.take(tokens@.len() as int) =~= ts);
    let ghost before = group_views(groups@);
    groups.push(QueryGroup { atoms: cur });
    assert(group_views(groups@) =~= before.push(atom_views(cur@)));
    groups
}

/// Whether some group has no term.
fn any_empty_group(groups: &Vec<QueryGroup>) -> (b: bool)
    ensures
        b == has_empty_group(group_views(groups@)),
{
    let mut k: usize = 0;
    while k < groups.len()
        invariant
            k <= groups@.len(),
            forall|m: int| 0 <= m < k ==> (#[trigger] group_views(groups@)[m]).len() != 0,
        decreases groups.len() - k,
    {
        assert(group_views(groups@)[k as int] == atom_views(groups@[k as int].atoms@));
        if groups[k].atoms.len() == 0 {
            assert(group_views(groups@)[k as int].len() == 0);
            return true;
        }
        k = k + 1;
    }
    false
}

/// Parses what the user typed into groups of terms (see [`parsed_query`]).
pub fn parse_query(input: &str) -> (r: Result<SearchQuery, QueryError>)
    ensures
        match r {
            Ok(q) => parsed_query(input@) == Ok::<Seq<Seq<AtomView>>, QueryError>(group_views(q.groups@)),
            Err(e) => parsed_query(input@) == Err::<Seq<Seq<AtomView>>, QueryError>(e),
        },
{
    let s = chars_of(input);
    let tokens = match lex_query(&s) {
        Ok(ts) => ts,
        Err(e) => return Err(e),
    };
    if tokens.len() == 0 {
        let q = SearchQuery { groups: Vec::new() };
        assert(group_views(q.groups@) =~= Seq::<Seq<AtomView>>::empty());
        return Ok(q);
    }
    let groups = group_tokens(&tokens);
    if any_empty_group(&groups) {
        return Err(QueryError::InvalidOr);
    }
    Ok(SearchQuery { groups })
}

/// `s` with each `"` doubled.
pub open spec fn escaped(s: Seq<char>) -> Seq<char>
    decreases s.len(),
{
    if s.len() == 0 {
        Seq::empty()
    } else {
        escaped(s.drop_last()) + if s.last() == '"' {
            seq!['"', '"']
        } else {
            seq![s.last()]
        }
    }
}

/// A text quoted for the full-text engine: each `"` doubled.
pub fn escape_fts(value: &str) -> (r: String)
    ensures
        r@ == escaped(value@),
{
    let cs = chars_of(value);
    let mut out: Vec<char> = Vec::new();
    let mut i: usize = 0;
    while i < cs.len()
        invariant
            i <= cs@.len(),
            out@ == escaped(cs@.take(i as int)),
        decreases cs.len() - i,
    {
        assert(cs@.take(i + 1).drop_last() =~= cs@.take(i as int));
        let c = cs[i];
        let ghost before = out@;
        if c == '"' {
            out.push('"');
            out.push('"');
            assert(out@ =~= before + seq!['"', '"']);
        } else {
            out.push(c);
            assert(out@ =~= before + seq![c]);
        }
        i = i + 1;
    }
    assert(cs@.take(cs@.len() as int) =~= cs@);
    string_of(&out)
}

/// The match expression of one term: a quoted prefix, or a quoted phrase.
pub open spec fn atom_match(a: AtomView) -> Seq<char> {
    match a {
        AtomView::Prefix(t) => "\""@ + escaped(t) + "\"*"@,
        AtomView::Phrase(t) => "\""@ + escaped(t) + "\""@,
    }
}

/// The match expression of a group: its terms joined by `AND`, in brackets.
pub open spec fn group_match(g: Seq<AtomView>) -> Seq<char> {
    "("@ + join(g.map_values(|a: AtomView| atom_match(a)), " AND "@) + ")"@
}

/// The match expression of groups: the groups joined by `OR`.
pub open spec fn groups_match(gs: Seq<Seq<AtomView>>) -> Seq<char> {
    join(gs.map_values(|g: Seq<AtomView>| group_match(g)), " OR "@)
}

/// The index columns a scope restricts a search to; none for `All`.
pub open spec fn scope_columns(scope: SearchScope) -> Option<Seq<char>> {
    match scope {
        SearchScope::All => None,
        SearchScope::FirstMessage => Some("first_message"@),
        SearchScope::Cwd => Some("cwd"@),
        SearchScope::Branch => Some("branch"@),
        SearchScope::Repository => Some("repository_url"@),
        SearchScope::Date => Some("date"@),
        SearchScope::Exec => Some("exec_command exec_output"@),
    }
}

/// The full-text match expression of a query in a scope: refused where the query has no group
/// or an empty group; else the groups' expression, restricted to the scope's columns.
pub open spec fn compiled_match(gs: Seq<Seq<AtomView>>, scope: SearchScope) -> Result<Seq<char>, QueryError> {
    if gs.len() == 0 || has_empty_group(gs) {
        Err(QueryError::NoSearchableToken)
    } else {
        match scope_columns(scope) {
            None => Ok(groups_match(gs)),
            Some(cols) => Ok("{"@ + cols + "} : ("@ + groups_match(gs) + ")"@),
        }
    }
}

/// The match expression of one term.
fn atom_match_text(a: &QueryAtom) -> (r: String)
    ensures
        r@ == atom_match(a@),
{
    let mut out = String::from_str("\"");
    match a {
        QueryAtom::Prefix(t) => {
            out.append(escape_fts(t.as_str()).as_str());
            out.append("\"*");
        },
        QueryAtom::Phrase(t) => {
            out.append(escape_fts(t.as_str()).as_str());
            out.append("\"");
        },
    }
    out
}

/// The match expression of one group.
fn group_match_text(g: &QueryGroup) -> (r: String)
    ensures
        r@ == group_match(atom_views(g.atoms@)),
{
    let ghost av = atom_views(g.atoms@);
    let mut parts: Vec<String> = Vec::new();
    let mut k: usize = 0;
    while k < g.atoms.len()
        invariant
            k <= g.atoms@.len(),
            av == atom_views(g.atoms@),
            parts@.map_values(|p: String| p@) == av.take(k as int).map_values(|a: AtomView| atom_match(a)),
        decreases g.atoms.len() - k,
    {
        let t = atom_match_text(&g.atoms[k]);
        let ghost before = parts@.map_values(|p: String| p@);
        parts.push(t);
        assert(parts@.map_values(|p: String| p@) =~= before.push(t@));
        assert(av.take(k + 1).map_values(|a: AtomView| atom_match(a)) =~= av.take(k as int).map_values(
            |a: AtomView| atom_match(a),
        ).push(atom_match(av[k as int])));
        k = k + 1;
    }
    assert(av.take(g.atoms@.len() as int) =~= av);
    let joined = join_strings(&parts, " AND ");
    let mut out = String::from_str("(");
    out.append(joined.as_str());
    out.append(")");
    out
}

/// The columns of a scope, as the match expression names them.
fn scope_columns_text(scope: SearchScope) -> (r: Option<&'static str>)
    ensures
        match r {
            Some(c) => scope_columns(scope) == Some(c@),
            None => scope_columns(scope) is None,
        },
{
    match scope {
        SearchScope::All => None,
        SearchScope::FirstMessage => Some("first_message"),
        SearchScope::Cwd => Some("cwd"),
        SearchScope::Branch => Some("branch"),
        SearchScope::Repository => Some("repository_url"),
        SearchScope::Date => Some("date"),
        SearchScope::Exec => Some("exec_command exec_output"),
    }
}

/// Compiles a parsed query to the full-text match expression for a scope (see
/// [`compiled_match`]).
pub fn compile_match(query: &SearchQuery, scope: SearchScope) -> (r: Result<String, QueryError>)
    ensures
        match r {
            Ok(m) => compiled_match(group_views(query.groups@), scope) == Ok::<Seq<char>, QueryError>(m@),
            Err(e) => compiled_match(group_views(query.groups@), scope) == Err::<Seq<char>, QueryError>(e),
        },
{
    let ghost gv = group_views(query.groups@);
    if query.groups.len() == 0 || any_empty_group(&query.groups) {
        return Err(QueryError::NoSearchableToken);
    }
    let mut parts: Vec<String> = Vec::new();
    let mut k: usize = 0;
    while k < query.groups.len()
        invariant
            k <= query.groups@.len(),
            gv == group_views(query.groups@),
            parts@.map_values(|p: String| p@) == gv.take(k as int).map_values(
                |g: Seq<AtomView>| group_match(g),
            ),
        decreases query.groups.len() - k,
    {
        let t = group_match_text(&query.groups[k]);
        let ghost before = parts@.map_values(|p: String| p@);
        parts.push(t);
        assert(parts@.map_values(|p: String| p@) =~= before.push(t@));
        assert(gv.take(k + 1).map_values(|g: Seq<AtomView>| group_match(g)) =~= gv.take(
            k as int,
        ).map_values(|g: Seq<AtomView>| group_match(g)).push(group_match(gv[k as int])));
        k = k + 1;
    }
    assert(gv.take(query.groups@.len() as int) =~= gv);
    let compiled = join_strings(&parts, " OR ");
    match scope_columns_text(scope) {
        None => Ok(compiled),
        Some(columns) => {
            let mut out = String::from_str("{");
            out.append(columns);
            out.append("} : (");
            out.append(compiled.as_str());
            out.append(")");
            Ok(out)
        },
    }
}

/// The scope after `s` in the cycle all, message, cwd, branch, repo, date, exec.
pub open spec fn next_scope(s: SearchScope) -> SearchScope {
    match s {
        SearchScope::All => SearchScope::FirstMessage,
        SearchScope::FirstMessage => SearchScope::Cwd,
        SearchScope::Cwd => SearchScope::Branch,
        SearchScope::Branch => SearchScope::Repository,
        SearchScope::Repository => SearchScope::Date,
        SearchScope::Date => SearchScope::Exec,
        SearchScope::Exec => SearchScope::All,
    }
}

/// The name of a scope as the selector shows it.
pub open spec fn scope_label(s: SearchScope) -> Seq<char> {
    match s {
        SearchScope::All => "all"@,
        SearchScope::FirstMessage => "message"@,
        SearchScope::Cwd => "cwd"@,
        SearchScope::Branch => "branch"@,
        SearchScope::Repository => "repo"@,
        SearchScope::Date => "date"@,
        SearchScope::Exec => "exec"@,
    }
}

impl SearchScope {
    /// The next scope in the cycle.
    pub fn next(self) -> (r: SearchScope)
        ensures
            r == next_scope(self),
    {
        match self {
            SearchScope::All => SearchScope::FirstMessage,
            SearchScope::FirstMessage => SearchScope::Cwd,
            SearchScope::Cwd => SearchScope::Branch,
            SearchScope::Branch => SearchScope::Repository,
            SearchScope::Repository => SearchScope::Date,
            SearchScope::Date => SearchScope::Exec,
            SearchScope::Exec => SearchScope::All,
        }
    }

    /// The name of the scope as the selector shows it.
    pub fn label(self) -> (r: &'static str)
        ensures
            r@ == scope_label(self),
    {
        match self {
            SearchScope::All => "all",
            SearchScope::FirstMessage => "message",
            SearchScope::Cwd => "cwd",
            SearchScope::Branch => "branch",
            SearchScope::Repository => "repo",
            SearchScope::Date => "date",
            SearchScope::Exec => "exec",
        }
    }
}

/// The scope reached from `s` by `n` steps of [`next_scope`].
pub open spec fn next_scope_n(s: SearchScope, n: nat) -> SearchScope
    decreases n,
{
    if n == 0 {
        s
    } else {
        next_scope(next_scope_n(s, (n - 1) as nat))
    }
}

/// Cycling the search scope comes back to where it started after seven steps and not before,
/// so every scope is visited.
pub proof fn lemma_scope_cycle(s: SearchScope)
    ensures
        next_scope_n(s, 7) == s,
        forall|k: nat| 0 < k < 7 ==> next_scope_n(s, k) != s,
{
    reveal_with_fuel(next_scope_n, 8);
    assert forall|k: nat| 0 < k < 7 implies next_scope_n(s, k) != s by {
        if k == 1 {
        } else if k == 2 {
        } else if k == 3 {
        } else if k == 4 {
        } else if k == 5 {
        } else {
            assert(k == 6);
        }
    }
}

proof fn lemma_skip_white_finds(s: Seq<char>, i: int, k: int)
    requires
        0 <= i <= k < s.len(),
        !is_white(s[k]),
    ensures
        skip_white(s, i) <= k,
    decreases k - i,
{
    if is_white(s[i]) {
        lemma_skip_white_finds(s, i + 1, k);
    }
}

proof fn lemma_query_groups_len(ts: Seq<TokenView>)
    ensures
        query_groups(ts).len() >= 1,
    decreases ts.len(),
{
    if ts.len() > 0 {
        lemma_query_groups_len(ts.drop_last());
    }
}

/// A query text that is not blank and that parses compiles to a match expression in every
/// scope.
pub proof fn lemma_parsed_query_compiles(input: Seq<char>, scope: SearchScope)
    requires
        !crate::text::all_white(input),
        parsed_query(input) is Ok,
    ensures
        compiled_match(parsed_query(input)->Ok_0, scope) is Ok,
{
    let k = choose|k: int| 0 <= k < input.len() && !is_white(#[trigger] input[k]);
    lemma_skip_white_finds(input, 0, k);
    lemma_skip_white(input, 0);
    let ls = lexemes(input, 0);
    assert(ls.len() > 0);
    let ts = ls.map_values(|l: Lexeme| lexeme_token(l));
    lemma_query_groups_len(ts);
}

/// The column weights of the ranking function, in the index's column order.
pub const BM25_WEIGHTS: &'static str = "bm25(10.0, 4.0, 4.0, 5.0, 2.0, 2.0, 1.5, 0.25)";

/// How a search runs.
#[derive(Debug, Clone, PartialEq, Eq)]
pub enum SearchPlan {
    /// List every session, newest first.
    Unranked,
    /// Rank the sessions that this full-text expression matches.
    Match(String),
}

/// How a query runs: unranked where it is blank, else by the match expression it compiles to
/// in the scope, or refused as the parser or the compiler refuses it.
pub open spec fn planned_search(input: Seq<char>, scope: SearchScope) -> Result<Option<Seq<char>>, QueryError> {
    if crate::text::all_white(input) {
        Ok(None)
    } else {
        match parsed_query(input) {
            Err(e) => Err(e),
            Ok(gs) => match compiled_match(gs, scope) {
                Ok(m) => Ok(Some(m)),
                Err(e) => Err(e),
            },
        }
    }
}

/// How a query runs (see [`planned_search`]).
pub fn search_plan(input: &str, scope: SearchScope) -> (r: Result<SearchPlan, QueryError>)
    ensures
        match r {
            Ok(SearchPlan::Unranked) => planned_search(input@, scope) == Ok::<Option<Seq<char>>, QueryError>(None),
            Ok(SearchPlan::Match(m)) => planned_search(input@, scope) == Ok::<Option<Seq<char>>, QueryError>(Some(m@)),
            Err(e) => planned_search(input@, scope) == Err::<Option<Seq<char>>, QueryError>(e),
        },
{
    if crate::text::is_blank(&chars_of(input)) {
        return Ok(SearchPlan::Unranked);
    }
    let query = match parse_query(input) {
        Ok(q) => q,
        Err(e) => return Err(e),
    };
    match compile_match(&query, scope) {
        Ok(m) => Ok(SearchPlan::Match(m)),
        Err(e) => Err(e),
    }
}


/// How the full-text engine reads the inside of a quoted string: `""` stands for one `"`.
pub open spec fn unescaped(t: Seq<char>) -> Seq<char>
    decreases t.len(),
{
    if t.len() == 0 {
        Seq::empty()
    } else if t.len() >= 2 && t[0] == '"' && t[1] == '"' {
        seq!['"'] + unescaped(t.skip(2))
    } else {
        seq![t[0]] + unescaped(t.skip(1))
    }
}

proof fn lemma_unescaped_after(s: Seq<char>, t: Seq<char>)
    ensures
        unescaped(escaped(s) + t) == s + unescaped(t),
    decreases s.len(),
{
    if s.len() == 0 {
        assert(escaped(s) + t =~= t);
        assert(s + unescaped(t) =~= unescaped(t));
    } else {
        let p = s.drop_last();
        let c = s.last();
        let piece = if c == '"' {
            seq!['"', '"']
        } else {
            seq![c]
        };
        assert(escaped(s) == escaped(p) + piece);
        assert(escaped(s) + t =~= escaped(p) + (piece + t));
        lemma_unescaped_after(p, piece + t);
        if c == '"' {
            assert((piece + t).skip(2) =~= t);
        } else {
            assert((piece + t).skip(1) =~= t);
        }
        assert(unescaped(piece + t) == seq![c] + unescaped(t));
        assert(p + (seq![c] + unescaped(t)) =~= s + unescaped(t));
    }
}

/// Quoting is faithful: the engine reads back exactly the text that was quoted, whatever
/// quotes, operators or column filters it holds.
pub proof fn lemma_escaped_reads_back(s: Seq<char>)
    ensures
        unescaped(escaped(s)) == s,
{
    lemma_unescaped_after(s, Seq::empty());
    assert(escaped(s) + Seq::<char>::empty() =~= escaped(s));
    assert(s + Seq::<char>::empty() =~= s);
}

} // verus!

