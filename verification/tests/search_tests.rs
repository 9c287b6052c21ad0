use codex_session_selector::search::{
    compile_match, escape_fts, parse_query, search_plan, QueryAtom, QueryError, QueryGroup,
    SearchPlan, SearchQuery, SearchScope, BM25_WEIGHTS,
};

#[test]
fn bare_terms_compile_to_and_prefix_phrases() {
    let query = parse_query("fix read").unwrap();
    assert_eq!(compile_match(&query, SearchScope::All).unwrap(), "(\"fix\"* AND \"read\"*)");
}

#[test]
fn quoted_text_and_spaced_pipe_compile() {
    let query = parse_query("\"readme parser\" | cargo test").unwrap();
    assert_eq!(
        compile_match(&query, SearchScope::All).unwrap(),
        "(\"readme parser\") OR (\"cargo\"* AND \"test\"*)"
    );
}

#[test]
fn unclosed_quote_is_valid_interactive_phrase() {
    assert_eq!(
        parse_query("\"readme parser").unwrap(),
        SearchQuery {
            groups: vec![QueryGroup { atoms: vec![QueryAtom::Phrase("readme parser".to_owned())] }]
        }
    );
}

#[test]
fn invalid_or_and_punctuation_only_queries_are_rejected() {
    for input in ["| foo", "foo |", "foo | | bar"] {
        assert_eq!(parse_query(input), Err(QueryError::InvalidOr));
    }
    for input in ["---", "\"***\""] {
        assert_eq!(parse_query(input), Err(QueryError::NoSearchableToken));
    }
}

#[test]
fn scopes_wrap_only_the_expected_columns() {
    let query = parse_query("read").unwrap();
    let cases = [
        (SearchScope::All, "(\"read\"*)"),
        (SearchScope::FirstMessage, "{first_message} : ((\"read\"*))"),
        (SearchScope::Cwd, "{cwd} : ((\"read\"*))"),
        (SearchScope::Branch, "{branch} : ((\"read\"*))"),
        (SearchScope::Repository, "{repository_url} : ((\"read\"*))"),
        (SearchScope::Date, "{date} : ((\"read\"*))"),
        (SearchScope::Exec, "{exec_command exec_output} : ((\"read\"*))"),
    ];
    for (scope, expected) in cases {
        assert_eq!(compile_match(&query, scope).unwrap(), expected);
    }
}

#[test]
fn raw_fts_operators_are_quoted_as_text() {
    let query = parse_query("NOT repo:main {cwd} a-b foo*").unwrap();
    assert_eq!(
        compile_match(&query, SearchScope::All).unwrap(),
        "(\"NOT\"* AND \"repo:main\"* AND \"{cwd}\"* AND \"a-b\"* AND \"foo*\"*)"
    );
}

#[test]
fn quotes_and_backslashes_are_escaped() {
    let query = parse_query("\"a\\\"b\\\\c\"").unwrap();
    assert_eq!(compile_match(&query, SearchScope::All).unwrap(), "(\"a\"\"b\\c\")");
}

#[test]
fn bm25_weight_mapping_stays_fixed() {
    assert_eq!(BM25_WEIGHTS, "bm25(10.0, 4.0, 4.0, 5.0, 2.0, 2.0, 1.5, 0.25)");
}

#[test]
fn search_scope_cycles_through_exec() {
    let scopes = [
        SearchScope::All,
        SearchScope::FirstMessage,
        SearchScope::Cwd,
        SearchScope::Branch,
        SearchScope::Repository,
        SearchScope::Date,
        SearchScope::Exec,
        SearchScope::All,
    ];
    for pair in scopes.windows(2) {
        assert_eq!(pair[0].next(), pair[1]);
    }
}

#[test]
fn exec_scope_label_is_exec() {
    assert_eq!(SearchScope::All.next(), SearchScope::FirstMessage);
    assert_eq!(SearchScope::Repository.next(), SearchScope::Date);
    assert_eq!(SearchScope::Date.next(), SearchScope::Exec);
    assert_eq!(SearchScope::Exec.label(), "exec");
    assert_eq!(SearchScope::Exec.next(), SearchScope::All);
}

#[test]
fn seven_steps_of_the_scope_cycle_return_to_the_start() {
    let mut scope = SearchScope::Branch;
    for _ in 0..7 {
        scope = scope.next();
    }
    assert_eq!(scope, SearchScope::Branch);
    assert_eq!(SearchScope::All.label(), "all");
    assert_eq!(SearchScope::FirstMessage.label(), "message");
    assert_eq!(SearchScope::Repository.label(), "repo");
}

#[test]
fn letters_of_other_scripts_are_searchable() {
    let query = parse_query("검색").unwrap();
    assert_eq!(compile_match(&query, SearchScope::FirstMessage).unwrap(), "{first_message} : ((\"검색\"*))");
    assert_eq!(parse_query("٣"), Ok(SearchQuery { groups: vec![QueryGroup { atoms: vec![QueryAtom::Prefix("٣".to_owned())] }] }));
}

#[test]
fn empty_query_has_no_groups_and_does_not_compile() {
    let query = parse_query("   ").unwrap();
    assert!(query.groups.is_empty());
    assert_eq!(compile_match(&query, SearchScope::All), Err(QueryError::NoSearchableToken));
    let with_empty_group = SearchQuery { groups: vec![QueryGroup { atoms: vec![] }] };
    assert_eq!(compile_match(&with_empty_group, SearchScope::All), Err(QueryError::NoSearchableToken));
}

#[test]
fn escape_doubles_quotes_only() {
    assert_eq!(escape_fts("say \"hi\" \\"), "say \"\"hi\"\" \\");
    assert_eq!(escape_fts(""), "");
}

#[test]
fn search_plan_is_unranked_for_blank_input() {
    assert_eq!(search_plan("  \t", SearchScope::All), Ok(SearchPlan::Unranked));
    assert_eq!(
        search_plan("fix", SearchScope::Cwd),
        Ok(SearchPlan::Match("{cwd} : ((\"fix\"*))".to_owned()))
    );
    assert_eq!(search_plan("| x", SearchScope::All), Err(QueryError::InvalidOr));
    assert_eq!(QueryError::NoSearchableToken.message(), "query contains no searchable token");
    assert_eq!(QueryError::InvalidOr.message(), "OR requires an expression on both sides");
}

#[test]
fn a_term_without_letters_is_refused_before_a_bad_or() {
    assert_eq!(parse_query("| ---"), Err(QueryError::NoSearchableToken));
    assert_eq!(parse_query("a\"b"), Ok(SearchQuery { groups: vec![QueryGroup { atoms: vec![QueryAtom::Prefix("a\"b".to_owned())] }] }));
}
