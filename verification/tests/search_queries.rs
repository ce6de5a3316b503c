use local_file_intelligence::search::{
    escape_fts_term, plan_search, sanitize_fts_query, search_paging, SqlValue,
};

#[test]
fn single_term_gets_prefix_matching() {
    assert_eq!(sanitize_fts_query("hello"), "hello*");
    assert_eq!(sanitize_fts_query("  hello  "), "hello*");
}

#[test]
fn several_terms_are_anded_with_prefix_on_last() {
    assert_eq!(sanitize_fts_query("hello world"), "hello world*");
    assert_eq!(sanitize_fts_query("a\t b\nc"), "a b c*");
}

#[test]
fn quoted_phrase_passes_through() {
    assert_eq!(sanitize_fts_query("  \"exact phrase\" "), "\"exact phrase\"");
    assert_eq!(sanitize_fts_query("\""), "\"");
    assert_eq!(sanitize_fts_query("foo \"bar baz\""), "foo \"bar baz\"");
    assert_eq!(sanitize_fts_query(" a\"b "), "a\"b");
}

#[test]
fn special_characters_are_removed() {
    assert_eq!(sanitize_fts_query("foo(bar) baz:"), "foobar baz*");
    assert_eq!(sanitize_fts_query("NOT *"), "NOT*");
    assert_eq!(sanitize_fts_query("foo ()"), "foo*");
    assert_eq!(sanitize_fts_query("() foo"), "foo*");
    assert_eq!(sanitize_fts_query("-x.y"), "xy*");
    assert_eq!(sanitize_fts_query("caf\u{e9} na\u{ef}ve"), "caf\u{e9} na\u{ef}ve*");
}

#[test]
fn blank_query_sanitizes_to_nothing() {
    assert_eq!(sanitize_fts_query("   "), "");
    assert_eq!(sanitize_fts_query(""), "");
    assert_eq!(sanitize_fts_query("() ::"), "");
}

#[test]
fn escape_keeps_term_characters() {
    assert_eq!(escape_fts_term("file_name1"), "file_name1");
    assert_eq!(escape_fts_term("file_name-1.txt"), "file_name1txt");
    assert_eq!(escape_fts_term("c++"), "c");
    assert_eq!(escape_fts_term("\u{65e5}\u{672c}"), "\u{65e5}\u{672c}");
    assert_eq!(escape_fts_term("a'b;c"), "abc");
}

#[test]
fn blank_search_has_no_plan() {
    assert!(plan_search("  ", &None, &None, 50, 0).is_none());
    assert!(plan_search("", &Some(vec!["rs".to_string()]), &Some(1), 50, 0).is_none());
}

#[test]
fn plain_search_plan() {
    let plan = plan_search("rust", &None, &None, 50, 0).unwrap();
    assert_eq!(plan.fts_query, "rust*");
    assert_eq!(plan.params.len(), 1);
    assert!(matches!(&plan.params[0], SqlValue::Text(t) if t == "rust*"));
    assert!(plan.count_sql.starts_with("SELECT COUNT(*)"));
    assert!(plan.count_sql.ends_with("AND f.is_deleted = 0\n           "));
    assert!(plan.results_sql.contains("bm25(files_fts, 10.0, 5.0, 1.0) as rank"));
    assert!(plan
        .results_sql
        .contains("snippet(files_fts, 2, '<mark>', '</mark>', '...', 48) as snippet"));
    assert!(plan.results_sql.ends_with("ORDER BY rank\n        LIMIT ?2 OFFSET ?3"));
    assert_eq!(plan.limit, 50);
    assert_eq!(plan.offset, 0);
}

#[test]
fn filtered_search_plan_numbers_placeholders() {
    let exts = Some(vec!["rs".to_string(), "md".to_string()]);
    let plan = plan_search("main fn", &exts, &Some(7), 20, 40).unwrap();
    assert_eq!(plan.fts_query, "main fn*");
    assert!(plan
        .count_sql
        .ends_with(" AND f.extension IN (?2, ?3) AND f.root_id = ?4"));
    assert!(plan
        .results_sql
        .ends_with(" AND f.extension IN (?2, ?3) AND f.root_id = ?4\n        ORDER BY rank\n        LIMIT ?5 OFFSET ?6"));
    assert_eq!(plan.params.len(), 4);
    assert!(matches!(&plan.params[1], SqlValue::Text(t) if t == "rs"));
    assert!(matches!(&plan.params[2], SqlValue::Text(t) if t == "md"));
    assert!(matches!(&plan.params[3], SqlValue::Integer(7)));
    assert_eq!((plan.limit, plan.offset), (20, 40));
}

#[test]
fn empty_extension_list_adds_no_filter() {
    let plan = plan_search("x", &Some(vec![]), &None, 10, 0).unwrap();
    assert!(!plan.count_sql.contains("extension IN"));
    assert!(plan.results_sql.ends_with("LIMIT ?2 OFFSET ?3"));
}

#[test]
fn root_filter_alone_uses_second_placeholder() {
    let plan = plan_search("x", &None, &Some(3), 10, 0).unwrap();
    assert!(plan.count_sql.ends_with(" AND f.root_id = ?2"));
    assert!(plan.results_sql.ends_with("LIMIT ?3 OFFSET ?4"));
}

#[test]
fn many_extensions_get_two_digit_placeholders() {
    let exts: Vec<String> = (0..10).map(|i| format!("e{}", i)).collect();
    let plan = plan_search("x", &Some(exts), &None, 10, 0).unwrap();
    assert!(plan.count_sql.ends_with("?10, ?11)"));
    assert!(plan.results_sql.ends_with("LIMIT ?12 OFFSET ?13"));
}

#[test]
fn paging_defaults() {
    assert_eq!(search_paging(None, None), (50, 0));
    assert_eq!(search_paging(Some(5), Some(15)), (5, 15));
}
