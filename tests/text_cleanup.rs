use analytics_rust_core::{add_quotes, clean_generation_result, remove_limit_statement};

#[test]
fn limit_inside_subquery_is_kept() {
    let sql = "SELECT * FROM (SELECT * FROM t LIMIT 5) x";
    assert_eq!(remove_limit_statement(sql), sql);
}

#[test]
fn limit_with_semicolon_is_removed() {
    assert_eq!(remove_limit_statement("SELECT * FROM t LIMIT 10;"), "SELECT * FROM t");
}

#[test]
fn limit_with_comment_is_removed() {
    assert_eq!(remove_limit_statement("SELECT * FROM t LIMIT 10 -- top ten"), "SELECT * FROM t");
}

#[test]
fn backticks_become_double_quotes() {
    assert_eq!(
        add_quotes("SELECT `col` FROM `table`"),
        ("SELECT \"col\" FROM \"table\"".to_string(), String::new())
    );
}

#[test]
fn sql_fence_is_cleaned() {
    assert_eq!(clean_generation_result("```sql\nSELECT 1;\n```"), "SELECT 1");
}

#[test]
fn cleaning_twice_equals_cleaning_once() {
    let once = clean_generation_result("  SELECT a,\n\t b\r\n FROM t  ");
    assert_eq!(once, "SELECT a, b FROM t");
    assert_eq!(clean_generation_result(&once), once);
}

#[test]
fn whitespace_runs_collapse_to_one_space() {
    assert_eq!(clean_generation_result("a\t\t b\n\nc\u{a0}\u{3000}d"), "a b c d");
}

#[test]
fn removed_marker_between_spaces_leaves_two_spaces() {
    assert_eq!(clean_generation_result("a ; b"), "a  b");
}

#[test]
fn markers_are_removed_everywhere() {
    let out = clean_generation_result("```json {\"a\": 1} ``` \"\"\"x\"\"\" '''y''' ;z;");
    assert_eq!(out, "{\"a\": 1}  x y z");
    for m in ["```", "\"\"\"", "'''", ";"] {
        assert!(!out.contains(m));
    }
}

#[test]
fn removing_a_fence_can_join_quotes() {
    assert_eq!(clean_generation_result("\"\"```\""), "\"\"\"");
}

#[test]
fn empty_and_blank_inputs_clean_to_empty() {
    assert_eq!(clean_generation_result(""), "");
    assert_eq!(clean_generation_result(" \n\t "), "");
    assert_eq!(clean_generation_result("```"), "");
}

#[test]
fn limit_keyword_in_any_case() {
    assert_eq!(remove_limit_statement("select 1 limit 5"), "select 1");
    assert_eq!(remove_limit_statement("select 1\n\tLiMiT\n 20 ;  "), "select 1");
}

#[test]
fn limit_alone_is_removed_entirely() {
    assert_eq!(remove_limit_statement("LIMIT 3"), "");
}

#[test]
fn only_the_last_limit_is_removed() {
    assert_eq!(remove_limit_statement("SELECT 1 LIMIT 5 LIMIT 6"), "SELECT 1 LIMIT 5");
}

#[test]
fn limit_with_semicolon_and_comment_is_removed() {
    assert_eq!(remove_limit_statement("SELECT 1 LIMIT 10 ; -- first ten"), "SELECT 1");
}

#[test]
fn limit_followed_by_more_lines_is_kept() {
    let sql = "SELECT 1 LIMIT 10 -- note\nUNION SELECT 2";
    assert_eq!(remove_limit_statement(sql), sql);
}

#[test]
fn limit_needs_space_and_digits() {
    assert_eq!(remove_limit_statement("SELECT 1 LIMIT10"), "SELECT 1 LIMIT10");
    assert_eq!(remove_limit_statement("SELECT 1 LIMIT x"), "SELECT 1 LIMIT x");
    assert_eq!(remove_limit_statement("SELECT 1 LIMIT 5 x"), "SELECT 1 LIMIT 5 x");
}

#[test]
fn limit_with_non_ascii_decimal_digits_is_removed() {
    assert_eq!(remove_limit_statement("SELECT 1 LIMIT \u{663}\u{660}"), "SELECT 1");
    assert_eq!(remove_limit_statement("SELECT 1 LIMIT \u{b2}"), "SELECT 1 LIMIT \u{b2}");
}

#[test]
fn empty_statement_is_unchanged() {
    assert_eq!(remove_limit_statement(""), "");
}

#[test]
fn text_without_backticks_is_unchanged() {
    assert_eq!(add_quotes("SELECT \"a\" FROM t"), ("SELECT \"a\" FROM t".to_string(), String::new()));
    assert_eq!(add_quotes(""), (String::new(), String::new()));
    assert_eq!(add_quotes("``é`"), ("\"\"é\"".to_string(), String::new()));
}

#[test]
fn backtick_runs_shrink_to_their_length_modulo_three() {
    assert_eq!(clean_generation_result("````` x ``````"), "`` x");
}

#[test]
fn removing_a_semicolon_can_join_a_fence() {
    assert_eq!(clean_generation_result("``;`"), "```");
}
