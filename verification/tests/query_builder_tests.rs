use parsql::query_builder::SafeQueryBuilder;
use parsql::sql_sanitizer::{sanitize_identifier, sanitize_value};

#[test]
fn builder_starts_empty() {
    let builder = SafeQueryBuilder::new();
    assert_eq!(builder.query, "");
    assert_eq!(builder.build(), "");
}

#[test]
fn keywords_are_separated_by_one_space() {
    let mut builder = SafeQueryBuilder::new();
    builder.add_keyword("SELECT");
    assert_eq!(builder.query, "SELECT");
    builder.add_keyword("*");
    assert_eq!(builder.query, "SELECT *");
    assert_eq!(builder.build(), "SELECT *");
}

#[test]
fn identifiers_keep_only_identifier_characters() {
    let mut builder = SafeQueryBuilder::new();
    builder.add_identifier("us;ers--");
    assert_eq!(builder.query, "users");
    builder.add_identifier("my_table 1");
    assert_eq!(builder.query, "users my_table1");
    builder.add_identifier("şehir");
    assert_eq!(builder.build(), "users my_table1 şehir");
}

#[test]
fn comma_list_is_sanitised_and_not_spaced() {
    let mut builder = SafeQueryBuilder::new();
    builder.add_keyword("(");
    builder.add_comma_list(&["id", "na me", "e;mail"]);
    assert_eq!(builder.query, "(id, name, email");
    builder.add_comma_list(&[]);
    assert_eq!(builder.query, "(id, name, email");
}

#[test]
fn raw_text_is_spaced_unless_it_starts_with_a_comma() {
    let mut builder = SafeQueryBuilder::new();
    builder.add_raw("a");
    assert_eq!(builder.query, "a");
    builder.add_raw(", b");
    assert_eq!(builder.query, "a, b");
    builder.add_raw("c = 'x'");
    assert_eq!(builder.query, "a, b c = 'x'");
}

#[test]
fn build_trims_whitespace() {
    let mut builder = SafeQueryBuilder::new();
    builder.query = "  \t SELECT 1 \n ".to_string();
    assert_eq!(builder.build(), "SELECT 1");
    let mut builder = SafeQueryBuilder::new();
    builder.query = " \u{2003} ".to_string();
    assert_eq!(builder.build(), "");
}

#[test]
fn sanitize_identifier_drops_other_characters() {
    assert_eq!(sanitize_identifier("users; DROP TABLE x"), "usersDROPTABLEx");
    assert_eq!(sanitize_identifier("şehir_1"), "şehir_1");
    assert_eq!(sanitize_identifier("'\"--"), "");
}

#[test]
fn sanitize_identifier_is_idempotent() {
    let once = sanitize_identifier("a-b c_d!");
    assert_eq!(once, "abc_d");
    assert_eq!(sanitize_identifier(&once), once);
}

#[test]
fn sanitize_value_doubles_quotes() {
    assert_eq!(sanitize_value("O'Brien"), "O''Brien");
    assert_eq!(sanitize_value("''"), "''''");
    assert_eq!(sanitize_value("plain"), "plain");
    assert_eq!(sanitize_value(""), "");
}

#[test]
fn sanitized_value_reads_back_as_the_original() {
    let original = "it's a 'test'";
    let escaped = sanitize_value(original);
    assert_eq!(escaped.replace("''", "'"), original);
}
