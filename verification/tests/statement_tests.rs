use parsql::deletable::delete_statement;
use parsql::direct_sql::{direct_delete_sql, direct_insert_sql, direct_select_sql, direct_update_sql};
use parsql::insertable::{insert_statement, SqlDialect};
use parsql::queryable::{select_statement, QueryableAttrs};
use parsql::sql_params::sql_param_fields;
use parsql::text::{join_strings, split_char, trim_str};
use parsql::trace::trace_enabled;
use parsql::update_params::update_param_fields;
use parsql::updateable::update_statement;
use parsql::utils::extract_fields_from_where_clause;

fn names(v: &[&str]) -> Vec<String> {
    v.iter().map(|s| s.to_string()).collect()
}

#[test]
fn update_numbers_where_after_set() {
    let fields = names(&["id", "name", "email", "state"]);
    let r = update_statement("users", Some("name, email"), Some("id = $"), &fields, None);
    assert_eq!(r.sql, "UPDATE users SET name = $1, email = $2 WHERE id = $3");
    assert_eq!(r.param_count, 3);
}

#[test]
fn update_without_where() {
    let fields = names(&["id", "name"]);
    let r = update_statement("users", Some("name"), None, &fields, None);
    assert_eq!(r.sql, "UPDATE users SET name = $1");
    assert_eq!(r.param_count, 1);
}

#[test]
fn update_counts_only_columns_that_are_fields() {
    let fields = names(&["id", "name"]);
    let r = update_statement("us-ers", Some(" name ,nick"), Some("id = $"), &fields, None);
    assert_eq!(r.sql, "UPDATE users SET name = $1, nick = $2 WHERE id = $2");
    assert_eq!(r.param_count, 2);
}

#[test]
fn delete_with_and_without_where() {
    let r = delete_statement("users", Some("id = $ AND state = $"));
    assert_eq!(r.sql, "DELETE FROM users WHERE id = $1 AND state = $2");
    assert_eq!(r.param_count, 2);
    let r = delete_statement("users", None);
    assert_eq!(r.sql, "DELETE FROM users WHERE");
    assert_eq!(r.param_count, 0);
}

#[test]
fn insert_postgres() {
    let fields = names(&["name", "email"]);
    assert_eq!(
        insert_statement(SqlDialect::Postgres, "users", &fields, None),
        "INSERT INTO users (name, email ) VALUES ($1, $2 )"
    );
    assert_eq!(
        insert_statement(SqlDialect::Postgres, "users", &fields, Some("id")),
        "INSERT INTO users (name, email ) VALUES ($1, $2 ) RETURNING id"
    );
}

#[test]
fn insert_sqlite() {
    let fields = names(&["name", "email", "state"]);
    assert_eq!(
        insert_statement(SqlDialect::Sqlite, "users", &fields, None),
        "INSERT INTO users (name, email, state ) VALUES (?1, ?2, ?3 )"
    );
    assert_eq!(
        insert_statement(SqlDialect::Sqlite, "users", &names(&["name"]), Some("id")),
        "INSERT INTO users (name ) VALUES (?1 ) ; SELECT last_insert_rowid() AS id"
    );
}

fn attrs(table: &str, fields: &[&str]) -> QueryableAttrs {
    QueryableAttrs {
        table: table.to_string(),
        fields: names(fields),
        where_clause: None,
        select: None,
        joins: Vec::new(),
        group_by: None,
        having: None,
        order_by: None,
        limit: None,
        offset: None,
    }
}

#[test]
fn select_simple() {
    let mut a = attrs("users", &["id", "name", "email"]);
    a.where_clause = Some("id = $".to_string());
    let r = select_statement(&a);
    assert_eq!(r.sql, "SELECT id, name, email FROM users WHERE id = $1");
    assert_eq!(r.param_count, 1);
}

#[test]
fn select_without_clauses() {
    let r = select_statement(&attrs("users", &["id"]));
    assert_eq!(r.sql, "SELECT id FROM users");
    assert_eq!(r.param_count, 0);
}

#[test]
fn select_with_every_clause() {
    let mut a = attrs("users", &["state", "user_count"]);
    a.select = Some("users.state, COUNT(*) as user_count".to_string());
    a.joins = names(&["INNER JOIN posts ON users.id = posts.user_id  "]);
    a.where_clause = Some("state > $".to_string());
    a.group_by = Some("users.state".to_string());
    a.having = Some("COUNT(*) > $".to_string());
    a.order_by = Some("user_count DESC".to_string());
    a.limit = Some(10);
    a.offset = Some(5);
    let r = select_statement(&a);
    assert_eq!(
        r.sql,
        "SELECT users.state, COUNT(*) as user_count FROM users  INNER JOIN posts ON users.id = posts.user_id  WHERE state > $1 GROUP BY users.state HAVING COUNT(*) > $2 ORDER BY user_count DESC LIMIT 10 OFFSET 5"
    );
    assert_eq!(r.param_count, 2);
}

#[test]
fn select_join_at_the_end_is_trimmed() {
    let mut a = attrs("users", &["id"]);
    a.joins = names(&["LEFT JOIN a ON a.id = users.id", " JOIN b ON b.id = a.id "]);
    let r = select_statement(&a);
    assert_eq!(r.sql, "SELECT id FROM users  LEFT JOIN a ON a.id = users.id   JOIN b ON b.id = a.id");
}

#[test]
fn select_having_without_where_starts_at_one() {
    let mut a = attrs("users", &["id"]);
    a.having = Some("COUNT(*) > $".to_string());
    a.limit = Some(0);
    let r = select_statement(&a);
    assert_eq!(r.sql, "SELECT id FROM users HAVING COUNT(*) > $1 LIMIT 0");
    assert_eq!(r.param_count, 1);
}

#[test]
fn sql_params_fields_of_clauses() {
    let fields = names(&["id", "name", "email", "state"]);
    assert_eq!(sql_param_fields(&fields, Some("id = $"), None), names(&["id"]));
    assert_eq!(
        sql_param_fields(&fields, Some("state > $"), Some("COUNT(name) > $")),
        names(&["state"])
    );
    assert_eq!(
        sql_param_fields(&fields, Some("state >= $ AND users.email<>$"), Some("name != $")),
        names(&["state", "email", "name"])
    );
    assert_eq!(sql_param_fields(&fields, None, None), fields);
    assert_eq!(sql_param_fields(&fields, Some("1 = 1"), None), fields);
}

#[test]
fn sql_params_match_pieces_of_text() {
    let fields = names(&["id", "user_id"]);
    assert_eq!(sql_param_fields(&fields, Some("user_id = $"), None), names(&["user_id"]));
    assert_eq!(sql_param_fields(&fields, Some("id IN ($, $)"), None), fields);
}

#[test]
fn where_fields_come_from_conditions() {
    assert_eq!(extract_fields_from_where_clause("id = $ AND name=$").unwrap(), names(&["id", "name"]));
    assert_eq!(extract_fields_from_where_clause("state >= $").unwrap(), names(&["state"]));
    assert_eq!(extract_fields_from_where_clause("id = $ AND state >= $").unwrap(), names(&["id", "state"]));
    assert_eq!(
        extract_fields_from_where_clause("a < $ OR b > $ OR c <= $ OR d <> $ OR e != $").unwrap(),
        names(&["a", "b", "c", "d", "e"])
    );
    assert_eq!(extract_fields_from_where_clause("id IN ($)").unwrap(), Vec::<String>::new());
    assert_eq!(extract_fields_from_where_clause("").unwrap(), Vec::<String>::new());
}

#[test]
fn update_params_are_set_fields_then_condition_fields() {
    let fields = names(&["id", "name", "email", "state"]);
    assert_eq!(update_param_fields(Some("name, email"), "id = $", &fields).unwrap(), names(&["name", "email", "id"]));
    assert_eq!(update_param_fields(Some("email,nick"), "id = $ AND other = $", &fields).unwrap(), names(&["email", "id"]));
}

#[test]
fn direct_statements() {
    let cols = names(&["name", "email"]);
    assert_eq!(direct_insert_sql("users", &cols), "INSERT INTO users (name, email) VALUES ($1, $2)");
    assert_eq!(direct_update_sql("users", &cols, "id = $3"), "UPDATE users SET name = $1, email = $2 WHERE id = $3");
    assert_eq!(direct_delete_sql("users", "id = $1"), "DELETE FROM users WHERE id = $1");
    assert_eq!(direct_select_sql("id, name", "users", "id = $1"), "SELECT id, name FROM users WHERE id = $1");
    assert_eq!(direct_insert_sql("t", &Vec::new()), "INSERT INTO t () VALUES ()");
}

#[test]
fn trace_only_for_one() {
    assert!(trace_enabled(Some("1")));
    assert!(!trace_enabled(Some("0")));
    assert!(!trace_enabled(Some("11")));
    assert!(!trace_enabled(Some("")));
    assert!(!trace_enabled(None));
}

#[test]
fn text_helpers() {
    assert_eq!(split_char("a, b,,c", ','), names(&["a", " b", "", "c"]));
    assert_eq!(split_char("", ','), names(&[""]));
    assert_eq!(trim_str("  a b \n"), "a b");
    assert_eq!(join_strings(&names(&["a", "b", "c"]), ", "), "a, b, c");
    assert_eq!(join_strings(&Vec::new(), ", "), "");
}

#[test]
fn sql_params_follow_placeholder_order() {
    let fields = names(&["id", "name"]);
    assert_eq!(sql_param_fields(&fields, Some("name = $ AND id = $"), None), names(&["name", "id"]));
    assert_eq!(sql_param_fields(&fields, Some("id = $ OR id = $"), None), names(&["id", "id"]));
    assert_eq!(sql_param_fields(&fields, Some("name = $"), Some("id > $")), names(&["name", "id"]));
}

#[test]
fn update_without_attribute_updates_every_field() {
    let fields = names(&["id", "name"]);
    let r = update_statement("users", None, Some("id = $"), &fields, None);
    assert_eq!(r.sql, "UPDATE users SET id = $1, name = $2 WHERE id = $3");
    assert_eq!(r.param_count, 3);
    assert_eq!(update_param_fields(None, "id = $", &fields).unwrap(), names(&["id", "name", "id"]));
}

#[test]
fn update_params_follow_comparisons() {
    let fields = names(&["id", "name", "state"]);
    assert_eq!(
        update_param_fields(Some("name"), "id = $ AND state >= $", &fields).unwrap(),
        names(&["name", "id", "state"])
    );
}

#[test]
fn update_returning_column() {
    let fields = names(&["id", "name"]);
    let r = update_statement("users", Some("name"), Some("id = $"), &fields, Some("i;d"));
    assert_eq!(r.sql, "UPDATE users SET name = $1 WHERE id = $2 RETURNING id");
    assert_eq!(r.param_count, 2);
}
