use parsql::utils::{number_where_clause_params, SqlParamCounter};

/// Test basic parameter numbering with new counter
#[test]
fn test_basic_numbering() {
    let mut counter = SqlParamCounter::new();
    let result = number_where_clause_params("id = $", &mut counter);
    assert_eq!(result, "id = $1");
    assert_eq!(counter.current(), 2);
}

/// Test multiple parameters
#[test]
fn param_numbering_tests_test_multiple_params() {
    let mut counter = SqlParamCounter::new();
    let result = number_where_clause_params("id = $ AND name = $", &mut counter);
    assert_eq!(result, "id = $1 AND name = $2");
    assert_eq!(counter.current(), 3);
}

/// Test sequential numbering for WHERE and HAVING
#[test]
fn test_sequential_numbering() {
    let mut counter = SqlParamCounter::new();

    let where_result = number_where_clause_params("id = $", &mut counter);
    assert_eq!(where_result, "id = $1");
    assert_eq!(counter.current(), 2);

    let having_result = number_where_clause_params("status = $", &mut counter);
    assert_eq!(having_result, "status = $2");
    assert_eq!(counter.current(), 3);
}

/// Test correct numbering with multiple clauses
#[test]
fn test_complex_query_numbering() {
    let mut counter = SqlParamCounter::new();

    let where_result = number_where_clause_params("state >= $ AND created_at > $", &mut counter);
    assert_eq!(where_result, "state >= $1 AND created_at > $2");
    assert_eq!(counter.current(), 3);

    let having_result = number_where_clause_params("count(*) > $", &mut counter);
    assert_eq!(having_result, "count(*) > $3");
    assert_eq!(counter.current(), 4);
}

#[test]
fn counter_numbering_without_placeholders_leaves_counter() {
    let mut counter = SqlParamCounter::new();
    let result = number_where_clause_params("active = true", &mut counter);
    assert_eq!(result, "active = true");
    assert_eq!(counter.current(), 1);
    assert_eq!(counter.count(), 0);
}
