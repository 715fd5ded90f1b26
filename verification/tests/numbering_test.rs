use parsql::numbering::{number_where_clause_params, process_where_clause};

#[test]
fn test_simple_numbering() {
    let result = number_where_clause_params("id = $", 1);
    assert_eq!(result, "id = $1");
}

#[test]
fn numbering_test_test_multiple_params() {
    let result = number_where_clause_params("id = $ AND name = $", 1);
    assert_eq!(result, "id = $1 AND name = $2");
}

#[test]
fn test_custom_start_count() {
    let result = number_where_clause_params("id = $", 5);
    assert_eq!(result, "id = $5");
}

#[test]
fn test_process_where_clause_none() {
    let result = process_where_clause(None, 1);
    assert_eq!(result, "");
}

#[test]
fn test_process_where_clause_with_param() {
    let result = process_where_clause(Some("state >= $"), 1);
    assert_eq!(result, "state >= $1");
}

#[test]
fn test_process_where_clause_with_custom_start() {
    let result = process_where_clause(Some("state >= $"), 11);
    assert_eq!(result, "state >= $11");
}

#[test]
fn test_process_problem_scenario() {
    // A counter that was moved elsewhere to 11 numbers the clause from 11.
    let count = 11;
    let where_clause = Some("state >= $");
    let result = process_where_clause(where_clause, count);
    assert_eq!(result, "state >= $11");
}

#[test]
fn numbering_keeps_text_without_placeholders() {
    assert_eq!(number_where_clause_params("a = b AND c > 3", 7), "a = b AND c > 3");
    assert_eq!(number_where_clause_params("", 0), "");
}

#[test]
fn numbering_renders_multi_digit_numbers() {
    assert_eq!(number_where_clause_params("$,$,$", 9), "$9,$10,$11");
    assert_eq!(number_where_clause_params("x = $", 0), "x = $0");
    assert_eq!(number_where_clause_params("x = $", 1234567), "x = $1234567");
}

#[test]
fn numbering_keeps_non_ascii_text() {
    assert_eq!(number_where_clause_params("ad = $ VE şehir = $", 1), "ad = $1 VE şehir = $2");
}

#[test]
fn numbering_of_two_clauses_continues() {
    // law: numbering a + b from n equals numbering a from n, then b from
    // n plus the placeholders of a
    let a = "x = $ AND y = $";
    let b = " OR z = $";
    let whole = number_where_clause_params(&format!("{}{}", a, b), 4);
    let parts = format!("{}{}", number_where_clause_params(a, 4), number_where_clause_params(b, 6));
    assert_eq!(whole, parts);
}

#[test]
fn numbering_keeps_the_number_of_placeholders() {
    let clause = "a = $ AND b IN ($, $) OR c = 'x'";
    let numbered = number_where_clause_params(clause, 98);
    assert_eq!(numbered, "a = $98 AND b IN ($99, $100) OR c = 'x'");
    assert_eq!(numbered.matches('$').count(), clause.matches('$').count());
}
