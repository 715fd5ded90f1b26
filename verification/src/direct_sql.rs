//! Statements written directly from a table's metadata: the table name,
//! its columns and a condition, without sanitising or renumbering.

use vstd::prelude::*;
use crate::text::{decimal, join, join_strings, push_char, push_decimal, string_views};

verus! {

/// The placeholders `$1, ..., $n`.
pub open spec fn dollar_placeholders(n: nat) -> Seq<Seq<char>> {
    Seq::new(n, |i: int| seq!['$'] + decimal((i + 1) as nat))
}

/// The SET items `<column> = $<i + 1>`.
pub open spec fn assignments(cols: Seq<Seq<char>>) -> Seq<Seq<char>> {
    Seq::new(cols.len(), |i: int| cols[i] + seq![' ', '=', ' ', '$'] + decimal((i + 1) as nat))
}

fn dollar_list(n: usize) -> (r: Vec<String>)
    ensures
        string_views(r@) == dollar_placeholders(n as nat),
{
    let mut out: Vec<String> = Vec::new();
    let mut i: usize = 0;
    while i < n
        invariant
            i <= n,
            out@.len() == i,
            forall|j: int| 0 <= j < i ==> #[trigger] out@[j]@ == seq!['$'] + decimal((j + 1) as nat),
        decreases n - i,
    {
        let mut p = String::new();
        push_char(&mut p, '$');
        push_decimal(&mut p, i as u64 + 1);
        out.push(p);
        i = i + 1;
    }
    assert(string_views(out@) =~= dollar_placeholders(n as nat));
    out
}

fn assignment_list(cols: &Vec<String>) -> (r: Vec<String>)
    ensures
        string_views(r@) == assignments(string_views(cols@)),
{
    let mut out: Vec<String> = Vec::new();
    let n = cols.len();
    let mut i: usize = 0;
    while i < n
        invariant
            n == cols@.len(),
            i <= n,
            out@.len() == i,
            forall|j: int| 0 <= j < i ==> #[trigger] out@[j]@ == cols@[j]@ + seq![' ', '=', ' ', '$'] + decimal((j + 1) as nat),
        decreases n - i,
    {
        let mut item = cols[i].clone();
        item.append(" = $");
        proof { reveal_strlit(" = $"); }
        push_decimal(&mut item, i as u64 + 1);
        assert(item@ =~= cols@[i as int]@ + seq![' ', '=', ' ', '$'] + decimal((i + 1) as nat));
        out.push(item);
        i = i + 1;
    }
    assert(string_views(out@) =~= assignments(string_views(cols@)));
    out
}

/// `INSERT INTO <table> (<columns>) VALUES ($1, ..., $n)`.
pub fn direct_insert_sql(table: &str, columns: &Vec<String>) -> (r: String)
    ensures
        r@ == "INSERT INTO "@ + table@ + seq![' ', '('] + join(string_views(columns@), seq![',', ' '])
            + ") VALUES ("@ + join(dollar_placeholders(columns@.len()), seq![',', ' ']) + seq![')'],
{
    proof { reveal_strlit(", "); }
    assert(", "@ =~= seq![',', ' ']);
    let mut sql = String::new();
    sql.append("INSERT INTO ");
    sql.append(table);
    sql.append(" (");
    proof { reveal_strlit(" ("); }
    let cols = join_strings(columns, ", ");
    sql.append(cols.as_str());
    sql.append(") VALUES (");
    let placeholders = dollar_list(columns.len());
    let ps = join_strings(&placeholders, ", ");
    sql.append(ps.as_str());
    push_char(&mut sql, ')');
    sql
}

/// `UPDATE <table> SET <c1> = $1, ... WHERE <condition>`.
pub fn direct_update_sql(table: &str, columns: &Vec<String>, where_clause: &str) -> (r: String)
    ensures
        r@ == "UPDATE "@ + table@ + " SET "@ + join(assignments(string_views(columns@)), seq![',', ' '])
            + " WHERE "@ + where_clause@,
{
    proof { reveal_strlit(", "); }
    assert(", "@ =~= seq![',', ' ']);
    let mut sql = String::new();
    sql.append("UPDATE ");
    sql.append(table);
    sql.append(" SET ");
    let items = assignment_list(columns);
    let joined = join_strings(&items, ", ");
    sql.append(joined.as_str());
    sql.append(" WHERE ");
    sql.append(where_clause);
    sql
}

/// `DELETE FROM <table> WHERE <condition>`.
pub fn direct_delete_sql(table: &str, where_clause: &str) -> (r: String)
    ensures
        r@ == "DELETE FROM "@ + table@ + " WHERE "@ + where_clause@,
{
    let mut sql = String::new();
    sql.append("DELETE FROM ");
    sql.append(table);
    sql.append(" WHERE ");
    sql.append(where_clause);
    sql
}

/// `SELECT <columns> FROM <table> WHERE <condition>`.
pub fn direct_select_sql(select_clause: &str, table: &str, where_clause: &str) -> (r: String)
    ensures
        r@ == "SELECT "@ + select_clause@ + " FROM "@ + table@ + " WHERE "@ + where_clause@,
{
    let mut sql = String::new();
    sql.append("SELECT ");
    sql.append(select_clause);
    sql.append(" FROM ");
    sql.append(table);
    sql.append(" WHERE ");
    sql.append(where_clause);
    sql
}

} // verus!
