//! The INSERT statement of the `Insertable` derive.

use vstd::prelude::*;
use crate::query_builder::{SafeQueryBuilder, keyword_step, identifier_step, comma_list_step};
use crate::text::{decimal, join, join_strings, push_char, push_decimal, str_views, string_views, trim};

verus! {

/// The database whose placeholder style and RETURNING form the INSERT
/// statement uses.
#[derive(Clone, Copy, PartialEq, Eq, Structural, Debug)]
pub enum SqlDialect {
    /// PostgreSQL: placeholders `$1, $2, ...` and `RETURNING <column>`.
    Postgres,
    /// SQLite: placeholders `?1, ?2, ...` and a following
    /// `SELECT last_insert_rowid() AS <column>`.
    Sqlite,
}

/// The character that starts a placeholder in `dialect`.
pub open spec fn placeholder_mark(dialect: SqlDialect) -> char {
    match dialect {
        SqlDialect::Postgres => '$',
        SqlDialect::Sqlite => '?',
    }
}

/// The placeholders `<mark>1, ..., <mark>n`, one per column.
pub open spec fn placeholders(dialect: SqlDialect, n: nat) -> Seq<Seq<char>> {
    Seq::new(n, |i: int| seq![placeholder_mark(dialect)] + decimal((i + 1) as nat))
}

/// The INSERT statement for `table`, the struct's field names as columns,
/// and the optional returned column: `INSERT INTO <table> ( <columns> )
/// VALUES ( <placeholders> )`, then the dialect's form of returning the
/// column.
pub open spec fn insert_query(
    dialect: SqlDialect,
    table: Seq<char>,
    fields: Seq<Seq<char>>,
    returning: Option<Seq<char>>,
) -> Seq<char> {
    let q0 = keyword_step(seq![], "INSERT INTO"@);
    let q1 = identifier_step(q0, table);
    let q2 = keyword_step(q1, "("@);
    let q3 = comma_list_step(q2, fields);
    let q4 = keyword_step(q3, ")"@);
    let q5 = keyword_step(q4, "VALUES"@);
    let q6 = keyword_step(q5, "("@);
    let q7 = q6 + join(placeholders(dialect, fields.len()), seq![',', ' ']);
    let q8 = keyword_step(q7, ")"@);
    trim(match returning {
        None => q8,
        Some(col) => match dialect {
            SqlDialect::Postgres => identifier_step(keyword_step(q8, "RETURNING"@), col),
            SqlDialect::Sqlite => identifier_step(
                keyword_step(keyword_step(keyword_step(keyword_step(q8, ";"@), "SELECT"@), "last_insert_rowid()"@), "AS"@),
                col,
            ),
        },
    })
}

fn placeholder_list(dialect: SqlDialect, n: usize) -> (r: Vec<String>)
    ensures
        string_views(r@) == placeholders(dialect, n as nat),
{
    let mut out: Vec<String> = Vec::new();
    let mut i: usize = 0;
    while i < n
        invariant
            i <= n,
            out@.len() == i,
            forall|j: int| 0 <= j < i ==> #[trigger] out@[j]@ == seq![placeholder_mark(dialect)] + decimal((j + 1) as nat),
        decreases n - i,
    {
        let mut p = String::new();
        match dialect {
            SqlDialect::Postgres => push_char(&mut p, '$'),
            SqlDialect::Sqlite => push_char(&mut p, '?'),
        }
        push_decimal(&mut p, i as u64 + 1);
        out.push(p);
        i = i + 1;
    }
    assert(string_views(out@) =~= placeholders(dialect, n as nat));
    out
}

/// The INSERT statement that the `Insertable` derive emits.
pub fn insert_statement(
    dialect: SqlDialect,
    table: &str,
    fields: &Vec<String>,
    returning: Option<&str>,
) -> (r: String)
    ensures
        r@ == insert_query(dialect, table@, string_views(fields@), match returning {
            Some(c) => Some(c@),
            None => None,
        }),
{
    let mut column_names: Vec<&str> = Vec::new();
    let n = fields.len();
    let mut i: usize = 0;
    while i < n
        invariant
            n == fields@.len(),
            i <= n,
            column_names@.len() == i,
            forall|j: int| 0 <= j < i ==> #[trigger] column_names@[j]@ == fields@[j]@,
        decreases n - i,
    {
        column_names.push(fields[i].as_str());
        i = i + 1;
    }
    assert(str_views(column_names@) =~= string_views(fields@));

    let mut builder = SafeQueryBuilder::new();
    builder.add_keyword("INSERT INTO");
    builder.add_identifier(table);
    builder.add_keyword("(");
    builder.add_comma_list(column_names.as_slice());
    builder.add_keyword(")");
    builder.add_keyword("VALUES");
    builder.add_keyword("(");
    let placeholders = placeholder_list(dialect, n);
    let joined = join_strings(&placeholders, ", ");
    proof { reveal_strlit(", "); }
    assert(", "@ =~= seq![',', ' ']);
    builder.query.append(joined.as_str());
    builder.add_keyword(")");
    match returning {
        Some(column) => match dialect {
            SqlDialect::Postgres => {
                builder.add_keyword("RETURNING");
                builder.add_identifier(column);
            },
            SqlDialect::Sqlite => {
                builder.add_keyword(";");
                builder.add_keyword("SELECT");
                builder.add_keyword("last_insert_rowid()");
                builder.add_keyword("AS");
                builder.add_identifier(column);
            },
        },
        None => {},
    }
    builder.build()
}

} // verus!
