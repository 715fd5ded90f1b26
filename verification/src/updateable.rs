//! The UPDATE statement of the `Updateable` derive.

use vstd::prelude::*;
use crate::query_builder::{
    SafeQueryBuilder, keyword_step, identifier_step, raw_step, raw_sep, lemma_keyword_and_raw_kept,
    lemma_steps_extend,
};
use crate::statement::{GeneratedSql, opt_view, opt_len, matching_names, count_matching, lemma_matching_len};
use crate::text::{
    contains_seq, trim_end, decimal, join, keep_ident_chars, keep_identifier_chars, join_strings, push_decimal, split_char,
    split_on, string_views, trim, trim_all, lemma_split_on_len,
};
use crate::utils::{
    SqlParamCounter, count_dollars, number_params, number_where_clause_params,
    law_numbering_without_placeholders,
};

verus! {

/// The column names that an `update` attribute lists: the pieces between
/// its commas, each trimmed.
pub open spec fn update_columns(attr: Seq<char>) -> Seq<Seq<char>> {
    split_on(attr, ',').map_values(|p: Seq<char>| trim(p))
}

/// The columns that a struct updates: those that its `update` attribute
/// lists, or all its fields when it has no such attribute.
pub open spec fn update_column_list(attr: Option<Seq<char>>, fields: Seq<Seq<char>>) -> Seq<Seq<char>> {
    match attr {
        Some(a) => update_columns(a),
        None => fields,
    }
}

/// The SET item of column `col` at position `i`: `col = $<i + 1>`, the
/// column name sanitised.
pub open spec fn set_item(col: Seq<char>, i: nat) -> Seq<char> {
    keep_ident_chars(col) + seq![' ', '=', ' ', '$'] + decimal(i + 1)
}

/// The SET items of all columns, numbered from 1 in their order.
pub open spec fn set_items(cols: Seq<Seq<char>>) -> Seq<Seq<char>> {
    Seq::new(cols.len(), |i: int| set_item(cols[i], i as nat))
}

/// The WHERE clause numbered after the SET parameters of the columns that
/// are fields (empty when absent).
pub open spec fn update_where(attr: Option<Seq<char>>, where_clause: Option<Seq<char>>, fields: Seq<Seq<char>>) -> Seq<char> {
    match where_clause {
        Some(w) => number_params(w, 1 + count_matching(update_column_list(attr, fields), fields)),
        None => seq![],
    }
}

/// The UPDATE statement for `table`, the optional `update` attribute
/// `attr`, the optional WHERE clause, the struct's field names and the
/// optional returned column: `UPDATE <table> SET <items>`, then `WHERE
/// <clause>` when the numbered clause is not empty, then `RETURNING
/// <column>` when a column is to be returned.
pub open spec fn update_query(
    table: Seq<char>,
    attr: Option<Seq<char>>,
    where_clause: Option<Seq<char>>,
    fields: Seq<Seq<char>>,
    returning: Option<Seq<char>>,
) -> Seq<char> {
    let q0 = keyword_step(seq![], "UPDATE"@);
    let q1 = identifier_step(q0, table);
    let q2 = keyword_step(q1, "SET"@);
    let q3 = raw_step(q2, join(set_items(update_column_list(attr, fields)), seq![',', ' ']));
    let w = update_where(attr, where_clause, fields);
    let q4 = if w.len() == 0 { q3 } else { raw_step(keyword_step(q3, "WHERE"@), w) };
    trim(match returning {
        Some(col) => identifier_step(keyword_step(q4, "RETURNING"@), col),
        None => q4,
    })
}

/// The parameters of the UPDATE statement: one per updated column that is
/// a field, then one per placeholder of the WHERE clause.
pub open spec fn update_param_count(attr: Option<Seq<char>>, where_clause: Option<Seq<char>>, fields: Seq<Seq<char>>) -> nat {
    count_matching(update_column_list(attr, fields), fields) + match where_clause {
        Some(w) => count_dollars(w),
        None => 0,
    }
}

fn set_statements(cols: &Vec<String>) -> (r: Vec<String>)
    requires
        cols@.len() < u64::MAX,
    ensures
        string_views(r@) == set_items(string_views(cols@)),
{
    let mut out: Vec<String> = Vec::new();
    let n = cols.len();
    let mut i: usize = 0;
    while i < n
        invariant
            n == cols@.len(),
            n < u64::MAX,
            i <= n,
            out@.len() == i,
            forall|j: int| 0 <= j < i ==> #[trigger] out@[j]@ == set_item(cols@[j]@, j as nat),
        decreases n - i,
    {
        let mut item = keep_identifier_chars(cols[i].as_str());
        item.append(" = $");
        proof { reveal_strlit(" = $"); }
        push_decimal(&mut item, (i + 1) as u64);
        assert(item@ =~= set_item(cols@[i as int]@, i as nat));
        out.push(item);
        i = i + 1;
    }
    assert(string_views(out@) =~= set_items(string_views(cols@)));
    out
}

/// The number of columns bounded by: the attribute's characters (one more
/// piece than commas at most), or the number of fields.
pub open spec fn column_bound(update_attr: Option<&str>, fields: Seq<String>) -> nat {
    match update_attr {
        Some(a) => a@.len() + 1,
        None => fields.len(),
    }
}

/// The UPDATE statement that the `Updateable` derive emits, with the
/// number of parameters it was numbered for. Without an `update`
/// attribute every field is updated; a `returning` column is returned.
pub fn update_statement(
    table: &str,
    update_attr: Option<&str>,
    where_clause: Option<&str>,
    fields: &Vec<String>,
    returning: Option<&str>,
) -> (r: GeneratedSql)
    requires
        column_bound(update_attr, fields@) + opt_len(where_clause) + 1 <= usize::MAX,
    ensures
        r.sql@ == update_query(table@, opt_view(update_attr), opt_view(where_clause), string_views(fields@), opt_view(returning)),
        r.param_count == update_param_count(opt_view(update_attr), opt_view(where_clause), string_views(fields@)),
{
    let column_order = match update_attr {
        Some(attr) => {
            let pieces = split_char(attr, ',');
            proof { lemma_split_on_len(attr@, ','); }
            trim_all(&pieces)
        },
        None => fields.clone(),
    };
    let ghost cols = string_views(column_order@);
    assert(cols == update_column_list(opt_view(update_attr), string_views(fields@)));
    assert(cols.len() <= column_bound(update_attr, fields@));
    proof {
        lemma_matching_len(cols, string_views(fields@));
    }
    let sorted_fields = matching_names(&column_order, fields);
    let mut param_counter = SqlParamCounter::new();
    let k = sorted_fields.len();
    let mut j: usize = 0;
    while j < k
        invariant
            k == count_matching(cols, string_views(fields@)),
            k <= column_bound(update_attr, fields@),
            column_bound(update_attr, fields@) + opt_len(where_clause) + 1 <= usize::MAX,
            j <= k,
            param_counter@ == 1 + j,
        decreases k - j,
    {
        param_counter.next();
        j = j + 1;
    }
    let adjusted_where_clause = match where_clause {
        Some(clause) => {
            proof { crate::utils::lemma_count_dollars_bound(clause@); }
            number_where_clause_params(clause, &mut param_counter)
        },
        None => String::new(),
    };

    let mut builder = SafeQueryBuilder::new();
    builder.add_keyword("UPDATE");
    builder.add_identifier(table);
    builder.add_keyword("SET");
    let update_statements = set_statements(&column_order);
    let joined = join_strings(&update_statements, ", ");
    proof { reveal_strlit(", "); }
    assert(", "@ =~= seq![',', ' ']);
    builder.add_raw(joined.as_str());
    if adjusted_where_clause.as_str().unicode_len() > 0 {
        builder.add_keyword("WHERE");
        builder.add_raw(adjusted_where_clause.as_str());
    }
    match returning {
        Some(column) => {
            builder.add_keyword("RETURNING");
            builder.add_identifier(column);
        },
        None => {},
    }
    let safe_query = builder.build();
    let count = param_counter.count();
    GeneratedSql { sql: safe_query, param_count: count }
}

proof fn lemma_count_matching_all(cols: Seq<Seq<char>>, fields: Seq<Seq<char>>)
    requires
        forall|i: int| 0 <= i < cols.len() ==> fields.contains(#[trigger] cols[i]),
    ensures
        count_matching(cols, fields) == cols.len(),
    decreases cols.len(),
{
    if cols.len() > 0 {
        let c0 = cols.drop_last();
        assert forall|i: int| 0 <= i < c0.len() implies fields.contains(#[trigger] c0[i]) by {
            assert(c0[i] == cols[i]);
        }
        lemma_count_matching_all(c0, fields);
        assert(fields.contains(cols[cols.len() - 1]));
    }
}

/// When every updated column is a field (always so without an `update`
/// attribute), the parameter numbering stays in step with the statement:
/// the SET items take the numbers 1 to the number of columns, and the WHERE
/// clause is numbered from the next number on, one parameter per
/// placeholder.
pub proof fn law_update_numbering_in_step(attr: Option<Seq<char>>, where_clause: Option<Seq<char>>, fields: Seq<Seq<char>>)
    requires
        forall|i: int| 0 <= i < update_column_list(attr, fields).len() ==>
            fields.contains(#[trigger] update_column_list(attr, fields)[i]),
    ensures
        update_param_count(attr, where_clause, fields) == update_column_list(attr, fields).len() + match where_clause {
            Some(w) => count_dollars(w),
            None => 0,
        },
        forall|i: int| 0 <= i < update_column_list(attr, fields).len() ==>
            #[trigger] set_items(update_column_list(attr, fields))[i] == set_item(update_column_list(attr, fields)[i], i as nat),
        update_where(attr, where_clause, fields) == match where_clause {
            Some(w) => number_params(w, 1 + update_column_list(attr, fields).len()),
            None => Seq::<char>::empty(),
        },
{
    lemma_count_matching_all(update_column_list(attr, fields), fields);
}

/// Without an `update` attribute every field is updated, and the numbering
/// stays in step: the SET items number the fields 1 to their count and
/// the WHERE clause continues from there.
pub proof fn law_update_all_fields(where_clause: Option<Seq<char>>, fields: Seq<Seq<char>>)
    ensures
        update_column_list(None, fields) == fields,
        update_param_count(None, where_clause, fields) == fields.len() + match where_clause {
            Some(w) => count_dollars(w),
            None => 0,
        },
        update_where(None, where_clause, fields) == match where_clause {
            Some(w) => number_params(w, 1 + fields.len()),
            None => Seq::<char>::empty(),
        },
{
    assert forall|i: int| 0 <= i < fields.len() implies fields.contains(#[trigger] fields[i]) by {}
    law_update_numbering_in_step(None, where_clause, fields);
}


/// The condition of an UPDATE statement is never dropped: with a WHERE
/// clause that is not empty, the statement holds ` WHERE` and, when the
/// clause is not blank, ` WHERE`, the separator and the clause numbered
/// after the SET parameters, without its trailing whitespace, whether or
/// not it has placeholders (one without them stands as it was written),
/// and whatever column is returned.
pub proof fn law_update_keeps_where_clause(
    table: Seq<char>,
    attr: Option<Seq<char>>,
    w: Seq<char>,
    fields: Seq<Seq<char>>,
    returning: Option<Seq<char>>,
)
    requires
        w.len() > 0,
    ensures
        contains_seq(update_query(table, attr, Some(w), fields, returning), " WHERE"@),
        ({
            let nw = number_params(w, 1 + count_matching(update_column_list(attr, fields), fields));
            trim_end(nw).len() > 0 ==> contains_seq(
                update_query(table, attr, Some(w), fields, returning),
                " WHERE"@ + raw_sep(nw) + trim_end(nw),
            )
        }),
        count_dollars(w) == 0 && trim_end(w).len() > 0 ==> contains_seq(
            update_query(table, attr, Some(w), fields, returning),
            " WHERE"@ + raw_sep(w) + trim_end(w),
        ),
{
    reveal_strlit("UPDATE");
    reveal_strlit("WHERE");
    reveal_strlit(" WHERE");
    let cols = update_column_list(attr, fields);
    let nw = number_params(w, 1 + count_matching(cols, fields));
    assert(nw.len() > 0);
    let q0 = keyword_step(seq![], "UPDATE"@);
    let q1 = identifier_step(q0, table);
    let q2 = keyword_step(q1, "SET"@);
    let q3 = raw_step(q2, join(set_items(cols), seq![',', ' ']));
    assert(q3[0] == 'U');
    let q4 = raw_step(keyword_step(q3, "WHERE"@), nw);
    let whole = match returning {
        Some(col) => identifier_step(keyword_step(q4, "RETURNING"@), col),
        None => q4,
    };
    assert(q4.is_prefix_of(whole)) by {
        match returning {
            Some(col) => {
                let k = keyword_step(q4, "RETURNING"@);
                lemma_steps_extend(q4, "RETURNING"@);
                lemma_steps_extend(k, col);
                crate::query_builder::lemma_prefix_trans(q4, k, whole);
            },
            None => {
                assert(q4 =~= whole.subrange(0, q4.len() as int));
            },
        }
    }
    assert("WHERE"@.last() == 'E');
    lemma_keyword_and_raw_kept(q3, "WHERE"@, nw, whole);
    assert(update_query(table, attr, Some(w), fields, returning) == trim(whole));
    assert(seq![' '] + "WHERE"@ =~= " WHERE"@);
    if count_dollars(w) == 0 {
        law_numbering_without_placeholders(w, 1 + count_matching(cols, fields));
    }
}

} // verus!
