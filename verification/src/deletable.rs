//! The DELETE statement of the `Deletable` derive.

use vstd::prelude::*;
use crate::query_builder::{
    SafeQueryBuilder, keyword_step, identifier_step, raw_step, raw_sep, lemma_keyword_and_raw_last,
};
use crate::statement::{GeneratedSql, opt_view, opt_len};
use crate::text::{trim, trim_end};
use crate::utils::{
    SqlParamCounter, count_dollars, number_params, number_where_clause_params,
    law_numbering_without_placeholders,
};

verus! {

/// The WHERE clause numbered from 1 (empty when absent).
pub open spec fn numbered_from_one(where_clause: Option<Seq<char>>) -> Seq<char> {
    match where_clause {
        Some(w) => number_params(w, 1),
        None => seq![],
    }
}

/// The placeholders of an optional clause.
pub open spec fn opt_dollars(where_clause: Option<Seq<char>>) -> nat {
    match where_clause {
        Some(w) => count_dollars(w),
        None => 0,
    }
}

/// The DELETE statement for `table` and the optional WHERE clause:
/// `DELETE FROM <table> WHERE <clause>`; the keyword WHERE stands even
/// when the clause is absent.
pub open spec fn delete_query(table: Seq<char>, where_clause: Option<Seq<char>>) -> Seq<char> {
    let q0 = keyword_step(seq![], "DELETE FROM"@);
    let q1 = identifier_step(q0, table);
    let q2 = keyword_step(q1, "WHERE"@);
    trim(raw_step(q2, numbered_from_one(where_clause)))
}

/// The DELETE statement that the `Deletable` derive emits, with the number
/// of parameters it was numbered for.
pub fn delete_statement(table: &str, where_clause: Option<&str>) -> (r: GeneratedSql)
    requires
        opt_len(where_clause) + 1 <= usize::MAX,
    ensures
        r.sql@ == delete_query(table@, opt_view(where_clause)),
        r.param_count == opt_dollars(opt_view(where_clause)),
{
    let mut param_counter = SqlParamCounter::new();
    let adjusted_where_clause = match where_clause {
        Some(clause) => {
            proof { crate::utils::lemma_count_dollars_bound(clause@); }
            number_where_clause_params(clause, &mut param_counter)
        },
        None => String::new(),
    };
    let mut builder = SafeQueryBuilder::new();
    builder.add_keyword("DELETE FROM");
    builder.add_identifier(table);
    builder.add_keyword("WHERE");
    builder.add_raw(adjusted_where_clause.as_str());
    let safe_query = builder.build();
    let count = param_counter.count();
    GeneratedSql { sql: safe_query, param_count: count }
}


/// The condition of a DELETE statement is never dropped: with a WHERE
/// clause the statement ends with ` WHERE`, the separator and the clause
/// numbered from 1 without its trailing whitespace (a clause without
/// placeholders as it was written); without one, or with a blank one, it
/// ends with ` WHERE`.
pub proof fn law_delete_ends_with_condition(table: Seq<char>, w: Seq<char>)
    ensures
        (" WHERE"@ + if trim_end(number_params(w, 1)).len() > 0 {
            raw_sep(number_params(w, 1)) + trim_end(number_params(w, 1))
        } else {
            seq![]
        }).is_suffix_of(delete_query(table, Some(w))),
        count_dollars(w) == 0 && trim_end(w).len() > 0 ==>
            (" WHERE"@ + raw_sep(w) + trim_end(w)).is_suffix_of(delete_query(table, Some(w))),
        " WHERE"@.is_suffix_of(delete_query(table, None)),
{
    reveal_strlit("DELETE FROM");
    reveal_strlit("WHERE");
    reveal_strlit(" WHERE");
    let q0 = keyword_step(seq![], "DELETE FROM"@);
    let q1 = identifier_step(q0, table);
    assert(q1[0] == 'D');
    let kw = "WHERE"@;
    assert(kw.last() == 'E');
    let nw = number_params(w, 1);
    lemma_keyword_and_raw_last(q1, kw, nw);
    let tail = if trim_end(nw).len() > 0 { raw_sep(nw) + trim_end(nw) } else { seq![] };
    let d = delete_query(table, Some(w));
    assert(d == q1 + seq![' '] + kw + tail);
    assert(d.subrange(d.len() - (" WHERE"@ + tail).len(), d.len() as int) =~= " WHERE"@ + tail);
    if count_dollars(w) == 0 {
        law_numbering_without_placeholders(w, 1);
    }
    lemma_keyword_and_raw_last(q1, kw, seq![]);
    let e = delete_query(table, None);
    assert(trim_end(Seq::<char>::empty()).len() == 0);
    assert(e == q1 + seq![' '] + kw + seq![]);
    assert(e.subrange(e.len() - " WHERE"@.len(), e.len() as int) =~= " WHERE"@);
}

} // verus!
