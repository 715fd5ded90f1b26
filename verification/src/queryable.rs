//! The SELECT statement of the `Queryable` derive.

use vstd::prelude::*;
use crate::query_builder::{
    SafeQueryBuilder, keyword_step, identifier_step, raw_step, raw_sep, lemma_keyword_and_raw_kept,
    lemma_prefix_trans, lemma_steps_extend,
};
use crate::statement::GeneratedSql;
use crate::text::{contains_seq, trim_end, decimal, join, join_strings, push_char, push_decimal, string_views, trim, trim_str};
use crate::utils::{SqlParamCounter, count_dollars, number_params, number_where_clause_params, law_numbering_continues};

verus! {

/// The attributes of a struct that derives `Queryable`, as plain values.
pub struct QueryableAttrs {
    /// The `table` attribute.
    pub table: String,
    /// The struct's field names, in order.
    pub fields: Vec<String>,
    /// The `where_clause` attribute, with `$` placeholders.
    pub where_clause: Option<String>,
    /// The `select` attribute.
    pub select: Option<String>,
    /// The `join` attributes, in order.
    pub joins: Vec<String>,
    /// The `group_by` attribute.
    pub group_by: Option<String>,
    /// The `having` attribute, with `$` placeholders.
    pub having: Option<String>,
    /// The `order_by` attribute.
    pub order_by: Option<String>,
    /// The `limit` attribute.
    pub limit: Option<u64>,
    /// The `offset` attribute.
    pub offset: Option<u64>,
}

/// The view of an optional string.
pub open spec fn ostr(o: Option<String>) -> Option<Seq<char>> {
    match o {
        Some(s) => Some(s@),
        None => None,
    }
}

/// The placeholders of an optional clause.
pub open spec fn odollars(o: Option<String>) -> nat {
    match o {
        Some(s) => count_dollars(s@),
        None => 0,
    }
}

/// The number of characters of an optional clause (0 when absent).
pub open spec fn olen(o: Option<String>) -> nat {
    match o {
        Some(s) => s@.len(),
        None => 0,
    }
}

/// The query after the JOIN clauses: each one trimmed, with a space on
/// either side.
pub open spec fn joins_step(q: Seq<char>, joins: Seq<Seq<char>>) -> Seq<char>
    decreases joins.len(),
{
    if joins.len() == 0 {
        q
    } else {
        raw_step(joins_step(q, joins.drop_last()), seq![' '] + trim(joins.last()) + seq![' '])
    }
}

/// The query after an optional keyword and clause: nothing when the clause
/// is absent.
pub open spec fn clause_step(q: Seq<char>, keyword: Seq<char>, clause: Option<Seq<char>>) -> Seq<char> {
    match clause {
        Some(c) => raw_step(keyword_step(q, keyword), c),
        None => q,
    }
}

/// The decimal rendering of an optional number.
pub open spec fn odecimal(o: Option<u64>) -> Option<Seq<char>> {
    match o {
        Some(n) => Some(decimal(n as nat)),
        None => None,
    }
}

/// The selected columns: the `select` attribute, or else the field names
/// joined by `", "`.
pub open spec fn select_list(a: QueryableAttrs) -> Seq<char> {
    match a.select {
        Some(s) => s@,
        None => join(string_views(a.fields@), seq![',', ' ']),
    }
}

/// The WHERE clause numbered from 1 (empty when absent).
pub open spec fn select_where(a: QueryableAttrs) -> Seq<char> {
    match a.where_clause {
        Some(w) => number_params(w@, 1),
        None => seq![],
    }
}

/// The HAVING clause numbered after the WHERE clause.
pub open spec fn select_having(a: QueryableAttrs) -> Option<Seq<char>> {
    match a.having {
        Some(h) => Some(number_params(h@, 1 + odollars(a.where_clause))),
        None => None,
    }
}

/// The SELECT statement for the attributes: `SELECT <columns> FROM
/// <table>`, the joins, then WHERE (when the numbered clause is not empty),
/// GROUP BY, HAVING, ORDER BY, LIMIT and OFFSET for the attributes present.
pub open spec fn select_query(a: QueryableAttrs) -> Seq<char> {
    let q0 = keyword_step(seq![], "SELECT"@);
    let q1 = raw_step(q0, select_list(a));
    let q2 = keyword_step(q1, "FROM"@);
    let q3 = identifier_step(q2, a.table@);
    let q4 = joins_step(q3, string_views(a.joins@));
    let w = select_where(a);
    let q5 = if w.len() == 0 { q4 } else { raw_step(keyword_step(q4, "WHERE"@), w) };
    let q6 = clause_step(q5, "GROUP BY"@, ostr(a.group_by));
    let q7 = clause_step(q6, "HAVING"@, select_having(a));
    let q8 = clause_step(q7, "ORDER BY"@, ostr(a.order_by));
    let q9 = clause_step(q8, "LIMIT"@, odecimal(a.limit));
    let q10 = clause_step(q9, "OFFSET"@, odecimal(a.offset));
    trim(q10)
}

/// The parameters of the SELECT statement: one per placeholder of the
/// WHERE clause, then one per placeholder of the HAVING clause.
pub open spec fn select_param_count(a: QueryableAttrs) -> nat {
    odollars(a.where_clause) + odollars(a.having)
}

fn decimal_string(n: u64) -> (r: String)
    ensures
        r@ == decimal(n as nat),
{
    let mut s = String::new();
    push_decimal(&mut s, n);
    s
}

/// The SELECT statement that the `Queryable` derive emits, with the number
/// of parameters it was numbered for.
pub fn select_statement(attrs: &QueryableAttrs) -> (r: GeneratedSql)
    requires
        olen(attrs.where_clause) + olen(attrs.having) + 1 <= usize::MAX,
    ensures
        r.sql@ == select_query(*attrs),
        r.param_count == select_param_count(*attrs),
{
    let mut param_counter = SqlParamCounter::new();
    let adjusted_where_clause = match &attrs.where_clause {
        Some(clause) => {
            proof { crate::utils::lemma_count_dollars_bound(clause@); }
            number_where_clause_params(clause.as_str(), &mut param_counter)
        },
        None => String::new(),
    };
    let select = match &attrs.select {
        Some(s) => s.clone(),
        None => {
            let j = join_strings(&attrs.fields, ", ");
            proof { reveal_strlit(", "); }
            assert(", "@ =~= seq![',', ' ']);
            j
        },
    };
    let adjusted_having_clause = match &attrs.having {
        Some(clause) => {
            proof { crate::utils::lemma_count_dollars_bound(clause@); }
            number_where_clause_params(clause.as_str(), &mut param_counter)
        },
        None => String::new(),
    };

    let mut builder = SafeQueryBuilder::new();
    builder.add_keyword("SELECT");
    builder.add_raw(select.as_str());
    builder.add_keyword("FROM");
    builder.add_identifier(attrs.table.as_str());

    let ghost q3 = builder@;
    let n = attrs.joins.len();
    let mut i: usize = 0;
    while i < n
        invariant
            n == attrs.joins@.len(),
            i <= n,
            builder@ == joins_step(q3, string_views(attrs.joins@.take(i as int))),
        decreases n - i,
    {
        let mut piece = String::new();
        push_char(&mut piece, ' ');
        let t = trim_str(attrs.joins[i].as_str());
        piece.append(t.as_str());
        push_char(&mut piece, ' ');
        builder.add_raw(piece.as_str());
        assert(string_views(attrs.joins@.take(i + 1)).drop_last() =~= string_views(attrs.joins@.take(i as int)));
        assert(string_views(attrs.joins@.take(i + 1)).last() == attrs.joins@[i as int]@);
        i = i + 1;
    }
    assert(attrs.joins@.take(n as int) =~= attrs.joins@);

    if adjusted_where_clause.as_str().unicode_len() > 0 {
        builder.add_keyword("WHERE");
        builder.add_raw(adjusted_where_clause.as_str());
    }
    match &attrs.group_by {
        Some(g) => {
            builder.add_keyword("GROUP BY");
            builder.add_raw(g.as_str());
        },
        None => {},
    }
    match &attrs.having {
        Some(_) => {
            builder.add_keyword("HAVING");
            builder.add_raw(adjusted_having_clause.as_str());
        },
        None => {},
    }
    match &attrs.order_by {
        Some(o) => {
            builder.add_keyword("ORDER BY");
            builder.add_raw(o.as_str());
        },
        None => {},
    }
    match attrs.limit {
        Some(l) => {
            builder.add_keyword("LIMIT");
            let s = decimal_string(l);
            builder.add_raw(s.as_str());
        },
        None => {},
    }
    match attrs.offset {
        Some(o) => {
            builder.add_keyword("OFFSET");
            let s = decimal_string(o);
            builder.add_raw(s.as_str());
        },
        None => {},
    }
    let safe_query = builder.build();
    let count = param_counter.count();
    GeneratedSql { sql: safe_query, param_count: count }
}

/// The HAVING clause continues the numbering of the WHERE clause: the two
/// numbered clauses together are the WHERE and HAVING texts numbered as one
/// clause from 1, and the statement asks for one parameter per placeholder
/// of the two.
pub proof fn law_having_continues_where(a: QueryableAttrs, w: String, h: String)
    requires
        a.where_clause == Some(w),
        a.having == Some(h),
    ensures
        select_where(a) + select_having(a)->0 == number_params(w@ + h@, 1),
        select_param_count(a) == count_dollars(w@ + h@),
{
    law_numbering_continues(w@, h@, 1);
    crate::utils::lemma_count_dollars_append(w@, h@);
}


proof fn lemma_clause_step_extends(q: Seq<char>, keyword: Seq<char>, clause: Option<Seq<char>>)
    ensures
        q.is_prefix_of(clause_step(q, keyword, clause)),
{
    match clause {
        Some(c) => {
            lemma_steps_extend(q, keyword);
            lemma_steps_extend(keyword_step(q, keyword), c);
            lemma_prefix_trans(q, keyword_step(q, keyword), clause_step(q, keyword, clause));
        },
        None => {
            assert(q =~= q.subrange(0, q.len() as int));
        },
    }
}

proof fn lemma_joins_step_extends(q: Seq<char>, joins: Seq<Seq<char>>)
    ensures
        q.is_prefix_of(joins_step(q, joins)),
    decreases joins.len(),
{
    if joins.len() == 0 {
        assert(q =~= q.subrange(0, q.len() as int));
    } else {
        let prev = joins_step(q, joins.drop_last());
        lemma_joins_step_extends(q, joins.drop_last());
        lemma_steps_extend(prev, seq![' '] + trim(joins.last()) + seq![' ']);
        lemma_prefix_trans(q, prev, joins_step(q, joins));
    }
}

/// GROUP BY is emitted whenever a `group_by` attribute is given, with or
/// without a HAVING clause: the SELECT statement then holds ` GROUP BY`
/// and, when the attribute is not blank, ` GROUP BY`, the separator and
/// the attribute's text without its trailing whitespace.
pub proof fn law_group_by_always_emitted(a: QueryableAttrs, g: String)
    requires
        a.group_by == Some(g),
    ensures
        contains_seq(select_query(a), " GROUP BY"@),
        trim_end(g@).len() > 0 ==> contains_seq(select_query(a), " GROUP BY"@ + raw_sep(g@) + trim_end(g@)),
{
    reveal_strlit("SELECT");
    reveal_strlit("GROUP BY");
    reveal_strlit(" GROUP BY");
    let p0 = keyword_step(seq![], "SELECT"@);
    let p1 = raw_step(p0, select_list(a));
    let p2 = keyword_step(p1, "FROM"@);
    let p3 = identifier_step(p2, a.table@);
    let p4 = joins_step(p3, string_views(a.joins@));
    let w = select_where(a);
    let p5 = if w.len() == 0 { p4 } else { raw_step(keyword_step(p4, "WHERE"@), w) };
    let p6 = clause_step(p5, "GROUP BY"@, ostr(a.group_by));
    let p7 = clause_step(p6, "HAVING"@, select_having(a));
    let p8 = clause_step(p7, "ORDER BY"@, ostr(a.order_by));
    let p9 = clause_step(p8, "LIMIT"@, odecimal(a.limit));
    let p10 = clause_step(p9, "OFFSET"@, odecimal(a.offset));
    // the statement starts with SELECT
    lemma_steps_extend(p0, select_list(a));
    lemma_steps_extend(p1, "FROM"@);
    lemma_steps_extend(p2, a.table@);
    lemma_joins_step_extends(p3, string_views(a.joins@));
    lemma_prefix_trans(p0, p1, p2);
    lemma_prefix_trans(p0, p2, p3);
    lemma_prefix_trans(p0, p3, p4);
    if w.len() > 0 {
        lemma_steps_extend(p4, "WHERE"@);
        lemma_steps_extend(keyword_step(p4, "WHERE"@), w);
        lemma_prefix_trans(p4, keyword_step(p4, "WHERE"@), p5);
        lemma_prefix_trans(p0, p4, p5);
    }
    assert(p5[0] == p0[0]);
    assert(p5[0] == 'S');
    // what follows GROUP BY only adds to the end
    lemma_clause_step_extends(p6, "HAVING"@, select_having(a));
    lemma_clause_step_extends(p7, "ORDER BY"@, ostr(a.order_by));
    lemma_clause_step_extends(p8, "LIMIT"@, odecimal(a.limit));
    lemma_clause_step_extends(p9, "OFFSET"@, odecimal(a.offset));
    lemma_prefix_trans(p6, p7, p8);
    lemma_prefix_trans(p6, p8, p9);
    lemma_prefix_trans(p6, p9, p10);
    assert(p6 == raw_step(keyword_step(p5, "GROUP BY"@), g@));
    assert("GROUP BY"@.last() == 'Y');
    lemma_keyword_and_raw_kept(p5, "GROUP BY"@, g@, p10);
    assert(seq![' '] + "GROUP BY"@ =~= " GROUP BY"@);
}

} // verus!
