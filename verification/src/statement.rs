//! What a generated statement is made of, shared by the derives.

use vstd::prelude::*;
use crate::text::{list_contains, string_views};

verus! {

/// A generated SQL statement together with the number of parameters
/// that its placeholders were numbered for.
pub struct GeneratedSql {
    /// The statement text.
    pub sql: String,
    /// How many parameter numbers the placeholder counter handed out.
    pub param_count: usize,
}

/// The view of an optional clause.
pub open spec fn opt_view(o: Option<&str>) -> Option<Seq<char>> {
    match o {
        Some(s) => Some(s@),
        None => None,
    }
}

/// The number of characters of an optional clause (0 when absent).
pub open spec fn opt_len(o: Option<&str>) -> nat {
    match o {
        Some(s) => s@.len(),
        None => 0,
    }
}

/// How many of `cols` are names in `fields`.
pub open spec fn count_matching(cols: Seq<Seq<char>>, fields: Seq<Seq<char>>) -> nat
    decreases cols.len(),
{
    if cols.len() == 0 {
        0
    } else {
        count_matching(cols.drop_last(), fields) + if fields.contains(cols.last()) { 1nat } else { 0nat }
    }
}

/// The names of `cols` that are also names in `fields`, in the order of
/// `cols`.
pub open spec fn matching(cols: Seq<Seq<char>>, fields: Seq<Seq<char>>) -> Seq<Seq<char>>
    decreases cols.len(),
{
    if cols.len() == 0 {
        seq![]
    } else if fields.contains(cols.last()) {
        matching(cols.drop_last(), fields).push(cols.last())
    } else {
        matching(cols.drop_last(), fields)
    }
}

pub proof fn lemma_matching_len(cols: Seq<Seq<char>>, fields: Seq<Seq<char>>)
    ensures
        matching(cols, fields).len() == count_matching(cols, fields),
        count_matching(cols, fields) <= cols.len(),
    decreases cols.len(),
{
    if cols.len() > 0 {
        lemma_matching_len(cols.drop_last(), fields);
    }
}


/// The names of `cols` that are also names in `fields`, in the order of
/// `cols` (each column looked up among the fields).
pub fn matching_names(cols: &Vec<String>, fields: &Vec<String>) -> (r: Vec<String>)
    ensures
        string_views(r@) == matching(string_views(cols@), string_views(fields@)),
{
    let mut out: Vec<String> = Vec::new();
    let n = cols.len();
    let mut i: usize = 0;
    while i < n
        invariant
            n == cols@.len(),
            i <= n,
            string_views(out@) == matching(string_views(cols@.take(i as int)), string_views(fields@)),
        decreases n - i,
    {
        let ghost prev = out@;
        assert(string_views(cols@.take(i + 1)).drop_last() =~= string_views(cols@.take(i as int)));
        assert(string_views(cols@.take(i + 1)).last() == cols@[i as int]@);
        if list_contains(fields, cols[i].as_str()) {
            let c = cols[i].clone();
            out.push(c);
            assert(string_views(out@) =~= string_views(prev).push(c@));
        }
        i = i + 1;
    }
    assert(cols@.take(n as int) =~= cols@);
    out
}

} // verus!
