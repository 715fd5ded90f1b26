//! Placeholder numbering that starts from a given number.

use vstd::prelude::*;
use crate::text::{push_char, push_decimal};
use crate::utils::{count_dollars, number_params};

verus! {

/// Numbers the `$` placeholders of `clause` in order, the first one with
/// `start_count`, and keeps every other character.
pub fn number_where_clause_params(clause: &str, start_count: usize) -> (r: String)
    requires
        start_count + count_dollars(clause@) <= usize::MAX,
    ensures
        r@ == number_params(clause@, start_count as nat),
{
    let mut count = start_count;
    let mut out = String::new();
    let n = clause.unicode_len();
    let mut i: usize = 0;
    while i < n
        invariant
            n == clause@.len(),
            i <= n,
            start_count + count_dollars(clause@) <= usize::MAX,
            out@ == number_params(clause@.take(i as int), start_count as nat),
            count == start_count + count_dollars(clause@.take(i as int)),
        decreases n - i,
    {
        let c = clause.get_char(i);
        proof {
            assert(clause@.take(i + 1).drop_last() =~= clause@.take(i as int));
            crate::utils::lemma_count_dollars_prefix(clause@, i + 1);
        }
        if c == '$' {
            push_char(&mut out, '$');
            push_decimal(&mut out, count as u64);
            count = count + 1;
        } else {
            push_char(&mut out, c);
        }
        i = i + 1;
    }
    assert(clause@.take(n as int) =~= clause@);
    out
}

/// The numbered clause for a clause that may be absent: an absent clause
/// gives the empty string.
pub fn process_where_clause(where_clause: Option<&str>, start_count: usize) -> (r: String)
    requires
        where_clause matches Some(c) ==> start_count + count_dollars(c@) <= usize::MAX,
    ensures
        r@ == match where_clause {
            Some(c) => number_params(c@, start_count as nat),
            None => Seq::<char>::empty(),
        },
{
    match where_clause {
        Some(clause) => number_where_clause_params(clause, start_count),
        None => String::new(),
    }
}

} // verus!
