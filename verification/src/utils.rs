//! Numbering of the `$` placeholders of a clause, and the counter that
//! keeps that numbering in step with the parameters of a statement.

use vstd::prelude::*;
use crate::text::{contains_seq, decimal, digit_char, push_char, push_decimal, string_views};

verus! {

/// The number of `$` placeholders in `s`.
pub open spec fn count_dollars(s: Seq<char>) -> nat
    decreases s.len(),
{
    if s.len() == 0 {
        0
    } else {
        count_dollars(s.drop_last()) + if s.last() == '$' { 1nat } else { 0nat }
    }
}

/// `s` with its `k`-th `$` (counting from zero) replaced by `$` and the
/// decimal number `start + k`; every other character is kept.
pub open spec fn number_params(s: Seq<char>, start: nat) -> Seq<char>
    decreases s.len(),
{
    if s.len() == 0 {
        seq![]
    } else {
        let prev = number_params(s.drop_last(), start);
        if s.last() == '$' {
            prev.push('$') + decimal(start + count_dollars(s.drop_last()))
        } else {
            prev.push(s.last())
        }
    }
}

/// What one call of `SqlParamCounter::next` does to a counter standing at
/// `v`: it hands out `v` and moves on to `v + 1`.
pub open spec fn next_step(v: nat) -> (nat, nat) {
    (v, v + 1)
}

/// The numbers that `k` successive calls of `next` hand out from a counter
/// standing at `v`, in order, and where the counter stands after them.
pub open spec fn successive_next(v: nat, k: nat) -> (Seq<nat>, nat)
    decreases k,
{
    if k == 0 {
        (seq![], v)
    } else {
        let prev = successive_next(v, (k - 1) as nat);
        let step = next_step(prev.1);
        (prev.0.push(step.0), step.1)
    }
}

/// `k` successive calls of `next` on a counter standing at `v` hand out
/// `v, v + 1, ..., v + k - 1`, each number once and in increasing order,
/// and leave the counter at `v + k`; from a new counter (at 1) they hand
/// out `1, ..., k`, and `count` is then `k`.
pub proof fn law_successive_next(v: nat, k: nat)
    ensures
        successive_next(v, k).0 == Seq::new(k, |i: int| (v + i) as nat),
        successive_next(v, k).1 == v + k,
        forall|i: int, j: int| 0 <= i < j < k ==> successive_next(v, k).0[i] < successive_next(v, k).0[j],
        v == 1 ==> successive_next(v, k).1 - 1 == k,
    decreases k,
{
    if k > 0 {
        law_successive_next(v, (k - 1) as nat);
        assert(successive_next(v, k).0 =~= Seq::new(k, |i: int| (v + i) as nat));
    }
}

/// Keeps the number of the next SQL parameter, so that the placeholders
/// of a generated statement and its parameters stay in step. It starts at 1.
pub struct SqlParamCounter {
    current: usize,
}

impl View for SqlParamCounter {
    type V = nat;

    /// The number that the next placeholder receives.
    closed spec fn view(&self) -> nat {
        self.current as nat
    }
}

impl SqlParamCounter {
    #[verifier::type_invariant]
    spec fn inv(self) -> bool {
        self.current >= 1
    }

    /// A counter whose next number is 1.
    pub fn new() -> (r: Self)
        ensures
            r@ == 1,
    {
        Self { current: 1 }
    }

    /// Returns the current number and moves the counter one further.
    pub fn next(&mut self) -> (r: usize)
        requires
            old(self)@ < usize::MAX,
        ensures
            r == old(self)@,
            final(self)@ == old(self)@ + 1,
            (r as nat, final(self)@) == next_step(old(self)@),
    {
        proof { use_type_invariant(&*self); }
        let current = self.current;
        self.current = self.current + 1;
        current
    }

    /// The number that the next placeholder receives (nothing moves).
    pub fn current(&self) -> (r: usize)
        ensures
            r == self@,
    {
        self.current
    }

    /// How many numbers have been handed out: one less than the current one.
    pub fn count(&self) -> (r: usize)
        ensures
            r == self@ - 1,
            self@ >= 1,
    {
        proof { use_type_invariant(self); }
        self.current - 1
    }
}

pub(crate) proof fn lemma_count_dollars_bound(s: Seq<char>)
    ensures
        count_dollars(s) <= s.len(),
    decreases s.len(),
{
    if s.len() > 0 {
        lemma_count_dollars_bound(s.drop_last());
    }
}

/// Numbers the `$` placeholders of `clause` with the numbers that
/// `counter` hands out, in order, and moves the counter past them.
pub fn number_where_clause_params(clause: &str, counter: &mut SqlParamCounter) -> (r: String)
    requires
        old(counter)@ + count_dollars(clause@) <= usize::MAX,
    ensures
        r@ == number_params(clause@, old(counter)@),
        final(counter)@ == old(counter)@ + count_dollars(clause@),
{
    let mut out = String::new();
    let n = clause.unicode_len();
    let mut i: usize = 0;
    let ghost start = counter@;
    while i < n
        invariant
            n == clause@.len(),
            i <= n,
            start + count_dollars(clause@) <= usize::MAX,
            out@ == number_params(clause@.take(i as int), start),
            counter@ == start + count_dollars(clause@.take(i as int)),
        decreases n - i,
    {
        let c = clause.get_char(i);
        proof {
            assert(clause@.take(i + 1).drop_last() =~= clause@.take(i as int));
            lemma_count_dollars_prefix(clause@, i + 1);
        }
        if c == '$' {
            let num = counter.next();
            push_char(&mut out, '$');
            push_decimal(&mut out, num as u64);
        } else {
            push_char(&mut out, c);
        }
        i = i + 1;
    }
    assert(clause@.take(n as int) =~= clause@);
    out
}

pub(crate) proof fn lemma_count_dollars_prefix(s: Seq<char>, k: int)
    requires
        0 <= k <= s.len(),
    ensures
        count_dollars(s.take(k)) <= count_dollars(s),
    decreases s.len() - k,
{
    if k < s.len() {
        lemma_count_dollars_prefix(s, k + 1);
        assert(s.take(k + 1).drop_last() =~= s.take(k));
    } else {
        assert(s.take(k) =~= s);
    }
}


/// The placeholders of two clauses written one after the other are those
/// of the first and those of the second.
pub proof fn lemma_count_dollars_append(a: Seq<char>, b: Seq<char>)
    ensures
        count_dollars(a + b) == count_dollars(a) + count_dollars(b),
    decreases b.len(),
{
    if b.len() == 0 {
        assert(a + b =~= a);
    } else {
        lemma_count_dollars_append(a, b.drop_last());
        assert((a + b).drop_last() =~= a + b.drop_last());
    }
}

/// Numbering two clauses in turn with one counter numbers them as one
/// clause: the second clause continues where the first one stopped (so a
/// HAVING clause numbered after a WHERE clause continues its numbering).
pub proof fn law_numbering_continues(a: Seq<char>, b: Seq<char>, start: nat)
    ensures
        number_params(a + b, start) == number_params(a, start) + number_params(b, start + count_dollars(a)),
    decreases b.len(),
{
    if b.len() == 0 {
        assert(a + b =~= a);
        assert(number_params(a, start) + number_params(b, start + count_dollars(a)) =~= number_params(a, start));
    } else {
        let b0 = b.drop_last();
        law_numbering_continues(a, b0, start);
        lemma_count_dollars_append(a, b0);
        assert((a + b).drop_last() =~= a + b0);
        assert((a + b).last() == b.last());
        if b.last() == '$' {
            assert(number_params(a + b, start) =~= number_params(a, start) + number_params(b, start + count_dollars(a)));
        } else {
            assert(number_params(a + b, start) =~= number_params(a, start) + number_params(b, start + count_dollars(a)));
        }
    }
}

proof fn lemma_decimal_has_no_dollar(n: nat)
    ensures
        count_dollars(decimal(n)) == 0,
    decreases n,
{
    if n >= 10 {
        lemma_decimal_has_no_dollar(n / 10);
        assert(decimal(n).drop_last() == decimal(n / 10));
        assert(decimal(n).last() == digit_char(n % 10));
        assert(digit_char(n % 10) != '$');
        assert(decimal(n).len() > 0);
        assert(count_dollars(decimal(n)) == count_dollars(decimal(n).drop_last()));
    } else {
        assert(decimal(n).drop_last() =~= Seq::<char>::empty());
        assert(decimal(n).last() == digit_char(n));
        assert(digit_char(n) != '$');
        assert(decimal(n).len() == 1);
        assert(count_dollars(decimal(n)) == count_dollars(decimal(n).drop_last()));
    }
}

/// Numbering keeps the placeholders: the numbered clause has exactly as
/// many `$` as the clause, so the statement asks for as many parameters as
/// the counter handed out.
pub proof fn law_numbering_keeps_placeholder_count(s: Seq<char>, start: nat)
    ensures
        count_dollars(number_params(s, start)) == count_dollars(s),
    decreases s.len(),
{
    if s.len() > 0 {
        let prev = number_params(s.drop_last(), start);
        law_numbering_keeps_placeholder_count(s.drop_last(), start);
        if s.last() == '$' {
            let d = decimal(start + count_dollars(s.drop_last()));
            lemma_decimal_has_no_dollar(start + count_dollars(s.drop_last()));
            lemma_count_dollars_append(prev.push('$'), d);
            assert(prev.push('$').drop_last() =~= prev);
        } else {
            assert(prev.push(s.last()).drop_last() =~= prev);
        }
    }
}

/// A clause without placeholders comes out of the numbering unchanged.
pub proof fn law_numbering_without_placeholders(s: Seq<char>, start: nat)
    requires
        count_dollars(s) == 0,
    ensures
        number_params(s, start) == s,
    decreases s.len(),
{
    if s.len() > 0 {
        law_numbering_without_placeholders(s.drop_last(), start);
        assert(s.drop_last().push(s.last()) =~= s);
    }
}


/// `regex::Error`, what `regex::Regex::new` gives for a pattern it refuses.
#[verifier::external_type_specification]
#[verifier::external_body]
pub struct ExRegexError(regex::Error);

/// Whether `regex::Regex::new` accepts `pattern` (it refuses invalid
/// patterns and those too large for the default size limit).
pub uninterp spec fn regex_is_valid(pattern: Seq<char>) -> bool;

/// For each successive non-overlapping match of `pattern` in `haystack`
/// (what `regex::Regex::captures_iter` yields), the text of capture group 1,
/// if that group took part in the match.
pub uninterp spec fn regex_group_one(pattern: Seq<char>, haystack: Seq<char>) -> Seq<Option<Seq<char>>>;

/// The views of a list of optional strings.
pub open spec fn opt_string_views(v: Seq<Option<String>>) -> Seq<Option<Seq<char>>> {
    v.map_values(|o: Option<String>| match o {
        Some(s) => Some(s@),
        None => None,
    })
}

/// Compiles `pattern` with `regex::Regex::new` and, when it compiles,
/// collects capture group 1 of every match of `regex::Regex::captures_iter`
/// on `haystack`. Whether it compiles is named `regex_is_valid`, the groups
/// are named `regex_group_one`. Of the groups only this is stated: each
/// one is a piece of the haystack (`Match::as_str` slices the haystack).
#[verifier::external_body]
fn regex_capture_group_one(pattern: &str, haystack: &str) -> (r: Result<Vec<Option<String>>, regex::Error>)
    ensures
        r is Ok <==> regex_is_valid(pattern@),
        r matches Ok(v) ==> opt_string_views(v@) == regex_group_one(pattern@, haystack@),
        r matches Ok(v) ==> forall|i: int| 0 <= i < v@.len() ==>
            (#[trigger] v@[i] matches Some(t) ==> contains_seq(haystack@, t@)),
{
    let re = regex::Regex::new(pattern)?;
    Ok(re.captures_iter(haystack).map(|caps| caps.get(1).map(|m| m.as_str().to_string())).collect())
}

/// The pattern of a comparison `<field> <op> $` in a WHERE clause, where
/// `<op>` is one of `=`, `<>`, `!=`, `<`, `<=`, `>`, `>=`; group 1 is the
/// field name.
pub open spec fn field_condition_pattern() -> Seq<char> {
    "\\b(\\w+)\\s*(?:<=|>=|<>|!=|=|<|>)\\s*\\$"@
}

/// The texts of the present groups, in order.
pub open spec fn present(v: Seq<Option<Seq<char>>>) -> Seq<Seq<char>>
    decreases v.len(),
{
    if v.len() == 0 {
        seq![]
    } else {
        match v.last() {
            Some(t) => present(v.drop_last()).push(t),
            None => present(v.drop_last()),
        }
    }
}

/// The condition pattern did not compile.
#[derive(Clone, Copy, PartialEq, Eq, Structural, Debug)]
pub enum FieldPatternError {
    /// `regex::Regex::new` refused the pattern.
    InvalidPattern,
}

/// The field names that a WHERE clause compares with a placeholder
/// (`<field> <op> $`), in the order in which they occur.
pub fn extract_fields_from_where_clause(input: &str) -> (r: Result<Vec<String>, FieldPatternError>)
    ensures
        r is Err <==> !regex_is_valid(field_condition_pattern()),
        r matches Ok(v) ==> string_views(v@) == present(regex_group_one(field_condition_pattern(), input@)),
        r matches Ok(v) ==> forall|i: int| 0 <= i < v@.len() ==> contains_seq(input@, #[trigger] v@[i]@),
{
    let pattern = "\\b(\\w+)\\s*(?:<=|>=|<>|!=|=|<|>)\\s*\\$";
    match regex_capture_group_one(pattern, input) {
        Err(_) => Err(FieldPatternError::InvalidPattern),
        Ok(caps) => {
            let mut fields: Vec<String> = Vec::new();
            let n = caps.len();
            let mut i: usize = 0;
            while i < n
                invariant
                    n == caps@.len(),
                    i <= n,
                    string_views(fields@) == present(opt_string_views(caps@.take(i as int))),
                    forall|j: int| 0 <= j < caps@.len() ==>
                        (#[trigger] caps@[j] matches Some(t) ==> contains_seq(input@, t@)),
                    forall|j: int| 0 <= j < fields@.len() ==> contains_seq(input@, #[trigger] fields@[j]@),
                decreases n - i,
            {
                let ghost prev = fields@;
                assert(opt_string_views(caps@.take(i + 1)).drop_last() =~= opt_string_views(caps@.take(i as int)));
                match &caps[i] {
                    Some(field) => {
                        let f = field.clone();
                        assert(caps@[i as int] matches Some(t) && contains_seq(input@, t@));
                        fields.push(f);
                        assert(string_views(fields@) =~= string_views(prev).push(f@));
                    },
                    None => {},
                }
                i = i + 1;
            }
            assert(caps@.take(n as int) =~= caps@);
            Ok(fields)
        },
    }
}

} // verus!
