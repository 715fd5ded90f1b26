//! Sanitising of identifiers and of values that stand inside SQL quotes.

use vstd::prelude::*;
use crate::text::{ascii_alnum, ascii_alnum_known, char_is_alphanumeric, is_ident_char, is_alphanumeric, keep_ident_chars, push_char};

verus! {

/// `s` with every single quote doubled.
pub open spec fn double_quotes(s: Seq<char>) -> Seq<char>
    decreases s.len(),
{
    if s.len() == 0 {
        seq![]
    } else if s.last() == '\'' {
        double_quotes(s.drop_last()) + seq!['\'', '\'']
    } else {
        double_quotes(s.drop_last()).push(s.last())
    }
}

/// The text that the body `s` of an SQL string literal denotes: each
/// doubled quote stands for one quote.
pub open spec fn unquote(s: Seq<char>) -> Seq<char>
    decreases s.len(),
{
    if s.len() >= 2 && s[0] == '\'' && s[1] == '\'' {
        seq!['\''] + unquote(s.skip(2))
    } else if s.len() >= 1 {
        seq![s[0]] + unquote(s.drop_first())
    } else {
        seq![]
    }
}

/// `input` with every character removed that is neither alphanumeric
/// (`char::is_alphanumeric`) nor `_`.
pub fn sanitize_identifier(input: &str) -> (r: String)
    ensures
        r@ == keep_ident_chars(input@),
        ascii_alnum_known(input@),
{
    let mut out = String::new();
    let n = input.unicode_len();
    let mut i: usize = 0;
    while i < n
        invariant
            n == input@.len(),
            i <= n,
            out@ == keep_ident_chars(input@.take(i as int)),
            ascii_alnum_known(input@.take(i as int)),
        decreases n - i,
    {
        let c = input.get_char(i);
        assert(input@.take(i + 1).drop_last() =~= input@.take(i as int));
        let alnum = is_alphanumeric(c);
        assert(ascii_alnum_known(input@.take(i + 1))) by {
            assert forall|k: int| 0 <= k < input@.take(i + 1).len() && #[trigger] input@.take(i + 1)[k] <= '\x7f' implies
                (char_is_alphanumeric(input@.take(i + 1)[k]) <==> ascii_alnum(input@.take(i + 1)[k])) by {
                if k < i {
                    assert(input@.take(i + 1)[k] == input@.take(i as int)[k]);
                }
            }
        }
        if !(!alnum && c != '_') {
            push_char(&mut out, c);
        }
        i = i + 1;
    }
    assert(input@.take(n as int) =~= input@);
    out
}

/// `input` with every single quote doubled, fit to stand between the
/// quotes of an SQL string literal.
pub fn sanitize_value(input: &str) -> (r: String)
    ensures
        r@ == double_quotes(input@),
{
    let mut out = String::new();
    let n = input.unicode_len();
    let mut i: usize = 0;
    while i < n
        invariant
            n == input@.len(),
            i <= n,
            out@ == double_quotes(input@.take(i as int)),
        decreases n - i,
    {
        let c = input.get_char(i);
        assert(input@.take(i + 1).drop_last() =~= input@.take(i as int));
        if c == '\'' {
            push_char(&mut out, '\'');
            push_char(&mut out, '\'');
            assert(out@ =~= double_quotes(input@.take(i + 1)));
        } else {
            push_char(&mut out, c);
        }
        i = i + 1;
    }
    assert(input@.take(n as int) =~= input@);
    out
}

/// Quote doubling of two texts one after the other is the doubling of each.
pub proof fn lemma_double_quotes_append(a: Seq<char>, b: Seq<char>)
    ensures
        double_quotes(a + b) == double_quotes(a) + double_quotes(b),
    decreases b.len(),
{
    if b.len() == 0 {
        assert(a + b =~= a);
        assert(double_quotes(a) + double_quotes(b) =~= double_quotes(a));
    } else {
        lemma_double_quotes_append(a, b.drop_last());
        assert((a + b).drop_last() =~= a + b.drop_last());
        if b.last() == '\'' {
            assert(double_quotes(a + b) =~= double_quotes(a) + double_quotes(b));
        } else {
            assert(double_quotes(a + b) =~= double_quotes(a) + double_quotes(b));
        }
    }
}

/// A sanitised value, read back as the body of an SQL string literal,
/// denotes exactly the original text: the value cannot end the literal.
pub proof fn law_sanitized_value_round_trip(s: Seq<char>)
    ensures
        unquote(double_quotes(s)) == s,
    decreases s.len(),
{
    if s.len() > 0 {
        let c = s[0];
        let rest = s.drop_first();
        law_sanitized_value_round_trip(rest);
        assert(seq![c] + rest =~= s);
        lemma_double_quotes_append(seq![c], rest);
        assert(seq![c].drop_last() =~= Seq::<char>::empty());
        assert(seq![c].last() == c);
        reveal_with_fuel(double_quotes, 2);
        let d = double_quotes(s);
        if c == '\'' {
            assert(double_quotes(seq![c]) =~= seq!['\'', '\'']);
            assert(d.skip(2) =~= double_quotes(rest));
            assert(unquote(d) =~= s);
        } else {
            assert(double_quotes(seq![c]) =~= seq![c]);
            assert(d.drop_first() =~= double_quotes(rest));
            assert(unquote(d) =~= s);
        }
    }
}

/// A sanitised identifier holds identifier characters only.
pub proof fn law_sanitized_identifier_chars(s: Seq<char>)
    ensures
        forall|i: int| 0 <= i < keep_ident_chars(s).len() ==> is_ident_char(#[trigger] keep_ident_chars(s)[i]),
    decreases s.len(),
{
    if s.len() > 0 {
        law_sanitized_identifier_chars(s.drop_last());
        let k = keep_ident_chars(s.drop_last());
        assert forall|i: int| 0 <= i < keep_ident_chars(s).len() implies is_ident_char(#[trigger] keep_ident_chars(s)[i]) by {
            if i < k.len() {
                assert(keep_ident_chars(s)[i] == k[i]);
            }
        }
    }
}

/// The ASCII characters of a sanitised identifier are letters, digits and
/// underscores only: no quote, semicolon, dash, space or other ASCII
/// punctuation survives (given what the Unicode properties fix of the
/// input's ASCII characters, which `sanitize_identifier` ensures).
pub proof fn law_sanitized_identifier_ascii(s: Seq<char>)
    requires
        ascii_alnum_known(s),
    ensures
        forall|i: int| 0 <= i < keep_ident_chars(s).len() && #[trigger] keep_ident_chars(s)[i] <= '\x7f' ==>
            ascii_alnum(keep_ident_chars(s)[i]) || keep_ident_chars(s)[i] == '_',
    decreases s.len(),
{
    if s.len() > 0 {
        let s0 = s.drop_last();
        assert(ascii_alnum_known(s0)) by {
            assert forall|k: int| 0 <= k < s0.len() && #[trigger] s0[k] <= '\x7f' implies
                (char_is_alphanumeric(s0[k]) <==> ascii_alnum(s0[k])) by {
                assert(s0[k] == s[k]);
            }
        }
        law_sanitized_identifier_ascii(s0);
        let k = keep_ident_chars(s0);
        assert forall|i: int| 0 <= i < keep_ident_chars(s).len() && #[trigger] keep_ident_chars(s)[i] <= '\x7f' implies
            ascii_alnum(keep_ident_chars(s)[i]) || keep_ident_chars(s)[i] == '_' by {
            if i < k.len() {
                assert(keep_ident_chars(s)[i] == k[i]);
            } else {
                assert(keep_ident_chars(s)[i] == s[s.len() - 1]);
            }
        }
    }
}

/// Sanitising an identifier a second time changes nothing.
pub proof fn law_sanitize_identifier_idempotent(s: Seq<char>)
    ensures
        keep_ident_chars(keep_ident_chars(s)) == keep_ident_chars(s),
    decreases s.len(),
{
    if s.len() > 0 {
        law_sanitize_identifier_idempotent(s.drop_last());
        let k = keep_ident_chars(s.drop_last());
        if is_ident_char(s.last()) {
            assert(k.push(s.last()).drop_last() =~= k);
        }
    }
}

} // verus!
