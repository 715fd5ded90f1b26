//! Character-level text helpers on which the SQL generation rests.

use vstd::prelude::*;

verus! {

/// The character that shows the decimal digit `d` (for `d < 10`).
pub open spec fn digit_char(d: nat) -> char {
    if d == 0 { '0' }
    else if d == 1 { '1' }
    else if d == 2 { '2' }
    else if d == 3 { '3' }
    else if d == 4 { '4' }
    else if d == 5 { '5' }
    else if d == 6 { '6' }
    else if d == 7 { '7' }
    else if d == 8 { '8' }
    else { '9' }
}

/// The decimal rendering of `n`, most significant digit first, without
/// leading zeros (zero itself is rendered as `"0"`).
pub open spec fn decimal(n: nat) -> Seq<char>
    decreases n,
{
    if n < 10 {
        seq![digit_char(n)]
    } else {
        decimal(n / 10).push(digit_char(n % 10))
    }
}

fn digit_to_char(d: u64) -> (c: char)
    requires
        d < 10,
    ensures
        c == digit_char(d as nat),
{
    if d == 0 { '0' }
    else if d == 1 { '1' }
    else if d == 2 { '2' }
    else if d == 3 { '3' }
    else if d == 4 { '4' }
    else if d == 5 { '5' }
    else if d == 6 { '6' }
    else if d == 7 { '7' }
    else if d == 8 { '8' }
    else { '9' }
}

/// Appends one character to a `String` (`String::push`).
#[verifier::external_body]
pub(crate) fn push_char(s: &mut String, c: char)
    ensures
        final(s)@ == old(s)@.push(c),
{
    s.push(c);
}

/// Appends the decimal rendering of `n` to `s`.
pub fn push_decimal(s: &mut String, n: u64)
    ensures
        final(s)@ == old(s)@ + decimal(n as nat),
    decreases n,
{
    if n < 10 {
        push_char(s, digit_to_char(n));
        assert(old(s)@.push(digit_char(n as nat)) =~= old(s)@ + decimal(n as nat));
    } else {
        push_decimal(s, n / 10);
        push_char(s, digit_to_char(n % 10));
        assert(old(s)@ + decimal((n / 10) as nat) + seq![digit_char((n % 10) as nat)]
            =~= old(s)@ + decimal(n as nat));
    }
}


/// What `char::is_alphanumeric` answers for `c`: whether `c` has the Unicode
/// `Alphabetic` or `Numeric` property.
pub uninterp spec fn char_is_alphanumeric(c: char) -> bool;

/// What `char::is_whitespace` answers for `c`: whether `c` has the Unicode
/// `White_Space` property.
pub uninterp spec fn char_is_whitespace(c: char) -> bool;

/// An ASCII letter or digit.
pub open spec fn ascii_alnum(c: char) -> bool {
    ('a' <= c && c <= 'z') || ('A' <= c && c <= 'Z') || ('0' <= c && c <= '9')
}

/// The ASCII characters with the Unicode `White_Space` property: space, and
/// tab to carriage return.
pub open spec fn ascii_white(c: char) -> bool {
    c == ' ' || ('\t' <= c && c <= '\r')
}

/// What the Unicode properties fix of `char_is_alphanumeric` on the ASCII
/// characters of `s`: exactly the letters and digits are alphanumeric.
pub open spec fn ascii_alnum_known(s: Seq<char>) -> bool {
    forall|i: int| 0 <= i < s.len() && #[trigger] s[i] <= '\x7f' ==>
        (char_is_alphanumeric(s[i]) <==> ascii_alnum(s[i]))
}

/// Calls `char::is_alphanumeric`; the answer is given the name
/// `char_is_alphanumeric`, since it rests on Unicode tables of std. Of an
/// ASCII character it states what the `Alphabetic` and `Numeric` properties
/// give: exactly the letters and digits.
#[verifier::external_body]
pub(crate) fn is_alphanumeric(c: char) -> (r: bool)
    ensures
        r == char_is_alphanumeric(c),
        c <= '\x7f' ==> (r <==> ascii_alnum(c)),
{
    c.is_alphanumeric()
}

/// Calls `char::is_whitespace`; the answer is given the name
/// `char_is_whitespace`, since it rests on Unicode tables of std. Of an
/// ASCII character it states what the `White_Space` property gives: space,
/// tab, newline, vertical tab, form feed and carriage return.
#[verifier::external_body]
pub(crate) fn is_whitespace(c: char) -> (r: bool)
    ensures
        r == char_is_whitespace(c),
        c <= '\x7f' ==> (r <==> ascii_white(c)),
{
    c.is_whitespace()
}

/// A character that may stand in an SQL identifier that the builder emits.
pub open spec fn is_ident_char(c: char) -> bool {
    char_is_alphanumeric(c) || c == '_'
}

/// `s` with every character dropped that may not stand in an identifier.
pub open spec fn keep_ident_chars(s: Seq<char>) -> Seq<char>
    decreases s.len(),
{
    if s.len() == 0 {
        seq![]
    } else if is_ident_char(s.last()) {
        keep_ident_chars(s.drop_last()).push(s.last())
    } else {
        keep_ident_chars(s.drop_last())
    }
}

/// Whether `c` is whitespace as `char::is_whitespace` answers: among the
/// ASCII characters the space and tab to carriage return, beyond ASCII
/// the Unicode `White_Space` property (`char_is_whitespace`).
pub open spec fn is_white(c: char) -> bool {
    if c <= '\x7f' { ascii_white(c) } else { char_is_whitespace(c) }
}

/// `s` without its leading whitespace.
pub open spec fn trim_start(s: Seq<char>) -> Seq<char>
    decreases s.len(),
{
    if s.len() > 0 && is_white(s[0]) {
        trim_start(s.drop_first())
    } else {
        s
    }
}

/// `s` without its trailing whitespace.
pub open spec fn trim_end(s: Seq<char>) -> Seq<char>
    decreases s.len(),
{
    if s.len() > 0 && is_white(s.last()) {
        trim_end(s.drop_last())
    } else {
        s
    }
}

/// `s` without leading and trailing whitespace (what `str::trim` gives).
pub open spec fn trim(s: Seq<char>) -> Seq<char> {
    trim_end(trim_start(s))
}

/// The pieces of `s` between the occurrences of `d` (what `str::split`
/// with a character gives): always at least one piece.
pub open spec fn split_on(s: Seq<char>, d: char) -> Seq<Seq<char>>
    decreases s.len(),
{
    if s.len() == 0 {
        seq![seq![]]
    } else {
        let prev = split_on(s.drop_last(), d);
        if s.last() == d {
            prev.push(seq![])
        } else {
            prev.update(prev.len() - 1, prev.last().push(s.last()))
        }
    }
}

/// The pieces of `parts` with `sep` between each two of them.
pub open spec fn join(parts: Seq<Seq<char>>, sep: Seq<char>) -> Seq<char>
    decreases parts.len(),
{
    if parts.len() == 0 {
        seq![]
    } else if parts.len() == 1 {
        parts[0]
    } else {
        join(parts.drop_last(), sep) + sep + parts.last()
    }
}

/// `needle` occurs in `hay` as a contiguous piece.
pub open spec fn contains_seq(hay: Seq<char>, needle: Seq<char>) -> bool {
    exists|i: int| 0 <= i <= hay.len() - needle.len() && #[trigger] hay.subrange(i, i + needle.len()) == needle
}

/// The views of a list of strings.
pub open spec fn string_views(v: Seq<String>) -> Seq<Seq<char>> {
    v.map_values(|x: String| x@)
}

/// The views of a list of string slices.
pub open spec fn str_views(v: Seq<&str>) -> Seq<Seq<char>> {
    v.map_values(|x: &str| x@)
}

proof fn lemma_trim_start_shape(s: Seq<char>)
    ensures
        trim_start(s).len() > 0 ==> !is_white(trim_start(s)[0]),
        trim_start(s).len() <= s.len(),
    decreases s.len(),
{
    if s.len() > 0 && is_white(s[0]) {
        lemma_trim_start_shape(s.drop_first());
    }
}

proof fn lemma_trim_end_shape(s: Seq<char>)
    ensures
        trim_end(s).len() > 0 ==> !is_white(trim_end(s).last()),
        trim_end(s).len() <= s.len(),
        trim_end(s) == s.take(trim_end(s).len() as int),
    decreases s.len(),
{
    if s.len() > 0 && is_white(s.last()) {
        lemma_trim_end_shape(s.drop_last());
        assert(s.drop_last().take(trim_end(s).len() as int) =~= s.take(trim_end(s).len() as int));
    } else {
        assert(s.take(s.len() as int) =~= s);
    }
}

/// A trimmed text neither starts nor ends with whitespace (so a statement
/// that the builder builds is already trimmed).
pub proof fn law_trim_leaves_no_outer_whitespace(s: Seq<char>)
    ensures
        trim(s).len() > 0 ==> !is_white(trim(s)[0]) && !is_white(trim(s).last()),
        trim(trim(s)) == trim(s),
{
    let t = trim_start(s);
    lemma_trim_start_shape(s);
    lemma_trim_end_shape(t);
    let u = trim_end(t);
    if u.len() > 0 {
        assert(u[0] == t[0]);
    }
    // trimming again changes nothing
    assert(trim_start(u) == u);
    assert(trim_end(u) == u);
}

proof fn lemma_take_drop_last<A>(s: Seq<A>, i: int)
    requires
        0 <= i < s.len(),
    ensures
        s.take(i + 1).drop_last() == s.take(i),
        s.take(i + 1).last() == s[i],
{
    assert(s.take(i + 1).drop_last() =~= s.take(i));
}

/// The identifier characters of `s`, in order (the characters for which
/// `char::is_alphanumeric` holds, and `_`).
pub fn keep_identifier_chars(s: &str) -> (r: String)
    ensures
        r@ == keep_ident_chars(s@),
        ascii_alnum_known(s@),
{
    let mut out = String::new();
    let n = s.unicode_len();
    let mut i: usize = 0;
    while i < n
        invariant
            n == s@.len(),
            i <= n,
            out@ == keep_ident_chars(s@.take(i as int)),
            ascii_alnum_known(s@.take(i as int)),
        decreases n - i,
    {
        let c = s.get_char(i);
        proof { lemma_take_drop_last(s@, i as int); }
        let alnum = is_alphanumeric(c);
        assert(ascii_alnum_known(s@.take(i + 1))) by {
            assert forall|k: int| 0 <= k < s@.take(i + 1).len() && #[trigger] s@.take(i + 1)[k] <= '\x7f' implies
                (char_is_alphanumeric(s@.take(i + 1)[k]) <==> ascii_alnum(s@.take(i + 1)[k])) by {
                if k < i {
                    assert(s@.take(i + 1)[k] == s@.take(i as int)[k]);
                }
            }
        }
        if alnum || c == '_' {
            push_char(&mut out, c);
        }
        i = i + 1;
    }
    assert(s@.take(n as int) =~= s@);
    out
}

proof fn lemma_trim_start_skip(s: Seq<char>, i: int)
    requires
        0 <= i < s.len(),
        is_white(s[i]),
    ensures
        trim_start(s.skip(i)) == trim_start(s.skip(i + 1)),
{
    assert(s.skip(i).drop_first() =~= s.skip(i + 1));
}

proof fn lemma_trim_end_take(s: Seq<char>, j: int)
    requires
        0 < j <= s.len(),
        is_white(s[j - 1]),
    ensures
        trim_end(s.take(j)) == trim_end(s.take(j - 1)),
{
    assert(s.take(j).drop_last() =~= s.take(j - 1));
}

/// `s` without leading and trailing whitespace (`str::trim`, built on
/// `char::is_whitespace`).
pub fn trim_str(s: &str) -> (r: String)
    ensures
        r@ == trim(s@),
{
    let n = s.unicode_len();
    let mut i: usize = 0;
    assert(s@.skip(0) =~= s@);
    while i < n && is_whitespace(s.get_char(i))
        invariant
            n == s@.len(),
            i <= n,
            trim_start(s@) == trim_start(s@.skip(i as int)),
        decreases n - i,
    {
        proof { lemma_trim_start_skip(s@, i as int); }
        i = i + 1;
    }
    let ghost t = s@.skip(i as int);
    assert(trim_start(s@) == t) by {
        if i < n {
            assert(!is_white(t[0]));
        } else {
            assert(t.len() == 0);
        }
    }
    let mut j: usize = n;
    assert(t.take(t.len() as int) =~= t);
    while j > i && is_whitespace(s.get_char(j - 1))
        invariant
            n == s@.len(),
            i <= j <= n,
            t == s@.skip(i as int),
            trim_end(t) == trim_end(t.take(j - i)),
        decreases j,
    {
        proof { lemma_trim_end_take(t, (j - i) as int); }
        j = j - 1;
    }
    let ghost u = t.take(j - i);
    assert(trim_end(t) == u) by {
        if j > i {
            assert(!is_white(u.last()));
        } else {
            assert(u.len() == 0);
        }
    }
    let piece = s.substring_char(i, j);
    assert(piece@ =~= u);
    piece.to_owned()
}


/// The pieces of `s` between the occurrences of `d` (`str::split` with a
/// character pattern).
pub fn split_char(s: &str, d: char) -> (r: Vec<String>)
    ensures
        string_views(r@) == split_on(s@, d),
{
    let mut parts: Vec<String> = Vec::new();
    let mut cur = String::new();
    let n = s.unicode_len();
    let mut i: usize = 0;
    assert(string_views(parts@).push(cur@) =~= split_on(s@.take(0), d));
    while i < n
        invariant
            n == s@.len(),
            i <= n,
            string_views(parts@).push(cur@) == split_on(s@.take(i as int), d),
        decreases n - i,
    {
        let c = s.get_char(i);
        proof { lemma_take_drop_last(s@, i as int); }
        let ghost prev = string_views(parts@).push(cur@);
        if c == d {
            parts.push(cur);
            cur = String::new();
            assert(string_views(parts@).push(cur@) =~= prev.push(seq![]));
        } else {
            push_char(&mut cur, c);
            assert(string_views(parts@).push(cur@) =~= prev.update(prev.len() - 1, prev.last().push(c)));
        }
        i = i + 1;
    }
    assert(s@.take(n as int) =~= s@);
    let ghost before = string_views(parts@).push(cur@);
    parts.push(cur);
    assert(string_views(parts@) =~= before);
    parts
}

/// The strings of `parts` with `sep` between each two of them
/// (`[String]::join`).
pub fn join_strings(parts: &Vec<String>, sep: &str) -> (r: String)
    ensures
        r@ == join(string_views(parts@), sep@),
{
    let mut out = String::new();
    let n = parts.len();
    let mut i: usize = 0;
    while i < n
        invariant
            n == parts@.len(),
            i <= n,
            out@ == join(string_views(parts@.take(i as int)), sep@),
        decreases n - i,
    {
        proof { lemma_take_drop_last(parts@, i as int); }
        assert(string_views(parts@.take(i + 1)).drop_last() =~= string_views(parts@.take(i as int)));
        if i > 0 {
            out.append(sep);
        }
        out.append(parts[i].as_str());
        assert(i == 0 ==> string_views(parts@.take(i + 1)) =~= seq![parts@[i as int]@]);
        i = i + 1;
    }
    assert(parts@.take(n as int) =~= parts@);
    out
}

/// Whether `a` and `b` hold the same characters.
pub fn str_eq(a: &str, b: &str) -> (r: bool)
    ensures
        r == (a@ == b@),
{
    let n = a.unicode_len();
    let m = b.unicode_len();
    if n != m {
        return false;
    }
    let mut i: usize = 0;
    while i < n
        invariant
            n == a@.len(),
            m == b@.len(),
            n == m,
            i <= n,
            forall|j: int| 0 <= j < i ==> a@[j] == b@[j],
        decreases n - i,
    {
        if a.get_char(i) != b.get_char(i) {
            return false;
        }
        i = i + 1;
    }
    assert(a@ =~= b@);
    true
}

/// Whether some string of `list` holds the same characters as `s`.
pub fn list_contains(list: &Vec<String>, s: &str) -> (r: bool)
    ensures
        r == string_views(list@).contains(s@),
{
    let n = list.len();
    let mut i: usize = 0;
    while i < n
        invariant
            n == list@.len(),
            i <= n,
            forall|j: int| 0 <= j < i ==> list@[j]@ != s@,
        decreases n - i,
    {
        if str_eq(list[i].as_str(), s) {
            assert(string_views(list@)[i as int] == s@);
            return true;
        }
        i = i + 1;
    }
    assert forall|j: int| 0 <= j < string_views(list@).len() implies string_views(list@)[j] != s@ by {
        assert(string_views(list@)[j] == list@[j]@);
    }
    false
}

/// Each string of `parts` without leading and trailing whitespace.
pub fn trim_all(parts: &Vec<String>) -> (r: Vec<String>)
    ensures
        string_views(r@) == string_views(parts@).map_values(|p: Seq<char>| trim(p)),
{
    let mut out: Vec<String> = Vec::new();
    let n = parts.len();
    let mut i: usize = 0;
    while i < n
        invariant
            n == parts@.len(),
            i <= n,
            out@.len() == i,
            forall|j: int| 0 <= j < i ==> #[trigger] out@[j]@ == trim(parts@[j]@),
        decreases n - i,
    {
        let t = trim_str(parts[i].as_str());
        out.push(t);
        i = i + 1;
    }
    assert(string_views(out@) =~= string_views(parts@).map_values(|p: Seq<char>| trim(p)));
    out
}

/// A text has at most one piece more than it has characters.
pub proof fn lemma_split_on_len(s: Seq<char>, d: char)
    ensures
        1 <= split_on(s, d).len() <= s.len() + 1,
    decreases s.len(),
{
    if s.len() > 0 {
        lemma_split_on_len(s.drop_last(), d);
    }
}


/// Trimming the end of `t` keeps each prefix of `t` that ends with a
/// character other than whitespace.
pub proof fn lemma_trim_end_keeps_prefix(t: Seq<char>, p: Seq<char>)
    requires
        p.len() > 0,
        !is_white(p.last()),
        p.len() <= t.len(),
        t.take(p.len() as int) == p,
    ensures
        p.len() <= trim_end(t).len(),
        trim_end(t).take(p.len() as int) == p,
    decreases t.len(),
{
    if is_white(t.last()) {
        assert(t.len() > p.len()) by {
            if t.len() == p.len() {
                assert(t.last() == p.last());
            }
        }
        assert(t.drop_last().take(p.len() as int) =~= p);
        lemma_trim_end_keeps_prefix(t.drop_last(), p);
    }
}

/// Trimming the end of `a + b` only trims `b`, when something of `b` is
/// left.
pub proof fn lemma_trim_end_append(a: Seq<char>, b: Seq<char>)
    requires
        trim_end(b).len() > 0,
    ensures
        trim_end(a + b) == a + trim_end(b),
    decreases b.len(),
{
    if is_white(b.last()) {
        assert((a + b).drop_last() =~= a + b.drop_last());
        lemma_trim_end_append(a, b.drop_last());
    } else {
        assert((a + b).last() == b.last());
    }
}

/// Trimming the end of `a + b` where nothing of `b` is left trims `b`
/// away and then the end of `a`.
pub proof fn lemma_trim_end_append_blank(a: Seq<char>, b: Seq<char>)
    requires
        trim_end(b).len() == 0,
    ensures
        trim_end(a + b) == trim_end(a),
    decreases b.len(),
{
    if b.len() == 0 {
        assert(a + b =~= a);
    } else {
        assert(is_white(b.last()));
        assert((a + b).drop_last() =~= a + b.drop_last());
        lemma_trim_end_append_blank(a, b.drop_last());
    }
}

/// The end of `s` trimmed is a prefix of `s` (so of the trimmed text
/// nothing but trailing whitespace is missing).
pub proof fn lemma_trim_end_prefix(s: Seq<char>)
    ensures
        trim_end(s).len() <= s.len(),
        trim_end(s) == s.take(trim_end(s).len() as int),
        trim_end(s).len() > 0 ==> !is_white(trim_end(s).last()),
{
    lemma_trim_end_shape(s);
}

} // verus!
