//! A builder that assembles an SQL statement from keywords, sanitised
//! identifiers and raw pieces, with one space between the parts.

use vstd::prelude::*;
use crate::text::{
    ascii_alnum_known, contains_seq, is_white, join, keep_ident_chars, keep_identifier_chars,
    join_strings, str_views, string_views, trim, trim_end, trim_start, trim_str,
    lemma_trim_end_append, lemma_trim_end_append_blank, lemma_trim_end_keeps_prefix,
    lemma_trim_end_prefix,
};

verus! {

/// `q` followed by the separating space, unless `q` is empty.
pub open spec fn spaced(q: Seq<char>) -> Seq<char> {
    if q.len() == 0 { q } else { q.push(' ') }
}

/// The query after a keyword is added.
pub open spec fn keyword_step(q: Seq<char>, keyword: Seq<char>) -> Seq<char> {
    spaced(q) + keyword
}

/// The query after an identifier is added: only its identifier
/// characters are kept.
pub open spec fn identifier_step(q: Seq<char>, ident: Seq<char>) -> Seq<char> {
    spaced(q) + keep_ident_chars(ident)
}

/// The sanitised identifiers of a list.
pub open spec fn sanitized_all(items: Seq<Seq<char>>) -> Seq<Seq<char>> {
    items.map_values(|i: Seq<char>| keep_ident_chars(i))
}

/// The query after a list of identifiers is added: the sanitised
/// identifiers joined by `", "`, with no separating space before them.
pub open spec fn comma_list_step(q: Seq<char>, items: Seq<Seq<char>>) -> Seq<char> {
    q + join(sanitized_all(items), seq![',', ' '])
}

/// Whether a raw piece starts with a comma.
pub open spec fn starts_with_comma(t: Seq<char>) -> bool {
    t.len() > 0 && t[0] == ','
}

/// The query after a raw piece is added: a space separates it from a
/// non-empty query unless the piece starts with a comma.
pub open spec fn raw_step(q: Seq<char>, text: Seq<char>) -> Seq<char> {
    if q.len() > 0 && !starts_with_comma(text) { q.push(' ') + text } else { q + text }
}

/// Builds an SQL statement piece by piece.
pub struct SafeQueryBuilder {
    /// The statement built so far.
    pub query: String,
}

impl View for SafeQueryBuilder {
    type V = Seq<char>;

    open spec fn view(&self) -> Seq<char> {
        self.query@
    }
}

impl Default for SafeQueryBuilder {
    fn default() -> (r: Self)
        ensures
            r@ == Seq::<char>::empty(),
    {
        SafeQueryBuilder { query: String::new() }
    }
}

impl SafeQueryBuilder {
    /// A builder with an empty statement.
    pub fn new() -> (r: Self)
        ensures
            r@ == Seq::<char>::empty(),
    {
        Self::default()
    }

    /// The statement without leading and trailing whitespace.
    pub fn build(self) -> (r: String)
        ensures
            r@ == trim(self@),
    {
        trim_str(self.query.as_str())
    }

    /// Adds an SQL keyword, separated by a space from what came before.
    pub fn add_keyword(&mut self, keyword: &str)
        ensures
            final(self)@ == keyword_step(old(self)@, keyword@),
    {
        if self.query.as_str().unicode_len() > 0 {
            self.query.append(" ");
            proof { reveal_strlit(" "); }
        }
        self.query.append(keyword);
    }

    /// Adds an identifier (a table or column name), keeping only its
    /// alphanumeric characters and underscores.
    pub fn add_identifier(&mut self, ident: &str)
        ensures
            final(self)@ == identifier_step(old(self)@, ident@),
            ascii_alnum_known(ident@),
    {
        if self.query.as_str().unicode_len() > 0 {
            self.query.append(" ");
            proof { reveal_strlit(" "); }
        }
        let safe_ident = keep_identifier_chars(ident);
        self.query.append(safe_ident.as_str());
    }

    /// Adds the sanitised identifiers of `items`, joined by `", "`.
    pub fn add_comma_list(&mut self, items: &[&str])
        ensures
            final(self)@ == comma_list_step(old(self)@, str_views(items@)),
    {
        let mut safe_items: Vec<String> = Vec::new();
        let n = items.len();
        let mut i: usize = 0;
        while i < n
            invariant
                n == items@.len(),
                i <= n,
                string_views(safe_items@) == sanitized_all(str_views(items@.take(i as int))),
            decreases n - i,
        {
            let safe = keep_identifier_chars(items[i]);
            let ghost prev = safe_items@;
            safe_items.push(safe);
            assert(safe_items@ =~= prev.push(safe));
            assert(string_views(safe_items@) =~= string_views(prev).push(safe@));
            assert(items@.take(i + 1) =~= items@.take(i as int).push(items@[i as int]));
            assert(str_views(items@.take(i + 1)) =~= str_views(items@.take(i as int)).push(items@[i as int]@));
            assert(string_views(safe_items@) =~= sanitized_all(str_views(items@.take(i + 1))));
            i = i + 1;
        }
        assert(items@.take(n as int) =~= items@);
        let joined = join_strings(&safe_items, ", ");
        proof { reveal_strlit(", "); }
        assert(", "@ =~= seq![',', ' ']);
        self.query.append(joined.as_str());
    }

    /// Adds a raw piece of SQL, separated by a space unless it starts with
    /// a comma. Only for trusted or already checked text.
    pub fn add_raw(&mut self, text: &str)
        ensures
            final(self)@ == raw_step(old(self)@, text@),
    {
        let starts_comma = text.unicode_len() > 0 && text.get_char(0) == ',';
        if self.query.as_str().unicode_len() > 0 && !starts_comma {
            self.query.append(" ");
            proof { reveal_strlit(" "); }
        }
        self.query.append(text);
    }
}


/// What separates a raw piece from the query before it: nothing when it
/// starts with a comma, else one space.
pub open spec fn raw_sep(text: Seq<char>) -> Seq<char> {
    if starts_with_comma(text) { seq![] } else { seq![' '] }
}

/// Every step of the builder only adds to the end of the query.
pub proof fn lemma_steps_extend(q: Seq<char>, x: Seq<char>)
    ensures
        q.is_prefix_of(keyword_step(q, x)),
        q.is_prefix_of(identifier_step(q, x)),
        q.is_prefix_of(raw_step(q, x)),
{
}

/// A prefix of a prefix is a prefix.
pub proof fn lemma_prefix_trans(a: Seq<char>, b: Seq<char>, c: Seq<char>)
    requires
        a.is_prefix_of(b),
        b.is_prefix_of(c),
    ensures
        a.is_prefix_of(c),
{
    assert forall|i: int| 0 <= i < a.len() implies a[i] == c[i] by {
        assert(a[i] == b.subrange(0, a.len() as int)[i]);
        assert(b[i] == c.subrange(0, b.len() as int)[i]);
    }
    assert(a =~= c.subrange(0, a.len() as int));
}

/// A keyword followed by a raw piece, once added to a non-empty query
/// that starts with a non-blank character, stays in the built statement
/// whatever is added after them: the statement holds the space, the
/// keyword, and (when it is not blank) the piece after its separator,
/// without its trailing whitespace.
pub proof fn lemma_keyword_and_raw_kept(q: Seq<char>, kw: Seq<char>, text: Seq<char>, whole: Seq<char>)
    requires
        q.len() > 0,
        !is_white(q[0]),
        kw.len() > 0,
        !is_white(kw.last()),
        raw_step(keyword_step(q, kw), text).is_prefix_of(whole),
    ensures
        contains_seq(trim(whole), seq![' '] + kw),
        trim_end(text).len() > 0 ==> contains_seq(trim(whole), seq![' '] + kw + raw_sep(text) + trim_end(text)),
{
    let r = raw_step(keyword_step(q, kw), text);
    let te = trim_end(text);
    lemma_trim_end_prefix(text);
    assert(r =~= q + seq![' '] + kw + raw_sep(text) + text);
    let needle = if te.len() > 0 { seq![' '] + kw + raw_sep(text) + te } else { seq![' '] + kw };
    let p = q + needle;
    assert(p.is_prefix_of(r)) by {
        assert(p =~= r.subrange(0, p.len() as int));
    }
    lemma_prefix_trans(p, r, whole);
    assert(p.last() == needle.last());
    assert(whole[0] == p[0]);
    assert(trim_start(whole) == whole);
    assert(whole.take(p.len() as int) =~= p);
    lemma_trim_end_keeps_prefix(whole, p);
    let t = trim(whole);
    assert(t == trim_end(whole));
    let m = q.len() as int;
    assert forall|j: int| 0 <= j < needle.len() implies
        #[trigger] t.subrange(m, m + needle.len())[j] == needle[j] by {
        assert(t.take(p.len() as int)[m + j] == p[m + j]);
    }
    assert(t.subrange(m, m + needle.len()) =~= needle);
    let head = seq![' '] + kw;
    assert(t.subrange(m, m + head.len()) =~= head) by {
        assert forall|j: int| 0 <= j < head.len() implies
            #[trigger] t.subrange(m, m + head.len())[j] == head[j] by {
            assert(t.subrange(m, m + needle.len())[j] == needle[j]);
        }
    }
}

/// A statement built as a query, a keyword and a raw piece, with nothing
/// after them, ends with the space, the keyword and (when it is not
/// blank) the piece after its separator, without its trailing whitespace.
pub proof fn lemma_keyword_and_raw_last(q: Seq<char>, kw: Seq<char>, text: Seq<char>)
    requires
        q.len() > 0,
        !is_white(q[0]),
        kw.len() > 0,
        !is_white(kw.last()),
    ensures
        trim(raw_step(keyword_step(q, kw), text)) == q + seq![' '] + kw
            + if trim_end(text).len() > 0 { raw_sep(text) + trim_end(text) } else { seq![] },
{
    let r = raw_step(keyword_step(q, kw), text);
    let a = q + seq![' '] + kw;
    assert(r =~= a + (raw_sep(text) + text));
    assert(r[0] == q[0]);
    assert(trim_start(r) == r);
    if trim_end(text).len() > 0 {
        assert(r =~= (a + raw_sep(text)) + text);
        lemma_trim_end_append(a + raw_sep(text), text);
        assert(a + raw_sep(text) + trim_end(text) =~= a + (raw_sep(text) + trim_end(text)));
    } else {
        lemma_trim_end_append_blank(raw_sep(text), text);
        assert(trim_end(raw_sep(text)) == Seq::<char>::empty()) by {
            if raw_sep(text).len() > 0 {
                assert(is_white(raw_sep(text).last()));
                assert(raw_sep(text).drop_last() =~= Seq::<char>::empty());
                assert(trim_end(raw_sep(text)) == trim_end(raw_sep(text).drop_last()));
            }
        }
        lemma_trim_end_append_blank(a, raw_sep(text) + text);
        assert(a.last() == kw.last());
        assert(a + Seq::<char>::empty() =~= a);
    }
}

} // verus!
