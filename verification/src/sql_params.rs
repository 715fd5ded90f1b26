//! Which fields the `SqlParams` derive passes as statement parameters: for
//! each `$` placeholder of the WHERE and HAVING clauses, in the order of the
//! placeholders, the field that the placeholder is compared with.

use vstd::prelude::*;
use crate::text::{ascii_alnum, list_contains, string_views};

verus! {

/// The classes of characters that the scan for a placeholder's field
/// steps over.
#[derive(Clone, Copy, PartialEq, Eq, Structural, Debug)]
pub enum CharClass {
    /// Space, tab, newline and carriage return.
    Blank,
    /// The characters of a comparison operator: `=`, `<`, `>`, `!`.
    Comparison,
    /// The characters of a name: ASCII letters, digits and `_`, and every
    /// character beyond ASCII.
    Name,
}

/// Whether `c` is in the class `k`.
pub open spec fn in_class(k: CharClass, c: char) -> bool {
    match k {
        CharClass::Blank => c == ' ' || c == '\t' || c == '\n' || c == '\r',
        CharClass::Comparison => c == '=' || c == '<' || c == '>' || c == '!',
        CharClass::Name => ('a' <= c && c <= 'z') || ('A' <= c && c <= 'Z') || ('0' <= c && c <= '9')
            || c == '_' || c > '\x7f',
    }
}

/// Where the run of characters of class `k` that ends at position `j` of
/// `s` starts (`j` itself when the character before `j` is not of the
/// class).
pub open spec fn run_start(s: Seq<char>, j: int, k: CharClass) -> int
    decreases j,
{
    if j <= 0 {
        0
    } else if in_class(k, s[j - 1]) {
        run_start(s, j - 1, k)
    } else {
        j
    }
}

/// The name that the placeholder at position `i` of `s` is compared with:
/// before it, after any blanks, a comparison operator, then after any
/// blanks a name. `None` when the text before the placeholder has not
/// that shape (as in `IN ($, $)` or `COUNT(*) > $`).
pub open spec fn field_at(s: Seq<char>, i: int) -> Option<Seq<char>> {
    let a = run_start(s, i, CharClass::Blank);
    let b = run_start(s, a, CharClass::Comparison);
    let c = run_start(s, b, CharClass::Blank);
    let d = run_start(s, c, CharClass::Name);
    if b < a && d < c {
        Some(s.subrange(d, c))
    } else {
        None
    }
}

/// For each placeholder among the first `n` characters of `s`, in order,
/// the name it is compared with, when that name is one of `fields`.
pub open spec fn placeholder_fields(s: Seq<char>, n: int, fields: Seq<Seq<char>>) -> Seq<Seq<char>>
    decreases n,
{
    if n <= 0 {
        seq![]
    } else {
        let prev = placeholder_fields(s, n - 1, fields);
        if s[n - 1] == '$' {
            match field_at(s, n - 1) {
                Some(f) => if fields.contains(f) { prev.push(f) } else { prev },
                None => prev,
            }
        } else {
            prev
        }
    }
}

/// The fields of the placeholders of a clause, in placeholder order.
pub open spec fn clause_fields(fields: Seq<Seq<char>>, clause: Seq<char>) -> Seq<Seq<char>> {
    placeholder_fields(clause, clause.len() as int, fields)
}

/// The fields of the placeholders of an optional clause (none when it is
/// absent).
pub open spec fn clause_fields_opt(fields: Seq<Seq<char>>, clause: Option<Seq<char>>) -> Seq<Seq<char>> {
    match clause {
        Some(c) => clause_fields(fields, c),
        None => seq![],
    }
}

/// The parameter fields: the fields of the WHERE placeholders, then those
/// of the HAVING placeholders, each in placeholder order (the HAVING clause
/// is numbered after the WHERE clause); all fields when that gives none.
pub open spec fn param_fields(
    fields: Seq<Seq<char>>,
    where_clause: Option<Seq<char>>,
    having: Option<Seq<char>>,
) -> Seq<Seq<char>> {
    let p = clause_fields_opt(fields, where_clause) + clause_fields_opt(fields, having);
    if p.len() == 0 { fields } else { p }
}

fn char_in_class(k: CharClass, c: char) -> (r: bool)
    ensures
        r == in_class(k, c),
{
    match k {
        CharClass::Blank => c == ' ' || c == '\t' || c == '\n' || c == '\r',
        CharClass::Comparison => c == '=' || c == '<' || c == '>' || c == '!',
        CharClass::Name => ('a' <= c && c <= 'z') || ('A' <= c && c <= 'Z') || ('0' <= c && c <= '9')
            || c == '_' || c > '\x7f',
    }
}

/// Where the run of class `k` that ends at position `j` of `s` starts.
fn run_start_of(s: &str, j: usize, k: CharClass) -> (r: usize)
    requires
        j <= s@.len(),
    ensures
        r == run_start(s@, j as int, k),
        r <= j,
{
    let _n = s.unicode_len();
    let mut p = j;
    while p > 0 && char_in_class(k, s.get_char(p - 1))
        invariant
            p <= j <= s@.len(),
            run_start(s@, j as int, k) == run_start(s@, p as int, k),
        decreases p,
    {
        p = p - 1;
    }
    p
}

/// The fields of the placeholders of `clause`, in placeholder order.
fn fields_of_clause(fields: &Vec<String>, clause: &str) -> (r: Vec<String>)
    ensures
        string_views(r@) == clause_fields(string_views(fields@), clause@),
{
    let mut out: Vec<String> = Vec::new();
    let n = clause.unicode_len();
    let mut i: usize = 0;
    while i < n
        invariant
            n == clause@.len(),
            i <= n,
            string_views(out@) == placeholder_fields(clause@, i as int, string_views(fields@)),
        decreases n - i,
    {
        let ghost prev = out@;
        if clause.get_char(i) == '$' {
            let a = run_start_of(clause, i, CharClass::Blank);
            let b = run_start_of(clause, a, CharClass::Comparison);
            let c = run_start_of(clause, b, CharClass::Blank);
            let d = run_start_of(clause, c, CharClass::Name);
            if b < a && d < c {
                let name = clause.substring_char(d, c);
                if list_contains(fields, name) {
                    let f = name.to_owned();
                    out.push(f);
                    assert(string_views(out@) =~= string_views(prev).push(f@));
                }
            }
        }
        i = i + 1;
    }
    out
}

/// The fields whose values the `SqlParams` derive passes, in the order of
/// the placeholders they fill.
pub fn sql_param_fields(
    fields: &Vec<String>,
    where_clause: Option<&str>,
    having: Option<&str>,
) -> (r: Vec<String>)
    ensures
        string_views(r@) == param_fields(
            string_views(fields@),
            match where_clause { Some(c) => Some(c@), None => None },
            match having { Some(c) => Some(c@), None => None },
        ),
{
    let mut param_fields: Vec<String> = Vec::new();
    match where_clause {
        Some(clause) => {
            let mut w = fields_of_clause(fields, clause);
            param_fields.append(&mut w);
        },
        None => {},
    }
    match having {
        Some(clause) => {
            let mut h = fields_of_clause(fields, clause);
            param_fields.append(&mut h);
        },
        None => {},
    }
    assert(string_views(param_fields@) =~= clause_fields_opt(string_views(fields@), match where_clause { Some(c) => Some(c@), None => None })
        + clause_fields_opt(string_views(fields@), match having { Some(c) => Some(c@), None => None }));
    if param_fields.len() == 0 {
        fields.clone()
    } else {
        param_fields
    }
}


proof fn lemma_run_start_whole_run(s: Seq<char>, j: int, k: CharClass)
    requires
        j <= s.len(),
        forall|i: int| 0 <= i < j ==> in_class(k, #[trigger] s[i]),
    ensures
        run_start(s, j, k) == 0,
    decreases j,
{
    if j > 0 {
        lemma_run_start_whole_run(s, j - 1, k);
    }
}

proof fn lemma_no_placeholder_no_fields(s: Seq<char>, n: int, fields: Seq<Seq<char>>)
    requires
        n <= s.len(),
        forall|i: int| 0 <= i < n ==> #[trigger] s[i] != '$',
    ensures
        placeholder_fields(s, n, fields) == Seq::<Seq<char>>::empty(),
    decreases n,
{
    if n > 0 {
        lemma_no_placeholder_no_fields(s, n - 1, fields);
    }
}

/// A clause `<f> = $` whose name `f` is a field made of ASCII letters,
/// digits and underscores asks for exactly that field as its one
/// parameter.
pub proof fn law_field_compared_with_placeholder(f: Seq<char>, fields: Seq<Seq<char>>)
    requires
        f.len() > 0,
        forall|i: int| 0 <= i < f.len() ==> ascii_alnum(#[trigger] f[i]) || f[i] == '_',
        fields.contains(f),
    ensures
        param_fields(fields, Some(f + " = $"@), None) == seq![f],
{
    reveal_strlit(" = $");
    let s = f + " = $"@;
    let l = f.len() as int;
    assert(s.len() == l + 4);
    assert(s[l] == ' ' && s[l + 1] == '=' && s[l + 2] == ' ' && s[l + 3] == '$');
    assert forall|i: int| 0 <= i < l implies in_class(CharClass::Name, #[trigger] s[i]) by {
        assert(s[i] == f[i]);
    }
    assert forall|i: int| 0 <= i < l + 3 implies #[trigger] s[i] != '$' by {
        if i < l {
            assert(s[i] == f[i]);
        }
    }
    lemma_no_placeholder_no_fields(s, l + 3, fields);
    assert(s[l - 1] == f[l - 1]);
    assert(!in_class(CharClass::Blank, s[l - 1]));
    assert(run_start(s, l, CharClass::Blank) == l);
    assert(run_start(s, l + 1, CharClass::Blank) == l);
    assert(run_start(s, l + 1, CharClass::Comparison) == l + 1);
    assert(run_start(s, l + 2, CharClass::Comparison) == l + 1);
    assert(run_start(s, l + 3, CharClass::Blank) == l + 2);
    lemma_run_start_whole_run(s, l, CharClass::Name);
    assert(s.subrange(0, l) =~= f);
    assert(field_at(s, l + 3) == Some(f));
    assert(placeholder_fields(s, l + 4, fields) =~= seq![f]);
    assert(clause_fields_opt(fields, Some(s)) + clause_fields_opt(fields, None) =~= seq![f]);
}

} // verus!
