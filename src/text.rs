//! Character-level helpers: whitespace, trimming, and the first token of a
//! message.

use vstd::prelude::*;
use vstd::string::*;
use vstd::std_specs::iter::IteratorSpec;

verus! {

broadcast use vstd::string::group_string_axioms;

/// Unicode white space, as `char::is_whitespace` defines it.
pub open spec fn is_ws(c: char) -> bool {
    ('\t' <= c && c <= '\r') || c == ' ' || c == '\u{85}' || c == '\u{a0}' || c == '\u{1680}' || (
    '\u{2000}' <= c && c <= '\u{200a}') || c == '\u{2028}' || c == '\u{2029}' || c == '\u{202f}'
        || c == '\u{205f}' || c == '\u{3000}'
}

pub fn is_whitespace(c: char) -> (r: bool)
    ensures
        r == is_ws(c),
{
    ('\t' <= c && c <= '\r') || c == ' ' || c == '\u{85}' || c == '\u{a0}' || c == '\u{1680}' || (
    '\u{2000}' <= c && c <= '\u{200a}') || c == '\u{2028}' || c == '\u{2029}' || c == '\u{202f}'
        || c == '\u{205f}' || c == '\u{3000}'
}

/// The characters of `s`, one by one.
pub fn chars_of(s: &str) -> (r: Vec<char>)
    ensures
        r@ == s@,
{
    let mut it = s.chars();
    let mut v: Vec<char> = Vec::new();
    loop
        invariant
            v@ + it.remaining() == s@,
            v@.len() <= s@.len(),
        decreases s@.len() - v@.len(),
    {
        match it.next() {
            Some(c) => {
                v.push(c);
            },
            None => {
                assert(v@ =~= s@);
                return v;
            },
        }
    }
}

/// The string made of the characters `v[from..to]`.
pub fn string_of(v: &Vec<char>, from: usize, to: usize) -> (r: String)
    requires
        from <= to <= v@.len(),
    ensures
        r@ == v@.subrange(from as int, to as int),
{
    let mut s = String::new();
    let mut i: usize = from;
    while i < to
        invariant
            from <= i <= to <= v@.len(),
            s@ == v@.subrange(from as int, i as int),
        decreases to - i,
    {
        push_char(&mut s, v[i]);
        assert(s@ =~= v@.subrange(from as int, i + 1));
        i = i + 1;
    }
    s
}

/// Relies on `String::push`: the character is added at the end.
#[verifier::external_body]
fn push_char(s: &mut String, c: char)
    ensures
        final(s)@ == old(s)@.push(c),
{
    s.push(c)
}

/// `t` without its leading characters equal to `c`.
pub open spec fn drop_lead(t: Seq<char>, c: char) -> Seq<char>
    decreases t.len(),
{
    if t.len() > 0 && t[0] == c {
        drop_lead(t.drop_first(), c)
    } else {
        t
    }
}

/// `t` without its trailing characters equal to `c`.
pub open spec fn drop_trail(t: Seq<char>, c: char) -> Seq<char>
    decreases t.len(),
{
    if t.len() > 0 && t.last() == c {
        drop_trail(t.drop_last(), c)
    } else {
        t
    }
}

/// `t` without leading white space.
pub open spec fn trim_lead(t: Seq<char>) -> Seq<char>
    decreases t.len(),
{
    if t.len() > 0 && is_ws(t[0]) {
        trim_lead(t.drop_first())
    } else {
        t
    }
}

/// `t` without trailing white space.
pub open spec fn trim_trail(t: Seq<char>) -> Seq<char>
    decreases t.len(),
{
    if t.len() > 0 && is_ws(t.last()) {
        trim_trail(t.drop_last())
    } else {
        t
    }
}

/// A URL as written in an argument: leading `<` and trailing `>` removed
/// (as chat clients wrap links to hide their preview), then white space at
/// both ends.
pub open spec fn bare_url(t: Seq<char>) -> Seq<char> {
    trim_lead(trim_trail(drop_trail(drop_lead(t, '<'), '>')))
}

/// The number of non-white-space characters at the start of `t`.
pub open spec fn run_len(t: Seq<char>) -> nat
    decreases t.len(),
{
    if t.len() > 0 && !is_ws(t[0]) {
        1 + run_len(t.drop_first())
    } else {
        0
    }
}

/// The text of `t` before its first white space.
pub open spec fn first_token(t: Seq<char>) -> Seq<char> {
    t.subrange(0, run_len(t) as int)
}

/// Returns `(i, j)` with `bare_url(v) == v[i..j]`.
pub fn bare_url_bounds(v: &Vec<char>) -> (r: (usize, usize))
    ensures
        r.0 <= r.1 <= v@.len(),
        v@.subrange(r.0 as int, r.1 as int) == bare_url(v@),
{
    let n = v.len();
    let mut i: usize = 0;
    assert(v@.subrange(0, n as int) =~= v@);
    while i < n && v[i] == '<'
        invariant
            i <= n == v@.len(),
            drop_lead(v@, '<') == drop_lead(v@.subrange(i as int, n as int), '<'),
        decreases n - i,
    {
        assert(v@.subrange(i as int, n as int).drop_first() =~= v@.subrange(i + 1, n as int));
        i = i + 1;
    }
    assert(drop_lead(v@, '<') == v@.subrange(i as int, n as int));
    let mut j: usize = n;
    while j > i && v[j - 1] == '>'
        invariant
            i <= j <= n == v@.len(),
            drop_trail(v@.subrange(i as int, n as int), '>') == drop_trail(
                v@.subrange(i as int, j as int),
                '>',
            ),
        decreases j,
    {
        assert(v@.subrange(i as int, j as int).drop_last() =~= v@.subrange(i as int, j - 1));
        j = j - 1;
    }
    assert(drop_trail(drop_lead(v@, '<'), '>') == v@.subrange(i as int, j as int));
    while j > i && is_whitespace(v[j - 1])
        invariant
            i <= j <= n == v@.len(),
            trim_trail(drop_trail(drop_lead(v@, '<'), '>')) == trim_trail(
                v@.subrange(i as int, j as int),
            ),
        decreases j,
    {
        assert(v@.subrange(i as int, j as int).drop_last() =~= v@.subrange(i as int, j - 1));
        j = j - 1;
    }
    assert(trim_trail(drop_trail(drop_lead(v@, '<'), '>')) == v@.subrange(i as int, j as int));
    while i < j && is_whitespace(v[i])
        invariant
            i <= j <= n == v@.len(),
            bare_url(v@) == trim_lead(v@.subrange(i as int, j as int)),
        decreases j - i,
    {
        assert(v@.subrange(i as int, j as int).drop_first() =~= v@.subrange(i + 1, j as int));
        i = i + 1;
    }
    (i, j)
}

/// The end of the run of non-white-space characters that starts at `from`.
pub fn run_end(v: &Vec<char>, from: usize) -> (r: usize)
    requires
        from <= v@.len(),
    ensures
        r == from + run_len(v@.subrange(from as int, v@.len() as int)),
        r <= v@.len(),
{
    let n = v.len();
    let mut j: usize = from;
    while j < n && !is_whitespace(v[j])
        invariant
            from <= j <= n == v@.len(),
            run_len(v@.subrange(from as int, n as int)) == (j - from) + run_len(
                v@.subrange(j as int, n as int),
            ),
        decreases n - j,
    {
        assert(v@.subrange(j as int, n as int).drop_first() =~= v@.subrange(j + 1, n as int));
        j = j + 1;
    }
    j
}

/// `p` is a prefix of `s`.
pub open spec fn starts_with(s: Seq<char>, p: Seq<char>) -> bool {
    p.len() <= s.len() && s.subrange(0, p.len() as int) == p
}

pub fn has_prefix(s: &str, p: &str) -> (r: bool)
    ensures
        r == starts_with(s@, p@),
{
    let sv = chars_of(s);
    let pv = chars_of(p);
    chars_at(&sv, 0, &pv)
}

/// Whether `f` stands in `v` at `i`.
pub fn chars_at(v: &Vec<char>, i: usize, f: &Vec<char>) -> (r: bool)
    ensures
        r == (i + f@.len() <= v@.len() && v@.subrange(i as int, i + f@.len()) == f@),
{
    let n = v.len();
    if i > n || f.len() > n - i {
        return false;
    }
    let mut k: usize = 0;
    while k < f.len()
        invariant
            n == v@.len(),
            i + f@.len() <= n,
            k <= f@.len(),
            forall|m: int| 0 <= m < k ==> #[trigger] v@[i + m] == f@[m],
        decreases f@.len() - k,
    {
        if v[i + k] != f[k] {
            assert(v@.subrange(i as int, i + f@.len())[k as int] != f@[k as int]);
            return false;
        }
        k = k + 1;
    }
    assert forall|m: int| 0 <= m < f@.len() implies v@.subrange(i as int, i + f@.len())[m]
        == f@[m] by {
        assert(v@[i + m] == f@[m]);
    }
    assert(v@.subrange(i as int, i + f@.len()) =~= f@);
    true
}

/// The text of `content` before its first white space.
pub fn first_word(content: &str) -> (r: String)
    ensures
        r@ == first_token(content@),
{
    let v = chars_of(content);
    let e = run_end(&v, 0);
    assert(v@.subrange(0, v@.len() as int) =~= v@);
    string_of(&v, 0, e)
}

} // verus!
