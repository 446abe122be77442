//! The two embed providers whose pages are unwrapped into a direct image:
//! tenor view pages (whose body names a GIF asset) and imgur pages (whose
//! path names the image).
//!
//! Scheme, host and file extension match without regard to case.

use vstd::prelude::*;
use vstd::string::*;
use crate::text::{run_len, chars_of, run_end, string_of};

verus! {

/// `c` matches the literal character `l` without regard to case; for an
/// ASCII lowercase letter also its uppercase form, and for `s` also `ſ`.
pub open spec fn ci_eq(c: char, l: char) -> bool {
    c == l || (('a' <= l && l <= 'z') && (c as u32) + 32 == (l as u32)) || (l == 's' && c
        == '\u{17f}')
}

/// `lit` stands in `t` at `i`, without regard to case.
pub open spec fn ci_match(t: Seq<char>, i: int, lit: Seq<char>) -> bool {
    &&& 0 <= i
    &&& i + lit.len() <= t.len()
    &&& forall|k: int| 0 <= k < lit.len() ==> ci_eq(#[trigger] t[i + k], lit[k])
}

/// Where the host name starts in a URL that begins at `i`: after
/// `http://` or `https://`, and after a `www.` that follows.
pub open spec fn host_start(t: Seq<char>, i: int) -> Option<int> {
    let after = if ci_match(t, i, "https://"@) {
        Some(i + "https://"@.len())
    } else if ci_match(t, i, "http://"@) {
        Some(i + "http://"@.len())
    } else {
        None
    };
    match after {
        Some(j) => if ci_match(t, j, "www."@) {
            Some(j + "www."@.len())
        } else {
            Some(j)
        },
        None => None,
    }
}

/// `t[from..]` is not empty and holds no white space.
pub open spec fn solid_tail(t: Seq<char>, from: int) -> bool {
    0 <= from < t.len() && run_len(t.subrange(from, t.len() as int)) == t.len() - from
}

/// `t` is the address of a tenor view page: `https://tenor.com/view/...`.
pub open spec fn is_tenor_page_url(t: Seq<char>) -> bool {
    match host_start(t, 0) {
        Some(h) => ci_match(t, h, "tenor.com/view/"@) && solid_tail(t, h + "tenor.com/view/"@.len()),
        None => false,
    }
}

/// The path of an imgur page address `https://imgur.com/<path>`, where any
/// character but a line break may stand for the dot of the host name.
pub open spec fn imgur_path(t: Seq<char>) -> Option<Seq<char>> {
    match host_start(t, 0) {
        Some(h) => {
            let q = h + 6 + "com/"@.len();
            if ci_match(t, h, "imgur"@) && h + 5 < t.len() && t[h + 5] != '\n' && ci_match(
                t,
                h + 6,
                "com/"@,
            ) && solid_tail(t, q) {
                Some(t.subrange(q, t.len() as int))
            } else {
                None
            }
        },
        None => None,
    }
}

/// The last `b` in `lo..=b` at which `.gif` stands in `t`.
pub open spec fn last_gif(t: Seq<char>, lo: int, b: int) -> Option<int>
    decreases b - lo + 1,
{
    if b < lo {
        None
    } else if ci_match(t, b, ".gif"@) {
        Some(b)
    } else {
        last_gif(t, lo, b - 1)
    }
}

pub open spec fn has_slash(t: Seq<char>, lo: int, hi: int) -> bool {
    exists|k: int| lo <= k < hi && #[trigger] t[k] == '/'
}

/// The end of the tenor asset address that starts at `s`, if one does: a
/// scheme, `c.tenor.com/`, then within the following run of
/// non-white-space text a non-empty segment, `/`, a non-empty segment and
/// `.gif`, with one `/` after it if there is one. The segments take as much
/// of the run as they can: the address ends at the run's last `.gif` that has
/// a `/` at least two characters before it.
pub open spec fn asset_end(t: Seq<char>, s: int) -> Option<int> {
    match host_start(t, s) {
        Some(h) => if ci_match(t, h, "c.tenor.com/"@) {
            let q = h + "c.tenor.com/"@.len();
            let e = q + run_len(t.subrange(q, t.len() as int));
            match last_gif(t, q, e - 4) {
                Some(b) => if has_slash(t, q + 1, b - 1) {
                    let g = b + 4;
                    if g < t.len() && t[g] == '/' {
                        Some(g + 1)
                    } else {
                        Some(g)
                    }
                } else {
                    None
                },
                None => None,
            }
        } else {
            None
        },
        None => None,
    }
}

/// The first tenor asset address in `t` at or after `s`, as `(start, end)`.
pub open spec fn find_asset(t: Seq<char>, s: int) -> Option<(int, int)>
    decreases t.len() - s,
{
    if s < 0 || s >= t.len() {
        None
    } else {
        match asset_end(t, s) {
            Some(e) => Some((s, e)),
            None => find_asset(t, s + 1),
        }
    }
}

/// The tenor asset address that a page body names first.
pub open spec fn tenor_asset(body: Seq<char>) -> Option<Seq<char>> {
    match find_asset(body, 0) {
        Some(p) => Some(body.subrange(p.0, p.1)),
        None => None,
    }
}

pub open spec fn as_int(o: Option<usize>) -> Option<int> {
    match o {
        Some(x) => Some(x as int),
        None => None,
    }
}

fn ci_char(c: char, l: char) -> (r: bool)
    ensures
        r == ci_eq(c, l),
{
    c == l || (('a' <= l && l <= 'z') && (c as u32) + 32 == (l as u32)) || (l == 's' && c
        == '\u{17f}')
}

fn match_at(v: &Vec<char>, i: usize, lit: &Vec<char>) -> (r: bool)
    ensures
        r == ci_match(v@, i as int, lit@),
        v@.len() <= usize::MAX,
{
    let n = v.len();
    if i > n || lit.len() > n - i {
        return false;
    }
    let mut k: usize = 0;
    while k < lit.len()
        invariant
            n == v@.len(),
            i + lit@.len() <= v@.len(),
            k <= lit@.len(),
            forall|m: int| 0 <= m < k ==> ci_eq(#[trigger] v@[i + m], lit@[m]),
        decreases lit@.len() - k,
    {
        if !ci_char(v[i + k], lit[k]) {
            assert(!ci_eq(v@[i + k as int], lit@[k as int]));
            return false;
        }
        k = k + 1;
    }
    true
}

/// The literals of the URL patterns, as characters.
struct Literals {
    https: Vec<char>,
    http: Vec<char>,
    www: Vec<char>,
    tenor_view: Vec<char>,
    tenor_cdn: Vec<char>,
    gif: Vec<char>,
    imgur: Vec<char>,
    com: Vec<char>,
}

impl Literals {
    spec fn wf(&self) -> bool {
        &&& self.https@ == "https://"@
        &&& self.http@ == "http://"@
        &&& self.www@ == "www."@
        &&& self.tenor_view@ == "tenor.com/view/"@
        &&& self.tenor_cdn@ == "c.tenor.com/"@
        &&& self.gif@ == ".gif"@
        &&& self.imgur@ == "imgur"@
        &&& self.com@ == "com/"@
    }

    fn new() -> (r: Literals)
        ensures
            r.wf(),
    {
        Literals {
            https: chars_of("https://"),
            http: chars_of("http://"),
            www: chars_of("www."),
            tenor_view: chars_of("tenor.com/view/"),
            tenor_cdn: chars_of("c.tenor.com/"),
            gif: chars_of(".gif"),
            imgur: chars_of("imgur"),
            com: chars_of("com/"),
        }
    }
}

fn host_after(v: &Vec<char>, i: usize, lits: &Literals) -> (r: Option<usize>)
    requires
        lits.wf(),
    ensures
        as_int(r) == host_start(v@, i as int),
        r matches Some(h) ==> h <= v@.len(),
        v@.len() <= usize::MAX,
{
    let j = if match_at(v, i, &lits.https) {
        i + lits.https.len()
    } else if match_at(v, i, &lits.http) {
        i + lits.http.len()
    } else {
        return None;
    };
    if match_at(v, j, &lits.www) {
        Some(j + lits.www.len())
    } else {
        Some(j)
    }
}

fn solid_from(v: &Vec<char>, from: usize) -> (r: bool)
    ensures
        r == solid_tail(v@, from as int),
{
    if from >= v.len() {
        return false;
    }
    run_end(v, from) == v.len()
}

/// Whether `url` is the address of a tenor view page.
pub fn is_tenor_page(url: &str) -> (r: bool)
    ensures
        r == is_tenor_page_url(url@),
{
    let lits = Literals::new();
    let v = chars_of(url);
    match host_after(&v, 0, &lits) {
        Some(h) => match_at(&v, h, &lits.tenor_view) && solid_from(&v, h + lits.tenor_view.len()),
        None => false,
    }
}

/// The path of an imgur page address, which names its image.
pub fn imgur_id(url: &str) -> (r: Option<String>)
    ensures
        r matches Some(p) ==> imgur_path(url@) == Some(p@),
        r is None ==> imgur_path(url@) is None,
{
    let lits = Literals::new();
    let v = chars_of(url);
    match host_after(&v, 0, &lits) {
        Some(h) => {
            if match_at(&v, h, &lits.imgur) && v.len() - h > 5 && v[h + 5] != '\n' && match_at(
                &v,
                h + 6,
                &lits.com,
            ) && solid_from(&v, h + 6 + lits.com.len()) {
                Some(string_of(&v, h + 6 + lits.com.len(), v.len()))
            } else {
                None
            }
        },
        None => None,
    }
}

fn last_gif_at(v: &Vec<char>, lo: usize, hi: usize, lits: &Literals) -> (r: Option<usize>)
    requires
        lits.wf(),
        hi <= v@.len(),
    ensures
        as_int(r) == last_gif(v@, lo as int, hi - 4),
        r matches Some(b) ==> lo <= b && b + 4 <= hi,
{
    if hi < 4 {
        return None;
    }
    let mut b: usize = hi - 4;
    loop
        invariant
            lits.wf(),
            b + 4 <= hi <= v@.len(),
            last_gif(v@, lo as int, hi - 4) == last_gif(v@, lo as int, b as int),
        decreases b,
    {
        if b < lo {
            return None;
        }
        if match_at(v, b, &lits.gif) {
            assert(last_gif(v@, lo as int, b as int) == Some(b as int));
            return Some(b);
        }
        assert(last_gif(v@, lo as int, b as int) == last_gif(v@, lo as int, b - 1));
        if b == 0 {
            assert(last_gif(v@, lo as int, -1) is None);
            return None;
        }
        b = b - 1;
    }
}

fn slash_between(v: &Vec<char>, lo: usize, hi: usize) -> (r: bool)
    requires
        hi <= v@.len(),
    ensures
        r == has_slash(v@, lo as int, hi as int),
{
    let mut k: usize = lo;
    while k < hi
        invariant
            lo <= k,
            hi <= v@.len(),
            forall|m: int| lo <= m < k && m < hi ==> #[trigger] v@[m] != '/',
        decreases hi - k,
    {
        if v[k] == '/' {
            assert(v@[k as int] == '/');
            return true;
        }
        k = k + 1;
    }
    false
}

fn asset_end_at(v: &Vec<char>, s: usize, lits: &Literals) -> (r: Option<usize>)
    requires
        lits.wf(),
    ensures
        as_int(r) == asset_end(v@, s as int),
        r matches Some(e) ==> s < e <= v@.len(),
{
    let h = match host_after(v, s, lits) {
        Some(h) => h,
        None => {
            return None;
        },
    };
    if !match_at(v, h, &lits.tenor_cdn) {
        return None;
    }
    assert(ci_match(v@, h as int, lits.tenor_cdn@));
    let q = h + lits.tenor_cdn.len();
    let e = run_end(v, q);
    let b = match last_gif_at(v, q, e, lits) {
        Some(b) => b,
        None => {
            return None;
        },
    };
    if b < 1 || !slash_between(v, q + 1, b - 1) {
        return None;
    }
    let g = b + 4;
    if g < v.len() && v[g] == '/' {
        Some(g + 1)
    } else {
        Some(g)
    }
}

/// The first tenor asset address (`https://c.tenor.com/.../....gif`) that
/// a page body names.
pub fn find_tenor_asset(body: &str) -> (r: Option<String>)
    ensures
        r matches Some(a) ==> tenor_asset(body@) == Some(a@),
        r is None ==> tenor_asset(body@) is None,
{
    let lits = Literals::new();
    let v = chars_of(body);
    let n = v.len();
    let mut s: usize = 0;
    while s < n
        invariant
            lits.wf(),
            n == v@.len(),
            v@ == body@,
            s <= n,
            find_asset(v@, 0) == find_asset(v@, s as int),
        decreases n - s,
    {
        match asset_end_at(&v, s, &lits) {
            Some(e) => {
                assert(find_asset(v@, s as int) == Some((s as int, e as int)));
                return Some(string_of(&v, s, e));
            },
            None => {},
        }
        s = s + 1;
    }
    None
}

} // verus!
