//! Custom emoji tokens: `<:name:id>`, `<a:name:id>` or a bare numeric id.

use vstd::prelude::*;
use vstd::string::*;
use crate::error::Error;

verus! {

pub open spec fn is_ascii_digit(c: char) -> bool {
    '0' <= c && c <= '9'
}

pub open spec fn is_name_char(c: char) -> bool {
    ('a' <= c && c <= 'z') || ('A' <= c && c <= 'Z') || is_ascii_digit(c) || c == '_'
}

/// An emoji id: 15 to 20 decimal digits.
pub open spec fn is_emoji_id(s: Seq<char>) -> bool {
    &&& 15 <= s.len() <= 20
    &&& forall|i: int| 0 <= i < s.len() ==> is_ascii_digit(#[trigger] s[i])
}

/// An emoji name: 1 to 32 ASCII letters, digits or underscores.
pub open spec fn is_emoji_name(s: Seq<char>) -> bool {
    &&& 1 <= s.len() <= 32
    &&& forall|i: int| 0 <= i < s.len() ==> is_name_char(#[trigger] s[i])
}

/// The token `<:name:id>`, or `<a:name:id>` for an animated emoji.
pub open spec fn custom_emoji_text(animated: bool, name: Seq<char>, id: Seq<char>) -> Seq<char> {
    let head = if animated {
        seq!['<', 'a', ':']
    } else {
        seq!['<', ':']
    };
    head + name + seq![':'] + id + seq!['>']
}

/// `t` is a custom emoji token with the given animation flag and id.
pub open spec fn is_custom_emoji(t: Seq<char>, animated: bool, id: Seq<char>) -> bool {
    exists|name: Seq<char>|
        #![trigger custom_emoji_text(animated, name, id)]
        is_emoji_name(name) && is_emoji_id(id) && t == custom_emoji_text(animated, name, id)
}

/// The emoji that a token names, as (animated, id): a custom emoji token, or
/// else a bare id, which is never animated.
pub open spec fn emoji_of(t: Seq<char>) -> Option<(bool, Seq<char>)> {
    if exists|p: (bool, Seq<char>)| is_custom_emoji(t, p.0, p.1) {
        Some(choose|p: (bool, Seq<char>)| is_custom_emoji(t, p.0, p.1))
    } else if is_emoji_id(t) {
        Some((false, t))
    } else {
        None
    }
}

/// The CDN address of an emoji's image: a GIF for an animated emoji, a PNG
/// otherwise.
pub open spec fn emoji_url_text(animated: bool, id: Seq<char>) -> Seq<char> {
    "https://cdn.discordapp.com/emojis/"@ + id + if animated {
        ".gif"@
    } else {
        ".png"@
    }
}

proof fn lemma_custom_parts(t: Seq<char>, animated: bool, name: Seq<char>, id: Seq<char>)
    requires
        is_emoji_name(name),
        t == custom_emoji_text(animated, name, id),
    ensures
        ({
            let p: int = if animated {
                2
            } else {
                1
            };
            let j: int = p + 1 + name.len();
            &&& t.len() == j + id.len() + 2
            &&& t[0] == '<'
            &&& t[t.len() - 1] == '>'
            &&& (t[1] == 'a') == animated
            &&& t[p] == ':'
            &&& t[j] == ':'
            &&& forall|k: int| p < k < j ==> #[trigger] t[k] != ':'
            &&& t.subrange(p + 1, j) == name
            &&& t.subrange(j + 1, t.len() - 1) == id
        }),
{
    let p: int = if animated {
        2
    } else {
        1
    };
    let j: int = p + 1 + name.len();
    assert forall|k: int| p < k < j implies #[trigger] t[k] != ':' by {
        assert(t[k] == name[k - p - 1]);
        assert(is_name_char(name[k - p - 1]));
    }
    assert(t.subrange(p + 1, j) =~= name);
    assert(t.subrange(j + 1, t.len() - 1) =~= id);
}

/// A custom emoji token's name, with the shape facts of `lemma_custom_parts`.
proof fn lemma_custom_witness(t: Seq<char>, animated: bool, id: Seq<char>) -> (name: Seq<char>)
    requires
        is_custom_emoji(t, animated, id),
    ensures
        is_emoji_name(name),
        is_emoji_id(id),
        t == custom_emoji_text(animated, name, id),
        ({
            let p: int = if animated {
                2
            } else {
                1
            };
            let j: int = p + 1 + name.len();
            &&& t.len() == j + id.len() + 2
            &&& t[0] == '<'
            &&& t[t.len() - 1] == '>'
            &&& (t[1] == 'a') == animated
            &&& t[p] == ':'
            &&& t[j] == ':'
            &&& forall|k: int| p < k < j ==> #[trigger] t[k] != ':'
            &&& t.subrange(p + 1, j) == name
            &&& t.subrange(j + 1, t.len() - 1) == id
        }),
{
    let name = choose|name: Seq<char>|
        #![trigger custom_emoji_text(animated, name, id)]
        is_emoji_name(name) && is_emoji_id(id) && t == custom_emoji_text(animated, name, id);
    lemma_custom_parts(t, animated, name, id);
    name
}

fn all_digits(s: &str) -> (r: bool)
    ensures
        r == (forall|i: int| 0 <= i < s@.len() ==> is_ascii_digit(#[trigger] s@[i])),
{
    let n = s.unicode_len();
    let mut i: usize = 0;
    while i < n
        invariant
            n == s@.len(),
            i <= n,
            forall|k: int| 0 <= k < i ==> is_ascii_digit(#[trigger] s@[k]),
        decreases n - i,
    {
        let c = s.get_char(i);
        if !('0' <= c && c <= '9') {
            return false;
        }
        i = i + 1;
    }
    true
}

fn all_name_chars(s: &str) -> (r: bool)
    ensures
        r == (forall|i: int| 0 <= i < s@.len() ==> is_name_char(#[trigger] s@[i])),
{
    let n = s.unicode_len();
    let mut i: usize = 0;
    while i < n
        invariant
            n == s@.len(),
            i <= n,
            forall|k: int| 0 <= k < i ==> is_name_char(#[trigger] s@[k]),
        decreases n - i,
    {
        let c = s.get_char(i);
        if !(('a' <= c && c <= 'z') || ('A' <= c && c <= 'Z') || ('0' <= c && c <= '9') || c
            == '_') {
            return false;
        }
        i = i + 1;
    }
    true
}

/// Reads a custom emoji token, giving its animation flag and id.
fn parse_custom_emoji(t: &str) -> (r: Option<(bool, String)>)
    ensures
        r matches Some(p) ==> is_custom_emoji(t@, p.0, p.1@),
        forall|a: bool, id: Seq<char>|
            #[trigger] is_custom_emoji(t@, a, id) ==> (r matches Some(p) && p.0 == a && p.1@ == id),
{
    let n = t.unicode_len();
    if n < 4 || t.get_char(0) != '<' || t.get_char(n - 1) != '>' {
        proof {
            assert forall|a: bool, id: Seq<char>| #[trigger]
                is_custom_emoji(t@, a, id) implies false by {
                let name = lemma_custom_witness(t@, a, id);
            }
        }
        return None;
    }
    let animated = t.get_char(1) == 'a';
    let p: usize = if animated {
        2
    } else {
        1
    };
    if t.get_char(p) != ':' {
        proof {
            assert forall|a: bool, id: Seq<char>| #[trigger]
                is_custom_emoji(t@, a, id) implies false by {
                let name = lemma_custom_witness(t@, a, id);
            }
        }
        return None;
    }
    let mut j: usize = p + 1;
    while j < n - 1 && t.get_char(j) != ':'
        invariant
            n == t@.len(),
            n >= 4,
            p < j <= n - 1,
            forall|k: int| p < k < j ==> #[trigger] t@[k] != ':',
        decreases n - j,
    {
        j = j + 1;
    }
    if j >= n - 1 {
        proof {
            assert forall|a: bool, id: Seq<char>| #[trigger]
                is_custom_emoji(t@, a, id) implies false by {
                let name = lemma_custom_witness(t@, a, id);
                let q: int = p + 1 + name.len();
                assert(t@[q] == ':');
            }
        }
        return None;
    }
    let name = t.substring_char(p + 1, j);
    let id = t.substring_char(j + 1, n - 1);
    let name_len = name.unicode_len();
    let id_len = id.unicode_len();
    let ok = 1 <= name_len && name_len <= 32 && all_name_chars(name) && 15 <= id_len && id_len <= 20
        && all_digits(id);
    proof {
        assert forall|a: bool, id2: Seq<char>| #[trigger]
            is_custom_emoji(t@, a, id2) implies ok && a == animated && id2 == id@ by {
            let name2 = lemma_custom_witness(t@, a, id2);
            let q: int = p + 1 + name2.len();
            if q < j {
                assert(t@[q] == ':');
            }
            if j < q {
                assert(t@[j as int] == ':');
            }
            assert(j == q);
        }
    }
    if ok {
        proof {
            assert(is_emoji_name(name@));
            assert(is_emoji_id(id@));
            assert(t@ =~= custom_emoji_text(animated, name@, id@));
        }
        Some((animated, String::from_str(id)))
    } else {
        None
    }
}

/// Reads an emoji from a token: `<:name:id>` and `<a:name:id>` give the id
/// and whether the emoji is animated, a bare id of 15 to 20 digits gives
/// itself, not animated. Any other token is an `EmojiParseError` naming it.
pub fn parse_emoji(token: &str) -> (r: Result<(bool, String), Error>)
    ensures
        forall|a: bool, id: Seq<char>|
            #[trigger] is_custom_emoji(token@, a, id) ==> (r matches Ok(p) && p.0 == a && p.1@
                == id),
        is_emoji_id(token@) ==> (r matches Ok(p) && !p.0 && p.1@ == token@),
        r matches Ok(p) ==> is_custom_emoji(token@, p.0, p.1@) || (!p.0 && p.1@ == token@
            && is_emoji_id(token@)),
        r matches Err(e) ==> e matches Error::EmojiParseError(s) && s@ == token@,
        r matches Ok(p) ==> emoji_of(token@) == Some((p.0, p.1@)),
        r is Err ==> emoji_of(token@) is None,
{
    match parse_custom_emoji(token) {
        Some(found) => {
            proof {
                if is_emoji_id(token@) {
                    let name = lemma_custom_witness(token@, found.0, found.1@);
                    assert(is_ascii_digit(token@[0]));
                }
                let w = (found.0, found.1@);
                assert(is_custom_emoji(token@, w.0, w.1));
                let c = choose|p: (bool, Seq<char>)| is_custom_emoji(token@, p.0, p.1);
                assert(is_custom_emoji(token@, c.0, c.1));
            }
            Ok(found)
        },
        None => {
            let n = token.unicode_len();
            proof {
                if exists|p: (bool, Seq<char>)| is_custom_emoji(token@, p.0, p.1) {
                    let c = choose|p: (bool, Seq<char>)| is_custom_emoji(token@, p.0, p.1);
                    assert(is_custom_emoji(token@, c.0, c.1));
                }
            }
            if 15 <= n && n <= 20 && all_digits(token) {
                Ok((false, String::from_str(token)))
            } else {
                Err(Error::EmojiParseError(String::from_str(token)))
            }
        },
    }
}

/// The CDN address of an emoji's image.
pub fn emoji_url(animated: bool, id: &str) -> (r: String)
    ensures
        r@ == emoji_url_text(animated, id@),
{
    let mut s = String::from_str("https://cdn.discordapp.com/emojis/");
    s.append(id);
    if animated {
        s.append(".gif");
    } else {
        s.append(".png");
    }
    s
}

} // verus!
