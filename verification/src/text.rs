//! Case transforms and small string helpers that the generation passes share.

use crate::order::ascending;
use vstd::prelude::*;
use vstd::string::*;

verus! {

/// What a list of strings holds, each string as its sequence of characters.
pub open spec fn views(v: Seq<String>) -> Seq<Seq<char>> {
    Seq::new(v.len(), |i: int| v[i]@)
}

/// What a list of string literals holds, each as its sequence of characters.
pub open spec fn literal_views(v: Seq<&'static str>) -> Seq<Seq<char>> {
    Seq::new(v.len(), |i: int| v[i]@)
}

/// The lowercase form that `str::to_lowercase` gives a string.
pub uninterp spec fn lowercase_of(s: Seq<char>) -> Seq<char>;

/// The uppercase form that `str::to_uppercase` gives a string.
pub uninterp spec fn uppercase_of(s: Seq<char>) -> Seq<char>;

/// The characters that `char::to_uppercase` yields for one character.
pub uninterp spec fn uppercase_chars_of(c: char) -> Seq<char>;

/// Calls `str::to_lowercase`. The Unicode mapping is not spelled out here: the
/// result is only given its name, `lowercase_of`.
#[verifier::external_body]
pub(crate) fn to_lower(s: &str) -> (r: String)
    ensures
        r@ == lowercase_of(s@),
{
    s.to_lowercase()
}

/// Calls `str::to_uppercase`. The Unicode mapping is not spelled out here: the
/// result is only given its name, `uppercase_of`.
#[verifier::external_body]
pub(crate) fn to_upper(s: &str) -> (r: String)
    ensures
        r@ == uppercase_of(s@),
{
    s.to_uppercase()
}

/// Calls `char::to_uppercase` and collects the characters it yields, in order.
/// The result is only given its name, `uppercase_chars_of`.
#[verifier::external_body]
pub(crate) fn upper_chars(c: char) -> (r: Vec<char>)
    ensures
        r@ == uppercase_chars_of(c),
{
    c.to_uppercase().collect()
}

/// Calls `String::push`, which appends one character to the end of the string.
#[verifier::external_body]
pub(crate) fn push_char(s: &mut String, c: char)
    ensures
        final(s)@ == old(s)@.push(c),
{
    s.push(c)
}

/// Calls `sort` on the vector's slice of strings. `String` is ordered
/// lexicographically by code point, and sorting rearranges the strings into
/// ascending order without adding or dropping any.
#[verifier::external_body]
pub(crate) fn sort_strings(v: &mut Vec<String>)
    ensures
        final(v)@.len() == old(v)@.len(),
        views(final(v)@).to_multiset() == views(old(v)@).to_multiset(),
        ascending(views(final(v)@)),
{
    v.sort()
}

/// The character that stands first after capitalizing `c`: the first character
/// of its uppercase mapping, or `c` itself where the mapping yields nothing.
pub open spec fn first_upper(c: char) -> char {
    if uppercase_chars_of(c).len() > 0 {
        uppercase_chars_of(c)[0]
    } else {
        c
    }
}

/// A string with its first character capitalized and the rest untouched; the
/// empty string stays empty.
pub open spec fn capitalized(s: Seq<char>) -> Seq<char> {
    if s.len() == 0 {
        s
    } else {
        seq![first_upper(s[0])] + s.skip(1)
    }
}

/// The last `n` characters of `s`, or all of `s` where it is shorter.
pub open spec fn tail(s: Seq<char>, n: nat) -> Seq<char> {
    if s.len() <= n {
        s
    } else {
        s.skip(s.len() - n)
    }
}

/// Uppercases the first character of `s` and leaves every other character as
/// it is.
pub fn capitalize_first(s: &str) -> (r: String)
    ensures
        r@ == capitalized(s@),
{
    let n: usize = s.unicode_len();
    let mut out = String::new();
    if n > 0 {
        let c = s.get_char(0);
        let up = upper_chars(c);
        let first = if up.len() > 0 {
            up[0]
        } else {
            c
        };
        push_char(&mut out, first);
        out.append(s.substring_char(1, n));
        assert(out@ =~= capitalized(s@));
    } else {
        assert(out@ =~= s@);
    }
    out
}

/// The last `n` characters of `s`, counted in characters, not bytes.
pub fn last_chars(s: &str, n: usize) -> (r: String)
    ensures
        r@ == tail(s@, n as nat),
{
    let len: usize = s.unicode_len();
    if len <= n {
        String::from_str(s)
    } else {
        let r = String::from_str(s.substring_char(len - n, len));
        assert(r@ =~= tail(s@, n as nat));
        r
    }
}

/// `a` followed by `b`.
pub fn join(a: &str, b: &str) -> (r: String)
    ensures
        r@ == a@ + b@,
{
    let mut r = String::from_str(a);
    r.append(b);
    r
}

} // verus!
