//! Character-level helpers shared by the controls and the message box.
use vstd::prelude::*;

verus! {

/// The characters of `s`, in order.
pub fn chars_of(s: &str) -> (v: Vec<char>)
    ensures
        v@ == s@,
{
    let mut v: Vec<char> = Vec::new();
    for c in it: s.chars()
        invariant
            v@ == it.seq().take(it.index() as int),
    {
        v.push(c);
    }
    v
}

/// `c` with an ASCII capital folded to lower case; every other
/// character unchanged.
pub open spec fn ascii_lower(c: char) -> char {
    if 'A' <= c && c <= 'Z' {
        ((c as u32) + 32) as char
    } else {
        c
    }
}

/// `s` with every ASCII capital folded to lower case.
pub open spec fn ascii_folded(s: Seq<char>) -> Seq<char> {
    s.map_values(|c: char| ascii_lower(c))
}

/// `str::eq_ignore_ascii_case`: the two strings are equal once ASCII
/// capitals are folded to lower case (std documents it as
/// `to_ascii_lowercase(a) == to_ascii_lowercase(b)`).
#[verifier::external_body]
pub(crate) fn eq_ignore_ascii_case(a: &str, b: &str) -> (r: bool)
    ensures
        r == (ascii_folded(a@) == ascii_folded(b@)),
{
    a.eq_ignore_ascii_case(b)
}

/// `String::push`: appends one character.
#[verifier::external_body]
pub(crate) fn string_push(s: &mut String, c: char)
    ensures
        final(s)@ == old(s)@.push(c),
{
    s.push(c)
}

/// `String::pop`: removes and returns the last character, or `None`
/// on an empty string.
#[verifier::external_body]
pub(crate) fn string_pop(s: &mut String) -> (r: Option<char>)
    ensures
        old(s)@.len() == 0 ==> r is None && final(s)@ == old(s)@,
        old(s)@.len() > 0 ==> r == Some(old(s)@.last()) && final(s)@ == old(s)@.drop_last(),
{
    s.pop()
}

/// A `String` holding exactly `cs`.
pub fn string_of(cs: &[char]) -> (s: String)
    ensures
        s@ == cs@,
{
    let mut s = String::new();
    let mut i: usize = 0;
    while i < cs.len()
        invariant
            0 <= i <= cs@.len(),
            s@ == cs@.take(i as int),
        decreases cs@.len() - i,
    {
        assert(cs@.take(i + 1) == cs@.take(i as int).push(cs@[i as int]));
        string_push(&mut s, cs[i]);
        i = i + 1;
    }
    assert(cs@.take(cs@.len() as int) == cs@);
    s
}

/// UTF-16 decoded with every unpaired surrogate replaced by
/// `U+FFFD`, as `String::from_utf16_lossy` documents.
pub open spec fn utf16_lossy(u: Seq<u16>) -> Seq<char>
    decreases u.len(),
{
    if u.len() == 0 {
        Seq::empty()
    } else if u[0] < 0xD800 || u[0] >= 0xE000 {
        seq![u[0] as char] + utf16_lossy(u.drop_first())
    } else if u[0] < 0xDC00 && u.len() >= 2 && 0xDC00 <= u[1] && u[1] < 0xE000 {
        seq![((u[0] - 0xD800) * 0x400 + (u[1] - 0xDC00) + 0x10000) as char] + utf16_lossy(
            u.subrange(2, u.len() as int),
        )
    } else {
        seq!['\u{FFFD}'] + utf16_lossy(u.drop_first())
    }
}

/// `String::from_utf16_lossy`: decodes UTF-16, replacing every
/// unpaired surrogate with `U+FFFD`.
#[verifier::external_body]
pub(crate) fn string_from_utf16_lossy(units: &[u16]) -> (s: String)
    ensures
        s@ == utf16_lossy(units@),
{
    String::from_utf16_lossy(units)
}

/// What `String::from_utf8_lossy` decodes from `b`: UTF-8 with every
/// invalid sequence replaced by `U+FFFD`.
pub uninterp spec fn utf8_lossy(b: Seq<u8>) -> Seq<char>;

/// `String::from_utf8_lossy`, made owned.
#[verifier::external_body]
pub(crate) fn string_from_utf8_lossy(b: &[u8]) -> (s: String)
    ensures
        s@ == utf8_lossy(b@),
{
    String::from_utf8_lossy(b).into_owned()
}

/// `s` with every trailing character that satisfies `f` removed.
pub open spec fn trim_end_where(s: Seq<char>, f: spec_fn(char) -> bool) -> Seq<char>
    decreases s.len(),
{
    if s.len() > 0 && f(s.last()) {
        trim_end_where(s.drop_last(), f)
    } else {
        s
    }
}

/// `s` with every leading character that satisfies `f` removed.
pub open spec fn trim_start_where(s: Seq<char>, f: spec_fn(char) -> bool) -> Seq<char>
    decreases s.len(),
{
    if s.len() > 0 && f(s[0]) {
        trim_start_where(s.drop_first(), f)
    } else {
        s
    }
}

/// Unicode's `White_Space` property, which `char::is_whitespace`
/// tests.
pub open spec fn is_white_space(c: char) -> bool {
    let u = c as u32;
    (0x09 <= u && u <= 0x0D) || u == 0x20 || u == 0x85 || u == 0xA0 || u == 0x1680 || (0x2000
        <= u && u <= 0x200A) || u == 0x2028 || u == 0x2029 || u == 0x202F || u == 0x205F || u
        == 0x3000
}

/// `s` without leading and trailing white space.
pub open spec fn trim_ws(s: Seq<char>) -> Seq<char> {
    trim_end_where(trim_start_where(s, |c: char| is_white_space(c)), |c: char| is_white_space(c))
}

/// `str::trim_end_matches` with a single character: `s` with every
/// trailing `c` removed.
#[verifier::external_body]
pub(crate) fn str_trim_end_matches<'a>(s: &'a str, c: char) -> (r: &'a str)
    ensures
        r@ == trim_end_where(s@, |x: char| x == c),
{
    s.trim_end_matches(c)
}

/// `str::trim`: `s` without leading and trailing white space.
#[verifier::external_body]
pub(crate) fn str_trim<'a>(s: &'a str) -> (r: &'a str)
    ensures
        r@ == trim_ws(s@),
{
    s.trim()
}

} // verus!
