//! Text conversions done by the standard library.

use vstd::prelude::*;

use vstd::string::StrSliceExecFns;

verus! {

/// The characters `String::from_utf8_lossy` reads from `bytes`.
pub uninterp spec fn lossy_utf8(bytes: Seq<u8>) -> Seq<char>;

/// Decodes bytes as UTF-8 with `String::from_utf8_lossy`, replacing invalid sequences.
///
/// Trusted: the result is named by `lossy_utf8`; for valid UTF-8 the standard library
/// documents that the input is returned unchanged, so the result is its decoding.
#[verifier::external_body]
pub(crate) fn string_from_utf8_lossy(bytes: &[u8]) -> (r: String)
    ensures
        r@ == lossy_utf8(bytes@),
        vstd::utf8::valid_utf8(bytes@) ==> r@ == vstd::utf8::decode_utf8(bytes@),
{
    String::from_utf8_lossy(bytes).into_owned()
}

/// The string that `str::trim` leaves of `s`.
pub uninterp spec fn trimmed(s: Seq<char>) -> Seq<char>;

/// Whether a character has the Unicode property White_Space, by which `str::trim`
/// defines whitespace (U+0009..U+000D, U+0020, U+0085, U+00A0, U+1680, U+2000..U+200A,
/// U+2028, U+2029, U+202F, U+205F, U+3000).
pub open spec fn is_white_space(c: char) -> bool {
    let u = c as u32;
    ||| 0x9 <= u <= 0xD
    ||| u == 0x20 || u == 0x85 || u == 0xA0 || u == 0x1680
    ||| 0x2000 <= u <= 0x200A
    ||| u == 0x2028 || u == 0x2029 || u == 0x202F || u == 0x205F || u == 0x3000
}

/// `t` is `s` without its leading and trailing whitespace: a piece `s[i..j]` of `s`
/// with only whitespace before and after it, starting and ending with a character
/// that is no whitespace.
pub open spec fn is_trim_of(s: Seq<char>, t: Seq<char>) -> bool {
    exists|i: int, j: int| #[trigger] s.subrange(i, j) == t && {
        &&& 0 <= i <= j <= s.len()
        &&& forall|k: int| 0 <= k < i ==> is_white_space(#[trigger] s[k])
        &&& forall|k: int| j <= k < s.len() ==> is_white_space(#[trigger] s[k])
        &&& i < j ==> !is_white_space(s[i]) && !is_white_space(s[j - 1])
    }
}

/// Removes leading and trailing whitespace with `str::trim`.
///
/// Trusted: the result is named by `trimmed`, and is `s` without its leading and
/// trailing White_Space characters, the property the documentation of `str::trim`
/// names.
#[verifier::external_body]
pub(crate) fn trim_str(s: &str) -> (r: &str)
    ensures
        r@ == trimmed(s@),
        is_trim_of(s@, r@),
{
    s.trim()
}

/// The string that `str::to_lowercase` makes of `s` (full Unicode case mapping).
pub uninterp spec fn lowercased(s: Seq<char>) -> Seq<char>;

/// Whether every character is an ASCII character.
pub open spec fn all_ascii(t: Seq<char>) -> bool {
    forall|i: int| 0 <= i < t.len() ==> (#[trigger] t[i] as u32) < 128
}

/// Lowercases a string with `str::to_lowercase`.
///
/// Trusted: the result is named by `lowercased`; of an ASCII string it is the ASCII
/// lowercase form (the Unicode Lowercase mapping the documentation names takes `A`..`Z`
/// to `a`..`z` and leaves every other ASCII character alone). Nothing more is stated of
/// other strings.
#[verifier::external_body]
pub(crate) fn lowercase_str(s: &str) -> (r: String)
    ensures
        r@ == lowercased(s@),
        all_ascii(s@) ==> r@ == ascii_lowercase(s@),
{
    s.to_lowercase()
}

/// Appends one character with `String::push`.
///
/// Trusted: the string afterwards is the old one followed by `c`.
#[verifier::external_body]
pub(crate) fn push_char(s: &mut String, c: char)
    ensures
        final(s)@ == old(s)@.push(c),
{
    s.push(c);
}

/// The ASCII lowercase form of a character (`char::to_ascii_lowercase`).
pub open spec fn ascii_lower(c: char) -> char {
    if 'A' <= c && c <= 'Z' {
        ((c as u32) + 32) as char
    } else {
        c
    }
}

/// The ASCII lowercase form of a string (`str::to_ascii_lowercase`).
pub open spec fn ascii_lowercase(s: Seq<char>) -> Seq<char> {
    s.map_values(|c: char| ascii_lower(c))
}

/// Whether `s` holds exactly the characters of `t`.
pub fn str_equals_chars(s: &str, t: &[char]) -> (r: bool)
    ensures
        r == (s@ == t@),
{
    let n = s.unicode_len();
    if n != t.len() {
        return false;
    }
    let mut i: usize = 0;
    while i < n
        invariant
            n == s@.len(),
            n == t@.len(),
            i <= n,
            forall|j: int| 0 <= j < i ==> s@[j] == t@[j],
        decreases n - i,
    {
        if s.get_char(i) != t[i] {
            return false;
        }
        i = i + 1;
    }
    assert(s@ =~= t@);
    true
}

/// Whether the ASCII lowercase form of `s` is `t`.
pub fn ascii_lower_equals(s: &str, t: &[char]) -> (r: bool)
    ensures
        r == (ascii_lowercase(s@) == t@),
{
    let n = s.unicode_len();
    if n != t.len() {
        return false;
    }
    let mut i: usize = 0;
    while i < n
        invariant
            n == s@.len(),
            n == t@.len(),
            i <= n,
            forall|j: int| 0 <= j < i ==> ascii_lower(s@[j]) == t@[j],
        decreases n - i,
    {
        let c = s.get_char(i);
        let lc = if 'A' <= c && c <= 'Z' {
            char_from_lower(c)
        } else {
            c
        };
        if lc != t[i] {
            assert(ascii_lowercase(s@)[i as int] != t@[i as int]);
            return false;
        }
        i = i + 1;
    }
    assert(ascii_lowercase(s@) =~= t@);
    true
}

/// The lowercase letter of an ASCII uppercase letter.
fn char_from_lower(c: char) -> (r: char)
    requires
        'A' <= c <= 'Z',
    ensures
        r == ascii_lower(c),
{
    let u: u8 = c as u8;
    let l: u8 = u + 32;
    l as char
}

} // verus!
