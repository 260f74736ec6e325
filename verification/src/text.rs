//! Character and string primitives from std that the case conversions use.
//!
//! The ASCII part of each mapping is stated exactly; beyond ASCII the Unicode
//! tables decide, and their result is named.
use vstd::prelude::*;

verus! {

/// Unicode uppercase mapping of a non-ASCII character (what `char::to_uppercase`
/// yields), as its first character and the characters after it.
pub uninterp spec fn unicode_upper(c: char) -> (char, Seq<char>);

/// Unicode lowercase mapping of a non-ASCII character (what `char::to_lowercase`
/// yields), as its first character and the characters after it.
pub uninterp spec fn unicode_lower(c: char) -> (char, Seq<char>);

/// The Unicode `Uppercase` property of a non-ASCII character.
pub uninterp spec fn unicode_is_upper(c: char) -> bool;

/// The Unicode `Lowercase` property of a non-ASCII character.
pub uninterp spec fn unicode_is_lower(c: char) -> bool;

/// Unicode lowercase form of a string that holds a non-ASCII character
/// (what `str::to_lowercase` returns).
pub uninterp spec fn unicode_str_lower(s: Seq<char>) -> Seq<char>;

/// `c` is an ASCII character.
pub open spec fn is_ascii_char(c: char) -> bool {
    (c as u32) < 128
}

/// `c` is an ASCII uppercase letter.
pub open spec fn is_ascii_upper(c: char) -> bool {
    'A' <= c && c <= 'Z'
}

/// `c` is an ASCII lowercase letter.
pub open spec fn is_ascii_lower(c: char) -> bool {
    'a' <= c && c <= 'z'
}

/// `c` is an ASCII decimal digit.
pub open spec fn is_ascii_digit(c: char) -> bool {
    '0' <= c && c <= '9'
}

/// ASCII uppercase of a character (letters `a..z` shift, all else unchanged).
pub open spec fn ascii_upper(c: char) -> char {
    if is_ascii_lower(c) {
        ((c as u32) - 32) as char
    } else {
        c
    }
}

/// ASCII lowercase of a character (letters `A..Z` shift, all else unchanged).
pub open spec fn ascii_lower(c: char) -> char {
    if is_ascii_upper(c) {
        ((c as u32) + 32) as char
    } else {
        c
    }
}

/// What `char::to_uppercase` yields for `c`.
pub open spec fn upper_of(c: char) -> Seq<char> {
    if is_ascii_char(c) {
        seq![ascii_upper(c)]
    } else {
        seq![unicode_upper(c).0] + unicode_upper(c).1
    }
}

/// What `char::to_lowercase` yields for `c`.
pub open spec fn lower_of(c: char) -> Seq<char> {
    if is_ascii_char(c) {
        seq![ascii_lower(c)]
    } else {
        seq![unicode_lower(c).0] + unicode_lower(c).1
    }
}

/// Whether `char::is_uppercase` holds of `c`.
pub open spec fn is_upper(c: char) -> bool {
    if is_ascii_char(c) {
        is_ascii_upper(c)
    } else {
        unicode_is_upper(c)
    }
}

/// Whether `char::is_lowercase` holds of `c`.
pub open spec fn is_lower(c: char) -> bool {
    if is_ascii_char(c) {
        is_ascii_lower(c)
    } else {
        unicode_is_lower(c)
    }
}

/// Calls `char::to_uppercase`. On ASCII it maps `a..z` to `A..Z` and leaves
/// every other character as it is; beyond ASCII the result is named by
/// `unicode_upper(c)`. It always yields at least one character (a character
/// without a mapping yields itself).
#[verifier::external_body]
pub(crate) fn char_to_uppercase(c: char) -> (r: Vec<char>)
    ensures
        is_ascii_char(c) ==> r@ == seq![ascii_upper(c)],
        !is_ascii_char(c) ==> r@ == seq![unicode_upper(c).0] + unicode_upper(c).1,
{
    c.to_uppercase().collect()
}

/// Calls `char::to_lowercase`. On ASCII it maps `A..Z` to `a..z` and leaves
/// every other character as it is; beyond ASCII the result is named by
/// `unicode_lower(c)`. It always yields at least one character (a character
/// without a mapping yields itself).
#[verifier::external_body]
pub(crate) fn char_to_lowercase(c: char) -> (r: Vec<char>)
    ensures
        is_ascii_char(c) ==> r@ == seq![ascii_lower(c)],
        !is_ascii_char(c) ==> r@ == seq![unicode_lower(c).0] + unicode_lower(c).1,
{
    c.to_lowercase().collect()
}

/// Calls `char::is_uppercase`: on ASCII exactly the letters `A..Z`;
/// beyond ASCII the result is `unicode_is_upper(c)`.
#[verifier::external_body]
pub(crate) fn char_is_uppercase(c: char) -> (r: bool)
    ensures
        is_ascii_char(c) ==> r == is_ascii_upper(c),
        !is_ascii_char(c) ==> r == unicode_is_upper(c),
{
    c.is_uppercase()
}

/// Calls `char::is_lowercase`: on ASCII exactly the letters `a..z`;
/// beyond ASCII the result is `unicode_is_lower(c)`.
#[verifier::external_body]
pub(crate) fn char_is_lowercase(c: char) -> (r: bool)
    ensures
        is_ascii_char(c) ==> r == is_ascii_lower(c),
        !is_ascii_char(c) ==> r == unicode_is_lower(c),
{
    c.is_lowercase()
}

/// Every character of `s` is ASCII.
pub open spec fn all_ascii(s: Seq<char>) -> bool {
    forall|i: int| 0 <= i < s.len() ==> is_ascii_char(#[trigger] s[i])
}

/// What `str::to_lowercase` returns for `s`.
pub open spec fn lowercase_of(s: Seq<char>) -> Seq<char> {
    if all_ascii(s) {
        s.map_values(|c: char| ascii_lower(c))
    } else {
        unicode_str_lower(s)
    }
}

/// Calls `str::to_lowercase`. On an ASCII string it lowers `A..Z` and keeps
/// every other character; for a string with a non-ASCII character the result
/// is named by `unicode_str_lower`.
#[verifier::external_body]
pub(crate) fn str_to_lowercase(s: &str) -> (r: String)
    ensures
        all_ascii(s@) ==> r@ == s@.map_values(|c: char| ascii_lower(c)),
        !all_ascii(s@) ==> r@ == unicode_str_lower(s@),
{
    s.to_lowercase()
}

/// The characters of a string.
pub fn chars_of(s: &str) -> (v: Vec<char>)
    ensures
        v@ == s@,
{
    let mut v: Vec<char> = Vec::new();
    let ghost whole = s@;
    for c in it: s.chars()
        invariant
            it.seq() == whole,
            0 <= it.index() <= whole.len(),
            v@ == whole.take(it.index()),
    {
        assert(whole.take(it.index() + 1) =~= whole.take(it.index()).push(c));
        v.push(c);
    }
    assert(whole.take(whole.len() as int) =~= whole);
    v
}

/// Whether `a` begins with the first `m` characters of `b`.
fn prefix_matches(a: &Vec<char>, b: &Vec<char>, m: usize) -> (r: bool)
    requires
        m <= a.len(),
        m <= b.len(),
    ensures
        r == (a@.take(m as int) == b@.take(m as int)),
{
    let mut i: usize = 0;
    while i < m
        invariant
            m <= a.len(),
            m <= b.len(),
            i <= m,
            forall|k: int| 0 <= k < i ==> a@[k] == b@[k],
        decreases m - i,
    {
        if a[i] != b[i] {
            assert(a@.take(m as int)[i as int] != b@.take(m as int)[i as int]);
            return false;
        }
        i = i + 1;
    }
    assert(a@.take(m as int) =~= b@.take(m as int));
    true
}

/// Whether two strings hold the same characters.
pub fn str_eq(a: &str, b: &str) -> (r: bool)
    ensures
        r == (a@ == b@),
{
    let x = chars_of(a);
    let y = chars_of(b);
    if x.len() != y.len() {
        return false;
    }
    let r = prefix_matches(&x, &y, x.len());
    assert(x@.take(x.len() as int) =~= x@);
    assert(y@.take(y.len() as int) =~= y@);
    r
}

/// `s` begins with `p`.
pub open spec fn starts_with(s: Seq<char>, p: Seq<char>) -> bool {
    p.len() <= s.len() && s.take(p.len() as int) == p
}

/// Whether `s` begins with `p`.
pub fn str_starts_with(s: &str, p: &str) -> (r: bool)
    ensures
        r == starts_with(s@, p@),
{
    let x = chars_of(s);
    let y = chars_of(p);
    if y.len() > x.len() {
        return false;
    }
    let r = prefix_matches(&x, &y, y.len());
    assert(y@.take(y.len() as int) =~= y@);
    r
}

/// Builds a `String` from its characters (`FromIterator<char>` for `String`):
/// the string holds exactly these characters in this order.
#[verifier::external_body]
pub(crate) fn string_from_chars(v: &Vec<char>) -> (s: String)
    ensures
        s@ == v@,
{
    v.iter().collect()
}

/// Uppercasing an ASCII lowercase letter gives an ASCII uppercase letter that
/// lowercases back to it.
pub proof fn lemma_ascii_letter_case(c: char)
    requires
        is_ascii_lower(c),
    ensures
        is_ascii_char(ascii_upper(c)),
        is_ascii_upper(ascii_upper(c)),
        ascii_lower(ascii_upper(c)) == c,
        upper_of(c) == seq![ascii_upper(c)],
        is_upper(ascii_upper(c)),
        lower_of(ascii_upper(c)) == seq![c],
{
}

} // verus!
