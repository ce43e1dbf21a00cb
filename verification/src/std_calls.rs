//! The few standard-library calls whose results the proofs speak of.

use vstd::prelude::*;

verus! {

/// Whether every character of `s` is ASCII.
pub open spec fn all_ascii(s: Seq<char>) -> bool {
    forall|i: int| 0 <= i < s.len() ==> (s[i] as u32) < 128
}

/// `c` lowered when it is an ASCII capital, unchanged otherwise.
pub open spec fn ascii_lower_char(c: char) -> char {
    if 'A' <= c && c <= 'Z' {
        ((c as u32) + 32) as char
    } else {
        c
    }
}

/// `c` raised when it is an ASCII small letter, unchanged otherwise.
pub open spec fn ascii_upper_char(c: char) -> char {
    if 'a' <= c && c <= 'z' {
        ((c as u32) - 32) as char
    } else {
        c
    }
}

/// What `str::to_lowercase` answers for text that is not all ASCII.
pub uninterp spec fn spec_unicode_lowercase(s: Seq<char>) -> Seq<char>;

/// What `str::to_uppercase` answers for text that is not all ASCII.
pub uninterp spec fn spec_unicode_uppercase(s: Seq<char>) -> Seq<char>;

/// What `char::to_uppercase` yields, collected, for a character that is not ASCII.
pub uninterp spec fn spec_unicode_char_uppercase(c: char) -> Seq<char>;

/// What `str::to_lowercase` answers for `s`: for text that is all ASCII, Unicode lowercasing is
/// ASCII lowercasing; for any other text the result is named.
pub open spec fn spec_lowercase(s: Seq<char>) -> Seq<char> {
    if all_ascii(s) {
        s.map_values(|c: char| ascii_lower_char(c))
    } else {
        spec_unicode_lowercase(s)
    }
}

/// What `str::to_uppercase` answers for `s`: ASCII uppercasing for text that is all ASCII, named
/// for any other.
pub open spec fn spec_uppercase(s: Seq<char>) -> Seq<char> {
    if all_ascii(s) {
        s.map_values(|c: char| ascii_upper_char(c))
    } else {
        spec_unicode_uppercase(s)
    }
}

/// What `char::to_uppercase` yields for `c`, collected: the ASCII capital of an ASCII
/// character (itself when it has none), named for any other.
pub open spec fn spec_char_uppercase(c: char) -> Seq<char> {
    if (c as u32) < 128 {
        seq![ascii_upper_char(c)]
    } else {
        spec_unicode_char_uppercase(c)
    }
}

/// `str::to_lowercase`.
#[verifier::external_body]
pub fn lowercase(s: &str) -> (r: String)
    ensures
        r@ == spec_lowercase(s@),
        !all_ascii(s@) ==> r@ == spec_unicode_lowercase(s@),
{
    s.to_lowercase()
}

/// `str::to_uppercase`.
#[verifier::external_body]
pub fn uppercase(s: &str) -> (r: String)
    ensures
        r@ == spec_uppercase(s@),
        !all_ascii(s@) ==> r@ == spec_unicode_uppercase(s@),
{
    s.to_uppercase()
}

/// `char::to_uppercase`, collected into a string.
#[verifier::external_body]
pub fn char_uppercase(c: char) -> (r: String)
    ensures
        r@ == spec_char_uppercase(c),
        (c as u32) >= 128 ==> r@ == spec_unicode_char_uppercase(c),
{
    c.to_uppercase().collect::<String>()
}

/// `String::push`: the character goes on the end.
#[verifier::external_body]
pub fn push_char(s: &mut String, c: char)
    ensures
        final(s)@ == old(s)@.push(c),
{
    s.push(c);
}

/// What `char::is_alphanumeric` answers for `c`.
pub uninterp spec fn spec_alphanumeric(c: char) -> bool;

/// `char::is_alphanumeric`: a letter or a number in Unicode's sense. Its result is named; for an
/// ASCII character it is an ASCII letter or digit, which is the one fact stated beside the name.
#[verifier::external_body]
pub fn alphanumeric(c: char) -> (r: bool)
    ensures
        r == spec_alphanumeric(c),
        (c as u32) < 128 ==> r == (('a' <= c && c <= 'z') || ('A' <= c && c <= 'Z') || ('0' <= c
            && c <= '9')),
{
    c.is_alphanumeric()
}

} // verus!
