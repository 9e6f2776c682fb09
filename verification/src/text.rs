//! Characters and strings: lower case, as ASCII has it and as Unicode has it.

use vstd::prelude::*;
use vstd::utf8::is_ascii_chars;

verus! {

/// `c` in lower case if it is an ASCII capital letter, else `c` itself.
pub open spec fn ascii_lower(c: char) -> char {
    if 'A' <= c <= 'Z' {
        (c as int + 32) as char
    } else {
        c
    }
}

/// `s` with its ASCII capital letters in lower case.
pub open spec fn lowered(s: Seq<char>) -> Seq<char> {
    Seq::new(s.len(), |i: int| ascii_lower(s[i]))
}

/// The lower case of `s` as Unicode defines it, which is what
/// `str::to_lowercase` of the standard library returns for `s`. A character
/// may become several, so the length may change.
pub uninterp spec fn unicode_lower(s: Seq<char>) -> Seq<char>;

/// `str::to_lowercase` of the standard library returns the Unicode lower case
/// of the string, which depends on the string alone. On a string of ASCII
/// characters that is the string with each capital letter replaced by its
/// small letter and every other character kept.
pub assume_specification[ str::to_lowercase ](s: &str) -> (lower: String)
    ensures
        lower@ == unicode_lower(s@),
        is_ascii_chars(s@) ==> lower@ == lowered(s@),
;

} // verus!
