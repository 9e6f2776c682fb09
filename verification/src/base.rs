//! The conversion engine: which characters are digits of a base, what a
//! numeral is worth, how a value is written in a base, and which base a
//! numeral without a named base is taken to be in.

use vstd::prelude::*;
use vstd::utf8::is_ascii_chars;
use crate::errors::BaseError;
use crate::limbs::{limbs_value, parse_limbs, render_limbs};
use crate::numeral::{digit_of, is_numeral, numeral_value, radix_digits};
use crate::numeral::lemma_canonical_is_radix_digits;
use crate::opts::Base;
use crate::text::{lowered, unicode_lower};

verus! {

/// `c` is a digit of the base: `0` and `1` in binary, `0` to `7` in octal,
/// `0` to `9` in decimal, and in hexadecimal also `a` to `f` in either case.
pub open spec fn legal_digit(base: Base, c: char) -> bool {
    match base {
        Base::Bin => c == '0' || c == '1',
        Base::Oct => '0' <= c <= '7',
        Base::Dec => '0' <= c <= '9',
        Base::Hex => ('0' <= c <= '9') || ('a' <= c <= 'f') || ('A' <= c <= 'F'),
    }
}

/// `s` is made of digits of the base, and of at least one.
pub open spec fn legal_text(base: Base, s: Seq<char>) -> bool {
    s.len() > 0 && forall|i: int| 0 <= i < s.len() ==> legal_digit(base, #[trigger] s[i])
}

/// `s` begins with the prefix of the base, in either case: `0b` for binary,
/// `0o` for octal, `0x` for hexadecimal. Decimal has no prefix.
pub open spec fn has_prefix(s: Seq<char>, base: Base) -> bool {
    s.len() >= 2 && s[0] == '0' && match base {
        Base::Bin => s[1] == 'b' || s[1] == 'B',
        Base::Oct => s[1] == 'o' || s[1] == 'O',
        Base::Dec => false,
        Base::Hex => s[1] == 'x' || s[1] == 'X',
    }
}

/// The digits of `s` as a numeral of the base: what follows the prefix of
/// the base, or all of `s` where it has no such prefix.
pub open spec fn digit_body(s: Seq<char>, base: Base) -> Seq<char> {
    if has_prefix(s, base) {
        s.skip(2)
    } else {
        s
    }
}

/// `lower` begins with the prefix of the base in lower case: `0b` for binary,
/// `0o` for octal, `0x` for hexadecimal. Decimal has no prefix.
pub open spec fn has_lower_prefix(lower: Seq<char>, base: Base) -> bool {
    lower.len() >= 2 && lower[0] == '0' && match base {
        Base::Bin => lower[1] == 'b',
        Base::Oct => lower[1] == 'o',
        Base::Dec => false,
        Base::Hex => lower[1] == 'x',
    }
}

/// What is left of `value` once the prefix of the base is taken off, given
/// `lower`, the value in lower case: where `lower` begins with the prefix,
/// `lower` without its first two characters, and else `value` as it is, its
/// case kept.
pub open spec fn stripped(value: Seq<char>, lower: Seq<char>, base: Base) -> Seq<char> {
    if has_lower_prefix(lower, base) {
        lower.skip(2)
    } else {
        value
    }
}

/// Validation accepts `text` as a numeral of the base: its digits, once the
/// prefix of the base is taken off, are digits of the base, and at least one.
pub open spec fn accepts(base: Base, text: Seq<char>) -> bool {
    legal_text(base, digit_body(text, base))
}

/// The number that `text` denotes as a numeral of the base, or `None` where
/// validation does not accept it.
pub open spec fn parse(text: Seq<char>, base: Base) -> Option<nat> {
    if accepts(base, text) {
        Some(numeral_value(digit_body(text, base), base.radix_of()))
    } else {
        None
    }
}

/// The numeral that stands for `v` in the base: its digits, most significant
/// first, in lower case, without prefix and without leading zeros.
pub open spec fn render(v: nat, base: Base) -> Seq<char> {
    radix_digits(v, base.radix_of())
}

/// The message of the error that says which digits the base has.
pub open spec fn digits_message(base: Base) -> Seq<char> {
    match base {
        Base::Bin => "Binary: only include the digits 0 or 1."@,
        Base::Oct => "Octal: only enter the digits 0-7."@,
        Base::Dec => "Decimal: only enter the digits 0-9"@,
        Base::Hex => "Hexaxecimal: only enter the digita 0-9 and a-f"@,
    }
}

/// The digits of a base are the characters that are worth less than its
/// radix.
pub proof fn lemma_legal_digit_below_radix(base: Base, c: char)
    ensures
        legal_digit(base, c) <==> digit_of(c) < base.radix_of(),
{
}

/// The texts that are made of digits of a base are the numerals of its radix.
pub proof fn lemma_legal_text_is_numeral(base: Base, s: Seq<char>)
    ensures
        legal_text(base, s) <==> is_numeral(s, base.radix_of()),
{
    assert forall|i: int| 0 <= i < s.len() implies (legal_digit(base, #[trigger] s[i]) <==> digit_of(
        s[i],
    ) < base.radix_of()) by {
        lemma_legal_digit_below_radix(base, s[i]);
    }
}

/// A non-negative integer of any size.
///
/// It has no base of its own: a base is chosen when it is read from a numeral
/// and when it is written as one.
pub struct Value {
    /// The digits of the number in base 2^32, least significant first.
    limbs: Vec<u32>,
}

impl View for Value {
    type V = nat;

    /// The number itself.
    closed spec fn view(&self) -> nat {
        limbs_value(self.limbs@)
    }
}

impl Value {
    /// Reads `value` as a numeral of the base, with or without the prefix of
    /// the base.
    ///
    /// Fails, with the message that names the digits of the base, where
    /// validation does not accept `value`: where what follows the prefix is
    /// empty or holds a character that is no digit of the base.
    pub fn from(value: String, base: Base) -> (result: Result<Value, BaseError>)
        ensures
            match result {
                Ok(number) => parse(value@, base) == Some(number@),
                Err(e) => parse(value@, base) is None && e@ == digits_message(base),
            },
    {
        // Strip prefix if present
        let digits = digits_after_prefix(value.as_str(), base);
        if !is_valid_in(base, digits) {
            return Err(Value::get_parse_error(base));
        }
        proof {
            lemma_legal_text_is_numeral(base, digits@);
        }
        match parse_limbs(digits, base.radix()) {
            Some(limbs) => Ok(Value { limbs }),
            None => Err(Value::get_parse_error(base)),
        }
    }

    /// Writes the value as a numeral of the base: no prefix, no leading
    /// zeros, letters in lower case; zero is `"0"`.
    pub fn to_base(&self, base: Base) -> (text: String)
        ensures
            text@ == render(self@, base),
    {
        let text = render_limbs(&self.limbs, base.radix());
        proof {
            lemma_canonical_is_radix_digits(text@, base.radix_of());
        }
        text
    }

    /// Checks that `value` is a numeral of the base, with or without the
    /// prefix of the base: at least one digit, and digits of the base only.
    ///
    /// Fails otherwise, with the message that names the digits of the base.
    pub fn validate(base: Base, value: String) -> (result: Result<(), BaseError>)
        ensures
            match result {
                Ok(_) => accepts(base, value@),
                Err(e) => !accepts(base, value@) && e@ == digits_message(base),
            },
    {
        let digits = digits_after_prefix(value.as_str(), base);
        if is_valid_in(base, digits) {
            Ok(())
        } else {
            Err(Value::get_parse_error(base))
        }
    }

    /// The error that says which digits the base has.
    fn get_parse_error(base: Base) -> (e: BaseError)
        ensures
            e@ == digits_message(base),
    {
        match base {
            Base::Bin => BaseError::ParseError { message: "Binary: only include the digits 0 or 1." },
            Base::Oct => BaseError::ParseError { message: "Octal: only enter the digits 0-7." },
            Base::Dec => BaseError::ParseError { message: "Decimal: only enter the digits 0-9" },
            Base::Hex => BaseError::ParseError {
                message: "Hexaxecimal: only enter the digita 0-9 and a-f",
            },
        }
    }
}

/// Tells whether `c` is a digit of the base.
fn is_legal_digit(base: Base, c: char) -> (legal: bool)
    ensures
        legal == legal_digit(base, c),
{
    match base {
        Base::Bin => c == '0' || c == '1',
        Base::Oct => '0' <= c && c <= '7',
        Base::Dec => '0' <= c && c <= '9',
        Base::Hex => ('0' <= c && c <= '9') || ('a' <= c && c <= 'f') || ('A' <= c && c <= 'F'),
    }
}

/// Tells whether `value` is made of digits of the base, and of at least one.
fn is_valid_in(base: Base, value: &str) -> (valid: bool)
    ensures
        valid == legal_text(base, value@),
{
    if value.is_empty() {
        return false;
    }
    for c in it: value.chars()
        invariant
            it.seq() == value@,
            forall|i: int| 0 <= i < it.index() ==> legal_digit(base, #[trigger] value@[i]),
    {
        if !is_legal_digit(base, c) {
            return false;
        }
    }
    true
}

/// Tells whether `value` is a binary numeral: one or more of `0` and `1`.
pub fn is_valid_bin(value: &str) -> (valid: bool)
    ensures
        valid == legal_text(Base::Bin, value@),
{
    is_valid_in(Base::Bin, value)
}

/// Tells whether `value` is an octal numeral: one or more of `0` to `7`.
pub fn is_valid_oct(value: &str) -> (valid: bool)
    ensures
        valid == legal_text(Base::Oct, value@),
{
    is_valid_in(Base::Oct, value)
}

/// Tells whether `value` is a decimal numeral: one or more of `0` to `9`.
pub fn is_valid_dec(value: &str) -> (valid: bool)
    ensures
        valid == legal_text(Base::Dec, value@),
{
    is_valid_in(Base::Dec, value)
}

/// Tells whether `value` is a hexadecimal numeral: one or more of `0` to `9`
/// and of `a` to `f` in either case.
pub fn is_valid_hex(value: &str) -> (valid: bool)
    ensures
        valid == legal_text(Base::Hex, value@),
{
    is_valid_in(Base::Hex, value)
}

/// Tells whether `value` begins with the prefix of the base, in either case.
fn starts_with_prefix(value: &str, base: Base) -> (found: bool)
    ensures
        found == has_prefix(value@, base),
{
    let mut chars = value.chars();
    let first = chars.next();
    let second = chars.next();
    match (first, second) {
        (Some('0'), Some(c)) => match base {
            Base::Bin => c == 'b' || c == 'B',
            Base::Oct => c == 'o' || c == 'O',
            Base::Dec => false,
            Base::Hex => c == 'x' || c == 'X',
        },
        _ => false,
    }
}

/// Returns the digits of `value` as a numeral of the base: what follows the
/// prefix of the base, or all of `value` where it has no such prefix.
fn digits_after_prefix<'a>(value: &'a str, base: Base) -> (digits: &'a str)
    ensures
        digits@ == digit_body(value@, base),
{
    if starts_with_prefix(value, base) {
        let len = value.unicode_len();
        value.substring_char(2, len)
    } else {
        value
    }
}

/// Strips the prefix of the base from `value`, given `lower`, the value in
/// lower case.
///
/// Where `lower` begins with the prefix of the base, the result is `lower`
/// without its first two characters. Else it is `value` as it is.
pub fn strip_lowered(value: &str, lower: &str, base: Base) -> (body: String)
    ensures
        body@ == stripped(value@, lower@, base),
{
    let mut chars = lower.chars();
    let first = chars.next();
    let second = chars.next();
    let found = match (first, second) {
        (Some('0'), Some(c)) => match base {
            Base::Bin => c == 'b',
            Base::Oct => c == 'o',
            Base::Dec => false,
            Base::Hex => c == 'x',
        },
        _ => false,
    };
    if found {
        let len = lower.unicode_len();
        lower.substring_char(2, len).to_string()
    } else {
        value.to_string()
    }
}

/// Strip the prefix from a value for the given base
///
/// The prefix is looked for in the lower case of the value, as Unicode
/// defines lower case. Where it is found, the result is that lower case
/// without its first two characters. A value without the prefix of the base
/// comes back as it is, its case kept.
pub fn strip_prefix(value: &str, base: Base) -> (body: String)
    ensures
        body@ == stripped(value@, unicode_lower(value@), base),
        is_ascii_chars(value@) ==> body@ == stripped(value@, lowered(value@), base),
{
    let lower = value.to_lowercase();
    strip_lowered(value, lower.as_str(), base)
}

/// `c` is one of the letters that are digits in hexadecimal only.
pub open spec fn is_hex_letter(c: char) -> bool {
    ('a' <= c <= 'f') || ('A' <= c <= 'F')
}

/// `s` holds a letter that is a digit in hexadecimal only.
pub open spec fn has_hex_letter(s: Seq<char>) -> bool {
    exists|i: int| 0 <= i < s.len() && is_hex_letter(#[trigger] s[i])
}

/// The base that a numeral without a named base is taken to be in, or the
/// message of the error where it is taken to be in none.
///
/// A prefix decides first, and what follows it must be digits of its base.
/// Without a prefix, a letter from `a` to `f` makes the numeral hexadecimal,
/// and it must then be hexadecimal throughout; digits alone are decimal.
/// Binary and octal are never inferred without their prefix.
pub open spec fn detect(text: Seq<char>) -> Result<Base, Seq<char>> {
    if has_prefix(text, Base::Bin) {
        if legal_text(Base::Bin, text.skip(2)) {
            Ok(Base::Bin)
        } else {
            Err("Invalid binary number after 0b prefix"@)
        }
    } else if has_prefix(text, Base::Oct) {
        if legal_text(Base::Oct, text.skip(2)) {
            Ok(Base::Oct)
        } else {
            Err("Invalid octal number after 0o prefix"@)
        }
    } else if has_prefix(text, Base::Hex) {
        if legal_text(Base::Hex, text.skip(2)) {
            Ok(Base::Hex)
        } else {
            Err("Invalid hexadecimal number after 0x prefix"@)
        }
    } else if has_hex_letter(text) {
        if legal_text(Base::Hex, text) {
            Ok(Base::Hex)
        } else {
            Err("Invalid hexadecimal number"@)
        }
    } else if legal_text(Base::Dec, text) {
        Ok(Base::Dec)
    } else {
        Err("Unable to detect base"@)
    }
}

/// Tells whether `value` holds a letter from `a` to `f`, in either case.
fn has_hex_letters(value: &str) -> (found: bool)
    ensures
        found == has_hex_letter(value@),
{
    for c in it: value.chars()
        invariant
            it.seq() == value@,
            forall|i: int| 0 <= i < it.index() ==> !is_hex_letter(#[trigger] value@[i]),
    {
        if ('a' <= c && c <= 'f') || ('A' <= c && c <= 'F') {
            return true;
        }
    }
    false
}

/// Detect the base of a value using prefix-based detection.
///
/// Detection rules:
/// 1. `0b` prefix → Binary
/// 2. `0o` prefix → Octal
/// 3. `0x` prefix → Hexadecimal
/// 4. Contains a-f letters → Hexadecimal
/// 5. Otherwise → Decimal (the most common case)
///
/// The first rule that applies decides. After a prefix, what follows must
/// be digits of its base; with a letter a-f, the whole value must be
/// hexadecimal digits; otherwise the whole value must be decimal digits.
/// Where that fails, and so for the empty value, the result is an error whose
/// message says which rule failed.
pub fn detect_base(value: &str) -> (result: Result<Base, BaseError>)
    ensures
        match result {
            Ok(base) => detect(value@) == Ok::<Base, Seq<char>>(base),
            Err(e) => detect(value@) == Err::<Base, Seq<char>>(e@),
        },
{
    // Check for explicit prefixes first
    if starts_with_prefix(value, Base::Bin) {
        let digits = digits_after_prefix(value, Base::Bin);
        if is_valid_bin(digits) {
            return Ok(Base::Bin);
        } else {
            return Err(BaseError::ParseError { message: "Invalid binary number after 0b prefix" });
        }
    }
    if starts_with_prefix(value, Base::Oct) {
        let digits = digits_after_prefix(value, Base::Oct);
        if is_valid_oct(digits) {
            return Ok(Base::Oct);
        } else {
            return Err(BaseError::ParseError { message: "Invalid octal number after 0o prefix" });
        }
    }
    if starts_with_prefix(value, Base::Hex) {
        let digits = digits_after_prefix(value, Base::Hex);
        if is_valid_hex(digits) {
            return Ok(Base::Hex);
        } else {
            return Err(
                BaseError::ParseError { message: "Invalid hexadecimal number after 0x prefix" },
            );
        }
    }
    // If it contains hex letters (a-f), it must be hex
    if has_hex_letters(value) {
        if is_valid_hex(value) {
            return Ok(Base::Hex);
        } else {
            return Err(BaseError::ParseError { message: "Invalid hexadecimal number" });
        }
    }
    // Default to decimal for pure numeric input
    if is_valid_dec(value) {
        return Ok(Base::Dec);
    }
    Err(BaseError::ParseError { message: "Unable to detect base" })
}

} // verus!
