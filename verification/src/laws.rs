//! What holds of reading and writing numerals for every value, every base and
//! every text.

use vstd::prelude::*;
use crate::base::{accepts, detect, digit_body, has_prefix, is_hex_letter, legal_digit, legal_text};
use crate::base::{lemma_legal_text_is_numeral, parse, render, stripped};
use crate::numeral::{digit_char, digit_of, is_canonical, numeral_value};
use crate::numeral::{lemma_canonical_is_radix_digits, lemma_radix_digits_shortest};
use crate::numeral::{lemma_leading_zero_value, lemma_same_digits_same_value};
use crate::numeral::{lemma_radix_digits_leading, lemma_radix_digits_numeral, lemma_radix_digits_value};
use crate::opts::Base;
use crate::text::{ascii_lower, lowered};

verus! {

/// Two texts are the same but for the case of their ASCII letters.
pub open spec fn same_ignoring_case(s: Seq<char>, t: Seq<char>) -> bool {
    s.len() == t.len() && forall|i: int|
        0 <= i < s.len() ==> ascii_lower(#[trigger] s[i]) == ascii_lower(t[i])
}

/// A written value is free of leading zeros and of a prefix: it is `"0"`, or
/// it begins with a digit other than `0`.
pub proof fn lemma_render_is_canonical(v: nat, base: Base)
    ensures
        legal_text(base, render(v, base)),
        v == 0 ==> render(v, base) == seq!['0'],
        v > 0 ==> render(v, base)[0] != '0',
        !has_prefix(render(v, base), base),
{
    let radix = base.radix_of();
    lemma_radix_digits_numeral(v, radix);
    lemma_radix_digits_leading(v, radix);
    lemma_legal_text_is_numeral(base, render(v, base));
}

/// Reading what was written gives the value back: a value written in a base
/// and read in that base again is the same value.
pub proof fn lemma_render_then_parse(v: nat, base: Base)
    ensures
        parse(render(v, base), base) == Some(v),
{
    lemma_render_is_canonical(v, base);
    lemma_radix_digits_value(v, base.radix_of());
}

/// Writing what was read gives the text back, where the text is a numeral in
/// shortest form and lower case: digits of the base only, no zero in front
/// unless it is the one digit `0`, and no capital letter.
pub proof fn lemma_parse_then_render(text: Seq<char>, base: Base)
    requires
        legal_text(base, text),
        text.len() > 1 ==> text[0] != '0',
        lowered(text) == text,
    ensures
        parse(text, base) matches Some(v) && render(v, base) == text,
{
    let radix = base.radix_of();
    lemma_legal_text_is_numeral(base, text);
    assert(!has_prefix(text, base));
    assert forall|i: int| 0 <= i < text.len() implies digit_char(digit_of(#[trigger] text[i]))
        == text[i] by {
        assert(legal_digit(base, text[i]));
        assert(lowered(text)[i] == ascii_lower(text[i]));
    }
    assert(is_canonical(text, radix));
    lemma_canonical_is_radix_digits(text, radix);
}

/// A written value is as short as a numeral of its value can be: no text
/// that reads as the value has fewer digits.
pub proof fn lemma_render_is_shortest(text: Seq<char>, base: Base)
    requires
        accepts(base, text),
    ensures
        parse(text, base) matches Some(v) && render(v, base).len() <= digit_body(text, base).len()
            <= text.len(),
{
    let body = digit_body(text, base);
    lemma_legal_text_is_numeral(base, body);
    lemma_radix_digits_shortest(body, base.radix_of());
}

/// No base accepts the empty text.
pub proof fn lemma_empty_text_is_rejected(base: Base, text: Seq<char>)
    requires
        text.len() == 0,
    ensures
        !accepts(base, text),
        parse(text, base) is None,
{
}

/// Lower case does not change whether a text is made of digits of a base.
pub proof fn lemma_lowered_legal_text(base: Base, s: Seq<char>)
    ensures
        legal_text(base, lowered(s)) == legal_text(base, s),
{
    let l = lowered(s);
    assert forall|i: int| 0 <= i < s.len() implies (legal_digit(base, #[trigger] l[i])
        == legal_digit(base, s[i])) by {}
    if legal_text(base, s) {
        assert forall|i: int| 0 <= i < l.len() implies legal_digit(base, #[trigger] l[i]) by {
            assert(legal_digit(base, s[i]));
        }
    }
    if legal_text(base, l) {
        assert forall|i: int| 0 <= i < s.len() implies legal_digit(base, #[trigger] s[i]) by {
            assert(legal_digit(base, l[i]));
        }
    }
}

/// What is left of a value once its prefix is stripped by way of its lower
/// case is accepted where the value is, and denotes what the value denotes.
pub proof fn lemma_stripped_reads_alike(text: Seq<char>, base: Base)
    ensures
        legal_text(base, stripped(text, lowered(text), base)) == accepts(base, text),
        numeral_value(stripped(text, lowered(text), base), base.radix_of()) == numeral_value(
            digit_body(text, base),
            base.radix_of(),
        ),
{
    let lower = lowered(text);
    if text.len() >= 2 {
        assert(lower[0] == ascii_lower(text[0]));
        assert(lower[1] == ascii_lower(text[1]));
    }
    if has_prefix(text, base) {
        let body = text.skip(2);
        assert(lower.skip(2) =~= lowered(body));
        lemma_lowered_legal_text(base, body);
        lemma_same_digits_same_value(lowered(body), body, base.radix_of());
    }
}

/// The case of letters does not matter to validation or to reading, in the
/// prefix or in the digits: two texts that differ in case only are accepted
/// or rejected together, and denote the same value.
pub proof fn lemma_parse_ignores_case(s: Seq<char>, t: Seq<char>, base: Base)
    requires
        same_ignoring_case(s, t),
    ensures
        accepts(base, s) == accepts(base, t),
        parse(s, base) == parse(t, base),
{
    let s_body = digit_body(s, base);
    let t_body = digit_body(t, base);
    if s.len() >= 2 {
        assert(ascii_lower(s[0]) == ascii_lower(t[0]));
        assert(ascii_lower(s[1]) == ascii_lower(t[1]));
    }
    assert(has_prefix(s, base) == has_prefix(t, base));
    assert(same_ignoring_case(s_body, t_body)) by {
        if has_prefix(s, base) {
            assert forall|i: int| 0 <= i < s_body.len() implies ascii_lower(#[trigger] s_body[i])
                == ascii_lower(t_body[i]) by {
                assert(ascii_lower(s[i + 2]) == ascii_lower(t[i + 2]));
            }
        }
    }
    lemma_lowered_legal_text(base, s_body);
    lemma_lowered_legal_text(base, t_body);
    assert(lowered(s_body) =~= lowered(t_body));
    assert forall|i: int| 0 <= i < s_body.len() implies digit_of(#[trigger] s_body[i]) == digit_of(
        t_body[i],
    ) by {
        assert(ascii_lower(s_body[i]) == ascii_lower(t_body[i]));
    }
    lemma_same_digits_same_value(s_body, t_body, base.radix_of());
}

/// Leading zeros are absorbed: a zero in front of the digits of a numeral
/// leaves a numeral of the same value.
pub proof fn lemma_leading_zero_is_absorbed(digits: Seq<char>, base: Base)
    requires
        legal_text(base, digits),
    ensures
        parse(seq!['0'] + digits, base) == parse(digits, base),
        parse(digits, base) == Some(numeral_value(digits, base.radix_of())),
{
    let padded = seq!['0'] + digits;
    assert(legal_digit(base, digits[0]));
    assert(padded[1] == digits[0]);
    assert(!has_prefix(padded, base));
    assert(!has_prefix(digits, base)) by {
        if digits.len() >= 2 {
            assert(legal_digit(base, digits[1]));
        }
    }
    assert forall|i: int| 0 <= i < padded.len() implies legal_digit(base, #[trigger] padded[i]) by {
        if i > 0 {
            assert(padded[i] == digits[i - 1]);
            assert(legal_digit(base, digits[i - 1]));
        }
    }
    lemma_leading_zero_value(digits, base.radix_of());
}

/// A text in which a base is detected is a numeral of that base: validation
/// accepts it, and reading it gives a value.
pub proof fn lemma_detected_base_accepts(text: Seq<char>)
    ensures
        detect(text) matches Ok(base) ==> accepts(base, text) && parse(text, base) is Some,
{
    match detect(text) {
        Ok(base) => {
            if has_prefix(text, base) {
                assert(legal_text(base, text.skip(2)));
            } else {
                if base == Base::Hex {
                    assert(legal_text(Base::Hex, text));
                } else {
                    assert(base == Base::Dec);
                }
            }
        },
        Err(_) => {},
    }
}

/// Binary and octal are detected by their prefix only.
pub proof fn lemma_detect_needs_prefix(text: Seq<char>)
    ensures
        detect(text) == Ok::<Base, Seq<char>>(Base::Bin) ==> has_prefix(text, Base::Bin),
        detect(text) == Ok::<Base, Seq<char>>(Base::Oct) ==> has_prefix(text, Base::Oct),
{
}

/// Decimal digits alone are decimal, also where each of them is a binary or
/// an octal digit too.
pub proof fn lemma_digits_alone_are_decimal(text: Seq<char>)
    requires
        legal_text(Base::Dec, text),
    ensures
        detect(text) == Ok::<Base, Seq<char>>(Base::Dec),
{
    if text.len() >= 2 {
        assert(legal_digit(Base::Dec, text[1]));
    }
    assert forall|i: int| 0 <= i < text.len() implies !is_hex_letter(#[trigger] text[i]) by {
        assert(legal_digit(Base::Dec, text[i]));
    }
}

} // verus!
