//! Positional notation: what a digit is worth, what a string of digits is
//! worth in a radix, and the shortest string of digits that is worth a given
//! number.

use vstd::prelude::*;
use vstd::arithmetic::div_mod::{lemma_div_decreases, lemma_fundamental_div_mod, lemma_mod_bound};
use vstd::arithmetic::div_mod::{lemma_div_non_zero, lemma_fundamental_div_mod_converse};

verus! {

/// What `c` is worth as a digit: 0 to 9 for `'0'` to `'9'`, 10 to 35 for the
/// letters `'a'` to `'z'` in either case, and 36, which is no digit in any
/// radix up to 36, for every other character.
pub open spec fn digit_of(c: char) -> nat {
    if '0' <= c <= '9' {
        (c as int - '0' as int) as nat
    } else if 'a' <= c <= 'z' {
        (c as int - 'a' as int + 10) as nat
    } else if 'A' <= c <= 'Z' {
        (c as int - 'A' as int + 10) as nat
    } else {
        36
    }
}

/// The character that stands for the digit `d`: `'0'` to `'9'`, then the
/// lower-case letters from `'a'`.
pub open spec fn digit_char(d: nat) -> char {
    if d < 10 {
        ('0' as int + d) as char
    } else {
        ('a' as int + d - 10) as char
    }
}

/// Every character of `s` is a digit of the radix.
pub open spec fn all_digits(s: Seq<char>, radix: nat) -> bool {
    forall|i: int| 0 <= i < s.len() ==> digit_of(#[trigger] s[i]) < radix
}

/// `s` is a numeral of the radix: at least one character, and digits only.
pub open spec fn is_numeral(s: Seq<char>, radix: nat) -> bool {
    s.len() > 0 && all_digits(s, radix)
}

/// The number that the digits of `s` denote in the radix, the first digit
/// being the most significant.
pub open spec fn numeral_value(s: Seq<char>, radix: nat) -> nat
    decreases s.len(),
{
    if s.len() == 0 {
        0
    } else {
        numeral_value(s.drop_last(), radix) * radix + digit_of(s.last())
    }
}

/// The digits of `v` in the radix, most significant first, without leading
/// zeros; the digits of zero are `"0"`.
pub open spec fn radix_digits(v: nat, radix: nat) -> Seq<char>
    decreases v,
    via radix_digits_decreases
{
    if radix < 2 || v < radix {
        seq![digit_char(v)]
    } else {
        radix_digits(v / radix, radix).push(digit_char(v % radix))
    }
}

#[via_fn]
proof fn radix_digits_decreases(v: nat, radix: nat) {
    if !(radix < 2 || v < radix) {
        lemma_div_decreases(v as int, radix as int);
    }
}

/// A digit's character is worth the digit.
pub proof fn lemma_digit_char_value(d: nat)
    requires
        d < 36,
    ensures
        digit_of(digit_char(d)) == d,
{
}

/// The digits of a number are a numeral of the radix.
pub proof fn lemma_radix_digits_numeral(v: nat, radix: nat)
    requires
        2 <= radix <= 36,
    ensures
        is_numeral(radix_digits(v, radix), radix),
    decreases v,
{
    if v < radix {
        lemma_digit_char_value(v);
    } else {
        lemma_div_decreases(v as int, radix as int);
        lemma_radix_digits_numeral(v / radix, radix);
        lemma_mod_bound(v as int, radix as int);
        lemma_digit_char_value(v % radix);
    }
}

/// The digits of a number denote that number.
pub proof fn lemma_radix_digits_value(v: nat, radix: nat)
    requires
        2 <= radix <= 36,
    ensures
        numeral_value(radix_digits(v, radix), radix) == v,
    decreases v,
{
    let s = radix_digits(v, radix);
    if v < radix {
        lemma_digit_char_value(v);
        assert(s.drop_last() =~= Seq::<char>::empty());
        assert(numeral_value(s.drop_last(), radix) == 0);
        assert(s.last() == digit_char(v));
        assert(numeral_value(s, radix) == 0 * radix + v);
    } else {
        let head = radix_digits(v / radix, radix);
        lemma_div_decreases(v as int, radix as int);
        lemma_radix_digits_value(v / radix, radix);
        lemma_mod_bound(v as int, radix as int);
        lemma_digit_char_value(v % radix);
        assert(s.drop_last() =~= head);
        assert(s.last() == digit_char(v % radix));
        assert(numeral_value(s, radix) == (v / radix) * radix + v % radix);
        lemma_fundamental_div_mod(v as int, radix as int);
        assert((v / radix) * radix == radix * (v / radix)) by (nonlinear_arith);
    }
}

/// The digits of zero are `"0"`, and the digits of any other number do not
/// begin with `'0'`.
pub proof fn lemma_radix_digits_leading(v: nat, radix: nat)
    requires
        2 <= radix <= 36,
    ensures
        radix_digits(v, radix).len() >= 1,
        v == 0 ==> radix_digits(v, radix) == seq!['0'],
        v > 0 ==> radix_digits(v, radix)[0] != '0',
    decreases v,
{
    if v < radix {
    } else {
        lemma_div_decreases(v as int, radix as int);
        lemma_div_non_zero(v as int, radix as int);
        lemma_radix_digits_leading(v / radix, radix);
    }
}

/// `s` is a numeral of the radix in its shortest form and in lower case: no
/// zero leads it unless it is the one digit `0`, and each letter in it is the
/// character of its digit.
pub open spec fn is_canonical(s: Seq<char>, radix: nat) -> bool {
    &&& is_numeral(s, radix)
    &&& s.len() > 1 ==> s[0] != '0'
    &&& forall|i: int| 0 <= i < s.len() ==> digit_char(digit_of(#[trigger] s[i])) == s[i]
}

/// A numeral that begins with a digit other than zero denotes a number other
/// than zero.
pub proof fn lemma_leading_digit_value(s: Seq<char>, radix: nat)
    requires
        radix >= 1,
        s.len() >= 1,
        digit_of(s[0]) > 0,
    ensures
        numeral_value(s, radix) > 0,
    decreases s.len(),
{
    if s.len() > 1 {
        let head = s.drop_last();
        lemma_leading_digit_value(head, radix);
        assert(numeral_value(head, radix) * radix >= 1) by (nonlinear_arith)
            requires
                numeral_value(head, radix) >= 1,
                radix >= 1,
        ;
    } else {
        assert(s.last() == s[0]);
    }
}

/// The digits of a number are the only numeral in shortest form and lower
/// case that denotes it.
pub proof fn lemma_canonical_is_radix_digits(s: Seq<char>, radix: nat)
    requires
        2 <= radix <= 36,
        is_canonical(s, radix),
    ensures
        radix_digits(numeral_value(s, radix), radix) == s,
    decreases s.len(),
{
    let v = numeral_value(s, radix);
    let head = s.drop_last();
    let d = digit_of(s.last());
    assert(d < radix);
    if s.len() == 1 {
        assert(head =~= Seq::<char>::empty());
        assert(numeral_value(head, radix) == 0);
        assert(v == 0 * radix + d);
        assert(radix_digits(v, radix) =~= s);
    } else {
        let hv = numeral_value(head, radix);
        assert(head[0] == s[0]);
        assert(is_canonical(head, radix)) by {
            assert forall|i: int| 0 <= i < head.len() implies digit_of(#[trigger] head[i]) < radix
                && digit_char(digit_of(head[i])) == head[i] by {
                assert(head[i] == s[i]);
            }
        }
        lemma_canonical_is_radix_digits(head, radix);
        lemma_leading_digit_value(head, radix);
        assert(hv * radix >= radix) by (nonlinear_arith)
            requires
                hv >= 1,
        ;
        lemma_fundamental_div_mod_converse(v as int, radix as int, hv as int, d as int);
        assert(radix_digits(v, radix) == radix_digits(hv, radix).push(digit_char(d)));
        assert(radix_digits(v, radix) =~= s);
    }
}

/// No numeral that denotes a number is shorter than the digits of the number.
pub proof fn lemma_radix_digits_shortest(s: Seq<char>, radix: nat)
    requires
        2 <= radix <= 36,
        is_numeral(s, radix),
    ensures
        radix_digits(numeral_value(s, radix), radix).len() <= s.len(),
    decreases s.len(),
{
    let v = numeral_value(s, radix);
    let head = s.drop_last();
    let hv = numeral_value(head, radix);
    let d = digit_of(s.last());
    assert(d < radix);
    if s.len() == 1 {
        assert(head =~= Seq::<char>::empty());
        assert(hv == 0);
        assert(v == 0 * radix + d);
    } else if v >= radix {
        assert(is_numeral(head, radix)) by {
            assert forall|i: int| 0 <= i < head.len() implies digit_of(#[trigger] head[i])
                < radix by {
                assert(head[i] == s[i]);
            }
        }
        lemma_radix_digits_shortest(head, radix);
        lemma_fundamental_div_mod_converse(v as int, radix as int, hv as int, d as int);
    }
}

/// Two strings with digits of the same worth at each place denote the same
/// number.
pub proof fn lemma_same_digits_same_value(s: Seq<char>, t: Seq<char>, radix: nat)
    requires
        s.len() == t.len(),
        forall|i: int| 0 <= i < s.len() ==> digit_of(#[trigger] s[i]) == digit_of(t[i]),
    ensures
        numeral_value(s, radix) == numeral_value(t, radix),
    decreases s.len(),
{
    if s.len() > 0 {
        lemma_same_digits_same_value(s.drop_last(), t.drop_last(), radix);
    }
}

/// A zero in front of the digits does not change the number they denote.
pub proof fn lemma_leading_zero_value(s: Seq<char>, radix: nat)
    ensures
        numeral_value(seq!['0'] + s, radix) == numeral_value(s, radix),
    decreases s.len(),
{
    let zs = seq!['0'] + s;
    if s.len() == 0 {
        assert(zs.drop_last() =~= Seq::<char>::empty());
        assert(numeral_value(zs.drop_last(), radix) == 0);
        assert(numeral_value(zs, radix) == 0 * radix + 0);
    } else {
        lemma_leading_zero_value(s.drop_last(), radix);
        assert(zs.drop_last() =~= seq!['0'] + s.drop_last());
        assert(zs.last() == s.last());
    }
}

} // verus!
