//! Numbers of any size, as digits in base 2^32, and the two operations on
//! them that the `num` crate carries out: reading a numeral and writing one.
//!
//! Nothing in this file is proved. The two functions at its end state what
//! `num` does, each in terms of what a numeral denotes, and the rest of the
//! crate is proved from what they state.

use vstd::prelude::*;
use num::bigint::BigUint;
use num::Num;
use crate::numeral::{is_canonical, is_numeral, numeral_value};

verus! {

/// The number that digits in base 2^32 denote, the first digit being the
/// least significant.
pub open spec fn limbs_value(limbs: Seq<u32>) -> nat
    decreases limbs.len(),
{
    if limbs.len() == 0 {
        0
    } else {
        limbs[0] as nat + 0x1_0000_0000 * limbs_value(limbs.drop_first())
    }
}

/// Reads `digits` as a numeral of the radix with `num`'s
/// `BigUint::from_str_radix`, and hands the number back as `to_u32_digits`
/// gives it: in base 2^32, least significant digit first.
///
/// `from_str_radix` panics on a radix outside 2 to 36. It accepts every
/// string of one or more digits of the radix, the letters in either case, and
/// returns the number they denote. That is all this contract claims: of a
/// string that is no such numeral it says nothing (`num` accepts a few, with a
/// leading `+` or with `_` between digits).
#[verifier::external_body]
pub(crate) fn parse_limbs(digits: &str, radix: u32) -> (limbs: Option<Vec<u32>>)
    requires
        2 <= radix <= 36,
    ensures
        is_numeral(digits@, radix as nat) ==> limbs is Some,
        is_numeral(digits@, radix as nat) ==> limbs_value(limbs->Some_0@) == numeral_value(
            digits@,
            radix as nat,
        ),
{
    match BigUint::from_str_radix(digits, radix) {
        Ok(number) => Some(number.to_u32_digits()),
        Err(_) => None,
    }
}

/// Writes the number that `limbs` denote in the radix with `num`'s
/// `BigUint::to_str_radix`, after `BigUint::new` has made the number from its
/// digits in base 2^32, least significant first.
///
/// `to_str_radix` panics on a radix outside 2 to 36. It returns a numeral of
/// the radix that denotes the number, with the letters in lower case and
/// without a leading zero; for zero it returns `"0"`.
#[verifier::external_body]
pub(crate) fn render_limbs(limbs: &Vec<u32>, radix: u32) -> (digits: String)
    requires
        2 <= radix <= 36,
    ensures
        is_canonical(digits@, radix as nat),
        numeral_value(digits@, radix as nat) == limbs_value(limbs@),
{
    BigUint::new(limbs.clone()).to_str_radix(radix)
}

} // verus!
