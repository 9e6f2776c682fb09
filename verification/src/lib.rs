//! Conversion of non-negative integers of any size between binary, octal,
//! decimal and hexadecimal notation.
//!
//! A numeral is checked against a base that the caller names or that
//! [`base::detect_base`] infers, read into a [`base::Value`], and written out
//! again in any of the four bases.

pub mod errors;
pub mod opts;
pub mod numeral;
pub mod text;
pub mod limbs;
pub mod base;
pub mod laws;
pub mod convert;
