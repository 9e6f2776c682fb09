//! The error type of every fallible operation of the crate.

use vstd::prelude::*;

verus! {

/// Errors that can occur during base conversion operations.
#[derive(Debug)]
pub enum BaseError {
    /// The input value could not be parsed in the specified (or detected) base.
    ///
    /// The `message` field contains a human-readable description of what
    /// digits are valid for the expected base, or says that no base could be
    /// determined.
    ParseError {
        /// Description of the parse error
        message: &'static str,
    },
}

impl View for BaseError {
    type V = Seq<char>;

    /// The text of the message that the error carries.
    open spec fn view(&self) -> Seq<char> {
        match *self {
            BaseError::ParseError { message } => message@,
        }
    }
}

impl BaseError {
    /// The human-readable message that the error carries.
    pub fn message(&self) -> (text: &'static str)
        ensures
            text@ == self@,
    {
        match *self {
            BaseError::ParseError { message } => message,
        }
    }
}

} // verus!
