//! The structured error returned by every fallible operation.
//!
//! A failing operation records the error codes pending at the point of
//! failure as a snapshot; the caller can inspect or propagate them. Codes
//! are drawn from the named constants below, one per failure condition.

use vstd::prelude::*;

verus! {

/// Raised when a timestamp would fall outside the representable range
/// (at or beyond the year 10000, which a four-digit year cannot hold).
pub const ERR_TIME_RANGE: u64 = 1;

/// Raised when string data is not a valid instance of its encoding.
pub const ERR_BAD_ENCODING: u64 = 2;

/// Raised when a symbolic identifier cannot be resolved to an object
/// identifier.
pub const ERR_UNKNOWN_IDENTIFIER: u64 = 3;

/// Raised when a bit index is negative.
pub const ERR_NEGATIVE_INDEX: u64 = 4;

/// A snapshot of the error codes pending when a native-style operation
/// reported failure. Every fallible operation of this crate returns one of
/// these on its error path; none is swallowed.
#[derive(Debug)]
pub struct ErrorStack {
    codes: Vec<u64>,
}

impl View for ErrorStack {
    type V = Seq<u64>;

    closed spec fn view(&self) -> Seq<u64> {
        self.codes@
    }
}

impl ErrorStack {
    /// A snapshot holding the single given code.
    pub fn from_code(code: u64) -> (r: ErrorStack)
        ensures
            r@ == seq![code],
    {
        let mut codes: Vec<u64> = Vec::new();
        codes.push(code);
        proof {
            assert(codes@ =~= seq![code]);
        }
        ErrorStack { codes }
    }

    /// The recorded codes, oldest first.
    pub fn codes(&self) -> (r: &Vec<u64>)
        ensures
            r@ == self@,
    {
        &self.codes
    }
}

} // verus!
