use vstd::prelude::*;

verus! {

/// What can go wrong in the library's operations.
#[derive(Debug, PartialEq, Eq)]
pub enum CmhError {
    /// A time that is not of the form `[-]H+:MM` with `MM` from `00` to `59`; holds the input.
    InvalidFormat(String),
    /// A well-formed time whose number of minutes does not fit in an `i32`; holds the input.
    OutOfRange(String),
    /// A ledger without any non-empty line.
    EmptyLedger,
    /// A balance spread over zero days.
    DivideByZero,
    /// A sum of times whose number of minutes does not fit in an `i32`.
    Overflow,
    /// A count mode other than `t` or `p`; holds the mode.
    InvalidMode(String),
}

} // verus!
