//! Type-tagged quantities of storage and time.
//!
//! A [`Storage`](storage::Storage) or [`Time`](time::Time) value pairs an
//! integer count of *base units* (bytes, nanoseconds) with a compile-time
//! unit tag, so that values measured in incompatible units cannot be mixed
//! while the runtime representation stays a plain integer.

use vstd::prelude::*;

pub mod config;
pub mod numeral;
pub mod render;
pub mod storage;
pub mod text;
pub mod time;

verus! {

/// A measurement unit: compile-time metadata tying a zero-sized tag type to
/// its display name and its scale factor relative to the family's base unit.
pub trait Unit: Sized {
    /// The plural display name, e.g. `"kilobytes"`.
    spec fn spec_name() -> Seq<char>;

    /// How many base units (bytes, nanoseconds) one of this unit holds.
    /// The base unit of a family has scale factor 1.
    spec fn spec_scale() -> u64;

    /// Basic well-formedness of the metadata: the name is a non-trivial
    /// ASCII word of lower-case letters, and the scale factor is positive.
    proof fn properties()
        ensures
            Self::spec_scale() >= 1,
            Self::spec_name().len() >= 2,
            crate::text::is_lower_word(Self::spec_name()),
    ;

    fn name() -> (n: String)
        ensures
            n@ == Self::spec_name(),
    ;

    fn scale() -> (s: u64)
        ensures
            s == Self::spec_scale(),
    ;
}

/// Why a quantity could not be recovered from a string.
#[derive(Clone, Debug, PartialEq, Eq, Structural)]
pub enum MeasureError {
    /// The unit token did not match any accepted spelling.
    InvalidUnit,
    /// The numeric token is not an unsigned decimal integer; carries the
    /// underlying numeric-parse failure.
    InvalidNumber(NumberError),
}

impl MeasureError {
    /// How the error describes itself.
    pub open spec fn spec_message(self) -> Seq<char> {
        match self {
            MeasureError::InvalidUnit => "invalid unit found in string"@,
            MeasureError::InvalidNumber(NumberError::Empty) => "invalid number: empty"@,
            MeasureError::InvalidNumber(NumberError::InvalidDigit) => "invalid number: invalid digit"@,
            MeasureError::InvalidNumber(NumberError::Overflow) => "invalid number: too large"@,
        }
    }

    /// A short human-readable description of the error.
    pub fn message(&self) -> (m: String)
        ensures
            m@ == self.spec_message(),
    {
        match self {
            MeasureError::InvalidUnit => <String as vstd::string::StringExecFns>::from_str(
                "invalid unit found in string",
            ),
            MeasureError::InvalidNumber(NumberError::Empty) => <String as vstd::string::StringExecFns>::from_str(
                "invalid number: empty",
            ),
            MeasureError::InvalidNumber(NumberError::InvalidDigit) => <String as vstd::string::StringExecFns>::from_str(
                "invalid number: invalid digit",
            ),
            MeasureError::InvalidNumber(NumberError::Overflow) => <String as vstd::string::StringExecFns>::from_str(
                "invalid number: too large",
            ),
        }
    }
}

/// Why a numeric token failed to parse as an unsigned integer.
#[derive(Clone, Copy, Debug, PartialEq, Eq, Structural)]
pub enum NumberError {
    /// The token was empty.
    Empty,
    /// A character of the token is not a decimal digit.
    InvalidDigit,
    /// The value does not fit in the integer representation.
    Overflow,
}

} // verus!
