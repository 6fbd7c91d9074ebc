//! Why a clock reading was rejected.

use vstd::prelude::*;

verus! {

/// The ways in which a text can fail to be a clock reading.
#[derive(Debug, PartialEq, Eq)]
pub enum ParseError {
    /// The text does not end in `AM` or `PM`, or what stands before that ending does
    /// not hold exactly one `:`.
    InvalidFormat,
    /// The hour is no number, and then the detail is the hour as written; or it is
    /// not one of 1 to 12, and then the detail is the numeral of that number.
    InvalidHour(String),
    /// The minute is no number, and then the detail is the minute as written; or it is
    /// not one of 0 to 59, and then the detail is the numeral of that number.
    InvalidMinute(String),
    /// The two characters of the period are neither `AM` nor `PM`.
    InvalidPeriod,
}

/// A [`ParseError`] over mathematical text.
pub enum Rejection {
    InvalidFormat,
    InvalidHour(Seq<char>),
    InvalidMinute(Seq<char>),
    InvalidPeriod,
}

impl View for ParseError {
    type V = Rejection;

    open spec fn view(&self) -> Rejection {
        match self {
            ParseError::InvalidFormat => Rejection::InvalidFormat,
            ParseError::InvalidHour(detail) => Rejection::InvalidHour(detail@),
            ParseError::InvalidMinute(detail) => Rejection::InvalidMinute(detail@),
            ParseError::InvalidPeriod => Rejection::InvalidPeriod,
        }
    }
}

impl Rejection {
    /// The line that tells a person of this rejection.
    pub open spec fn message(self) -> Seq<char> {
        match self {
            Rejection::InvalidFormat => "Invalid time format"@,
            Rejection::InvalidHour(detail) => "Invalid hour "@ + detail,
            Rejection::InvalidMinute(detail) => "Invalid minute "@ + detail,
            Rejection::InvalidPeriod => "Invalid AM/PM format"@,
        }
    }
}

impl ParseError {
    /// The line that tells a person of this error.
    pub fn message(&self) -> (text: String)
        ensures
            text@ == self@.message(),
    {
        match self {
            ParseError::InvalidFormat => String::from_str("Invalid time format"),
            ParseError::InvalidHour(detail) => {
                String::from_str("Invalid hour ").concat(detail.as_str())
            },
            ParseError::InvalidMinute(detail) => {
                String::from_str("Invalid minute ").concat(detail.as_str())
            },
            ParseError::InvalidPeriod => String::from_str("Invalid AM/PM format"),
        }
    }
}

} // verus!
