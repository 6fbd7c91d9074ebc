//! The time that passes between two clock readings, in words.

use vstd::prelude::*;
use crate::clock::{elapsed_minutes, minutes_of_day, spec_elapsed_minutes, spec_minutes_of_day};
use crate::decimal::{decimal, decimal_string};
use crate::error::{ParseError, Rejection};
use crate::parser::{parse_time, spec_parse_time};

verus! {

/// A count of hours and minutes in words. Both nouns stay in the plural whatever
/// the counts are.
pub open spec fn duration_text(hours: nat, minutes: nat) -> Seq<char> {
    decimal(hours) + " hours "@ + decimal(minutes) + " minutes"@
}

/// The time from one written reading forward to the next, in words, or the reason why
/// the first reading that fails is rejected.
pub open spec fn spec_calculate_duration(start: Seq<char>, end: Seq<char>) -> Result<
    Seq<char>,
    Rejection,
> {
    match spec_parse_time(start) {
        Err(rejection) => Err(rejection),
        Ok((start_hour, start_minute, start_afternoon)) => match spec_parse_time(end) {
            Err(rejection) => Err(rejection),
            Ok((end_hour, end_minute, end_afternoon)) => {
                let elapsed = spec_elapsed_minutes(
                    spec_minutes_of_day(start_hour as int, start_minute as int, start_afternoon),
                    spec_minutes_of_day(end_hour as int, end_minute as int, end_afternoon),
                );
                Ok(duration_text((elapsed / 60) as nat, (elapsed % 60) as nat))
            },
        },
    }
}

/// What the outcome of a calculation says, over mathematical text.
pub open spec fn text_view(outcome: Result<String, ParseError>) -> Result<Seq<char>, Rejection> {
    match outcome {
        Ok(text) => Ok(text@),
        Err(error) => Err(error@),
    }
}

/// The line that reports the outcome of a calculation.
pub open spec fn spec_output_line(outcome: Result<Seq<char>, Rejection>) -> Seq<char> {
    match outcome {
        Ok(text) => "Duration: "@ + text,
        Err(rejection) => "Error: "@ + rejection.message(),
    }
}

/// Splits a count of minutes into whole hours and the minutes left over.
pub fn hours_and_minutes(elapsed: u32) -> (parts: (u32, u32))
    ensures
        parts.0 == elapsed / 60,
        parts.1 == elapsed % 60,
        parts.0 * 60 + parts.1 == elapsed,
        parts.1 < 60,
{
    (elapsed / 60, elapsed % 60)
}

/// Writes a count of hours and minutes in words.
pub fn format_duration(hours: u32, minutes: u32) -> (text: String)
    ensures
        text@ == duration_text(hours as nat, minutes as nat),
{
    let mut text = decimal_string(hours);
    text.append(" hours ");
    text.append(decimal_string(minutes).as_str());
    text.append(" minutes");
    text
}

/// Tells how long it is from `start_time` until the clock next shows `end_time`.
///
/// Both are times of day written for the 12-hour clock. An end that is earlier in the
/// day than the start lies on the next day; equal readings are no time apart. The
/// first reading that cannot be read decides the error, the start before the end.
pub fn calculate_duration(start_time: &str, end_time: &str) -> (outcome: Result<
    String,
    ParseError,
>)
    ensures
        text_view(outcome) == spec_calculate_duration(start_time@, end_time@),
{
    let (start_hour, start_minute, start_afternoon) = match parse_time(start_time) {
        Ok(reading) => reading,
        Err(error) => {
            return Err(error);
        },
    };
    let (end_hour, end_minute, end_afternoon) = match parse_time(end_time) {
        Ok(reading) => reading,
        Err(error) => {
            return Err(error);
        },
    };
    let start_total = minutes_of_day(start_hour, start_minute, start_afternoon);
    let end_total = minutes_of_day(end_hour, end_minute, end_afternoon);
    let (hours, minutes) = hours_and_minutes(elapsed_minutes(start_total, end_total));
    Ok(format_duration(hours, minutes))
}

/// Writes the line that reports the outcome of a calculation: the duration, or the
/// error's message.
pub fn output_line(outcome: &Result<String, ParseError>) -> (line: String)
    ensures
        line@ == spec_output_line(text_view(*outcome)),
{
    match outcome {
        Ok(text) => String::from_str("Duration: ").concat(text.as_str()),
        Err(error) => String::from_str("Error: ").concat(error.message().as_str()),
    }
}

} // verus!
