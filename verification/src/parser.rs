//! Reading a time of day written for the 12-hour clock, such as `3:45 PM` or `12:30AM`.

use vstd::prelude::*;
use crate::blank::{trim, trim_bounds};
use crate::clock::on_clock_face;
use crate::decimal::{decimal, decimal_string, parse_unsigned, unsigned_value};
use crate::error::{ParseError, Rejection};

verus! {

/// A reading of the 12-hour clock: the hour, from 1 to 12, the minute, from 0 to 59, and
/// whether the period is the afternoon.
pub type ParsedTime = (u32, u32, bool);

/// The period named by two characters: `AM` is the morning, `PM` the afternoon.
pub open spec fn period_of(suffix: Seq<char>) -> Option<bool> {
    if suffix == seq!['A', 'M'] {
        Some(false)
    } else if suffix == seq!['P', 'M'] {
        Some(true)
    } else {
        None
    }
}

/// The two characters that `s` ends in; fewer, if it has no more.
pub open spec fn ending(s: Seq<char>) -> Seq<char> {
    if s.len() >= 2 {
        s.skip(s.len() - 2)
    } else {
        s
    }
}

/// What stands before the two characters that `s` ends in.
pub open spec fn before_ending(s: Seq<char>) -> Seq<char> {
    if s.len() >= 2 {
        s.take(s.len() - 2)
    } else {
        Seq::empty()
    }
}

/// Whether `s` holds exactly one `:`, at `i`.
pub open spec fn only_colon_at(s: Seq<char>, i: int) -> bool {
    &&& 0 <= i < s.len()
    &&& s[i] == ':'
    &&& forall|j: int| 0 <= j < s.len() && j != i ==> #[trigger] s[j] != ':'
}

/// Whether `s` holds exactly one `:`.
pub open spec fn has_only_colon(s: Seq<char>) -> bool {
    exists|i: int| only_colon_at(s, i)
}

/// Where the one `:` of `s` stands.
pub open spec fn colon_position(s: Seq<char>) -> int
    recommends
        has_only_colon(s),
{
    choose|i: int| only_colon_at(s, i)
}

/// What a text of the form hour, `:`, minute, period reads as: the hour, the minute and
/// whether the period is the afternoon, or the reason why it is rejected.
///
/// The period is the ending `AM` or `PM`. What stands before it must hold exactly one
/// `:`. The hour before the `:` and the minute after it may have white space around them
/// and must be unsigned numerals; only then are their ranges looked at, the hour's first.
pub open spec fn spec_parse_time(s: Seq<char>) -> Result<(nat, nat, bool), Rejection> {
    let body = before_ending(s);
    match period_of(ending(s)) {
        None => Err(Rejection::InvalidFormat),
        Some(is_afternoon) => {
            if !has_only_colon(body) {
                Err(Rejection::InvalidFormat)
            } else {
                let hour_text = body.take(colon_position(body));
                let minute_text = body.skip(colon_position(body) + 1);
                match (unsigned_value(trim(hour_text)), unsigned_value(trim(minute_text))) {
                    (None, _) => Err(Rejection::InvalidHour(hour_text)),
                    (Some(_), None) => Err(Rejection::InvalidMinute(minute_text)),
                    (Some(hour), Some(minute)) => {
                        if hour == 0 || hour > 12 {
                            Err(Rejection::InvalidHour(decimal(hour)))
                        } else if minute >= 60 {
                            Err(Rejection::InvalidMinute(decimal(minute)))
                        } else {
                            Ok((hour, minute, is_afternoon))
                        }
                    },
                }
            }
        },
    }
}

/// What the outcome of reading a time says, over mathematical values.
pub open spec fn outcome_view(outcome: Result<ParsedTime, ParseError>) -> Result<
    (nat, nat, bool),
    Rejection,
> {
    match outcome {
        Ok((hour, minute, is_afternoon)) => Ok((hour as nat, minute as nat, is_afternoon)),
        Err(error) => Err(error@),
    }
}

/// A text holds its one `:` at one place only.
pub proof fn lemma_colon_position(s: Seq<char>, i: int)
    requires
        only_colon_at(s, i),
    ensures
        has_only_colon(s),
        colon_position(s) == i,
{
    let j = colon_position(s);
    assert(only_colon_at(s, j));
    if j != i {
        assert(s[j] != ':');
    }
}

/// The characters of `text`, in order.
pub fn chars_of(text: &str) -> (chars: Vec<char>)
    ensures
        chars@ == text@,
{
    let mut chars: Vec<char> = Vec::new();
    let all = text.chars();
    for c in it: all
        invariant
            it.seq() == text@,
            chars@ == it.seq().take(it.index() as int),
    {
        chars.push(c);
    }
    chars
}

/// Finds the `:` of `chars[..end]`, if there is exactly one.
pub fn find_only_colon(chars: &Vec<char>, end: usize) -> (found: Option<usize>)
    requires
        end <= chars.len(),
    ensures
        found is Some <==> has_only_colon(chars@.take(end as int)),
        found matches Some(i) ==> only_colon_at(chars@.take(end as int), i as int),
{
    let ghost body = chars@.take(end as int);
    let mut found: Option<usize> = None;
    let mut i: usize = 0;
    while i < end
        invariant
            i <= end <= chars.len(),
            body == chars@.take(end as int),
            found is None ==> forall|j: int| 0 <= j < i ==> #[trigger] body[j] != ':',
            found matches Some(k) ==> {
                &&& k < i
                &&& body[k as int] == ':'
                &&& forall|j: int| 0 <= j < i && j != k ==> #[trigger] body[j] != ':'
            },
        decreases end - i,
    {
        if chars[i] == ':' {
            match found {
                Some(k) => {
                    assert forall|p: int| !only_colon_at(body, p) by {
                        if only_colon_at(body, p) {
                            if p == k as int {
                                assert(body[i as int] != ':');
                            } else {
                                assert(body[k as int] != ':');
                            }
                        }
                    }
                    return None;
                },
                None => {
                    found = Some(i);
                },
            }
        }
        i = i + 1;
    }
    proof {
        match found {
            Some(k) => {
                assert(only_colon_at(body, k as int));
            },
            None => {
                assert forall|p: int| !only_colon_at(body, p) by {
                    if only_colon_at(body, p) {
                        assert(body[p] != ':');
                    }
                }
            },
        }
    }
    found
}

/// Reads the two characters that name the period.
pub fn parse_period(suffix: &str) -> (outcome: Result<bool, ParseError>)
    ensures
        match period_of(suffix@) {
            Some(is_afternoon) => outcome == Ok::<bool, ParseError>(is_afternoon),
            None => outcome == Err::<bool, ParseError>(ParseError::InvalidPeriod),
        },
{
    if suffix.unicode_len() == 2 && suffix.get_char(1) == 'M' {
        let first = suffix.get_char(0);
        if first == 'A' {
            assert(suffix@ =~= seq!['A', 'M']);
            return Ok(false);
        }
        if first == 'P' {
            assert(suffix@ =~= seq!['P', 'M']);
            return Ok(true);
        }
    }
    Err(ParseError::InvalidPeriod)
}

/// Reads a time of day written for the 12-hour clock.
///
/// Gives the hour, from 1 to 12, the minute, from 0 to 59, and whether the period is
/// the afternoon. A text that does not end in `AM` or `PM`, or that holds no `:` or more
/// than one before that ending, is an [`ParseError::InvalidFormat`]. An hour or a minute
/// that is no number is an [`ParseError::InvalidHour`] or [`ParseError::InvalidMinute`]
/// that holds it as written, the hour's before the minute's; one that is a number out of
/// range is the same error with the number's numeral, again the hour's first.
pub fn parse_time(time_str: &str) -> (outcome: Result<ParsedTime, ParseError>)
    ensures
        outcome_view(outcome) == spec_parse_time(time_str@),
        outcome matches Ok((hour, minute, _)) ==> on_clock_face(hour as int, minute as int),
        !(outcome matches Err(ParseError::InvalidPeriod)),
{
    let chars = chars_of(time_str);
    let len = chars.len();
    if len < 2 {
        return Err(ParseError::InvalidFormat);
    }
    let body_end = len - 2;
    let period = parse_period(time_str.substring_char(body_end, len));
    assert(time_str@.subrange(body_end as int, len as int) =~= ending(time_str@));
    if period.is_err() {
        return Err(ParseError::InvalidFormat);
    }
    let ghost body = before_ending(time_str@);
    let colon = match find_only_colon(&chars, body_end) {
        Some(i) => i,
        None => {
            return Err(ParseError::InvalidFormat);
        },
    };
    proof {
        lemma_colon_position(body, colon as int);
        assert(chars@.subrange(0, colon as int) =~= body.take(colon as int));
        assert(chars@.subrange(colon + 1, body_end as int) =~= body.skip(colon + 1));
    }
    let (hour_from, hour_to) = trim_bounds(&chars, 0, colon);
    let hour = match parse_unsigned(&chars, hour_from, hour_to) {
        Some(hour) => hour,
        None => {
            let written = time_str.substring_char(0, colon);
            return Err(ParseError::InvalidHour(String::from_str(written)));
        },
    };
    let (minute_from, minute_to) = trim_bounds(&chars, colon + 1, body_end);
    let minute = match parse_unsigned(&chars, minute_from, minute_to) {
        Some(minute) => minute,
        None => {
            let written = time_str.substring_char(colon + 1, body_end);
            return Err(ParseError::InvalidMinute(String::from_str(written)));
        },
    };
    if hour == 0 || hour > 12 {
        return Err(ParseError::InvalidHour(decimal_string(hour)));
    }
    if minute >= 60 {
        return Err(ParseError::InvalidMinute(decimal_string(minute)));
    }
    match period {
        Ok(is_afternoon) => Ok((hour, minute, is_afternoon)),
        Err(error) => Err(error),
    }
}

} // verus!
