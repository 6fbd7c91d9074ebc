//! What holds of every written reading: a reading written out reads back as itself, and
//! each kind of fault is rejected for its own reason.

use vstd::prelude::*;
use crate::blank::{lemma_trim_end_blanks, lemma_trim_tight, trim, trim_start};
use crate::clock::{on_clock_face, spec_elapsed_minutes, spec_minutes_of_day};
use crate::decimal::{
    all_digits,
    decimal,
    digit_char,
    digits_value,
    is_digit,
    lemma_decimal_value,
    unsigned_value,
};
use crate::elapsed::spec_calculate_duration;
use crate::error::Rejection;
use crate::parser::{
    before_ending,
    colon_position,
    ending,
    has_only_colon,
    lemma_colon_position,
    only_colon_at,
    period_of,
    spec_parse_time,
};

verus! {

/// A number as it is written on a clock: with two digits at least.
pub open spec fn two_digits(n: nat) -> Seq<char> {
    if n < 10 {
        seq!['0'] + decimal(n)
    } else {
        decimal(n)
    }
}

/// The name of a period.
pub open spec fn period_text(is_afternoon: bool) -> Seq<char> {
    if is_afternoon {
        seq!['P', 'M']
    } else {
        seq!['A', 'M']
    }
}

/// What may stand between the minute and the period: one space, or nothing.
pub open spec fn gap(spaced: bool) -> Seq<char> {
    if spaced {
        seq![' ']
    } else {
        Seq::empty()
    }
}

/// The hour as it is written: as its numeral, or padded to two digits.
pub open spec fn hour_text(hour: nat, padded: bool) -> Seq<char> {
    if padded {
        two_digits(hour)
    } else {
        decimal(hour)
    }
}

/// A reading written out: the hour, padded to two digits or not, `:`, the minute with
/// two digits, and the period, with or without a space before it.
pub open spec fn clock_text(
    hour: nat,
    minute: nat,
    is_afternoon: bool,
    padded: bool,
    spaced: bool,
) -> Seq<char> {
    hour_text(hour, padded) + seq![':'] + two_digits(minute) + gap(spaced) + period_text(
        is_afternoon,
    )
}

/// A run of digits, with at least one, reads as the number it stands for if that fits
/// in 32 bits, and as no number otherwise. Trimming leaves it as it is, and it holds
/// no `:`.
proof fn lemma_digits_read(digits: Seq<char>)
    requires
        digits.len() > 0,
        all_digits(digits),
    ensures
        trim(digits) == digits,
        unsigned_value(digits) == if digits_value(digits) <= u32::MAX {
            Some(digits_value(digits))
        } else {
            None
        },
        forall|i: int| 0 <= i < digits.len() ==> #[trigger] digits[i] != ':',
{
    assert(is_digit(digits[0]) && is_digit(digits.last()));
    lemma_trim_tight(digits);
    assert forall|i: int| 0 <= i < digits.len() implies #[trigger] digits[i] != ':' by {
        assert(is_digit(digits[i]));
    }
}

/// A number written with two digits at least is a run of digits that stands for it.
proof fn lemma_two_digits(n: nat)
    ensures
        two_digits(n).len() > 0,
        all_digits(two_digits(n)),
        digits_value(two_digits(n)) == n,
{
    lemma_decimal_value(n);
    if n < 10 {
        let s = two_digits(n);
        assert(s =~= seq!['0', digit_char(n)]);
        assert(s.drop_last() =~= seq!['0']);
        assert(digits_value(s.drop_last().drop_last()) == 0);
        assert(digits_value(s.drop_last()) == 0);
    }
}

/// How a written reading falls into its parts, and what the hour and the minute read as.
proof fn lemma_clock_text_parts(
    hour: nat,
    minute: nat,
    is_afternoon: bool,
    padded: bool,
    spaced: bool,
)
    ensures
        ({
            let s = clock_text(hour, minute, is_afternoon, padded, spaced);
            let body = before_ending(s);
            let at = colon_position(body);
            &&& period_of(ending(s)) == Some(is_afternoon)
            &&& has_only_colon(body)
            &&& body.take(at) == hour_text(hour, padded)
            &&& body.skip(at + 1) == two_digits(minute) + gap(spaced)
            &&& trim(body.take(at)) == hour_text(hour, padded)
            &&& trim(body.skip(at + 1)) == two_digits(minute)
            &&& unsigned_value(hour_text(hour, padded)) == if hour <= u32::MAX {
                Some(hour)
            } else {
                None
            }
            &&& unsigned_value(two_digits(minute)) == if minute <= u32::MAX {
                Some(minute)
            } else {
                None
            }
        }),
{
    let s = clock_text(hour, minute, is_afternoon, padded, spaced);
    let h = hour_text(hour, padded);
    let m = two_digits(minute);
    let body = h + seq![':'] + m + gap(spaced);
    lemma_decimal_value(hour);
    lemma_two_digits(hour);
    lemma_two_digits(minute);
    lemma_digits_read(h);
    lemma_digits_read(m);
    assert(ending(s) =~= period_text(is_afternoon));
    assert(before_ending(s) =~= body);
    let at = h.len() as int;
    assert(only_colon_at(body, at)) by {
        assert forall|j: int| 0 <= j < body.len() && j != at implies #[trigger] body[j] != ':' by {
            if j < at {
                assert(body[j] == h[j]);
            } else if j < at + 1 + m.len() {
                assert(body[j] == m[j - at - 1]);
            } else {
                assert(body[j] == ' ');
            }
        }
    }
    lemma_colon_position(body, at);
    assert(body.take(at) =~= h);
    assert(body.skip(at + 1) =~= m + gap(spaced));
    lemma_trim_end_blanks(m, gap(spaced));
    assert(trim_start(m + gap(spaced)) == m + gap(spaced)) by {
        assert((m + gap(spaced))[0] == m[0]);
        assert(is_digit(m[0]));
    }
}

/// A reading written out reads back as itself: the hour, the minute and the period
/// come back as they went in, whether or not the hour is padded to two digits and
/// whether or not a space stands before the period.
pub proof fn law_written_reading_reads_back(
    hour: nat,
    minute: nat,
    is_afternoon: bool,
    padded: bool,
    spaced: bool,
)
    requires
        on_clock_face(hour as int, minute as int),
    ensures
        spec_parse_time(clock_text(hour, minute, is_afternoon, padded, spaced)) == Ok::<
            (nat, nat, bool),
            Rejection,
        >((hour, minute, is_afternoon)),
{
    lemma_clock_text_parts(hour, minute, is_afternoon, padded, spaced);
}

/// An hour of zero, or of more than twelve, is rejected as an invalid hour that names
/// the hour's number. This holds whenever the minute is a number that can be read at
/// all, or the hour itself is too large to be read.
pub proof fn law_hour_out_of_range(
    hour: nat,
    minute: nat,
    is_afternoon: bool,
    padded: bool,
    spaced: bool,
)
    requires
        hour == 0 || hour > 12,
        minute <= u32::MAX || hour > u32::MAX,
    ensures
        spec_parse_time(clock_text(hour, minute, is_afternoon, padded, spaced)) == Err::<
            (nat, nat, bool),
            Rejection,
        >(Rejection::InvalidHour(decimal(hour))),
{
    lemma_clock_text_parts(hour, minute, is_afternoon, padded, spaced);
}

/// With an hour from 1 to 12, a minute of sixty or more is rejected as an invalid
/// minute. The error names the minute's number, or, where that is too large to be read,
/// all that stands between the `:` and the period.
pub proof fn law_minute_out_of_range(
    hour: nat,
    minute: nat,
    is_afternoon: bool,
    padded: bool,
    spaced: bool,
)
    requires
        1 <= hour <= 12,
        minute >= 60,
    ensures
        spec_parse_time(clock_text(hour, minute, is_afternoon, padded, spaced)) == Err::<
            (nat, nat, bool),
            Rejection,
        >(
            Rejection::InvalidMinute(
                if minute <= u32::MAX {
                    decimal(minute)
                } else {
                    decimal(minute) + gap(spaced)
                },
            ),
        ),
{
    lemma_clock_text_parts(hour, minute, is_afternoon, padded, spaced);
}

/// A text that does not end in `AM` or `PM`, or that holds no `:`, is rejected for
/// its format.
pub proof fn law_missing_period_or_colon(s: Seq<char>)
    requires
        period_of(ending(s)) is None || !s.contains(':'),
    ensures
        spec_parse_time(s) == Err::<(nat, nat, bool), Rejection>(Rejection::InvalidFormat),
{
    let body = before_ending(s);
    if period_of(ending(s)) is Some && has_only_colon(body) {
        let at = colon_position(body);
        assert(s[at] == body[at]);
        assert(s.contains(':'));
    }
}

/// Every text that is read as a time lies on the clock face, and so within the day: at
/// least 0 and less than 1440 minutes after midnight.
pub proof fn law_reading_within_the_day(s: Seq<char>)
    requires
        spec_parse_time(s) is Ok,
    ensures
        ({
            let (hour, minute, is_afternoon) = spec_parse_time(s)->Ok_0;
            &&& on_clock_face(hour as int, minute as int)
            &&& 0 <= spec_minutes_of_day(hour as int, minute as int, is_afternoon) < 1440
        }),
{
}

/// The time from one moment of the day to another is less than a day, and leads
/// from the first to the second round the clock.
pub proof fn law_elapsed_within_the_day(start: int, end: int)
    requires
        0 <= start < 1440,
        0 <= end < 1440,
    ensures
        0 <= spec_elapsed_minutes(start, end) < 1440,
        (start + spec_elapsed_minutes(start, end)) % 1440 == end,
{
}

/// Two readings of the same time of day are no time apart.
pub proof fn law_same_reading_no_time(start: Seq<char>, end: Seq<char>)
    requires
        spec_parse_time(start) is Ok,
        spec_parse_time(start) == spec_parse_time(end),
    ensures
        spec_calculate_duration(start, end) == Ok::<Seq<char>, Rejection>(
            "0 hours 0 minutes"@,
        ),
{
    reveal_strlit("0 hours 0 minutes");
    reveal_strlit(" hours ");
    reveal_strlit(" minutes");
    assert(decimal(0) =~= seq!['0']);
    assert(decimal(0) + " hours "@ + decimal(0) + " minutes"@ =~= "0 hours 0 minutes"@);
}

} // verus!
