//! The time that passes between two readings of a 12-hour clock.
//!
//! A reading is a text such as `3:45 PM` or `12:30AM`. [`parse_time`] reads one,
//! [`calculate_duration`] reads two and tells in words how long it is from the first
//! until the clock next shows the second. The module [`laws`] holds what is proved of
//! every reading.

pub mod blank;
pub mod clock;
pub mod decimal;
pub mod elapsed;
pub mod error;
pub mod laws;
pub mod parser;

pub use clock::{elapsed_minutes, minutes_of_day};
pub use elapsed::{calculate_duration, format_duration, hours_and_minutes, output_line};
pub use error::ParseError;
pub use parser::{parse_period, parse_time, ParsedTime};
