//! The overlay line that shows the time of day.

use crate::overlay_text_providers::OverlayTextProvider;
use vstd::prelude::*;

verus! {

/// The pattern of the clock line: day, month and year separated by strokes, a blank, and
/// hours, minutes and seconds separated by colons.
pub open spec fn clock_pattern() -> Seq<char> {
    "%d/%m/%Y %H:%M:%S"@
}

/// The text that `chrono` writes, after `pattern`, for the UTC date and time that lies
/// `seconds` after the beginning of 1970. There is none where the calendar of `chrono`
/// does not reach.
pub uninterp spec fn utc_clock_text(seconds: int, pattern: Seq<char>) -> Option<Seq<char>>;

/// The line shown for the instant `seconds`: its date and time, or nothing where it has
/// none.
pub open spec fn clock_line_text(seconds: int) -> Seq<char> {
    match utc_clock_text(seconds, clock_pattern()) {
        Some(text) => text,
        None => Seq::empty(),
    }
}

/// Reads the system clock with `std::time::SystemTime::now`, turns it into a UTC date
/// and time with `chrono`'s `From<SystemTime>` and returns the seconds since the
/// beginning of 1970 with `DateTime::timestamp`; a clock set to before 1970 gives a
/// negative count, and the calendar of `chrono` reaches some 262 000 years to either
/// side, further than a system clock counts. Which instant comes back is not claimed.
/// The contract claims that the instant has a date and time to write: `chrono` has built
/// one from these very seconds.
#[verifier::external_body]
fn utc_now_seconds() -> (seconds: i64)
    ensures
        utc_clock_text(seconds as int, clock_pattern()) is Some,
{
    chrono::DateTime::<chrono::Utc>::from(std::time::SystemTime::now()).timestamp()
}

/// Builds the UTC date and time with `chrono::DateTime::from_timestamp_secs` and writes
/// it with `DateTime::format` after `pattern`. The contract claims only that the text
/// depends on `seconds` and `pattern` alone, and gives it its name. The pattern of the
/// clock line holds numbers and fixed characters only, which `chrono` always writes.
#[verifier::external_body]
fn format_utc_seconds(seconds: i64, pattern: &str) -> (text: Option<String>)
    requires
        pattern@ == clock_pattern(),
    ensures
        match text {
            Some(written) => utc_clock_text(seconds as int, pattern@) == Some(written@),
            None => utc_clock_text(seconds as int, pattern@) is None,
        },
{
    match chrono::DateTime::from_timestamp_secs(seconds) {
        Some(instant) => Some(instant.format(pattern).to_string()),
        None => None,
    }
}

/// The line shown for the instant `seconds` after the beginning of 1970.
pub fn clock_line(seconds: i64) -> (line: String)
    ensures
        line@ == clock_line_text(seconds as int),
{
    match format_utc_seconds(seconds, "%d/%m/%Y %H:%M:%S") {
        Some(text) => text,
        None => String::new(),
    }
}

/// Shows the current date and time in UTC.
pub struct TimeOverlayTextProvider {}

impl TimeOverlayTextProvider {
    pub fn new() -> Self {
        Self {  }
    }

    /// The date and time of the instant at which the system clock is read.
    pub fn get_current_time(&self) -> (text: String)
        ensures
            exists|seconds: int|
                i64::MIN <= seconds <= i64::MAX && #[trigger] utc_clock_text(
                    seconds,
                    clock_pattern(),
                ) == Some(text@),
    {
        let seconds = utc_now_seconds();
        let text = clock_line(seconds);
        assert(utc_clock_text(seconds as int, clock_pattern()) == Some(text@));
        text
    }
}

impl OverlayTextProvider for TimeOverlayTextProvider {
    fn get_text(&self) -> (text: String)
        ensures
            exists|seconds: int|
                i64::MIN <= seconds <= i64::MAX && #[trigger] utc_clock_text(
                    seconds,
                    clock_pattern(),
                ) == Some(text@),
    {
        self.get_current_time()
    }
}

} // verus!
