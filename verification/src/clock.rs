//! Instants in UTC and their calendar rendering.
use vstd::prelude::*;
use vstd::string::*;

verus! {

/// The earliest whole second that chrono's UTC date-time holds
/// (`DateTime::<Utc>::MIN_UTC`).
pub const UTC_MIN_SECS: i64 = -8334601228800;

/// The last whole second that chrono's UTC date-time holds
/// (`DateTime::<Utc>::MAX_UTC`, the last second of year 262142).
pub const UTC_MAX_SECS: i64 = 8210266876799;

/// The largest number of whole seconds that a time delta can hold.
pub const DELTA_MAX_SECS: i64 = 9223372036854775;

/// An instant: seconds since the Unix epoch and the nanoseconds within that
/// second.
#[derive(Debug, Clone, Copy, PartialEq, Eq, Structural)]
pub struct UtcTime {
    pub secs: i64,
    pub nanos: u32,
}

impl UtcTime {
    /// A representable instant.
    pub open spec fn wf(self) -> bool {
        &&& self.nanos < 1_000_000_000
        &&& UTC_MIN_SECS <= self.secs <= UTC_MAX_SECS
    }

    /// The instant in nanoseconds since the Unix epoch.
    pub open spec fn total_nanos(self) -> int {
        self.secs * 1_000_000_000 + self.nanos
    }
}

/// Month, day, hour and minute, as in `Jan 05 14:30`.
pub open spec fn month_day_time_pattern() -> Seq<char> {
    "%b %d %H:%M"@
}

/// Month, day and year, as in `Jan 05, 2026`.
pub open spec fn month_day_year_pattern() -> Seq<char> {
    "%b %d, %Y"@
}

/// Hour and minute, as in `14:30`.
pub open spec fn hour_minute_pattern() -> Seq<char> {
    "%H:%M"@
}

pub open spec fn known_pattern(p: Seq<char>) -> bool {
    p == month_day_time_pattern() || p == month_day_year_pattern() || p == hour_minute_pattern()
}

/// The text that chrono's `format` gives for the UTC date-time `ts` seconds
/// after the Unix epoch under the strftime pattern `pattern`.
pub uninterp spec fn utc_text(ts: int, pattern: Seq<char>) -> Seq<char>;

/// `chrono::DateTime::<Utc>::from_timestamp(ts, 0)` and then `format(pattern)`
/// rendered to a string. `from_timestamp` gives a date-time exactly for the
/// seconds from `UTC_MIN_SECS` to `UTC_MAX_SECS`; the calendar arithmetic
/// and the month names of the rendering are named by `utc_text`, not restated.
#[verifier::external_body]
fn format_timestamp(ts: i64, pattern: &str) -> (r: Option<String>)
    requires
        known_pattern(pattern@),
    ensures
        r is Some <==> UTC_MIN_SECS <= ts <= UTC_MAX_SECS,
        r matches Some(s) ==> s@ == utc_text(ts as int, pattern@),
{
    match chrono::DateTime::from_timestamp(ts, 0) {
        Some(dt) => Some(dt.format(pattern).to_string()),
        None => None,
    }
}

/// Whether `now` plus `offset_secs` seconds is an instant that a date-time
/// holds, with the offset within what a time delta holds.
pub open spec fn offset_in_range(now: UtcTime, offset_secs: int) -> bool {
    &&& -DELTA_MAX_SECS <= offset_secs <= DELTA_MAX_SECS
    &&& UTC_MIN_SECS <= now.secs + offset_secs <= UTC_MAX_SECS
}

/// Whether `now` advanced by `offset_secs` seconds can be rendered.
pub fn offset_ok(now: UtcTime, offset_secs: i64) -> (b: bool)
    ensures
        b == offset_in_range(now, offset_secs as int),
{
    let t = now.secs as i128 + offset_secs as i128;
    -DELTA_MAX_SECS <= offset_secs && offset_secs <= DELTA_MAX_SECS && UTC_MIN_SECS as i128 <= t
        && t <= UTC_MAX_SECS as i128
}

/// `now` advanced by `offset_secs` seconds, rendered with `pattern`.
pub fn format_after(now: UtcTime, offset_secs: i64, pattern: &str) -> (s: String)
    requires
        known_pattern(pattern@),
        offset_in_range(now, offset_secs as int),
    ensures
        s@ == utc_text(now.secs + offset_secs, pattern@),
{
    let ts = now.secs + offset_secs;
    match format_timestamp(ts, pattern) {
        Some(s) => s,
        None => String::new(),
    }
}

/// `now` advanced by `offset_secs` seconds as month, day, hour and minute.
pub fn month_day_time_after(now: UtcTime, offset_secs: i64) -> (s: String)
    requires
        offset_in_range(now, offset_secs as int),
    ensures
        s@ == utc_text(now.secs + offset_secs, month_day_time_pattern()),
{
    format_after(now, offset_secs, "%b %d %H:%M")
}

/// `now` advanced by `offset_secs` seconds as hour and minute.
pub fn hour_minute_after(now: UtcTime, offset_secs: i64) -> (s: String)
    requires
        offset_in_range(now, offset_secs as int),
    ensures
        s@ == utc_text(now.secs + offset_secs, hour_minute_pattern()),
{
    format_after(now, offset_secs, "%H:%M")
}

/// Beyond this many seconds ahead a date is shown with its year instead of
/// its time of day (180 days).
pub const LONG_RANGE_SECS: i64 = 15_552_000;

/// The date label of a future epoch that starts `seconds_rem` seconds after
/// `now`: with the year when it is more than 180 days away, with the time of
/// day otherwise.
pub fn future_date_label(now: UtcTime, seconds_rem: i64) -> (s: String)
    requires
        offset_in_range(now, seconds_rem as int),
    ensures
        s@ == utc_text(
            now.secs + seconds_rem,
            if seconds_rem > LONG_RANGE_SECS {
                month_day_year_pattern()
            } else {
                month_day_time_pattern()
            },
        ),
{
    if seconds_rem > LONG_RANGE_SECS {
        format_after(now, seconds_rem, "%b %d, %Y")
    } else {
        format_after(now, seconds_rem, "%b %d %H:%M")
    }
}

} // verus!
