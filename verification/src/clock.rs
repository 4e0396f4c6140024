//! Time-axis labels of the charts in local time. The UTC offsets of the local time
//! zone are read by the caller (they come from the machine's time-zone data); this
//! module decides and formats from them.

use vstd::prelude::*;
use crate::text::digit_char;
use chrono::DateTime;

verus! {

/// The largest Unix timestamp that chrono represents: 262142-12-31 23:59:59, the last
/// second of its latest date.
pub const CHRONO_MAX_TIMESTAMP: u64 = 8_210_266_876_799;

/// Seconds in twelve hours: longer windows always show dates.
pub const DATE_LABEL_SPAN_SECS: u64 = 12 * 3600;

/// Format of a label with a date: abbreviated month, day, hours and minutes.
pub const DATE_TIME_PATTERN: &'static str = "%b %d %H:%M";

/// Format of a label without a date: hours and minutes.
pub const TIME_PATTERN: &'static str = "%H:%M";

/// Whether `offset` is a UTC offset that chrono can hold: strictly within a day.
pub open spec fn valid_offset(offset: int) -> bool {
    -86400 < offset < 86400
}

/// Whether chrono can represent both the instant `ts` and its local date and time at a
/// UTC offset of `offset` seconds.
pub open spec fn local_time_in_range(ts: u64, offset: int) -> bool {
    ts <= CHRONO_MAX_TIMESTAMP && ts + offset <= CHRONO_MAX_TIMESTAMP
}

/// What chrono's `format(pattern)` writes for the date and time that lie `local_secs`
/// seconds after 1970-01-01 00:00:00 (a naive date and time, with no time zone).
pub uninterp spec fn naive_text(local_secs: i64, pattern: Seq<char>) -> Seq<char>;

/// Two decimal digits of a number below 100.
pub open spec fn two_digits(n: int) -> Seq<char> {
    seq![digit_char((n / 10) as nat), digit_char((n % 10) as nat)]
}

/// `HH:MM` of the time of day `local_secs` seconds after 1970-01-01 00:00:00.
pub open spec fn hh_mm(local_secs: int) -> Seq<char> {
    let t = local_secs % 86400;
    two_digits(t / 3600) + seq![':'] + two_digits((t % 3600) / 60)
}

/// Formats a naive date and time with chrono.
///
/// Calls `DateTime::from_timestamp(local_secs, 0)` (unwrapped: it is `Some` for every
/// argument that `requires` admits, which ends at chrono's last second), `naive_utc()`
/// and `format(pattern).to_string()`.
/// No time zone is read. The text is named [`naive_text`]; chrono's documented
/// specifiers give its shape: `%H` and `%M` are the hour and the minute, two
/// zero-padded digits each, `%d` is two digits and `%b` is always three letters.
#[verifier::external_body]
fn naive_time_text(local_secs: i64, pattern: &str) -> (r: String)
    requires
        -86400 < local_secs <= CHRONO_MAX_TIMESTAMP,
        pattern@ == TIME_PATTERN@ || pattern@ == DATE_TIME_PATTERN@,
    ensures
        r@ == naive_text(local_secs, pattern@),
        pattern@ == TIME_PATTERN@ ==> r@ == hh_mm(local_secs as int),
        pattern@ == DATE_TIME_PATTERN@ ==> r@.len() == 12 && r@[3] == ' ' && r@[6] == ' '
            && r@.subrange(7, 12) == hh_mm(local_secs as int),
{
    DateTime::from_timestamp(local_secs, 0).unwrap().naive_utc().format(pattern).to_string()
}

/// The day number (days since 1970-01-01) of the local date of `ts` when local time
/// is `offset` seconds ahead of UTC: the local date is the date of `ts + offset`.
pub open spec fn local_day(ts: u64, offset: int) -> int {
    (ts + offset) / 86400
}

/// Returns the day number of the local date of `ts` at a UTC offset of `offset` seconds.
pub fn local_day_number(ts: u64, offset: i32) -> (d: i64)
    requires
        local_time_in_range(ts, offset as int),
        -86400 < offset < 86400,
    ensures
        d == local_day(ts, offset as int),
{
    let secs: i64 = (ts as i64) + (offset as i64);
    if secs >= 0 {
        secs / 86400
    } else {
        let q: i64 = (-secs + 86399) / 86400;
        assert(-q == secs / 86400) by (nonlinear_arith)
            requires
                secs < 0,
                secs > -86400,
                q == (-secs + 86399) / 86400,
        ;
        -q
    }
}

/// Returns whether two timestamps fall on different local dates, given the UTC
/// offset of the local time zone at each of them.
pub fn spans_midnight(start: u64, end: u64, start_offset: i32, end_offset: i32) -> (r: bool)
    requires
        valid_offset(start_offset as int),
        valid_offset(end_offset as int),
        local_time_in_range(start, start_offset as int),
        local_time_in_range(end, end_offset as int),
    ensures
        r == (local_day(start, start_offset as int) != local_day(end, end_offset as int)),
{
    let d1 = local_day_number(start, start_offset);
    let d2 = local_day_number(end, end_offset);
    d1 != d2
}

/// A local day number is within one day of the UTC day number, so timestamps three or
/// more UTC days apart fall on different local dates at any offsets.
pub proof fn lemma_local_day_near(ts: u64, offset: int)
    requires
        valid_offset(offset),
    ensures
        ts / 86400 - 1 <= local_day(ts, offset) <= ts / 86400 + 1,
{
    assert(ts / 86400 - 1 <= (ts + offset) / 86400 <= ts / 86400 + 1) by (nonlinear_arith)
        requires
            -86400 < offset < 86400,
            ts >= 0,
    ;
}

/// The length of the window, zero when it ends before it starts.
pub open spec fn window_length(start: u64, end: u64) -> int {
    if start <= end {
        end - start
    } else {
        0
    }
}

/// Whether the labels of a window carry dates: for windows longer than twelve hours,
/// and for windows whose ends fall on different local dates.
pub open spec fn spec_needs_date(start: u64, end: u64, crosses_midnight: bool) -> bool {
    window_length(start, end) > DATE_LABEL_SPAN_SECS || crosses_midnight
}

/// Returns whether the labels of a window carry dates.
pub fn needs_date(start: u64, end: u64, crosses_midnight: bool) -> (r: bool)
    ensures
        r == spec_needs_date(start, end, crosses_midnight),
{
    end.saturating_sub(start) > DATE_LABEL_SPAN_SECS || crosses_midnight
}

/// The three instants labelled on a time axis: start, middle and end.
pub open spec fn spec_axis_times(start: u64, end: u64) -> (u64, u64, u64) {
    (start, (start + window_length(start, end) / 2) as u64, end)
}

/// Returns the three instants labelled on a time axis.
pub fn axis_times(start: u64, end: u64) -> (r: (u64, u64, u64))
    ensures
        r == spec_axis_times(start, end),
{
    let duration = end.saturating_sub(start);
    (start, start + duration / 2, end)
}

/// The pattern of a label, with or without a date.
pub open spec fn label_pattern(include_date: bool) -> Seq<char> {
    if include_date {
        DATE_TIME_PATTERN@
    } else {
        TIME_PATTERN@
    }
}

/// The label of `ts` at a UTC offset of `offset` seconds: chrono's text of the local
/// date and time `ts + offset`.
pub open spec fn spec_timestamp_label(ts: u64, offset: int, include_date: bool) -> Seq<char> {
    naive_text((ts + offset) as i64, label_pattern(include_date))
}

/// Returns the label of a timestamp at a UTC offset of `offset` seconds: month, day and
/// time when `include_date`, the time alone otherwise.
pub fn format_timestamp(ts: u64, offset: i32, include_date: bool) -> (r: String)
    requires
        valid_offset(offset as int),
        local_time_in_range(ts, offset as int),
    ensures
        r@ == spec_timestamp_label(ts, offset as int, include_date),
        include_date ==> r@.len() == 12 && r@.subrange(7, 12) == hh_mm(ts + offset),
        !include_date ==> r@ == hh_mm(ts + offset),
{
    let local_secs: i64 = (ts as i64) + (offset as i64);
    if include_date {
        naive_time_text(local_secs, DATE_TIME_PATTERN)
    } else {
        naive_time_text(local_secs, TIME_PATTERN)
    }
}

/// Whether the labels of a window carry dates, given the UTC offsets at its start and
/// at its end.
pub open spec fn labels_need_date(start: u64, end: u64, start_offset: int, end_offset: int) -> bool {
    spec_needs_date(start, end, local_day(start, start_offset) != local_day(end, end_offset))
}

/// Returns the labels of a time axis from `start` to `end`, given the UTC offsets of the
/// local time zone at the start, the middle and the end of the window: the labels of
/// those three instants, all with a date when the window is longer than twelve hours or
/// its ends fall on different local dates, all without one otherwise.
pub fn format_time_axis_labels(
    start: u64,
    end: u64,
    start_offset: i32,
    mid_offset: i32,
    end_offset: i32,
) -> (r: Vec<String>)
    requires
        valid_offset(start_offset as int),
        valid_offset(mid_offset as int),
        valid_offset(end_offset as int),
        local_time_in_range(start, start_offset as int),
        local_time_in_range(spec_axis_times(start, end).1, mid_offset as int),
        local_time_in_range(end, end_offset as int),
    ensures
        r@.len() == 3,
        ({
            let (t0, t1, t2) = spec_axis_times(start, end);
            let inc = labels_need_date(start, end, start_offset as int, end_offset as int);
            &&& r@[0]@ == spec_timestamp_label(t0, start_offset as int, inc)
            &&& r@[1]@ == spec_timestamp_label(t1, mid_offset as int, inc)
            &&& r@[2]@ == spec_timestamp_label(t2, end_offset as int, inc)
        }),
{
    let (first, mid, last) = axis_times(start, end);
    let crosses = spans_midnight(start, end, start_offset, end_offset);
    let include_date = needs_date(start, end, crosses);
    let mut labels: Vec<String> = Vec::new();
    labels.push(format_timestamp(first, start_offset, include_date));
    labels.push(format_timestamp(mid, mid_offset, include_date));
    labels.push(format_timestamp(last, end_offset, include_date));
    labels
}

} // verus!
