use renogymon::clock::{
    axis_times, format_time_axis_labels, format_timestamp, local_day_number, needs_date,
    spans_midnight,
};

#[test]
fn timestamp_labels() {
    assert_eq!(format_timestamp(1_700_000_000, 0, false), "22:13");
    assert_eq!(format_timestamp(1_700_000_000, 0, true), "Nov 14 22:13");
    assert_eq!(format_timestamp(1_700_000_000, 3_600, true), "Nov 14 23:13");
    assert_eq!(format_timestamp(1_700_000_000, 7_200, true), "Nov 15 00:13");
    assert_eq!(format_timestamp(0, -3_600, false), "23:00");
    assert_eq!(format_timestamp(0, -3_600, true), "Dec 31 23:00");
}

#[test]
fn axis_instants() {
    assert_eq!(axis_times(100, 200), (100, 150, 200));
    assert_eq!(axis_times(200, 100), (200, 200, 100));
}

#[test]
fn long_windows_carry_dates() {
    assert!(needs_date(0, 12 * 3600 + 1, false));
    assert!(!needs_date(0, 12 * 3600, false));
    assert!(needs_date(0, 60, true));
    let start = 1_700_000_000;
    let labels = format_time_axis_labels(start, start + 86_400, 0, 0, 0);
    assert_eq!(labels, vec!["Nov 14 22:13", "Nov 15 10:13", "Nov 15 22:13"]);
}

#[test]
fn axis_labels_across_midnight_carry_dates() {
    assert_eq!(
        format_time_axis_labels(82_800, 90_000, 0, 0, 0),
        vec!["Jan 01 23:00", "Jan 02 00:00", "Jan 02 01:00"]
    );
}

#[test]
fn short_axis_labels_within_a_day_omit_dates() {
    assert_eq!(
        format_time_axis_labels(36_000, 43_200, 0, 0, 0),
        vec!["10:00", "11:00", "12:00"]
    );
    // The same window seen from a zone thirteen hours ahead crosses midnight.
    assert_eq!(
        format_time_axis_labels(36_000, 43_200, 46_800, 46_800, 46_800),
        vec!["Jan 01 23:00", "Jan 02 00:00", "Jan 02 01:00"]
    );
}

#[test]
fn midnight_between_local_dates() {
    assert!(spans_midnight(82_800, 90_000, 0, 0));
    assert!(!spans_midnight(82_800, 90_000, -7_200, -7_200));
    assert!(spans_midnight(1_700_000_000, 1_700_000_000, 0, 7_200));
}

#[test]
fn local_day_numbers() {
    assert_eq!(local_day_number(0, 0), 0);
    assert_eq!(local_day_number(0, -1), -1);
    assert_eq!(local_day_number(86_399, 1), 1);
    assert_eq!(local_day_number(1_700_000_000, 3_600), 19_675);
}

#[test]
fn labels_on_the_last_representable_day() {
    let last = 8_210_266_876_799;
    assert_eq!(format_timestamp(last, 0, true), "Dec 31 23:59");
    assert_eq!(format_timestamp(last, -3_600, false), "22:59");
    assert_eq!(
        format_time_axis_labels(last - 3_600, last, 0, 0, 0),
        vec!["22:59", "23:29", "23:59"]
    );
}
