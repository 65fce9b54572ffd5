use sd_importer::calendar::{epoch_days_limit, leap_year, month_days, timestamp_from_epoch, Date};
use sd_importer::parse::parse_datetime;
use sd_importer::pathmap::{destination_path, full_date_string, year_string};

#[test]
fn leap_year_rules() {
    assert!(leap_year(2024));
    assert!(leap_year(2000));
    assert!(!leap_year(1900));
    assert!(!leap_year(2023));
}

#[test]
fn month_lengths() {
    assert_eq!(month_days(2023, 2), 28);
    assert_eq!(month_days(2024, 2), 29);
    assert_eq!(month_days(2023, 1), 31);
    assert_eq!(month_days(2023, 4), 30);
    assert_eq!(month_days(2023, 12), 31);
}

#[test]
fn epoch_zero_is_the_epoch() {
    let ts = timestamp_from_epoch(0).unwrap();
    assert_eq!((ts.date.year, ts.date.month, ts.date.day), (1970, 1, 1));
    assert_eq!((ts.hour, ts.minute, ts.second), (0, 0, 0));
}

#[test]
fn epoch_conversion_exact_values() {
    let ts = timestamp_from_epoch(1672444800).unwrap();
    assert_eq!((ts.date.year, ts.date.month, ts.date.day), (2022, 12, 31));
    assert_eq!((ts.hour, ts.minute, ts.second), (0, 0, 0));

    let ts = timestamp_from_epoch(1709164800).unwrap();
    assert_eq!((ts.date.year, ts.date.month, ts.date.day), (2024, 2, 29));

    let ts = timestamp_from_epoch(1682935445).unwrap();
    assert_eq!((ts.date.year, ts.date.month, ts.date.day), (2023, 5, 1));
    assert_eq!((ts.hour, ts.minute, ts.second), (10, 4, 5));
}

#[test]
fn epoch_conversion_range_edges() {
    assert!(timestamp_from_epoch(-1).is_none());
    assert!(timestamp_from_epoch(253402300800).is_none());
    let ts = timestamp_from_epoch(253402300799).unwrap();
    assert_eq!((ts.date.year, ts.date.month, ts.date.day), (9999, 12, 31));
    assert_eq!((ts.hour, ts.minute, ts.second), (23, 59, 59));
}

#[test]
fn day_count_limit_matches_year_10000() {
    // 253402300800 seconds (the first instant of year 10000) over 86400.
    assert_eq!(epoch_days_limit(), 2932897);
}

#[test]
fn parses_a_valid_capture_time() {
    let ts = parse_datetime("2023:05:01 10:00:00").unwrap();
    assert_eq!((ts.date.year, ts.date.month, ts.date.day), (2023, 5, 1));
    assert_eq!((ts.hour, ts.minute, ts.second), (10, 0, 0));
}

#[test]
fn parses_a_leap_day_only_in_a_leap_year() {
    assert!(parse_datetime("2024:02:29 23:59:59").is_some());
    assert!(parse_datetime("2023:02:29 00:00:00").is_none());
}

#[test]
fn rejects_malformed_capture_times() {
    assert!(parse_datetime("2023-05-01 10:00:00").is_none());
    assert!(parse_datetime("2023:13:01 10:00:00").is_none());
    assert!(parse_datetime("2023:00:01 10:00:00").is_none());
    assert!(parse_datetime("2023:05:32 10:00:00").is_none());
    assert!(parse_datetime("2023:05:01 24:00:00").is_none());
    assert!(parse_datetime("2023:05:01 10:60:00").is_none());
    assert!(parse_datetime("2023:05:01 10:00:60").is_none());
    assert!(parse_datetime("2023:05:01 10:00:0x").is_none());
    assert!(parse_datetime("2023:05:01 10:00:0").is_none());
    assert!(parse_datetime("").is_none());
}

#[test]
fn formats_are_zero_padded() {
    let d = Date { year: 2023, month: 5, day: 1 };
    assert_eq!(year_string(&d), "2023");
    assert_eq!(full_date_string(&d), "2023-05-01");
    let early = Date { year: 800, month: 3, day: 7 };
    assert_eq!(year_string(&early), "0800");
    assert_eq!(full_date_string(&early), "0800-03-07");
}

#[test]
fn destination_path_layout() {
    let d = Date { year: 2023, month: 5, day: 1 };
    let p = destination_path("/dest", &d, "IMG_0001.ARW");
    assert_eq!(p, "/dest/2023/2023-05-01/IMG_0001.ARW");
}

#[test]
fn destination_path_is_pure() {
    let d = Date { year: 2022, month: 12, day: 31 };
    let a = destination_path("/dest", &d, "clip.mp4");
    let b = destination_path("/dest", &d, "clip.mp4");
    assert_eq!(a, b);
}
