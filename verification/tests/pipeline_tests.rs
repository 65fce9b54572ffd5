use sd_importer::coordinate::{
    plan_candidate, summarize, FailureKind, FileFailure, TaskOutcome,
};
use sd_importer::resolve::{resolve_capture_date, resolve_from_parts, ResolvedDate};

/// A minimal little-endian TIFF whose Exif IFD holds one `DateTimeOriginal`
/// tag with the given 19-character value.
fn tiff_with_datetime_original(datetime: &str) -> Vec<u8> {
    assert_eq!(datetime.len(), 19);
    let mut b: Vec<u8> = Vec::new();
    // TIFF header: little endian, magic 42, first IFD at offset 8.
    b.extend_from_slice(&[0x49, 0x49, 0x2A, 0x00]);
    b.extend_from_slice(&8u32.to_le_bytes());
    // IFD0: one entry, the Exif IFD pointer (tag 0x8769, LONG, count 1),
    // pointing at offset 26.
    b.extend_from_slice(&1u16.to_le_bytes());
    b.extend_from_slice(&0x8769u16.to_le_bytes());
    b.extend_from_slice(&4u16.to_le_bytes());
    b.extend_from_slice(&1u32.to_le_bytes());
    b.extend_from_slice(&26u32.to_le_bytes());
    b.extend_from_slice(&0u32.to_le_bytes());
    // Exif IFD at 26: one entry, DateTimeOriginal (tag 0x9003, ASCII,
    // count 20), value at offset 44.
    b.extend_from_slice(&1u16.to_le_bytes());
    b.extend_from_slice(&0x9003u16.to_le_bytes());
    b.extend_from_slice(&2u16.to_le_bytes());
    b.extend_from_slice(&20u32.to_le_bytes());
    b.extend_from_slice(&44u32.to_le_bytes());
    b.extend_from_slice(&0u32.to_le_bytes());
    // The NUL-terminated ASCII value.
    b.extend_from_slice(datetime.as_bytes());
    b.push(0);
    b
}

#[test]
fn embedded_date_wins_and_maps_the_destination() {
    let bytes = tiff_with_datetime_original("2023:05:01 10:00:00");
    let plan =
        plan_candidate("IMG_0001.ARW", Some(bytes.as_slice()), Some(1_000_000_000), "/dest").unwrap();
    assert!(matches!(plan.resolved, ResolvedDate::FromMetadata(_)));
    let ts = plan.resolved.timestamp();
    assert_eq!((ts.date.year, ts.date.month, ts.date.day), (2023, 5, 1));
    assert_eq!((ts.hour, ts.minute, ts.second), (10, 0, 0));
    assert_eq!(plan.destination_dir, "/dest/2023/2023-05-01");
    assert_eq!(plan.destination_path, "/dest/2023/2023-05-01/IMG_0001.ARW");
}

#[test]
fn missing_metadata_falls_back_to_the_filesystem_timestamp() {
    // 1672444800 is 2022-12-31 00:00:00 UTC.
    let plan = plan_candidate("IMG_0002.ARW", None, Some(1672444800), "/dest").unwrap();
    assert!(matches!(plan.resolved, ResolvedDate::FromFilesystem(_)));
    assert_eq!(plan.destination_path, "/dest/2022/2022-12-31/IMG_0002.ARW");
}

#[test]
fn unparseable_bytes_fall_back_to_the_filesystem_timestamp() {
    let garbage = vec![0u8; 64];
    let plan = plan_candidate("IMG_0003.ARW", Some(garbage.as_slice()), Some(1672444800), "/dest").unwrap();
    assert!(matches!(plan.resolved, ResolvedDate::FromFilesystem(_)));
    assert_eq!(plan.destination_path, "/dest/2022/2022-12-31/IMG_0003.ARW");
}

#[test]
fn malformed_embedded_value_falls_back() {
    let bytes = tiff_with_datetime_original("2023:13:99 10:00:00");
    let plan = plan_candidate("IMG_0004.ARW", Some(bytes.as_slice()), Some(1672444800), "/dest").unwrap();
    assert!(matches!(plan.resolved, ResolvedDate::FromFilesystem(_)));
}

#[test]
fn resolution_fails_only_when_no_tier_is_usable() {
    assert!(resolve_capture_date(None, None).is_err());
    assert!(resolve_capture_date(None, Some(-5)).is_err());
    assert!(resolve_from_parts(Some("not a datetime at all!".to_string()), None).is_err());
    assert!(resolve_from_parts(None, Some(0)).is_ok());
}

#[test]
fn metadata_tier_is_tagged_as_such() {
    let r = resolve_from_parts(Some("2023:05:01 10:00:00".to_string()), Some(0)).unwrap();
    match r {
        ResolvedDate::FromMetadata(ts) => {
            assert_eq!((ts.date.year, ts.date.month, ts.date.day), (2023, 5, 1));
        }
        _ => panic!("expected the metadata tier"),
    }
}

#[test]
fn two_files_with_equal_date_and_name_share_one_destination() {
    let a = plan_candidate("DUP.ARW", None, Some(1672444800), "/dest").unwrap();
    let b = plan_candidate("DUP.ARW", None, Some(1672444800), "/dest").unwrap();
    assert_eq!(a.destination_path, b.destination_path);
    // Both copies still count as successes in the summary.
    let outcomes = vec![TaskOutcome::Succeeded, TaskOutcome::Succeeded];
    let summary = summarize(&outcomes, vec!["/dest/2022/2022-12-31".to_string()]);
    assert_eq!(summary.total, 2);
    assert_eq!(summary.succeeded, 2);
    assert!(summary.failures.is_empty());
}

#[test]
fn a_failed_copy_is_reported_while_others_succeed() {
    let outcomes = vec![
        TaskOutcome::Succeeded,
        TaskOutcome::Failed(FileFailure {
            path: "/sd/broken.arw".to_string(),
            kind: FailureKind::FileCopy,
            detail: "permission denied".to_string(),
        }),
        TaskOutcome::Succeeded,
    ];
    let summary = summarize(&outcomes, Vec::new());
    assert_eq!(summary.total, 3);
    assert_eq!(summary.succeeded, 2);
    assert_eq!(summary.failures.len(), 1);
    assert_eq!(summary.failures[0].path, "/sd/broken.arw");
    assert_eq!(summary.failures[0].kind, FailureKind::FileCopy);
    assert_eq!(summary.failures[0].detail, "permission denied");
}

#[test]
fn empty_run_summarizes_to_nothing() {
    let outcomes: Vec<TaskOutcome> = Vec::new();
    let summary = summarize(&outcomes, Vec::new());
    assert_eq!(summary.total, 0);
    assert_eq!(summary.succeeded, 0);
    assert!(summary.failures.is_empty());
    assert!(summary.directories.is_empty());
}
