use sd_importer::classify::{classify, default_allowed, extension_of, Classification};
use sd_importer::coordinate::{classify_entries, Candidate};

fn cand(path: &str, name: &str) -> Candidate {
    Candidate { path: path.to_string(), file_name: name.to_string() }
}

#[test]
fn accepts_every_allow_listed_extension() {
    let allowed = default_allowed();
    for name in ["a.arw", "b.mp4", "c.jpg", "d.heic"] {
        assert!(matches!(classify(name, &allowed), Classification::Accepted));
    }
}

#[test]
fn accepts_case_insensitively() {
    let allowed = default_allowed();
    for name in ["a.ARW", "b.Mp4", "c.JpG", "d.HeIc", "e.HEIC"] {
        assert!(matches!(classify(name, &allowed), Classification::Accepted));
    }
}

#[test]
fn rejects_extensions_outside_the_allow_list() {
    let allowed = default_allowed();
    match classify("notes.txt", &allowed) {
        Classification::Rejected(e) => assert_eq!(e, "txt"),
        _ => panic!("expected rejection"),
    }
    match classify("photo.TIFF", &allowed) {
        Classification::Rejected(e) => assert_eq!(e, "TIFF"),
        _ => panic!("expected rejection"),
    }
}

#[test]
fn rejects_names_without_extension() {
    let allowed = default_allowed();
    assert!(matches!(classify("Makefile", &allowed), Classification::NoExtension));
    assert!(matches!(classify(".bashrc", &allowed), Classification::NoExtension));
    assert!(matches!(classify("", &allowed), Classification::NoExtension));
}

#[test]
fn trailing_dot_yields_empty_rejected_extension() {
    let allowed = default_allowed();
    match classify("oops.", &allowed) {
        Classification::Rejected(e) => assert_eq!(e, ""),
        _ => panic!("expected rejection"),
    }
}

#[test]
fn extension_is_the_part_after_the_last_dot() {
    assert_eq!(extension_of("a.b.c").unwrap(), "c");
    assert_eq!(extension_of("archive.tar.gz").unwrap(), "gz");
    assert!(extension_of("nodots").is_none());
    assert!(extension_of(".hidden").is_none());
}

#[test]
fn configurable_allow_list_changes_the_verdict() {
    let custom = vec!["txt".to_string()];
    assert!(matches!(classify("notes.txt", &custom), Classification::Accepted));
    assert!(matches!(classify("a.arw", &custom), Classification::Rejected(_)));
}

#[test]
fn scan_keeps_accepted_entries_in_order() {
    let allowed = default_allowed();
    let entries = vec![
        cand("/sd/a.arw", "a.arw"),
        cand("/sd/skip.txt", "skip.txt"),
        cand("/sd/b.MP4", "b.MP4"),
        cand("/sd/readme", "readme"),
    ];
    let out = classify_entries(&entries, &allowed);
    let names: Vec<&str> = out.candidates.iter().map(|c| c.file_name.as_str()).collect();
    assert_eq!(names, vec!["a.arw", "b.MP4"]);
    assert_eq!(out.unaccepted_extensions, vec!["txt".to_string()]);
}

#[test]
fn scan_records_each_rejected_extension_once() {
    let allowed = default_allowed();
    let entries = vec![
        cand("/sd/a.txt", "a.txt"),
        cand("/sd/b.txt", "b.txt"),
        cand("/sd/c.TXT", "c.TXT"),
        cand("/sd/d.log", "d.log"),
    ];
    let out = classify_entries(&entries, &allowed);
    assert!(out.candidates.is_empty());
    assert_eq!(
        out.unaccepted_extensions,
        vec!["txt".to_string(), "TXT".to_string(), "log".to_string()]
    );
}

#[test]
fn scan_with_only_unimportable_files_finds_no_candidates() {
    let allowed = default_allowed();
    let entries = vec![cand("/sd/one.txt", "one.txt"), cand("/sd/two.txt", "two.txt")];
    let out = classify_entries(&entries, &allowed);
    assert!(out.candidates.is_empty());
    assert_eq!(out.unaccepted_extensions, vec!["txt".to_string()]);
}
