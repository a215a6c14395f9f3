use git_sections::error::SectionsError;
use git_sections::sections::{
    extract_sections, records_in_range, str_ends_with, ChangeRecord, DeltaStatus, Section,
};

fn record(status: DeltaStatus, name: Option<&str>, start: u32, lines: u32) -> ChangeRecord {
    ChangeRecord {
        status,
        file_name: name.map(|n| n.to_string()),
        new_start: start,
        new_lines: lines,
    }
}

fn section(name: &str, start: u32, end: u32) -> Section {
    Section {
        file_name: name.to_string(),
        line_start: start,
        line_end: end,
    }
}

#[test]
fn no_records_no_sections() {
    let records: Vec<ChangeRecord> = Vec::new();
    let sections = extract_sections(&records, ".rs");
    assert!(sections.is_empty());
}

#[test]
fn extension_filter_is_exact_and_total() {
    let records = vec![
        record(DeltaStatus::Added, Some("a.rs"), 1, 3),
        record(DeltaStatus::Modified, Some("b.txt"), 2, 2),
        record(DeltaStatus::Modified, Some("c.rs"), 5, 1),
        record(DeltaStatus::Added, Some("d.notrs"), 1, 1),
        record(DeltaStatus::Modified, Some("c.rs"), 9, 2),
    ];
    let expected = vec![section("a.rs", 1, 4), section("c.rs", 5, 6), section("c.rs", 9, 11)];
    assert_eq!(expected, extract_sections(&records, ".rs"));
}

#[test]
fn suffix_match_is_literal() {
    assert!(str_ends_with("foo.rs", ".rs"));
    assert!(str_ends_with("dir/foo.txt.rs", ".rs"));
    assert!(str_ends_with(".rs", ".rs"));
    assert!(!str_ends_with("foo.notrs", ".rs"));
    assert!(!str_ends_with("rs", ".rs"));
    assert!(!str_ends_with("foo.rs.txt", ".rs"));
    assert!(str_ends_with("anything", ""));
}

#[test]
fn only_added_and_modified_contribute() {
    let statuses = vec![
        DeltaStatus::Unmodified,
        DeltaStatus::Deleted,
        DeltaStatus::Renamed,
        DeltaStatus::Copied,
        DeltaStatus::Ignored,
        DeltaStatus::Untracked,
        DeltaStatus::TypeChanged,
        DeltaStatus::Unreadable,
        DeltaStatus::Conflicted,
    ];
    for status in statuses {
        let records = vec![record(status, Some("a.rs"), 1, 5)];
        assert!(extract_sections(&records, ".rs").is_empty());
    }
    let records = vec![
        record(DeltaStatus::Added, Some("a.rs"), 1, 5),
        record(DeltaStatus::Modified, Some("b.rs"), 2, 1),
    ];
    assert_eq!(2, extract_sections(&records, ".rs").len());
}

#[test]
fn deleted_file_contributes_no_section() {
    let records = vec![
        record(DeltaStatus::Modified, Some("kept.rs"), 4, 2),
        record(DeltaStatus::Deleted, Some("gone.rs"), 1, 0),
    ];
    let expected = vec![section("kept.rs", 4, 6)];
    assert_eq!(expected, extract_sections(&records, ".rs"));
}

#[test]
fn missing_path_contributes_no_section() {
    let records = vec![
        record(DeltaStatus::Modified, None, 1, 2),
        record(DeltaStatus::Added, Some("seen.rs"), 7, 1),
    ];
    let expected = vec![section("seen.rs", 7, 8)];
    assert_eq!(expected, extract_sections(&records, ".rs"));
}

#[test]
fn order_is_preserved() {
    let records = vec![
        record(DeltaStatus::Modified, Some("a.rs"), 1, 1),
        record(DeltaStatus::Modified, Some("a.rs"), 5, 4),
        record(DeltaStatus::Modified, Some("b.rs"), 3, 1),
        record(DeltaStatus::Modified, Some("b.rs"), 6, 1),
    ];
    let expected = vec![
        section("a.rs", 1, 2),
        section("a.rs", 5, 9),
        section("b.rs", 3, 4),
        section("b.rs", 6, 7),
    ];
    assert_eq!(expected, extract_sections(&records, ".rs"));
    assert_eq!(expected, extract_sections(&records, ".rs"));
}

#[test]
fn range_is_start_plus_count() {
    let records = vec![record(DeltaStatus::Modified, Some("a.rs"), 3, 4)];
    let expected = vec![section("a.rs", 3, 7)];
    assert_eq!(expected, extract_sections(&records, ".rs"));
}

#[test]
fn one_line_hunk_has_exclusive_end_one_past_start() {
    let records = vec![record(DeltaStatus::Modified, Some("a.rs"), 9, 1)];
    let expected = vec![section("a.rs", 9, 10)];
    assert_eq!(expected, extract_sections(&records, ".rs"));
}

#[test]
fn empty_addition_hunk_has_end_equal_to_start() {
    let records = vec![record(DeltaStatus::Modified, Some("a.rs"), 6, 0)];
    let expected = vec![section("a.rs", 6, 6)];
    assert_eq!(expected, extract_sections(&records, ".rs"));
}

#[test]
fn other_extension_filters_symmetrically() {
    let records = vec![
        record(DeltaStatus::Added, Some("a.rs"), 1, 3),
        record(DeltaStatus::Modified, Some("b.txt"), 2, 2),
    ];
    let expected = vec![section("b.txt", 2, 4)];
    assert_eq!(expected, extract_sections(&records, ".txt"));
}

#[test]
fn range_check_accepts_and_rejects() {
    let fine = vec![record(DeltaStatus::Added, Some("a.rs"), u32::MAX - 3, 3)];
    assert!(records_in_range(&fine));
    let overflowing = vec![record(DeltaStatus::Added, Some("a.rs"), u32::MAX - 1, 2)];
    assert!(!records_in_range(&overflowing));
    let empty: Vec<ChangeRecord> = Vec::new();
    assert!(records_in_range(&empty));
}

#[test]
fn error_carries_its_message() {
    let error = SectionsError::DiffFailed("broken".to_string());
    assert_eq!("broken", error.message());
    let error = SectionsError::RepositoryNotFound("nowhere".to_string());
    assert_eq!("nowhere", error.message());
}
