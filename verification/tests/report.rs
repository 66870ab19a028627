use dirscan::file_system::entry::FsEntry;
use dirscan::file_system::error::{ErrorKind, ScanError};
use dirscan::output::errors::errors_message;
use dirscan::report::{size_in_range, ScanReport};
use dirscan::stats::ScanStats;

fn file(name: &str, size: u64) -> FsEntry {
    FsEntry::File { name: name.as_bytes().to_vec(), size, lines: Some(1) }
}

fn error(kind: ErrorKind, name: &str, cause: &str) -> ScanError {
    ScanError { kind, name: name.as_bytes().to_vec(), cause: cause.to_string() }
}

#[test]
fn every_result_is_counted_once() {
    let mut report = ScanReport::new();
    for i in 0..20u64 {
        let entry = file(&format!("f{}", i), i);
        assert!(report.stats.fits(&entry));
        report.receive(entry, vec![error(ErrorKind::Lines, "x", "y")], None, None);
    }
    assert_eq!(report.results.len(), 20);
    assert_eq!(report.errors.len(), 20);
    assert_eq!(report.stats.file_count, 20);
    assert_eq!(report.stats.total_size, (0..20).sum::<u64>());
    assert_eq!(report.stats.total_lines, 20);
}

#[test]
fn entries_out_of_the_size_range_are_dropped_but_not_their_errors() {
    let mut report = ScanReport::new();
    report.receive(file("small", 1), vec![error(ErrorKind::Lines, "small", "a")], Some(5), Some(10));
    report.receive(file("right", 7), vec![], Some(5), Some(10));
    report.receive(file("large", 11), vec![error(ErrorKind::Lines, "large", "b")], Some(5), Some(10));
    report.receive(file("least", 5), vec![], Some(5), Some(10));
    report.receive(file("most", 10), vec![], Some(5), Some(10));
    let names: Vec<&str> = report.results.iter().map(|e| e.name_str()).collect();
    assert_eq!(names, vec!["right", "least", "most"]);
    assert_eq!(report.stats.total_size, 22);
    assert_eq!(report.stats.file_count, 3);
    let causes: Vec<&str> = report.errors.iter().map(|e| e.cause.as_str()).collect();
    assert_eq!(causes, vec!["a", "b"]);
}

#[test]
fn unknown_size_counts_as_nothing_in_the_range() {
    let unknown = FsEntry::Unknown { name: b"u".to_vec(), size: None };
    assert!(size_in_range(&unknown, None, None));
    assert!(size_in_range(&unknown, Some(0), Some(0)));
    assert!(!size_in_range(&unknown, Some(1), None));
    assert!(size_in_range(&file("f", 3), Some(3), Some(3)));
    assert!(!size_in_range(&file("f", 3), None, Some(2)));
}

#[test]
fn verdicts_of_filters_are_taken() {
    let mut report = ScanReport::new();
    assert!(report.admits(Ok(true)));
    assert!(!report.admits(Ok(false)));
    assert!(report.errors.is_empty());
    assert!(!report.admits(Err(error(ErrorKind::Metadata, "gone", "not found"))));
    assert_eq!(report.errors.len(), 1);
    assert_eq!(report.errors[0].kind, ErrorKind::Metadata);
    assert!(report.results.is_empty());
    assert_eq!(report.stats, ScanStats::default());
}

#[test]
fn totals_that_would_not_fit_are_found_out() {
    let mut stats = ScanStats::default();
    stats.apply_entry(&file("a", u64::MAX - 1));
    assert!(stats.fits(&file("b", 1)));
    assert!(!stats.fits(&file("c", 2)));
    let mut stats = ScanStats::default();
    stats.apply_entry(&FsEntry::File { name: b"l".to_vec(), size: 0, lines: Some(u64::MAX) });
    assert!(!stats.fits(&file("m", 0)));
    assert!(stats.fits(&FsEntry::File { name: b"n".to_vec(), size: 0, lines: None }));
}

#[test]
fn each_kind_of_error_has_its_line() {
    let lines: Vec<String> = [
        ErrorKind::Name,
        ErrorKind::Metadata,
        ErrorKind::ReadDir,
        ErrorKind::DirEntry,
        ErrorKind::Lines,
        ErrorKind::Worker,
    ]
    .iter()
    .map(|kind| error(*kind, "item", "cause").message())
    .collect();
    assert_eq!(
        lines,
        vec![
            "name cannot be shown 'item': cause",
            "error getting metadata for 'item': cause",
            "error reading dir 'item': cause",
            "error reading dir entry 'item': cause",
            "error counting lines of 'item': cause",
            "a reader thread panicked at 'item': cause",
        ]
    );
}

#[test]
fn a_name_that_is_no_text_is_shown_with_replacements() {
    let failed = ScanError {
        kind: ErrorKind::Metadata,
        name: vec![b'a', 0xff, b'b'],
        cause: String::from("denied"),
    };
    assert_eq!(failed.message(), "error getting metadata for 'a\u{fffd}b': denied");
}

#[test]
fn closing_message_counts_the_errors() {
    assert_eq!(errors_message(1), "encountered 1 error");
    assert_eq!(errors_message(2), "encountered 2 errors");
    assert_eq!(errors_message(10), "encountered 10 errors");
    assert_eq!(errors_message(0), "encountered 0 error");
}
