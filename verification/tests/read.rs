use dirscan::file_system::entry::FsEntry;
use dirscan::file_system::entry_type::{EntryType, Metadata};
use dirscan::file_system::error::{ErrorKind, ScanError};
use dirscan::file_system::line_count::count_lines;
use dirscan::file_system::read::{crashed_entry, read_entry_recursive, Probe};
use dirscan::stats::ScanStats;

fn file(name: &str, content: &[u8]) -> Probe {
    Probe {
        name: name.as_bytes().to_vec(),
        metadata: Ok(Metadata { is_file: true, is_dir: false, len: content.len() as u64 }),
        lines: Some(Ok(count_lines(content))),
        listing: None,
    }
}

fn sized_file(name: &str, len: u64) -> Probe {
    Probe {
        name: name.as_bytes().to_vec(),
        metadata: Ok(Metadata { is_file: true, is_dir: false, len }),
        lines: None,
        listing: None,
    }
}

fn dir(name: &str, own: u64, items: Vec<Result<Probe, String>>) -> Probe {
    Probe {
        name: name.as_bytes().to_vec(),
        metadata: Ok(Metadata { is_file: false, is_dir: true, len: own }),
        lines: None,
        listing: Some(Ok(items)),
    }
}

fn scan(probe: &Probe, count: bool) -> (FsEntry, Vec<ScanError>) {
    assert!(probe.checked_size().is_some());
    let mut errors = Vec::new();
    let entry = read_entry_recursive(probe, count, &mut errors);
    (entry, errors)
}

fn top_level() -> Vec<Probe> {
    vec![
        file("a.txt", b"first 789\nsecond 89\nthird 789\n"),
        file("b.bin", &[0xff, 0xfe, 0x00, 0x01, 0x02, 0x80, 0x81, 0x82, 0x83, 0x84]),
        dir(
            "c",
            4096,
            vec![Ok(file("d.txt", b"four\n")), Err(String::from("permission denied"))],
        ),
    ]
}

#[test]
fn end_to_end_scenario() {
    let mut stats = ScanStats::default();
    let mut results = Vec::new();
    let mut errors = Vec::new();
    for probe in top_level() {
        let (entry, errs) = scan(&probe, true);
        stats.apply_entry(&entry);
        results.push(entry);
        errors.extend(errs);
    }
    match &results[0] {
        FsEntry::File { name, size, lines } => {
            assert_eq!(name, b"a.txt");
            assert_eq!(*size, 30);
            assert_eq!(*lines, Some(3));
        }
        other => panic!("a.txt is {:?}", other.name_str()),
    }
    match &results[1] {
        FsEntry::File { size, lines, .. } => {
            assert_eq!(*size, 10);
            assert_eq!(*lines, Some(0));
        }
        other => panic!("b.bin is {:?}", other.name_str()),
    }
    match &results[2] {
        FsEntry::Dir { size, children, .. } => {
            assert_eq!(*size, 5);
            let children = children.as_ref().unwrap();
            assert_eq!(children.len(), 1);
            assert_eq!(children[0].name_str(), "d.txt");
            assert_eq!(children[0].size(), Some(5));
            assert_eq!(children[0].lines(), Some(1));
        }
        other => panic!("c is {:?}", other.name_str()),
    }
    assert_eq!(stats.total_size, 45);
    assert_eq!(stats.total_lines, 4);
    assert_eq!(stats.file_count, 2);
    assert_eq!(stats.dir_count, 1);
    assert_eq!(stats.unknown_count, 0);
    assert_eq!(errors.len(), 1);
    assert_eq!(errors[0].kind, ErrorKind::DirEntry);
    assert_eq!(errors[0].name, b"c");
    assert_eq!(errors[0].cause, "permission denied");
}

#[test]
fn end_to_end_scenario_without_line_counting() {
    let mut stats = ScanStats::default();
    let mut errors = Vec::new();
    for probe in top_level() {
        let (entry, errs) = scan(&probe, false);
        if let FsEntry::File { lines, .. } = &entry {
            assert_eq!(*lines, None);
        }
        stats.apply_entry(&entry);
        errors.extend(errs);
    }
    assert_eq!(stats.total_size, 45);
    assert_eq!(stats.total_lines, 0);
    assert_eq!(errors.len(), 1);
}

#[test]
fn scanning_twice_gives_the_same() {
    for probe in top_level() {
        let (first, first_errors) = scan(&probe, true);
        let (second, second_errors) = scan(&probe, true);
        assert_eq!(first, second);
        assert_eq!(first_errors, second_errors);
    }
}

#[test]
fn directory_size_is_the_sum_of_its_children() {
    let tree = dir(
        "root",
        4096,
        vec![
            Ok(sized_file("a", 7)),
            Ok(dir("sub", 4096, vec![Ok(sized_file("b", 11)), Ok(sized_file("c", 13))])),
            Ok(dir("empty", 4096, vec![])),
            Ok(sized_file("d", 100)),
        ],
    );
    let (entry, errors) = scan(&tree, false);
    assert!(errors.is_empty());
    assert_eq!(entry.size(), Some(131));
    match entry {
        FsEntry::Dir { children: Some(children), .. } => {
            let sizes: Vec<Option<u64>> = children.iter().map(|c| c.size()).collect();
            assert_eq!(sizes, vec![Some(7), Some(24), Some(0), Some(100)]);
        }
        _ => panic!("root is no listed directory"),
    }
}

#[test]
fn metadata_failure_gives_unknown_and_one_error() {
    let probe = Probe {
        name: b"gone".to_vec(),
        metadata: Err(String::from("not found")),
        lines: Some(Ok(3)),
        listing: None,
    };
    let (entry, errors) = scan(&probe, true);
    assert!(matches!(entry, FsEntry::Unknown { size: None, .. }));
    assert_eq!(entry.name(), b"gone");
    assert_eq!(errors.len(), 1);
    assert_eq!(errors[0].kind, ErrorKind::Metadata);
    assert_eq!(errors[0].name, b"gone");
    assert_eq!(errors[0].cause, "not found");
}

#[test]
fn child_without_metadata_stays_but_adds_nothing() {
    let broken = Probe {
        name: b"broken".to_vec(),
        metadata: Err(String::from("denied")),
        lines: None,
        listing: None,
    };
    let tree = dir("d", 0, vec![Ok(sized_file("x", 9)), Ok(broken), Ok(sized_file("y", 1))]);
    let (entry, errors) = scan(&tree, false);
    assert_eq!(entry.size(), Some(10));
    assert_eq!(errors.len(), 1);
    match entry {
        FsEntry::Dir { children: Some(children), .. } => {
            assert_eq!(children.len(), 3);
            assert!(matches!(children[1], FsEntry::Unknown { size: None, .. }));
        }
        _ => panic!("d is no listed directory"),
    }
}

#[test]
fn unlisted_directory_keeps_its_own_size() {
    let probe = Probe {
        name: b"locked".to_vec(),
        metadata: Ok(Metadata { is_file: false, is_dir: true, len: 4096 }),
        lines: None,
        listing: Some(Err(String::from("permission denied"))),
    };
    let (entry, errors) = scan(&probe, true);
    assert!(matches!(entry, FsEntry::Dir { size: 4096, children: None, .. }));
    assert_eq!(errors.len(), 1);
    assert_eq!(errors[0].kind, ErrorKind::ReadDir);
    assert_eq!(errors[0].name, b"locked");
}

#[test]
fn unreadable_file_has_no_lines_and_one_error() {
    let probe = Probe {
        name: b"secret".to_vec(),
        metadata: Ok(Metadata { is_file: true, is_dir: false, len: 12 }),
        lines: Some(Err(String::from("permission denied"))),
        listing: None,
    };
    let (entry, errors) = scan(&probe, true);
    assert!(matches!(entry, FsEntry::File { size: 12, lines: None, .. }));
    assert_eq!(errors.len(), 1);
    assert_eq!(errors[0].kind, ErrorKind::Lines);

    let (entry, errors) = scan(&probe, false);
    assert!(matches!(entry, FsEntry::File { size: 12, lines: None, .. }));
    assert!(errors.is_empty());
}

#[test]
fn other_kinds_are_unknown_without_error() {
    let probe = Probe {
        name: b"socket".to_vec(),
        metadata: Ok(Metadata { is_file: false, is_dir: false, len: 0 }),
        lines: None,
        listing: None,
    };
    let (entry, errors) = scan(&probe, true);
    assert!(matches!(entry, FsEntry::Unknown { size: None, .. }));
    assert!(errors.is_empty());
}

#[test]
fn name_that_is_no_text_is_recorded_and_kept() {
    let raw = vec![b'a', 0xff, b'b'];
    let probe = Probe {
        name: raw.clone(),
        metadata: Ok(Metadata { is_file: true, is_dir: false, len: 1 }),
        lines: None,
        listing: None,
    };
    let (entry, errors) = scan(&probe, false);
    assert_eq!(entry.name(), &raw);
    assert_eq!(entry.name_str(), "[Unknown Entry]");
    assert_eq!(errors.len(), 1);
    assert_eq!(errors[0].kind, ErrorKind::Name);
    assert_eq!(errors[0].name, raw);
}

#[test]
fn errors_come_in_the_order_of_the_walk() {
    let tree = dir(
        "top",
        0,
        vec![
            Err(String::from("first")),
            Ok(dir("inner", 0, vec![Err(String::from("second"))])),
            Ok(Probe {
                name: b"f".to_vec(),
                metadata: Err(String::from("third")),
                lines: None,
                listing: None,
            }),
            Err(String::from("fourth")),
        ],
    );
    let mut errors = vec![ScanError {
        kind: ErrorKind::Worker,
        name: b"earlier".to_vec(),
        cause: String::from("kept"),
    }];
    let entry = read_entry_recursive(&tree, true, &mut errors);
    let causes: Vec<&str> = errors.iter().map(|e| e.cause.as_str()).collect();
    assert_eq!(causes, vec!["kept", "first", "second", "third", "fourth"]);
    let names: Vec<&[u8]> = errors.iter().map(|e| e.name.as_slice()).collect();
    assert_eq!(names, vec![&b"earlier"[..], b"top", b"inner", b"f", b"top"]);
    assert_eq!(entry.size(), Some(0));
}

#[test]
fn sizes_that_do_not_fit_are_found_out() {
    let tree = dir(
        "huge",
        0,
        vec![Ok(sized_file("a", u64::MAX)), Ok(sized_file("b", 1))],
    );
    assert_eq!(tree.checked_size(), None);
    let tree = dir(
        "large",
        0,
        vec![Ok(sized_file("a", u64::MAX - 1)), Ok(sized_file("b", 1))],
    );
    assert_eq!(tree.checked_size(), Some(u64::MAX));
    let (entry, _) = scan(&tree, false);
    assert_eq!(entry.size(), Some(u64::MAX));
}

#[test]
fn crashed_worker_leaves_a_placeholder() {
    let (entry, error) = crashed_entry(&b"lost".to_vec(), &String::from("worker panicked"));
    assert!(matches!(entry, FsEntry::Unknown { size: None, .. }));
    assert_eq!(entry.name_str(), "lost");
    assert_eq!(error.kind, ErrorKind::Worker);
    assert_eq!(error.name, b"lost");
    assert_eq!(error.cause, "worker panicked");
}

#[test]
fn kinds_are_told_from_metadata() {
    let file = Metadata { is_file: true, is_dir: false, len: 1 };
    let dir = Metadata { is_file: false, is_dir: true, len: 1 };
    let other = Metadata { is_file: false, is_dir: false, len: 1 };
    assert_eq!(EntryType::classify(&file), Some(EntryType::File));
    assert_eq!(EntryType::classify(&dir), Some(EntryType::Dir));
    assert_eq!(EntryType::classify(&other), None);
    let name = b"n".to_vec();
    assert_eq!(EntryType::Dir.try_match(&name, &Ok(dir)).unwrap(), true);
    assert_eq!(EntryType::Dir.try_match(&name, &Ok(file)).unwrap(), false);
    assert_eq!(EntryType::File.try_match(&name, &Ok(file)).unwrap(), true);
    assert_eq!(EntryType::File.try_match(&name, &Ok(other)).unwrap(), false);
    let failed = EntryType::File.try_match(&name, &Err(String::from("denied"))).unwrap_err();
    assert_eq!(failed.kind, ErrorKind::Metadata);
    assert_eq!(failed.name, name);
    assert_eq!(failed.cause, "denied");
}
