use dirscan::file_system::entry::FsEntry;
use dirscan::stats::ScanStats;

fn file(name: &str, size: u64, lines: Option<u64>) -> FsEntry {
    FsEntry::File { name: name.as_bytes().to_vec(), size, lines }
}

fn sample() -> Vec<FsEntry> {
    vec![
        file("readme.md", 1200, Some(40)),
        FsEntry::Dir {
            name: b"src".to_vec(),
            size: 99_999,
            children: Some(vec![
                file("main.rs", 90_000, Some(218)),
                FsEntry::Dir {
                    name: b"deep".to_vec(),
                    size: 9_999,
                    children: Some(vec![file("x", 9_999, Some(7))]),
                },
            ]),
        },
        FsEntry::Unknown { name: b"a-rather-long-name.sock".to_vec(), size: None },
        FsEntry::Unknown { name: vec![0xff, 0xfe], size: Some(5) },
        file("empty", 0, None),
    ]
}

fn folded(entries: &[FsEntry]) -> ScanStats {
    let mut stats = ScanStats::default();
    for entry in entries {
        stats.apply_entry(entry);
    }
    stats
}

#[test]
fn fresh_totals_are_zero() {
    let stats = ScanStats::default();
    assert_eq!(stats.total_size, 0);
    assert_eq!(stats.total_lines, 0);
    assert_eq!(stats.max_size, 0);
    assert_eq!(stats.max_size_digits, 0);
    assert_eq!(stats.max_name_len, 0);
    assert_eq!(stats.dir_count + stats.file_count + stats.unknown_count, 0);
}

#[test]
fn totals_over_a_sample() {
    let stats = folded(&sample());
    assert_eq!(stats.total_size, 1200 + 99_999 + 5);
    assert_eq!(stats.total_lines, 40 + 218 + 7);
    assert_eq!(stats.max_size, 99_999);
    assert_eq!(stats.max_size_digits, 5);
    assert_eq!(stats.max_name_len, "a-rather-long-name.sock".len());
    assert_eq!(stats.file_count, 2);
    assert_eq!(stats.dir_count, 1);
    assert_eq!(stats.unknown_count, 2);
}

#[test]
fn entry_without_size_leaves_sizes_alone() {
    let mut stats = ScanStats::default();
    stats.apply_entry(&FsEntry::Unknown { name: b"u".to_vec(), size: None });
    assert_eq!(stats.total_size, 0);
    assert_eq!(stats.max_size, 0);
    assert_eq!(stats.max_size_digits, 0);
    assert_eq!(stats.unknown_count, 1);
    stats.apply_entry(&file("zero", 0, None));
    assert_eq!(stats.max_size, 0);
    assert_eq!(stats.max_size_digits, 1);
}

#[test]
fn placeholder_name_counts_with_its_own_length() {
    let mut stats = ScanStats::default();
    stats.apply_entry(&FsEntry::Unknown { name: vec![0xff], size: None });
    assert_eq!(stats.max_name_len, "[Unknown Entry]".len());
    assert_eq!(stats.max_name_len, 15);
}

#[test]
fn name_length_is_in_bytes() {
    let mut stats = ScanStats::default();
    stats.apply_entry(&file("gr\u{fc}n", 1, None));
    assert_eq!(stats.max_name_len, 5);
}

#[test]
fn order_of_arrival_does_not_matter() {
    let entries = sample();
    let forward = folded(&entries);
    let mut backward: Vec<FsEntry> = sample();
    backward.reverse();
    assert_eq!(folded(&backward), forward);
    let mut rotated: Vec<FsEntry> = sample();
    rotated.rotate_left(2);
    assert_eq!(folded(&rotated), forward);
}

#[test]
fn lines_below_a_directory_are_counted() {
    let entries = sample();
    assert_eq!(entries[1].lines(), None);
    assert_eq!(entries[1].total_lines(), Some(225));
    assert_eq!(entries[0].total_lines(), Some(40));
    assert_eq!(entries[2].total_lines(), Some(0));
    let heavy = FsEntry::Dir {
        name: b"d".to_vec(),
        size: 0,
        children: Some(vec![file("a", 0, Some(u64::MAX)), file("b", 0, Some(1))]),
    };
    assert_eq!(heavy.total_lines(), None);
}
