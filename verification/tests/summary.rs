use dirscan::output::summary::make_summary;
use dirscan::units::system::UnitSystem;
use dirscan::utils::text::{push_decimal, push_repeated, to_decimal};
use dirscan::file_system::entry::FsEntry;

#[test]
fn summary_of_a_small_scan() {
    let summary = make_summary(".", "/home/user/project", "45", 1, 2, 0, 3, 1, "1.23ms");
    let expected = "\
==================================
File/Directory Sizes in '.'
Resolved Path: /home/user/project
Total Size: 45
Items: 3 (1 dirs, 2 files)
Errors: 1
Took: 1.23ms
==================================

";
    assert_eq!(summary, expected);
}

#[test]
fn unknown_entries_are_named_where_there_are_any() {
    let summary = make_summary("d", "r", "0", 0, 0, 4, 4, 0, "t");
    assert!(summary.contains("Items: 4 (0 dirs, 0 files, 4 unknown)\n"));
    let summary = make_summary("d", "r", "0", 0, 0, 0, 0, 0, "t");
    assert!(summary.contains("Items: 0 (0 dirs, 0 files)\n"));
}

#[test]
fn rules_are_as_long_as_the_longest_line_in_bytes() {
    let summary = make_summary("\u{fc}\u{fc}\u{fc}\u{fc}\u{fc}\u{fc}", "r", "1", 0, 0, 0, 0, 0, "t");
    let first = summary.lines().next().unwrap();
    let longest = "File/Directory Sizes in '\u{fc}\u{fc}\u{fc}\u{fc}\u{fc}\u{fc}'\n";
    assert_eq!(first.len(), longest.len());
    assert_eq!(first.len(), 26 + 12 + 1);
    assert!(first.chars().all(|c| c == '='));
    assert!(summary.ends_with(&format!("{}\n\n", first)));
}

#[test]
fn numbers_are_written_in_decimal() {
    for n in [0u64, 1, 9, 10, 11, 99, 100, 101, 12345, 1_000_000, u64::MAX] {
        assert_eq!(to_decimal(n), n.to_string());
    }
    let mut text = String::from("n=");
    push_decimal(&mut text, 407);
    assert_eq!(text, "n=407");
}

#[test]
fn text_is_repeated() {
    let mut text = String::from("[");
    push_repeated(&mut text, "ab", 3);
    push_repeated(&mut text, "x", 0);
    assert_eq!(text, "[ababab");
}

#[test]
fn units_choose_between_size_and_lines() {
    let file = FsEntry::File { name: b"f".to_vec(), size: 10, lines: Some(3) };
    let bare = FsEntry::File { name: b"f".to_vec(), size: 10, lines: None };
    let dir = FsEntry::Dir { name: b"d".to_vec(), size: 20, children: None };
    let unknown = FsEntry::Unknown { name: b"u".to_vec(), size: None };
    for units in [UnitSystem::Raw, UnitSystem::SI, UnitSystem::Binary] {
        assert_eq!(units.units_of(&file), 10);
        assert_eq!(units.units_of(&dir), 20);
        assert_eq!(units.units_of(&unknown), 0);
        assert_eq!(units.total_of(7, 9), 7);
    }
    assert_eq!(UnitSystem::Lines.units_of(&file), 3);
    assert_eq!(UnitSystem::Lines.units_of(&bare), 0);
    assert_eq!(UnitSystem::Lines.units_of(&dir), 0);
    assert_eq!(UnitSystem::Lines.total_of(7, 9), 9);
}
