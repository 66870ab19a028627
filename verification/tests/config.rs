use dirscan::config::{Args, Config, ConfigError, SortBy};
use dirscan::file_system::entry_type::EntryType;
use dirscan::file_system::error::ErrorKind;
use dirscan::filter::{glob_verdict, make_globset, DirEntryFilter};
use dirscan::units::system::UnitSystem;
use dirscan::utils::tree::TreeDepth;

fn args() -> Args {
    Args {
        dir: String::from("."),
        sort_by_name: false,
        sort_by_size: false,
        sort_by_type: false,
        reverse: false,
        si: false,
        binary: false,
        lines: false,
        regex: None,
        includes: Vec::new(),
        excludes: Vec::new(),
        dirs_only: false,
        files_only: false,
        min_size: None,
        max_size: None,
        max_bar_width: 50,
        children_depth: None,
        max_threads: None,
        no_errors: false,
    }
}

fn config(args: Args) -> Config {
    match args.try_into() {
        Ok(config) => config,
        Err(_) => panic!("arguments were refused"),
    }
}

fn strings(items: &[&str]) -> Vec<String> {
    items.iter().map(|s| s.to_string()).collect()
}

fn keeps(filter: &DirEntryFilter, name: &str) -> bool {
    match filter.try_match(&name.as_bytes().to_vec()) {
        Ok(kept) => kept,
        Err(_) => panic!("no verdict on {:?}", name),
    }
}

#[test]
fn plain_arguments_give_the_defaults() {
    let config = config(args());
    assert_eq!(config.dir, ".");
    assert_eq!(config.unit_system, UnitSystem::Raw);
    assert_eq!(config.sort_by, None);
    assert!(!config.reverse);
    assert!(config.filter.is_none());
    assert_eq!(config.needs_type, None);
    assert_eq!(config.min_size, None);
    assert_eq!(config.max_size, None);
    assert_eq!(config.max_bar_width, 50);
    assert!(config.children_depth.is_none());
    assert_eq!(config.max_threads, None);
    assert!(!config.no_errors);
}

#[test]
fn flags_are_carried_over() {
    let config = config(Args {
        dir: String::from("/tmp"),
        sort_by_size: true,
        reverse: true,
        si: true,
        files_only: true,
        min_size: Some(10),
        max_size: Some(20),
        max_bar_width: 7,
        children_depth: Some(TreeDepth::Depth(2)),
        max_threads: Some(4),
        no_errors: true,
        ..args()
    });
    assert_eq!(config.dir, "/tmp");
    assert_eq!(config.unit_system, UnitSystem::SI);
    assert_eq!(config.sort_by, Some(SortBy::Size));
    assert!(config.reverse);
    assert_eq!(config.needs_type, Some(EntryType::File));
    assert_eq!(config.min_size, Some(10));
    assert_eq!(config.max_size, Some(20));
    assert_eq!(config.max_bar_width, 7);
    assert!(matches!(config.children_depth, Some(TreeDepth::Depth(2))));
    assert_eq!(config.max_threads, Some(4));
    assert!(config.no_errors);
}

#[test]
fn earlier_choices_win() {
    let all = config(Args {
        sort_by_name: true,
        sort_by_size: true,
        sort_by_type: true,
        lines: true,
        binary: true,
        si: true,
        dirs_only: true,
        files_only: true,
        ..args()
    });
    assert_eq!(all.sort_by, Some(SortBy::Name));
    assert_eq!(all.unit_system, UnitSystem::Lines);
    assert_eq!(all.needs_type, Some(EntryType::Dir));
    let some = config(Args { sort_by_type: true, binary: true, si: true, ..args() });
    assert_eq!(some.sort_by, Some(SortBy::Type));
    assert_eq!(some.unit_system, UnitSystem::Binary);
}

#[test]
fn least_size_must_be_under_the_greatest() {
    for (min, max) in [(Some(5), Some(5)), (Some(6), Some(5)), (Some(u64::MAX), None), (None, Some(0))] {
        match (Args { min_size: min, max_size: max, ..args() }).try_into() {
            Err(ConfigError::SizeRange { min_size, max_size }) => {
                assert_eq!(min_size, min.unwrap_or(0));
                assert_eq!(max_size, max.unwrap_or(u64::MAX));
            }
            _ => panic!("{:?}..{:?} was not refused", min, max),
        }
    }
    assert!((Args { min_size: Some(4), max_size: Some(5), ..args() }).try_into().is_ok());
    assert!((Args { min_size: None, max_size: Some(1), ..args() }).try_into().is_ok());
}

#[test]
fn size_range_is_checked_before_the_patterns() {
    let refused = Args {
        min_size: Some(2),
        max_size: Some(1),
        regex: Some(String::from("(")),
        ..args()
    };
    assert!(matches!(refused.try_into(), Err(ConfigError::SizeRange { .. })));
}

#[test]
fn bad_regex_is_refused() {
    let refused = Args { regex: Some(String::from("a(b")), ..args() };
    match refused.try_into() {
        Err(ConfigError::Regex(error)) => assert!(!error.to_string().is_empty()),
        _ => panic!("the expression was not refused"),
    }
}

#[test]
fn bad_glob_is_refused() {
    let refused = Args { includes: strings(&["*.rs", "a[b"]), ..args() };
    assert!(matches!(refused.try_into(), Err(ConfigError::Glob(_))));
    let refused = Args { excludes: strings(&["{a,b"]), ..args() };
    assert!(matches!(refused.try_into(), Err(ConfigError::Glob(_))));
    assert!(make_globset(&strings(&["ok", "[z-a]"])).is_err());
    assert!(make_globset(&strings(&[])).is_ok());
}

#[test]
fn regex_goes_before_globs() {
    let config = config(Args {
        regex: Some(String::from("^a")),
        includes: strings(&["a[b"]),
        ..args()
    });
    assert!(matches!(config.filter, Some(DirEntryFilter::Regex(_))));
}

#[test]
fn regex_filter_matches_anywhere_in_the_name() {
    let config = config(Args { regex: Some(String::from(r"\.rs$")), ..args() });
    let filter = config.filter.unwrap();
    assert!(keeps(&filter, "main.rs"));
    assert!(!keeps(&filter, "main.rs.bak"));
    assert!(!keeps(&filter, "readme"));
    let config = config_of_regex("ea");
    assert!(keeps(&config, "readme"));
    assert!(!keeps(&config, "main.rs"));
}

fn config_of_regex(pattern: &str) -> DirEntryFilter {
    config(Args { regex: Some(pattern.to_string()), ..args() }).filter.unwrap()
}

#[test]
fn regex_filter_cannot_tell_of_a_name_that_is_no_text() {
    let filter = config_of_regex(".*");
    let name = vec![b'a', 0xff];
    let error = filter.try_match(&name).unwrap_err();
    assert_eq!(error.kind, ErrorKind::Name);
    assert_eq!(error.name, name);
}

#[test]
fn globs_to_include_and_to_exclude() {
    let both = config(Args {
        includes: strings(&["*.rs", "*.toml"]),
        excludes: strings(&["main.*"]),
        ..args()
    })
    .filter
    .unwrap();
    assert!(matches!(both, DirEntryFilter::Glob { .. }));
    assert!(keeps(&both, "lib.rs"));
    assert!(keeps(&both, "Cargo.toml"));
    assert!(!keeps(&both, "main.rs"));
    assert!(!keeps(&both, "notes.txt"));

    let only_wanted = config(Args { includes: strings(&["*.rs"]), ..args() }).filter.unwrap();
    assert!(keeps(&only_wanted, "main.rs"));
    assert!(!keeps(&only_wanted, "main.c"));

    let only_unwanted = config(Args { excludes: strings(&["*.rs"]), ..args() }).filter.unwrap();
    assert!(!keeps(&only_unwanted, "main.rs"));
    assert!(keeps(&only_unwanted, "main.c"));
    assert!(keeps(&only_unwanted, "anything"));
}

#[test]
fn globs_take_names_that_are_no_text() {
    let filter = config(Args { includes: strings(&["a*"]), ..args() }).filter.unwrap();
    assert_eq!(filter.try_match(&vec![b'a', 0xff]).unwrap(), true);
    assert_eq!(filter.try_match(&vec![0xff, b'a']).unwrap(), false);
}

#[test]
fn verdict_of_the_globs() {
    assert!(glob_verdict(true, false, true, false));
    assert!(glob_verdict(false, true, true, false));
    assert!(!glob_verdict(false, false, true, false));
    assert!(!glob_verdict(true, false, false, true));
    assert!(glob_verdict(true, false, false, false));
    assert!(!glob_verdict(false, true, false, true));
    assert!(glob_verdict(false, true, false, false));
    assert!(glob_verdict(true, true, true, true));
}
