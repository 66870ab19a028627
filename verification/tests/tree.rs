use dirscan::utils::tree::{reached, TreeDepth};

#[test]
fn empty_text_and_all_mean_no_limit() {
    assert!(matches!(TreeDepth::parse(""), Ok(TreeDepth::All)));
    assert!(matches!(TreeDepth::parse("all"), Ok(TreeDepth::All)));
    assert!(matches!(TreeDepth::parse("ALL"), Ok(TreeDepth::All)));
    assert!(matches!(TreeDepth::parse("aLl"), Ok(TreeDepth::All)));
    assert!(matches!("All".parse::<TreeDepth>(), Ok(TreeDepth::All)));
}

#[test]
fn numbers_are_depths() {
    assert!(matches!(TreeDepth::parse("0"), Ok(TreeDepth::Depth(0))));
    assert!(matches!(TreeDepth::parse("3"), Ok(TreeDepth::Depth(3))));
    assert!(matches!(TreeDepth::parse("+12"), Ok(TreeDepth::Depth(12))));
    assert!(matches!(TreeDepth::parse("007"), Ok(TreeDepth::Depth(7))));
    assert!(matches!("42".parse::<TreeDepth>(), Ok(TreeDepth::Depth(42))));
    let largest = usize::MAX.to_string();
    assert!(matches!(TreeDepth::parse(&largest), Ok(TreeDepth::Depth(usize::MAX))));
}

#[test]
fn other_text_is_refused_with_the_text() {
    for text in ["al", "alll", "-1", "+", "1.5", " 1", "1 ", "x", "12a", "\u{661}"] {
        let invalid = TreeDepth::parse(text).unwrap_err();
        assert_eq!(invalid.value, text);
        assert_eq!(text.parse::<usize>().is_err(), true);
    }
    let too_large = format!("{}0", usize::MAX);
    assert_eq!(TreeDepth::parse(&too_large).unwrap_err().value, too_large);
}

#[test]
fn parsing_agrees_with_std_on_numbers() {
    for text in ["0", "9", "10", "+5", "000", "18446744073709551615", "18446744073709551616"] {
        match (TreeDepth::parse(text), text.parse::<usize>()) {
            (Ok(TreeDepth::Depth(n)), Ok(m)) => assert_eq!(n, m),
            (Err(_), Err(_)) => {}
            _ => panic!("disagreement on {:?}", text),
        }
    }
}

#[test]
fn no_limit_is_above_every_depth() {
    assert!(TreeDepth::All > 0usize);
    assert!(TreeDepth::All > usize::MAX);
    assert!(TreeDepth::All != 5usize);
    assert!(5usize < TreeDepth::All);
    assert!(5usize != TreeDepth::All);
}

#[test]
fn depths_compare_as_numbers() {
    assert!(TreeDepth::Depth(3) == 3usize);
    assert!(TreeDepth::Depth(3) > 2usize);
    assert!(TreeDepth::Depth(3) < 4usize);
    assert!(3usize == TreeDepth::Depth(3));
    assert!(4usize >= TreeDepth::Depth(3));
    assert!(2usize < TreeDepth::Depth(3));
}

#[test]
fn a_level_reaches_a_limit_from_the_limit_on() {
    assert!(!reached(0, TreeDepth::Depth(1)));
    assert!(reached(1, TreeDepth::Depth(1)));
    assert!(reached(2, TreeDepth::Depth(1)));
    assert!(reached(0, TreeDepth::Depth(0)));
    assert!(!reached(usize::MAX, TreeDepth::All));
}
