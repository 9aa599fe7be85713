use nexus_client::text::{
    chars_of, concat2, concat3, ends_with, find, find_last_char, matches_at, slice_string,
    starts_with, trim_bounds, white_space,
};

fn chars(s: &str) -> Vec<char> {
    s.chars().collect()
}

#[test]
fn characters_of_a_text() {
    assert_eq!(chars_of("aé/"), vec!['a', 'é', '/']);
    assert!(chars_of("").is_empty());
}

#[test]
fn finding_a_pattern() {
    assert_eq!(find(&chars("a::b::c"), &chars("::")), Some(1));
    assert_eq!(find(&chars("abc"), &chars("::")), None);
    assert_eq!(find(&chars("abc"), &chars("")), Some(0));
    assert_eq!(find(&chars(""), &chars("")), Some(0));
    assert_eq!(find(&chars(":"), &chars("::")), None);
    assert_eq!(find(&chars("a:::"), &chars("::")), Some(1));
    assert_eq!(find(&chars("xé//"), &chars("//")), Some(2));
    assert_eq!(find_last_char(&chars("/a/b/c"), '/'), Some(4));
    assert_eq!(find_last_char(&chars("abc"), '/'), None);
    assert_eq!(find_last_char(&chars("/"), '/'), Some(0));
}

#[test]
fn prefixes_and_suffixes() {
    assert!(starts_with(&chars("::/repo"), &chars("::/")));
    assert!(!starts_with(&chars(":/repo"), &chars("::/")));
    assert!(!starts_with(&chars("::"), &chars("::/")));
    assert!(starts_with(&chars("abc"), &chars("")));
    assert!(ends_with(&chars("/org/"), &chars("/")));
    assert!(!ends_with(&chars("/org"), &chars("/")));
    assert!(!ends_with(&chars(""), &chars("/")));
    assert!(matches_at(&chars("abcd"), &chars("cd"), 2));
    assert!(!matches_at(&chars("abcd"), &chars("cd"), 3));
    assert!(!matches_at(&chars("abcd"), &chars("cd"), 9));
}

#[test]
fn white_space_is_trimmed_at_both_ends() {
    assert!(white_space(' '));
    assert!(white_space('\t'));
    assert!(white_space('\n'));
    assert!(white_space('\u{a0}'));
    assert!(white_space('\u{3000}'));
    assert!(!white_space('a'));
    assert!(!white_space('\u{200b}'));
    for c in ['\u{0}', '\u{8}', '\u{e}', '\u{1f}', '\u{85}', '\u{1680}', '\u{2000}', '\u{200a}',
        '\u{2028}', '\u{2029}', '\u{202f}', '\u{205f}', '\u{feff}', 'x', '_']
    {
        assert_eq!(white_space(c), c.is_whitespace());
    }
    let s = chars("  a b \t");
    assert_eq!(trim_bounds(&s, 0, s.len()), (2, 5));
    assert_eq!(trim_bounds(&s, 3, s.len()), (4, 5));
    let blank = chars("   ");
    let (from, to) = trim_bounds(&blank, 0, 3);
    assert_eq!(from, to);
    assert_eq!(trim_bounds(&chars("ab"), 0, 2), (0, 2));
}

#[test]
fn slicing_and_joining() {
    assert_eq!(slice_string("aébc", 1, 3), "éb");
    assert_eq!(slice_string("abc", 3, 3), "");
    assert_eq!(concat2("ab", "cd"), "abcd");
    assert_eq!(concat3("a", "", "c"), "ac");
}
