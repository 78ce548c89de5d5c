use zellij_bookmarks::text::{
    chars_of, contains, decimal, decimal_chars, join, same_text, starts_with, string_of,
    strip_prefix, trim,
};

#[test]
fn decimal_writes_numbers_without_leading_zeros() {
    assert_eq!(decimal(0), "0");
    assert_eq!(decimal(7), "7");
    assert_eq!(decimal(10), "10");
    assert_eq!(decimal(1234567890), "1234567890");
    assert_eq!(decimal(usize::MAX), usize::MAX.to_string());
}

#[test]
fn contains_finds_a_text_anywhere() {
    assert!(contains("deploy", "de"));
    assert!(contains("deploy", "ploy"));
    assert!(contains("deploy", "deploy"));
    assert!(contains("deploy", ""));
    assert!(contains("", ""));
    assert!(!contains("deploy", "dev"));
    assert!(!contains("de", "deploy"));
}

#[test]
fn starts_with_looks_at_the_beginning_only() {
    assert!(starts_with("123", "12"));
    assert!(starts_with("123", ""));
    assert!(starts_with("123", "123"));
    assert!(!starts_with("123", "23"));
    assert!(!starts_with("12", "123"));
}

#[test]
fn strip_prefix_returns_the_rest() {
    assert_eq!(strip_prefix("bookmark::build", "bookmark::"), Some("build"));
    assert_eq!(strip_prefix("bookmark::", "bookmark::"), Some(""));
    assert_eq!(strip_prefix("cmd::build", "bookmark::"), None);
    assert_eq!(strip_prefix("bookmark::päck", "bookmark::"), Some("päck"));
}

#[test]
fn trim_removes_white_space_at_both_ends() {
    assert_eq!(trim("  echo hi \n"), "echo hi");
    assert_eq!(trim("echo hi"), "echo hi");
    assert_eq!(trim(" \t\n"), "");
    assert_eq!(trim(""), "");
    assert_eq!(trim("\u{a0}é x\u{3000}"), "é x");
}

#[test]
fn join_puts_the_separator_between_neighbours() {
    let none: Vec<String> = Vec::new();
    assert_eq!(join(&none, ", "), "");
    assert_eq!(join(&vec!["a".to_string()], ", "), "a");
    assert_eq!(
        join(&vec!["a".to_string(), "b".to_string(), "c".to_string()], " \\\n&& "),
        "a \\\n&& b \\\n&& c"
    );
}

#[test]
fn a_text_and_its_characters_are_turned_into_each_other() {
    assert_eq!(chars_of("aé\u{1f600}"), vec!['a', 'é', '\u{1f600}']);
    assert!(chars_of("").is_empty());
    assert_eq!(string_of(&vec!['a', 'é', '\u{1f600}']), "aé\u{1f600}");
    assert_eq!(string_of(&Vec::new()), "");
    assert_eq!(decimal_chars(907), vec!['9', '0', '7']);
}

#[test]
fn same_text_compares_character_by_character() {
    assert!(same_text("", ""));
    assert!(same_text("true", "true"));
    assert!(!same_text("true", "True"));
    assert!(!same_text("true", "tru"));
    assert!(!same_text("tru", "true"));
    assert!(!same_text("abc", "abd"));
}

#[test]
fn white_space_is_what_the_standard_library_takes_for_it() {
    let listed = |c: char| {
        let code = c as u32;
        (0x09..=0x0D).contains(&code)
            || code == 0x20
            || code == 0x85
            || code == 0xA0
            || code == 0x1680
            || (0x2000..=0x200A).contains(&code)
            || code == 0x2028
            || code == 0x2029
            || code == 0x202F
            || code == 0x205F
            || code == 0x3000
    };
    let mut count = 0;
    for code in 0..=0x10FFFFu32 {
        if let Some(c) = char::from_u32(code) {
            assert_eq!(c.is_whitespace(), listed(c), "U+{:04X}", code);
            let s = format!("a{}b", c);
            assert_eq!(trim(&format!("{}x{}", c, c)) == "x", listed(c), "U+{:04X}", code);
            if listed(c) {
                count += 1;
                assert_eq!(zellij_bookmarks::text::split_whitespace(&s), vec!["a", "b"]);
            }
        }
    }
    assert_eq!(count, 25);
}
