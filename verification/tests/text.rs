use cosmic_ext_cheatsheet::shortcuts::keys::label_for_name;
use cosmic_ext_cheatsheet::text::{blank, decimal_u8, split_words};

#[test]
fn words_split_on_whitespace() {
    let w: Vec<String> = split_words("  a bc\td\n ").iter().map(|v| v.iter().collect()).collect();
    assert_eq!(w, vec!["a", "bc", "d"]);
    assert!(split_words("   ").is_empty());
}

#[test]
fn blank_texts() {
    assert!(blank(""));
    assert!(blank(" \t\u{3000}"));
    assert!(!blank(" x "));
}

#[test]
fn single_letter_keys_are_upper_cased() {
    assert_eq!(label_for_name("ä"), "Ä");
    assert_eq!(label_for_name("ß"), "SS");
    assert_eq!(label_for_name("q"), "Q");
}

#[test]
fn decimals() {
    assert_eq!(decimal_u8(0), "0");
    assert_eq!(decimal_u8(7), "7");
    assert_eq!(decimal_u8(255), "255");
}
