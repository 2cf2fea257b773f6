//! The character-level utilities behind lookup and linking.

use kms::text::{contains_str, is_valid_colour, keys_match, str_eq};

#[test]
fn str_eq_compares_by_characters() {
    assert!(str_eq("言語", "言語"));
    assert!(!str_eq("言語", "言"));
    assert!(!str_eq("abc", "abd"));
    assert!(str_eq("", ""));
}

#[test]
fn contains_str_finds_contiguous_runs() {
    assert!(contains_str("言語学", "言語"));
    assert!(contains_str("言語学", "語学"));
    assert!(contains_str("言語学", ""));
    assert!(!contains_str("言語学", "学言"));
    assert!(!contains_str("短", "長い"));
    assert!(contains_str("ababc", "abc"));
}

#[test]
fn colour_codes_need_a_hash_and_six_hex_digits() {
    assert!(is_valid_colour("#1a2B3c"));
    assert!(is_valid_colour("#000000"));
    assert!(is_valid_colour("#FFFFFF"));
    assert!(!is_valid_colour("#ZZZZZZ"));
    assert!(!is_valid_colour("123456"));
    assert!(!is_valid_colour("#12345"));
    assert!(!is_valid_colour("#1234567"));
    assert!(!is_valid_colour(""));
}

#[test]
fn key_comparison_requires_full_equality() {
    assert!(keys_match(&vec![1, 2, 3], &vec![1, 2, 3]));
    assert!(!keys_match(&vec![1, 2, 3], &vec![1, 2, 4]));
    // A matching prefix is not enough: length counts.
    assert!(!keys_match(&vec![1, 2], &vec![1, 2, 3]));
    assert!(!keys_match(&vec![], &vec![0]));
    assert!(keys_match(&vec![], &vec![]));
}
