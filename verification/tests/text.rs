use hmm_app::text::{
    collapse_whitespace, contains_str, decimal_string, is_blank_str, normalize_key, str_equal,
    trim, utf8_len_exceeds,
};

#[test]
fn trimming_and_collapsing_whitespace() {
    assert_eq!(trim("  Big Armor \t\n"), "Big Armor");
    assert_eq!(trim(""), "");
    assert_eq!(trim("   "), "");
    assert_eq!(collapse_whitespace("  a \t b\n\nc  "), "a b c");
    assert!(is_blank_str(" \t\n"));
    assert!(!is_blank_str(" x "));
}

#[test]
fn search_keys_are_lowercase_with_single_spaces() {
    assert_eq!(normalize_key("  Big   ARMOR "), "big armor");
    assert_eq!(normalize_key("Äbc"), "äbc");
}

#[test]
fn equality_containment_and_lengths() {
    assert!(str_equal("mod-a", "mod-a"));
    assert!(!str_equal("mod-a", "mod-A"));
    assert!(contains_str("big armor set", "armor"));
    assert!(contains_str("anything", ""));
    assert!(!contains_str("armor", "armors"));
    assert!(utf8_len_exceeds("ää", 3));
    assert!(!utf8_len_exceeds("ää", 4));
    assert_eq!(decimal_string(0), "0");
    assert_eq!(decimal_string(1234567890), "1234567890");
}
