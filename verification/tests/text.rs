use bench_clients::text::{
    characters, contains, copy_words, push_word, push_words, same_text, shorten, to_decimal,
    to_hex_quantity, to_signed_decimal,
};

#[test]
fn decimals_are_written_without_leading_zeros() {
    assert_eq!(to_decimal(0), "0");
    assert_eq!(to_decimal(7), "7");
    assert_eq!(to_decimal(10), "10");
    assert_eq!(to_decimal(22_431_084), "22431084");
    assert_eq!(to_decimal(u64::MAX), "18446744073709551615");
}

#[test]
fn signed_decimals_carry_their_sign() {
    assert_eq!(to_signed_decimal(0), "0");
    assert_eq!(to_signed_decimal(101), "101");
    assert_eq!(to_signed_decimal(-1), "-1");
    assert_eq!(to_signed_decimal(i32::MIN), "-2147483648");
    assert_eq!(to_signed_decimal(i32::MAX), "2147483647");
}

#[test]
fn hex_quantities_are_lower_case() {
    assert_eq!(to_hex_quantity(0), "0x0");
    assert_eq!(to_hex_quantity(15), "0xf");
    assert_eq!(to_hex_quantity(16), "0x10");
    assert_eq!(to_hex_quantity(0xabcdef), "0xabcdef");
    assert_eq!(to_hex_quantity(u64::MAX), "0xffffffffffffffff");
}

#[test]
fn numerals_read_back() {
    for n in [0u64, 1, 9, 10, 255, 256, 65_535, 1_000_000_007, u64::MAX] {
        assert_eq!(to_decimal(n).parse::<u64>().unwrap(), n);
        let hex = to_hex_quantity(n);
        assert_eq!(u64::from_str_radix(&hex[2..], 16).unwrap(), n);
    }
}

#[test]
fn commits_are_cut_to_eight_bytes() {
    assert_eq!(shorten("a1b2c3d4e5f6"), "a1b2c3d4");
    assert_eq!(shorten("a1b2c3d4"), "a1b2c3d4");
    assert_eq!(shorten("\u{e9}\u{e9}\u{e9}\u{e9}x"), "\u{e9}\u{e9}\u{e9}\u{e9}");
}

#[test]
fn texts_are_searched_and_compared() {
    assert!(contains("ERROR: The process \"12\" not found.", "not found"));
    assert!(!contains("not foun", "not found"));
    assert!(contains("nnot found", "not found"));
    assert!(contains("", ""));
    assert!(contains("abc", ""));
    assert!(!contains("", "a"));
    assert!(contains("\u{e9}clair", "clair"));
    assert!(same_text("geth", "geth"));
    assert!(!same_text("geth", "reth"));
    assert_eq!(characters("a\u{e9}"), vec!['a', '\u{e9}']);
}

#[test]
fn words_are_collected_in_order() {
    let mut list: Vec<String> = Vec::new();
    push_word(&mut list, "a");
    push_words(&mut list, &["b".to_string(), "c".to_string()]);
    assert_eq!(list, ["a", "b", "c"]);
    assert_eq!(copy_words(&list), list);
}
