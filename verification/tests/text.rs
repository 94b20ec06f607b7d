use blacc::text::{has_dash, join_with_commas, parse_number, to_decimal, undash};

#[test]
fn decimal_notation() {
    assert_eq!(to_decimal(0), "0");
    assert_eq!(to_decimal(9), "9");
    assert_eq!(to_decimal(10), "10");
    assert_eq!(to_decimal(88), "88");
    assert_eq!(to_decimal(u64::MAX), "18446744073709551615");
}

#[test]
fn numbers_are_parsed_as_by_the_standard_library() {
    for text in [
        "", "+", "-", "0", "007", "88", "+88", "++88", "-88", "88 ", " 88", "8a", "٣",
        "18446744073709551615", "18446744073709551616", "99999999999999999999999",
        "00000000000000000000000000000000000001", "1_000", "+-1",
    ] {
        assert_eq!(parse_number(text), text.parse::<u64>().ok(), "{:?}", text);
    }
}

#[test]
fn numbers_are_read_back() {
    for n in [0u64, 1, 9, 10, 99, 100, 4096, u64::MAX - 1, u64::MAX] {
        assert_eq!(parse_number(&to_decimal(n)), Some(n));
    }
}

#[test]
fn dashes_become_underscores() {
    assert_eq!(undash("skip-string-normalization"), "skip_string_normalization");
    assert_eq!(undash("line_length"), "line_length");
    assert_eq!(undash("-ü-"), "_ü_");
    assert_eq!(undash(""), "");
    assert_eq!(undash(&undash("a-b")), "a_b");
    assert!(has_dash("a-b"));
    assert!(!has_dash("a_b"));
    assert!(!has_dash(""));
}

#[test]
fn lists_are_joined_with_commas() {
    assert_eq!(join_with_commas(&vec![]), "");
    assert_eq!(join_with_commas(&vec!["py36".to_string()]), "py36");
    assert_eq!(
        join_with_commas(&vec!["py27".to_string(), "".to_string(), "py38".to_string()]),
        "py27,,py38"
    );
}
