use star_escrow::text::{
    chars_of, decimal_i128, decimal_u128, i128_text, is_space_char, same_text, trim, trim_chars,
    u32_text, u64_text,
};

#[test]
fn trim_removes_ascii_and_unicode_whitespace() {
    assert_eq!(trim("  CABC123 \n"), "CABC123");
    assert_eq!(trim("\u{3000}\u{a0}id\u{2028}\t"), "id");
    assert_eq!(trim("   "), "");
    assert_eq!(trim(""), "");
    assert_eq!(trim("a b"), "a b");
}

#[test]
fn trim_agrees_with_std() {
    for s in ["\r\n x \r\n", "\u{85}y\u{200a}", "\u{200b}z", "  inner  space  "] {
        assert_eq!(trim(s), s.trim());
    }
}

#[test]
fn trim_chars_keeps_inner_text() {
    let cs: Vec<char> = " a\tb ".chars().collect();
    assert_eq!(trim_chars(&cs), vec!['a', '\t', 'b']);
}

#[test]
fn is_space_char_matches_std() {
    for c in ['\t', '\n', '\u{b}', '\u{c}', '\r', ' ', '\u{85}', '\u{a0}', '\u{1680}', '\u{2000}',
        '\u{200a}', '\u{2028}', '\u{2029}', '\u{202f}', '\u{205f}', '\u{3000}', 'a', '\u{200b}',
        '\u{feff}', '0']
    {
        assert_eq!(is_space_char(c), c.is_whitespace(), "{:?}", c);
    }
}

#[test]
fn decimal_numerals_match_display() {
    assert_eq!(decimal_u128(0), vec!['0']);
    assert_eq!(decimal_u128(10_000_000), "10000000".chars().collect::<Vec<_>>());
    assert_eq!(decimal_i128(-42), vec!['-', '4', '2']);
    assert_eq!(i128_text(i128::MIN), i128::MIN.to_string());
    assert_eq!(i128_text(i128::MAX), i128::MAX.to_string());
    assert_eq!(i128_text(-1), "-1");
    assert_eq!(u64_text(u64::MAX), u64::MAX.to_string());
    assert_eq!(u32_text(100), "100");
    assert_eq!(u32_text(0), "0");
}

#[test]
fn decimal_round_trip_on_values() {
    for n in [0i128, 7, 10, 99, 100, 12345678901234567890, -5, -1000] {
        assert_eq!(i128_text(n).parse::<i128>().unwrap(), n);
    }
}

#[test]
fn same_text_compares_characters() {
    assert!(same_text("escrow_created", "escrow_created"));
    assert!(!same_text("escrow_created", "escrow_create"));
    assert!(!same_text("abc", "abd"));
    assert!(same_text("", ""));
    assert_eq!(chars_of("héllo"), vec!['h', 'é', 'l', 'l', 'o']);
}

#[test]
fn trimming_twice_changes_nothing_more() {
    for s in ["  a  ", "\u{3000}b\t", "", " ", "c"] {
        let once = trim(s);
        assert_eq!(trim(&once), once);
        assert!(!once.starts_with(char::is_whitespace) && !once.ends_with(char::is_whitespace));
    }
}
