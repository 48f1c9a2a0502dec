use incredi::text::{is_whitespace, parse_u32, str_eq, to_decimal, trim};

#[test]
fn equal_texts_are_equal() {
    assert!(str_eq("", ""));
    assert!(str_eq("show", "show"));
    assert!(str_eq("héllo", "héllo"));
    assert!(!str_eq("show", "shoW"));
    assert!(!str_eq("show", "sho"));
    assert!(!str_eq("", " "));
}

#[test]
fn trim_removes_white_space_at_both_ends_only() {
    assert_eq!(trim("  a b \t\n"), "a b");
    assert_eq!(trim("show\n"), "show");
    assert_eq!(trim("show"), "show");
    assert_eq!(trim(""), "");
    assert_eq!(trim(" \n\t "), "");
    assert_eq!(trim("\u{a0}x\u{3000}"), "x");
    assert_eq!(trim("\u{2003}é \u{2028}"), "é");
}

#[test]
fn trim_agrees_with_the_standard_library() {
    for code in 0..0x3100u32 {
        if let Some(c) = char::from_u32(code) {
            assert_eq!(is_whitespace(c), c.is_whitespace());
            let text = format!("{}x{}", c, c);
            assert_eq!(trim(&text), text.trim());
        }
    }
}

#[test]
fn numbers_are_read_in_their_radix() {
    assert_eq!(parse_u32("0", 10), Some(0));
    assert_eq!(parse_u32("4294967295", 10), Some(u32::MAX));
    assert_eq!(parse_u32("+17", 10), Some(17));
    assert_eq!(parse_u32("0017", 10), Some(17));
    assert_eq!(parse_u32("ff", 16), Some(255));
    assert_eq!(parse_u32("FF", 16), Some(255));
    assert_eq!(parse_u32("ffffffff", 16), Some(u32::MAX));
    assert_eq!(parse_u32("0000000000ff", 16), Some(255));
    assert_eq!(parse_u32("z", 36), Some(35));
}

#[test]
fn what_is_no_number_is_not_read() {
    for text in ["", "+", "-1", "++1", "1 ", " 1", "1_000", "4294967296", "12a", "٣"] {
        assert_eq!(parse_u32(text, 10), None);
    }
    assert_eq!(parse_u32("100000000", 16), None);
    assert_eq!(parse_u32("fg", 16), None);
    assert_eq!(parse_u32("2", 2), None);
}

#[test]
fn reading_agrees_with_the_standard_library() {
    for text in ["", "+", "+0", "-0", "7", "+7", "007", "4294967295", "4294967296", "99999999999", "1e3", "a", "A9"] {
        assert_eq!(parse_u32(text, 10), text.parse::<u32>().ok());
        assert_eq!(parse_u32(text, 16), u32::from_str_radix(text, 16).ok());
    }
}

#[test]
fn numbers_are_written_in_decimal() {
    assert_eq!(to_decimal(0), "0");
    assert_eq!(to_decimal(9), "9");
    assert_eq!(to_decimal(10), "10");
    assert_eq!(to_decimal(62914563), "62914563");
    assert_eq!(to_decimal(u32::MAX), "4294967295");
}

#[test]
fn a_written_number_reads_back() {
    for n in [0, 1, 9, 10, 99, 100, 12345, u32::MAX - 1, u32::MAX] {
        assert_eq!(parse_u32(&to_decimal(n), 10), Some(n));
    }
}
