use amble::text::{
    contains, decimal, drop_hyphens, hyphens_to_colons, join_list, parse_i8, parse_u16, parse_u8,
    signed_decimal, split, split_whitespace, strip_prefix, strip_suffix, trim,
};

#[test]
fn splitting() {
    assert_eq!(split("a/b", '/'), vec!["a", "b"]);
    assert_eq!(split("", '/'), vec![""]);
    assert_eq!(split("/x//", '/'), vec!["", "x", "", ""]);
    assert_eq!(split_whitespace("  cct 50\t5600\n key "), vec!["cct", "50", "5600", "key"]);
    assert_eq!(split_whitespace(" \t"), Vec::<String>::new());
}

#[test]
fn trimming_and_replacing() {
    assert_eq!(trim("  a b \n"), "a b");
    assert_eq!(trim(" \u{3000}\t"), "");
    assert_eq!(hyphens_to_colons("a-b-c"), "a:b:c");
    assert_eq!(drop_hyphens("a-b--c"), "abc");
}

#[test]
fn searching() {
    assert!(contains("my amaran light", "amaran"));
    assert!(contains("abc", ""));
    assert!(!contains("amara", "amaran"));
    assert!(!contains("aaab", "aac"));
    assert_eq!(strip_prefix("mqtt://host", "mqtt://"), Some("host".to_string()));
    assert_eq!(strip_prefix("host", "mqtt://"), None);
    assert_eq!(strip_suffix("key/set", "/set"), Some("key".to_string()));
    assert_eq!(strip_suffix("key/get", "/set"), None);
    let list = vec!["a".to_string(), "b".to_string(), "c".to_string()];
    assert_eq!(join_list(&list, ", "), "a, b, c");
    assert_eq!(join_list(&Vec::new(), ", "), "");
}

#[test]
fn reading_numbers() {
    for text in [
        "", "0", "7", "+7", "++7", "-0", "-7", "255", "256", "00255", "65535", "65536", "1.5", " 1",
        "1 ", "x", "+", "-", "99999999999999999999999", "127", "128", "-128", "-129", "-+1", "+-1",
    ] {
        assert_eq!(parse_u8(text), text.parse::<u8>().ok());
        assert_eq!(parse_u16(text), text.parse::<u16>().ok());
        assert_eq!(parse_i8(text), text.parse::<i8>().ok());
    }
}

#[test]
fn writing_numbers() {
    for n in [0u64, 9, 10, 99, 100, 65535, u64::MAX] {
        assert_eq!(decimal(n), n.to_string());
    }
    for n in [0i64, -1, -128, 127, i64::MIN, i64::MAX] {
        assert_eq!(signed_decimal(n), n.to_string());
    }
}

#[test]
fn numbers_read_back() {
    for n in 0..=255u8 {
        assert_eq!(parse_u8(&decimal(n as u64)), Some(n));
    }
    for n in i8::MIN..=i8::MAX {
        assert_eq!(parse_i8(&signed_decimal(n as i64)), Some(n));
    }
}

#[test]
fn white_space_is_the_unicode_property() {
    for c in '\0'..=char::MAX {
        let n = c as u32;
        let white = (0x9..=0xd).contains(&n)
            || (0x2000..=0x200a).contains(&n)
            || [0x20, 0x85, 0xa0, 0x1680, 0x2028, 0x2029, 0x202f, 0x205f, 0x3000].contains(&n);
        assert_eq!(trim(&c.to_string()).is_empty(), white);
    }
}

#[test]
fn a_line_trims_to_its_text() {
    assert_eq!(trim("{ }\n"), "{ }");
    assert_eq!(trim("{ }"), "{ }");
}
