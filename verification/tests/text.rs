use recorder::text;

#[test]
fn parses_unsigned_numbers_as_std_does() {
    assert_eq!(text::parse_u64("123"), Some(123));
    assert_eq!(text::parse_u64("+7"), Some(7));
    assert_eq!(text::parse_u64("007"), Some(7));
    assert_eq!(text::parse_u64(""), None);
    assert_eq!(text::parse_u64("+"), None);
    assert_eq!(text::parse_u64("-1"), None);
    assert_eq!(text::parse_u64("1a"), None);
    assert_eq!(text::parse_u64("18446744073709551615"), Some(u64::MAX));
    assert_eq!(text::parse_u64("18446744073709551616"), None);
    assert_eq!(text::parse_usize("6379"), Some(6379));
    assert_eq!(text::parse_usize(" 1"), None);
    for s in ["0", "42", "+42", "", "+", "x", "99999999999999999999", "٣"] {
        assert_eq!(text::parse_u64(s), s.parse::<u64>().ok());
        assert_eq!(text::parse_usize(s), s.parse::<usize>().ok());
    }
}

#[test]
fn formats_numbers_in_decimal() {
    assert_eq!(text::format_usize(0), "0");
    assert_eq!(text::format_usize(7), "7");
    assert_eq!(text::format_usize(1234), "1234");
    assert_eq!(text::format_usize(usize::MAX), usize::MAX.to_string());
}

#[test]
fn formatting_then_parsing_gives_the_number_back() {
    for n in [0usize, 1, 9, 10, 65535, usize::MAX] {
        assert_eq!(text::parse_usize(&text::format_usize(n)), Some(n));
    }
}

#[test]
fn finds_characters() {
    assert_eq!(text::find_char("a:b:c", ':'), Some(1));
    assert_eq!(text::rfind_char("a:b:c", ':'), Some(3));
    assert_eq!(text::find_char("abc", ':'), None);
    assert_eq!(text::rfind_char("", ':'), None);
    assert!(text::equals("abc", "abc"));
    assert!(!text::equals("abc", "abd"));
    assert!(!text::equals("abc", "ab"));
    assert!(text::starts_with("power-1", "power-"));
    assert!(!text::starts_with("pow", "power-"));
    assert!(text::ends_with("a.xml", ".xml"));
    assert!(!text::ends_with("a.xm", ".xml"));
    let mut s = String::from("ab");
    text::push_char(&mut s, 'c');
    assert_eq!(s, "abc");
    assert_eq!(text::digit(7), '7');
}

#[test]
fn takes_the_last_component_of_a_path() {
    assert_eq!(text::path_file_name("/foo/bar.xml"), Some("bar.xml".to_string()));
    assert_eq!(text::path_file_name("bar"), Some("bar".to_string()));
    assert_eq!(text::path_file_name("/foo/.."), None);
    assert_eq!(text::path_file_name("/"), None);
    for path in ["", "/", ".", "..", "./", "a/.", "a/./", "a//b//", "/a/b/..", "../x", "./x/", "x/../y", "//", "a/.b", "é/ü"] {
        let expected = std::path::Path::new(path).file_name().map(|n| n.to_str().unwrap().to_string());
        assert_eq!(text::path_file_name(path), expected, "{}", path);
    }
}
