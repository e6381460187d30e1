use port_mapping::text::{char_is_space, find_first, parse_u16_in, push_decimal, to_chars, trim, CharClass};

#[test]
fn white_space_is_what_the_standard_library_says() {
    for code in 0u32..=0x10ffff {
        if let Some(c) = char::from_u32(code) {
            assert_eq!(char_is_space(c), c.is_whitespace(), "{code:#x}");
        }
    }
}

#[test]
fn trim_is_what_the_standard_library_does() {
    for line in ["", " ", "a", " a", "a ", "  a b  ", "\t\u{3000}x\u{a0}y\r\n", " \n ", "\u{feff}a "] {
        assert_eq!(trim(line), line.trim(), "{line:?}");
    }
}

#[test]
fn characters_one_by_one() {
    assert_eq!(to_chars("a\u{e4}\u{1f600}b"), vec!['a', '\u{e4}', '\u{1f600}', 'b']);
    assert!(to_chars("").is_empty());
}

#[test]
fn find_first_stops_at_the_class_or_the_end() {
    let chars = to_chars("ab cd#e");
    assert_eq!(find_first(&chars, 0, 7, CharClass::Space), 2);
    assert_eq!(find_first(&chars, 0, 7, CharClass::NonSpace), 0);
    assert_eq!(find_first(&chars, 2, 7, CharClass::NonSpace), 3);
    assert_eq!(find_first(&chars, 0, 7, CharClass::Is('#')), 5);
    assert_eq!(find_first(&chars, 0, 5, CharClass::Is('#')), 5);
    assert_eq!(find_first(&chars, 0, 7, CharClass::Is('x')), 7);
    assert_eq!(find_first(&chars, 6, 6, CharClass::NonSpace), 6);
}

#[test]
fn port_numbers() {
    let read = |text: &str| {
        let chars = to_chars(text);
        parse_u16_in(&chars, 0, chars.len())
    };
    assert_eq!(read("0"), Some(0));
    assert_eq!(read("65535"), Some(65535));
    assert_eq!(read("65536"), None);
    assert_eq!(read("+1"), Some(1));
    assert_eq!(read("007"), Some(7));
    assert_eq!(read(""), None);
    assert_eq!(read("+"), None);
    assert_eq!(read("-1"), None);
    assert_eq!(read("1 "), None);
    assert_eq!(read("4294967296"), None);
    let chars = to_chars("ab123cd");
    assert_eq!(parse_u16_in(&chars, 2, 5), Some(123));
    assert_eq!(parse_u16_in(&chars, 2, 6), None);
    for n in (0u32..=65535).step_by(7) {
        assert_eq!(read(&n.to_string()), Some(n as u16));
    }
}

#[test]
fn numbers_in_base_ten() {
    for n in [0u64, 1, 9, 10, 11, 99, 100, 65535, 65536, 1_000_000_007, u64::MAX] {
        let mut out = String::from("n=");
        push_decimal(&mut out, n);
        assert_eq!(out, format!("n={n}"));
    }
}
