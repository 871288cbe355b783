use mmb::text::{
    chars_of, count_before, decimal_string, find, is_before, is_white_space, join, string_of,
    to_upper, trim, trim_chars, upper_hex_string, upper_of,
};
use mmb::wide::{count_before_zero, decode_units, wide_null, wide_to_string};

#[test]
fn white_space_is_that_of_unicode() {
    for code in 0..=0x10ffffu32 {
        if let Some(c) = char::from_u32(code) {
            assert_eq!(is_white_space(c), c.is_whitespace(), "{code:x}");
            assert_eq!(upper_of(c), c.to_ascii_uppercase(), "{code:x}");
        }
    }
}

#[test]
fn trimming_takes_white_space_from_both_ends() {
    for text in ["", " ", "a", "\t a b \u{3000}", "\u{a0}x", "x\r\n", "\u{200b}x"] {
        assert_eq!(trim(text), text.trim());
    }
    assert_eq!(trim_chars(&[' ', 'a', ' ']), &['a']);
}

#[test]
fn upper_case_touches_ascii_letters_alone() {
    for text in ["", "display1", "ÄÖü", "a{z`", "\\\\.\\DISPLAY1"] {
        assert_eq!(to_upper(text), text.to_ascii_uppercase());
    }
}

#[test]
fn searching_finds_the_first_occurrence() {
    let chars = chars_of("abcabc");
    assert_eq!(find(&chars, &chars_of("bc")), Some(1));
    assert_eq!(find(&chars, &chars_of("cb")), None);
    assert_eq!(find(&chars, &chars_of("")), Some(0));
    assert_eq!(find(&chars, &chars_of("abcabcd")), None);
    assert_eq!(count_before(&chars, 'c'), 2);
    assert_eq!(count_before(&chars, 'x'), 6);
    assert_eq!(string_of(&chars), "abcabc");
}

#[test]
fn texts_are_ordered_by_code_points() {
    let texts = ["", "a", "ab", "b", "B", "DISPLAY\\A\\1", "DISPLAY\\B\\2", "\u{fffd}", "\u{10000}"];
    for a in texts {
        for b in texts {
            assert_eq!(is_before(a, b), a < b, "{a} {b}");
        }
    }
}

#[test]
fn numbers_are_spelled_like_the_standard_library_does() {
    for n in [0u64, 1, 9, 10, 15, 16, 255, 4096, 1_000_000, u64::MAX] {
        assert_eq!(decimal_string(n), n.to_string());
        assert_eq!(upper_hex_string(n), format!("{n:X}"));
    }
}

#[test]
fn joining_puts_the_separator_between_parts() {
    let parts = |texts: &[&str]| texts.iter().map(|text| text.to_string()).collect::<Vec<_>>();
    assert_eq!(join(&parts(&[]), "|"), "");
    assert_eq!(join(&parts(&["a"]), "|"), "a");
    assert_eq!(join(&parts(&["a", "", "b"]), "; "), "a; ; b");
}

#[test]
fn wide_text_is_decoded_like_the_standard_library_does() {
    let samples: [&[u16]; 7] = [
        &[],
        &[68, 101, 108, 108],
        &[0xd83d, 0xde00],
        &[0xd83d],
        &[0xde00, 0xd83d],
        &[0xd83d, 0xd83d, 0xde00, 65],
        &[0xffff, 0xe000, 0xd7ff],
    ];
    for units in samples {
        assert_eq!(decode_units(units), String::from_utf16_lossy(units));
    }
}

#[test]
fn wide_text_is_encoded_like_the_standard_library_does() {
    for text in ["", "uxtheme.dll", "ÄÖ", "\u{1f600}a\u{10ffff}", "\u{ffff}\u{e000}"] {
        let expected: Vec<u16> = text.encode_utf16().chain(Some(0)).collect();
        assert_eq!(wide_null(text), expected);
    }
}

#[test]
fn wide_text_round_trip_gives_back_the_text() {
    for text in ["a", "Generic PnP Monitor", "\u{1f600}", "Ä\u{10000}b"] {
        assert_eq!(wide_to_string(&wide_null(text)).as_deref(), Some(text));
    }
    assert_eq!(wide_to_string(&wide_null("a\0b")).as_deref(), Some("a"));
}

#[test]
fn a_buffer_without_text_or_terminator_holds_nothing() {
    assert_eq!(wide_to_string(&[]), None);
    assert_eq!(wide_to_string(&[0, 65]), None);
    assert_eq!(wide_to_string(&[65, 66]), None);
    assert_eq!(wide_to_string(&[65, 66, 0, 67]).as_deref(), Some("AB"));
    assert_eq!(count_before_zero(&[1, 2]), 2);
}
