use hive_node::text::{
    chars_of, find_char, find_pair, has_suffix, is_whitespace, line_spans, lower_equals,
    push_decimal, push_hex_upper, remove_newlines, same_text, split_spans, string_from_chars,
    string_of, to_ascii_lower, trim_span, utf8_of, word_spans,
};

fn cut(chars: &Vec<char>, spans: &Vec<(usize, usize)>) -> Vec<String> {
    spans.iter().map(|s| string_of(chars, s.0, s.1)).collect()
}

#[test]
fn chars_round_trip() {
    let chars = chars_of("héllo");
    assert_eq!(chars, vec!['h', 'é', 'l', 'l', 'o']);
    assert_eq!(string_from_chars(&chars), "héllo");
    assert_eq!(string_of(&chars, 1, 3), "él");
}

#[test]
fn same_text_compares_characters() {
    assert!(same_text("HIVE", "HIVE"));
    assert!(!same_text("HIVE", "hive"));
    assert!(!same_text("HIVE", "HIVE "));
}

#[test]
fn white_space_is_unicode_white_space() {
    for c in [' ', '\t', '\n', '\r', '\u{b}', '\u{c}', '\u{85}', '\u{a0}', '\u{1680}', '\u{2000}', '\u{200a}', '\u{2028}', '\u{2029}', '\u{202f}', '\u{205f}', '\u{3000}'] {
        assert!(is_whitespace(c));
    }
    for c in ['a', '0', '\u{200b}', '\u{8}', '\u{e}', '\u{1f}', '\u{feff}'] {
        assert!(!is_whitespace(c));
    }
}

#[test]
fn white_space_agrees_with_std_on_all_of_the_basic_plane() {
    for u in 0u32..0x10000 {
        if let Some(c) = char::from_u32(u) {
            assert_eq!(is_whitespace(c), c.is_whitespace());
        }
    }
}

#[test]
fn trim_span_trims_both_ends() {
    let chars = chars_of("  \t ab c \n");
    assert_eq!(trim_span(&chars, 0, chars.len()), (4, 8));
    let blank = chars_of(" \n ");
    let (a, b) = trim_span(&blank, 0, blank.len());
    assert_eq!(a, b);
}

#[test]
fn find_char_and_pair() {
    let chars = chars_of("ab: cd: e");
    assert_eq!(find_char(&chars, 0, chars.len(), ':'), 2);
    assert_eq!(find_char(&chars, 3, chars.len(), ':'), 6);
    assert_eq!(find_char(&chars, 0, chars.len(), 'z'), chars.len());
    assert_eq!(find_pair(&chars, 0, chars.len(), ':', ' '), 2);
    assert_eq!(find_pair(&chars, 3, chars.len(), ':', ' '), 6);
    assert_eq!(find_pair(&chars, 7, chars.len(), ':', ' '), chars.len());
}

#[test]
fn lines_follow_std() {
    for text in ["", "a", "a\n", "a\nb", "a\r\nb\r\n", "\n", "\n\n", "a\r", "a\r\n\r\nb", "\r\n", "x\ny\r"] {
        let chars = chars_of(text);
        let expected: Vec<String> = text.lines().map(|l| l.to_string()).collect();
        assert_eq!(cut(&chars, &line_spans(&chars)), expected);
    }
}

#[test]
fn words_follow_std() {
    for text in ["", "  ", "a", " a  b\tc\n", "GET /x HTTP/1.1", "\u{a0}x\u{2003}y"] {
        let chars = chars_of(text);
        let expected: Vec<String> = text.split_whitespace().map(|l| l.to_string()).collect();
        assert_eq!(cut(&chars, &word_spans(&chars, 0, chars.len())), expected);
    }
}

#[test]
fn split_follows_std() {
    for text in ["", ",", "a,b", "a,,b,", ",a", "abc"] {
        let chars = chars_of(text);
        let expected: Vec<String> = text.split(',').map(|l| l.to_string()).collect();
        assert_eq!(cut(&chars, &split_spans(&chars, 0, chars.len(), ',')), expected);
    }
}

#[test]
fn suffix_and_case() {
    assert!(has_suffix(&chars_of("llama3:latest"), &chars_of(":latest")));
    assert!(!has_suffix(&chars_of("llama3:latest2"), &chars_of(":latest")));
    assert!(!has_suffix(&chars_of("st"), &chars_of(":latest")));
    assert_eq!(to_ascii_lower('Q'), 'q');
    assert_eq!(to_ascii_lower('q'), 'q');
    assert_eq!(to_ascii_lower('É'), 'É');
    assert!(lower_equals(&chars_of("Content-LENGTH"), "content-length"));
    assert!(!lower_equals(&chars_of("Content-Length "), "content-length"));
}

#[test]
fn decimal_and_hex() {
    for n in [0u64, 7, 10, 42, 255, 256, 4096, 1_000_000, u64::MAX] {
        let mut d = Vec::new();
        push_decimal(&mut d, n);
        assert_eq!(string_from_chars(&d), format!("{}", n));
        let mut h = Vec::new();
        push_hex_upper(&mut h, n);
        assert_eq!(string_from_chars(&h), format!("{:X}", n));
    }
}

#[test]
fn remove_newlines_puts_spaces() {
    assert_eq!(remove_newlines("a\r\nb\nc\rd"), "a  b c d");
    assert_eq!(remove_newlines(""), "");
}

#[test]
fn utf8_of_encodes() {
    assert_eq!(utf8_of(&chars_of("é!")), vec![0xC3, 0xA9, b'!']);
}
