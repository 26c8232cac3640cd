use dsh_shell::text::{chars_of, parse_u32_words, parse_unsigned_range, push_decimal, trimmed, whitespace};

fn decimal_string(n: u64) -> String {
    let mut s = String::new();
    push_decimal(&mut s, n);
    s
}

#[test]
fn decimal_string_matches_to_string() {
    let samples: [u64; 12] = [0, 1, 9, 10, 11, 99, 100, 3080, 65535, 4294967295, 1234567890123, u64::MAX];
    for n in samples {
        assert_eq!(decimal_string(n), n.to_string());
    }
    for n in 0u64..2000 {
        assert_eq!(decimal_string(n), n.to_string());
    }
    let mut s = "port ".to_string();
    push_decimal(&mut s, 3080);
    assert_eq!(s, "port 3080");
}

#[test]
fn decimal_text_parses_back() {
    for n in [0u64, 5, 10, 3080, 65535, 4294967295] {
        let v = chars_of(&decimal_string(n));
        assert_eq!(parse_unsigned_range(&v, 0, v.len(), 4294967295), Some(n));
    }
}

#[test]
fn parse_unsigned_range_reads_u16_like_str_parse() {
    let cases = [
        "0", "7", "+7", "-7", "+", "-", "", "65535", "65536", "0065535", "00", "1_0", " 1", "1 ",
        "++1", "+-1", "٣", "99999999999", "4294967296",
    ];
    for c in cases {
        let v = chars_of(c);
        let got = parse_unsigned_range(&v, 0, v.len(), 65535).map(|x| x as u16);
        assert_eq!(got, c.parse::<u16>().ok(), "input {:?}", c);
        let got32 = parse_unsigned_range(&v, 0, v.len(), 4294967295).map(|x| x as u32);
        assert_eq!(got32, c.parse::<u32>().ok(), "input {:?}", c);
    }
}

#[test]
fn parse_unsigned_range_reads_a_slice() {
    let v = chars_of("port=8080;");
    assert_eq!(parse_unsigned_range(&v, 5, 9, 65535), Some(8080));
    assert_eq!(parse_unsigned_range(&v, 4, 9, 65535), None);
    assert_eq!(parse_unsigned_range(&v, 5, 5, 65535), None);
}

#[test]
fn whitespace_matches_char_is_whitespace_everywhere() {
    for code in 0u32..0x11_0000 {
        if let Some(c) = char::from_u32(code) {
            assert_eq!(whitespace(c), c.is_whitespace(), "code point {:x}", code);
        }
    }
}

#[test]
fn trimmed_matches_str_trim() {
    let cases = [
        "", " ", "  boom \n", "\tline1\nline2\r\n", "\u{3000}x\u{a0}", "x", "\u{85}\u{2028}",
        "a b", "  a  b  ", "\u{200b}zero width\u{200b}",
    ];
    for c in cases {
        assert_eq!(trimmed(c), c.trim(), "input {:?}", c);
    }
}

#[test]
fn parse_u32_words_matches_split_whitespace() {
    let cases = [
        "", "1234\r\n5678\r\n", "  42  ", "abc 12 4294967296 +7 -3", "12\u{a0}34", "1\t2\n3",
        "4294967295", "0 00 +0", "x1 1x", "\u{3000}9\u{3000}",
    ];
    for c in cases {
        let expect: Vec<u32> = c.split_whitespace().filter_map(|s| s.parse().ok()).collect();
        assert_eq!(parse_u32_words(c), expect, "input {:?}", c);
    }
}

#[test]
fn chars_of_keeps_every_char() {
    let s = "dsh → 127.0.0.1:3080";
    assert_eq!(chars_of(s), s.chars().collect::<Vec<char>>());
}
