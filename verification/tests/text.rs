use rwt::text::{parse_u8, push_decimal, str_chars, strip_line_end, trim_chars, white_space};

fn chars(s: &str) -> Vec<char> {
    s.chars().collect()
}

#[test]
fn strip_line_end_removes_newline_then_return() {
    assert_eq!(strip_line_end("12345\r\n"), "12345");
    assert_eq!(strip_line_end("abc\n"), "abc");
    assert_eq!(strip_line_end("abc"), "abc");
    assert_eq!(strip_line_end("abc\n\n"), "abc\n");
    assert_eq!(strip_line_end("abc\r"), "abc");
    assert_eq!(strip_line_end(""), "");
}

#[test]
fn trim_matches_std() {
    for s in ["  40.712   ", "\t-74.0061 \n", "     ", "", "a b", "\u{a0}x\u{85}", "\u{3000}y"] {
        let t: String = trim_chars(&chars(s)).iter().collect();
        assert_eq!(t, s.trim());
    }
}

#[test]
fn white_space_matches_std() {
    for code in 0u32..0x3100 {
        if let Some(c) = char::from_u32(code) {
            assert_eq!(white_space(c), c.is_whitespace(), "code {:x}", code);
        }
    }
}

#[test]
fn parse_u8_matches_std() {
    for s in ["0", "7", "255", "256", "+3", "+", "-1", "", " 1", "12a", "007", "1000", "٣"] {
        assert_eq!(parse_u8(s), s.parse::<u8>().ok(), "input {:?}", s);
    }
}

#[test]
fn decimal_reads_back() {
    for n in 0..=255u8 {
        let mut out = Vec::new();
        push_decimal(&mut out, n);
        let s: String = out.iter().collect();
        assert_eq!(s, n.to_string());
        assert_eq!(parse_u8(&s), Some(n));
    }
}

#[test]
fn str_chars_lists_characters() {
    assert_eq!(str_chars("héllo"), vec!['h', 'é', 'l', 'l', 'o']);
}
