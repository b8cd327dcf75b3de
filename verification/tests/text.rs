use termul::text::number::{parse_u16, to_decimal};
use termul::text::order::stands_before;
use termul::text::split::{
    after_last, before_first, is_white_space, lines, replace_char, split_on, trim,
    trim_line_breaks_at_end,
};
use termul::text::{
    chars_of, concat2, concat3, concat4, concat5, contains_char, contains_text,
    eq_ignore_ascii_case, has_prefix, same_text, text_between, to_ascii_lowercase,
};

const SAMPLES: [&str; 14] = [
    "",
    " ",
    "a",
    "\t a b \u{a0}",
    "\u{3000}x\u{2009}",
    "one\ntwo\r\nthree\r",
    "\n\n",
    "a;b;;c;",
    "C:\\x\\y",
    "grün ÄÖ Zz",
    "a\r\n\r\n",
    "::1",
    "x:80/y:z",
    "\u{10ffff}\u{85}",
];

#[test]
fn white_space_is_that_of_unicode() {
    for n in 0..=0x10ffffu32 {
        if let Some(c) = char::from_u32(n) {
            assert_eq!(is_white_space(c), c.is_whitespace());
        }
    }
}

#[test]
fn texts_are_cut_like_those_of_std() {
    for s in SAMPLES {
        assert_eq!(trim(s), s.trim());
        assert_eq!(trim_line_breaks_at_end(s), s.trim_end_matches(['\r', '\n']));
        let parts: Vec<&str> = s.split(';').collect();
        assert_eq!(split_on(s, ';'), parts);
        let rows: Vec<&str> = s.lines().collect();
        assert_eq!(lines(s), rows);
        assert_eq!(before_first(s, '/'), s.split('/').next().unwrap());
        assert_eq!(after_last(s, ':').as_deref(), s.rfind(':').map(|i| &s[i + 1..]));
        assert_eq!(replace_char(s, '\\', '/'), s.replace('\\', "/"));
        assert_eq!(to_ascii_lowercase(s), s.to_ascii_lowercase());
        let chars: Vec<char> = s.chars().collect();
        assert_eq!(chars_of(s), chars);
        for t in SAMPLES {
            assert_eq!(contains_text(s, t), s.contains(t));
            assert_eq!(has_prefix(s, t), s.starts_with(t));
            assert_eq!(same_text(s, t), s == t);
            assert_eq!(eq_ignore_ascii_case(s, t), s.eq_ignore_ascii_case(t));
            assert_eq!(stands_before(s, t), s < t);
        }
        assert_eq!(contains_char(s, 'a'), s.contains('a'));
    }
    assert!(eq_ignore_ascii_case("PaTh", "pAtH"));
    assert!(!eq_ignore_ascii_case("Ä", "ä"));
}

#[test]
fn texts_are_put_together() {
    assert_eq!(concat2("a", "b"), "ab");
    assert_eq!(concat3("a", "", "c"), "ac");
    assert_eq!(concat4("a", "b", "c", "d"), "abcd");
    assert_eq!(concat5("a", "b", "c", "d", "ë"), "abcdë");
    assert_eq!(text_between(&vec!['a', 'b', 'c'], 1, 3), "bc");
}

#[test]
fn numbers_are_written_and_read() {
    for n in [0u128, 9, 10, 99, 100, 65535, u64::MAX as u128, u128::MAX] {
        assert_eq!(to_decimal(n), n.to_string());
    }
    for s in ["", "+", "0", "007", "+8", "-1", "65535", "65536", "1a", " 1", "99999999999"] {
        assert_eq!(parse_u16(s), s.parse::<u16>().ok());
    }
}
