//! Text functions against those of the standard library.
use larris::text;

#[test]
fn white_space_is_that_of_char() {
    for code in 0..=0x10ffffu32 {
        if let Some(c) = char::from_u32(code) {
            assert_eq!(text::space(c), c.is_whitespace(), "{code:#x}");
        }
    }
}

const SAMPLES: [&str; 14] = [
    "", " ", "a", "  a b  ", "a\r\nb\n", "\n\n", "a,b,,c,", ",", "ünï\u{3000}cödé", "\r", "x\r\r\n",
    "A=b=c", "\u{a0}x\u{2028}", "ABCxyz[`{",
];

#[test]
fn trimming_and_splitting_agree_with_std() {
    for s in SAMPLES {
        assert_eq!(text::trim(s), s.trim());
        assert_eq!(text::trimmed_start(s), s.trim_start());
        assert_eq!(text::trim_line_end(s), s.trim_end_matches(['\r', '\n']));
        assert_eq!(text::lines_of(s), s.lines().collect::<Vec<_>>());
        assert_eq!(text::words_of(s), s.split_whitespace().collect::<Vec<_>>());
        assert_eq!(text::split_on(s, ','), s.split(',').collect::<Vec<_>>());
        assert_eq!(text::split_n(s, 2, ','), s.splitn(2, ',').collect::<Vec<_>>());
        let own = |p: Option<(&str, &str)>| p.map(|(a, b)| (a.to_owned(), b.to_owned()));
        assert_eq!(text::split_once(s, '='), own(s.split_once('=')));
        assert_eq!(text::rsplit_once(s, '='), own(s.rsplit_once('=')));
        assert_eq!(text::contains(s, ','), s.contains(','));
        assert_eq!(text::is_empty(s), s.is_empty());
    }
}

#[test]
fn case_and_prefixes_agree_with_std() {
    for s in SAMPLES {
        assert_eq!(text::to_lower(s), s.to_ascii_lowercase());
        assert_eq!(text::to_upper(s), s.to_ascii_uppercase());
        assert_eq!(text::starts_with(s, "a"), s.starts_with('a'));
        assert_eq!(text::strip_prefix(s, "a").as_deref(), s.strip_prefix('a'));
        for t in SAMPLES {
            assert_eq!(text::same(s, t), s == t);
            assert_eq!(text::same_ignoring_case(s, t), s.eq_ignore_ascii_case(t));
            assert_eq!(text::joined(s, t), format!("{s}{t}"));
        }
    }
}

#[test]
fn numbers_agree_with_std() {
    for n in [0u64, 7, 10, 99, 100, 12345, u64::MAX] {
        assert_eq!(text::decimal_of(n), n.to_string());
        assert_eq!(text::parse_natural(&n.to_string(), u64::MAX), Some(n));
    }
    for s in ["", "+", "+5", "-5", "007", "5 ", "5a", "18446744073709551616", "255", "256"] {
        assert_eq!(text::parse_natural(s, 255), s.parse::<u8>().ok().map(u64::from), "{s}");
    }
    for s in ["", "-", "+5", "-5", "-0", "9223372036854775807", "-9223372036854775808", "1e3"] {
        assert_eq!(text::parse_integer(s), s.parse::<i64>().ok(), "{s}");
    }
    for s in [
        "", ".", "1", "1.", ".5", "-1.5e10", "1e", "1e+5", "+inf", "Infinity", "nan", "-NaN", "e5",
        "1_0", "0x1", "- 1", "1.5.2", "--1", "infinit", "1E-3",
    ] {
        assert_eq!(text::denotes_number(s), s.parse::<f64>().is_ok(), "{s}");
    }
}

#[test]
fn alignment_agrees_with_std() {
    for s in SAMPLES {
        assert_eq!(text::align_right(s, 6), format!("{s:>6}"));
        assert_eq!(text::align_left(s, 6), format!("{s:<6}"));
        assert_eq!(text::truncated(s, 3), s.chars().take(3).collect::<String>());
        let mut cut = s.to_owned();
        cut.pop();
        assert_eq!(text::without_last(s), cut);
    }
    assert_eq!(text::repeated('─', 3), "───");
    let v = vec!["a".to_owned(), "b".to_owned()];
    assert_eq!(text::join_with(&v, ", "), "a, b");
}
