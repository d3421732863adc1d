use cloudreve_native::float::truncate_bits;
use cloudreve_native::logger::{init, log, Level, DOMAIN, LOG_APP, LOG_DEBUG, LOG_ERROR};
use cloudreve_native::order::newest_first;
use cloudreve_native::text::{
    ascii_lowered, begins_with, chars_of, comes_before, decimal_text, find, find_char, joined3,
    rfind_char, same_text, stripped_length, text_of, trimmed, trimmed_end_text, CharClass,
};

fn chars(s: &str) -> Vec<char> {
    chars_of(s)
}

#[test]
fn decimal_notation() {
    assert_eq!(decimal_text(0), "0");
    assert_eq!(decimal_text(-1), "-1");
    assert_eq!(decimal_text(1234567890), "1234567890");
    assert_eq!(decimal_text(i64::MAX), i64::MAX.to_string());
    assert_eq!(decimal_text(i64::MIN), i64::MIN.to_string());
}

#[test]
fn searching_agrees_with_std() {
    for s in ["", "a", "abcabc", "äöü/ß", "@my", "aa@my@my"] {
        for part in ["", "a", "bc", "@my", "ß", "abcabcd"] {
            let expected = s.find(part).map(|i| s[..i].chars().count());
            assert_eq!(find(&chars(s), &chars(part)), expected, "{s} {part}");
            assert_eq!(begins_with(s, part), s.starts_with(part));
            assert_eq!(same_text(s, part), s == part);
        }
        for c in ['a', '/', 'ß'] {
            assert_eq!(find_char(&chars(s), c), s.chars().position(|x| x == c));
            let last = s.rfind(c).map(|i| s[..i].chars().count());
            assert_eq!(rfind_char(&chars(s), c), last);
        }
    }
}

#[test]
fn trimming_agrees_with_std() {
    for s in ["", "  ", " a b ", "\u{a0}x\u{3000}", "\u{85}\t\n\u{2028}y\u{200b}", "/a//"] {
        assert_eq!(text_of(trimmed(&chars(s), CharClass::White)), s.trim());
        assert_eq!(trimmed_end_text(s, CharClass::Only('/')), s.trim_end_matches('/'));
    }
    let n = stripped_length(&chars("ababc"), &chars("ab"));
    assert_eq!(n, 4);
}

#[test]
fn lower_case_and_order_agree_with_std() {
    assert_eq!(text_of(&ascii_lowered(&chars("Login REQUIRED Ä"))), "login required Ä");
    for a in ["", "a", "ab", "b", "ä", "\u{10000}", "\u{ffff}"] {
        for b in ["", "a", "ab", "b", "ä", "\u{10000}", "\u{ffff}"] {
            assert_eq!(comes_before(&chars(a), &chars(b)), a < b);
        }
    }
    assert_eq!(joined3("a", "/", "b"), "a/b");
}

#[test]
fn order_is_stable_and_newest_first() {
    let dates: Vec<String> = ["2024-01-01", "2026-05-05", "", "2026-05-05", "2025-03-03"]
        .iter()
        .map(|s| s.to_string())
        .collect();
    assert_eq!(newest_first(&dates), vec![1, 3, 4, 0, 2]);
    assert_eq!(newest_first(&Vec::new()), Vec::<usize>::new());
    let mut many: Vec<String> = Vec::new();
    for i in 0..500u32 {
        many.push(format!("{}", (i * 7919) % 101));
    }
    let order = newest_first(&many);
    let mut expected: Vec<usize> = (0..500).collect();
    expected.sort_by(|a, b| many[*b].cmp(&many[*a]));
    assert_eq!(order, expected);
}

#[test]
fn doubles_are_cut_off_toward_zero() {
    for x in [
        0.0f64,
        -0.0,
        0.9,
        -0.9,
        1.5,
        -1.5,
        42.0,
        1e10,
        -1e10,
        9007199254740993.0,
        9.3e18,
        -9.3e18,
        1e300,
        -1e300,
        f64::INFINITY,
        f64::NEG_INFINITY,
        f64::NAN,
        f64::MIN_POSITIVE,
    ] {
        assert_eq!(truncate_bits(x.to_bits()), x as i64, "{x}");
    }
}

#[test]
fn logger_settings_and_lines() {
    let settings = init();
    assert_eq!(settings.max_level, Level::Debug);
    assert_eq!(settings.log_type, LOG_APP);
    assert_eq!(settings.domain, DOMAIN);
    let line = log(Level::Error, "api", "broken").unwrap();
    assert_eq!(line.level, LOG_ERROR);
    assert_eq!(line.message, "[api] broken");
    assert_eq!(log(Level::Trace, "t", "x").unwrap().level, LOG_DEBUG);
    assert!(log(Level::Info, "t", "a\0b").is_none());
}
