use stasis::text::numbers::{i64_to_string, parse_i32, parse_usize, u64_to_string};
use stasis::text::order::sort_once;
use stasis::text::split::{lines, split_char, split_once, split_whitespace};
use stasis::text::strings::{
    contains, eq_ignore_case, join, replace_char, strip_prefix, strip_suffix, trim, trim_end,
    trim_start,
};

fn owned(v: &[&str]) -> Vec<String> {
    v.iter().map(|s| s.to_string()).collect()
}

const SAMPLES: [&str; 9] = [
    "",
    " a b ",
    "x\r\ny\n",
    "\u{3000}\u{e4}\u{a0}",
    "a.b..c",
    "tab\tand\u{b}vt",
    "\n\n",
    "caf\u{e9} \u{1f600}",
    "a\rb\r\n",
];

#[test]
fn trimming_agrees_with_str() {
    for s in SAMPLES {
        assert_eq!(trim(s), s.trim());
        assert_eq!(trim_start(s), s.trim_start());
        assert_eq!(trim_end(s), s.trim_end());
    }
}

#[test]
fn splitting_agrees_with_str() {
    for s in SAMPLES {
        assert_eq!(lines(s), s.lines().collect::<Vec<_>>());
        assert_eq!(split_whitespace(s), s.split_whitespace().collect::<Vec<_>>());
        assert_eq!(split_char(s, '.'), s.split('.').collect::<Vec<_>>());
        assert_eq!(
            split_once(s, 'a'),
            s.split_once('a').map(|(x, y)| (x.to_string(), y.to_string()))
        );
    }
}

#[test]
fn searching_agrees_with_str() {
    for s in SAMPLES {
        for p in ["", "a", "b", "\n", "\u{e9}", "b."] {
            assert_eq!(contains(s, p), s.contains(p));
            assert_eq!(strip_prefix(s, p), s.strip_prefix(p).map(|r| r.to_string()));
            assert_eq!(strip_suffix(s, p), s.strip_suffix(p).map(|r| r.to_string()));
        }
        assert_eq!(replace_char(s, 'a', '_'), s.replace('a', "_"));
        assert!(eq_ignore_case(s, &s.to_ascii_uppercase()));
    }
    assert!(!eq_ignore_case("a", "ab"));
}

#[test]
fn numbers_agree_with_std() {
    for n in [0, 7, 10, 1234, u64::MAX] {
        assert_eq!(u64_to_string(n), n.to_string());
    }
    for n in [0, -1, 42, i64::MIN, i64::MAX] {
        assert_eq!(i64_to_string(n), n.to_string());
    }
    for t in ["", "0", "+5", "-5", "007", "x", "2147483648", "-2147483648", "18446744073709551616"] {
        assert_eq!(parse_i32(t), t.parse::<i32>().ok(), "{t}");
        assert_eq!(parse_usize(t), t.parse::<usize>().ok(), "{t}");
    }
}

#[test]
fn lists_are_joined_and_sorted() {
    assert_eq!(join(&owned(&["a", "b", "c"]), ", "), "a, b, c");
    assert_eq!(join(&owned(&[]), ", "), "");
    assert_eq!(sort_once(&owned(&["b", "a", "b", "\u{e9}", "A"])), owned(&["A", "a", "b", "\u{e9}"]));
}
