//! Text handling.

use xen::text::{
    cat, chars_of, count, find, holds, is_before, is_white_space, join, number, pad, same,
    signed_number, slice, split, split_once, starts_with, strip_prefix, trim, trim_end,
    trim_prefixes, trim_suffixes, Class,
};

fn owned(v: &[&str]) -> Vec<String> {
    v.iter().map(|s| s.to_string()).collect()
}

#[test]
fn white_space_is_that_of_unicode() {
    let mut n: u32 = 0;
    while n <= 0x10_FFFF {
        if let Some(c) = char::from_u32(n) {
            assert_eq!(is_white_space(c), c.is_whitespace(), "U+{n:04X}");
        }
        n += 1;
    }
}

#[test]
fn order_is_that_of_strings() {
    let all = ["", "a", "aa", "ab", "b", "Z", "ä", "é", "z\u{10FFFF}", "🦀", "a🦀", "\u{FFFD}"];
    for a in all {
        for b in all {
            assert_eq!(is_before(a, b), a < b, "{a:?} {b:?}");
            assert_eq!(same(a, b), a == b);
        }
    }
}

#[test]
fn splitting_and_joining_undo_each_other() {
    for s in ["", ".", "a.b", "a..b", ".a.", "äö.ü"] {
        let parts = split(s, '.');
        let plain: Vec<&str> = s.split('.').collect();
        assert_eq!(parts, owned(&plain));
        assert_eq!(join(&parts, "."), s);
    }
    assert_eq!(join(&Vec::new(), ", "), "");
    assert_eq!(join(&owned(&["a", "b", "c"]), ", "), "a, b, c");
}

#[test]
fn splitting_once_takes_the_first() {
    assert_eq!(split_once("a=b=c", '='), Some(("a".to_string(), "b=c".to_string())));
    assert_eq!(split_once("=", '='), Some((String::new(), String::new())));
    assert_eq!(split_once("abc", '='), None);
}

#[test]
fn trimming_matches_std() {
    for s in ["", "  ", " a b ", "\t\u{2003}x\n", "x", "//a//", "/"] {
        assert_eq!(trim(s, Class::White), s.trim());
        assert_eq!(trim_end(s, Class::White), s.trim_end());
        assert_eq!(trim(s, Class::Only('/')), s.trim_matches('/'));
        assert_eq!(trim_end(s, Class::Only('/')), s.trim_end_matches('/'));
    }
    for s in ["", ".git", "a.git.git", "a.gitx", "agit", ".git.git"] {
        assert_eq!(trim_suffixes(s, ".git"), s.trim_end_matches(".git"));
    }
    for s in ["", "././a", "./", ".a", "a./", "../a"] {
        assert_eq!(trim_prefixes(s, "./"), s.trim_start_matches("./"));
    }
}

#[test]
fn searching_finds_the_first() {
    assert_eq!(find("abcabc", "c", 0), Some(2));
    assert_eq!(find("abcabc", "c", 3), Some(5));
    assert_eq!(find("abcabc", "x", 0), None);
    assert_eq!(find("äöü", "ü", 0), Some(2));
    assert!(starts_with("refs/tags/v1", "refs/tags/"));
    assert_eq!(strip_prefix("refs/tags/v1", "refs/tags/"), Some("v1".to_string()));
    assert_eq!(strip_prefix("tags/v1", "refs/tags/"), None);
    assert!(holds("a.b", '.'));
    assert!(!holds("ab", '.'));
}

#[test]
fn numbers_are_written_in_decimal() {
    assert_eq!(number(0), "0");
    assert_eq!(number(1909), "1909");
    assert_eq!(number(u64::MAX), "18446744073709551615");
    assert_eq!(count(42), "42");
    assert_eq!(signed_number(-1), "-1");
    assert_eq!(signed_number(127), "127");
    assert_eq!(signed_number(i32::MIN), "-2147483648");
}

#[test]
fn padding_fills_up_to_a_width() {
    assert_eq!(pad("dev", 6), "dev   ");
    assert_eq!(pad("production", 6), "production");
    assert_eq!(pad("", 2), "  ");
    assert_eq!(cat("ab", "cd"), "abcd");
    assert_eq!(slice("äbcd", 1, 3), "bc");
    assert_eq!(chars_of("aä"), vec!['a', 'ä']);
}
