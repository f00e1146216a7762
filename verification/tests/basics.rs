//! Text, numbers, order and paths.

use tomcat_chat::numerals::{decimal_i32, decimal_u64, parse_u32, parse_u64, parse_usize};
use tomcat_chat::order::{le, sorting_order};
use tomcat_chat::paths::{components, join_path, path_starts_with, paths_equal, Component};
use tomcat_chat::search::{contains, ends_with, join, lines_of, replace, split_at_char, starts_with};
use tomcat_chat::text::{bytes_in, pad, to_ascii_lower, trim};

#[test]
fn numbers_are_written_and_read_back() {
    for n in [0, 7, 10, 4_294_967_296, u64::MAX] {
        assert_eq!(decimal_u64(n), n.to_string());
        assert_eq!(parse_u64(&decimal_u64(n)), Some(n));
    }
    for n in [0, -1, i32::MIN, i32::MAX] {
        assert_eq!(decimal_i32(n), n.to_string());
    }
}

#[test]
fn numbers_are_read_as_rust_reads_them() {
    for s in ["", "+", "-1", "+7", "007", " 7", "7 ", "1_0", "٣", "18446744073709551616"] {
        assert_eq!(parse_u64(s), s.parse::<u64>().ok(), "{s:?}");
        assert_eq!(parse_usize(s), s.parse::<usize>().ok(), "{s:?}");
        assert_eq!(parse_u32(s), s.parse::<u32>().ok(), "{s:?}");
    }
    assert_eq!(parse_u32("4294967295"), Some(u32::MAX));
    assert_eq!(parse_u32("4294967296"), None);
}

#[test]
fn text_is_handled_as_rust_handles_it() {
    for s in ["", " a ", "\u{3000}x\u{2003}\n", "\u{200b}x", "a\u{85}", "日本"] {
        assert_eq!(trim(s), s.trim(), "{s:?}");
        assert_eq!(bytes_in(s), s.len());
        assert_eq!(to_ascii_lower(s), s.to_ascii_lowercase());
    }
    for s in ["", "\n", "a\nb", "a\r\nb\n", "\n\n", "a\rb"] {
        let wanted: Vec<String> = s.lines().map(|l| l.to_string()).collect();
        assert_eq!(lines_of(s), wanted, "{s:?}");
        let pieces: Vec<String> = s.split('\n').map(|l| l.to_string()).collect();
        assert_eq!(split_at_char(s, '\n'), pieces, "{s:?}");
    }
    for (s, a, b) in [("aaa", "aa", "b"), ("x", "y", "z"), ("abab", "ab", ""), ("", "a", "b")] {
        assert_eq!(replace(s, a, b), s.replace(a, b));
        assert_eq!(contains(s, a), s.contains(a));
        assert_eq!(starts_with(s, a), s.starts_with(a));
        assert_eq!(ends_with(s, a), s.ends_with(a));
    }
    assert_eq!(pad("日", 3), format!("{:<3}", "日"));
    assert_eq!(pad("abcd", 3), "abcd");
    assert_eq!(join(&vec!["a".to_string(), "b".to_string()], ", "), "a, b");
}

#[test]
fn order_is_that_of_strings_and_keeps_ties() {
    let keys: Vec<String> =
        ["b", "a", "é", "a", "", "ab"].iter().map(|s| s.to_string()).collect();
    for a in &keys {
        for b in &keys {
            assert_eq!(le(a, b), a <= b);
        }
    }
    assert_eq!(sorting_order(&keys), vec![4, 1, 3, 5, 0, 2]);
}

#[test]
fn paths_are_those_of_unix() {
    for (a, b) in [("/a", "b"), ("/a/", "b"), ("", "b"), ("/a", "/b"), ("/a", ""), ("a", "b/c")] {
        let wanted = std::path::Path::new(a).join(b);
        assert_eq!(join_path(a, b), wanted.to_string_lossy(), "{a:?} {b:?}");
    }
    assert_eq!(
        components("/./a//../b/."),
        vec![
            Component::Root,
            Component::Name("a".into()),
            Component::Parent,
            Component::Name("b".into()),
        ]
    );
    assert_eq!(components("./a"), vec![Component::Here, Component::Name("a".into())]);
    for (a, b) in [("/a/b", "/a"), ("/ab", "/a"), ("/a/./b/", "/a/b"), ("a", ""), ("/a", "a")] {
        let (p, q) = (std::path::Path::new(a), std::path::Path::new(b));
        assert_eq!(path_starts_with(a, b), p.starts_with(q), "{a:?} {b:?}");
        assert_eq!(paths_equal(a, b), p == q, "{a:?} {b:?}");
    }
}
