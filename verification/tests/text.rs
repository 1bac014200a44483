use cockpit_logger::text::{
    begins_with, chars_of, decimal_text, find_char, join, replace_all, same_text, text_of, trim,
};

fn replace(s: &str, from: &str, to: &str) -> String {
    text_of(&replace_all(&chars_of(s), from, to))
}

#[test]
fn characters_make_the_text_again() {
    assert_eq!(chars_of("aé中😀"), vec!['a', 'é', '中', '😀']);
    assert_eq!(text_of(&chars_of("aé中😀")), "aé中😀");
    assert_eq!(text_of(&Vec::new()), "");
}

#[test]
fn same_text_compares_whole_texts() {
    assert!(same_text("", ""));
    assert!(same_text("codex_api", "codex_api"));
    assert!(!same_text("codex_api", "codex_ap"));
    assert!(!same_text("codex_api", "codex_apj"));
    assert!(!same_text("é", "e"));
}

#[test]
fn begins_with_agrees_with_std() {
    for s in ["", "a", "app.log", "app.log.1", "日志", "日志x"] {
        for p in ["", "a", "app.log.", "日", "日志x", "x"] {
            assert_eq!(begins_with(s, p), s.starts_with(p), "{s:?} {p:?}");
        }
    }
}

#[test]
fn replace_takes_occurrences_from_the_left() {
    assert_eq!(replace("aaa", "aa", "b"), "ba");
    assert_eq!(replace("ababa", "aba", "x"), "xba");
    assert_eq!(replace("", "a", "b"), "");
    assert_eq!(replace("abc", "abcd", "x"), "abc");
    assert_eq!(replace("a：b：c", "：", ": "), "a: b: c");
    assert_eq!(replace("aXbX", "X", ""), "ab");
}

#[test]
fn replace_agrees_with_std() {
    let texts = ["", "a", "aaaa", "abababab", "刷新完成刷新", "x刷新x刷新x", "aab aab", "日日日"];
    let patterns = ["a", "aa", "ab", "aba", "刷新", "日日", "x", " ", "zz"];
    let replacements = ["", "a", "aa", "обновление", "刷新刷新"];
    for s in texts {
        for from in patterns {
            for to in replacements {
                assert_eq!(replace(s, from, to), s.replace(from, to), "{s:?} {from:?} {to:?}");
            }
        }
    }
}

#[test]
fn absent_pattern_changes_nothing() {
    assert_eq!(replace("quiet message", "刷新", "x"), "quiet message");
}

#[test]
fn trim_agrees_with_std_on_every_character() {
    for code in 0..=0x10ffffu32 {
        if let Some(c) = char::from_u32(code) {
            if c.is_whitespace() || code < 0x400 || (0x1600..0x3100).contains(&code) || code % 997 == 0
            {
                let s = format!("{c}x{c}y{c}");
                assert_eq!(trim(&s), s.trim(), "{code:x}");
                let s = format!("{c}");
                assert_eq!(trim(&s), s.trim(), "{code:x}");
            }
        }
    }
}

#[test]
fn trim_cuts_both_ends() {
    assert_eq!(trim("  app.log \n"), "app.log");
    assert_eq!(trim("\u{3000}a b\u{a0}"), "a b");
    assert_eq!(trim(" \t\r\n"), "");
    assert_eq!(trim(""), "");
    assert_eq!(trim(trim("  x ")), "x");
}

#[test]
fn find_char_finds_the_first() {
    assert_eq!(find_char(&chars_of("a@b@c"), '@'), 1);
    assert_eq!(find_char(&chars_of("é中@"), '@'), 2);
    assert_eq!(find_char(&chars_of("abc"), '@'), 3);
    assert_eq!(find_char(&Vec::new(), '@'), 0);
}

#[test]
fn decimal_has_no_leading_zeros() {
    for n in [0usize, 1, 9, 10, 11, 99, 100, 1234567890, usize::MAX] {
        assert_eq!(decimal_text(n), format!("{n}"));
    }
}

#[test]
fn join_appends() {
    assert_eq!(join("a", "b"), "ab");
    assert_eq!(join("", ""), "");
}
