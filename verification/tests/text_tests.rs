use work::text::{after_last, is_whitespace, strip_suffixes_of, trim};

#[test]
fn trim_removes_surrounding_whitespace() {
    assert_eq!(trim("  a b \n"), "a b");
}

#[test]
fn trim_removes_unicode_whitespace() {
    assert_eq!(trim("\u{3000}\u{a0}name\u{2028}\t"), "name");
}

#[test]
fn trim_of_blank_is_empty() {
    assert_eq!(trim(" \r\n\t "), "");
    assert_eq!(trim(""), "");
}

#[test]
fn trim_keeps_inner_whitespace() {
    assert_eq!(trim("a \n b"), "a \n b");
}

#[test]
fn whitespace_matches_std() {
    for c in ['\t', '\n', '\u{b}', '\u{c}', '\r', ' ', '\u{85}', '\u{a0}', '\u{1680}', '\u{2000}',
        '\u{200a}', '\u{2028}', '\u{2029}', '\u{202f}', '\u{205f}', '\u{3000}', 'a', '0', '\u{200b}',
        '\u{1f600}', '\u{8}', '\u{e}'] {
        assert_eq!(is_whitespace(c), c.is_whitespace(), "{:?}", c);
    }
}

#[test]
fn after_last_takes_final_segment() {
    assert_eq!(after_last("a/b/c", '/'), "c");
    assert_eq!(after_last("abc", '/'), "abc");
    assert_eq!(after_last("a/b/", '/'), "");
    assert_eq!(after_last("", '/'), "");
}

#[test]
fn strip_suffixes_removes_every_copy() {
    assert_eq!(strip_suffixes_of("repo.git.git", ".git"), "repo");
    assert_eq!(strip_suffixes_of("repo.gitx", ".git"), "repo.gitx");
    assert_eq!(strip_suffixes_of(".git", ".git"), "");
    assert_eq!(strip_suffixes_of("git", ".git"), "git");
}

#[test]
fn strip_suffixes_of_empty_pattern_keeps_string() {
    assert_eq!(strip_suffixes_of("repo.git", ""), "repo.git");
    assert_eq!(strip_suffixes_of("", ""), "");
    assert_eq!(strip_suffixes_of("abc", ""), "abc".trim_end_matches(""));
}
