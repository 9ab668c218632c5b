use std::path::Path;
use work::paths::{file_name, join_path, name_from_root, name_from_url, parent};

#[test]
fn join_puts_one_separator() {
    assert_eq!(join_path(b"/home/u", b".worktrees"), b"/home/u/.worktrees");
    assert_eq!(join_path(b"/home/u/", b"x"), b"/home/u/x");
    assert_eq!(join_path(b"", b"x"), b"x");
    assert_eq!(join_path(b"a", b""), b"a/");
}

#[test]
fn join_with_absolute_name_replaces() {
    assert_eq!(join_path(b"/home/u", b"/tmp/x"), b"/tmp/x");
}

#[test]
fn join_matches_pathbuf_join() {
    for (b, n) in [("/a/b", "c"), ("/a/b/", "c"), ("", "c"), ("a", "/c"), ("a", ""), ("a//", "b")] {
        let expected = Path::new(b).join(n).to_string_lossy().into_owned();
        assert_eq!(join_path(b.as_bytes(), n.as_bytes()), expected.as_bytes(), "{:?} {:?}", b, n);
    }
}

#[test]
fn file_name_follows_path_semantics() {
    assert_eq!(file_name("/usr/bin/").as_deref(), Some("bin"));
    assert_eq!(file_name("tmp/foo.txt").as_deref(), Some("foo.txt"));
    assert_eq!(file_name("foo.txt/.").as_deref(), Some("foo.txt"));
    assert_eq!(file_name("foo.txt/.//").as_deref(), Some("foo.txt"));
    assert_eq!(file_name("foo.txt/.."), None);
    assert_eq!(file_name("/"), None);
    assert_eq!(file_name(""), None);
    assert_eq!(file_name("."), None);
    assert_eq!(file_name("./a").as_deref(), Some("a"));
}

#[test]
fn file_name_matches_std() {
    for p in ["/usr/bin/", "a", "a/b/c", "a/./", "./.", "..", "../a", "a/../", "//", "a//b//", "/a/.."] {
        let expected = Path::new(p).file_name().map(|n| n.to_string_lossy().into_owned());
        assert_eq!(file_name(p), expected, "{:?}", p);
    }
}

#[test]
fn name_from_url_drops_git_suffix() {
    assert_eq!(name_from_url("git@github.com:user/repo.git\n"), "repo");
    assert_eq!(name_from_url("https://example.com/x/project"), "project");
    assert_eq!(name_from_url("  https://example.com/x/repo.git.git  "), "repo");
    assert_eq!(name_from_url("https://example.com/x/"), "");
}

#[test]
fn name_from_root_takes_final_component() {
    assert_eq!(name_from_root("/home/u/proj\n"), "proj");
    assert_eq!(name_from_root("/"), "unknown");
    assert_eq!(name_from_root(""), "unknown");
}

#[test]
fn parent_matches_std() {
    let samples = [
        "/foo/bar", "/foo", "/", "foo/bar", "foo", "", ".", "./", "./a", "a/", "a/b/", "a/./b",
        "a//b", "..", "a/..", "/.", "//", "./.", ".//a", "a/b/./", "/a//b/./", "../a", "./..",
        ".a/b", "..a", "/./a", "a/./.", "./a/./", ".//",
    ];
    for p in samples {
        let expected = Path::new(p).parent().map(|x| x.to_str().expect("text").as_bytes().to_vec());
        assert_eq!(parent(p.as_bytes()), expected, "{:?}", p);
    }
}

#[test]
fn parent_examples() {
    assert_eq!(parent(b"/a/b").as_deref(), Some(&b"/a"[..]));
    assert_eq!(parent(b"/a").as_deref(), Some(&b"/"[..]));
    assert_eq!(parent(b"a").as_deref(), Some(&b""[..]));
    assert_eq!(parent(b"/"), None);
    assert_eq!(parent(b""), None);
    assert_eq!(parent(b"a/b\xff/c").as_deref(), Some(&b"a/b\xff"[..]));
}
