use std::path::PathBuf;
use work::jj::repo_name_from_remote_list;
use work::paths::{name_from_root, name_from_url};
use work::text::trim;

const SAMPLES: &[&str] = &[
    "",
    " ",
    "repo",
    "https://github.com/me/repo.git",
    "https://github.com/me/repo.git\n",
    "  git@host:me/repo.git.git \r\n",
    "https://host/",
    "https://host/..",
    "https://host/.",
    "/home/u/proj",
    "/home/u/proj/",
    "/",
    "./x/.",
    "a/b/..",
    "\u{3000}x\u{85}",
    "name.git",
    ".git",
];

fn original_url_name(url: &str) -> String {
    url.trim().split('/').last().unwrap_or("").trim_end_matches(".git").to_string()
}

fn original_root_name(root: &str) -> String {
    let root = root.trim().to_string();
    PathBuf::from(&root)
        .file_name()
        .and_then(|n| n.to_str())
        .unwrap_or("unknown")
        .to_string()
}

fn original_remote_list(text: &str) -> Option<String> {
    for line in text.lines() {
        let mut parts = line.splitn(2, char::is_whitespace);
        if let (Some(name), Some(url)) = (parts.next(), parts.next()) {
            if name == "origin" {
                let repo_name = original_url_name(url);
                if !repo_name.is_empty() {
                    return Some(repo_name);
                }
            }
        }
    }
    None
}

#[test]
fn trim_agrees_with_std() {
    for s in SAMPLES {
        assert_eq!(trim(s), s.trim(), "{:?}", s);
    }
}

#[test]
fn url_name_agrees_with_original() {
    for s in SAMPLES {
        assert_eq!(name_from_url(s), original_url_name(s), "{:?}", s);
    }
}

#[test]
fn root_name_agrees_with_original() {
    for s in SAMPLES {
        assert_eq!(name_from_root(s), original_root_name(s), "{:?}", s);
    }
}

#[test]
fn remote_list_agrees_with_original() {
    let outputs = [
        "",
        "\n",
        "origin https://h/a/b.git\n",
        "origin\thttps://h/a/b.git",
        "up https://h/x\r\norigin https://h/y.git\r\n",
        "origin https://h/\norigin  https://h/z\n",
        "origin\n\norigin x/\norigin q\r",
        "origin\u{3000}https://h/w\n",
        "\r\norigin https://h/v\r",
        "originx https://h/a\n origin https://h/b\n",
    ];
    for out in outputs {
        assert_eq!(repo_name_from_remote_list(true, out), original_remote_list(out), "{:?}", out);
    }
}
