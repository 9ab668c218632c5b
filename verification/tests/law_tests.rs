use work::jj::{move_workspace, MoveStep};
use work::paths::{file_name, join_path, name_from_root, name_from_url};
use work::worktree::{
    add, list_all_names, list_names, on, repo_worktrees_dir, resolve_path, worktrees_base_in, OnStep,
};

fn strings(v: &[&str]) -> Vec<String> {
    v.iter().map(|s| s.to_string()).collect()
}

#[test]
fn worktree_found_where_added() {
    let plan = add(b"/h/.worktrees/r", "feat", Some("main"), Some("b"), false, true);
    assert_eq!(resolve_path(b"/h/.worktrees/r", "feat", true).ok(), Some(plan.path.clone()));
    match on(b"/h/.worktrees/r", "feat", true) {
        OnStep::Existing(p) => assert_eq!(p, plan.path),
        OnStep::Create(_) => panic!("expected the existing worktree"),
    }
}

#[test]
fn on_creates_what_it_later_finds() {
    let created = match on(b"/w/r", "x", false) {
        OnStep::Create(plan) => plan.path,
        OnStep::Existing(_) => panic!("expected a plan"),
    };
    let found = match on(b"/w/r", "x", true) {
        OnStep::Existing(p) => p,
        OnStep::Create(_) => panic!("expected the existing worktree"),
    };
    assert_eq!(created, found);
}

#[test]
fn path_ends_in_worktree_name() {
    for (dir, name) in [("/h/.worktrees/r", "feat"), ("/h/.worktrees/r/", "a.b"), ("", "x")] {
        let joined = String::from_utf8(join_path(dir.as_bytes(), name.as_bytes())).expect("text");
        assert_eq!(file_name(&joined).as_deref(), Some(name));
    }
}

#[test]
fn url_names_have_no_slash_or_git_suffix() {
    for url in ["https://a/b/c.git.git", "git@h:x/y.git", "https://a/b/", "plain"] {
        let n = name_from_url(url);
        assert!(!n.contains('/'));
        assert!(!n.ends_with(".git"));
    }
}

#[test]
fn root_names_are_components() {
    for root in ["/a/b", "/", "", "/a/..", "./.", "/a/b/./"] {
        let n = name_from_root(root);
        assert!(!n.is_empty() && !n.contains('/') && n != "." && n != "..", "{:?}", n);
    }
}

#[test]
fn listing_ignores_read_order() {
    assert_eq!(list_names(strings(&["b", "c", "a"])), list_names(strings(&["c", "a", "b"])));
    assert_eq!(
        list_all_names(strings(&["b", "a", "b"])),
        list_all_names(strings(&["a", "a", "b", "a"]))
    );
}

#[test]
fn worktrees_live_under_home() {
    let base = worktrees_base_in(b"/home/alice");
    assert_eq!(base, b"/home/alice/.worktrees");
    let dir = repo_worktrees_dir(&base, "proj");
    assert_eq!(add(&dir, "feat", None, None, false, false).path, b"/home/alice/.worktrees/proj/feat");
}

#[test]
fn move_registers_where_it_moves() {
    for new_path in ["/x/y", "y", "/", "a/b/"] {
        let plan = move_workspace(b"/w/r/feat", "feat", new_path);
        let n = plan.steps.len();
        match &plan.steps[n - 2] {
            MoveStep::Rename { from, to } => {
                assert_eq!(from, b"/w/r/feat");
                assert_eq!(to, new_path.as_bytes());
            }
            _ => panic!("expected the directory to move"),
        }
        match &plan.steps[n - 1] {
            MoveStep::Run(c) => {
                let args = c.args();
                assert_eq!(args[2], new_path.as_bytes());
                assert_eq!(args[4], b"feat");
            }
            _ => panic!("expected the workspace to be registered"),
        }
        match &plan.steps[0] {
            MoveStep::Run(c) => assert_eq!(c.args()[2], b"feat"),
            _ => panic!("expected the workspace to be forgotten"),
        }
    }
}
