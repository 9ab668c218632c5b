use work::worktree::{
    add, list_all_names, list_names, on, repo_name_from_remote, repo_name_from_toplevel,
    repo_worktrees_dir, resolve_path, worktrees_base, worktrees_base_in, GitCommand, OnStep, RepoError,
};

fn strings(v: &[&str]) -> Vec<String> {
    v.iter().map(|s| s.to_string()).collect()
}

fn bytes(v: &[&str]) -> Vec<Vec<u8>> {
    v.iter().map(|s| s.as_bytes().to_vec()).collect()
}

#[test]
fn base_is_worktrees_in_home() {
    let base = worktrees_base().expect("a home directory");
    assert!(base.ends_with(b"/.worktrees"));
    assert!(base.len() > "/.worktrees".len());
}

#[test]
fn repo_dir_is_under_base() {
    assert_eq!(repo_worktrees_dir(b"/home/u/.worktrees", "proj"), b"/home/u/.worktrees/proj");
}

#[test]
fn remote_url_names_repo() {
    assert_eq!(repo_name_from_remote(true, "git@github.com:me/tool.git\n").as_deref(), Some("tool"));
}

#[test]
fn failed_remote_gives_no_name() {
    assert_eq!(repo_name_from_remote(false, "git@github.com:me/tool.git\n"), None);
}

#[test]
fn remote_ending_in_slash_gives_no_name() {
    assert_eq!(repo_name_from_remote(true, "https://example.com/\n"), None);
}

#[test]
fn toplevel_names_repo() {
    assert_eq!(repo_name_from_toplevel(true, "/src/my-repo\n").ok().as_deref(), Some("my-repo"));
    assert_eq!(repo_name_from_toplevel(true, "/\n").ok().as_deref(), Some("unknown"));
}

#[test]
fn failed_toplevel_is_not_a_repository() {
    let err = repo_name_from_toplevel(false, "").err().expect("an error");
    assert!(matches!(err, RepoError::NotAGitRepository));
    assert_eq!(err.message(), "Not in a git repository");
}

#[test]
fn resolve_existing_path() {
    assert_eq!(resolve_path(b"/w/proj", "feat", true).ok(), Some(b"/w/proj/feat".to_vec()));
}

#[test]
fn resolve_missing_path_reports_it() {
    let err = resolve_path(b"/w/proj", "feat", false).err().expect("an error");
    assert_eq!(err.name, "feat");
    assert_eq!(err.path, b"/w/proj/feat");
    assert_eq!(err.message(), "Worktree 'feat' not found at /w/proj/feat");
}

#[test]
fn add_new_branch_named_after_worktree() {
    let plan = add(b"/w/proj", "feature-x", None, None, false, false);
    assert_eq!(plan.dir, b"/w/proj");
    assert_eq!(plan.path, b"/w/proj/feature-x");
    assert_eq!(plan.command.args(), bytes(&["worktree", "add", "/w/proj/feature-x"]));
}

#[test]
fn add_checks_out_existing_branch() {
    let plan = add(b"/w/proj", "feature-x", Some("main"), None, false, false);
    assert_eq!(plan.command.args(), bytes(&["worktree", "add", "/w/proj/feature-x", "main"]));
}

#[test]
fn add_with_branch_name() {
    let plan = add(b"/w/proj", "feature-x", None, Some("my-branch"), false, true);
    assert_eq!(
        plan.command.args(),
        bytes(&["worktree", "add", "-b", "my-branch", "--no-checkout", "/w/proj/feature-x"])
    );
}

#[test]
fn detach_wins_over_branch() {
    let plan = add(b"/w/proj", "feature-x", Some("v1"), Some("my-branch"), true, false);
    assert_eq!(
        plan.command.args(),
        bytes(&["worktree", "add", "--detach", "/w/proj/feature-x", "v1"])
    );
}

#[test]
fn list_args() {
    assert_eq!(GitCommand::List { porcelain: false, verbose: false }.args(), bytes(&["worktree", "list"]));
    assert_eq!(
        GitCommand::List { porcelain: true, verbose: true }.args(),
        bytes(&["worktree", "list", "--porcelain", "-v"])
    );
}

#[test]
fn remove_args() {
    let path = b"/w/p/x".to_vec();
    assert_eq!(GitCommand::Remove { path: path.clone(), force: false }.args(), bytes(&["worktree", "remove", "/w/p/x"]));
    assert_eq!(GitCommand::Remove { path, force: true }.args(), bytes(&["worktree", "remove", "--force", "/w/p/x"]));
}

#[test]
fn lock_and_unlock_args() {
    assert_eq!(
        GitCommand::Lock { path: b"/w/x".to_vec(), reason: Some("don't prune this".to_string()) }.args(),
        bytes(&["worktree", "lock", "--reason", "don't prune this", "/w/x"])
    );
    assert_eq!(GitCommand::Lock { path: b"/w/x".to_vec(), reason: None }.args(), bytes(&["worktree", "lock", "/w/x"]));
    assert_eq!(GitCommand::Unlock { path: b"/w/x".to_vec() }.args(), bytes(&["worktree", "unlock", "/w/x"]));
}

#[test]
fn move_and_repair_args() {
    assert_eq!(
        GitCommand::Move { path: b"/w/x".to_vec(), new_path: "/some/other/path".to_string() }.args(),
        bytes(&["worktree", "move", "/w/x", "/some/other/path"])
    );
    assert_eq!(GitCommand::Repair { target: None }.args(), bytes(&["worktree", "repair"]));
    assert_eq!(GitCommand::Repair { target: Some("/x".to_string()) }.args(), bytes(&["worktree", "repair", "/x"]));
}

#[test]
fn prune_args() {
    assert_eq!(GitCommand::Prune { dry_run: false, verbose: false, expire: None }.args(), bytes(&["worktree", "prune"]));
    assert_eq!(
        GitCommand::Prune { dry_run: true, verbose: true, expire: Some("2.weeks.ago".to_string()) }.args(),
        bytes(&["worktree", "prune", "-n", "-v", "--expire", "2.weeks.ago"])
    );
}

#[test]
fn repo_name_commands() {
    assert_eq!(GitCommand::RemoteUrl.args(), bytes(&["remote", "get-url", "origin"]));
    assert_eq!(GitCommand::TopLevel.args(), bytes(&["rev-parse", "--show-toplevel"]));
}

#[test]
fn on_goes_to_existing_worktree() {
    match on(b"/w/p", "x", true) {
        OnStep::Existing(p) => assert_eq!(p, b"/w/p/x"),
        OnStep::Create(_) => panic!("expected the existing worktree"),
    }
}

#[test]
fn on_creates_missing_worktree() {
    match on(b"/w/p", "x", false) {
        OnStep::Create(plan) => {
            assert_eq!(plan.path, b"/w/p/x");
            assert_eq!(plan.command.args(), bytes(&["worktree", "add", "/w/p/x"]));
        }
        OnStep::Existing(_) => panic!("expected a plan"),
    }
}

#[test]
fn list_names_sorts() {
    assert_eq!(list_names(strings(&["zeta", "alpha", "Beta"])), strings(&["Beta", "alpha", "zeta"]));
}

#[test]
fn list_all_names_sorts_and_dedups() {
    assert_eq!(
        list_all_names(strings(&["main", "fix", "main", "docs", "fix"])),
        strings(&["docs", "fix", "main"])
    );
}

#[test]
fn base_in_home_keeps_bytes_that_are_not_utf8() {
    let base = worktrees_base_in(b"/home/\xffu");
    assert_eq!(base, b"/home/\xffu/.worktrees");
    let dir = repo_worktrees_dir(&base, "proj");
    assert_eq!(dir, b"/home/\xffu/.worktrees/proj");
}

#[test]
fn base_in_home_that_ends_in_slash() {
    assert_eq!(worktrees_base_in(b"/home/u/"), b"/home/u/.worktrees");
}

#[test]
fn missing_path_that_is_not_utf8_is_shown_with_replacement() {
    let err = resolve_path(b"/h\xff/p", "x", false).err().expect("an error");
    assert_eq!(err.path, b"/h\xff/p/x");
    assert_eq!(err.message(), "Worktree 'x' not found at /h\u{FFFD}/p/x");
}
