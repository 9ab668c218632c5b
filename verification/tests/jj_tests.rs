use work::jj::{
    add, info_queries, jj_root, list_all_names_with_info, list_fzf_scope, list_names_with_info,
    move_workspace, on, repo_name_from_remote_list, repo_name_from_workspace_root,
    repo_workspaces_dir, resolve_path, workspace_info, Entry, JjCommand, ListScope, OnStep,
    MoveStep, RepoError, RootError,
};

fn strings(v: &[&str]) -> Vec<String> {
    v.iter().map(|s| s.to_string()).collect()
}

fn bytes(v: &[&str]) -> Vec<Vec<u8>> {
    v.iter().map(|s| s.as_bytes().to_vec()).collect()
}

#[test]
fn origin_remote_names_repo() {
    let out = "upstream https://example.com/other.git\norigin git@github.com:me/tool.git\n";
    assert_eq!(repo_name_from_remote_list(true, out).as_deref(), Some("tool"));
}

#[test]
fn first_origin_line_wins() {
    let out = "origin https://a/first\norigin https://a/second\n";
    assert_eq!(repo_name_from_remote_list(true, out).as_deref(), Some("first"));
}

#[test]
fn origin_with_empty_name_is_skipped() {
    let out = "origin https://a/\norigin https://a/later\n";
    assert_eq!(repo_name_from_remote_list(true, out).as_deref(), Some("later"));
}

#[test]
fn crlf_lines_are_read() {
    let out = "origin https://a/tool.git\r\n";
    assert_eq!(repo_name_from_remote_list(true, out).as_deref(), Some("tool"));
}

#[test]
fn origin_without_url_is_skipped() {
    assert_eq!(repo_name_from_remote_list(true, "origin\n"), None);
    assert_eq!(repo_name_from_remote_list(true, ""), None);
    assert_eq!(repo_name_from_remote_list(true, "originx https://a/b\n"), None);
}

#[test]
fn last_line_without_newline_is_read() {
    assert_eq!(repo_name_from_remote_list(true, "up x\norigin https://a/b").as_deref(), Some("b"));
}

#[test]
fn failed_remote_list_gives_no_name() {
    assert_eq!(repo_name_from_remote_list(false, "origin https://a/b\n"), None);
}

#[test]
fn workspace_root_names_repo() {
    assert_eq!(repo_name_from_workspace_root(true, "/src/repo\n").ok().as_deref(), Some("repo"));
    let err = repo_name_from_workspace_root(false, "").err().expect("an error");
    assert!(matches!(err, RepoError::NotAJjRepository));
    assert_eq!(err.message(), "Not in a jj repository");
}

#[test]
fn root_is_trimmed_output() {
    assert_eq!(jj_root(true, "  /src/repo \n").ok().as_deref(), Some("/src/repo"));
    let err = jj_root(false, "/src/repo").err().expect("an error");
    assert!(matches!(err, RootError::NotAJjWorkspace));
    assert_eq!(err.message(), "Not in a jj workspace");
}

#[test]
fn workspace_paths() {
    assert_eq!(repo_workspaces_dir(b"/h/.worktrees", "r"), b"/h/.worktrees/r");
    assert_eq!(resolve_path(b"/h/.worktrees/r", "w", true).ok(), Some(b"/h/.worktrees/r/w".to_vec()));
    let err = resolve_path(b"/h/.worktrees/r", "w", false).err().expect("an error");
    assert_eq!(err.message(), "Workspace 'w' not found at /h/.worktrees/r/w");
}

#[test]
fn add_registers_workspace_by_name() {
    let plan = add(b"/w/r", "feat", None);
    assert_eq!(plan.dir, b"/w/r");
    assert_eq!(plan.path, b"/w/r/feat");
    assert_eq!(plan.command.args(), bytes(&["workspace", "add", "/w/r/feat", "--name", "feat"]));
    let plan = add(b"/w/r", "feat", Some("main"));
    assert_eq!(
        plan.command.args(),
        bytes(&["workspace", "add", "/w/r/feat", "--name", "feat", "--revision", "main"])
    );
}

#[test]
fn on_workspace() {
    match on(b"/w/r", "feat", true) {
        OnStep::Existing(p) => assert_eq!(p, b"/w/r/feat"),
        OnStep::Create(_) => panic!("expected the existing workspace"),
    }
    match on(b"/w/r", "feat", false) {
        OnStep::Create(plan) => assert_eq!(plan.path, b"/w/r/feat"),
        OnStep::Existing(_) => panic!("expected a plan"),
    }
}

fn run_args(step: &MoveStep) -> Vec<Vec<u8>> {
    match step {
        MoveStep::Run(c) => c.args(),
        _ => panic!("expected a jj invocation"),
    }
}

#[test]
fn move_forgets_moves_and_registers() {
    let plan = move_workspace(b"/w/r/feat", "feat", "/elsewhere/feat");
    assert_eq!(plan.steps.len(), 4);
    assert_eq!(run_args(&plan.steps[0]), bytes(&["workspace", "forget", "feat"]));
    match &plan.steps[1] {
        MoveStep::CreateDir(d) => assert_eq!(d, b"/elsewhere"),
        _ => panic!("expected the parent to be created"),
    }
    match &plan.steps[2] {
        MoveStep::Rename { from, to } => {
            assert_eq!(from, b"/w/r/feat");
            assert_eq!(to, b"/elsewhere/feat");
        }
        _ => panic!("expected the directory to move"),
    }
    assert_eq!(run_args(&plan.steps[3]), bytes(&["workspace", "add", "/elsewhere/feat", "--name", "feat"]));
}

#[test]
fn move_to_relative_name_creates_empty_parent() {
    let plan = move_workspace(b"/w/r/feat", "feat", "feat2");
    assert_eq!(plan.steps.len(), 4);
    match &plan.steps[1] {
        MoveStep::CreateDir(d) => assert!(d.is_empty()),
        _ => panic!("expected the parent step"),
    }
}

#[test]
fn move_to_root_has_no_parent_step() {
    let plan = move_workspace(b"/w/r/feat", "feat", "/");
    assert_eq!(plan.steps.len(), 3);
    assert!(matches!(plan.steps[1], MoveStep::Rename { .. }));
    assert_eq!(run_args(&plan.steps[2]), bytes(&["workspace", "add", "/", "--name", "feat"]));
}

#[test]
fn move_trims_trailing_separators_from_parent() {
    let plan = move_workspace(b"/w/r/feat", "feat", "/a//b/./");
    match &plan.steps[1] {
        MoveStep::CreateDir(d) => assert_eq!(d, b"/a"),
        _ => panic!("expected the parent to be created"),
    }
}

#[test]
fn fixed_commands() {
    assert_eq!(JjCommand::RemoteList.args(), bytes(&["git", "remote", "list"]));
    assert_eq!(JjCommand::WorkspaceRoot.args(), bytes(&["workspace", "root"]));
    assert_eq!(JjCommand::List.args(), bytes(&["workspace", "list"]));
}

#[test]
fn log_queries_for_a_workspace() {
    let q = info_queries("/src/r", "feat", None);
    assert_eq!(
        q.bookmarks.args(),
        bytes(&["-R", "/src/r", "--no-pager", "log", "-r", "workspace_head('feat')", "-T",
            "separate(' ', bookmarks)", "--no-graph"])
    );
    assert_eq!(
        q.description.args(),
        bytes(&["-R", "/src/r", "--no-pager", "log", "-r", "workspace_head('feat')", "-T",
            r#"if(description, description.first_line(), "(no description)")"#, "--no-graph"])
    );
    assert_eq!(
        q.has_changes.args(),
        bytes(&["-R", "/src/r", "--no-pager", "log", "-r", "workspace_head('feat')", "-T",
            "if(empty, '0', '1')", "--no-graph"])
    );
}

#[test]
fn workspace_info_parses_outputs() {
    let info = workspace_info("feat", Some("r"), Some(" main dev \n"), Some("1\n"), Some("fix it\n"));
    assert_eq!(info.name, "feat");
    assert_eq!(info.repo.as_deref(), Some("r"));
    assert_eq!(info.bookmarks, "main dev");
    assert!(info.has_changes);
    assert_eq!(info.description, "fix it");
    let info = workspace_info("feat", None, None, Some("0\n"), None);
    assert_eq!(info.bookmarks, "");
    assert!(!info.has_changes);
    assert_eq!(info.description, "");
    assert!(!workspace_info("feat", None, None, None, None).has_changes);
    assert!(!workspace_info("feat", None, None, Some("11"), None).has_changes);
}

#[test]
fn names_with_info_are_sorted() {
    let qs = list_names_with_info("/src/r", strings(&["b", "a"]));
    let names: Vec<&str> = qs.iter().map(|q| q.name.as_str()).collect();
    assert_eq!(names, vec!["a", "b"]);
    assert!(qs.iter().all(|q| q.repo.is_none()));
    assert_eq!(qs[0].bookmarks.args()[5], b"workspace_head('a')");
}

#[test]
fn all_names_with_info_sort_stably() {
    let entries = vec![
        Entry { name: "main".to_string(), repo: "zed".to_string() },
        Entry { name: "dev".to_string(), repo: "one".to_string() },
        Entry { name: "main".to_string(), repo: "abc".to_string() },
    ];
    let qs = list_all_names_with_info("", entries);
    let rows: Vec<(&str, &str)> = qs.iter().map(|q| (q.name.as_str(), q.repo.as_deref().unwrap())).collect();
    assert_eq!(rows, vec![("dev", "one"), ("main", "zed"), ("main", "abc")]);
}

#[test]
fn fzf_scope_prefers_repository() {
    assert!(matches!(list_fzf_scope(true, true, true), ListScope::Repo));
    assert!(matches!(list_fzf_scope(true, false, true), ListScope::All));
    assert!(matches!(list_fzf_scope(false, false, true), ListScope::All));
    assert!(matches!(list_fzf_scope(false, false, false), ListScope::Nothing));
}

#[test]
fn missing_workspace_path_that_is_not_utf8_is_shown_with_replacement() {
    let err = resolve_path(b"/h/\xfe\xffr", "w", false).err().expect("an error");
    assert_eq!(err.path, b"/h/\xfe\xffr/w");
    assert_eq!(err.message(), "Workspace 'w' not found at /h/\u{FFFD}\u{FFFD}r/w");
}
