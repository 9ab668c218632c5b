//! Git worktrees kept under `~/.worktrees/<repo>/<name>`: where they live,
//! what the repository is called, and the git commands that manage them.
//! Paths are the operating system's bytes, so a home directory that is not
//! valid UTF-8 is kept as it is.
use vstd::prelude::*;
use vstd::utf8::encode_utf8;

use crate::order::{dedup_sorted_by_key, first_of, keys, stable_sort_by_key, sorted_by_key, strictly_sorted_by_key, with_key};
use crate::paths::{display_bytes, join_spec, join_text, lossy_text, name_from_root, name_from_root_spec, name_from_url, name_from_url_spec};
use crate::text::{byte_views, opt_str_view, opt_utf8, opt_view, push_bytes, push_opt_text, push_text, to_owned_opt};

verus! {

/// `dirs::home_dir`, as the bytes of the path: the current user's home
/// directory, taken from `$HOME` when it is set and not empty and else from
/// the password database. The crate returns none rather than an empty path,
/// so a result is never empty; which directory it is depends on the
/// environment, and nothing more is stated of it.
#[verifier::external_body]
fn home_dir() -> (r: Option<Vec<u8>>)
    ensures
        r matches Some(h) ==> h@.len() > 0,
{
    match dirs::home_dir() {
        Some(p) => Some(p.into_os_string().into_encoded_bytes()),
        None => None,
    }
}

/// The directory that holds the worktrees of every repository, given the
/// home directory: `.worktrees` in it.
pub fn worktrees_base_in(home: &[u8]) -> (r: Vec<u8>)
    ensures
        r@ == join_spec(home@, encode_utf8(".worktrees"@)),
{
    join_text(home, ".worktrees")
}

/// The directory that holds the worktrees of every repository, `.worktrees`
/// in the home directory; none where no home directory can be found.
pub fn worktrees_base() -> (r: Option<Vec<u8>>)
    ensures
        r matches Some(p) ==> exists|h: Seq<u8>|
            h.len() > 0 && p@ == #[trigger] join_spec(h, encode_utf8(".worktrees"@)),
{
    match home_dir() {
        Some(h) => Some(worktrees_base_in(h.as_slice())),
        None => None,
    }
}

/// The directory that holds the worktrees of the repository `repo_name`,
/// inside `base`.
pub fn repo_worktrees_dir(base: &[u8], repo_name: &str) -> (r: Vec<u8>)
    ensures
        r@ == join_spec(base@, encode_utf8(repo_name@)),
{
    join_text(base, repo_name)
}

/// Why the repository's name could not be found.
pub enum RepoError {
    /// The current directory is not inside a git repository.
    NotAGitRepository,
}

impl RepoError {
    /// The text that reports the error.
    pub fn message(&self) -> (r: String)
        ensures
            r@ == "Not in a git repository"@,
    {
        String::from_str("Not in a git repository")
    }
}

/// The repository's name taken from `git remote get-url origin`, given whether
/// it succeeded and what it printed; none when it failed or names nothing.
pub fn repo_name_from_remote(success: bool, stdout: &str) -> (r: Option<String>)
    ensures
        opt_view(r) == (if success && name_from_url_spec(stdout@).len() > 0 {
            Some(name_from_url_spec(stdout@))
        } else {
            None
        }),
{
    if !success {
        return None;
    }
    let name = name_from_url(stdout);
    if name.as_str().unicode_len() > 0 {
        Some(name)
    } else {
        None
    }
}

/// The repository's name taken from `git rev-parse --show-toplevel`, given
/// whether it succeeded and what it printed.
pub fn repo_name_from_toplevel(success: bool, stdout: &str) -> (r: Result<String, RepoError>)
    ensures
        success ==> (r matches Ok(n) && n@ == name_from_root_spec(stdout@)),
        !success ==> r matches Err(RepoError::NotAGitRepository),
{
    if success {
        Ok(name_from_root(stdout))
    } else {
        Err(RepoError::NotAGitRepository)
    }
}

/// A worktree that was asked for by name but is not on disk.
pub struct NotFound {
    /// The name asked for.
    pub name: String,
    /// Where the worktree would be.
    pub path: Vec<u8>,
}

impl NotFound {
    /// The text that reports the error, the path shown as text.
    pub fn message(&self) -> (r: String)
        ensures
            r@ == "Worktree '"@ + self.name@ + "' not found at "@ + lossy_text(self.path@),
    {
        let mut r = String::from_str("Worktree '");
        r.append(self.name.as_str());
        r.append("' not found at ");
        let shown = display_bytes(self.path.as_slice());
        r.append(shown.as_str());
        r
    }
}

/// The path of the worktree `name` in the repository directory `dir`, where
/// `exists` tells whether that path is on disk.
pub fn resolve_path(dir: &[u8], name: &str, exists: bool) -> (r: Result<Vec<u8>, NotFound>)
    ensures
        exists ==> (r matches Ok(p) && p@ == join_spec(dir@, encode_utf8(name@))),
        !exists ==> (r matches Err(e) && e.name@ == name@ && e.path@ == join_spec(
            dir@,
            encode_utf8(name@),
        )),
{
    let path = join_text(dir, name);
    if exists {
        Ok(path)
    } else {
        Err(NotFound { name: String::from_str(name), path })
    }
}

/// A `git` invocation that the tool makes.
pub enum GitCommand {
    /// `git remote get-url origin`.
    RemoteUrl,
    /// `git rev-parse --show-toplevel`.
    TopLevel,
    /// `git worktree add`.
    Add {
        path: Vec<u8>,
        commit_ish: Option<String>,
        branch: Option<String>,
        detach: bool,
        no_checkout: bool,
    },
    /// `git worktree list`.
    List { porcelain: bool, verbose: bool },
    /// `git worktree remove`.
    Remove { path: Vec<u8>, force: bool },
    /// `git worktree lock`.
    Lock { path: Vec<u8>, reason: Option<String> },
    /// `git worktree unlock`.
    Unlock { path: Vec<u8> },
    /// `git worktree move`.
    Move { path: Vec<u8>, new_path: String },
    /// `git worktree repair`.
    Repair { target: Option<String> },
    /// `git worktree prune`.
    Prune { dry_run: bool, verbose: bool, expire: Option<String> },
}

/// The arguments of `git worktree add`: `--detach`, or else `-b` and the
/// branch when one is given; `--no-checkout` when asked; the path; and the
/// commit-ish when one is given.
pub open spec fn add_args_spec(
    path: Seq<u8>,
    commit_ish: Option<Seq<char>>,
    branch: Option<Seq<char>>,
    detach: bool,
    no_checkout: bool,
) -> Seq<Seq<u8>> {
    seq![encode_utf8("worktree"@), encode_utf8("add"@)] + (if detach {
        seq![encode_utf8("--detach"@)]
    } else {
        match branch {
            Some(b) => seq![encode_utf8("-b"@), encode_utf8(b)],
            None => seq![],
        }
    }) + (if no_checkout {
        seq![encode_utf8("--no-checkout"@)]
    } else {
        seq![]
    }) + seq![path] + opt_utf8(commit_ish)
}

impl GitCommand {
    /// The arguments that follow `git`, as bytes.
    pub open spec fn arg_views(&self) -> Seq<Seq<u8>> {
        match self {
            GitCommand::RemoteUrl => seq![
                encode_utf8("remote"@),
                encode_utf8("get-url"@),
                encode_utf8("origin"@),
            ],
            GitCommand::TopLevel => seq![encode_utf8("rev-parse"@), encode_utf8("--show-toplevel"@)],
            GitCommand::Add { path, commit_ish, branch, detach, no_checkout } => add_args_spec(
                path@,
                opt_view(*commit_ish),
                opt_view(*branch),
                *detach,
                *no_checkout,
            ),
            GitCommand::List { porcelain, verbose } => seq![
                encode_utf8("worktree"@),
                encode_utf8("list"@),
            ] + (if *porcelain {
                seq![encode_utf8("--porcelain"@)]
            } else {
                seq![]
            }) + (if *verbose {
                seq![encode_utf8("-v"@)]
            } else {
                seq![]
            }),
            GitCommand::Remove { path, force } => seq![
                encode_utf8("worktree"@),
                encode_utf8("remove"@),
            ] + (if *force {
                seq![encode_utf8("--force"@)]
            } else {
                seq![]
            }) + seq![path@],
            GitCommand::Lock { path, reason } => seq![encode_utf8("worktree"@), encode_utf8("lock"@)]
                + (match reason {
                Some(r) => seq![encode_utf8("--reason"@), encode_utf8(r@)],
                None => seq![],
            }) + seq![path@],
            GitCommand::Unlock { path } => seq![
                encode_utf8("worktree"@),
                encode_utf8("unlock"@),
                path@,
            ],
            GitCommand::Move { path, new_path } => seq![
                encode_utf8("worktree"@),
                encode_utf8("move"@),
                path@,
                encode_utf8(new_path@),
            ],
            GitCommand::Repair { target } => seq![encode_utf8("worktree"@), encode_utf8("repair"@)]
                + opt_utf8(opt_view(*target)),
            GitCommand::Prune { dry_run, verbose, expire } => seq![
                encode_utf8("worktree"@),
                encode_utf8("prune"@),
            ] + (if *dry_run {
                seq![encode_utf8("-n"@)]
            } else {
                seq![]
            }) + (if *verbose {
                seq![encode_utf8("-v"@)]
            } else {
                seq![]
            }) + (match expire {
                Some(e) => seq![encode_utf8("--expire"@), encode_utf8(e@)],
                None => seq![],
            }),
        }
    }

    /// The arguments that follow `git`, as bytes.
    pub fn args(&self) -> (r: Vec<Vec<u8>>)
        ensures
            byte_views(r@) == self.arg_views(),
    {
        let mut v: Vec<Vec<u8>> = Vec::new();
        match self {
            GitCommand::RemoteUrl => {
                push_text(&mut v, "remote");
                push_text(&mut v, "get-url");
                push_text(&mut v, "origin");
            },
            GitCommand::TopLevel => {
                push_text(&mut v, "rev-parse");
                push_text(&mut v, "--show-toplevel");
            },
            GitCommand::Add { path, commit_ish, branch, detach, no_checkout } => {
                push_text(&mut v, "worktree");
                push_text(&mut v, "add");
                let ghost a = byte_views(v@);
                if *detach {
                    push_text(&mut v, "--detach");
                } else {
                    match branch {
                        Some(b) => {
                            push_text(&mut v, "-b");
                            push_text(&mut v, b.as_str());
                        },
                        None => {},
                    }
                }
                let ghost b = byte_views(v@);
                if *no_checkout {
                    push_text(&mut v, "--no-checkout");
                }
                let ghost c = byte_views(v@);
                push_bytes(&mut v, path.as_slice());
                push_opt_text(&mut v, commit_ish);
                assert(byte_views(v@) =~= a + b.subrange(a.len() as int, b.len() as int)
                    + c.subrange(b.len() as int, c.len() as int) + seq![path@] + opt_utf8(
                    opt_view(*commit_ish),
                ));
            },
            GitCommand::List { porcelain, verbose } => {
                push_text(&mut v, "worktree");
                push_text(&mut v, "list");
                if *porcelain {
                    push_text(&mut v, "--porcelain");
                }
                if *verbose {
                    push_text(&mut v, "-v");
                }
            },
            GitCommand::Remove { path, force } => {
                push_text(&mut v, "worktree");
                push_text(&mut v, "remove");
                if *force {
                    push_text(&mut v, "--force");
                }
                push_bytes(&mut v, path.as_slice());
            },
            GitCommand::Lock { path, reason } => {
                push_text(&mut v, "worktree");
                push_text(&mut v, "lock");
                match reason {
                    Some(r) => {
                        push_text(&mut v, "--reason");
                        push_text(&mut v, r.as_str());
                    },
                    None => {},
                }
                push_bytes(&mut v, path.as_slice());
            },
            GitCommand::Unlock { path } => {
                push_text(&mut v, "worktree");
                push_text(&mut v, "unlock");
                push_bytes(&mut v, path.as_slice());
            },
            GitCommand::Move { path, new_path } => {
                push_text(&mut v, "worktree");
                push_text(&mut v, "move");
                push_bytes(&mut v, path.as_slice());
                push_text(&mut v, new_path.as_str());
            },
            GitCommand::Repair { target } => {
                push_text(&mut v, "worktree");
                push_text(&mut v, "repair");
                push_opt_text(&mut v, target);
            },
            GitCommand::Prune { dry_run, verbose, expire } => {
                push_text(&mut v, "worktree");
                push_text(&mut v, "prune");
                if *dry_run {
                    push_text(&mut v, "-n");
                }
                if *verbose {
                    push_text(&mut v, "-v");
                }
                match expire {
                    Some(e) => {
                        push_text(&mut v, "--expire");
                        push_text(&mut v, e.as_str());
                    },
                    None => {},
                }
            },
        }
        assert(byte_views(v@) =~= self.arg_views());
        v
    }
}

/// What adding a worktree does: create `dir`, then run `command`, which puts
/// the worktree at `path`.
pub struct AddPlan {
    /// The repository's worktree directory, created first.
    pub dir: Vec<u8>,
    /// Where the new worktree goes.
    pub path: Vec<u8>,
    /// The `git worktree add` invocation.
    pub command: GitCommand,
}

/// `plan` adds the worktree `name` to the repository directory `dir` with the
/// options given.
pub open spec fn is_add_plan(
    plan: AddPlan,
    dir: Seq<u8>,
    name: Seq<char>,
    commit_ish: Option<Seq<char>>,
    branch: Option<Seq<char>>,
    detach: bool,
    no_checkout: bool,
) -> bool {
    &&& plan.dir@ == dir
    &&& plan.path@ == join_spec(dir, encode_utf8(name))
    &&& plan.command.arg_views() == add_args_spec(
        join_spec(dir, encode_utf8(name)),
        commit_ish,
        branch,
        detach,
        no_checkout,
    )
}

/// Plans adding the worktree `name` to the repository directory `dir`.
pub fn add(
    dir: &[u8],
    name: &str,
    commit_ish: Option<&str>,
    branch: Option<&str>,
    detach: bool,
    no_checkout: bool,
) -> (r: AddPlan)
    ensures
        is_add_plan(r, dir@, name@, opt_str_view(commit_ish), opt_str_view(branch), detach, no_checkout),
{
    let path = join_text(dir, name);
    let command = GitCommand::Add {
        path: join_text(dir, name),
        commit_ish: to_owned_opt(commit_ish),
        branch: to_owned_opt(branch),
        detach,
        no_checkout,
    };
    AddPlan { dir: vstd::slice::slice_to_vec(dir), path, command }
}

/// What `work on` does with a worktree: go to it, or create it first.
pub enum OnStep {
    /// The worktree is there, at this path.
    Existing(Vec<u8>),
    /// The worktree is missing and is added so.
    Create(AddPlan),
}

/// Decides what to do for the worktree `name` of the repository directory
/// `dir`, where `exists` tells whether its path is on disk.
pub fn on(dir: &[u8], name: &str, exists: bool) -> (r: OnStep)
    ensures
        match r {
            OnStep::Existing(p) => exists && p@ == join_spec(dir@, encode_utf8(name@)),
            OnStep::Create(plan) => !exists && is_add_plan(plan, dir@, name@, None, None, false, false),
        },
{
    if exists {
        OnStep::Existing(join_text(dir, name))
    } else {
        OnStep::Create(self::add(dir, name, None, None, false, false))
    }
}

/// The worktree names to list, given the directories found in the
/// repository's worktree directory: in order, each as often as given.
pub fn list_names(names: Vec<String>) -> (r: Vec<String>)
    ensures
        sorted_by_key(r@),
        forall|k: Seq<char>| #[trigger] with_key(r@, k) == with_key(names@, k),
{
    stable_sort_by_key(names)
}

/// The worktree names to list across all repositories, given the directories
/// found in each: in order, each name once (the first found of that name).
pub fn list_all_names(names: Vec<String>) -> (r: Vec<String>)
    ensures
        strictly_sorted_by_key(r@),
        forall|k: Seq<char>| #[trigger] with_key(r@, k) == first_of(with_key(names@, k)),
        keys(r@) == keys(names@),
{
    let sorted = stable_sort_by_key(names);
    let ghost s = sorted@;
    let r = dedup_sorted_by_key(sorted);
    proof {
        assert forall|k: Seq<char>| #[trigger] with_key(r@, k) == first_of(with_key(names@, k)) by {
            assert(with_key(r@, k) == first_of(with_key(s, k)));
            assert(with_key(s, k) == with_key(names@, k));
        }
        assert forall|k: Seq<char>| keys(r@).contains(k) <==> keys(names@).contains(k) by {
            crate::order::lemma_keys_with_key(r@, k);
            crate::order::lemma_keys_with_key(names@, k);
            assert(with_key(r@, k) == first_of(with_key(names@, k)));
        }
        assert(keys(r@) =~= keys(names@));
    }
    r
}

} // verus!
