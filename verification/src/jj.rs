//! jj workspaces kept under `~/.worktrees/<repo>/<name>`: the repository's
//! name, the workspace paths, and the jj commands that manage and describe them.
use vstd::prelude::*;
use vstd::utf8::encode_utf8;

use crate::order::{stable_sort_by_key, sorted_by_key, with_key, Keyed, str_eq};
use crate::paths::{
    display_bytes, join_spec, join_text, lossy_text, name_from_root, name_from_root_spec,
    name_from_url, name_from_url_spec, parent, parent_spec,
};
use crate::text::{
    byte_views, find_newline, find_whitespace, first_index, lemma_first_index_unique, lines_spec,
    matches_at, newline_pred, opt_str_view, opt_view, push_bytes, push_text, strip_cr,
    to_owned_opt, trim, trim_spec, views, whitespace_pred,
};

verus! {

/// The repository name that a line of `jj git remote list` gives: the line is
/// a remote's name, one whitespace character, and its URL; only `origin`
/// counts, and only when its URL yields a name that is not empty.
pub open spec fn origin_entry(line: Seq<char>) -> Option<Seq<char>> {
    let k = first_index(line, whitespace_pred());
    if k >= line.len() {
        None
    } else {
        let repo = name_from_url_spec(line.skip(k as int + 1));
        if line.take(k as int) == "origin"@ && repo.len() > 0 {
            Some(repo)
        } else {
            None
        }
    }
}

/// The name that the first line to give one gives.
pub open spec fn first_origin(lines: Seq<Seq<char>>) -> Option<Seq<char>>
    decreases lines.len(),
{
    if lines.len() == 0 {
        None
    } else {
        match origin_entry(lines[0]) {
            Some(r) => Some(r),
            None => first_origin(lines.drop_first()),
        }
    }
}

/// `origin_entry` of the line that `s` holds between `from` and `to`.
fn origin_entry_at(s: &str, from: usize, to: usize) -> (r: Option<String>)
    requires
        from <= to <= s@.len(),
    ensures
        opt_view(r) == origin_entry(s@.subrange(from as int, to as int)),
{
    let ghost line = s@.subrange(from as int, to as int);
    let k = find_whitespace(s, from, to);
    proof {
        assert forall|i: int| 0 <= i < k - from implies !whitespace_pred()(#[trigger] line[i]) by {
            assert(line[i] == s@[from + i]);
        }
        if k < to {
            assert(line[k - from] == s@[k as int]);
        }
        lemma_first_index_unique(line, whitespace_pred(), k - from);
    }
    if k == to {
        return None;
    }
    let url = s.substring_char(k + 1, to);
    assert(url@ =~= line.skip(k - from + 1));
    let repo = name_from_url(url);
    let origin_len = "origin".unicode_len();
    let is_origin = k - from == origin_len && matches_at(s, from, "origin");
    assert(is_origin == (line.take(k - from) == "origin"@)) by {
        if k - from == origin_len {
            assert(line.take(k - from) =~= s@.subrange(from as int, from + origin_len));
        }
    }
    if is_origin && repo.as_str().unicode_len() > 0 {
        Some(repo)
    } else {
        None
    }
}

/// The repository's name taken from `jj git remote list`, given whether it
/// succeeded and what it printed: the first line for `origin` whose URL gives
/// a name; none when it failed or no line gives one.
pub fn repo_name_from_remote_list(success: bool, stdout: &str) -> (r: Option<String>)
    ensures
        opt_view(r) == (if success {
            first_origin(lines_spec(stdout@))
        } else {
            None
        }),
{
    if !success {
        return None;
    }
    let n = stdout.unicode_len();
    let mut p: usize = 0;
    assert(stdout@.skip(0) =~= stdout@);
    while p < n
        invariant
            success,
            p <= n,
            n == stdout@.len(),
            first_origin(lines_spec(stdout@)) == first_origin(lines_spec(stdout@.skip(p as int))),
        decreases n - p,
    {
        let ghost rest = stdout@.skip(p as int);
        let j = find_newline(stdout, p, n);
        proof {
            assert forall|i: int| 0 <= i < j - p implies !newline_pred()(#[trigger] rest[i]) by {
                assert(rest[i] == stdout@[p + i]);
            }
            if j < n {
                assert(rest[j - p] == stdout@[j as int]);
            }
            lemma_first_index_unique(rest, newline_pred(), j - p);
        }
        let mut e = j;
        if j < n && j > p && stdout.get_char(j - 1) == '\r' {
            e = j - 1;
        }
        let ghost line = stdout@.subrange(p as int, e as int);
        proof {
            if j < n {
                assert(rest.take(j - p) =~= stdout@.subrange(p as int, j as int));
                assert(strip_cr(rest.take(j - p)) =~= line);
                assert(rest.skip(j - p + 1) =~= stdout@.skip(j + 1));
                let ls = seq![line] + lines_spec(stdout@.skip(j + 1));
                assert(lines_spec(rest) == ls);
                assert(ls.drop_first() =~= lines_spec(stdout@.skip(j + 1)));
            } else {
                assert(line =~= rest);
                assert(lines_spec(rest) == seq![line]);
                assert(seq![line].drop_first() =~= Seq::<Seq<char>>::empty());
                assert(first_origin(Seq::<Seq<char>>::empty()) == None::<Seq<char>>);
            }
        }
        let found = origin_entry_at(stdout, p, e);
        if found.is_some() {
            return found;
        }
        if j == n {
            return None;
        }
        p = j + 1;
    }
    assert(stdout@.skip(p as int) =~= Seq::<char>::empty());
    None
}

/// Why the repository's name could not be found.
pub enum RepoError {
    /// The current directory is not inside a jj repository.
    NotAJjRepository,
}

impl RepoError {
    /// The text that reports the error.
    pub fn message(&self) -> (r: String)
        ensures
            r@ == "Not in a jj repository"@,
    {
        String::from_str("Not in a jj repository")
    }
}

/// The repository's name taken from `jj workspace root`, given whether it
/// succeeded and what it printed.
pub fn repo_name_from_workspace_root(success: bool, stdout: &str) -> (r: Result<String, RepoError>)
    ensures
        success ==> (r matches Ok(n) && n@ == name_from_root_spec(stdout@)),
        !success ==> (r matches Err(RepoError::NotAJjRepository)),
{
    if success {
        Ok(name_from_root(stdout))
    } else {
        Err(RepoError::NotAJjRepository)
    }
}

/// `jj workspace root` failed.
pub enum RootError {
    /// The current directory is not inside a jj workspace.
    NotAJjWorkspace,
}

impl RootError {
    /// The text that reports the error.
    pub fn message(&self) -> (r: String)
        ensures
            r@ == "Not in a jj workspace"@,
    {
        String::from_str("Not in a jj workspace")
    }
}

/// The repository root that `jj workspace root` gives, given whether it
/// succeeded and what it printed.
pub fn jj_root(success: bool, stdout: &str) -> (r: Result<String, RootError>)
    ensures
        success ==> (r matches Ok(root) && root@ == trim_spec(stdout@)),
        !success ==> (r matches Err(RootError::NotAJjWorkspace)),
{
    if success {
        Ok(trim(stdout))
    } else {
        Err(RootError::NotAJjWorkspace)
    }
}

/// The directory that holds the workspaces of the repository `repo_name`,
/// inside `base`.
pub fn repo_workspaces_dir(base: &[u8], repo_name: &str) -> (r: Vec<u8>)
    ensures
        r@ == join_spec(base@, encode_utf8(repo_name@)),
{
    join_text(base, repo_name)
}

/// A workspace that was asked for by name but is not on disk.
pub struct NotFound {
    /// The name asked for.
    pub name: String,
    /// Where the workspace would be.
    pub path: Vec<u8>,
}

impl NotFound {
    /// The text that reports the error, the path shown as text.
    pub fn message(&self) -> (r: String)
        ensures
            r@ == "Workspace '"@ + self.name@ + "' not found at "@ + lossy_text(self.path@),
    {
        let mut r = String::from_str("Workspace '");
        r.append(self.name.as_str());
        r.append("' not found at ");
        let shown = display_bytes(self.path.as_slice());
        r.append(shown.as_str());
        r
    }
}

/// The path of the workspace `name` in the repository directory `dir`, where
/// `exists` tells whether that path is on disk.
pub fn resolve_path(dir: &[u8], name: &str, exists: bool) -> (r: Result<Vec<u8>, NotFound>)
    ensures
        exists ==> (r matches Ok(p) && p@ == join_spec(dir@, encode_utf8(name@))),
        !exists ==> (r matches Err(e) && e.name@ == name@ && e.path@ == join_spec(
            dir@,
            encode_utf8(name@),
        )),
{
    let path = join_text(dir, name);
    if exists {
        Ok(path)
    } else {
        Err(NotFound { name: String::from_str(name), path })
    }
}

/// What a `jj log` query asks of a workspace's working-copy commit.
pub enum LogQuery {
    /// Its bookmarks, separated by spaces.
    Bookmarks,
    /// The first line of its description.
    Description,
    /// Whether it holds changes: `1` when it does, `0` when it is empty.
    HasChanges,
}

/// A `jj` invocation that the tool makes.
pub enum JjCommand {
    /// `jj git remote list`.
    RemoteList,
    /// `jj workspace root`.
    WorkspaceRoot,
    /// `jj workspace add`.
    Add { path: Vec<u8>, name: String, revision: Option<String> },
    /// `jj workspace list`.
    List,
    /// `jj workspace forget`.
    Forget { name: String },
    /// `jj log` on one workspace's working-copy commit, in the repository `root`.
    Log { root: String, name: String, query: LogQuery },
}

/// The template of a `jj log` query.
pub open spec fn template_spec(query: LogQuery) -> Seq<char> {
    match query {
        LogQuery::Bookmarks => "separate(' ', bookmarks)"@,
        LogQuery::Description => "if(description, description.first_line(), \"(no description)\")"@,
        LogQuery::HasChanges => "if(empty, '0', '1')"@,
    }
}

/// The revset of a workspace's working-copy commit.
pub open spec fn head_revset(name: Seq<char>) -> Seq<char> {
    "workspace_head('"@ + name + "')"@
}

/// The arguments of `jj workspace add`: the path, `--name` and the name, and
/// `--revision` and the revision when one is given.
pub open spec fn add_args_spec(path: Seq<u8>, name: Seq<char>, revision: Option<Seq<char>>) -> Seq<
    Seq<u8>,
> {
    seq![encode_utf8("workspace"@), encode_utf8("add"@), path, encode_utf8("--name"@), encode_utf8(name)]
        + match revision {
        Some(r) => seq![encode_utf8("--revision"@), encode_utf8(r)],
        None => seq![],
    }
}

impl JjCommand {
    /// The arguments that follow `jj`, as bytes.
    pub open spec fn arg_views(&self) -> Seq<Seq<u8>> {
        match self {
            JjCommand::RemoteList => seq![
                encode_utf8("git"@),
                encode_utf8("remote"@),
                encode_utf8("list"@),
            ],
            JjCommand::WorkspaceRoot => seq![encode_utf8("workspace"@), encode_utf8("root"@)],
            JjCommand::Add { path, name, revision } => add_args_spec(
                path@,
                name@,
                opt_view(*revision),
            ),
            JjCommand::List => seq![encode_utf8("workspace"@), encode_utf8("list"@)],
            JjCommand::Forget { name } => seq![
                encode_utf8("workspace"@),
                encode_utf8("forget"@),
                encode_utf8(name@),
            ],
            JjCommand::Log { root, name, query } => seq![
                encode_utf8("-R"@),
                encode_utf8(root@),
                encode_utf8("--no-pager"@),
                encode_utf8("log"@),
                encode_utf8("-r"@),
                encode_utf8(head_revset(name@)),
                encode_utf8("-T"@),
                encode_utf8(template_spec(*query)),
                encode_utf8("--no-graph"@),
            ],
        }
    }

    /// The arguments that follow `jj`, as bytes.
    pub fn args(&self) -> (r: Vec<Vec<u8>>)
        ensures
            byte_views(r@) == self.arg_views(),
    {
        let mut v: Vec<Vec<u8>> = Vec::new();
        match self {
            JjCommand::RemoteList => {
                push_text(&mut v, "git");
                push_text(&mut v, "remote");
                push_text(&mut v, "list");
            },
            JjCommand::WorkspaceRoot => {
                push_text(&mut v, "workspace");
                push_text(&mut v, "root");
            },
            JjCommand::Add { path, name, revision } => {
                push_text(&mut v, "workspace");
                push_text(&mut v, "add");
                push_bytes(&mut v, path.as_slice());
                push_text(&mut v, "--name");
                push_text(&mut v, name.as_str());
                match revision {
                    Some(r) => {
                        push_text(&mut v, "--revision");
                        push_text(&mut v, r.as_str());
                    },
                    None => {},
                }
            },
            JjCommand::List => {
                push_text(&mut v, "workspace");
                push_text(&mut v, "list");
            },
            JjCommand::Forget { name } => {
                push_text(&mut v, "workspace");
                push_text(&mut v, "forget");
                push_text(&mut v, name.as_str());
            },
            JjCommand::Log { root, name, query } => {
                push_text(&mut v, "-R");
                push_text(&mut v, root.as_str());
                push_text(&mut v, "--no-pager");
                push_text(&mut v, "log");
                push_text(&mut v, "-r");
                let mut revset = String::from_str("workspace_head('");
                revset.append(name.as_str());
                revset.append("')");
                push_text(&mut v, revset.as_str());
                push_text(&mut v, "-T");
                match query {
                    LogQuery::Bookmarks => push_text(&mut v, "separate(' ', bookmarks)"),
                    LogQuery::Description => push_text(
                        &mut v,
                        "if(description, description.first_line(), \"(no description)\")",
                    ),
                    LogQuery::HasChanges => push_text(&mut v, "if(empty, '0', '1')"),
                }
                push_text(&mut v, "--no-graph");
            },
        }
        assert(byte_views(v@) =~= self.arg_views());
        v
    }
}

/// What adding a workspace does: create `dir`, then run `command`, which puts
/// the workspace at `path`.
pub struct AddPlan {
    /// The repository's workspace directory, created first.
    pub dir: Vec<u8>,
    /// Where the new workspace goes.
    pub path: Vec<u8>,
    /// The `jj workspace add` invocation.
    pub command: JjCommand,
}

/// `plan` adds the workspace `name` to the repository directory `dir`.
pub open spec fn is_add_plan(
    plan: AddPlan,
    dir: Seq<u8>,
    name: Seq<char>,
    revision: Option<Seq<char>>,
) -> bool {
    &&& plan.dir@ == dir
    &&& plan.path@ == join_spec(dir, encode_utf8(name))
    &&& plan.command.arg_views() == add_args_spec(join_spec(dir, encode_utf8(name)), name, revision)
}

/// Plans adding the workspace `name` to the repository directory `dir`.
pub fn add(dir: &[u8], name: &str, revision: Option<&str>) -> (r: AddPlan)
    ensures
        is_add_plan(r, dir@, name@, opt_str_view(revision)),
{
    let path = join_text(dir, name);
    let command = JjCommand::Add {
        path: join_text(dir, name),
        name: String::from_str(name),
        revision: to_owned_opt(revision),
    };
    AddPlan { dir: vstd::slice::slice_to_vec(dir), path, command }
}

/// What `on` does with a workspace: go to it, or create it first.
pub enum OnStep {
    /// The workspace is there, at this path.
    Existing(Vec<u8>),
    /// The workspace is missing and is added so.
    Create(AddPlan),
}

/// Decides what to do for the workspace `name` of the repository directory
/// `dir`, where `exists` tells whether its path is on disk.
pub fn on(dir: &[u8], name: &str, exists: bool) -> (r: OnStep)
    ensures
        match r {
            OnStep::Existing(p) => exists && p@ == join_spec(dir@, encode_utf8(name@)),
            OnStep::Create(plan) => !exists && is_add_plan(plan, dir@, name@, None),
        },
{
    if exists {
        OnStep::Existing(join_text(dir, name))
    } else {
        OnStep::Create(self::add(dir, name, None))
    }
}

/// One step of moving a workspace.
pub enum MoveStep {
    /// Run this `jj` invocation; the move stops if it fails.
    Run(JjCommand),
    /// Create this directory and those above it.
    CreateDir(Vec<u8>),
    /// Move the directory `from` to `to`.
    Rename { from: Vec<u8>, to: Vec<u8> },
}

/// What moving a workspace does, step by step, in order.
pub struct MovePlan {
    /// The steps, each taken only when the ones before it succeeded.
    pub steps: Vec<MoveStep>,
}

/// `s` is the step that runs a `jj` invocation with the arguments `args`.
pub open spec fn runs(s: MoveStep, args: Seq<Seq<u8>>) -> bool {
    s matches MoveStep::Run(c) && c.arg_views() == args
}

/// `steps` move the workspace `name` from `old_path` to `new_path`: forget
/// it while its directory is still in place; create the new path's parent
/// directory, where the path has one; move the directory; and register it
/// again at the new path under its name.
pub open spec fn is_move_plan(steps: Seq<MoveStep>, old_path: Seq<u8>, name: Seq<char>, new_path: Seq<u8>) -> bool {
    let k: int = if parent_spec(new_path) is Some { 1 } else { 0 };
    &&& steps.len() == 3 + k
    &&& runs(steps[0], seq![encode_utf8("workspace"@), encode_utf8("forget"@), encode_utf8(name)])
    &&& (parent_spec(new_path) matches Some(p) ==> steps[1] matches MoveStep::CreateDir(d) && d@ == p)
    &&& (steps[1 + k] matches MoveStep::Rename { from, to } && from@ == old_path && to@ == new_path)
    &&& runs(steps[2 + k], add_args_spec(new_path, name, None))
}

/// Plans moving the workspace `name`, now at `old_path`, to `new_path`.
pub fn move_workspace(old_path: &[u8], name: &str, new_path: &str) -> (r: MovePlan)
    ensures
        is_move_plan(r.steps@, old_path@, name@, encode_utf8(new_path@)),
{
    let to = new_path.as_bytes();
    let mut steps: Vec<MoveStep> = Vec::new();
    steps.push(MoveStep::Run(JjCommand::Forget { name: String::from_str(name) }));
    match parent(to) {
        Some(p) => steps.push(MoveStep::CreateDir(p)),
        None => {},
    }
    steps.push(MoveStep::Rename { from: vstd::slice::slice_to_vec(old_path), to: vstd::slice::slice_to_vec(to) });
    steps.push(MoveStep::Run(JjCommand::Add { path: vstd::slice::slice_to_vec(to), name: String::from_str(name), revision: None }));
    MovePlan { steps }
}

/// What a `jj log` query printed, trimmed; empty when it could not be run.
pub open spec fn log_text(out: Option<Seq<char>>) -> Seq<char> {
    match out {
        Some(o) => trim_spec(o),
        None => Seq::empty(),
    }
}

/// A workspace as it is listed.
pub struct WorkspaceInfo {
    /// Its name.
    pub name: String,
    /// The repository it belongs to, when workspaces of all repositories are listed.
    pub repo: Option<String>,
    /// The bookmarks at its working-copy commit.
    pub bookmarks: String,
    /// Whether its working-copy commit holds changes.
    pub has_changes: bool,
    /// The first line of the working-copy commit's description.
    pub description: String,
}

/// A workspace's description, from what its three `jj log` queries printed
/// (none for a query that could not be run).
pub fn workspace_info(
    name: &str,
    repo: Option<&str>,
    bookmarks_out: Option<&str>,
    changes_out: Option<&str>,
    description_out: Option<&str>,
) -> (r: WorkspaceInfo)
    ensures
        r.name@ == name@,
        opt_view(r.repo) == opt_str_view(repo),
        r.bookmarks@ == log_text(opt_str_view(bookmarks_out)),
        r.has_changes == (log_text(opt_str_view(changes_out)) == "1"@),
        r.description@ == log_text(opt_str_view(description_out)),
{
    let bookmarks = match bookmarks_out {
        Some(o) => trim(o),
        None => String::new(),
    };
    let changes = match changes_out {
        Some(o) => trim(o),
        None => String::new(),
    };
    let has_changes = str_eq(changes.as_str(), "1");
    let description = match description_out {
        Some(o) => trim(o),
        None => String::new(),
    };
    WorkspaceInfo {
        name: String::from_str(name),
        repo: to_owned_opt(repo),
        bookmarks,
        has_changes,
        description,
    }
}

/// The `jj log` queries that describe one workspace.
pub struct InfoQueries {
    /// The workspace's name.
    pub name: String,
    /// The repository it belongs to, when workspaces of all repositories are listed.
    pub repo: Option<String>,
    /// Asks for its bookmarks.
    pub bookmarks: JjCommand,
    /// Asks whether it holds changes.
    pub has_changes: JjCommand,
    /// Asks for its description.
    pub description: JjCommand,
}

/// `c` is the `jj log` query `query` about the workspace `name`, in the repository `root`.
pub open spec fn is_log_query(c: JjCommand, root: Seq<char>, name: Seq<char>, query: LogQuery) -> bool {
    &&& c matches JjCommand::Log { root: r, name: n, query: q }
    &&& c->Log_root@ == root
    &&& c->Log_name@ == name
    &&& c->Log_query == query
}

/// `q` asks, in the repository `root`, about the workspace `name` of `repo`.
pub open spec fn queries_for(q: InfoQueries, root: Seq<char>, name: Seq<char>, repo: Option<Seq<char>>) -> bool {
    &&& q.name@ == name
    &&& opt_view(q.repo) == repo
    &&& is_log_query(q.bookmarks, root, name, LogQuery::Bookmarks)
    &&& is_log_query(q.has_changes, root, name, LogQuery::HasChanges)
    &&& is_log_query(q.description, root, name, LogQuery::Description)
}

/// The queries that describe the workspace `name` of `repo`, in the
/// repository `root`.
pub fn info_queries(root: &str, name: &str, repo: Option<&str>) -> (r: InfoQueries)
    ensures
        queries_for(r, root@, name@, opt_str_view(repo)),
{
    InfoQueries {
        name: String::from_str(name),
        repo: to_owned_opt(repo),
        bookmarks: JjCommand::Log {
            root: String::from_str(root),
            name: String::from_str(name),
            query: LogQuery::Bookmarks,
        },
        has_changes: JjCommand::Log {
            root: String::from_str(root),
            name: String::from_str(name),
            query: LogQuery::HasChanges,
        },
        description: JjCommand::Log {
            root: String::from_str(root),
            name: String::from_str(name),
            query: LogQuery::Description,
        },
    }
}

impl Keyed for InfoQueries {
    open spec fn key(&self) -> Seq<char> {
        self.name@
    }

    fn key_str(&self) -> (r: &str) {
        self.name.as_str()
    }
}

/// A workspace directory found under the directory of all repositories.
pub struct Entry {
    /// The workspace's name.
    pub name: String,
    /// The repository whose directory holds it.
    pub repo: String,
}

impl Keyed for Entry {
    open spec fn key(&self) -> Seq<char> {
        self.name@
    }

    fn key_str(&self) -> (r: &str) {
        self.name.as_str()
    }
}

/// The repositories of a list of queries.
pub open spec fn query_repos(s: Seq<InfoQueries>) -> Seq<Option<Seq<char>>> {
    s.map_values(|q: InfoQueries| opt_view(q.repo))
}

/// The repositories of a list of entries.
pub open spec fn entry_repos(s: Seq<Entry>) -> Seq<Option<Seq<char>>> {
    s.map_values(|e: Entry| Some(e.repo@))
}

/// The names of a list of queries.
pub open spec fn query_names(s: Seq<InfoQueries>) -> Seq<Seq<char>> {
    s.map_values(|q: InfoQueries| q.name@)
}

/// Two lists that agree, place by place, on the name and on what `f` and `g`
/// give, agree on what they give for the elements of each name.
proof fn lemma_corresponding_groups<A: Keyed, B: Keyed, X>(
    a: Seq<A>,
    b: Seq<B>,
    f: spec_fn(A) -> X,
    g: spec_fn(B) -> X,
    k: Seq<char>,
)
    requires
        a.len() == b.len(),
        forall|i: int| 0 <= i < a.len() ==> (#[trigger] a[i]).key() == b[i].key() && f(a[i]) == g(b[i]),
    ensures
        with_key(a, k).map_values(f) == with_key(b, k).map_values(g),
    decreases a.len(),
{
    if a.len() == 0 {
        assert(with_key(a, k) =~= Seq::<A>::empty()) by {
            reveal(Seq::filter);
        }
        assert(with_key(b, k) =~= Seq::<B>::empty()) by {
            reveal(Seq::filter);
        }
        assert(with_key(a, k).map_values(f) =~= with_key(b, k).map_values(g));
    } else {
        let a0 = a.drop_last();
        let b0 = b.drop_last();
        assert forall|i: int| 0 <= i < a0.len() implies (#[trigger] a0[i]).key() == b0[i].key()
            && f(a0[i]) == g(b0[i]) by {
            assert(a0[i] == a[i]);
            assert(b0[i] == b[i]);
        }
        lemma_corresponding_groups(a0, b0, f, g, k);
        assert(a =~= a0.push(a.last()));
        assert(b =~= b0.push(b.last()));
        a0.lemma_filter_push(a.last(), crate::order::key_is::<A>(k));
        b0.lemma_filter_push(b.last(), crate::order::key_is::<B>(k));
        assert(a[a.len() - 1].key() == b[b.len() - 1].key());
        if a.last().key() == k {
            assert(with_key(a, k).map_values(f) =~= with_key(a0, k).map_values(f).push(f(a.last())));
            assert(with_key(b, k).map_values(g) =~= with_key(b0, k).map_values(g).push(g(b.last())));
        }
    }
}

/// The queries that describe the workspaces of one repository, given their
/// names and the repository root `root`: one per name, in the order of the
/// names, each name as often as given.
pub fn list_names_with_info(root: &str, names: Vec<String>) -> (r: Vec<InfoQueries>)
    ensures
        sorted_by_key(r@),
        forall|k: Seq<char>| #[trigger] query_names(with_key(r@, k)) == views(with_key(names@, k)),
        forall|i: int| 0 <= i < r@.len() ==> queries_for(#[trigger] r@[i], root@, r@[i].name@, None),
{
    let sorted = stable_sort_by_key(names);
    let mut out: Vec<InfoQueries> = Vec::new();
    let mut i: usize = 0;
    while i < sorted.len()
        invariant
            i <= sorted@.len(),
            out@.len() == i,
            forall|j: int| 0 <= j < i ==> (#[trigger] out@[j]).name@ == sorted@[j]@,
            forall|j: int| 0 <= j < i ==> queries_for(#[trigger] out@[j], root@, out@[j].name@, None),
        decreases sorted@.len() - i,
    {
        let q = info_queries(root, sorted[i].as_str(), None);
        out.push(q);
        i = i + 1;
    }
    proof {
        assert forall|k: Seq<char>| #[trigger] query_names(with_key(out@, k)) == views(
            with_key(names@, k),
        ) by {
            lemma_corresponding_groups(
                out@,
                sorted@,
                |q: InfoQueries| q.name@,
                |x: String| x@,
                k,
            );
            assert(with_key(sorted@, k) == with_key(names@, k));
        }
        assert forall|a: int, b: int| 0 <= a < b < out@.len() implies !crate::order::lex_lt(
            #[trigger] out@[b].key(),
            #[trigger] out@[a].key(),
        ) by {
            assert(out@[a].key() == sorted@[a].key());
            assert(out@[b].key() == sorted@[b].key());
        }
    }
    out
}

/// The queries that describe the workspaces of all repositories, given the
/// workspace directories found and the repository root `root`: one per
/// entry, in order of name; entries of one name keep the order they were
/// found in.
pub fn list_all_names_with_info(root: &str, entries: Vec<Entry>) -> (r: Vec<InfoQueries>)
    ensures
        sorted_by_key(r@),
        forall|k: Seq<char>| #[trigger] query_repos(with_key(r@, k)) == entry_repos(with_key(entries@, k)),
        forall|k: Seq<char>| #[trigger] query_names(with_key(r@, k)) == with_key(entries@, k).map_values(
            |e: Entry| e.name@,
        ),
        forall|i: int| 0 <= i < r@.len() ==> queries_for(
            #[trigger] r@[i],
            root@,
            r@[i].name@,
            opt_view(r@[i].repo),
        ) && r@[i].repo is Some,
{
    let sorted = stable_sort_by_key(entries);
    let mut out: Vec<InfoQueries> = Vec::new();
    let mut i: usize = 0;
    while i < sorted.len()
        invariant
            i <= sorted@.len(),
            out@.len() == i,
            forall|j: int| 0 <= j < i ==> (#[trigger] out@[j]).name@ == sorted@[j].name@,
            forall|j: int| 0 <= j < i ==> opt_view((#[trigger] out@[j]).repo) == Some(sorted@[j].repo@),
            forall|j: int| 0 <= j < i ==> queries_for(#[trigger] out@[j], root@, out@[j].name@, opt_view(out@[j].repo)),
        decreases sorted@.len() - i,
    {
        let e = &sorted[i];
        let q = info_queries(root, e.name.as_str(), Some(e.repo.as_str()));
        out.push(q);
        i = i + 1;
    }
    proof {
        assert forall|k: Seq<char>| #[trigger] query_repos(with_key(out@, k)) == entry_repos(
            with_key(entries@, k),
        ) by {
            lemma_corresponding_groups(
                out@,
                sorted@,
                |q: InfoQueries| opt_view(q.repo),
                |e: Entry| Some(e.repo@),
                k,
            );
            assert(with_key(sorted@, k) == with_key(entries@, k));
        }
        assert forall|k: Seq<char>| #[trigger] query_names(with_key(out@, k)) == with_key(
            entries@,
            k,
        ).map_values(|e: Entry| e.name@) by {
            lemma_corresponding_groups(
                out@,
                sorted@,
                |q: InfoQueries| q.name@,
                |e: Entry| e.name@,
                k,
            );
            assert(with_key(sorted@, k) == with_key(entries@, k));
        }
        assert forall|a: int, b: int| 0 <= a < b < out@.len() implies !crate::order::lex_lt(
            #[trigger] out@[b].key(),
            #[trigger] out@[a].key(),
        ) by {
            assert(out@[a].key() == sorted@[a].key());
            assert(out@[b].key() == sorted@[b].key());
        }
        assert forall|j: int| 0 <= j < out@.len() implies (#[trigger] out@[j]).repo is Some by {
            assert(opt_view(out@[j].repo) == Some(sorted@[j].repo@));
        }
    }
    out
}

/// Which workspaces the picker lists.
pub enum ListScope {
    /// Those of the current repository.
    Repo,
    /// Those of every repository.
    All,
    /// None: there is nothing to list.
    Nothing,
}

/// The picker lists the current repository's workspaces when its directory
/// was found and is on disk, else those of every repository when their
/// common directory is on disk, else nothing.
pub fn list_fzf_scope(repo_dir_found: bool, repo_dir_exists: bool, base_exists: bool) -> (r: ListScope)
    ensures
        repo_dir_found && repo_dir_exists ==> r is Repo,
        !(repo_dir_found && repo_dir_exists) && base_exists ==> r is All,
        !(repo_dir_found && repo_dir_exists) && !base_exists ==> r is Nothing,
{
    if repo_dir_found && repo_dir_exists {
        ListScope::Repo
    } else if base_exists {
        ListScope::All
    } else {
        ListScope::Nothing
    }
}

} // verus!
