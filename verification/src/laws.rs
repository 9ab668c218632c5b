//! Properties that hold across the library's functions.
use vstd::prelude::*;

use crate::order::{
    key_is, keys, lemma_keys_with_key, lemma_lex_asymmetric, lemma_lex_irreflexive,
    lemma_lex_total, lex_lt, sorted_by_key, strictly_sorted_by_key, with_key, Keyed,
};
use vstd::utf8::{encode_utf8, encode_utf8_decode_utf8, is_ascii_chars, is_ascii_chars_encode_utf8};

use crate::paths::{
    body_start, drop_last_component, file_name_spec, join_spec, lemma_drop_last_component,
    name_from_root_spec, name_from_url_spec, parent_from, parent_spec, trim_blank_components, DOT,
    SEP,
};
use crate::jj;
use crate::worktree;
use crate::text::{first_index, is_ws, last_segment, lemma_first_index_unique, lines_spec, newline_pred, strip_cr, whitespace_pred, lemma_last_segment, strip_suffixes, trim_end, trim_spec, trim_start, views};

verus! {

/// `s` holds no separator `sep`.
pub open spec fn no_sep<T>(s: Seq<T>, sep: T) -> bool {
    forall|i: int| 0 <= i < s.len() ==> s[i] != sep
}

/// `s` names one ordinary path component, where `sep` separates components
/// and `dot` names the current directory: not empty, no `sep`, neither `dot`
/// nor two of it.
pub open spec fn is_component<T>(s: Seq<T>, sep: T, dot: T) -> bool {
    &&& s.len() > 0
    &&& no_sep(s, sep)
    &&& s != seq![dot]
    &&& s != seq![dot, dot]
}

/// `s` ends with `p`.
pub open spec fn ends_with(s: Seq<char>, p: Seq<char>) -> bool {
    s.len() >= p.len() && s.subrange(s.len() - p.len(), s.len() as int) == p
}

proof fn lemma_last_segment_no_sep<T>(s: Seq<T>, sep: T)
    ensures
        no_sep(last_segment(s, sep), sep),
{
    lemma_last_segment(s, sep);
    let seg = last_segment(s, sep);
    assert forall|i: int| 0 <= i < seg.len() implies seg[i] != sep by {
        assert(seg[i] == s[s.len() - seg.len() + i]);
    }
}

proof fn lemma_strip_suffixes(s: Seq<char>, p: Seq<char>)
    requires
        p.len() > 0,
    ensures
        strip_suffixes(s, p).len() <= s.len(),
        strip_suffixes(s, p) =~= s.subrange(0, strip_suffixes(s, p).len() as int),
        !ends_with(strip_suffixes(s, p), p),
    decreases s.len(),
{
    if s.len() >= p.len() && s.subrange(s.len() - p.len(), s.len() as int) == p {
        let t = s.subrange(0, s.len() - p.len());
        lemma_strip_suffixes(t, p);
        let r = strip_suffixes(t, p);
        assert(r =~= s.subrange(0, r.len() as int));
    }
}

/// A repository name taken from a remote URL holds no `/` and does not end
/// in `.git`: it is the URL's last segment, with every `.git` removed from its end.
pub proof fn law_url_name_has_no_slash_or_git_suffix(url: Seq<char>)
    ensures
        no_sep(name_from_url_spec(url), '/'),
        !ends_with(name_from_url_spec(url), ".git"@),
{
    reveal_strlit(".git");
    let seg = last_segment(trim_spec(url), '/');
    lemma_last_segment_no_sep(trim_spec(url), '/');
    lemma_strip_suffixes(seg, ".git"@);
    let r = name_from_url_spec(url);
    assert forall|i: int| 0 <= i < r.len() implies r[i] != '/' by {
        assert(r[i] == seg[i]);
    }
}

proof fn lemma_file_name_is_component<T>(s: Seq<T>, sep: T, dot: T)
    ensures
        file_name_spec(s, sep, dot) matches Some(n) ==> is_component(n, sep, dot),
    decreases s.len(),
{
    let seg = last_segment(s, sep);
    lemma_last_segment_no_sep(s, sep);
    if seg != seq![dot, dot] && (seg.len() == 0 || seg == seq![dot]) && seg.len() < s.len() {
        lemma_file_name_is_component(s.take(s.len() - seg.len() - 1), sep, dot);
    }
}

/// A repository name taken from a checkout's root directory is one ordinary
/// path component.
pub proof fn law_root_name_is_component(root: Seq<char>)
    ensures
        is_component(name_from_root_spec(root), '/', '.'),
{
    reveal_strlit("unknown");
    lemma_file_name_is_component(trim_spec(root), '/', '.');
    let u = "unknown"@;
    assert(u.len() == 7);
    assert(u[0] == 'u');
}

proof fn lemma_last_segment_of_concat<T>(x: Seq<T>, y: Seq<T>, sep: T)
    requires
        no_sep(y, sep),
        x.len() == 0 || x.last() == sep,
    ensures
        last_segment(x + y, sep) == y,
    decreases y.len(),
{
    if y.len() == 0 {
        assert(x + y =~= x);
        if x.len() > 0 {
            assert(last_segment(x, sep) =~= Seq::<T>::empty());
        }
    } else {
        lemma_last_segment_of_concat(x, y.drop_last(), sep);
        assert((x + y).drop_last() =~= x + y.drop_last());
        assert((x + y).last() == y.last());
        assert(y.drop_last().push(y.last()) =~= y);
    }
}

/// A worktree's name is the final component of its path: joining an ordinary
/// component onto a directory and taking the path's final component gives it back.
pub proof fn law_file_name_of_join(base: Seq<u8>, name: Seq<u8>)
    requires
        is_component(name, SEP, DOT),
    ensures
        file_name_spec(join_spec(base, name), SEP, DOT) == Some(name),
{
    assert(name[0] != SEP);
    if base.len() == 0 || base.last() == SEP {
        lemma_last_segment_of_concat(base, name, SEP);
    } else {
        let x = base + seq![SEP];
        assert(x.last() == SEP);
        assert(base + seq![SEP] + name =~= x + name);
        lemma_last_segment_of_concat(x, name, SEP);
    }
}

proof fn lemma_filter_empty<T>(p: spec_fn(T) -> bool)
    ensures
        Seq::<T>::empty().filter(p) =~= Seq::<T>::empty(),
{
    reveal(Seq::filter);
}

proof fn lemma_count_first<T: Keyed>(s: Seq<T>, k: Seq<char>)
    requires
        s.len() > 0,
    ensures
        with_key(s, k).len() == with_key(s.drop_first(), k).len() + (if s[0].key() == k {
            1int
        } else {
            0int
        }),
{
    let p = key_is::<T>(k);
    assert(s =~= seq![s[0]] + s.drop_first());
    Seq::filter_distributes_over_add(seq![s[0]], s.drop_first(), p);
    lemma_filter_empty(p);
    assert(seq![s[0]] =~= Seq::<T>::empty().push(s[0]));
    Seq::<T>::empty().lemma_filter_push(s[0], p);
}

proof fn lemma_key_present<T: Keyed>(s: Seq<T>, i: int)
    requires
        0 <= i < s.len(),
    ensures
        with_key(s, s[i].key()).len() > 0,
{
    assert(keys(s).contains(s[i].key()));
    lemma_keys_with_key(s, s[i].key());
}

proof fn lemma_key_found<T: Keyed>(s: Seq<T>, k: Seq<char>) -> (i: int)
    requires
        with_key(s, k).len() > 0,
    ensures
        0 <= i < s.len(),
        s[i].key() == k,
{
    lemma_keys_with_key(s, k);
    choose|i: int| 0 <= i < s.len() && #[trigger] s[i].key() == k
}

proof fn lemma_sorted_drop_first<T: Keyed>(s: Seq<T>)
    requires
        sorted_by_key(s),
        s.len() > 0,
    ensures
        sorted_by_key(s.drop_first()),
{
    let t = s.drop_first();
    assert forall|i: int, j: int| 0 <= i < j < t.len() implies !lex_lt(
        #[trigger] t[j].key(),
        #[trigger] t[i].key(),
    ) by {
        assert(t[j] == s[j + 1] && t[i] == s[i + 1]);
    }
}

/// Two sorted lists that hold each name equally often list the same names in
/// the same places.
proof fn lemma_sorted_unique<T: Keyed>(a: Seq<T>, b: Seq<T>)
    requires
        sorted_by_key(a),
        sorted_by_key(b),
        forall|k: Seq<char>| #[trigger] with_key(a, k).len() == with_key(b, k).len(),
    ensures
        a.len() == b.len(),
        forall|i: int| 0 <= i < a.len() ==> #[trigger] a[i].key() == b[i].key(),
    decreases a.len() + b.len(),
{
    lemma_filter_empty(key_is::<T>(Seq::<char>::empty()));
    if a.len() == 0 || b.len() == 0 {
        if a.len() > 0 {
            lemma_key_present(a, 0);
            assert(with_key(b, a[0].key()).len() > 0);
            let j = lemma_key_found(b, a[0].key());
        }
        if b.len() > 0 {
            lemma_key_present(b, 0);
            assert(with_key(a, b[0].key()).len() > 0);
            let j = lemma_key_found(a, b[0].key());
        }
    } else {
        let ka = a[0].key();
        let kb = b[0].key();
        lemma_key_present(a, 0);
        lemma_key_present(b, 0);
        assert(with_key(b, ka).len() > 0);
        assert(with_key(a, kb).len() > 0);
        let i = lemma_key_found(a, kb);
        let j = lemma_key_found(b, ka);
        if i > 0 {
            assert(!lex_lt(a[i].key(), a[0].key()));
        } else {
            lemma_lex_irreflexive(ka);
        }
        if j > 0 {
            assert(!lex_lt(b[j].key(), b[0].key()));
        } else {
            lemma_lex_irreflexive(kb);
        }
        lemma_lex_total(ka, kb);
        assert(ka == kb);
        lemma_sorted_drop_first(a);
        lemma_sorted_drop_first(b);
        assert forall|k: Seq<char>| #[trigger] with_key(a.drop_first(), k).len() == with_key(
            b.drop_first(),
            k,
        ).len() by {
            lemma_count_first(a, k);
            lemma_count_first(b, k);
            assert(with_key(a, k).len() == with_key(b, k).len());
        }
        lemma_sorted_unique(a.drop_first(), b.drop_first());
        assert forall|i: int| 0 <= i < a.len() implies #[trigger] a[i].key() == b[i].key() by {
            if i > 0 {
                assert(a.drop_first()[i - 1].key() == b.drop_first()[i - 1].key());
            }
        }
    }
}

/// The names listed for one repository depend only on which directories were
/// found, each as often as it was found, and not on the order they were read in.
pub proof fn law_listing_ignores_read_order(a: Seq<String>, b: Seq<String>, ra: Seq<String>, rb: Seq<String>)
    requires
        sorted_by_key(ra),
        sorted_by_key(rb),
        forall|k: Seq<char>| #[trigger] with_key(ra, k) == with_key(a, k),
        forall|k: Seq<char>| #[trigger] with_key(rb, k) == with_key(b, k),
        forall|k: Seq<char>| #[trigger] with_key(a, k).len() == with_key(b, k).len(),
    ensures
        views(ra) == views(rb),
{
    assert forall|k: Seq<char>| #[trigger] with_key(ra, k).len() == with_key(rb, k).len() by {
        assert(with_key(ra, k) == with_key(a, k));
        assert(with_key(rb, k) == with_key(b, k));
        assert(with_key(a, k).len() == with_key(b, k).len());
    }
    lemma_sorted_unique(ra, rb);
    assert forall|i: int| 0 <= i < ra.len() implies views(ra)[i] == views(rb)[i] by {
        assert(ra[i].key() == rb[i].key());
    }
    assert(views(ra) =~= views(rb));
}

proof fn lemma_strict_count<T: Keyed>(s: Seq<T>, k: Seq<char>)
    requires
        strictly_sorted_by_key(s),
    ensures
        with_key(s, k).len() == (if keys(s).contains(k) {
            1int
        } else {
            0int
        }),
    decreases s.len(),
{
    lemma_keys_with_key(s, k);
    if s.len() > 0 {
        let t = s.drop_first();
        assert(strictly_sorted_by_key(t)) by {
            assert forall|i: int, j: int| 0 <= i < j < t.len() implies lex_lt(
                #[trigger] t[i].key(),
                #[trigger] t[j].key(),
            ) by {
                assert(t[j] == s[j + 1] && t[i] == s[i + 1]);
            }
        }
        lemma_strict_count(t, k);
        lemma_count_first(s, k);
        lemma_keys_with_key(t, k);
        if s[0].key() == k && keys(t).contains(k) {
            let i = lemma_key_found(t, k);
            assert(t[i] == s[i + 1]);
            assert(lex_lt(s[0].key(), s[i + 1].key()));
            lemma_lex_irreflexive(k);
        }
        if !keys(s).contains(k) && with_key(t, k).len() > 0 {
            let i = lemma_key_found(t, k);
            assert(t[i] == s[i + 1]);
            lemma_key_present(s, i + 1);
        }
    }
}

/// The names listed across all repositories depend only on which names were
/// found, not on how often or in what order.
pub proof fn law_all_names_ignore_read_order(a: Seq<String>, b: Seq<String>, ra: Seq<String>, rb: Seq<String>)
    requires
        strictly_sorted_by_key(ra),
        strictly_sorted_by_key(rb),
        keys(ra) == keys(a),
        keys(rb) == keys(b),
        keys(a) == keys(b),
    ensures
        views(ra) == views(rb),
{
    assert forall|k: Seq<char>| #[trigger] with_key(ra, k).len() == with_key(rb, k).len() by {
        lemma_strict_count(ra, k);
        lemma_strict_count(rb, k);
    }
    assert(sorted_by_key(ra)) by {
        assert forall|i: int, j: int| 0 <= i < j < ra.len() implies !lex_lt(
            #[trigger] ra[j].key(),
            #[trigger] ra[i].key(),
        ) by {
            lemma_lex_asymmetric(ra[i].key(), ra[j].key());
        }
    }
    assert(sorted_by_key(rb)) by {
        assert forall|i: int, j: int| 0 <= i < j < rb.len() implies !lex_lt(
            #[trigger] rb[j].key(),
            #[trigger] rb[i].key(),
        ) by {
            lemma_lex_asymmetric(rb[i].key(), rb[j].key());
        }
    }
    lemma_sorted_unique(ra, rb);
    assert forall|i: int| 0 <= i < ra.len() implies views(ra)[i] == views(rb)[i] by {
        assert(ra[i].key() == rb[i].key());
    }
    assert(views(ra) =~= views(rb));
}

/// A worktree is found where it was added: for one repository directory and
/// name, the path that `add` creates the worktree at (whatever its options) is
/// the path that `resolve_path` gives once it is on disk, and the one `on` goes to.
pub proof fn law_worktree_found_where_added(
    dir: Seq<u8>,
    name: Seq<char>,
    commit_ish: Option<Seq<char>>,
    branch: Option<Seq<char>>,
    detach: bool,
    no_checkout: bool,
    plan: worktree::AddPlan,
    resolved: Result<Vec<u8>, worktree::NotFound>,
    step: worktree::OnStep,
)
    requires
        worktree::is_add_plan(plan, dir, name, commit_ish, branch, detach, no_checkout),
        resolved matches Ok(p) && p@ == join_spec(dir, encode_utf8(name)),
        step matches worktree::OnStep::Existing(p) && p@ == join_spec(dir, encode_utf8(name)),
    ensures
        resolved matches Ok(p) && p@ == plan.path@,
        step matches worktree::OnStep::Existing(p) && p@ == plan.path@,
{
}

/// What `on` creates is what it later finds: the worktree it plans to add
/// when the path is missing is at the path it goes to once the path exists.
pub proof fn law_worktree_on_creates_what_it_finds(
    dir: Seq<u8>,
    name: Seq<char>,
    missing: worktree::OnStep,
    present: worktree::OnStep,
)
    requires
        missing matches worktree::OnStep::Create(plan) && worktree::is_add_plan(
            plan,
            dir,
            name,
            None,
            None,
            false,
            false,
        ),
        present matches worktree::OnStep::Existing(p) && p@ == join_spec(dir, encode_utf8(name)),
    ensures
        missing->Create_0.path@ == present->Existing_0@,
{
}

/// A workspace is found where it was added: for one repository directory and
/// name, the path that `add` creates the workspace at is the path that
/// `resolve_path` gives once it is on disk, and the one `on` goes to.
pub proof fn law_workspace_found_where_added(
    dir: Seq<u8>,
    name: Seq<char>,
    revision: Option<Seq<char>>,
    plan: jj::AddPlan,
    resolved: Result<Vec<u8>, jj::NotFound>,
    step: jj::OnStep,
)
    requires
        jj::is_add_plan(plan, dir, name, revision),
        resolved matches Ok(p) && p@ == join_spec(dir, encode_utf8(name)),
        step matches jj::OnStep::Existing(p) && p@ == join_spec(dir, encode_utf8(name)),
    ensures
        resolved matches Ok(p) && p@ == plan.path@,
        step matches jj::OnStep::Existing(p) && p@ == plan.path@,
        plan.command.arg_views()[2] == plan.path@,
        plan.command.arg_views()[4] == encode_utf8(name),
{
}

/// A worktree's directory is named after it: the final component of the path
/// that `resolve_path`, `add` and `on` use for an ordinary name is that name,
/// so the names listed from the repository's directory are the worktrees' names.
pub proof fn law_worktree_path_ends_in_its_name(dir: Seq<u8>, name: Seq<char>, plan: worktree::AddPlan)
    requires
        is_component(encode_utf8(name), SEP, DOT),
        worktree::is_add_plan(plan, dir, name, None, None, false, false),
    ensures
        file_name_spec(plan.path@, SEP, DOT) == Some(encode_utf8(name)),
{
    law_file_name_of_join(dir, encode_utf8(name));
}

/// Worktrees are kept at `<home>/.worktrees/<repo>/<name>`: for a home
/// directory that does not end in `/` and a repository name and worktree
/// name that are ordinary components, the base, the repository directory and
/// the worktree's path are joined so, byte for byte.
pub proof fn law_worktree_layout(home: Seq<u8>, repo: Seq<char>, name: Seq<char>)
    requires
        home.len() > 0,
        home.last() != SEP,
        is_component(encode_utf8(repo), SEP, DOT),
        is_component(encode_utf8(name), SEP, DOT),
    ensures
        join_spec(
            join_spec(join_spec(home, encode_utf8(".worktrees"@)), encode_utf8(repo)),
            encode_utf8(name),
        ) == home + seq![SEP] + encode_utf8(".worktrees"@) + seq![SEP] + encode_utf8(repo) + seq![SEP]
            + encode_utf8(name),
{
    reveal_strlit(".worktrees");
    let c = ".worktrees"@;
    let w = encode_utf8(c);
    let r = encode_utf8(repo);
    let n = encode_utf8(name);
    assert(c.len() == 10 && c[0] == '.' && c[9] == 's');
    assert(is_ascii_chars(c));
    is_ascii_chars_encode_utf8(c);
    assert(w[0] == c[0] as u8);
    assert(w[9] == c[9] as u8);
    assert(w[0] != SEP && w[9] != SEP);
    let base = join_spec(home, w);
    assert(base =~= home + seq![SEP] + w);
    assert(base.last() == w[9]);
    assert(r[0] != SEP);
    assert(n[0] != SEP);
    let dir = join_spec(base, r);
    assert(dir =~= base + seq![SEP] + r);
    assert(dir.last() == r[r.len() - 1]);
    assert(join_spec(dir, n) =~= home + seq![SEP] + w + seq![SEP] + r + seq![SEP] + n);
}

/// A moved workspace is registered where its directory went: the step
/// before the last moves the directory from the old path to the new one, and
/// the last hands that same new path, with the workspace's name, to
/// `jj workspace add`; the first step forgets the workspace by that name.
pub proof fn law_move_registers_where_it_moves(
    steps: Seq<jj::MoveStep>,
    old_path: Seq<u8>,
    name: Seq<char>,
    new_path: Seq<u8>,
)
    requires
        jj::is_move_plan(steps, old_path, name, new_path),
    ensures
        steps[steps.len() - 2] matches jj::MoveStep::Rename { from, to } && from@ == old_path
            && to@ == new_path,
        steps.last() matches jj::MoveStep::Run(c) && c.arg_views()[2] == new_path
            && c.arg_views()[4] == encode_utf8(name),
        steps[0] matches jj::MoveStep::Run(c) && c.arg_views()[2] == encode_utf8(name),
{
}

/// Different texts have different UTF-8 encodings.
proof fn lemma_encode_distinct(x: Seq<char>, y: Seq<char>)
    requires
        x != y,
    ensures
        encode_utf8(x) != encode_utf8(y),
{
    encode_utf8_decode_utf8(x);
    encode_utf8_decode_utf8(y);
}

/// `git worktree add` gets, in this order: `worktree add`; `--detach` when a
/// detached HEAD is asked for, whatever the branch and commit-ish, and else
/// `-b` and the branch when one is given; `--no-checkout` when asked; the
/// path; and the commit-ish when one is given; nothing else. So `--detach`
/// stands right after `worktree add` exactly when `detach` is set (for any
/// path that is not itself `--detach`), and no `-b` comes with it.
pub proof fn law_git_add_args(c: worktree::GitCommand)
    requires
        c is Add,
    ensures
        ({
            let a = c.arg_views();
            let detach = c->Add_detach;
            let nc: int = if c->Add_no_checkout { 1 } else { 0 };
            let lead: int = if detach { 1 } else if c->Add_branch is Some { 2 } else { 0 };
            &&& a.len() == 3 + lead + nc + (if c->Add_commit_ish is Some { 1int } else { 0int })
            &&& a[0] == encode_utf8("worktree"@)
            &&& a[1] == encode_utf8("add"@)
            &&& (detach ==> a[2] == encode_utf8("--detach"@))
            &&& (detach ==> forall|i: int| 2 <= i < 2 + lead + nc ==> a[i] != encode_utf8("-b"@))
            &&& (c->Add_path@ != encode_utf8("--detach"@) ==> (detach <==> a[2] == encode_utf8(
                "--detach"@,
            )))
            &&& (!detach ==> (c->Add_branch matches Some(b) ==> a[2] == encode_utf8("-b"@) && a[3]
                == encode_utf8(b@)))
            &&& (c->Add_no_checkout ==> a[2 + lead] == encode_utf8("--no-checkout"@))
            &&& a[2 + lead + nc] == c->Add_path@
            &&& (c->Add_commit_ish matches Some(x) ==> a[3 + lead + nc] == encode_utf8(x@))
        }),
{
    reveal_strlit("--detach");
    reveal_strlit("-b");
    reveal_strlit("--no-checkout");
    lemma_encode_distinct("-b"@, "--detach"@);
    lemma_encode_distinct("--no-checkout"@, "--detach"@);
    lemma_encode_distinct("-b"@, "--no-checkout"@);
    let a = c.arg_views();
    if c->Add_branch is Some {
        lemma_encode_distinct("-b"@, "--detach"@);
    }
}

/// `git worktree list` gets `worktree list`, then `--porcelain` exactly when
/// porcelain output is asked for, then `-v` exactly when verbose output is.
pub proof fn law_git_list_args(porcelain: bool, verbose: bool)
    ensures
        ({
            let a = (worktree::GitCommand::List { porcelain, verbose }).arg_views();
            &&& a.len() == 2 + (if porcelain { 1int } else { 0int }) + (if verbose { 1int } else { 0int })
            &&& a[0] == encode_utf8("worktree"@)
            &&& a[1] == encode_utf8("list"@)
            &&& (a.contains(encode_utf8("--porcelain"@)) <==> porcelain)
            &&& (a.contains(encode_utf8("-v"@)) <==> verbose)
            &&& (porcelain ==> a[2] == encode_utf8("--porcelain"@))
            &&& (verbose ==> a.last() == encode_utf8("-v"@))
        }),
{
    reveal_strlit("worktree");
    reveal_strlit("list");
    reveal_strlit("--porcelain");
    reveal_strlit("-v");
    lemma_encode_distinct("worktree"@, "--porcelain"@);
    lemma_encode_distinct("list"@, "--porcelain"@);
    lemma_encode_distinct("-v"@, "--porcelain"@);
    lemma_encode_distinct("worktree"@, "-v"@);
    lemma_encode_distinct("list"@, "-v"@);
    let a = (worktree::GitCommand::List { porcelain, verbose }).arg_views();
    if porcelain {
        assert(a[2] == encode_utf8("--porcelain"@));
    }
    if verbose {
        assert(a[a.len() - 1] == encode_utf8("-v"@));
    }
}

/// `git worktree prune` gets `worktree prune`, then `-n` exactly when a dry
/// run is asked for (so a dry run never prunes), then `-v` exactly when
/// verbose output is, then `--expire` and the expiry when one is given.
pub proof fn law_git_prune_args(dry_run: bool, verbose: bool, expire: Option<String>)
    ensures
        ({
            let a = (worktree::GitCommand::Prune { dry_run, verbose, expire }).arg_views();
            let d: int = if dry_run { 1 } else { 0 };
            let v: int = if verbose { 1 } else { 0 };
            &&& a.len() == 2 + d + v + (if expire is Some { 2int } else { 0int })
            &&& a[0] == encode_utf8("worktree"@)
            &&& a[1] == encode_utf8("prune"@)
            &&& (dry_run <==> (a.len() > 2 && a[2] == encode_utf8("-n"@)))
            &&& (verbose <==> (a.len() > 2 + d && a[2 + d] == encode_utf8("-v"@)))
            &&& (expire matches Some(e) ==> a[2 + d + v] == encode_utf8("--expire"@) && a[3 + d + v]
                == encode_utf8(e@))
        }),
{
    reveal_strlit("-n");
    reveal_strlit("-v");
    reveal_strlit("--expire");
    assert("-n"@[1] != "-v"@[1]);
    lemma_encode_distinct("-n"@, "-v"@);
    lemma_encode_distinct("-n"@, "--expire"@);
    lemma_encode_distinct("-v"@, "--expire"@);
}

/// `git worktree lock` gets `worktree lock`, then, whenever a reason is
/// given, `--reason` immediately followed by that reason, and last the path.
pub proof fn law_git_lock_args(path: Vec<u8>, reason: Option<String>)
    ensures
        ({
            let a = (worktree::GitCommand::Lock { path, reason }).arg_views();
            &&& a[0] == encode_utf8("worktree"@)
            &&& a[1] == encode_utf8("lock"@)
            &&& a.last() == path@
            &&& (reason matches Some(r) ==> a.len() == 5 && a[2] == encode_utf8("--reason"@) && a[3]
                == encode_utf8(r@))
            &&& (reason is None ==> a.len() == 3)
        }),
{
}

/// `git worktree remove` gets `worktree remove`, then `--force` exactly when
/// forced, and last the path; `unlock` gets `worktree unlock` and the path;
/// `move` gets `worktree move`, the path and the destination.
pub proof fn law_git_remove_unlock_move_args(path: Vec<u8>, force: bool, new_path: String)
    ensures
        ({
            let a = (worktree::GitCommand::Remove { path, force }).arg_views();
            &&& a.len() == 3 + (if force { 1int } else { 0int })
            &&& a[0] == encode_utf8("worktree"@)
            &&& a[1] == encode_utf8("remove"@)
            &&& (force ==> a[2] == encode_utf8("--force"@))
            &&& a.last() == path@
        }),
        (worktree::GitCommand::Unlock { path }).arg_views() == seq![
            encode_utf8("worktree"@),
            encode_utf8("unlock"@),
            path@,
        ],
        ({
            let a = (worktree::GitCommand::Move { path, new_path }).arg_views();
            &&& a.len() == 4
            &&& a[1] == encode_utf8("move"@)
            &&& a[2] == path@
            &&& a[3] == encode_utf8(new_path@)
        }),
{
}

/// `git worktree repair` gets `worktree repair` and the target when one is
/// given; the repository-name queries are `remote get-url origin` and
/// `rev-parse --show-toplevel`.
pub proof fn law_git_repair_and_name_args(target: Option<String>)
    ensures
        ({
            let a = (worktree::GitCommand::Repair { target }).arg_views();
            &&& a[0] == encode_utf8("worktree"@)
            &&& a[1] == encode_utf8("repair"@)
            &&& (target matches Some(t) ==> a.len() == 3 && a[2] == encode_utf8(t@))
            &&& (target is None ==> a.len() == 2)
        }),
        worktree::GitCommand::RemoteUrl.arg_views() == seq![
            encode_utf8("remote"@),
            encode_utf8("get-url"@),
            encode_utf8("origin"@),
        ],
        worktree::GitCommand::TopLevel.arg_views() == seq![
            encode_utf8("rev-parse"@),
            encode_utf8("--show-toplevel"@),
        ],
{
}

/// `jj workspace add` gets `workspace add`, the path, `--name` and the
/// workspace's name, and then `--revision` followed by the revision exactly
/// when one is given; `jj workspace forget` gets `workspace forget` and the name.
pub proof fn law_jj_add_and_forget_args(path: Vec<u8>, name: String, revision: Option<String>)
    ensures
        ({
            let a = (jj::JjCommand::Add { path, name, revision }).arg_views();
            &&& a[0] == encode_utf8("workspace"@)
            &&& a[1] == encode_utf8("add"@)
            &&& a[2] == path@
            &&& a[3] == encode_utf8("--name"@)
            &&& a[4] == encode_utf8(name@)
            &&& (revision matches Some(r) ==> a.len() == 7 && a[5] == encode_utf8("--revision"@) && a[6]
                == encode_utf8(r@))
            &&& (revision is None ==> a.len() == 5)
        }),
        (jj::JjCommand::Forget { name }).arg_views() == seq![
            encode_utf8("workspace"@),
            encode_utf8("forget"@),
            encode_utf8(name@),
        ],
{
}

/// A `jj log` query runs in the repository `root`, without a pager or a
/// graph, on the working-copy commit of the workspace it names
/// (`workspace_head('<name>')`), with the template of what it asks:
/// bookmarks separated by spaces, the description's first line, or `1` for a
/// commit with changes and `0` for an empty one.
pub proof fn law_jj_log_args(root: String, name: String, query: jj::LogQuery)
    ensures
        ({
            let a = (jj::JjCommand::Log { root, name, query }).arg_views();
            &&& a.len() == 9
            &&& a[0] == encode_utf8("-R"@)
            &&& a[1] == encode_utf8(root@)
            &&& a[2] == encode_utf8("--no-pager"@)
            &&& a[3] == encode_utf8("log"@)
            &&& a[4] == encode_utf8("-r"@)
            &&& a[5] == encode_utf8("workspace_head('"@ + name@ + "')"@)
            &&& a[6] == encode_utf8("-T"@)
            &&& a[8] == encode_utf8("--no-graph"@)
            &&& (query is Bookmarks ==> a[7] == encode_utf8("separate(' ', bookmarks)"@))
            &&& (query is Description ==> a[7] == encode_utf8(
                "if(description, description.first_line(), \"(no description)\")"@,
            ))
            &&& (query is HasChanges ==> a[7] == encode_utf8("if(empty, '0', '1')"@))
        }),
{
}

proof fn lemma_trim_start(s: Seq<char>)
    ensures
        trim_start(s).len() <= s.len(),
        trim_start(s) == s.skip(s.len() - trim_start(s).len()),
        forall|k: int| 0 <= k < s.len() - trim_start(s).len() ==> is_ws(#[trigger] s[k]),
        trim_start(s).len() > 0 ==> !is_ws(trim_start(s)[0]),
    decreases s.len(),
{
    if s.len() > 0 && is_ws(s[0]) {
        lemma_trim_start(s.drop_first());
        assert forall|k: int| 0 <= k < s.len() - trim_start(s).len() implies is_ws(#[trigger] s[k]) by {
            if k > 0 {
                assert(s[k] == s.drop_first()[k - 1]);
            }
        }
        assert(trim_start(s) =~= s.skip(s.len() - trim_start(s).len()));
    } else {
        assert(s.skip(0) =~= s);
    }
}

proof fn lemma_trim_end(s: Seq<char>)
    ensures
        trim_end(s).len() <= s.len(),
        trim_end(s) == s.take(trim_end(s).len() as int),
        forall|k: int| trim_end(s).len() <= k < s.len() ==> is_ws(#[trigger] s[k]),
        trim_end(s).len() > 0 ==> !is_ws(trim_end(s).last()),
    decreases s.len(),
{
    if s.len() > 0 && is_ws(s.last()) {
        lemma_trim_end(s.drop_last());
        assert forall|k: int| trim_end(s).len() <= k < s.len() implies is_ws(#[trigger] s[k]) by {
            if k < s.len() - 1 {
                assert(s[k] == s.drop_last()[k]);
            }
        }
        assert(trim_end(s) =~= s.take(trim_end(s).len() as int));
    } else {
        assert(s.take(s.len() as int) =~= s);
    }
}

/// Trimming keeps one contiguous stretch of the text: everything before it
/// and after it is whitespace, and it neither starts nor ends with
/// whitespace, so trimming twice changes nothing more.
pub proof fn law_trim(s: Seq<char>)
    ensures
        exists|lo: int|
            0 <= lo && lo + trim_spec(s).len() <= s.len() && trim_spec(s) == #[trigger] s.subrange(
                lo,
                lo + trim_spec(s).len(),
            ) && (forall|k: int| 0 <= k < lo ==> is_ws(#[trigger] s[k])) && (forall|k: int|
                lo + trim_spec(s).len() <= k < s.len() ==> is_ws(#[trigger] s[k])),
        trim_spec(s).len() > 0 ==> !is_ws(trim_spec(s)[0]) && !is_ws(trim_spec(s).last()),
        trim_spec(trim_spec(s)) == trim_spec(s),
{
    let t = trim_start(s);
    let r = trim_spec(s);
    lemma_trim_start(s);
    lemma_trim_end(t);
    let lo = s.len() - t.len();
    assert(r =~= s.subrange(lo, lo + r.len()));
    assert forall|k: int| lo + r.len() <= k < s.len() implies is_ws(#[trigger] s[k]) by {
        assert(s[k] == t[k - lo]);
    }
    if r.len() > 0 {
        assert(r[0] == t[0]);
    }
    lemma_trim_start(r);
    lemma_trim_end(trim_start(r));
    if r.len() > 0 {
        assert(trim_start(r).len() == r.len());
        assert(trim_start(r) =~= r);
    } else {
        assert(trim_start(r) =~= r);
    }
    assert(trim_end(r) =~= r);
}

/// Joining keeps both parts: an absolute name (starting with `/`) replaces
/// the base; any other name follows the whole base, with one `/` between
/// them exactly when the base is not empty and does not end in `/`.
pub proof fn law_join(base: Seq<u8>, name: Seq<u8>)
    ensures
        name.len() > 0 && name[0] == SEP ==> join_spec(base, name) == name,
        !(name.len() > 0 && name[0] == SEP) ==> ({
            let j = join_spec(base, name);
            let gap: int = if base.len() > 0 && base.last() != SEP { 1 } else { 0 };
            &&& j.len() == base.len() + gap + name.len()
            &&& j.take(base.len() as int) == base
            &&& j.skip(base.len() + gap) == name
            &&& (gap == 1 ==> j[base.len() as int] == SEP)
        }),
{
    if !(name.len() > 0 && name[0] == SEP) {
        let j = join_spec(base, name);
        let gap: int = if base.len() > 0 && base.last() != SEP { 1 } else { 0 };
        assert(j.take(base.len() as int) =~= base);
        assert(j.skip(base.len() + gap) =~= name);
    }
}

proof fn lemma_trim_blank_prefix(t: Seq<u8>, lb: int)
    requires
        0 <= lb <= t.len(),
    ensures
        lb <= trim_blank_components(t, lb).len() <= t.len(),
        trim_blank_components(t, lb) == t.take(trim_blank_components(t, lb).len() as int),
    decreases t.len(),
{
    if 0 <= lb < t.len() && crate::paths::is_blank(crate::paths::last_component(t, lb)) {
        lemma_drop_last_component(t, lb);
        let d = drop_last_component(t, lb);
        lemma_trim_blank_prefix(d, lb);
        let r = trim_blank_components(d, lb);
        assert(r =~= t.take(r.len() as int));
    } else {
        assert(t.take(t.len() as int) =~= t);
    }
}

proof fn lemma_parent_from_prefix(t: Seq<u8>, lb: int, rooted: bool)
    requires
        0 <= lb <= t.len(),
        rooted ==> lb == 1,
    ensures
        parent_from(t, lb, rooted) matches Some(p) ==> p.len() < t.len() && p == t.take(
            p.len() as int,
        ),
    decreases t.len(),
{
    if 0 <= lb < t.len() {
        lemma_drop_last_component(t, lb);
        let d = drop_last_component(t, lb);
        if crate::paths::is_blank(crate::paths::last_component(t, lb)) {
            lemma_parent_from_prefix(d, lb, rooted);
            if parent_from(d, lb, rooted) is Some {
                let p = parent_from(d, lb, rooted)->0;
                assert(p =~= t.take(p.len() as int));
            }
        } else {
            lemma_trim_blank_prefix(d, lb);
            let r = trim_blank_components(d, lb);
            assert(r =~= t.take(r.len() as int));
        }
    } else {
        assert(t.take(0) =~= Seq::<u8>::empty());
    }
}

/// The parent of a path is a proper prefix of it: what `move_workspace`
/// creates before the move is a directory above the destination. The root
/// and the empty path have none; a single relative component has the empty
/// path as its parent.
pub proof fn law_parent_is_prefix(s: Seq<u8>)
    ensures
        parent_spec(s) matches Some(p) ==> p.len() < s.len() && p == s.take(p.len() as int),
        parent_spec(Seq::<u8>::empty()) is None,
        parent_spec(seq![SEP]) is None,
{
    lemma_parent_from_prefix(s, body_start(s), s.len() > 0 && s[0] == SEP);
    assert(body_start(seq![SEP]) == 1);
    let r = seq![SEP];
    assert(parent_from(r, 1, true) is None);
}

/// `p` written `n` times in a row.
pub open spec fn repeat(p: Seq<char>, n: nat) -> Seq<char>
    decreases n,
{
    if n == 0 {
        Seq::empty()
    } else {
        repeat(p, (n - 1) as nat) + p
    }
}

proof fn lemma_strip_suffixes_rebuild(s: Seq<char>, p: Seq<char>) -> (n: nat)
    ensures
        strip_suffixes(s, p) + repeat(p, n) == s,
    decreases s.len(),
{
    if p.len() > 0 && s.len() >= p.len() && s.subrange(s.len() - p.len(), s.len() as int) == p {
        let t = s.subrange(0, s.len() - p.len());
        let m = lemma_strip_suffixes_rebuild(t, p);
        let r = strip_suffixes(t, p);
        assert(repeat(p, m + 1) == repeat(p, m) + p);
        assert(r + repeat(p, m + 1) =~= (r + repeat(p, m)) + p);
        assert(t + p =~= s);
        m + 1
    } else {
        assert(s + repeat(p, 0) =~= s);
        0
    }
}

/// A repository name taken from a remote URL is what follows the last `/` of
/// the trimmed URL (all of it where there is no `/`), with some number of
/// `.git` removed from its end: putting them back gives that last segment.
pub proof fn law_url_name_is_last_segment_without_git(url: Seq<char>)
    ensures
        exists|i: int, n: nat|
            #![trigger trim_spec(url).skip(i), repeat(".git"@, n)]
            0 <= i <= trim_spec(url).len() && (i == 0 || trim_spec(url)[i - 1] == '/') && no_sep(
                trim_spec(url).skip(i),
                '/',
            ) && trim_spec(url).skip(i) == name_from_url_spec(url) + repeat(".git"@, n),
{
    let t = trim_spec(url);
    let seg = last_segment(t, '/');
    lemma_last_segment(t, '/');
    lemma_last_segment_no_sep(t, '/');
    let i = t.len() - seg.len();
    assert(t.skip(i) =~= seg);
    let n = lemma_strip_suffixes_rebuild(seg, ".git"@);
    assert(0 <= i <= t.len() && (i == 0 || t[i - 1] == '/') && no_sep(t.skip(i), '/') && t.skip(i)
        == name_from_url_spec(url) + repeat(".git"@, n));
}

proof fn lemma_file_name_after<T>(x: Seq<T>, name: Seq<T>, sep: T, dot: T)
    requires
        is_component(name, sep, dot),
        x.len() == 0 || x.last() == sep,
    ensures
        file_name_spec(x + name, sep, dot) == Some(name),
{
    lemma_last_segment_of_concat(x, name, sep);
}

/// A checkout's name is its root directory's last component: for a root
/// `<base>/<name>` with an ordinary component `name`, and no whitespace
/// around it for trimming to take off, the name found is `name`.
pub proof fn law_root_name_of_path(base: Seq<char>, name: Seq<char>)
    requires
        is_component(name, '/', '.'),
        base.len() == 0 || !is_ws(base[0]),
        !is_ws(name.last()),
    ensures
        name_from_root_spec(base + seq!['/'] + name) == name,
{
    let root = base + seq!['/'] + name;
    assert(!is_ws(root[0])) by {
        if base.len() == 0 {
            assert(root[0] == '/');
        } else {
            assert(root[0] == base[0]);
        }
    }
    assert(root.last() == name.last());
    assert(trim_start(root) == root);
    assert(trim_end(root) == root);
    let x = base + seq!['/'];
    assert(root =~= x + name);
    lemma_file_name_after(x, name, '/', '.');
}

/// `str::lines` over text: no text has no lines; text without a line feed
/// is one line; otherwise the first line is what comes before the first line
/// feed, less a carriage return that ends it, and the rest are the lines of
/// what follows that line feed.
pub proof fn law_lines(a: Seq<char>, b: Seq<char>)
    requires
        forall|i: int| 0 <= i < a.len() ==> a[i] != '\n',
    ensures
        lines_spec(Seq::<char>::empty()) == Seq::<Seq<char>>::empty(),
        a.len() > 0 ==> lines_spec(a) == seq![a],
        lines_spec(a + seq!['\n'] + b) == seq![strip_cr(a)] + lines_spec(b),
        strip_cr(a + seq!['\r']) == a,
        (a.len() == 0 || a.last() != '\r') ==> strip_cr(a) == a,
{
    let s = a + seq!['\n'] + b;
    assert forall|i: int| 0 <= i < a.len() implies !newline_pred()(#[trigger] s[i]) by {
        assert(s[i] == a[i]);
    }
    assert(s[a.len() as int] == '\n');
    lemma_first_index_unique(s, newline_pred(), a.len() as int);
    assert(s.take(a.len() as int) =~= a);
    assert(s.skip(a.len() as int + 1) =~= b);
    if a.len() > 0 {
        lemma_first_index_unique(a, newline_pred(), a.len() as int);
    }
    assert((a + seq!['\r']).drop_last() =~= a);
}

/// A line of `jj git remote list` is a remote's name, one whitespace
/// character and its URL. It gives a repository name exactly when the remote
/// is `origin` and the URL yields a name that is not empty, and then that name.
pub proof fn law_origin_line(name: Seq<char>, c: char, url: Seq<char>)
    requires
        forall|i: int| 0 <= i < name.len() ==> !is_ws(#[trigger] name[i]),
        is_ws(c),
    ensures
        jj::origin_entry(name + seq![c] + url) == (if name == "origin"@ && name_from_url_spec(url).len()
            > 0 {
            Some(name_from_url_spec(url))
        } else {
            None
        }),
        jj::origin_entry(name) is None,
{
    let line = name + seq![c] + url;
    assert forall|i: int| 0 <= i < name.len() implies !whitespace_pred()(#[trigger] line[i]) by {
        assert(line[i] == name[i]);
    }
    assert(line[name.len() as int] == c);
    lemma_first_index_unique(line, whitespace_pred(), name.len() as int);
    assert(line.take(name.len() as int) =~= name);
    assert(line.skip(name.len() as int + 1) =~= url);
    assert forall|i: int| 0 <= i < name.len() implies !whitespace_pred()(#[trigger] name[i]) by {}
    lemma_first_index_unique(name, whitespace_pred(), name.len() as int);
}

/// The name taken from the remote list is the one given by the first line
/// that gives one: when there is a name, some line gives it and no line
/// before that gives any; when there is none, no line gives one.
pub proof fn law_first_origin(lines: Seq<Seq<char>>)
    ensures
        jj::first_origin(lines) matches Some(r) ==> exists|i: int|
            0 <= i < lines.len() && jj::origin_entry(#[trigger] lines[i]) == Some(r) && forall|j: int|
                0 <= j < i ==> jj::origin_entry(#[trigger] lines[j]) is None,
        jj::first_origin(lines) is None ==> forall|i: int|
            0 <= i < lines.len() ==> jj::origin_entry(#[trigger] lines[i]) is None,
    decreases lines.len(),
{
    if lines.len() > 0 {
        let rest = lines.drop_first();
        law_first_origin(rest);
        if jj::origin_entry(lines[0]) is None {
            if jj::first_origin(rest) is Some {
                let r = jj::first_origin(rest)->0;
                let k = choose|i: int|
                    0 <= i < rest.len() && jj::origin_entry(#[trigger] rest[i]) == Some(r) && forall|
                        j: int,
                    | 0 <= j < i ==> jj::origin_entry(#[trigger] rest[j]) is None;
                assert(lines[k + 1] == rest[k]);
                assert forall|j: int| 0 <= j < k + 1 implies jj::origin_entry(#[trigger] lines[j]) is None by {
                    if j > 0 {
                        assert(lines[j] == rest[j - 1]);
                    }
                }
            } else {
                assert forall|i: int| 0 <= i < lines.len() implies jj::origin_entry(#[trigger] lines[i]) is None by {
                    if i > 0 {
                        assert(lines[i] == rest[i - 1]);
                    }
                }
            }
        }
    }
}

/// Names are ordered by code point, as `String`'s `Ord` orders them: a
/// proper prefix comes first, and otherwise the name whose first differing
/// character has the lower code point. A sorted list of strings is sorted by
/// the strings themselves.
pub proof fn law_name_order(a: Seq<char>, b: Seq<char>, i: int, names: Seq<String>)
    ensures
        a.len() < b.len() && a == b.take(a.len() as int) ==> lex_lt(a, b),
        0 <= i < a.len() && i < b.len() && a.take(i) == b.take(i) && (a[i] as int) < (b[i] as int)
            ==> lex_lt(a, b),
        sorted_by_key(names) ==> forall|x: int, y: int|
            0 <= x < y < names.len() ==> !lex_lt(#[trigger] names[y]@, #[trigger] names[x]@),
    decreases a.len(),
{
    if a.len() > 0 && b.len() > 0 {
        if a.len() < b.len() && a == b.take(a.len() as int) {
            assert(a[0] == b[0]);
            assert(a.drop_first() =~= b.drop_first().take(a.drop_first().len() as int));
            law_name_order(a.drop_first(), b.drop_first(), 0, names);
        }
        if 0 <= i < a.len() && i < b.len() && a.take(i) == b.take(i) && (a[i] as int) < (b[i] as int) {
            if i > 0 {
                assert(a[0] == a.take(i)[0] && b[0] == b.take(i)[0]);
                assert(a.drop_first().take(i - 1) =~= b.drop_first().take(i - 1)) by {
                    assert forall|k: int| 0 <= k < i - 1 implies a.drop_first()[k] == b.drop_first()[k] by {
                        assert(a.take(i)[k + 1] == b.take(i)[k + 1]);
                    }
                }
                assert(a.drop_first()[i - 1] == a[i] && b.drop_first()[i - 1] == b[i]);
                law_name_order(a.drop_first(), b.drop_first(), i - 1, names);
            }
        }
    }
    if sorted_by_key(names) {
        assert forall|x: int, y: int| 0 <= x < y < names.len() implies !lex_lt(
            #[trigger] names[y]@,
            #[trigger] names[x]@,
        ) by {
            assert(!lex_lt(names[y].key(), names[x].key()));
        }
    }
}

/// What a `jj log` query shows: its output trimmed, or nothing when the
/// query could not be run.
pub proof fn law_log_text(o: Seq<char>)
    ensures
        jj::log_text(None) == Seq::<char>::empty(),
        jj::log_text(Some(o)) == trim_spec(o),
{
}

/// Planning to add a worktree creates the repository's directory itself,
/// puts the worktree at `<dir>/<name>`, and hands that very path to
/// `git worktree add`: right after `worktree add` when no option comes
/// before it, and after `--detach` when detached.
pub proof fn law_git_add_plan(
    plan: worktree::AddPlan,
    dir: Seq<u8>,
    name: Seq<char>,
    commit_ish: Option<Seq<char>>,
    branch: Option<Seq<char>>,
    detach: bool,
    no_checkout: bool,
)
    requires
        worktree::is_add_plan(plan, dir, name, commit_ish, branch, detach, no_checkout),
    ensures
        plan.dir@ == dir,
        plan.path@ == join_spec(dir, encode_utf8(name)),
        !detach && branch is None && !no_checkout ==> plan.command.arg_views()[2] == plan.path@,
        detach && !no_checkout ==> plan.command.arg_views()[2] == encode_utf8("--detach"@)
            && plan.command.arg_views()[3] == plan.path@,
        commit_ish matches Some(c) ==> plan.command.arg_views().last() == encode_utf8(c),
        commit_ish is None ==> plan.command.arg_views().last() == plan.path@,
{
}

/// Planning to add a workspace creates the repository's directory itself,
/// puts the workspace at `<dir>/<name>`, and registers that very path under
/// the workspace's name.
pub proof fn law_jj_add_plan(plan: jj::AddPlan, dir: Seq<u8>, name: Seq<char>, revision: Option<Seq<char>>)
    requires
        jj::is_add_plan(plan, dir, name, revision),
    ensures
        plan.dir@ == dir,
        plan.path@ == join_spec(dir, encode_utf8(name)),
        plan.command.arg_views()[2] == plan.path@,
        plan.command.arg_views()[3] == encode_utf8("--name"@),
        plan.command.arg_views()[4] == encode_utf8(name),
        revision matches Some(r) ==> plan.command.arg_views().len() == 7
            && plan.command.arg_views()[6] == encode_utf8(r),
        revision is None ==> plan.command.arg_views().len() == 5,
{
}

/// The parent of `<b>/<c>`, for a named component `c` (not empty, not `.`,
/// no `/`) and a directory `b` that neither ends in `/` nor in a `.`
/// component, is `b`: what `move_workspace` creates is the directory the
/// destination goes into.
pub proof fn law_parent_of_child(b: Seq<u8>, c: Seq<u8>)
    requires
        b.len() > 0,
        b.last() != SEP,
        !(b.len() >= 2 && b[b.len() - 1] == DOT && b[b.len() - 2] == SEP),
        c.len() > 0,
        c != seq![DOT],
        no_sep(c, SEP),
    ensures
        parent_spec(b + seq![SEP] + c) == Some(b),
{
    let s = b + seq![SEP] + c;
    let lb = body_start(s);
    assert(lb == body_start(b)) by {
        if b.len() == 1 {
            assert(s[1] == SEP);
        } else {
            assert(s[1] == b[1]);
        }
        assert(s[0] == b[0]);
    }
    assert(lb <= 1);
    assert(lb <= b.len());
    let x = s.subrange(lb, b.len() as int + 1);
    assert(x.last() == SEP);
    assert(s.subrange(lb, s.len() as int) =~= x + c);
    lemma_last_segment_of_concat(x, c, SEP);
    assert(crate::paths::last_component(s, lb) == c);
    assert(!crate::paths::is_blank(c));
    assert(drop_last_component(s, lb) =~= b);
    lemma_drop_last_component(s, lb);
    if lb < b.len() {
        let body = b.subrange(lb, b.len() as int);
        lemma_last_segment(body, SEP);
        let seg = last_segment(body, SEP);
        assert(body.last() == b.last());
        assert(seg.len() > 0);
        if seg == seq![DOT] {
            assert(seg[0] == body[body.len() - seg.len()]);
            assert(b.last() == DOT);
            if seg.len() < body.len() {
                assert(body[body.len() - 2] == SEP);
                assert(b[b.len() - 2] == body[body.len() - 2]);
            } else {
                assert(body.len() == 1);
                if lb == 0 {
                    assert(b.len() == 1 && b[0] == DOT);
                } else {
                    assert(b.len() == 2);
                    assert(b[0] == SEP || b[0] == DOT);
                    assert(b[1] == DOT);
                    assert(b[0] != DOT || b[1] == SEP);
                }
            }
        }
        assert(!crate::paths::is_blank(crate::paths::last_component(b, lb)));
    }
    assert(trim_blank_components(b, lb) == b);
}

/// The three queries that describe a workspace all run in the repository
/// `root` on that workspace's working-copy commit, and ask, in turn, for its
/// bookmarks, for whether it holds changes, and for its description.
pub proof fn law_info_queries(q: jj::InfoQueries, root: Seq<char>, name: Seq<char>, repo: Option<Seq<char>>)
    requires
        jj::queries_for(q, root, name, repo),
    ensures
        q.name@ == name,
        crate::text::opt_view(q.repo) == repo,
        q.bookmarks.arg_views()[1] == encode_utf8(root),
        q.has_changes.arg_views()[1] == encode_utf8(root),
        q.description.arg_views()[1] == encode_utf8(root),
        q.bookmarks.arg_views()[5] == encode_utf8("workspace_head('"@ + name + "')"@),
        q.has_changes.arg_views()[5] == encode_utf8("workspace_head('"@ + name + "')"@),
        q.description.arg_views()[5] == encode_utf8("workspace_head('"@ + name + "')"@),
        q.bookmarks.arg_views()[7] == encode_utf8("separate(' ', bookmarks)"@),
        q.has_changes.arg_views()[7] == encode_utf8("if(empty, '0', '1')"@),
        q.description.arg_views()[7] == encode_utf8(
            "if(description, description.first_line(), \"(no description)\")"@,
        ),
{
}

} // verus!
