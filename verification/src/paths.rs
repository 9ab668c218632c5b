//! Paths: joining and taking the parent over a path's bytes, as the operating
//! system holds them; the final component; and the names that are derived
//! from a remote URL or a checkout's root directory.
use vstd::prelude::*;

use vstd::slice::{slice_subrange, slice_to_vec};
use vstd::utf8::{decode_utf8, encode_utf8, valid_utf8};

use crate::text::{
    after_last, last_segment, lemma_last_segment, opt_view, segment_start, strip_suffixes,
    strip_suffixes_of, trim, trim_spec,
};

verus! {

/// The path separator, `/`.
pub const SEP: u8 = 0x2f;

/// The byte of the current-directory component, `.`.
pub const DOT: u8 = 0x2e;

/// `name` appended to `base` as `PathBuf::join` does it on Unix, over the
/// paths' bytes: an absolute `name` replaces `base`, and a `/` is put between
/// them unless `base` is empty or already ends in one.
pub open spec fn join_spec(base: Seq<u8>, name: Seq<u8>) -> Seq<u8> {
    if name.len() > 0 && name[0] == SEP {
        name
    } else if base.len() == 0 || base.last() == SEP {
        base + name
    } else {
        base + seq![SEP] + name
    }
}

/// Appends the bytes `s` to `v`.
fn append_bytes(v: &mut Vec<u8>, s: &[u8])
    ensures
        final(v)@ == old(v)@ + s@,
{
    let mut i: usize = 0;
    while i < s.len()
        invariant
            i <= s@.len(),
            v@ == old(v)@ + s@.subrange(0, i as int),
        decreases s@.len() - i,
    {
        v.push(s[i]);
        assert(s@.subrange(0, i + 1) =~= s@.subrange(0, i as int).push(s@[i as int]));
        i = i + 1;
    }
    assert(s@.subrange(0, s@.len() as int) =~= s@);
}

/// Joins `name` onto `base`.
pub fn join_path(base: &[u8], name: &[u8]) -> (r: Vec<u8>)
    ensures
        r@ == join_spec(base@, name@),
{
    if name.len() > 0 && name[0] == SEP {
        return slice_to_vec(name);
    }
    let mut r = slice_to_vec(base);
    if base.len() > 0 && base[base.len() - 1] != SEP {
        r.push(SEP);
    }
    append_bytes(&mut r, name);
    r
}

/// Joins the text `name` onto `base`.
pub fn join_text(base: &[u8], name: &str) -> (r: Vec<u8>)
    ensures
        r@ == join_spec(base@, encode_utf8(name@)),
{
    join_path(base, name.as_bytes())
}

/// Names what `String::from_utf8_lossy` makes of `bytes`.
pub uninterp spec fn lossy_text(bytes: Seq<u8>) -> Seq<char>;

/// `String::from_utf8_lossy`, which is how a path is shown: the bytes read
/// as UTF-8 with each invalid sequence replaced by U+FFFD. Its documentation
/// says that bytes which are valid UTF-8 give exactly the text they encode;
/// what it makes of other bytes is only named.
#[verifier::external_body]
pub(crate) fn display_bytes(bytes: &[u8]) -> (r: String)
    ensures
        r@ == lossy_text(bytes@),
        valid_utf8(bytes@) ==> r@ == decode_utf8(bytes@),
{
    String::from_utf8_lossy(bytes).into_owned()
}

/// The final component of a path, as `Path::file_name` gives it: the last
/// component that is neither empty nor `.`, unless it is `..`; none for a
/// path that ends in `..`, for the root and for the empty path.
pub open spec fn file_name_spec<T>(s: Seq<T>, sep: T, dot: T) -> Option<Seq<T>>
    decreases s.len(),
{
    let seg = last_segment(s, sep);
    if seg == seq![dot, dot] {
        None
    } else if seg.len() == 0 || seg == seq![dot] {
        if seg.len() < s.len() {
            file_name_spec(s.take(s.len() - seg.len() - 1), sep, dot)
        } else {
            None
        }
    } else {
        Some(seg)
    }
}

/// The final component of the path `s`.
pub fn file_name(s: &str) -> (r: Option<String>)
    ensures
        opt_view(r) == file_name_spec(s@, '/', '.'),
{
    let n = s.unicode_len();
    let mut end = n;
    assert(s@.subrange(0, n as int) =~= s@);
    loop
        invariant
            end <= n,
            n == s@.len(),
            file_name_spec(s@, '/', '.') == file_name_spec(s@.subrange(0, end as int), '/', '.'),
        decreases end,
    {
        let start = segment_start(s, end, '/');
        let ghost prefix = s@.subrange(0, end as int);
        let ghost seg = last_segment(prefix, '/');
        proof {
            lemma_last_segment(prefix, '/');
        }
        assert(seg.len() == end - start);
        let len = end - start;
        let first_dot = len >= 1 && s.get_char(start) == '.';
        let second_dot = len == 2 && s.get_char(start + 1) == '.';
        if len == 2 && first_dot && second_dot {
            assert(seg =~= seq!['.', '.']);
            return None;
        }
        assert(seg != seq!['.', '.']) by {
            if len == 2 {
                assert(seg[0] == s@[start as int]);
                assert(seg[1] == s@[start + 1]);
            }
        }
        if len == 0 || (len == 1 && first_dot) {
            assert(len == 1 ==> seg =~= seq!['.']);
            if start > 0 {
                assert(prefix.take(prefix.len() - seg.len() - 1) =~= s@.subrange(0, start - 1));
                end = start - 1;
            } else {
                return None;
            }
        } else {
            assert(seg != seq!['.']) by {
                if len == 1 {
                    assert(seg[0] == s@[start as int]);
                }
            }
            return Some(String::from_str(s.substring_char(start, end)));
        }
    }
}

/// The name of a repository whose remote URL is `url`: the URL's last `/`
/// segment with every trailing `.git` removed, the URL trimmed first.
pub open spec fn name_from_url_spec(url: Seq<char>) -> Seq<char> {
    strip_suffixes(last_segment(trim_spec(url), '/'), ".git"@)
}

/// Derives a repository name from a remote URL.
pub fn name_from_url(url: &str) -> (r: String)
    ensures
        r@ == name_from_url_spec(url@),
{
    let t = trim(url);
    let seg = after_last(t.as_str(), '/');
    strip_suffixes_of(seg.as_str(), ".git")
}

/// The name of a checkout whose root directory is `root`: the final component
/// of the trimmed path, or `unknown` where it has none.
pub open spec fn name_from_root_spec(root: Seq<char>) -> Seq<char> {
    match file_name_spec(trim_spec(root), '/', '.') {
        Some(n) => n,
        None => "unknown"@,
    }
}

/// Derives a repository name from the root directory of a checkout.
pub fn name_from_root(root: &str) -> (r: String)
    ensures
        r@ == name_from_root_spec(root@),
{
    let t = trim(root);
    match file_name(t.as_str()) {
        Some(n) => n,
        None => String::from_str("unknown"),
    }
}

/// How many bytes at the start of a path stay when components are taken off
/// its end: the root `/` of an absolute path, or the `.` that begins a
/// relative one.
pub open spec fn body_start(s: Seq<u8>) -> int {
    if s.len() > 0 && (s[0] == SEP || (s[0] == DOT && (s.len() == 1 || s[1] == SEP))) {
        1
    } else {
        0
    }
}

/// `t` without its last component and the separator before it, where the
/// components start after `lb` bytes.
pub open spec fn drop_last_component(t: Seq<u8>, lb: int) -> Seq<u8> {
    let body = t.subrange(lb, t.len() as int);
    let seg = last_segment(body, SEP);
    if seg.len() < body.len() {
        t.take(t.len() - seg.len() - 1)
    } else {
        t.take(t.len() - seg.len())
    }
}

/// The last component of `t`, where the components start after `lb` bytes.
pub open spec fn last_component(t: Seq<u8>, lb: int) -> Seq<u8> {
    last_segment(t.subrange(lb, t.len() as int), SEP)
}

/// A component that names nothing: empty, or `.`.
pub open spec fn is_blank(c: Seq<u8>) -> bool {
    c.len() == 0 || c == seq![DOT]
}

/// Taking off the last component leaves a strictly shorter prefix that keeps
/// the first `lb` bytes.
pub proof fn lemma_drop_last_component(t: Seq<u8>, lb: int)
    requires
        0 <= lb < t.len(),
    ensures
        drop_last_component(t, lb).len() < t.len(),
        drop_last_component(t, lb).len() >= lb,
        drop_last_component(t, lb) =~= t.take(drop_last_component(t, lb).len() as int),
{
    lemma_last_segment(t.subrange(lb, t.len() as int), SEP);
}

/// `t` with its trailing empty and `.` components and their separators
/// removed, where the components start after `lb` bytes.
pub open spec fn trim_blank_components(t: Seq<u8>, lb: int) -> Seq<u8>
    decreases t.len(),
{
    if 0 <= lb < t.len() && is_blank(last_component(t, lb)) {
        proof {
            lemma_drop_last_component(t, lb);
        }
        trim_blank_components(drop_last_component(t, lb), lb)
    } else {
        t
    }
}

/// What remains of `t` once its last named component is taken off, the
/// components starting after `lb` bytes; for a path with none, the empty
/// path when it begins with `.` and none otherwise.
pub open spec fn parent_from(t: Seq<u8>, lb: int, rooted: bool) -> Option<Seq<u8>>
    decreases t.len(),
{
    if 0 <= lb < t.len() {
        proof {
            lemma_drop_last_component(t, lb);
        }
        if is_blank(last_component(t, lb)) {
            parent_from(drop_last_component(t, lb), lb, rooted)
        } else {
            Some(trim_blank_components(drop_last_component(t, lb), lb))
        }
    } else if rooted {
        None
    } else if lb == 1 {
        Some(Seq::empty())
    } else {
        None
    }
}

/// The parent of a path, as `Path::parent` gives it on Unix: the path
/// without its final component and the empty or `.` components after that;
/// the empty path for a relative path of one component; none for the root
/// and for the empty path.
pub open spec fn parent_spec(s: Seq<u8>) -> Option<Seq<u8>> {
    parent_from(s, body_start(s), s.len() > 0 && s[0] == SEP)
}

/// Index in `s` where the segment after the last separator in `lo..end` starts.
fn byte_segment_start(s: &[u8], lo: usize, end: usize) -> (i: usize)
    requires
        lo <= end <= s@.len(),
    ensures
        lo <= i <= end,
        s@.subrange(i as int, end as int) == last_segment(s@.subrange(lo as int, end as int), SEP),
        i > lo ==> s@.subrange(lo as int, end as int).len() > last_segment(
            s@.subrange(lo as int, end as int),
            SEP,
        ).len(),
{
    let mut i = end;
    while i > lo && s[i - 1] != SEP
        invariant
            lo <= i <= end <= s@.len(),
            last_segment(s@.subrange(lo as int, end as int), SEP) == last_segment(
                s@.subrange(lo as int, i as int),
                SEP,
            ) + s@.subrange(i as int, end as int),
        decreases i,
    {
        assert(s@.subrange(lo as int, i as int).drop_last() =~= s@.subrange(lo as int, i - 1));
        assert(last_segment(s@.subrange(lo as int, i - 1), SEP).push(s@[i - 1]) + s@.subrange(
            i as int,
            end as int,
        ) =~= last_segment(s@.subrange(lo as int, i - 1), SEP) + s@.subrange(i - 1, end as int));
        i = i - 1;
    }
    if i > lo {
        assert(s@.subrange(lo as int, i as int).last() == SEP);
    }
    assert(last_segment(s@.subrange(lo as int, i as int), SEP) =~= Seq::<u8>::empty());
    assert(Seq::<u8>::empty() + s@.subrange(i as int, end as int) =~= s@.subrange(
        i as int,
        end as int,
    ));
    i
}

/// Where `s.take(end)` ends once its trailing empty and `.` components are removed.
fn trim_blank_end(s: &[u8], lb: usize, end: usize) -> (e: usize)
    requires
        lb <= end <= s@.len(),
    ensures
        lb <= e <= end,
        s@.take(e as int) == trim_blank_components(s@.take(end as int), lb as int),
{
    let mut e = end;
    loop
        invariant
            lb <= e <= end <= s@.len(),
            trim_blank_components(s@.take(end as int), lb as int) == trim_blank_components(
                s@.take(e as int),
                lb as int,
            ),
        ensures
            lb <= e <= end,
            trim_blank_components(s@.take(end as int), lb as int) == s@.take(e as int),
        decreases e,
    {
        if e <= lb {
            return e;
        }
        let start = byte_segment_start(s, lb, e);
        let ghost t = s@.take(e as int);
        assert(t.subrange(lb as int, e as int) =~= s@.subrange(lb as int, e as int));
        let blank = start == e || (e - start == 1 && s[start] == DOT);
        assert(blank == is_blank(last_component(t, lb as int))) by {
            if e - start == 1 {
                assert(last_component(t, lb as int)[0] == s@[start as int]);
            }
            if blank && e - start == 1 {
                assert(last_component(t, lb as int) =~= seq![DOT]);
            }
        }
        if !blank {
            break ;
        }
        let cut = if start > lb {
            start - 1
        } else {
            start
        };
        assert(drop_last_component(t, lb as int) =~= s@.take(cut as int));
        e = cut;
    }
    e
}

/// The parent of the path `s`.
pub fn parent(s: &[u8]) -> (r: Option<Vec<u8>>)
    ensures
        match r {
            Some(p) => parent_spec(s@) == Some(p@),
            None => parent_spec(s@) is None,
        },
{
    let n = s.len();
    let rooted = n > 0 && s[0] == SEP;
    let lb: usize = if n > 0 && (s[0] == SEP || (s[0] == DOT && (n == 1 || s[1] == SEP))) {
        1
    } else {
        0
    };
    let mut end = n;
    assert(s@.take(n as int) =~= s@);
    loop
        invariant
            end <= n,
            n == s@.len(),
            lb == body_start(s@),
            rooted == (s@.len() > 0 && s@[0] == SEP),
            parent_spec(s@) == parent_from(s@.take(end as int), lb as int, rooted),
        decreases end,
    {
        if end <= lb {
            if rooted {
                return None;
            } else if lb == 1 {
                return Some(Vec::new());
            } else {
                return None;
            }
        }
        let start = byte_segment_start(s, lb, end);
        let ghost t = s@.take(end as int);
        assert(t.subrange(lb as int, end as int) =~= s@.subrange(lb as int, end as int));
        let blank = start == end || (end - start == 1 && s[start] == DOT);
        assert(blank == is_blank(last_component(t, lb as int))) by {
            if end - start == 1 {
                assert(last_component(t, lb as int)[0] == s@[start as int]);
            }
            if blank && end - start == 1 {
                assert(last_component(t, lb as int) =~= seq![DOT]);
            }
        }
        let cut = if start > lb {
            start - 1
        } else {
            start
        };
        assert(drop_last_component(t, lb as int) =~= s@.take(cut as int));
        if blank {
            end = cut;
        } else {
            let e = trim_blank_end(s, lb, cut);
            let p = slice_to_vec(slice_subrange(s, 0, e));
            assert(p@ =~= s@.take(e as int));
            return Some(p);
        }
    }
}

} // verus!
