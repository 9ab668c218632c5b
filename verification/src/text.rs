//! Character-level text handling: whitespace, trimming, segments and lines.
use vstd::prelude::*;
use vstd::slice::slice_to_vec;
use vstd::utf8::encode_utf8;

verus! {

/// The Unicode `White_Space` property, the set of characters that
/// `char::is_whitespace` accepts.
pub open spec fn is_ws(c: char) -> bool {
    let u = c as u32;
    ||| 0x9 <= u <= 0xd
    ||| u == 0x20
    ||| u == 0x85
    ||| u == 0xa0
    ||| u == 0x1680
    ||| 0x2000 <= u <= 0x200a
    ||| u == 0x2028
    ||| u == 0x2029
    ||| u == 0x202f
    ||| u == 0x205f
    ||| u == 0x3000
}

/// Whether `c` is a whitespace character.
pub fn is_whitespace(c: char) -> (r: bool)
    ensures
        r == is_ws(c),
{
    let u = c as u32;
    (0x9 <= u && u <= 0xd) || u == 0x20 || u == 0x85 || u == 0xa0 || u == 0x1680 || (0x2000 <= u
        && u <= 0x200a) || u == 0x2028 || u == 0x2029 || u == 0x202f || u == 0x205f || u == 0x3000
}

/// `s` without its leading whitespace.
pub open spec fn trim_start(s: Seq<char>) -> Seq<char>
    decreases s.len(),
{
    if s.len() > 0 && is_ws(s[0]) {
        trim_start(s.drop_first())
    } else {
        s
    }
}

/// `s` without its trailing whitespace.
pub open spec fn trim_end(s: Seq<char>) -> Seq<char>
    decreases s.len(),
{
    if s.len() > 0 && is_ws(s.last()) {
        trim_end(s.drop_last())
    } else {
        s
    }
}

/// `s` without leading and trailing whitespace, as `str::trim` gives it.
pub open spec fn trim_spec(s: Seq<char>) -> Seq<char> {
    trim_end(trim_start(s))
}

/// Removes leading and trailing whitespace.
pub fn trim(s: &str) -> (r: String)
    ensures
        r@ == trim_spec(s@),
{
    let n = s.unicode_len();
    let mut lo: usize = 0;
    assert(s@.subrange(0, n as int) =~= s@);
    while lo < n && is_whitespace(s.get_char(lo))
        invariant
            lo <= n,
            n == s@.len(),
            trim_start(s@) == trim_start(s@.subrange(lo as int, n as int)),
        decreases n - lo,
    {
        assert(s@.subrange(lo as int, n as int).drop_first() =~= s@.subrange(lo + 1, n as int));
        lo = lo + 1;
    }
    let mut hi: usize = n;
    while hi > lo && is_whitespace(s.get_char(hi - 1))
        invariant
            lo <= hi <= n,
            n == s@.len(),
            trim_start(s@) == s@.subrange(lo as int, n as int),
            trim_spec(s@) == trim_end(s@.subrange(lo as int, hi as int)),
        decreases hi,
    {
        assert(s@.subrange(lo as int, hi as int).drop_last() =~= s@.subrange(
            lo as int,
            hi - 1,
        ));
        hi = hi - 1;
    }
    String::from_str(s.substring_char(lo, hi))
}


/// The part of `s` after the last `sep`, or all of `s` when it holds no `sep`:
/// the last item that `str::split(sep)` yields.
pub open spec fn last_segment<T>(s: Seq<T>, sep: T) -> Seq<T>
    decreases s.len(),
{
    if s.len() == 0 {
        s
    } else if s.last() == sep {
        Seq::empty()
    } else {
        last_segment(s.drop_last(), sep).push(s.last())
    }
}

/// The last segment is a suffix of `s`, preceded by `sep` when it is shorter than `s`.
pub proof fn lemma_last_segment<T>(s: Seq<T>, sep: T)
    ensures
        last_segment(s, sep).len() <= s.len(),
        last_segment(s, sep) =~= s.subrange(s.len() - last_segment(s, sep).len(), s.len() as int),
        last_segment(s, sep).len() < s.len() ==> s[s.len() - last_segment(s, sep).len() - 1]
            == sep,
        forall|i: int|
            s.len() - last_segment(s, sep).len() <= i < s.len() ==> s[i] != sep,
    decreases s.len(),
{
    if s.len() > 0 && s.last() != sep {
        lemma_last_segment(s.drop_last(), sep);
        assert forall|i: int|
            s.len() - last_segment(s, sep).len() <= i < s.len() implies s[i] != sep by {
            if i < s.len() - 1 {
                assert(s.drop_last()[i] == s[i]);
            }
        }
    }
}

/// Index in `s` where the segment after the last `sep` before `end` starts.
pub(crate) fn segment_start(s: &str, end: usize, sep: char) -> (i: usize)
    requires
        end <= s@.len(),
    ensures
        i <= end,
        s@.subrange(i as int, end as int) == last_segment(s@.subrange(0, end as int), sep),
{
    let mut i = end;
    while i > 0 && s.get_char(i - 1) != sep
        invariant
            i <= end <= s@.len(),
            last_segment(s@.subrange(0, end as int), sep) == last_segment(
                s@.subrange(0, i as int),
                sep,
            ) + s@.subrange(i as int, end as int),
        decreases i,
    {
        assert(s@.subrange(0, i as int).drop_last() =~= s@.subrange(0, i - 1));
        assert(last_segment(s@.subrange(0, i - 1), sep).push(s@[i - 1]) + s@.subrange(
            i as int,
            end as int,
        ) =~= last_segment(s@.subrange(0, i - 1), sep) + s@.subrange(i - 1, end as int));
        i = i - 1;
    }
    assert(last_segment(s@.subrange(0, i as int), sep) =~= Seq::<char>::empty());
    assert(Seq::<char>::empty() + s@.subrange(i as int, end as int) =~= s@.subrange(
        i as int,
        end as int,
    ));
    i
}

/// The part of `s` after its last `sep`, as `s.split(sep).last()` gives it.
pub fn after_last(s: &str, sep: char) -> (r: String)
    ensures
        r@ == last_segment(s@, sep),
{
    let n = s.unicode_len();
    let i = segment_start(s, n, sep);
    assert(s@.subrange(0, n as int) =~= s@);
    String::from_str(s.substring_char(i, n))
}

/// `s` with every trailing copy of `p` removed, as `str::trim_end_matches(p)` gives it.
pub open spec fn strip_suffixes(s: Seq<char>, p: Seq<char>) -> Seq<char>
    decreases s.len(),
{
    if p.len() > 0 && s.len() >= p.len() && s.subrange(s.len() - p.len(), s.len() as int) == p {
        strip_suffixes(s.subrange(0, s.len() - p.len()), p)
    } else {
        s
    }
}

/// Whether `s` holds `p` at character position `at`.
pub(crate) fn matches_at(s: &str, at: usize, p: &str) -> (r: bool)
    requires
        at + p@.len() <= s@.len(),
    ensures
        r == (s@.subrange(at as int, at + p@.len()) == p@),
{
    let _n = s.unicode_len();
    let m = p.unicode_len();
    let mut k: usize = 0;
    while k < m
        invariant
            k <= m,
            m == p@.len(),
            at + m <= s@.len() <= usize::MAX,
            forall|j: int| 0 <= j < k ==> s@[at + j] == p@[j],
        decreases m - k,
    {
        if s.get_char(at + k) != p.get_char(k) {
            assert(s@.subrange(at as int, at + m)[k as int] != p@[k as int]);
            return false;
        }
        k = k + 1;
    }
    assert(s@.subrange(at as int, at + m) =~= p@);
    true
}

/// Removes every trailing copy of `p` from `s`; an empty `p` removes nothing.
pub fn strip_suffixes_of(s: &str, p: &str) -> (r: String)
    ensures
        r@ == strip_suffixes(s@, p@),
{
    let n = s.unicode_len();
    let m = p.unicode_len();
    if m == 0 {
        return String::from_str(s);
    }
    let mut hi = n;
    assert(s@.subrange(0, n as int) =~= s@);
    loop
        invariant
            hi <= n,
            n == s@.len(),
            m == p@.len(),
            m > 0,
            strip_suffixes(s@, p@) == strip_suffixes(s@.subrange(0, hi as int), p@),
        ensures
            hi <= n,
            strip_suffixes(s@, p@) == s@.subrange(0, hi as int),
        decreases hi,
    {
        if hi >= m && matches_at(s, hi - m, p) {
            assert(s@.subrange(0, hi as int).subrange(hi - m, hi as int) =~= s@.subrange(
                hi - m,
                hi as int,
            ));
            assert(s@.subrange(0, hi as int).subrange(0, hi - m) =~= s@.subrange(0, hi - m));
            hi = hi - m;
        } else {
            assert(hi >= m ==> s@.subrange(0, hi as int).subrange(hi - m, hi as int)
                =~= s@.subrange(hi - m, hi as int));
            assert(strip_suffixes(s@.subrange(0, hi as int), p@) == s@.subrange(0, hi as int));
            break ;
        }
    }
    String::from_str(s.substring_char(0, hi))
}


/// The character sequence of an optional string.
pub open spec fn opt_view(o: Option<String>) -> Option<Seq<char>> {
    match o {
        Some(s) => Some(s@),
        None => None,
    }
}

/// The character sequence of an optional string slice.
pub open spec fn opt_str_view(o: Option<&str>) -> Option<Seq<char>> {
    match o {
        Some(s) => Some(s@),
        None => None,
    }
}


/// The line-feed test, as a predicate.
pub open spec fn newline_pred() -> spec_fn(char) -> bool {
    |c: char| c == '\n'
}

/// The whitespace test, as a predicate.
pub open spec fn whitespace_pred() -> spec_fn(char) -> bool {
    |c: char| is_ws(c)
}

/// Index of the first character of `s` that satisfies `p`, or `s.len()` when none does.
pub open spec fn first_index(s: Seq<char>, p: spec_fn(char) -> bool) -> nat
    decreases s.len(),
{
    if s.len() == 0 {
        0
    } else if p(s[0]) {
        0
    } else {
        1 + first_index(s.drop_first(), p)
    }
}

/// `first_index` is the one index before which nothing satisfies `p` and at which,
/// unless it is the end, something does.
pub proof fn lemma_first_index_unique(s: Seq<char>, p: spec_fn(char) -> bool, k: int)
    requires
        0 <= k <= s.len(),
        forall|i: int| 0 <= i < k ==> !p(#[trigger] s[i]),
        k < s.len() ==> p(s[k]),
    ensures
        first_index(s, p) == k,
    decreases s.len(),
{
    if s.len() > 0 && k > 0 {
        assert(!p(s[0]));
        assert forall|i: int| 0 <= i < k - 1 implies !p(#[trigger] s.drop_first()[i]) by {
            assert(s.drop_first()[i] == s[i + 1]);
        }
        lemma_first_index_unique(s.drop_first(), p, k - 1);
    }
}

/// The first position in `from..to` where `s` holds a line feed, or `to`.
pub(crate) fn find_newline(s: &str, from: usize, to: usize) -> (j: usize)
    requires
        from <= to <= s@.len(),
    ensures
        from <= j <= to,
        forall|i: int| from <= i < j ==> s@[i] != '\n',
        j < to ==> s@[j as int] == '\n',
{
    let mut j = from;
    while j < to && s.get_char(j) != '\n'
        invariant
            from <= j <= to <= s@.len(),
            forall|i: int| from <= i < j ==> s@[i] != '\n',
        decreases to - j,
    {
        j = j + 1;
    }
    j
}

/// The first position in `from..to` where `s` holds whitespace, or `to`.
pub(crate) fn find_whitespace(s: &str, from: usize, to: usize) -> (j: usize)
    requires
        from <= to <= s@.len(),
    ensures
        from <= j <= to,
        forall|i: int| from <= i < j ==> !is_ws(s@[i]),
        j < to ==> is_ws(s@[j as int]),
{
    let mut j = from;
    while j < to && !is_whitespace(s.get_char(j))
        invariant
            from <= j <= to <= s@.len(),
            forall|i: int| from <= i < j ==> !is_ws(s@[i]),
        decreases to - j,
    {
        j = j + 1;
    }
    j
}

/// `line` without the carriage return that ends it, if one does.
pub open spec fn strip_cr(line: Seq<char>) -> Seq<char> {
    if line.len() > 0 && line.last() == '\r' {
        line.drop_last()
    } else {
        line
    }
}

/// The lines of `s`, as `str::lines` yields them: split at each line feed,
/// a carriage return before it dropped, and no empty line after a final line feed.
pub open spec fn lines_spec(s: Seq<char>) -> Seq<Seq<char>>
    decreases s.len(),
{
    if s.len() == 0 {
        seq![]
    } else {
        let i = first_index(s, newline_pred());
        if i >= s.len() {
            seq![s]
        } else {
            seq![strip_cr(s.take(i as int))] + lines_spec(s.skip(i as int + 1))
        }
    }
}


/// The character sequences of a list of strings.
pub open spec fn views(s: Seq<String>) -> Seq<Seq<char>> {
    s.map_values(|x: String| x@)
}

/// Copies an optional string slice.
pub fn to_owned_opt(o: Option<&str>) -> (r: Option<String>)
    ensures
        opt_view(r) == opt_str_view(o),
{
    match o {
        Some(s) => Some(String::from_str(s)),
        None => None,
    }
}

/// The byte sequences of a list of byte strings.
pub open spec fn byte_views(s: Seq<Vec<u8>>) -> Seq<Seq<u8>> {
    s.map_values(|x: Vec<u8>| x@)
}

/// The UTF-8 encoding of `o`'s value as a one-element list, or the empty list.
pub open spec fn opt_utf8(o: Option<Seq<char>>) -> Seq<Seq<u8>> {
    match o {
        Some(x) => seq![encode_utf8(x)],
        None => seq![],
    }
}

/// Appends a copy of the bytes `a` to `v`.
pub fn push_bytes(v: &mut Vec<Vec<u8>>, a: &[u8])
    ensures
        byte_views(final(v)@) == byte_views(old(v)@).push(a@),
{
    v.push(slice_to_vec(a));
    assert(byte_views(v@) =~= byte_views(old(v)@).push(a@));
}

/// Appends the UTF-8 encoding of `a` to `v`.
pub fn push_text(v: &mut Vec<Vec<u8>>, a: &str)
    ensures
        byte_views(final(v)@) == byte_views(old(v)@).push(encode_utf8(a@)),
{
    push_bytes(v, a.as_bytes());
}

/// Appends the UTF-8 encoding of `o`'s value to `v`, if it has one.
pub fn push_opt_text(v: &mut Vec<Vec<u8>>, o: &Option<String>)
    ensures
        byte_views(final(v)@) == byte_views(old(v)@) + opt_utf8(opt_view(*o)),
{
    match o {
        Some(a) => {
            push_text(v, a.as_str());
            assert(byte_views(v@) =~= byte_views(old(v)@) + opt_utf8(opt_view(*o)));
        },
        None => {
            assert(byte_views(v@) =~= byte_views(old(v)@) + opt_utf8(opt_view(*o)));
        },
    }
}

} // verus!
