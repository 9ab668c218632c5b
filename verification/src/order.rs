//! The order in which names are listed: lexicographic by code point, which is
//! the byte order of their UTF-8 encoding and so the order of `String`'s `Ord`.
use vstd::prelude::*;

use crate::text::matches_at;

verus! {

/// `a` comes strictly before `b`: at the first place where they differ the
/// character of `a` has the lower code point, or `a` is a proper prefix of `b`.
pub open spec fn lex_lt(a: Seq<char>, b: Seq<char>) -> bool
    decreases a.len(),
{
    if a.len() == 0 {
        b.len() > 0
    } else if b.len() == 0 {
        false
    } else if a[0] != b[0] {
        (a[0] as int) < (b[0] as int)
    } else {
        lex_lt(a.drop_first(), b.drop_first())
    }
}

/// Nothing comes before itself.
pub proof fn lemma_lex_irreflexive(a: Seq<char>)
    ensures
        !lex_lt(a, a),
    decreases a.len(),
{
    if a.len() > 0 {
        lemma_lex_irreflexive(a.drop_first());
    }
}

/// Of two sequences at most one comes before the other.
pub proof fn lemma_lex_asymmetric(a: Seq<char>, b: Seq<char>)
    requires
        lex_lt(a, b),
    ensures
        !lex_lt(b, a),
    decreases a.len(),
{
    if a.len() > 0 && b.len() > 0 && a[0] == b[0] {
        lemma_lex_asymmetric(a.drop_first(), b.drop_first());
    }
}

/// Of two different sequences one comes before the other.
pub proof fn lemma_lex_total(a: Seq<char>, b: Seq<char>)
    ensures
        a == b || lex_lt(a, b) || lex_lt(b, a),
    decreases a.len(),
{
    if a.len() == 0 && b.len() == 0 {
        assert(a =~= b);
    } else if a.len() > 0 && b.len() > 0 && a[0] == b[0] {
        lemma_lex_total(a.drop_first(), b.drop_first());
        if a.drop_first() == b.drop_first() {
            assert(a.drop_first().len() == a.len() - 1);
            assert(b.drop_first().len() == b.len() - 1);
            assert forall|i: int| 0 <= i < a.len() implies a[i] == b[i] by {
                if i > 0 {
                    assert(a[i] == a.drop_first()[i - 1]);
                    assert(b[i] == b.drop_first()[i - 1]);
                }
            }
            assert(a =~= b);
        }
    } else if a.len() > 0 && b.len() > 0 {
        assert((a[0] as int) != (b[0] as int));
    }
}

/// The order is transitive.
pub proof fn lemma_lex_transitive(a: Seq<char>, b: Seq<char>, c: Seq<char>)
    requires
        lex_lt(a, b),
        lex_lt(b, c),
    ensures
        lex_lt(a, c),
    decreases a.len(),
{
    if a.len() > 0 && b.len() > 0 && c.len() > 0 && a[0] == b[0] && b[0] == c[0] {
        lemma_lex_transitive(a.drop_first(), b.drop_first(), c.drop_first());
    }
}

/// `a < b <= c` gives `a < c`.
pub proof fn lemma_lex_lt_le(a: Seq<char>, b: Seq<char>, c: Seq<char>)
    requires
        lex_lt(a, b),
        !lex_lt(c, b),
    ensures
        lex_lt(a, c),
{
    lemma_lex_total(b, c);
    if b != c {
        lemma_lex_transitive(a, b, c);
    }
}

/// Whether `a` comes strictly before `b`.
pub fn str_lt(a: &str, b: &str) -> (r: bool)
    ensures
        r == lex_lt(a@, b@),
{
    let na = a.unicode_len();
    let nb = b.unicode_len();
    let mut i: usize = 0;
    assert(a@.skip(0) =~= a@);
    assert(b@.skip(0) =~= b@);
    loop
        invariant
            i <= na,
            i <= nb,
            na == a@.len(),
            nb == b@.len(),
            lex_lt(a@, b@) == lex_lt(a@.skip(i as int), b@.skip(i as int)),
        decreases na - i,
    {
        if i == na {
            return i < nb;
        }
        if i == nb {
            return false;
        }
        let ca = a.get_char(i);
        let cb = b.get_char(i);
        if ca != cb {
            return (ca as u32) < (cb as u32);
        }
        assert(a@.skip(i as int).drop_first() =~= a@.skip(i + 1));
        assert(b@.skip(i as int).drop_first() =~= b@.skip(i + 1));
        i = i + 1;
    }
}

/// Whether `a` and `b` hold the same characters.
pub fn str_eq(a: &str, b: &str) -> (r: bool)
    ensures
        r == (a@ == b@),
{
    if a.unicode_len() != b.unicode_len() {
        return false;
    }
    let r = matches_at(a, 0, b);
    assert(a@.subrange(0, b@.len() as int) =~= a@);
    r
}

/// A value that is listed under a name.
pub trait Keyed {
    /// The name it is listed under.
    spec fn key(&self) -> Seq<char>;

    /// The name, as a string slice.
    fn key_str(&self) -> (r: &str)
        ensures
            r@ == self.key(),
    ;
}

impl Keyed for String {
    open spec fn key(&self) -> Seq<char> {
        self@
    }

    fn key_str(&self) -> (r: &str) {
        self.as_str()
    }
}

/// Each element's name comes no later than the names after it.
pub open spec fn sorted_by_key<T: Keyed>(s: Seq<T>) -> bool {
    forall|i: int, j: int| 0 <= i < j < s.len() ==> !lex_lt(#[trigger] s[j].key(), #[trigger] s[i].key())
}

/// Each element's name comes strictly before the names after it.
pub open spec fn strictly_sorted_by_key<T: Keyed>(s: Seq<T>) -> bool {
    forall|i: int, j: int| 0 <= i < j < s.len() ==> lex_lt(#[trigger] s[i].key(), #[trigger] s[j].key())
}

/// The test for being named `k`.
pub open spec fn key_is<T: Keyed>(k: Seq<char>) -> spec_fn(T) -> bool {
    |x: T| x.key() == k
}

/// The elements of `s` named `k`, in their order in `s`.
pub open spec fn with_key<T: Keyed>(s: Seq<T>, k: Seq<char>) -> Seq<T> {
    s.filter(key_is(k))
}

/// Inserting `x` after every element whose name is not above its own, and
/// before every element whose name is above it, keeps a sorted sequence sorted.
proof fn lemma_insert_keeps_sorted<T: Keyed>(s: Seq<T>, pos: int, x: T)
    requires
        0 <= pos <= s.len(),
        sorted_by_key(s),
        forall|j: int| 0 <= j < pos ==> !lex_lt(x.key(), #[trigger] s[j].key()),
        pos < s.len() ==> lex_lt(x.key(), s[pos].key()),
    ensures
        sorted_by_key(s.insert(pos, x)),
{
    let n = s.insert(pos, x);
    s.insert_ensures(pos, x);
    assert forall|i: int, j: int| 0 <= i < j < n.len() implies !lex_lt(
        #[trigger] n[j].key(),
        #[trigger] n[i].key(),
    ) by {
        if i == pos && j > pos {
            if j - 1 > pos {
                assert(!lex_lt(s[j - 1].key(), s[pos].key()));
                lemma_lex_lt_le(x.key(), s[pos].key(), s[j - 1].key());
            }
            lemma_lex_asymmetric(x.key(), s[j - 1].key());
        }
    }
}

/// Inserting `x` where `lemma_insert_keeps_sorted` does keeps, for every name,
/// the elements of that name in the order they were added, `x` last.
proof fn lemma_insert_keeps_groups<T: Keyed>(s: Seq<T>, pos: int, x: T, k: Seq<char>)
    requires
        0 <= pos <= s.len(),
        sorted_by_key(s),
        forall|j: int| 0 <= j < pos ==> !lex_lt(x.key(), #[trigger] s[j].key()),
        pos < s.len() ==> lex_lt(x.key(), s[pos].key()),
    ensures
        with_key(s.insert(pos, x), k) == if x.key() == k {
            with_key(s, k).push(x)
        } else {
            with_key(s, k)
        },
{
    let p = key_is::<T>(k);
    let front = s.take(pos);
    let back = s.skip(pos);
    assert(s =~= front + back);
    assert(s.insert(pos, x) =~= front.push(x) + back);
    Seq::filter_distributes_over_add(front, back, p);
    Seq::filter_distributes_over_add(front.push(x), back, p);
    front.lemma_filter_push(x, p);
    if x.key() == k {
        assert(back.filter(p) =~= Seq::<T>::empty()) by {
            if back.filter(p).len() > 0 {
                let y = back.filter(p)[0];
                back.lemma_filter_pred(p, 0);
                assert(p(y));
                assert(back.filter(p).contains(y));
                back.lemma_filter_contains_rev(p, y);
                assert(back.contains(y));
                let j = choose|j: int| 0 <= j < back.len() && back[j] == y;
                assert(back[j] == s[pos + j]);
                if j > 0 {
                    assert(!lex_lt(s[pos + j].key(), s[pos].key()));
                    lemma_lex_lt_le(x.key(), s[pos].key(), s[pos + j].key());
                }
                lemma_lex_irreflexive(x.key());
            }
        }
        assert(front.filter(p).push(x) + back.filter(p) =~= (front.filter(p) + back.filter(
            p,
        )).push(x));
    }
}

/// Sorts `v` by name; elements of one name keep their order.
pub fn stable_sort_by_key<T: Keyed>(v: Vec<T>) -> (r: Vec<T>)
    ensures
        sorted_by_key(r@),
        forall|k: Seq<char>| #[trigger] with_key(r@, k) == with_key(v@, k),
        r@.len() == v@.len(),
{
    let ghost orig = v@;
    let mut rest = v;
    let mut out: Vec<T> = Vec::new();
    assert(orig.take(0) =~= Seq::<T>::empty());
    assert(orig.skip(0) =~= orig);
    while rest.len() > 0
        invariant
            out@.len() + rest@.len() == orig.len(),
            rest@ == orig.skip(out@.len() as int),
            sorted_by_key(out@),
            forall|k: Seq<char>| #[trigger]
                with_key(out@, k) == with_key(orig.take(out@.len() as int), k),
        decreases rest@.len(),
    {
        let ghost done = out@.len() as int;
        let x = rest.remove(0);
        assert(x == orig[done]);
        assert(rest@ =~= orig.skip(done + 1));
        let mut pos: usize = 0;
        while pos < out.len() && !str_lt(x.key_str(), out[pos].key_str())
            invariant
                pos <= out@.len(),
                forall|j: int| 0 <= j < pos ==> !lex_lt(x.key(), #[trigger] out@[j].key()),
            decreases out@.len() - pos,
        {
            pos = pos + 1;
        }
        let ghost before = out@;
        proof {
            lemma_insert_keeps_sorted(before, pos as int, x);
            assert(orig.take(done + 1) =~= orig.take(done).push(x));
            assert forall|k: Seq<char>| #[trigger]
                with_key(before.insert(pos as int, x), k) == with_key(orig.take(done + 1), k) by {
                lemma_insert_keeps_groups(before, pos as int, x, k);
                orig.take(done).lemma_filter_push(x, key_is::<T>(k));
                assert(with_key(before, k) == with_key(orig.take(done), k));
            }
        }
        out.insert(pos, x);
    }
    assert(orig.take(orig.len() as int) =~= orig);
    out
}


/// The names that occur in `s`.
pub open spec fn keys<T: Keyed>(s: Seq<T>) -> Set<Seq<char>> {
    Set::new(|k: Seq<char>| exists|i: int| 0 <= i < s.len() && #[trigger] s[i].key() == k)
}

/// A name occurs in `s` exactly when some element of `s` is listed under it.
pub proof fn lemma_keys_with_key<T: Keyed>(s: Seq<T>, k: Seq<char>)
    ensures
        keys(s).contains(k) <==> with_key(s, k).len() > 0,
{
    let p = key_is::<T>(k);
    if keys(s).contains(k) {
        let i = choose|i: int| 0 <= i < s.len() && #[trigger] s[i].key() == k;
        s.lemma_filter_contains(p, i);
    }
    if with_key(s, k).len() > 0 {
        let y = s.filter(p)[0];
        s.lemma_filter_pred(p, 0);
        assert(s.filter(p).contains(y));
        s.lemma_filter_contains_rev(p, y);
        let i = choose|i: int| 0 <= i < s.len() && s[i] == y;
        assert(s[i].key() == k);
    }
}

/// The first element of `s`, as a list of at most one element.
pub open spec fn first_of<T>(s: Seq<T>) -> Seq<T> {
    if s.len() > 0 {
        seq![s[0]]
    } else {
        Seq::empty()
    }
}

proof fn lemma_filter_of_empty<T>(p: spec_fn(T) -> bool)
    ensures
        Seq::<T>::empty().filter(p) =~= Seq::<T>::empty(),
{
    reveal(Seq::filter);
}

/// Keeps the first element of each name of a sorted `v`.
pub fn dedup_sorted_by_key<T: Keyed>(v: Vec<T>) -> (r: Vec<T>)
    requires
        sorted_by_key(v@),
    ensures
        strictly_sorted_by_key(r@),
        forall|k: Seq<char>| #[trigger] with_key(r@, k) == first_of(with_key(v@, k)),
        keys(r@) == keys(v@),
{
    let ghost orig = v@;
    let mut rest = v;
    let mut out: Vec<T> = Vec::new();
    let ghost mut done: int = 0;
    assert(orig.take(0) =~= Seq::<T>::empty());
    assert(orig.skip(0) =~= orig);
    assert forall|k: Seq<char>| #[trigger] with_key(out@, k) == first_of(with_key(orig.take(0), k)) by {
        lemma_filter_of_empty(key_is::<T>(k));
    }
    while rest.len() > 0
        invariant
            0 <= done <= orig.len(),
            done + rest@.len() == orig.len(),
            rest@ == orig.skip(done),
            sorted_by_key(orig),
            strictly_sorted_by_key(out@),
            forall|k: Seq<char>| #[trigger] with_key(out@, k) == first_of(with_key(orig.take(done), k)),
            out@.len() > 0 <==> done > 0,
            out@.len() > 0 ==> out@.last().key() == orig[done - 1].key(),
        decreases rest@.len(),
    {
        let x = rest.remove(0);
        assert(x == orig[done]);
        assert(rest@ =~= orig.skip(done + 1));
        assert(orig.take(done + 1) =~= orig.take(done).push(x));
        let ghost prev = out@;
        let ghost taken = orig.take(done);
        let fresh = out.len() == 0 || str_lt(out[out.len() - 1].key_str(), x.key_str());
        if fresh {
            proof {
                if prev.len() > 0 {
                    assert forall|i: int| 0 <= i < prev.len() implies lex_lt(
                        #[trigger] prev[i].key(),
                        x.key(),
                    ) by {
                        if i < prev.len() - 1 {
                            lemma_lex_transitive(prev[i].key(), prev.last().key(), x.key());
                        }
                    }
                }
                assert(with_key(prev, x.key()).len() == 0) by {
                    lemma_keys_with_key(prev, x.key());
                    if keys(prev).contains(x.key()) {
                        let i = choose|i: int| 0 <= i < prev.len() && #[trigger] prev[i].key() == x.key();
                        lemma_lex_irreflexive(x.key());
                    }
                }
            }
            out.push(x);
            proof {
                assert forall|k: Seq<char>| #[trigger] with_key(out@, k) == first_of(
                    with_key(orig.take(done + 1), k),
                ) by {
                    prev.lemma_filter_push(x, key_is::<T>(k));
                    taken.lemma_filter_push(x, key_is::<T>(k));
                    assert(with_key(prev, k) == first_of(with_key(taken, k)));
                    if x.key() == k {
                        assert(with_key(taken, k).len() == 0);
                        assert(with_key(prev, k) =~= Seq::<T>::empty());
                        assert(with_key(taken, k).push(x) =~= seq![x]);
                        assert(Seq::<T>::empty().push(x) =~= seq![x]);
                    }
                }
            }
        } else {
            proof {
                assert(!lex_lt(orig[done].key(), orig[done - 1].key()));
                lemma_lex_total(prev.last().key(), x.key());
                assert(prev.last().key() == x.key());
                assert forall|k: Seq<char>| #[trigger] with_key(prev, k) == first_of(
                    with_key(orig.take(done + 1), k),
                ) by {
                    taken.lemma_filter_push(x, key_is::<T>(k));
                    assert(with_key(prev, k) == first_of(with_key(taken, k)));
                    if x.key() == k {
                        prev.lemma_filter_contains(key_is::<T>(k), prev.len() - 1);
                        assert(with_key(taken, k).len() > 0);
                        assert(with_key(taken, k).push(x)[0] == with_key(taken, k)[0]);
                    }
                }
            }
        }
        proof {
            done = done + 1;
        }
    }
    assert(orig.take(orig.len() as int) =~= orig);
    proof {
        assert forall|k: Seq<char>| keys(out@).contains(k) <==> keys(orig).contains(k) by {
            lemma_keys_with_key(out@, k);
            lemma_keys_with_key(orig, k);
        }
        assert(keys(out@) =~= keys(orig));
    }
    out
}

} // verus!
