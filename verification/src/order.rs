//! The order of strings, and a stable sort by it.

use vstd::prelude::*;
use crate::text;

verus! {

/// `a` comes before `b`, or is equal to it, character by character.
pub open spec fn at_most(a: Seq<char>, b: Seq<char>) -> bool
    decreases a.len(),
{
    if a.len() == 0 {
        true
    } else if b.len() == 0 {
        false
    } else if a[0] != b[0] {
        a[0] < b[0]
    } else {
        at_most(a.drop_first(), b.drop_first())
    }
}

/// Any two strings are ordered one way or the other.
pub proof fn lemma_total(a: Seq<char>, b: Seq<char>)
    ensures
        at_most(a, b) || at_most(b, a),
    decreases a.len(),
{
    if a.len() > 0 && b.len() > 0 && a[0] == b[0] {
        lemma_total(a.drop_first(), b.drop_first());
    }
}

/// The order is transitive.
pub proof fn lemma_transitive(a: Seq<char>, b: Seq<char>, c: Seq<char>)
    requires
        at_most(a, b),
        at_most(b, c),
    ensures
        at_most(a, c),
    decreases a.len(),
{
    if a.len() > 0 && b.len() > 0 && c.len() > 0 && a[0] == b[0] && b[0] == c[0] {
        lemma_transitive(a.drop_first(), b.drop_first(), c.drop_first());
    }
}

/// Two strings that are ordered both ways are the same.
pub proof fn lemma_antisymmetric(a: Seq<char>, b: Seq<char>)
    requires
        at_most(a, b),
        at_most(b, a),
    ensures
        a == b,
    decreases a.len(),
{
    if a.len() > 0 && b.len() > 0 {
        lemma_antisymmetric(a.drop_first(), b.drop_first());
        assert(a =~= seq![a[0]] + a.drop_first());
        assert(b =~= seq![b[0]] + b.drop_first());
    } else {
        assert(a =~= b);
    }
}

/// Whether `a` comes before `b` or equals it.
pub fn is_at_most(a: &str, b: &str) -> (r: bool)
    ensures
        r == at_most(a@, b@),
{
    let x = text::chars_of(a);
    let y = text::chars_of(b);
    let mut i: usize = 0;
    assert(x@.skip(0) =~= x@);
    assert(y@.skip(0) =~= y@);
    while i < x.len() && i < y.len() && x[i] == y[i]
        invariant
            i <= x@.len(),
            i <= y@.len(),
            at_most(x@, y@) == at_most(x@.skip(i as int), y@.skip(i as int)),
        decreases x@.len() - i,
    {
        assert(x@.skip(i as int).drop_first() =~= x@.skip(i + 1));
        assert(y@.skip(i as int).drop_first() =~= y@.skip(i + 1));
        i += 1;
    }
    i == x.len() || (i < y.len() && x[i] < y[i])
}

/// Something that is sorted by a string.
pub trait Keyed: Sized {
    /// The string it is sorted by.
    spec fn key(self) -> Seq<char>;

    /// The string it is sorted by.
    fn sort_key(&self) -> (r: &str)
        ensures
            r@ == self.key(),
    ;
}

impl Keyed for String {
    open spec fn key(self) -> Seq<char> {
        self@
    }

    fn sort_key(&self) -> (r: &str) {
        self.as_str()
    }
}

/// How many elements of `s`, from the left, have a key of at most `key`.
pub open spec fn rank<T: Keyed>(s: Seq<T>, key: Seq<char>) -> int
    decreases s.len(),
{
    if s.len() == 0 || at_most(s.last().key(), key) {
        s.len() as int
    } else {
        rank(s.drop_last(), key)
    }
}

/// `s` in the order of its keys; elements with equal keys stay as they were.
pub open spec fn sorted<T: Keyed>(s: Seq<T>) -> Seq<T>
    decreases s.len(),
{
    if s.len() == 0 {
        s
    } else {
        let rest = sorted(s.drop_last());
        rest.insert(rank(rest, s.last().key()), s.last())
    }
}

/// Whether the keys of `s` ascend.
pub open spec fn ascending<T: Keyed>(s: Seq<T>) -> bool {
    forall|i: int, j: int|
        0 <= i <= j < s.len() ==> at_most(#[trigger] s[i].key(), #[trigger] s[j].key())
}

proof fn lemma_rank<T: Keyed>(s: Seq<T>, key: Seq<char>)
    requires
        ascending(s),
    ensures
        0 <= rank(s, key) <= s.len(),
        forall|i: int| 0 <= i < rank(s, key) ==> at_most(#[trigger] s[i].key(), key),
        forall|i: int|
            rank(s, key) <= i < s.len() ==> !at_most(#[trigger] s[i].key(), key),
    decreases s.len(),
{
    if s.len() == 0 {
    } else if at_most(s.last().key(), key) {
        assert forall|i: int| 0 <= i < s.len() implies at_most(#[trigger] s[i].key(), key) by {
            assert(s[s.len() - 1].key() == s.last().key());
            lemma_transitive(s[i].key(), s[s.len() - 1].key(), key);
        }
    } else {
        let front = s.drop_last();
        assert forall|i: int, j: int| 0 <= i <= j < front.len() implies at_most(
            #[trigger] front[i].key(),
            #[trigger] front[j].key(),
        ) by {
            assert(front[i] == s[i] && front[j] == s[j]);
        }
        lemma_rank(front, key);
        assert forall|i: int| 0 <= i < rank(s, key) implies at_most(#[trigger] s[i].key(), key) by {
            assert(front[i] == s[i]);
        }
        assert forall|i: int| rank(s, key) <= i < s.len() implies !at_most(
            #[trigger] s[i].key(),
            key,
        ) by {
            if i < front.len() {
                assert(front[i] == s[i]);
            }
        }
    }
}

proof fn lemma_insert_keeps_order<T: Keyed>(s: Seq<T>, x: T)
    requires
        ascending(s),
    ensures
        0 <= rank(s, x.key()) <= s.len(),
        ascending(s.insert(rank(s, x.key()), x)),
{
    lemma_rank(s, x.key());
    let r = rank(s, x.key());
    let t = s.insert(r, x);
    assert forall|i: int, j: int| 0 <= i <= j < t.len() implies at_most(
        #[trigger] t[i].key(),
        #[trigger] t[j].key(),
    ) by {
        if i < r && j < r {
            assert(t[i] == s[i] && t[j] == s[j]);
        } else if i < r && j == r {
            assert(t[i] == s[i]);
        } else if i < r {
            assert(t[i] == s[i] && t[j] == s[j - 1]);
        } else if i == r && j == r {
            lemma_total(x.key(), x.key());
        } else if i == r {
            assert(t[j] == s[j - 1]);
            lemma_total(x.key(), s[j - 1].key());
        } else {
            assert(t[i] == s[i - 1] && t[j] == s[j - 1]);
        }
    }
}

/// A sorted sequence ascends.
pub proof fn lemma_sorted_ascends<T: Keyed>(s: Seq<T>)
    ensures
        ascending(sorted(s)),
    decreases s.len(),
{
    if s.len() > 0 {
        lemma_sorted_ascends(s.drop_last());
        lemma_insert_keeps_order(sorted(s.drop_last()), s.last());
    }
}

/// Sorting keeps every element, as often as it occurs.
pub proof fn lemma_sorted_keeps_elements<T: Keyed>(s: Seq<T>)
    ensures
        sorted(s).to_multiset() == s.to_multiset(),
        sorted(s).len() == s.len(),
    decreases s.len(),
{
    if s.len() > 0 {
        let front = s.drop_last();
        lemma_sorted_keeps_elements(front);
        lemma_sorted_ascends(front);
        lemma_rank(sorted(front), s.last().key());
        let r = rank(sorted(front), s.last().key());
        vstd::seq_lib::to_multiset_insert(sorted(front), r, s.last());
        vstd::seq_lib::to_multiset_build(front, s.last());
        assert(front.push(s.last()) =~= s);
    }
}

/// Sorts `v`, stably, by the keys of its elements.
pub fn sort<T: Keyed>(v: Vec<T>) -> (r: Vec<T>)
    ensures
        r@ == sorted(v@),
{
    let mut rest: Vec<T> = v;
    let ghost all = rest@;
    let mut taken: Vec<T> = Vec::new();
    // Elements leave the end of `rest`, so `taken` holds the tail back to front.
    while rest.len() > 0
        invariant
            rest@ =~= all.take(rest@.len() as int),
            rest@.len() <= all.len(),
            taken@ =~= all.skip(rest@.len() as int).reverse(),
        decreases rest@.len(),
    {
        match rest.pop() {
            Some(x) => {
                taken.push(x);
            },
            None => {},
        }
    }
    let mut out: Vec<T> = Vec::new();
    let ghost mut n: int = 0;
    assert(all.take(0) =~= Seq::<T>::empty());
    while taken.len() > 0
        invariant
            0 <= n,
            n + taken@.len() == all.len(),
            taken@ =~= all.skip(n).reverse(),
            out@ == sorted(all.take(n)),
            out@.len() == n,
        decreases taken@.len(),
    {
        match taken.pop() {
            Some(x) => {
                assert(x == all[n]);
                let mut at: usize = out.len();
                proof {
                    lemma_sorted_ascends(all.take(n));
                    assert(out@.take(at as int) =~= out@);
                }
                while at > 0 && !is_at_most(out[at - 1].sort_key(), x.sort_key())
                    invariant
                        at <= out@.len(),
                        rank(out@, x.key()) == rank(out@.take(at as int), x.key()),
                    decreases at,
                {
                    assert(out@.take(at as int).drop_last() =~= out@.take(at - 1));
                    at -= 1;
                }
                assert(at > 0 ==> out@.take(at as int).last() == out@[at - 1]);
                assert(all.take(n + 1).drop_last() =~= all.take(n));
                out.insert(at, x);
                proof {
                    n = n + 1;
                }
            },
            None => {},
        }
    }
    assert(all.take(n) =~= all);
    out
}

/// Strings are ordered by the first character in which they differ, and a
/// beginning comes before the whole.
pub proof fn law_first_difference_decides(p: Seq<char>, a: Seq<char>, b: Seq<char>)
    ensures
        a.len() > 0 && b.len() > 0 && a[0] < b[0] ==> at_most(p + a, p + b) && !at_most(p + b, p + a),
        at_most(p, p + a),
        a.len() > 0 ==> !at_most(p + a, p),
    decreases p.len(),
{
    if p.len() == 0 {
        assert(p + a =~= a);
        assert(p + b =~= b);
    } else {
        let q = p.drop_first();
        law_first_difference_decides(q, a, b);
        assert((p + a).drop_first() =~= q + a);
        assert((p + b).drop_first() =~= q + b);
        assert((p + a)[0] == p[0] && (p + b)[0] == p[0]);
    }
}

/// Elements with the same key stay in the order in which they came.
pub proof fn law_sorting_is_stable<T: Keyed>(s: Seq<T>, key: Seq<char>)
    ensures
        sorted(s).filter(|x: T| x.key() == key) == s.filter(|x: T| x.key() == key),
    decreases s.len(),
{
    reveal(Seq::filter);
    let same = |x: T| x.key() == key;
    if s.len() > 0 {
        let x = s.last();
        let rest = sorted(s.drop_last());
        law_sorting_is_stable(s.drop_last(), key);
        lemma_sorted_ascends(s.drop_last());
        lemma_rank(rest, x.key());
        let r = rank(rest, x.key());
        let (low, high) = (rest.take(r), rest.skip(r));
        assert(rest =~= low + high);
        assert(sorted(s) =~= low + seq![x] + high);
        lemma_filter_joins(low, high, same);
        lemma_filter_joins(low, seq![x], same);
        lemma_filter_joins(low + seq![x], high, same);
        lemma_filter_of_one(x, same);
        assert(rest.filter(same) == s.drop_last().filter(same));
        if x.key() == key {
            assert forall|i: int| 0 <= i < high.len() implies !same(#[trigger] high[i]) by {
                assert(high[i] == rest[r + i]);
                lemma_total(key, key);
            }
            lemma_filter_of_none(high, same);
            assert(low.filter(same) =~= rest.filter(same));
            assert(sorted(s).filter(same) =~= rest.filter(same).push(x));
        } else {
            assert(sorted(s).filter(same) =~= rest.filter(same));
        }
    }
}

proof fn lemma_filter_joins<T>(a: Seq<T>, b: Seq<T>, f: spec_fn(T) -> bool)
    ensures
        (a + b).filter(f) == a.filter(f) + b.filter(f),
    decreases b.len(),
{
    reveal(Seq::filter);
    if b.len() == 0 {
        assert(a + b =~= a);
    } else {
        lemma_filter_joins(a, b.drop_last(), f);
        assert((a + b).drop_last() =~= a + b.drop_last());
        assert((a + b).last() == b.last());
    }
    assert((a + b).filter(f) =~= a.filter(f) + b.filter(f));
}

proof fn lemma_filter_of_one<T>(x: T, f: spec_fn(T) -> bool)
    ensures
        f(x) ==> seq![x].filter(f) == seq![x],
        !f(x) ==> seq![x].filter(f).len() == 0,
{
    reveal(Seq::filter);
    let none = seq![x].drop_last();
    assert(none.len() == 0);
    assert(none.filter(f).len() == 0);
    assert(f(x) ==> seq![x].filter(f) =~= seq![x]);
}

proof fn lemma_filter_of_none<T>(s: Seq<T>, f: spec_fn(T) -> bool)
    requires
        forall|i: int| 0 <= i < s.len() ==> !f(#[trigger] s[i]),
    ensures
        s.filter(f).len() == 0,
    decreases s.len(),
{
    reveal(Seq::filter);
    if s.len() > 0 {
        let front = s.drop_last();
        assert forall|i: int| 0 <= i < front.len() implies !f(#[trigger] front[i]) by {
            assert(front[i] == s[i]);
        }
        lemma_filter_of_none(front, f);
        assert(s.last() == s[s.len() - 1]);
    }
}

} // verus!
