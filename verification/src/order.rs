//! Ordered collections: a stable sort, and sets and maps kept in ascending order.
use vstd::prelude::*;

use crate::model::{deep_seq, Deep, Tag};
use crate::text::{
    lemma_text_irreflexive, lemma_text_total, lemma_text_transitive, str_before, text_before,
};

verus! {

/// What a value is ordered by: a number, then text, then another number.
#[verifier::ext_equal]
pub struct OrderKey {
    pub rank: int,
    pub text: Seq<char>,
    pub tail: int,
}

/// Strict lexicographic order on keys.
pub open spec fn key_before(a: OrderKey, b: OrderKey) -> bool {
    ||| a.rank < b.rank
    ||| a.rank == b.rank && text_before(a.text, b.text)
    ||| a.rank == b.rank && a.text == b.text && a.tail < b.tail
}

pub open spec fn number_key(rank: int) -> OrderKey {
    OrderKey { rank, text: Seq::empty(), tail: 0 }
}

pub open spec fn text_key(text: Seq<char>) -> OrderKey {
    OrderKey { rank: 0, text, tail: 0 }
}

pub open spec fn tag_key(tag: Tag) -> OrderKey {
    OrderKey { rank: tag.index, text: tag.text, tail: 0 }
}

pub proof fn lemma_key_irreflexive(a: OrderKey)
    ensures
        !key_before(a, a),
{
    lemma_text_irreflexive(a.text);
}

pub proof fn lemma_key_transitive(a: OrderKey, b: OrderKey, c: OrderKey)
    requires
        key_before(a, b),
        key_before(b, c),
    ensures
        key_before(a, c),
{
    if text_before(a.text, b.text) && text_before(b.text, c.text) {
        lemma_text_transitive(a.text, b.text, c.text);
    }
}

pub proof fn lemma_key_total(a: OrderKey, b: OrderKey)
    ensures
        a == b || key_before(a, b) || key_before(b, a),
{
    lemma_text_total(a.text, b.text);
}

/// If `a` is not before `b` and `b` is not before `c`, `a` is not before `c`.
pub proof fn lemma_key_not_before_transitive(a: OrderKey, b: OrderKey, c: OrderKey)
    requires
        !key_before(a, b),
        !key_before(b, c),
    ensures
        !key_before(a, c),
{
    lemma_key_total(a, b);
    lemma_key_total(b, c);
    if key_before(a, c) {
        if a != b && b != c {
            lemma_key_transitive(a, c, b);
            lemma_key_irreflexive(b);
            lemma_key_transitive(c, b, a);
            lemma_key_transitive(a, c, a);
            lemma_key_irreflexive(a);
        }
    }
}

pub proof fn lemma_key_asymmetric(a: OrderKey, b: OrderKey)
    requires
        key_before(a, b),
    ensures
        !key_before(b, a),
        a != b,
{
    lemma_key_irreflexive(a);
    if key_before(b, a) {
        lemma_key_transitive(a, b, a);
    }
}

/// A type whose values can be sorted by a key.
pub trait Sortable: DeepView + Sized {
    spec fn sort_key(v: Self::V) -> OrderKey;

    fn sorts_before(&self, other: &Self) -> (r: bool)
        ensures
            r == key_before(Self::sort_key(self.deep_view()), Self::sort_key(other.deep_view())),
    ;
}

/// A type whose key tells its values apart.
pub trait Ordered: Sortable + Deep {
    proof fn key_is_injective(a: Self::V, b: Self::V)
        requires
            Self::sort_key(a) == Self::sort_key(b),
        ensures
            a == b,
    ;
}

impl Sortable for String {
    open spec fn sort_key(v: Seq<char>) -> OrderKey {
        text_key(v)
    }

    fn sorts_before(&self, other: &Self) -> (r: bool) {
        str_before(self.as_str(), other.as_str())
    }
}

impl Ordered for String {
    proof fn key_is_injective(a: Seq<char>, b: Seq<char>) {
    }
}

/// `x` placed into an already sorted `s`, before every element whose key is
/// not smaller.
pub open spec fn placed<T: Sortable>(s: Seq<T::V>, x: T::V) -> Seq<T::V>
    decreases s.len(),
{
    if s.len() == 0 {
        seq![x]
    } else if key_before(T::sort_key(s[0]), T::sort_key(x)) {
        seq![s[0]] + placed::<T>(s.drop_first(), x)
    } else {
        seq![x] + s
    }
}

/// The stable sort of `s` by key: elements with equal keys keep their order.
pub open spec fn stably_sorted<T: Sortable>(s: Seq<T::V>) -> Seq<T::V>
    decreases s.len(),
{
    if s.len() == 0 {
        s
    } else {
        placed::<T>(stably_sorted::<T>(s.drop_first()), s[0])
    }
}

/// No element's key is before the key of an earlier element.
pub open spec fn nondecreasing<T: Sortable>(s: Seq<T::V>) -> bool {
    forall|i: int, j: int|
        #![trigger s[i], s[j]]
        0 <= i < j < s.len() ==> !key_before(T::sort_key(s[j]), T::sort_key(s[i]))
}

/// Every element's key is after the keys of all earlier elements.
pub open spec fn ascending<T: Sortable>(s: Seq<T::V>) -> bool {
    forall|i: int, j: int|
        #![trigger s[i], s[j]]
        0 <= i < j < s.len() ==> key_before(T::sort_key(s[i]), T::sort_key(s[j]))
}

proof fn lemma_placed_at<T: Sortable>(s: Seq<T::V>, x: T::V, p: int)
    requires
        0 <= p <= s.len(),
        forall|i: int| 0 <= i < p ==> key_before(T::sort_key(#[trigger] s[i]), T::sort_key(x)),
        p < s.len() ==> !key_before(T::sort_key(s[p]), T::sort_key(x)),
    ensures
        placed::<T>(s, x) == s.insert(p, x),
    decreases s.len(),
{
    if s.len() == 0 {
        assert(s.insert(p, x) =~= seq![x]);
    } else if p == 0 {
        assert(s.insert(p, x) =~= seq![x] + s);
    } else {
        assert(key_before(T::sort_key(s[0]), T::sort_key(x)));
        let rest = s.drop_first();
        assert forall|i: int| 0 <= i < p - 1 implies key_before(
            T::sort_key(#[trigger] rest[i]),
            T::sort_key(x),
        ) by {
            assert(rest[i] == s[i + 1]);
        }
        lemma_placed_at::<T>(rest, x, p - 1);
        assert(s.insert(p, x) =~= seq![s[0]] + rest.insert(p - 1, x));
    }
}

/// Placing an element adds exactly that element.
pub proof fn lemma_placed_multiset<T: Sortable>(s: Seq<T::V>, x: T::V)
    ensures
        placed::<T>(s, x).to_multiset() == s.to_multiset().insert(x),
        placed::<T>(s, x).len() == s.len() + 1,
    decreases s.len(),
{
    broadcast use vstd::seq_lib::group_to_multiset_ensures;

    if s.len() == 0 {
        assert(seq![x] =~= Seq::<T::V>::empty().push(x));
        assert(s =~= Seq::<T::V>::empty());
    } else if key_before(T::sort_key(s[0]), T::sort_key(x)) {
        let rest = s.drop_first();
        lemma_placed_multiset::<T>(rest, x);
        vstd::seq_lib::lemma_multiset_commutative(seq![s[0]], placed::<T>(rest, x));
        vstd::seq_lib::lemma_multiset_commutative(seq![s[0]], rest);
        assert(s =~= seq![s[0]] + rest);
        assert(placed::<T>(s, x).to_multiset() =~= s.to_multiset().insert(x));
    } else {
        vstd::seq_lib::lemma_multiset_commutative(seq![x], s);
        assert(seq![x] =~= Seq::<T::V>::empty().push(x));
        assert(seq![x].to_multiset() =~= Seq::<T::V>::empty().to_multiset().insert(x));
        assert(placed::<T>(s, x).to_multiset() =~= s.to_multiset().insert(x));
    }
}

proof fn lemma_placed_sorted<T: Sortable>(s: Seq<T::V>, x: T::V)
    requires
        nondecreasing::<T>(s),
    ensures
        nondecreasing::<T>(placed::<T>(s, x)),
    decreases s.len(),
{
    let p = first_not_before::<T>(s, x, 0);
    lemma_first_not_before::<T>(s, x, 0);
    lemma_placed_at::<T>(s, x, p);
    let r = s.insert(p, x);
    assert forall|i: int, j: int| #![trigger r[i], r[j]] 0 <= i < j < r.len() implies !key_before(
        T::sort_key(r[j]),
        T::sort_key(r[i]),
    ) by {
        if j < p {
            assert(r[i] == s[i] && r[j] == s[j]);
        } else if j == p {
            assert(r[i] == s[i]);
            lemma_key_asymmetric(T::sort_key(s[i]), T::sort_key(x));
        } else if i < p {
            assert(r[i] == s[i] && r[j] == s[j - 1]);
        } else if i == p {
            assert(r[j] == s[j - 1]);
            if j - 1 > p {
                assert(!key_before(T::sort_key(s[j - 1]), T::sort_key(s[p])));
                lemma_key_not_before_transitive(
                    T::sort_key(s[j - 1]),
                    T::sort_key(s[p]),
                    T::sort_key(x),
                );
            }
        } else {
            assert(r[i] == s[i - 1] && r[j] == s[j - 1]);
        }
    }
}

spec fn first_not_before<T: Sortable>(s: Seq<T::V>, x: T::V, from: int) -> int
    decreases s.len() - from,
{
    if 0 <= from < s.len() && key_before(T::sort_key(s[from]), T::sort_key(x)) {
        first_not_before::<T>(s, x, from + 1)
    } else {
        from
    }
}

proof fn lemma_first_not_before<T: Sortable>(s: Seq<T::V>, x: T::V, from: int)
    requires
        0 <= from <= s.len(),
        forall|i: int| 0 <= i < from ==> key_before(T::sort_key(#[trigger] s[i]), T::sort_key(x)),
    ensures
        from <= first_not_before::<T>(s, x, from) <= s.len(),
        forall|i: int|
            0 <= i < first_not_before::<T>(s, x, from) ==> key_before(
                T::sort_key(#[trigger] s[i]),
                T::sort_key(x),
            ),
        first_not_before::<T>(s, x, from) < s.len() ==> !key_before(
            T::sort_key(s[first_not_before::<T>(s, x, from)]),
            T::sort_key(x),
        ),
    decreases s.len() - from,
{
    if from < s.len() && key_before(T::sort_key(s[from]), T::sort_key(x)) {
        lemma_first_not_before::<T>(s, x, from + 1);
    }
}

/// The stable sort puts the elements in nondecreasing key order, and keeps
/// each of them exactly as often as it occurs.
pub proof fn law_stable_sort_is_sorted_permutation<T: Sortable>(s: Seq<T::V>)
    ensures
        nondecreasing::<T>(stably_sorted::<T>(s)),
        stably_sorted::<T>(s).to_multiset() == s.to_multiset(),
        stably_sorted::<T>(s).len() == s.len(),
    decreases s.len(),
{
    broadcast use vstd::seq_lib::group_to_multiset_ensures;

    if s.len() > 0 {
        let rest = s.drop_first();
        law_stable_sort_is_sorted_permutation::<T>(rest);
        lemma_placed_sorted::<T>(stably_sorted::<T>(rest), s[0]);
        lemma_placed_multiset::<T>(stably_sorted::<T>(rest), s[0]);
        assert(s.remove(0) =~= rest);
        assert(s.to_multiset() =~= rest.to_multiset().insert(s[0]));
    }
}

/// Whether elements with equal keys are equal throughout `s`.
pub open spec fn keys_distinguish<T: Sortable>(s: Seq<T::V>) -> bool {
    forall|i: int, j: int|
        #![trigger s[i], s[j]]
        0 <= i < s.len() && 0 <= j < s.len() && T::sort_key(s[i]) == T::sort_key(s[j]) ==> s[i]
            == s[j]
}

proof fn lemma_sorted_unique<T: Sortable>(a: Seq<T::V>, b: Seq<T::V>)
    requires
        nondecreasing::<T>(a),
        nondecreasing::<T>(b),
        a.to_multiset() == b.to_multiset(),
        keys_distinguish::<T>(a),
    ensures
        a == b,
    decreases a.len(),
{
    broadcast use vstd::seq_lib::group_to_multiset_ensures;

    assert(a.len() == a.to_multiset().len() && b.len() == b.to_multiset().len());
    if a.len() == 0 {
        assert(a =~= b);
    } else {
        assert(a.contains(a[0]));
        assert(b.to_multiset().count(a[0]) > 0);
        assert(b.contains(a[0]));
        let jb = choose|j: int| 0 <= j < b.len() && b[j] == a[0];
        assert(b.contains(b[0]));
        assert(a.to_multiset().count(b[0]) > 0);
        assert(a.contains(b[0]));
        let ja = choose|j: int| 0 <= j < a.len() && a[j] == b[0];
        lemma_key_total(T::sort_key(a[0]), T::sort_key(b[0]));
        assert(!key_before(T::sort_key(a[ja]), T::sort_key(a[0]))) by {
            lemma_key_irreflexive(T::sort_key(a[0]));
        }
        assert(!key_before(T::sort_key(b[jb]), T::sort_key(b[0]))) by {
            lemma_key_irreflexive(T::sort_key(b[0]));
        }
        assert(a[0] == a[ja]);
        let ra = a.remove(0);
        let rb = b.remove(0);
        assert(ra.to_multiset() =~= a.to_multiset().remove(a[0]));
        assert(rb.to_multiset() =~= b.to_multiset().remove(b[0]));
        assert(nondecreasing::<T>(ra)) by {
            assert forall|i: int, j: int|
                #![trigger ra[i], ra[j]]
                0 <= i < j < ra.len() implies !key_before(
                T::sort_key(ra[j]),
                T::sort_key(ra[i]),
            ) by {
                assert(ra[i] == a[i + 1] && ra[j] == a[j + 1]);
            }
        }
        assert(nondecreasing::<T>(rb)) by {
            assert forall|i: int, j: int|
                #![trigger rb[i], rb[j]]
                0 <= i < j < rb.len() implies !key_before(
                T::sort_key(rb[j]),
                T::sort_key(rb[i]),
            ) by {
                assert(rb[i] == b[i + 1] && rb[j] == b[j + 1]);
            }
        }
        assert(keys_distinguish::<T>(ra)) by {
            assert forall|i: int, j: int|
                #![trigger ra[i], ra[j]]
                0 <= i < ra.len() && 0 <= j < ra.len() && T::sort_key(ra[i]) == T::sort_key(
                    ra[j],
                ) implies ra[i] == ra[j] by {
                assert(ra[i] == a[i + 1] && ra[j] == a[j + 1]);
            }
        }
        lemma_sorted_unique::<T>(ra, rb);
        assert(a =~= seq![a[0]] + ra);
        assert(b =~= seq![b[0]] + rb);
    }
}

/// Sorting does not depend on the order the elements came in, as long as
/// elements with equal keys are equal.
pub proof fn law_stable_sort_ignores_input_order<T: Sortable>(a: Seq<T::V>, b: Seq<T::V>)
    requires
        a.to_multiset() == b.to_multiset(),
        keys_distinguish::<T>(a),
    ensures
        stably_sorted::<T>(a) == stably_sorted::<T>(b),
{
    broadcast use vstd::seq_lib::group_to_multiset_ensures;

    law_stable_sort_is_sorted_permutation::<T>(a);
    law_stable_sort_is_sorted_permutation::<T>(b);
    let x = stably_sorted::<T>(a);
    assert forall|i: int, j: int|
        #![trigger x[i], x[j]]
        0 <= i < x.len() && 0 <= j < x.len() && T::sort_key(x[i]) == T::sort_key(
            x[j],
        ) implies x[i] == x[j] by {
        assert(x.contains(x[i]) && x.contains(x[j]));
        assert(a.to_multiset().count(x[i]) > 0 && a.to_multiset().count(x[j]) > 0);
        assert(a.contains(x[i]) && a.contains(x[j]));
    }
    lemma_sorted_unique::<T>(x, stably_sorted::<T>(b));
}

/// Sorts `v` by key; elements with equal keys keep their order.
pub fn stable_sort<T: Sortable>(v: Vec<T>) -> (r: Vec<T>)
    ensures
        r.deep_view() == stably_sorted::<T>(v.deep_view()),
{
    let ghost all = v.deep_view();
    let mut rest = v;
    let mut out: Vec<T> = Vec::new();
    assert(all.skip(all.len() as int) =~= Seq::<T::V>::empty());
    assert(out.deep_view() =~= Seq::<T::V>::empty());
    assert(all.take(all.len() as int) =~= all);
    while rest.len() > 0
        invariant
            rest.len() <= all.len(),
            rest.deep_view() == all.take(rest.len() as int),
            out.deep_view() == stably_sorted::<T>(all.skip(rest.len() as int)),
        decreases rest.len(),
    {
        let ghost n = rest.len() as int;
        let ghost before = rest;
        match rest.pop() {
            Some(x) => {
                assert(before.deep_view()[n - 1] == x.deep_view());
                assert(x.deep_view() == all[n - 1]);
                assert(rest.deep_view() =~= all.take(n - 1)) by {
                    assert forall|k: int| 0 <= k < n - 1 implies #[trigger] rest.deep_view()[k]
                        == all.take(n - 1)[k] by {
                        assert(before.deep_view()[k] == all.take(n)[k]);
                    }
                }
                let ghost x_view = x.deep_view();
                let ghost old_out = out;
                let mut p: usize = 0;
                while p < out.len() && out[p].sorts_before(&x)
                    invariant
                        p <= out.len(),
                        out.len() == out.deep_view().len(),
                        forall|i: int|
                            0 <= i < p ==> key_before(
                                T::sort_key(#[trigger] out.deep_view()[i]),
                                T::sort_key(x.deep_view()),
                            ),
                    decreases out.len() - p,
                {
                    p = p + 1;
                }
                proof {
                    lemma_placed_at::<T>(out.deep_view(), x.deep_view(), p as int);
                    assert(all.skip(n - 1).drop_first() =~= all.skip(n));
                    assert(all.skip(n - 1)[0] == x.deep_view());
                }
                out.insert(p, x);
                assert(out.deep_view() =~= old_out.deep_view().insert(p as int, x_view));
            },
            None => {},
        }
    }
    assert(all.skip(0) =~= all);
    out
}

/// `s` with every run of equal neighbours cut down to its first element.
pub open spec fn squeezed<V>(s: Seq<V>) -> Seq<V>
    decreases s.len(),
{
    if s.len() <= 1 {
        s
    } else if s.last() == s[s.len() - 2] {
        squeezed(s.drop_last())
    } else {
        squeezed(s.drop_last()).push(s.last())
    }
}

/// Squeezing keeps which elements occur.
pub proof fn lemma_squeezed_contains<V>(s: Seq<V>, x: V)
    ensures
        squeezed(s).contains(x) == s.contains(x),
        s.len() > 0 ==> squeezed(s).len() > 0 && squeezed(s).last() == s.last(),
    decreases s.len(),
{
    if s.len() > 1 {
        let front = s.drop_last();
        lemma_squeezed_contains(front, x);
        lemma_squeezed_contains(front, s.last());
        assert(front.contains(front.last()));
        assert(front.last() == s[s.len() - 2]);
        assert(s =~= front.push(s.last()));
        if s.contains(x) && x != s.last() {
            let k = choose|k: int| 0 <= k < s.len() && s[k] == x;
            assert(front[k] == x);
        }
        if front.contains(x) {
            let k = choose|k: int| 0 <= k < front.len() && front[k] == x;
            assert(s[k] == x);
        }
        assert(s[s.len() - 1] == s.last());
        let r = squeezed(front);
        if s.last() == s[s.len() - 2] {
            assert(s.contains(s.last()));
        } else {
            assert(r.push(s.last())[r.len() as int] == s.last());
            if r.contains(x) {
                let k = choose|k: int| 0 <= k < r.len() && r[k] == x;
                assert(r.push(s.last())[k] == x);
            }
            if r.push(s.last()).contains(x) && x != s.last() {
                let k = choose|k: int| 0 <= k < r.push(s.last()).len() && r.push(s.last())[k] == x;
                assert(r[k] == x);
            }
        }
    }
}

/// Squeezing a sorted sequence leaves strictly ascending keys, as long as
/// elements with equal keys are equal.
pub proof fn lemma_squeezed_ascending<T: Sortable>(s: Seq<T::V>)
    requires
        nondecreasing::<T>(s),
        keys_distinguish::<T>(s),
    ensures
        ascending::<T>(squeezed(s)),
    decreases s.len(),
{
    if s.len() > 1 {
        let front = s.drop_last();
        assert(nondecreasing::<T>(front)) by {
            assert forall|i: int, j: int|
                #![trigger front[i], front[j]]
                0 <= i < j < front.len() implies !key_before(
                T::sort_key(front[j]),
                T::sort_key(front[i]),
            ) by {
                assert(front[i] == s[i] && front[j] == s[j]);
            }
        }
        assert(keys_distinguish::<T>(front)) by {
            assert forall|i: int, j: int|
                #![trigger front[i], front[j]]
                0 <= i < front.len() && 0 <= j < front.len() && T::sort_key(front[i])
                    == T::sort_key(front[j]) implies front[i] == front[j] by {
                assert(front[i] == s[i] && front[j] == s[j]);
            }
        }
        lemma_squeezed_ascending::<T>(front);
        lemma_squeezed_contains(front, s.last());
        let r = squeezed(front);
        let a = s[s.len() - 2];
        let b = s.last();
        if b != a {
            assert(b == s[s.len() - 1]);
            lemma_key_total(T::sort_key(a), T::sort_key(b));
            assert(key_before(T::sort_key(a), T::sort_key(b)));
            assert(r.last() == a);
            let q = r.push(b);
            assert forall|i: int, j: int|
                #![trigger q[i], q[j]]
                0 <= i < j < q.len() implies key_before(T::sort_key(q[i]), T::sort_key(q[j])) by {
                if j < r.len() {
                    assert(q[i] == r[i] && q[j] == r[j]);
                } else if i < r.len() - 1 {
                    assert(q[i] == r[i]);
                    assert(key_before(T::sort_key(r[i]), T::sort_key(r[r.len() - 1])));
                    lemma_key_transitive(T::sort_key(r[i]), T::sort_key(a), T::sort_key(b));
                }
            }
        }
    }
}

/// Cuts every run of equal neighbours in `v` down to its first element.
pub fn squeeze<T: Deep>(v: Vec<T>) -> (r: Vec<T>)
    ensures
        r.deep_view() == squeezed(v.deep_view()),
{
    let mut out: Vec<T> = Vec::new();
    let ghost all = v.deep_view();
    let mut i: usize = 0;
    assert(all.take(0) =~= Seq::<T::V>::empty());
    assert(out.deep_view() =~= Seq::<T::V>::empty());
    while i < v.len()
        invariant
            i <= v.len(),
            all == v.deep_view(),
            out.deep_view() == squeezed(all.take(i as int)),
        decreases v.len() - i,
    {
        let ghost old_out = out;
        let ghost t = all.take(i as int + 1);
        assert(t.drop_last() =~= all.take(i as int));
        assert(t.last() == v@[i as int].deep_view());
        if i == 0 || !v[i].deep_eq(&v[i - 1]) {
            let x = v[i].deep_clone();
            let ghost x_view = x.deep_view();
            out.push(x);
            assert(out.deep_view() =~= old_out.deep_view().push(x_view));
            assert(out.deep_view() =~= squeezed(t));
        } else {
            assert(t[t.len() - 2] == v@[i as int - 1].deep_view());
        }
        i = i + 1;
    }
    assert(all.take(all.len() as int) =~= all);
    out
}

/// The members of a set, listed in ascending key order.
pub open spec fn listing<T: Sortable>(s: Set<T::V>) -> Seq<T::V> {
    choose|q: Seq<T::V>| ascending::<T>(q) && #[trigger] q.to_set() == s
}

/// An ascending sequence is determined by which elements occur in it.
pub proof fn lemma_ascending_unique<T: Sortable>(a: Seq<T::V>, b: Seq<T::V>)
    requires
        ascending::<T>(a),
        ascending::<T>(b),
        a.to_set() == b.to_set(),
    ensures
        a == b,
    decreases a.len(),
{
    if a.len() == 0 {
        if b.len() > 0 {
            assert(b.to_set().contains(b[0]));
            assert(a.to_set().contains(b[0]));
        }
        assert(a =~= b);
    } else {
        assert(a.to_set().contains(a[0]));
        assert(b.contains(a[0]));
        let jb = choose|j: int| 0 <= j < b.len() && b[j] == a[0];
        assert(b.to_set().contains(b[0]));
        assert(a.contains(b[0]));
        let ja = choose|j: int| 0 <= j < a.len() && a[j] == b[0];
        if ja > 0 {
            assert(key_before(T::sort_key(a[0]), T::sort_key(a[ja])));
            if jb > 0 {
                lemma_key_asymmetric(T::sort_key(b[0]), T::sort_key(b[jb]));
            }
        }
        assert(a[0] == b[0]);
        let ra = a.drop_first();
        let rb = b.drop_first();
        assert(ra.to_set() =~= rb.to_set()) by {
            assert forall|x: T::V| ra.to_set().contains(x) implies rb.to_set().contains(x) by {
                let k = choose|k: int| 0 <= k < ra.len() && ra[k] == x;
                assert(a[k + 1] == x);
                assert(a.to_set().contains(x));
                assert(b.contains(x));
                let m = choose|m: int| 0 <= m < b.len() && b[m] == x;
                lemma_key_asymmetric(T::sort_key(a[0]), T::sort_key(a[k + 1]));
                assert(m != 0);
                assert(rb[m - 1] == x);
            }
            assert forall|x: T::V| rb.to_set().contains(x) implies ra.to_set().contains(x) by {
                let k = choose|k: int| 0 <= k < rb.len() && rb[k] == x;
                assert(b[k + 1] == x);
                assert(b.to_set().contains(x));
                assert(a.contains(x));
                let m = choose|m: int| 0 <= m < a.len() && a[m] == x;
                lemma_key_asymmetric(T::sort_key(b[0]), T::sort_key(b[k + 1]));
                assert(m != 0);
                assert(ra[m - 1] == x);
            }
        }
        assert(ascending::<T>(ra)) by {
            assert forall|i: int, j: int|
                #![trigger ra[i], ra[j]]
                0 <= i < j < ra.len() implies key_before(
                T::sort_key(ra[i]),
                T::sort_key(ra[j]),
            ) by {
                assert(ra[i] == a[i + 1] && ra[j] == a[j + 1]);
            }
        }
        assert(ascending::<T>(rb)) by {
            assert forall|i: int, j: int|
                #![trigger rb[i], rb[j]]
                0 <= i < j < rb.len() implies key_before(
                T::sort_key(rb[i]),
                T::sort_key(rb[j]),
            ) by {
                assert(rb[i] == b[i + 1] && rb[j] == b[j + 1]);
            }
        }
        lemma_ascending_unique::<T>(ra, rb);
        assert(a =~= seq![a[0]] + ra);
        assert(b =~= seq![b[0]] + rb);
    }
}

/// An ascending sequence is the listing of the set of its elements.
pub proof fn lemma_listing<T: Sortable>(q: Seq<T::V>)
    requires
        ascending::<T>(q),
    ensures
        listing::<T>(q.to_set()) == q,
{
    let l = listing::<T>(q.to_set());
    assert(ascending::<T>(l) && l.to_set() == q.to_set());
    lemma_ascending_unique::<T>(l, q);
}

/// Sorting and then squeezing lists the set of the elements: the result has
/// no repetitions, is in ascending order, and depends on which elements occur
/// and on nothing else.
pub proof fn law_sorted_members_are_canonical<T: Ordered>(s: Seq<T::V>)
    ensures
        squeezed(stably_sorted::<T>(s)) == listing::<T>(s.to_set()),
        squeezed(stably_sorted::<T>(s)).to_set() == s.to_set(),
        ascending::<T>(squeezed(stably_sorted::<T>(s))),
{
    let sorted = stably_sorted::<T>(s);
    let q = squeezed(sorted);
    law_stable_sort_is_sorted_permutation::<T>(s);
    assert forall|i: int, j: int|
        #![trigger sorted[i], sorted[j]]
        0 <= i < sorted.len() && 0 <= j < sorted.len() && T::sort_key(sorted[i]) == T::sort_key(
            sorted[j],
        ) implies sorted[i] == sorted[j] by {
        T::key_is_injective(sorted[i], sorted[j]);
    }
    assert(keys_distinguish::<T>(sorted));
    lemma_squeezed_ascending::<T>(sorted);
    assert forall|x: T::V| q.to_set().contains(x) == s.to_set().contains(x) by {
        lemma_squeezed_contains(sorted, x);
        sorted.to_multiset_ensures();
        s.to_multiset_ensures();
        assert(sorted.contains(x) == (sorted.to_multiset().count(x) > 0));
        assert(s.contains(x) == (s.to_multiset().count(x) > 0));
    }
    assert(q.to_set() =~= s.to_set());
    lemma_listing::<T>(q);
}

/// A set whose members are kept in ascending order.
#[derive(Debug, PartialEq, Eq)]
pub struct SortedSet<T: Ordered> {
    items: Vec<T>,
}

impl<T: Ordered> DeepView for SortedSet<T> {
    type V = Set<T::V>;

    closed spec fn deep_view(&self) -> Set<T::V> {
        self.items.deep_view().to_set()
    }
}

/// The members of a set, as a sequence that has them all.
pub proof fn lemma_sorted_set_members<T: Ordered>(set: SortedSet<T>) -> (items: Seq<T>)
    ensures
        set.deep_view() == deep_seq(items).to_set(),
{
    assert(set.items.deep_view() =~= deep_seq(set.items@));
    set.items@
}

impl<T: Ordered> SortedSet<T> {
    #[verifier::type_invariant]
    spec fn wf(&self) -> bool {
        ascending::<T>(self.items.deep_view())
    }

    /// The set with no members.
    pub fn new() -> (r: Self)
        ensures
            r.deep_view() == Set::<T::V>::empty(),
    {
        let items: Vec<T> = Vec::new();
        assert(items.deep_view().to_set() =~= Set::<T::V>::empty());
        SortedSet { items }
    }

    /// The members in ascending order.
    pub fn as_vec(&self) -> (r: &Vec<T>)
        ensures
            r.deep_view() == listing::<T>(self.deep_view()),
            r.deep_view().to_set() == self.deep_view(),
            ascending::<T>(r.deep_view()),
    {
        proof {
            use_type_invariant(self);
            lemma_listing::<T>(self.items.deep_view());
        }
        &self.items
    }

    /// Whether the set has no members.
    pub fn is_empty(&self) -> (r: bool)
        ensures
            r == (self.deep_view() == Set::<T::V>::empty()),
    {
        let r = self.items.len() == 0;
        proof {
            if r {
                assert(self.deep_view() =~= Set::<T::V>::empty());
            } else {
                assert(self.deep_view().contains(self.items.deep_view()[0]));
            }
        }
        r
    }

    /// Whether `x` is a member.
    pub fn contains(&self, x: &T) -> (r: bool)
        ensures
            r == self.deep_view().contains(x.deep_view()),
    {
        crate::model::vec_contains(&self.items, x)
    }

    /// The set with `x` added.
    pub fn with(self, x: T) -> (r: Self)
        ensures
            r.deep_view() == self.deep_view().insert(x.deep_view()),
    {
        proof {
            use_type_invariant(&self);
        }
        let ghost before = self.items.deep_view();
        let ghost x_view = x.deep_view();
        let SortedSet { items } = self;
        let mut items = items;
        let mut p: usize = 0;
        while p < items.len() && items[p].sorts_before(&x)
            invariant
                p <= items.len(),
                items.deep_view() == before,
                forall|i: int|
                    0 <= i < p ==> key_before(
                        T::sort_key(#[trigger] before[i]),
                        T::sort_key(x.deep_view()),
                    ),
            decreases items.len() - p,
        {
            p = p + 1;
        }
        if p < items.len() && items[p].deep_eq(&x) {
            assert(before[p as int] == x_view);
            assert(before.to_set() =~= before.to_set().insert(x_view));
            return SortedSet { items };
        }
        let ghost old_items = items;
        items.insert(p, x);
        proof {
            let after = items.deep_view();
            assert(after =~= before.insert(p as int, x_view));
            if p < before.len() {
                lemma_key_total(T::sort_key(before[p as int]), T::sort_key(x_view));
                if T::sort_key(before[p as int]) == T::sort_key(x_view) {
                    T::key_is_injective(before[p as int], x_view);
                }
            }
            assert forall|i: int, j: int|
                #![trigger after[i], after[j]]
                0 <= i < j < after.len() implies key_before(
                T::sort_key(after[i]),
                T::sort_key(after[j]),
            ) by {
                let a = if i < p { before[i] } else if i == p { x_view } else { before[i - 1] };
                let b = if j < p { before[j] } else if j == p { x_view } else { before[j - 1] };
                assert(after[i] == a && after[j] == b);
                if i == p && j - 1 > p {
                    assert(key_before(T::sort_key(before[p as int]), T::sort_key(before[j - 1])));
                    lemma_key_transitive(
                        T::sort_key(x_view),
                        T::sort_key(before[p as int]),
                        T::sort_key(before[j - 1]),
                    );
                }
            }
            assert(after.to_set() =~= before.to_set().insert(x_view)) by {
                assert forall|v: T::V| before.to_set().insert(x_view).contains(
                    v,
                ) implies after.to_set().contains(v) by {
                    if v == x_view {
                        assert(after[p as int] == x_view);
                    } else {
                        let k = choose|k: int| 0 <= k < before.len() && before[k] == v;
                        if k < p {
                            assert(after[k] == v);
                        } else {
                            assert(after[k + 1] == v);
                        }
                    }
                }
                assert forall|v: T::V| after.to_set().contains(v) implies before.to_set().insert(
                    x_view,
                ).contains(v) by {
                    let k = choose|k: int| 0 <= k < after.len() && after[k] == v;
                    if k < p {
                        assert(before[k] == v);
                    } else if k > p {
                        assert(before[k - 1] == v);
                    }
                }
            }
        }
        SortedSet { items }
    }

    /// The set of the elements of `v`.
    pub fn from_vec(v: &Vec<T>) -> (r: Self)
        ensures
            r.deep_view() == v.deep_view().to_set(),
    {
        let mut out: SortedSet<T> = SortedSet::new();
        let mut i: usize = 0;
        assert(v.deep_view().take(0).to_set() =~= Set::<T::V>::empty());
        while i < v.len()
            invariant
                i <= v.len(),
                out.deep_view() == v.deep_view().take(i as int).to_set(),
            decreases v.len() - i,
        {
            proof {
                lemma_take_set(v.deep_view(), i as int);
            }
            out = out.with(v[i].deep_clone());
            i = i + 1;
        }
        assert(v.deep_view().take(v.len() as int) =~= v.deep_view());
        out
    }

    /// The members of either set.
    pub fn union(&self, other: &Self) -> (r: Self)
        ensures
            r.deep_view() == self.deep_view().union(other.deep_view()),
    {
        let ghost ov = other.items.deep_view();
        let mut out: SortedSet<T> = self.deep_clone();
        let mut i: usize = 0;
        assert(out.deep_view() =~= self.deep_view().union(ov.take(0).to_set()));
        while i < other.items.len()
            invariant
                i <= other.items.len(),
                ov == other.items.deep_view(),
                out.deep_view() == self.deep_view().union(ov.take(i as int).to_set()),
            decreases other.items.len() - i,
        {
            proof {
                lemma_take_set(ov, i as int);
                assert(self.deep_view().union(ov.take(i as int).to_set().insert(ov[i as int]))
                    =~= self.deep_view().union(ov.take(i as int).to_set()).insert(ov[i as int]));
            }
            out = out.with(other.items[i].deep_clone());
            i = i + 1;
        }
        assert(ov.take(ov.len() as int) =~= ov);
        out
    }

    /// The members of both sets.
    pub fn intersection(&self, other: &Self) -> (r: Self)
        ensures
            r.deep_view() == self.deep_view().intersect(other.deep_view()),
    {
        let ghost sv = self.items.deep_view();
        let mut out: SortedSet<T> = SortedSet::new();
        let mut i: usize = 0;
        assert(out.deep_view() =~= sv.take(0).to_set().intersect(other.deep_view()));
        while i < self.items.len()
            invariant
                i <= self.items.len(),
                sv == self.items.deep_view(),
                out.deep_view() == sv.take(i as int).to_set().intersect(other.deep_view()),
            decreases self.items.len() - i,
        {
            proof {
                lemma_take_set(sv, i as int);
            }
            if other.contains(&self.items[i]) {
                assert(sv.take(i as int).to_set().insert(sv[i as int]).intersect(other.deep_view())
                    =~= sv.take(i as int).to_set().intersect(other.deep_view()).insert(
                    sv[i as int],
                ));
                out = out.with(self.items[i].deep_clone());
            } else {
                assert(sv.take(i as int).to_set().insert(sv[i as int]).intersect(other.deep_view())
                    =~= sv.take(i as int).to_set().intersect(other.deep_view()));
            }
            i = i + 1;
        }
        assert(sv.take(sv.len() as int) =~= sv);
        out
    }

    /// Whether every member is a member of `other`.
    pub fn is_subset(&self, other: &Self) -> (r: bool)
        ensures
            r == self.deep_view().subset_of(other.deep_view()),
    {
        let ghost sv = self.items.deep_view();
        let mut i: usize = 0;
        while i < self.items.len()
            invariant
                i <= self.items.len(),
                sv == self.items.deep_view(),
                forall|j: int| 0 <= j < i ==> other.deep_view().contains(#[trigger] sv[j]),
            decreases self.items.len() - i,
        {
            if !other.contains(&self.items[i]) {
                assert(self.deep_view().contains(sv[i as int]));
                return false;
            }
            i = i + 1;
        }
        true
    }
}

proof fn lemma_take_set<V>(s: Seq<V>, i: int)
    requires
        0 <= i < s.len(),
    ensures
        s.take(i + 1).to_set() == s.take(i).to_set().insert(s[i]),
{
    let a = s.take(i + 1);
    let b = s.take(i);
    assert forall|x: V| a.to_set().contains(x) implies b.to_set().insert(s[i]).contains(x) by {
        let k = choose|k: int| 0 <= k < a.len() && a[k] == x;
        if k < i {
            assert(b[k] == x);
        }
    }
    assert forall|x: V| b.to_set().insert(s[i]).contains(x) implies a.to_set().contains(x) by {
        if x == s[i] {
            assert(a[i] == x);
        } else {
            let k = choose|k: int| 0 <= k < b.len() && b[k] == x;
            assert(a[k] == x);
        }
    }
    assert(a.to_set() =~= b.to_set().insert(s[i]));
}

impl<T: Ordered> Clone for SortedSet<T> {
    fn clone(&self) -> (r: Self)
        ensures
            r.deep_view() == self.deep_view(),
    {
        self.deep_clone()
    }
}

impl<T: Ordered> Deep for SortedSet<T> {
    fn deep_clone(&self) -> (r: Self) {
        proof {
            use_type_invariant(self);
        }
        SortedSet { items: self.items.deep_clone() }
    }

    fn deep_eq(&self, other: &Self) -> (r: bool) {
        proof {
            use_type_invariant(self);
            use_type_invariant(other);
            if self.deep_view() == other.deep_view() {
                lemma_ascending_unique::<T>(self.items.deep_view(), other.items.deep_view());
            }
        }
        self.items.deep_eq(&other.items)
    }
}

/// The keys of a sequence of entries.
pub open spec fn entry_keys<K, V>(entries: Seq<(K, V)>) -> Seq<K> {
    Seq::new(entries.len(), |i: int| entries[i].0)
}

/// The map a sequence of entries with distinct keys stands for.
pub open spec fn entry_map<K, V>(entries: Seq<(K, V)>) -> Map<K, V>
    decreases entries.len(),
{
    if entries.len() == 0 {
        Map::empty()
    } else {
        entry_map(entries.drop_last()).insert(entries.last().0, entries.last().1)
    }
}

proof fn lemma_entry_map<K: Ordered, V: Deep>(entries: Seq<(K::V, V::V)>)
    requires
        ascending::<K>(entry_keys(entries)),
    ensures
        forall|i: int|
            0 <= i < entries.len() ==> entry_map(entries).dom().contains(
                (#[trigger] entries[i]).0,
            ) && entry_map(entries)[entries[i].0] == entries[i].1,
        forall|k: K::V| #[trigger]
            entry_map(entries).dom().contains(k) ==> entry_keys(entries).contains(k),
    decreases entries.len(),
{
    if entries.len() > 0 {
        let front = entries.drop_last();
        let keys = entry_keys(entries);
        let front_keys = entry_keys(front);
        assert(ascending::<K>(front_keys)) by {
            assert forall|i: int, j: int|
                #![trigger front_keys[i], front_keys[j]]
                0 <= i < j < front_keys.len() implies key_before(
                K::sort_key(front_keys[i]),
                K::sort_key(front_keys[j]),
            ) by {
                assert(front_keys[i] == keys[i] && front_keys[j] == keys[j]);
            }
        }
        lemma_entry_map::<K, V>(front);
        let n = entries.len() - 1;
        assert forall|i: int| 0 <= i < entries.len() implies entry_map(entries).dom().contains(
            (#[trigger] entries[i]).0,
        ) && entry_map(entries)[entries[i].0] == entries[i].1 by {
            if i < n {
                assert(front[i] == entries[i]);
                assert(keys[i] == entries[i].0 && keys[n] == entries[n].0);
                assert(key_before(K::sort_key(keys[i]), K::sort_key(keys[n])));
                lemma_key_irreflexive(K::sort_key(keys[n]));
            }
        }
        assert forall|k: K::V| #[trigger] entry_map(entries).dom().contains(
            k,
        ) implies keys.contains(k) by {
            if k == entries.last().0 {
                assert(keys[n] == k);
            } else {
                assert(entry_map(front).dom().contains(k));
                let m = choose|m: int| 0 <= m < front_keys.len() && front_keys[m] == k;
                assert(keys[m] == k);
            }
        }
    }
}

/// A map whose entries are kept in ascending key order.
#[derive(Debug, PartialEq, Eq)]
pub struct SortedMap<K: Ordered, V: Deep> {
    entries: Vec<(K, V)>,
}

impl<K: Ordered, V: Deep> DeepView for SortedMap<K, V> {
    type V = Map<K::V, V::V>;

    closed spec fn deep_view(&self) -> Map<K::V, V::V> {
        entry_map(self.entries.deep_view())
    }
}

proof fn lemma_entry_map_keys<K, V>(entries: Seq<(K, V)>)
    ensures
        entry_map(entries).dom() == entry_keys(entries).to_set(),
        entry_map(entries).dom().finite(),
    decreases entries.len(),
{
    let keys = entry_keys(entries);
    if entries.len() > 0 {
        let front = entries.drop_last();
        lemma_entry_map_keys(front);
        assert(keys =~= entry_keys(front).push(entries.last().0));
        assert forall|k: K| entry_map(entries).dom().contains(k) == keys.to_set().contains(k) by {
            if entry_keys(front).contains(k) {
                let i = choose|i: int|
                    0 <= i < entry_keys(front).len() && entry_keys(front)[i] == k;
                assert(keys[i] == k);
            }
            assert(entry_keys(front).to_set().contains(k) == entry_keys(front).contains(k));
            assert(keys[keys.len() - 1] == entries.last().0);
        }
    }
    assert(entry_map(entries).dom() =~= keys.to_set());
}

/// A map has finitely many keys, and their listing holds all of them.
pub proof fn lemma_sorted_map_keys<K: Ordered, V: Deep>(m: SortedMap<K, V>)
    ensures
        m.deep_view().dom().finite(),
        listing::<K>(m.deep_view().dom()).to_set() == m.deep_view().dom(),
        ascending::<K>(listing::<K>(m.deep_view().dom())),
{
    let entries = m.entries.deep_view();
    lemma_entry_map_keys(entries);
    law_sorted_members_are_canonical::<K>(entry_keys(entries));
}

impl<K: Ordered, V: Deep> SortedMap<K, V> {
    #[verifier::type_invariant]
    spec fn wf(&self) -> bool {
        ascending::<K>(entry_keys(self.entries.deep_view()))
    }

    /// The map with no entries.
    pub fn new() -> (r: Self)
        ensures
            r.deep_view() == Map::<K::V, V::V>::empty(),
    {
        let entries: Vec<(K, V)> = Vec::new();
        assert(entries.deep_view().len() == 0);
        SortedMap { entries }
    }

    /// The entries in ascending key order.
    pub fn as_vec(&self) -> (r: &Vec<(K, V)>)
        ensures
            entry_keys(r.deep_view()) == listing::<K>(self.deep_view().dom()),
            entry_keys(r.deep_view()).to_set() == self.deep_view().dom(),
            self.deep_view().dom().finite(),
            ascending::<K>(entry_keys(r.deep_view())),
            forall|i: int|
                0 <= i < r.deep_view().len() ==> self.deep_view().dom().contains(
                    (#[trigger] r.deep_view()[i]).0,
                ) && self.deep_view()[r.deep_view()[i].0] == r.deep_view()[i].1,
    {
        proof {
            use_type_invariant(self);
            let es = self.entries.deep_view();
            lemma_entry_map::<K, V>(es);
            lemma_listing::<K>(entry_keys(es));
            assert forall|k: K::V| entry_keys(es).to_set().contains(k) implies self.deep_view().dom().contains(
                k,
            ) by {
                let i = choose|i: int| 0 <= i < entry_keys(es).len() && entry_keys(es)[i] == k;
                assert(es[i].0 == k);
            }
            assert(entry_keys(es).to_set() =~= self.deep_view().dom());
            lemma_sorted_map_keys(*self);
        }
        &self.entries
    }

    /// How many entries there are.
    pub fn len(&self) -> (r: usize)
        ensures
            r == self.deep_view().dom().len(),
    {
        proof {
            use_type_invariant(self);
            let es = self.entries.deep_view();
            let keys = entry_keys(es);
            lemma_entry_map::<K, V>(es);
            assert forall|i: int, j: int|
                0 <= i < keys.len() && 0 <= j < keys.len() && i != j implies keys[i]
                != keys[j] by {
                if i < j {
                    lemma_key_asymmetric(K::sort_key(keys[i]), K::sort_key(keys[j]));
                } else {
                    lemma_key_asymmetric(K::sort_key(keys[j]), K::sort_key(keys[i]));
                }
            }
            keys.unique_seq_to_set();
            assert forall|k: K::V| keys.to_set().contains(k) == entry_map(es).dom().contains(
                k,
            ) by {
                if keys.to_set().contains(k) {
                    let i = choose|i: int| 0 <= i < keys.len() && keys[i] == k;
                    assert(es[i].0 == k);
                }
            }
            assert(keys.to_set() =~= entry_map(es).dom());
        }
        self.entries.len()
    }

    /// Whether there is no entry.
    pub fn is_empty(&self) -> (r: bool)
        ensures
            r == (self.deep_view() == Map::<K::V, V::V>::empty()),
    {
        proof {
            use_type_invariant(self);
            let es = self.entries.deep_view();
            lemma_entry_map::<K, V>(es);
            if es.len() > 0 {
                assert(entry_map(es).dom().contains(es[0].0));
            }
        }
        self.entries.len() == 0
    }

    /// The value under a key.
    pub fn get(&self, key: &K) -> (r: Option<&V>)
        ensures
            match r {
                Some(v) => self.deep_view().dom().contains(key.deep_view())
                    && self.deep_view()[key.deep_view()] == v.deep_view(),
                None => !self.deep_view().dom().contains(key.deep_view()),
            },
    {
        proof {
            use_type_invariant(self);
            lemma_entry_map::<K, V>(self.entries.deep_view());
        }
        let ghost es = self.entries.deep_view();
        let mut i: usize = 0;
        while i < self.entries.len()
            invariant
                i <= self.entries.len(),
                es == self.entries.deep_view(),
                forall|j: int|
                    0 <= j < es.len() ==> entry_map(es).dom().contains((#[trigger] es[j]).0)
                        && entry_map(es)[es[j].0] == es[j].1,
                forall|j: int| 0 <= j < i ==> (#[trigger] es[j]).0 != key.deep_view(),
            decreases self.entries.len() - i,
        {
            assert(es[i as int] == self.entries@[i as int].deep_view());
            if self.entries[i].0.deep_eq(key) {
                return Some(&self.entries[i].1);
            }
            i = i + 1;
        }
        proof {
            if self.deep_view().dom().contains(key.deep_view()) {
                assert(entry_keys(es).contains(key.deep_view()));
                let j = choose|j: int| 0 <= j < es.len() && entry_keys(es)[j] == key.deep_view();
                assert(es[j].0 == key.deep_view());
            }
        }
        None
    }

    /// The map with `value` under `key`.
    pub fn with(self, key: K, value: V) -> (r: Self)
        ensures
            r.deep_view() == self.deep_view().insert(key.deep_view(), value.deep_view()),
    {
        proof {
            use_type_invariant(&self);
        }
        let ghost before = self.entries.deep_view();
        let ghost kv = key.deep_view();
        let ghost vv = value.deep_view();
        let SortedMap { entries } = self;
        let mut entries = entries;
        let mut p: usize = 0;
        while p < entries.len() && entries[p].0.sorts_before(&key)
            invariant
                p <= entries.len(),
                entries.deep_view() == before,
                kv == key.deep_view(),
                forall|i: int|
                    0 <= i < p ==> key_before(
                        K::sort_key((#[trigger] before[i]).0),
                        K::sort_key(kv),
                    ),
            decreases entries.len() - p,
        {
            assert(before[p as int] == entries@[p as int].deep_view());
            p = p + 1;
        }
        let ghost keys = entry_keys(before);
        proof {
            lemma_entry_map::<K, V>(before);
            if p < before.len() {
                assert(before[p as int] == entries@[p as int].deep_view());
                assert(keys[p as int] == before[p as int].0);
                lemma_key_total(K::sort_key(before[p as int].0), K::sort_key(kv));
                if K::sort_key(before[p as int].0) == K::sort_key(kv) {
                    K::key_is_injective(before[p as int].0, kv);
                }
            }
        }
        if p < entries.len() && entries[p].0.deep_eq(&key) {
            entries.set(p, (key, value));
            proof {
                let after = entries.deep_view();
                assert(after =~= before.update(p as int, (kv, vv)));
                assert(entry_keys(after) =~= keys);
                lemma_entry_map::<K, V>(after);
                lemma_same_map::<K, V>(before, after, kv, vv, p as int, true);
            }
        } else {
            entries.insert(p, (key, value));
            proof {
                let after = entries.deep_view();
                assert(after =~= before.insert(p as int, (kv, vv)));
                let ak = entry_keys(after);
                assert(ak =~= keys.insert(p as int, kv));
                assert forall|i: int, j: int|
                    #![trigger ak[i], ak[j]]
                    0 <= i < j < ak.len() implies key_before(
                    K::sort_key(ak[i]),
                    K::sort_key(ak[j]),
                ) by {
                    let a = if i < p { keys[i] } else if i == p { kv } else { keys[i - 1] };
                    let b = if j < p { keys[j] } else if j == p { kv } else { keys[j - 1] };
                    assert(ak[i] == a && ak[j] == b);
                    if i < p && j == p {
                        assert(before[i].0 == keys[i]);
                    }
                    if i == p && j - 1 > p {
                        assert(key_before(
                            K::sort_key(keys[p as int]),
                            K::sort_key(keys[j - 1]),
                        ));
                        lemma_key_transitive(
                            K::sort_key(kv),
                            K::sort_key(keys[p as int]),
                            K::sort_key(keys[j - 1]),
                        );
                    }
                }
                lemma_entry_map::<K, V>(after);
                lemma_same_map::<K, V>(before, after, kv, vv, p as int, false);
            }
        }
        SortedMap { entries }
    }
}

proof fn lemma_same_map<K: Ordered, V: Deep>(
    before: Seq<(K::V, V::V)>,
    after: Seq<(K::V, V::V)>,
    kv: K::V,
    vv: V::V,
    p: int,
    replaced: bool,
)
    requires
        0 <= p <= before.len(),
        ascending::<K>(entry_keys(before)),
        ascending::<K>(entry_keys(after)),
        replaced ==> p < before.len() && before[p].0 == kv && after == before.update(p, (kv, vv)),
        !replaced ==> after == before.insert(p, (kv, vv)),
    ensures
        entry_map(after) == entry_map(before).insert(kv, vv),
{
    lemma_entry_map::<K, V>(before);
    lemma_entry_map::<K, V>(after);
    let m = entry_map(before).insert(kv, vv);
    assert(after[p] == (kv, vv));
    assert forall|k: K::V|
        #![trigger entry_map(after).dom().contains(k)]
        #![trigger m.dom().contains(k)]
        #![trigger entry_map(after)[k]]
        entry_map(after).dom().contains(k) == m.dom().contains(k) && (entry_map(
            after,
        ).dom().contains(k) ==> entry_map(after)[k] == m[k]) by {
        if entry_map(after).dom().contains(k) {
            let ak = entry_keys(after);
            let j = choose|j: int| 0 <= j < ak.len() && ak[j] == k;
            assert(after[j].0 == k);
            if j != p {
                let b = if replaced || j < p { j } else { j - 1 };
                assert(before[b] == after[j]);
                if k == kv {
                    if j < p {
                        lemma_key_asymmetric(K::sort_key(ak[j]), K::sort_key(ak[p]));
                    } else {
                        lemma_key_asymmetric(K::sort_key(ak[p]), K::sort_key(ak[j]));
                    }
                    assert(ak[p] == kv);
                }
            }
        }
        if m.dom().contains(k) && k != kv {
            let bk = entry_keys(before);
            let j = choose|j: int| 0 <= j < bk.len() && bk[j] == k;
            assert(before[j].0 == k);
            let a = if replaced || j < p { j } else { j + 1 };
            assert(after[a] == before[j]);
        }
    }
    assert(entry_map(after).dom() =~= m.dom());
    assert(entry_map(after) =~= m);
}

impl<K: Ordered, V: Deep> Clone for SortedMap<K, V> {
    fn clone(&self) -> (r: Self)
        ensures
            r.deep_view() == self.deep_view(),
    {
        self.deep_clone()
    }
}

impl<K: Ordered, V: Deep> Deep for SortedMap<K, V> {
    fn deep_clone(&self) -> (r: Self) {
        proof {
            use_type_invariant(self);
        }
        SortedMap { entries: self.entries.deep_clone() }
    }

    fn deep_eq(&self, other: &Self) -> (r: bool) {
        let r = self.entries.deep_eq(&other.entries);
        proof {
            use_type_invariant(self);
            use_type_invariant(other);
            let a = self.entries.deep_view();
            let b = other.entries.deep_view();
            if self.deep_view() == other.deep_view() {
                lemma_entry_map::<K, V>(a);
                lemma_entry_map::<K, V>(b);
                let ka = entry_keys(a);
                let kb = entry_keys(b);
                assert forall|k: K::V| ka.to_set().contains(k) == kb.to_set().contains(k) by {
                    if ka.contains(k) {
                        let i = choose|i: int| 0 <= i < ka.len() && ka[i] == k;
                        assert(a[i].0 == k);
                        assert(entry_map(b).dom().contains(k));
                    }
                    if kb.contains(k) {
                        let i = choose|i: int| 0 <= i < kb.len() && kb[i] == k;
                        assert(b[i].0 == k);
                        assert(entry_map(a).dom().contains(k));
                    }
                }
                assert(ka.to_set() =~= kb.to_set());
                lemma_ascending_unique::<K>(ka, kb);
                assert(a.len() == ka.len() && b.len() == kb.len());
                assert forall|i: int| 0 <= i < a.len() implies a[i] == b[i] by {
                    assert(ka[i] == a[i].0 && kb[i] == b[i].0);
                }
                assert(a =~= b);
            }
        }
        r
    }
}

proof fn lemma_filter_one<V>(x: V, pick: spec_fn(V) -> bool)
    ensures
        seq![x].filter(pick) == (if pick(x) {
            seq![x]
        } else {
            Seq::<V>::empty()
        }),
{
    reveal_with_fuel(Seq::filter, 2);
    let one = seq![x];
    assert(one.drop_last() =~= Seq::<V>::empty());
    assert(one.last() == x);
    assert(one.drop_last().filter(pick) =~= Seq::<V>::empty());
    assert(Seq::<V>::empty().push(x) =~= one);
}

proof fn lemma_placed_filtered<T: Sortable>(s: Seq<T::V>, x: T::V, key: OrderKey)
    ensures
        ({
            let pick = |v: T::V| T::sort_key(v) == key;
            placed::<T>(s, x).filter(pick) == seq![x].filter(pick) + s.filter(pick)
        }),
    decreases s.len(),
{
    let pick = |v: T::V| T::sort_key(v) == key;
    lemma_filter_one(x, pick);
    if s.len() == 0 {
        reveal(Seq::filter);
        assert(seq![x].filter(pick) + s.filter(pick) =~= seq![x].filter(pick));
    } else {
        let rest = s.drop_first();
        lemma_filter_one(s[0], pick);
        assert(s =~= seq![s[0]] + rest);
        Seq::filter_distributes_over_add(seq![s[0]], rest, pick);
        if key_before(T::sort_key(s[0]), T::sort_key(x)) {
            lemma_placed_filtered::<T>(rest, x, key);
            lemma_key_irreflexive(key);
            Seq::filter_distributes_over_add(seq![s[0]], placed::<T>(rest, x), pick);
            assert(placed::<T>(s, x).filter(pick) =~= seq![x].filter(pick) + s.filter(pick));
        } else {
            Seq::filter_distributes_over_add(seq![x], s, pick);
        }
    }
}

/// Sorting is stable: elements of one key keep their order.
pub proof fn law_sorting_keeps_equals_in_order<T: Sortable>(s: Seq<T::V>, key: OrderKey)
    ensures
        stably_sorted::<T>(s).filter(|v: T::V| T::sort_key(v) == key) == s.filter(
            |v: T::V| T::sort_key(v) == key,
        ),
    decreases s.len(),
{
    let pick = |v: T::V| T::sort_key(v) == key;
    if s.len() > 0 {
        let rest = s.drop_first();
        law_sorting_keeps_equals_in_order::<T>(rest, key);
        lemma_placed_filtered::<T>(stably_sorted::<T>(rest), s[0], key);
        assert(s =~= seq![s[0]] + rest);
        Seq::filter_distributes_over_add(seq![s[0]], rest, pick);
    }
}

/// Squeezing an ordered sequence keeps its order and leaves no element twice in
/// a row.
pub proof fn law_squeezing_keeps_the_order<T: Sortable>(s: Seq<T::V>)
    requires
        nondecreasing::<T>(s),
    ensures
        nondecreasing::<T>(squeezed(s)),
        forall|i: int|
            0 < i < squeezed(s).len() ==> #[trigger] squeezed(s)[i] != squeezed(s)[i - 1],
        s.len() > 0 ==> squeezed(s).len() > 0 && squeezed(s).last() == s.last(),
    decreases s.len(),
{
    if s.len() > 1 {
        let front = s.drop_last();
        let n = s.len() - 1;
        assert forall|i: int, j: int|
            #![trigger front[i], front[j]]
            0 <= i < j < front.len() implies !key_before(
            T::sort_key(front[j]),
            T::sort_key(front[i]),
        ) by {
            assert(!key_before(T::sort_key(s[j]), T::sort_key(s[i])));
        }
        law_squeezing_keeps_the_order::<T>(front);
        let q = squeezed(front);
        assert(front.last() == s[n - 1]);
        if s.last() != s[n - 1] {
            let all = squeezed(s);
            assert(all == q.push(s.last()));
            assert forall|i: int, j: int|
                #![trigger all[i], all[j]]
                0 <= i < j < all.len() implies !key_before(
                T::sort_key(all[j]),
                T::sort_key(all[i]),
            ) by {
                if j < q.len() {
                    assert(all[i] == q[i] && all[j] == q[j]);
                } else {
                    lemma_squeezed_contains(front, q[i]);
                    assert(q.contains(q[i]));
                    let k = choose|k: int| 0 <= k < front.len() && front[k] == q[i];
                    assert(s[k] == front[k]);
                    assert(!key_before(T::sort_key(s[n]), T::sort_key(s[k])));
                }
            }
            assert forall|i: int| 0 < i < all.len() implies #[trigger] all[i] != all[i - 1] by {
                if i < q.len() {
                    assert(q[i] != q[i - 1]);
                } else {
                    assert(all[i - 1] == q.last());
                }
            }
        }
    }
}

} // verus!
