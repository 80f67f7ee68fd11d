//! Stable sorting.
//!
//! The sorted form of a sequence is described by what it is: its items come in the order of their
//! ranks, and items of the same rank keep the order they had. [`law_sorted_form_is_a_stable_sort`]
//! shows that every sequence has such a form, and [`law_stable_sort_is_unique`] that it has no other.
use vstd::prelude::*;

verus! {

/// Values with a rank that any two of them can be compared by.
pub trait Ranked: DeepView + Sized {
    /// Whether the rank of `a` is at most that of `b`.
    spec fn ranked(a: <Self as DeepView>::V, b: <Self as DeepView>::V) -> bool;

    proof fn ranked_is_total(a: <Self as DeepView>::V, b: <Self as DeepView>::V)
        ensures
            Self::ranked(a, b) || Self::ranked(b, a),
    ;

    proof fn ranked_is_transitive(
        a: <Self as DeepView>::V,
        b: <Self as DeepView>::V,
        c: <Self as DeepView>::V,
    )
        requires
            Self::ranked(a, b),
            Self::ranked(b, c),
        ensures
            Self::ranked(a, c),
    ;

    fn at_most(&self, other: &Self) -> (r: bool)
        ensures
            r == Self::ranked(self.deep_view(), other.deep_view()),
    ;
}

/// The items that have the rank of `x`.
pub open spec fn rank_of<T: Ranked>(x: <T as DeepView>::V) -> spec_fn(<T as DeepView>::V) -> bool {
    |y: <T as DeepView>::V| T::ranked(x, y) && T::ranked(y, x)
}

/// Whether no item of `s` has a smaller rank than one before it.
pub open spec fn in_order<T: Ranked>(s: Seq<<T as DeepView>::V>) -> bool {
    forall|i: int, j: int| 0 <= i <= j < s.len() ==> T::ranked(#[trigger] s[i], #[trigger] s[j])
}

/// Whether `r` is `s` in order, with items of the same rank as they came in `s`.
pub open spec fn is_stable_sort<T: Ranked>(
    s: Seq<<T as DeepView>::V>,
    r: Seq<<T as DeepView>::V>,
) -> bool {
    &&& in_order::<T>(r)
    &&& r.to_multiset() == s.to_multiset()
    &&& forall|x: <T as DeepView>::V| #[trigger]
        r.filter(rank_of::<T>(x)) == s.filter(rank_of::<T>(x))
}

/// `s` in order, with items of the same rank as they came in `s`.
pub open spec fn stable_sorted<T: Ranked>(s: Seq<<T as DeepView>::V>) -> Seq<<T as DeepView>::V> {
    choose|r: Seq<<T as DeepView>::V>| is_stable_sort::<T>(s, r)
}

proof fn lemma_filter_cons<A>(x: A, s: Seq<A>, p: spec_fn(A) -> bool)
    ensures
        (seq![x] + s).filter(p) == (if p(x) {
            seq![x] + s.filter(p)
        } else {
            s.filter(p)
        }),
{
    Seq::filter_distributes_over_add(seq![x], s, p);
    reveal(Seq::filter);
    assert(seq![x].drop_last() =~= seq![]);
    assert(seq![x].drop_last().filter(p) =~= seq![]);
    if p(x) {
        assert(seq![x].filter(p) =~= seq![x]);
    } else {
        assert(seq![x].filter(p) =~= seq![]);
        assert(seq![] + s.filter(p) =~= s.filter(p));
    }
}

/// A sequence has one stable sort only.
pub proof fn law_stable_sort_is_unique<T: Ranked>(
    s: Seq<<T as DeepView>::V>,
    a: Seq<<T as DeepView>::V>,
    b: Seq<<T as DeepView>::V>,
)
    requires
        is_stable_sort::<T>(s, a),
        is_stable_sort::<T>(s, b),
    ensures
        a == b,
    decreases a.len(),
{
    broadcast use vstd::seq_lib::group_to_multiset_ensures;

    assert(a.len() == a.to_multiset().len());
    assert(b.len() == b.to_multiset().len());
    if a.len() == 0 {
        assert(a =~= b);
    } else {
        let x = a[0];
        let y = b[0];
        let p = rank_of::<T>(x);
        assert(b.to_multiset().contains(x)) by {
            assert(a.contains(x));
        }
        assert(b.contains(x));
        let i = choose|i: int| 0 <= i < b.len() && b[i] == x;
        assert(T::ranked(b[0], b[i]));
        assert(a.to_multiset().contains(y)) by {
            assert(b.contains(y));
        }
        assert(a.contains(y));
        let j = choose|j: int| 0 <= j < a.len() && a[j] == y;
        assert(T::ranked(a[0], a[j]));
        T::ranked_is_total(x, x);
        assert(p(x) && p(y));
        assert(a =~= seq![x] + a.skip(1));
        assert(b =~= seq![y] + b.skip(1));
        lemma_filter_cons(x, a.skip(1), p);
        lemma_filter_cons(y, b.skip(1), p);
        assert(a.filter(p) == b.filter(p));
        assert(a.filter(p)[0] == x);
        assert(b.filter(p)[0] == y);
        assert(x == y);
        let rest = a.skip(1);
        assert forall|z: <T as DeepView>::V| #[trigger]
            b.skip(1).filter(rank_of::<T>(z)) == rest.filter(rank_of::<T>(z)) by {
            let q = rank_of::<T>(z);
            lemma_filter_cons(x, a.skip(1), q);
            lemma_filter_cons(x, b.skip(1), q);
            assert(a.filter(q) == b.filter(q));
            if q(x) {
                assert(a.skip(1).filter(q) =~= a.filter(q).skip(1));
                assert(b.skip(1).filter(q) =~= b.filter(q).skip(1));
            }
        }
        assert(a.remove(0) =~= a.skip(1));
        assert(b.remove(0) =~= b.skip(1));
        assert(a.skip(1).to_multiset() =~= b.skip(1).to_multiset());
        law_stable_sort_is_unique::<T>(rest, a.skip(1), b.skip(1));
    }
}

proof fn lemma_sorted_form<T: Ranked>(s: Seq<<T as DeepView>::V>, r: Seq<<T as DeepView>::V>)
    requires
        is_stable_sort::<T>(s, r),
    ensures
        r == stable_sorted::<T>(s),
{
    law_stable_sort_is_unique::<T>(s, r, stable_sorted::<T>(s));
}

proof fn lemma_filter_none<A>(s: Seq<A>, p: spec_fn(A) -> bool)
    requires
        forall|i: int| 0 <= i < s.len() ==> !p(#[trigger] s[i]),
    ensures
        s.filter(p) == Seq::<A>::empty(),
{
    s.lemma_all_neg_filter_empty(p);
    assert(s.filter(p) =~= Seq::<A>::empty());
}

/// The position after those items of `r` whose rank is at most that of `e`, where `r` is in order.
spec fn place_in<T: Ranked>(r: Seq<<T as DeepView>::V>, e: <T as DeepView>::V) -> nat
    decreases r.len(),
{
    if r.len() == 0 || T::ranked(r.last(), e) {
        r.len()
    } else {
        place_in::<T>(r.drop_last(), e)
    }
}

proof fn lemma_place_in<T: Ranked>(r: Seq<<T as DeepView>::V>, e: <T as DeepView>::V)
    requires
        in_order::<T>(r),
    ensures
        place_in::<T>(r, e) <= r.len(),
        forall|i: int| 0 <= i < place_in::<T>(r, e) ==> T::ranked(#[trigger] r[i], e),
        forall|i: int| place_in::<T>(r, e) <= i < r.len() ==> !T::ranked(#[trigger] r[i], e),
    decreases r.len(),
{
    if r.len() == 0 {
    } else if T::ranked(r.last(), e) {
        assert forall|i: int| 0 <= i < r.len() implies T::ranked(#[trigger] r[i], e) by {
            assert(T::ranked(r[i], r[r.len() - 1]));
            T::ranked_is_transitive(r[i], r.last(), e);
        }
    } else {
        let rest = r.drop_last();
        assert forall|i: int, j: int| 0 <= i <= j < rest.len() implies T::ranked(
            #[trigger] rest[i],
            #[trigger] rest[j],
        ) by {
            assert(rest[i] == r[i] && rest[j] == r[j]);
        }
        lemma_place_in::<T>(rest, e);
        assert forall|i: int| 0 <= i < place_in::<T>(r, e) implies T::ranked(#[trigger] r[i], e) by {
            assert(rest[i] == r[i]);
        }
        assert forall|i: int| place_in::<T>(r, e) <= i < r.len() implies !T::ranked(
            #[trigger] r[i],
            e,
        ) by {
            if i < rest.len() {
                assert(rest[i] == r[i]);
            }
        }
    }
}

/// An item after all others goes behind those of at most its rank.
proof fn lemma_insert_in_place<T: Ranked>(
    s: Seq<<T as DeepView>::V>,
    r: Seq<<T as DeepView>::V>,
    e: <T as DeepView>::V,
)
    requires
        is_stable_sort::<T>(s, r),
    ensures
        is_stable_sort::<T>(s.push(e), r.insert(place_in::<T>(r, e) as int, e)),
{
    broadcast use vstd::seq_lib::group_to_multiset_ensures;

    lemma_place_in::<T>(r, e);
    let p = place_in::<T>(r, e) as int;
    let w = r.insert(p, e);
    T::ranked_is_total(e, e);
    assert forall|i: int, j: int| 0 <= i <= j < w.len() implies T::ranked(
        #[trigger] w[i],
        #[trigger] w[j],
    ) by {
        if i < p && j < p {
            assert(w[i] == r[i] && w[j] == r[j]);
        } else if i < p && j == p {
            assert(w[i] == r[i]);
        } else if i < p {
            assert(w[i] == r[i] && w[j] == r[j - 1]);
        } else if i == p && j > p {
            assert(w[j] == r[j - 1]);
            T::ranked_is_total(r[j - 1], e);
        } else if i > p {
            assert(w[i] == r[i - 1] && w[j] == r[j - 1]);
        }
    }
    vstd::seq_lib::to_multiset_insert(r, p, e);
    assert(s.push(e) =~= s.insert(s.len() as int, e));
    vstd::seq_lib::to_multiset_insert(s, s.len() as int, e);
    assert forall|x: <T as DeepView>::V| #[trigger]
        w.filter(rank_of::<T>(x)) == s.push(e).filter(rank_of::<T>(x)) by {
        let q = rank_of::<T>(x);
        let front = r.take(p);
        let back = r.skip(p);
        assert(r =~= front + back);
        assert(w =~= front + (seq![e] + back));
        Seq::filter_distributes_over_add(front, back, q);
        Seq::filter_distributes_over_add(front, seq![e] + back, q);
        lemma_filter_cons(e, back, q);
        crate::list::lemma_filter_push(s, e, q);
        assert(r.filter(q) == s.filter(q));
        if q(e) {
            assert forall|i: int| 0 <= i < back.len() implies !q(#[trigger] back[i]) by {
                assert(back[i] == r[p + i]);
                if q(back[i]) {
                    T::ranked_is_transitive(back[i], x, e);
                }
            }
            lemma_filter_none(back, q);
            assert(w.filter(q) =~= r.filter(q).push(e));
        }
    }
}

/// Every sequence has a stable sort, and its sorted form is one.
pub proof fn law_sorted_form_is_a_stable_sort<T: Ranked>(s: Seq<<T as DeepView>::V>)
    ensures
        is_stable_sort::<T>(s, stable_sorted::<T>(s)),
    decreases s.len(),
{
    if s.len() == 0 {
        assert(is_stable_sort::<T>(s, s));
    } else {
        let rest = s.drop_last();
        law_sorted_form_is_a_stable_sort::<T>(rest);
        lemma_insert_in_place::<T>(rest, stable_sorted::<T>(rest), s.last());
        assert(rest.push(s.last()) =~= s);
    }
}

/// Merges two ordered vectors; of two items of the same rank, that of `a` comes first.
fn merge<T: Ranked>(a: Vec<T>, b: Vec<T>) -> (r: Vec<T>)
    requires
        in_order::<T>(a.deep_view()),
        in_order::<T>(b.deep_view()),
    ensures
        is_stable_sort::<T>(a.deep_view() + b.deep_view(), r.deep_view()),
{
    broadcast use vstd::seq_lib::group_to_multiset_ensures;

    let ghost full_a = a.deep_view();
    let ghost full_b = b.deep_view();
    let mut a = a;
    let mut b = b;
    let mut tail: Vec<T> = Vec::new();
    // What has left `a` and `b`, and the two merged.
    let ghost mut x: Seq<<T as DeepView>::V> = seq![];
    let ghost mut y: Seq<<T as DeepView>::V> = seq![];
    let ghost mut m: Seq<<T as DeepView>::V> = seq![];
    proof {
        assert(full_a =~= a.deep_view() + x);
        assert(full_b =~= b.deep_view() + y);
        assert(m.reverse() =~= tail.deep_view());
        assert(x + y =~= m);
    }
    while a.len() > 0 || b.len() > 0
        invariant
            in_order::<T>(full_a),
            in_order::<T>(full_b),
            full_a == a.deep_view() + x,
            full_b == b.deep_view() + y,
            tail.deep_view() == m.reverse(),
            in_order::<T>(m),
            m.to_multiset() == (x + y).to_multiset(),
            forall|z: <T as DeepView>::V| #[trigger]
                m.filter(rank_of::<T>(z)) == (x + y).filter(rank_of::<T>(z)),
            forall|i: int, j: int|
                0 <= i < a@.len() && 0 <= j < m.len() ==> T::ranked(
                    #[trigger] a.deep_view()[i],
                    #[trigger] m[j],
                ),
            forall|i: int, j: int|
                0 <= i < b@.len() && 0 <= j < m.len() ==> T::ranked(
                    #[trigger] b.deep_view()[i],
                    #[trigger] m[j],
                ),
            forall|i: int, j: int|
                0 <= i < x.len() && 0 <= j < b@.len() ==> !T::ranked(
                    #[trigger] x[i],
                    #[trigger] b.deep_view()[j],
                ),
        decreases a.len() + b.len(),
    {
        let ghost a0 = a.deep_view();
        let ghost b0 = b.deep_view();
        let from_b: bool = if a.len() == 0 {
            true
        } else if b.len() == 0 {
            false
        } else {
            a[a.len() - 1].at_most(&b[b.len() - 1])
        };
        proof {
            assert forall|i: int, j: int| 0 <= i <= j < a0.len() implies T::ranked(
                #[trigger] a0[i],
                #[trigger] a0[j],
            ) by {
                assert(a0[i] == full_a[i] && a0[j] == full_a[j]);
            }
            assert forall|i: int, j: int| 0 <= i <= j < b0.len() implies T::ranked(
                #[trigger] b0[i],
                #[trigger] b0[j],
            ) by {
                assert(b0[i] == full_b[i] && b0[j] == full_b[j]);
            }
        }
        let item: T = if from_b {
            b.pop().unwrap()
        } else {
            a.pop().unwrap()
        };
        let ghost e = item.deep_view();
        let ghost m0 = m;
        tail.push(item);
        proof {
            m = seq![e] + m0;
            assert(tail.deep_view() =~= m0.reverse().push(e));
            assert(m.reverse() =~= m0.reverse().push(e));
            T::ranked_is_total(e, e);
            if from_b {
                assert(e == b0.last());
                assert(b.deep_view() =~= b0.drop_last());
                assert(a.deep_view() =~= a0);
                let y0 = y;
                y = seq![e] + y0;
                assert(full_b =~= b.deep_view() + y);
                assert(x + y =~= (x + seq![e]) + y0);
                assert forall|z: <T as DeepView>::V| #[trigger]
                    m.filter(rank_of::<T>(z)) == (x + y).filter(rank_of::<T>(z)) by {
                    let q = rank_of::<T>(z);
                    lemma_filter_cons(e, m0, q);
                    lemma_filter_cons(e, y0, q);
                    assert(m0.filter(q) == (x + y0).filter(q));
                    Seq::filter_distributes_over_add(x, y0, q);
                    Seq::filter_distributes_over_add(x, y, q);
                    if q(e) {
                        assert forall|i: int| 0 <= i < x.len() implies !q(#[trigger] x[i]) by {
                            assert(!T::ranked(x[i], b0[b0.len() - 1]));
                            if q(x[i]) {
                                T::ranked_is_transitive(x[i], z, e);
                            }
                        }
                        lemma_filter_none(x, q);
                        assert(m.filter(q) =~= (x + y).filter(q));
                    }
                }
                assert forall|i: int, j: int|
                    0 <= i < a0.len() && 0 <= j < m.len() implies T::ranked(
                    #[trigger] a0[i],
                    #[trigger] m[j],
                ) by {
                    if j == 0 {
                        assert(T::ranked(a0[i], a0[a0.len() - 1]));
                        T::ranked_is_transitive(a0[i], a0[a0.len() - 1], e);
                    } else {
                        assert(m[j] == m0[j - 1]);
                    }
                }
                assert forall|i: int, j: int|
                    0 <= i < b@.len() && 0 <= j < m.len() implies T::ranked(
                    #[trigger] b.deep_view()[i],
                    #[trigger] m[j],
                ) by {
                    assert(b.deep_view()[i] == b0[i]);
                    if j > 0 {
                        assert(m[j] == m0[j - 1]);
                    }
                }
                assert forall|i: int, j: int| 0 <= i <= j < m.len() implies T::ranked(
                    #[trigger] m[i],
                    #[trigger] m[j],
                ) by {
                    if i == 0 && j > 0 {
                        assert(T::ranked(b0[b0.len() - 1], m0[j - 1]));
                    } else if i > 0 {
                        assert(m[i] == m0[i - 1] && m[j] == m0[j - 1]);
                    }
                }
                assert forall|i: int, j: int|
                    0 <= i < x.len() && 0 <= j < b@.len() implies !T::ranked(
                    #[trigger] x[i],
                    #[trigger] b.deep_view()[j],
                ) by {
                    assert(b.deep_view()[j] == b0[j]);
                }
                assert(m =~= m0.insert(0, e));
                assert(x + y =~= (x + y0).insert(x.len() as int, e));
                vstd::seq_lib::to_multiset_insert(m0, 0, e);
                vstd::seq_lib::to_multiset_insert(x + y0, x.len() as int, e);
            } else {
                assert(e == a0.last());
                assert(a.deep_view() =~= a0.drop_last());
                assert(b.deep_view() =~= b0);
                let x0 = x;
                x = seq![e] + x0;
                assert(full_a =~= a.deep_view() + x);
                assert(x + y =~= seq![e] + (x0 + y));
                assert forall|z: <T as DeepView>::V| #[trigger]
                    m.filter(rank_of::<T>(z)) == (x + y).filter(rank_of::<T>(z)) by {
                    let q = rank_of::<T>(z);
                    lemma_filter_cons(e, m0, q);
                    lemma_filter_cons(e, x0 + y, q);
                    assert(m0.filter(q) == (x0 + y).filter(q));
                }
                if b0.len() > 0 {
                    T::ranked_is_total(e, b0.last());
                    assert(!T::ranked(e, b0.last()));
                }
                assert forall|i: int, j: int|
                    0 <= i < a@.len() && 0 <= j < m.len() implies T::ranked(
                    #[trigger] a.deep_view()[i],
                    #[trigger] m[j],
                ) by {
                    assert(a.deep_view()[i] == a0[i]);
                    if j > 0 {
                        assert(m[j] == m0[j - 1]);
                    }
                }
                assert forall|i: int, j: int|
                    0 <= i < b0.len() && 0 <= j < m.len() implies T::ranked(
                    #[trigger] b0[i],
                    #[trigger] m[j],
                ) by {
                    if j == 0 {
                        assert(T::ranked(b0[i], b0[b0.len() - 1]));
                        T::ranked_is_transitive(b0[i], b0.last(), e);
                    } else {
                        assert(m[j] == m0[j - 1]);
                    }
                }
                assert forall|i: int, j: int| 0 <= i <= j < m.len() implies T::ranked(
                    #[trigger] m[i],
                    #[trigger] m[j],
                ) by {
                    if i == 0 && j > 0 {
                        assert(T::ranked(a0[a0.len() - 1], m0[j - 1]));
                    } else if i > 0 {
                        assert(m[i] == m0[i - 1] && m[j] == m0[j - 1]);
                    }
                }
                assert forall|i: int, j: int|
                    0 <= i < x.len() && 0 <= j < b0.len() implies !T::ranked(
                    #[trigger] x[i],
                    #[trigger] b0[j],
                ) by {
                    if i == 0 {
                        if T::ranked(e, b0[j]) {
                            assert(T::ranked(b0[j], b0[b0.len() - 1]));
                            T::ranked_is_transitive(e, b0[j], b0.last());
                        }
                    } else {
                        assert(x[i] == x0[i - 1]);
                    }
                }
                assert(m =~= m0.insert(0, e));
                assert(x + y =~= (x0 + y).insert(0, e));
                vstd::seq_lib::to_multiset_insert(m0, 0, e);
                vstd::seq_lib::to_multiset_insert(x0 + y, 0, e);
            }
        }
    }
    assert(full_a =~= x && full_b =~= y);
    assert(m.reverse().reverse() =~= m);
    reversed(tail)
}

/// The items of `v` from the last to the first.
fn reversed<T: Ranked>(v: Vec<T>) -> (r: Vec<T>)
    ensures
        r.deep_view() == v.deep_view().reverse(),
{
    let ghost all = v.deep_view();
    let mut v = v;
    let mut out: Vec<T> = Vec::new();
    while v.len() > 0
        invariant
            v@.len() + out@.len() == all.len(),
            v.deep_view() == all.take(v@.len() as int),
            out.deep_view() == all.skip(v@.len() as int).reverse(),
        decreases v.len(),
    {
        let ghost n = v@.len();
        let ghost before = v.deep_view();
        let ghost done = out.deep_view();
        let item: T = v.pop().unwrap();
        assert(item.deep_view() == before[n - 1]);
        assert(v.deep_view() =~= all.take(n - 1));
        out.push(item);
        assert(out.deep_view() =~= done.push(all[n - 1]));
        assert(all.skip(n - 1).reverse() =~= all.skip(n as int).reverse().push(all[n - 1]));
    }
    assert(all.skip(0) =~= all);
    out
}

/// `v` in order, with items of the same rank as they came.
pub fn sort<T: Ranked>(v: Vec<T>) -> (r: Vec<T>)
    ensures
        is_stable_sort::<T>(v.deep_view(), r.deep_view()),
        r.deep_view() == stable_sorted::<T>(v.deep_view()),
    decreases v.len(),
{
    broadcast use vstd::seq_lib::group_to_multiset_ensures;

    let ghost s = v.deep_view();
    if v.len() <= 1 {
        proof {
            assert forall|i: int, j: int| 0 <= i <= j < s.len() implies T::ranked(
                #[trigger] s[i],
                #[trigger] s[j],
            ) by {
                T::ranked_is_total(s[i], s[j]);
            }
            lemma_sorted_form::<T>(s, s);
        }
        return v;
    }
    let mut v = v;
    let mid: usize = v.len() / 2;
    let back: Vec<T> = v.split_off(mid);
    let ghost s1 = v.deep_view();
    let ghost s2 = back.deep_view();
    assert(s =~= s1 + s2);
    let a: Vec<T> = sort(v);
    let b: Vec<T> = sort(back);
    let ghost r1 = a.deep_view();
    let ghost r2 = b.deep_view();
    let r: Vec<T> = merge(a, b);
    proof {
        assert forall|x: <T as DeepView>::V| #[trigger]
            r.deep_view().filter(rank_of::<T>(x)) == s.filter(rank_of::<T>(x)) by {
            let q = rank_of::<T>(x);
            assert(r.deep_view().filter(q) == (r1 + r2).filter(q));
            assert(r1.filter(q) == s1.filter(q));
            assert(r2.filter(q) == s2.filter(q));
            Seq::filter_distributes_over_add(r1, r2, q);
            Seq::filter_distributes_over_add(s1, s2, q);
        }
        vstd::seq_lib::lemma_multiset_commutative(r1, r2);
        vstd::seq_lib::lemma_multiset_commutative(s1, s2);
        lemma_sorted_form::<T>(s, r.deep_view());
    }
    r
}

} // verus!
