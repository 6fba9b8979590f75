//! A stable sort.
use vstd::prelude::*;

verus! {

/// Values with a total preorder.
pub trait Ranked: Sized {
    /// Whether `self` may stand before `other`.
    spec fn le(&self, other: &Self) -> bool;

    /// Any two values can be compared.
    proof fn le_total(a: &Self, b: &Self)
        ensures
            a.le(b) || b.le(a),
    ;

    /// The order is transitive.
    proof fn le_transitive(a: &Self, b: &Self, c: &Self)
        requires
            a.le(b),
            b.le(c),
        ensures
            a.le(c),
    ;

    /// Whether `self` may stand before `other`.
    fn not_after(&self, other: &Self) -> (r: bool)
        ensures
            r == self.le(other),
    ;
}

/// `s` with `x` inserted behind the last value that may stand before it.
pub open spec fn inserted<T: Ranked>(s: Seq<T>, x: T) -> Seq<T>
    decreases s.len(),
{
    if s.len() == 0 || s.last().le(&x) {
        s.push(x)
    } else {
        inserted(s.drop_last(), x).push(s.last())
    }
}

/// The values of `s` in order, equal ones as they stood.
pub open spec fn sorted<T: Ranked>(s: Seq<T>) -> Seq<T>
    decreases s.len(),
{
    if s.len() == 0 {
        seq![]
    } else {
        inserted(sorted(s.drop_last()), s.last())
    }
}

/// Whether no value stands behind a greater one.
pub open spec fn in_order<T: Ranked>(s: Seq<T>) -> bool {
    forall|i: int, j: int| 0 <= i <= j < s.len() ==> (#[trigger] s[i]).le(#[trigger] &s[j])
}

proof fn lemma_inserted_at<T: Ranked>(s: Seq<T>, x: T, p: int)
    requires
        0 <= p <= s.len(),
        p > 0 ==> s[p - 1].le(&x),
        forall|q: int| p <= q < s.len() ==> !(#[trigger] s[q]).le(&x),
    ensures
        inserted(s, x) == s.insert(p, x),
    decreases s.len(),
{
    if s.len() == p {
        assert(s.insert(p, x) =~= s.push(x));
    } else {
        let init = s.drop_last();
        assert forall|q: int| p <= q < init.len() implies !(#[trigger] init[q]).le(&x) by {
            assert(s[q] == init[q]);
        }
        assert(!s[s.len() - 1].le(&x));
        lemma_inserted_at(init, x, p);
        assert(s.insert(p, x) =~= init.insert(p, x).push(s.last()));
    }
}

/// Sort a vector, keeping the order of equal values.
pub fn stable_sort<T: Ranked>(v: Vec<T>) -> (out: Vec<T>)
    ensures
        out@ == sorted(v@),
{
    let ghost all = v@;
    let mut out: Vec<T> = Vec::new();
    assert(all.take(0) =~= seq![]);
    for x in it: v
        invariant
            it.seq() == all,
            out@ == sorted(all.take(it.index())),
    {
        let ghost k = it.index();
        assert(all.take(k + 1).drop_last() =~= all.take(k));
        assert(all.take(k + 1).last() == x);
        let mut p: usize = out.len();
        while p > 0 && !out[p - 1].not_after(&x)
            invariant
                p <= out@.len(),
                forall|q: int| p <= q < out@.len() ==> !(#[trigger] out@[q]).le(&x),
            decreases p,
        {
            p -= 1;
        }
        proof {
            lemma_inserted_at(out@, x, p as int);
        }
        out.insert(p, x);
    }
    assert(all.take(all.len() as int) =~= all);
    out
}

proof fn lemma_inserted_in_order<T: Ranked>(s: Seq<T>, x: T)
    requires
        in_order(s),
    ensures
        in_order(inserted(s, x)),
        inserted(s, x).len() == s.len() + 1,
        forall|y: T|
            (forall|i: int| 0 <= i < s.len() ==> (#[trigger] s[i]).le(&y)) && x.le(&y) ==> forall|
                i: int,
            |
                0 <= i < inserted(s, x).len() ==> (#[trigger] inserted(s, x)[i]).le(&y),
    decreases s.len(),
{
    T::le_total(&x, &x);
    if s.len() == 0 {
    } else if s.last().le(&x) {
        let t = s.push(x);
        assert forall|i: int, j: int| 0 <= i <= j < t.len() implies (#[trigger] t[i]).le(
            #[trigger] &t[j],
        ) by {
            if j == s.len() && i < s.len() {
                assert(s[i].le(&s[s.len() - 1]));
                T::le_transitive(&t[i], &s.last(), &x);
            } else if j < s.len() {
                assert(s[i].le(&s[j]));
            }
        }
    } else {
        let init = s.drop_last();
        assert(in_order(init)) by {
            assert forall|i: int, j: int| 0 <= i <= j < init.len() implies (#[trigger] init[i]).le(
                #[trigger] &init[j],
            ) by {
                assert(s[i].le(&s[j]));
            }
        }
        lemma_inserted_in_order(init, x);
        let u = inserted(init, x);
        let l = s.last();
        T::le_total(&x, &l);
        T::le_total(&l, &l);
        assert forall|i: int| 0 <= i < init.len() implies (#[trigger] init[i]).le(&l) by {
            assert(s[i].le(&s[s.len() - 1]));
        }
        assert forall|i: int| 0 <= i < u.len() implies (#[trigger] u[i]).le(&l) by {}
        let t = u.push(l);
        assert forall|i: int, j: int| 0 <= i <= j < t.len() implies (#[trigger] t[i]).le(
            #[trigger] &t[j],
        ) by {
            if j < u.len() {
                assert(u[i].le(&u[j]));
            } else if i < u.len() {
                assert(u[i].le(&l));
            }
        }
        assert forall|y: T|
            (forall|i: int| 0 <= i < s.len() ==> (#[trigger] s[i]).le(&y)) && x.le(&y) implies forall|
            i: int,
        |
            0 <= i < t.len() ==> (#[trigger] t[i]).le(&y) by {
            assert forall|i: int| 0 <= i < init.len() implies (#[trigger] init[i]).le(&y) by {
                assert(s[i].le(&y));
            }
            assert(s[s.len() - 1].le(&y));
            assert forall|i: int| 0 <= i < t.len() implies (#[trigger] t[i]).le(&y) by {
                if i < u.len() {
                    assert(u[i].le(&y));
                }
            }
        }
    }
}

/// A sorted sequence is in order.
pub proof fn law_sorted_is_in_order<T: Ranked>(s: Seq<T>)
    ensures
        in_order(sorted(s)),
        sorted(s).len() == s.len(),
    decreases s.len(),
{
    if s.len() > 0 {
        law_sorted_is_in_order(s.drop_last());
        lemma_inserted_in_order(sorted(s.drop_last()), s.last());
    }
}

proof fn lemma_inserted_multiset<T: Ranked>(s: Seq<T>, x: T)
    ensures
        inserted(s, x).to_multiset() == s.to_multiset().insert(x),
    decreases s.len(),
{
    broadcast use vstd::seq_lib::group_to_multiset_ensures;

    if s.len() > 0 && !s.last().le(&x) {
        lemma_inserted_multiset(s.drop_last(), x);
        assert(s =~= s.drop_last().push(s.last()));
        assert(inserted(s, x).to_multiset() =~= s.to_multiset().insert(x));
    }
}

/// Sorting only rearranges.
pub proof fn law_sorted_is_permutation<T: Ranked>(s: Seq<T>)
    ensures
        sorted(s).to_multiset() == s.to_multiset(),
    decreases s.len(),
{
    broadcast use vstd::seq_lib::group_to_multiset_ensures;

    if s.len() > 0 {
        law_sorted_is_permutation(s.drop_last());
        lemma_inserted_multiset(sorted(s.drop_last()), s.last());
        assert(s =~= s.drop_last().push(s.last()));
    } else {
        assert(s =~= seq![]);
    }
}

/// Whether two values rank equal.
pub open spec fn ties<T: Ranked>(a: T, b: T) -> bool {
    a.le(&b) && b.le(&a)
}

/// The values of `s` that rank equal to `x`, as they stand.
pub open spec fn tied_with<T: Ranked>(s: Seq<T>, x: T) -> Seq<T>
    decreases s.len(),
{
    if s.len() == 0 {
        seq![]
    } else if ties(s.last(), x) {
        tied_with(s.drop_last(), x).push(s.last())
    } else {
        tied_with(s.drop_last(), x)
    }
}

proof fn lemma_inserted_ties<T: Ranked>(s: Seq<T>, x: T, y: T)
    ensures
        tied_with(inserted(s, x), y) == (if ties(x, y) {
            tied_with(s, y).push(x)
        } else {
            tied_with(s, y)
        }),
    decreases s.len(),
{
    if s.len() == 0 || s.last().le(&x) {
        assert(s.push(x).drop_last() =~= s);
    } else {
        lemma_inserted_ties(s.drop_last(), x, y);
        let u = inserted(s.drop_last(), x);
        assert(u.push(s.last()).drop_last() =~= u);
        if ties(x, y) && ties(s.last(), y) {
            T::le_transitive(&s.last(), &y, &x);
        }
    }
}

/// Values that rank equal keep their order.
pub proof fn law_sorted_is_stable<T: Ranked>(s: Seq<T>, x: T)
    ensures
        tied_with(sorted(s), x) == tied_with(s, x),
    decreases s.len(),
{
    if s.len() > 0 {
        law_sorted_is_stable(s.drop_last(), x);
        lemma_inserted_ties(sorted(s.drop_last()), s.last(), x);
    }
}

} // verus!
