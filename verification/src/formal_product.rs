//! Products of which only the factors matter, not their order.
use crate::ring::{lemma_one_times, Ring};
use vstd::multiset::Multiset;
use vstd::prelude::*;

verus! {

/// The product of the members of a bag.
pub open spec fn bag_product<S: Ring>(bag: Multiset<S>) -> S
    decreases bag.len(),
{
    if bag.len() == 0 {
        S::spec_one()
    } else {
        let x = bag.choose();
        bag_product(bag.remove(x)).spec_times(x)
    }
}

/// One more member is one more factor.
pub proof fn lemma_bag_insert<S: Ring>(bag: Multiset<S>, x: S)
    ensures
        bag_product(bag.insert(x)) == bag_product(bag).spec_times(x),
    decreases bag.len(),
{
    let more = bag.insert(x);
    let y = more.choose();
    assert(more.len() == bag.len() + 1);
    assert(more.count(y) > 0);
    if y == x {
        assert(more.remove(y) =~= bag);
    } else {
        assert(bag.count(y) > 0);
        let less = bag.remove(y);
        assert(more.remove(y) =~= less.insert(x));
        assert(less.insert(y) =~= bag);
        lemma_bag_insert(less, x);
        lemma_bag_insert(less, y);
        let s = bag_product(less);
        S::times_associates(s, x, y);
        S::times_commutes(x, y);
        S::times_associates(s, y, x);
    }
}

pub proof fn lemma_bag_add<S: Ring>(a: Multiset<S>, b: Multiset<S>)
    ensures
        bag_product(a.add(b)) == bag_product(a).spec_times(bag_product(b)),
    decreases b.len(),
{
    if b.len() == 0 {
        assert(b =~= Multiset::empty());
        assert(a.add(b) =~= a);
        S::times_one(bag_product(a));
    } else {
        let y = b.choose();
        let less = b.remove(y);
        assert(less.insert(y) =~= b);
        assert(a.add(less).insert(y) =~= a.add(b));
        lemma_bag_add(a, less);
        lemma_bag_insert(a.add(less), y);
        lemma_bag_insert(less, y);
        S::times_associates(bag_product(a), bag_product(less), y);
    }
}

/// The bag of two factors.
pub open spec fn two_of<S>(a: S, b: S) -> Multiset<S> {
    Multiset::empty().insert(a).insert(b)
}

/// The bag of three factors.
pub open spec fn three_of<S>(a: S, b: S, c: S) -> Multiset<S> {
    two_of(a, b).insert(c)
}

pub broadcast proof fn lemma_two_of<S: Ring>(a: S, b: S)
    ensures
        #[trigger] bag_product(two_of(a, b)) == a.spec_times(b),
{
    let none = Multiset::<S>::empty();
    lemma_bag_insert(none, a);
    lemma_bag_insert(none.insert(a), b);
    lemma_one_times(a);
}

pub broadcast proof fn lemma_three_of<S: Ring>(a: S, b: S, c: S)
    ensures
        #[trigger] bag_product(three_of(a, b, c)) == a.spec_times(b).spec_times(c),
{
    lemma_two_of(a, b);
    lemma_bag_insert(two_of(a, b), c);
}

/// Products of the same factors are equal.
pub proof fn lemma_same_factors<S: Ring>(
    a: Multiset<S>,
    b: Multiset<S>,
    c: Multiset<S>,
    d: Multiset<S>,
)
    requires
        a.add(b) =~= c.add(d),
    ensures
        bag_product(a).spec_times(bag_product(b)) == bag_product(c).spec_times(bag_product(d)),
{
    lemma_bag_add(a, b);
    lemma_bag_add(c, d);
}

pub broadcast group group_formal_product {
    lemma_two_of,
    lemma_three_of,
}

} // verus!
