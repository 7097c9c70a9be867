//! Sums of which only the summands matter, not their order.
use crate::ring::{lemma_negated, lemma_plus_cancels, lemma_zero_plus, Ring};
use vstd::multiset::Multiset;
use vstd::prelude::*;

verus! {

/// The sum of the members of a bag.
pub open spec fn bag_sum<S: Ring>(bag: Multiset<S>) -> S
    decreases bag.len(),
{
    if bag.len() == 0 {
        S::spec_zero()
    } else {
        let x = bag.choose();
        bag_sum(bag.remove(x)).spec_plus(x)
    }
}

/// One more member is one more summand.
pub proof fn lemma_bag_insert<S: Ring>(bag: Multiset<S>, x: S)
    ensures
        bag_sum(bag.insert(x)) == bag_sum(bag).spec_plus(x),
    decreases bag.len(),
{
    let more = bag.insert(x);
    let y = more.choose();
    assert(more.len() == bag.len() + 1);
    assert(more.count(y) > 0);
    if y == x {
        assert(more.remove(y) =~= bag);
    } else {
        assert(bag.count(y) > 0);
        let less = bag.remove(y);
        assert(more.remove(y) =~= less.insert(x));
        assert(less.insert(y) =~= bag);
        lemma_bag_insert(less, x);
        lemma_bag_insert(less, y);
        let s = bag_sum(less);
        S::plus_associates(s, x, y);
        S::plus_commutes(x, y);
        S::plus_associates(s, y, x);
    }
}

pub proof fn lemma_bag_add<S: Ring>(a: Multiset<S>, b: Multiset<S>)
    ensures
        bag_sum(a.add(b)) == bag_sum(a).spec_plus(bag_sum(b)),
    decreases b.len(),
{
    if b.len() == 0 {
        assert(b =~= Multiset::empty());
        assert(a.add(b) =~= a);
        S::plus_zero(bag_sum(a));
    } else {
        let y = b.choose();
        let less = b.remove(y);
        assert(less.insert(y) =~= b);
        assert(a.add(less).insert(y) =~= a.add(b));
        lemma_bag_add(a, less);
        lemma_bag_insert(a.add(less), y);
        lemma_bag_insert(less, y);
        S::plus_associates(bag_sum(a), bag_sum(less), y);
    }
}

/// A sum of which some summands are added and some subtracted.
#[verifier::ext_equal]
pub ghost struct FormalSum<S> {
    pub added: Multiset<S>,
    pub subtracted: Multiset<S>,
}

impl<S: Ring> FormalSum<S> {
    pub open spec fn none() -> Self {
        FormalSum { added: Multiset::empty(), subtracted: Multiset::empty() }
    }

    pub open spec fn and(self, x: S) -> Self {
        FormalSum { added: self.added.insert(x), ..self }
    }

    pub open spec fn less(self, x: S) -> Self {
        FormalSum { subtracted: self.subtracted.insert(x), ..self }
    }

    pub open spec fn value(self) -> S {
        bag_sum(self.added).spec_minus(bag_sum(self.subtracted))
    }

    /// The sum with added and subtracted summands exchanged.
    pub open spec fn flipped(self) -> Self {
        FormalSum { added: self.subtracted, subtracted: self.added }
    }

    /// Whether two sums have the same summands, after those that are both added and
    /// subtracted were left out.
    pub open spec fn same(self, other: Self) -> bool {
        self.added.add(other.subtracted) == other.added.add(self.subtracted)
    }
}

pub broadcast proof fn lemma_none<S: Ring>()
    ensures
        #[trigger] FormalSum::<S>::none().value() == S::spec_zero(),
{
    lemma_negated(S::spec_zero(), S::spec_zero());
}

pub broadcast proof fn lemma_and<S: Ring>(sum: FormalSum<S>, x: S)
    ensures
        #[trigger] sum.and(x).value() == sum.value().spec_plus(x),
{
    let a = bag_sum(sum.added);
    let n = bag_sum(sum.subtracted).spec_negated();
    lemma_bag_insert(sum.added, x);
    S::minus_adds_negated(a, bag_sum(sum.subtracted));
    S::minus_adds_negated(a.spec_plus(x), bag_sum(sum.subtracted));
    S::plus_associates(a, x, n);
    S::plus_commutes(x, n);
    S::plus_associates(a, n, x);
}

pub broadcast proof fn lemma_less<S: Ring>(sum: FormalSum<S>, x: S)
    ensures
        #[trigger] sum.less(x).value() == sum.value().spec_minus(x),
{
    let a = bag_sum(sum.added);
    let b = bag_sum(sum.subtracted);
    lemma_bag_insert(sum.subtracted, x);
    S::minus_adds_negated(a, b);
    S::minus_adds_negated(a, b.spec_plus(x));
    lemma_negated(b, x);
    S::plus_associates(a, b.spec_negated(), x.spec_negated());
    S::minus_adds_negated(a.spec_minus(b), x);
}

/// Exchanging what is added and what is subtracted negates the value.
pub proof fn lemma_flip<S: Ring>(sum: FormalSum<S>)
    ensures
        sum.flipped().value() == sum.value().spec_negated(),
{
    lemma_negated(bag_sum(sum.added), bag_sum(sum.subtracted));
}

/// Sums with the same summands have the same value.
pub proof fn lemma_same<S: Ring>(x: FormalSum<S>, y: FormalSum<S>)
    requires
        x.same(y),
    ensures
        x.value() == y.value(),
{
    let (xa, xs) = (bag_sum(x.added), bag_sum(x.subtracted));
    let (ya, ys) = (bag_sum(y.added), bag_sum(y.subtracted));
    lemma_bag_add(x.added, y.subtracted);
    lemma_bag_add(y.added, x.subtracted);
    S::minus_adds_negated(xa, xs);
    S::minus_adds_negated(ya, ys);
    let c = xs.spec_plus(ys);
    lemma_shift(xa, xs, ys);
    lemma_shift(ya, ys, xs);
    S::plus_commutes(xs, ys);
    lemma_plus_cancels(x.value(), y.value(), c);
}

proof fn lemma_shift<S: Ring>(a: S, s: S, t: S)
    ensures
        a.spec_minus(s).spec_plus(s.spec_plus(t)) == a.spec_plus(t),
{
    let n = s.spec_negated();
    S::minus_adds_negated(a, s);
    S::plus_associates(a, n, s.spec_plus(t));
    S::plus_associates(n, s, t);
    S::plus_commutes(n, s);
    S::plus_negated(s);
    lemma_zero_plus(t);
}

pub broadcast group group_formal_sum {
    lemma_none,
    lemma_and,
    lemma_less,
}

} // verus!
