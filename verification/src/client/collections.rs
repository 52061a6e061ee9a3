//! The engine's list of temporary entities: the active entities in list
//! order, and the free list that released entities go back to.

use vstd::prelude::*;

verus! {

/// The active entries that `keep` keeps, in list order.
pub open spec fn retained<T>(s: Seq<T>, keep: Seq<bool>) -> Seq<T>
    decreases s.len(),
{
    if s.len() == 0 {
        Seq::empty()
    } else {
        let r = retained(s.drop_last(), keep.drop_last());
        if keep.last() {
            r.push(s.last())
        } else {
            r
        }
    }
}

/// The active entries that `keep` drops, in the order in which they end up
/// at the head of the free list: the last one dropped comes first.
pub open spec fn released<T>(s: Seq<T>, keep: Seq<bool>) -> Seq<T>
    decreases s.len(),
{
    if s.len() == 0 {
        Seq::empty()
    } else {
        let r = released(s.drop_last(), keep.drop_last());
        if keep.last() {
            r
        } else {
            seq![s.last()] + r
        }
    }
}

/// The active list and the free list of temporary entities; both are
/// listed from their head.
pub struct TempEntityList<T> {
    active: Vec<T>,
    free: Vec<T>,
}

impl<T> TempEntityList<T> {
    /// The active entities, from the head of the list.
    pub closed spec fn active_view(&self) -> Seq<T> {
        self.active@
    }

    /// The free entities, from the head of the free list.
    pub closed spec fn free_view(&self) -> Seq<T> {
        self.free@
    }

    /// A list made of an active list and a free list.
    pub fn from_raw_parts(active: Vec<T>, free: Vec<T>) -> (r: TempEntityList<T>)
        ensures
            r.active_view() == active@,
            r.free_view() == free@,
    {
        TempEntityList { active, free }
    }

    /// The active list and the free list.
    pub fn into_parts(self) -> (r: (Vec<T>, Vec<T>))
        ensures
            r.0@ == self.active_view(),
            r.1@ == self.free_view(),
    {
        (self.active, self.free)
    }

    /// Whether the list lacks its head slot. The engine hands the list over
    /// with a head slot, and a list built from its parts always has one, so
    /// this is `false`, also when no entity is active (`active()` tells
    /// that).
    pub fn is_empty(&self) -> (r: bool)
        ensures
            !r,
    {
        false
    }

    /// The active entities, from the head of the list.
    pub fn active(&self) -> (r: &Vec<T>)
        ensures
            r@ == self.active_view(),
    {
        &self.active
    }

    /// The free entities, from the head of the free list.
    pub fn free(&self) -> (r: &Vec<T>)
        ensures
            r@ == self.free_view(),
    {
        &self.free
    }

    /// Runs `f` on each active entity, from the head of the list, letting it
    /// change the entity; keeps the entities for which `f` answers `true`,
    /// in order, and moves the others to the head of the free list, one
    /// after the other, so that the last one released is the new head.
    /// For the entity at each position, `ys` is the reference `f` got,
    /// `updated` what `f` made of the entity and `keep` what `f` answered.
    pub fn retain_mut<F: FnMut(&mut T) -> bool>(&mut self, f: F)
        requires
            forall|y: &mut T| f.requires((y,)),
        ensures
            exists|ys: Seq<&mut T>, updated: Seq<T>, keep: Seq<bool>|
                #![trigger ys.len(), updated.len(), keep.len()]
                {
                    &&& ys.len() == old(self).active_view().len()
                    &&& updated.len() == old(self).active_view().len()
                    &&& keep.len() == old(self).active_view().len()
                    &&& forall|i: int|
                        0 <= i < keep.len() ==> *(#[trigger] ys[i]) == old(self).active_view()[i]
                            && *final(ys[i]) == updated[i] && f.ensures((ys[i],), keep[i])
                    &&& final(self).active_view() == retained(updated, keep)
                    &&& final(self).free_view() == released(updated, keep) + old(self).free_view()
                },
    {
        let ghost f0 = f;
        let mut rest: Vec<T> = Vec::new();
        core::mem::swap(&mut rest, &mut self.active);
        let ghost orig = rest@;
        let (updated, keep, _f) = run_tests(rest, f);
        self.active = updated;
        let ghost upd = self.active@;
        self.retain_flags(keep.as_slice());
        proof {
            let ys = choose|ys: Seq<&mut T>|
                #![trigger ys.len()]
                ys.len() == orig.len() && forall|i: int|
                    0 <= i < orig.len() ==> *(#[trigger] ys[i]) == orig[i] && *final(ys[i])
                        == upd[i] && f0.ensures((ys[i],), keep@[i]);
            assert(ys.len() == upd.len() && upd.len() == keep@.len());
        }
    }

    /// Keeps the active entities whose flag in `keep` is set, in order, and
    /// moves the others to the head of the free list.
    fn retain_flags(&mut self, keep: &[bool])
        requires
            keep@.len() == old(self).active_view().len(),
        ensures
            final(self).active_view() == retained(old(self).active_view(), keep@),
            final(self).free_view() == released(old(self).active_view(), keep@) + old(
                self,
            ).free_view(),
    {
        let ghost orig = self.active@;
        let ghost free0 = self.free@;
        let mut rest: Vec<T> = Vec::new();
        core::mem::swap(&mut rest, &mut self.active);
        let mut i: usize = 0;
        assert(orig.subrange(0, 0) =~= Seq::<T>::empty());
        assert(keep@.subrange(0, 0) =~= Seq::<bool>::empty());
        assert(released(orig.subrange(0, 0), keep@.subrange(0, 0)) + free0 =~= free0);
        while rest.len() > 0
            invariant
                keep@.len() == orig.len(),
                i + rest@.len() == orig.len(),
                rest@ == orig.subrange(i as int, orig.len() as int),
                self.active@ == retained(orig.subrange(0, i as int), keep@.subrange(0, i as int)),
                self.free@ == released(orig.subrange(0, i as int), keep@.subrange(0, i as int))
                    + free0,
            decreases rest.len(),
        {
            let x = rest.remove(0);
            let ghost pre = orig.subrange(0, i as int);
            let ghost kpre = keep@.subrange(0, i as int);
            assert(orig.subrange(0, i + 1).drop_last() =~= pre);
            assert(keep@.subrange(0, i + 1).drop_last() =~= kpre);
            assert(orig.subrange(0, i + 1).last() == x);
            if keep[i] {
                self.active.push(x);
            } else {
                self.free.insert(0, x);
                assert(self.free@ =~= seq![x] + released(pre, kpre) + free0);
            }
            i += 1;
            assert(rest@ =~= orig.subrange(i as int, orig.len() as int));
        }
        assert(orig.subrange(0, i as int) =~= orig);
        assert(keep@.subrange(0, i as int) =~= keep@);
    }
}

/// Runs `f` on `v`, letting it change `v`; gives what `v` became, the
/// answer, and `f` back.
fn test_one<T, F: FnMut(&mut T) -> bool>(v: T, f: F) -> (r: (T, bool, F))
    requires
        forall|y: &mut T| f.requires((y,)),
    ensures
        r.2 == f,
        exists|y: &mut T| *y == v && *final(y) == r.0 && f.ensures((y,), r.1),
{
    broadcast use vstd::function::group_function_axioms;

    let mut v = v;
    let mut g = f;
    let k = g(&mut v);
    (v, k, g)
}

/// Runs `f` on each of `items` in order, letting it change the item; gives
/// the changed items, the answers in the same order, and `f` back. `ys`
/// are the references `f` got: each starts at an item and ends at what the
/// item became.
fn run_tests<T, F: FnMut(&mut T) -> bool>(items: Vec<T>, f: F) -> (r: (Vec<T>, Vec<bool>, F))
    requires
        forall|y: &mut T| f.requires((y,)),
    ensures
        r.2 == f,
        r.0@.len() == items@.len(),
        r.1@.len() == items@.len(),
        exists|ys: Seq<&mut T>|
            #![trigger ys.len()]
            ys.len() == items@.len() && forall|i: int|
                0 <= i < items@.len() ==> *(#[trigger] ys[i]) == items@[i] && *final(ys[i])
                    == r.0@[i] && f.ensures((ys[i],), r.1@[i]),
    decreases items@.len(),
{
    if items.len() == 0 {
        assert(Seq::<&mut T>::empty().len() == 0);
        return (Vec::new(), Vec::new(), f);
    }
    let ghost f0 = f;
    let mut items = items;
    let x = items.remove(0);
    let (x2, k, f) = test_one(x, f);
    let (mut us, mut ks, f) = run_tests(items, f);
    let ghost us0 = us@;
    let ghost ks0 = ks@;
    us.insert(0, x2);
    ks.insert(0, k);
    proof {
        let y0 = choose|y: &mut T| *y == x && *final(y) == x2 && f0.ensures((y,), k);
        let rest = choose|ys: Seq<&mut T>|
            #![trigger ys.len()]
            ys.len() == items@.len() && forall|i: int|
                0 <= i < items@.len() ==> *(#[trigger] ys[i]) == items@[i] && *final(ys[i])
                    == us0[i] && f0.ensures((ys[i],), ks0[i]);
        let ys = seq![y0] + rest;
        assert(ys.len() == us@.len());
    }
    (us, ks, f)
}

/// Retaining loses no entity: each one is either still active or on the
/// free list, and keeping every entity changes nothing.
pub proof fn lemma_retain_loses_nothing<T>(s: Seq<T>, keep: Seq<bool>)
    requires
        keep.len() == s.len(),
    ensures
        retained(s, keep).to_multiset().add(released(s, keep).to_multiset()) == s.to_multiset(),
        retained(s, keep).len() + released(s, keep).len() == s.len(),
        (forall|i: int| 0 <= i < keep.len() ==> #[trigger] keep[i]) ==> retained(s, keep) == s
            && released(s, keep) == Seq::<T>::empty(),
    decreases s.len(),
{
    broadcast use vstd::multiset::group_multiset_axioms;
    broadcast use vstd::seq_lib::group_to_multiset_ensures;

    if s.len() == 0 {
        assert(s.to_multiset() =~= vstd::multiset::Multiset::empty());
        assert(retained(s, keep).to_multiset().add(released(s, keep).to_multiset()) =~= s.to_multiset());
    } else {
        let (s0, k0) = (s.drop_last(), keep.drop_last());
        lemma_retain_loses_nothing(s0, k0);
        let x = s.last();
        assert(s =~= s0.push(x));
        vstd::seq_lib::to_multiset_build(s0, x);
        if keep.last() {
            vstd::seq_lib::to_multiset_build(retained(s0, k0), x);
            assert(retained(s, keep).to_multiset().add(released(s, keep).to_multiset())
                =~= s.to_multiset());
        } else {
            vstd::seq_lib::lemma_multiset_commutative(seq![x], released(s0, k0));
            assert(seq![x].to_multiset() =~= vstd::multiset::Multiset::empty().insert(x)) by {
                vstd::seq_lib::to_multiset_build(Seq::<T>::empty(), x);
                assert(Seq::<T>::empty().push(x) =~= seq![x]);
                assert(Seq::<T>::empty().to_multiset() =~= vstd::multiset::Multiset::empty());
            }
            assert(retained(s, keep).to_multiset().add(released(s, keep).to_multiset())
                =~= s.to_multiset());
        }
        if forall|i: int| 0 <= i < keep.len() ==> #[trigger] keep[i] {
            assert(forall|i: int| 0 <= i < k0.len() ==> #[trigger] k0[i] == keep[i]);
            assert(keep[keep.len() - 1]);
        }
    }
}

} // verus!
