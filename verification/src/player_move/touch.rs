//! The entities that a player touched during one move: each entity once,
//! with the trace that touched it, in the order they were touched, and
//! never more than `MAX_PHYSENTS` of them.

use vstd::prelude::*;

verus! {

/// The most entities that one move can touch.
pub const MAX_PHYSENTS: usize = 600;

/// The touched entities of a move, each with its trace.
pub struct TouchList<T> {
    items: Vec<(i32, T)>,
}

/// The entity `ent` is among the touched ones.
pub open spec fn touched<T>(items: Seq<(i32, T)>, ent: i32) -> bool {
    exists|i: int| 0 <= i < items.len() && #[trigger] items[i].0 == ent
}

/// No entity is there twice.
pub open spec fn distinct_ents<T>(items: Seq<(i32, T)>) -> bool {
    forall|i: int, j: int|
        0 <= i < items.len() && 0 <= j < items.len() && i != j ==> #[trigger] items[i].0
            != #[trigger] items[j].0
}

impl<T> View for TouchList<T> {
    type V = Seq<(i32, T)>;

    closed spec fn view(&self) -> Seq<(i32, T)> {
        self.items@
    }
}

impl<T> TouchList<T> {
    #[verifier::type_invariant]
    spec fn wf(&self) -> bool {
        &&& self.items@.len() <= MAX_PHYSENTS
        &&& distinct_ents(self.items@)
    }

    /// Nothing touched yet, as at the start of a move.
    pub fn new() -> (r: TouchList<T>)
        ensures
            r@ == Seq::<(i32, T)>::empty(),
    {
        TouchList { items: Vec::new() }
    }

    /// The number of touched entities; a list holds at most
    /// `MAX_PHYSENTS` entities, each once.
    pub fn len(&self) -> (r: usize)
        ensures
            r == self@.len(),
            r <= MAX_PHYSENTS,
            distinct_ents(self@),
    {
        proof {
            use_type_invariant(self);
        }
        self.items.len()
    }

    /// The `i`-th touched entity and its trace.
    pub fn get(&self, i: usize) -> (r: &(i32, T))
        requires
            i < self@.len(),
        ensures
            *r == self@[i as int],
    {
        &self.items[i]
    }

    /// Whether `ent` was touched.
    pub fn contains(&self, ent: i32) -> (r: bool)
        ensures
            r == touched(self@, ent),
    {
        let mut i: usize = 0;
        while i < self.items.len()
            invariant
                i <= self.items@.len(),
                forall|k: int| 0 <= k < i ==> #[trigger] self.items@[k].0 != ent,
            decreases self.items.len() - i,
        {
            if self.items[i].0 == ent {
                return true;
            }
            i += 1;
        }
        false
    }

    /// Records that `ent` was touched by `trace`. An entity touched before
    /// keeps its first trace and the list is unchanged; the result says
    /// whether the entity is new. A new entity needs room in the list.
    pub fn add_to_touched(&mut self, ent: i32, trace: T) -> (r: bool)
        requires
            touched(old(self)@, ent) || old(self)@.len() < MAX_PHYSENTS,
        ensures
            r == !touched(old(self)@, ent),
            r ==> final(self)@ == old(self)@.push((ent, trace)),
            !r ==> final(self)@ == old(self)@,
    {
        proof {
            use_type_invariant(&*self);
        }
        if self.contains(ent) {
            return false;
        }
        let mut items = Vec::new();
        std::mem::swap(&mut items, &mut self.items);
        let ghost before = items@;
        items.push((ent, trace));
        assert(distinct_ents(items@)) by {
            assert forall|i: int, j: int|
                0 <= i < items@.len() && 0 <= j < items@.len() && i != j implies #[trigger] items@[i].0
                != #[trigger] items@[j].0 by {
                if i < before.len() && j < before.len() {
                    assert(before[i].0 != before[j].0);
                } else if i == before.len() {
                    assert(items@[j] == before[j]);
                } else {
                    assert(items@[i] == before[i]);
                }
            }
        }
        self.items = items;
        true
    }
}

/// Touching the same entity twice records it once: the second call changes
/// nothing and says so.
pub proof fn lemma_touch_once<T>(items: Seq<(i32, T)>, ent: i32, trace: T)
    ensures
        touched(items.push((ent, trace)), ent),
{
    assert(items.push((ent, trace))[items.len() as int].0 == ent);
}

} // verus!
