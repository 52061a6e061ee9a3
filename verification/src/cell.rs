//! Cells for single-threaded statics: `Sync` holds a value, `SyncOnceCell`
//! a value set at most once.

use vstd::prelude::*;

verus! {

/// A tiny wrapper for single-threaded mutable statics.
pub struct Sync<T> {
    data: T,
}

impl<T> Sync<T> {
    /// The value held.
    pub closed spec fn value(&self) -> T {
        self.data
    }

    /// A cell holding `data`. Only for single-threaded use.
    pub fn new(data: T) -> (r: Sync<T>)
        ensures
            r.value() == data,
    {
        Sync { data }
    }

    /// The value held.
    pub fn get(&self) -> (r: &T)
        ensures
            *r == self.value(),
    {
        &self.data
    }

    /// The value held, to change in place.
    pub fn get_mut(&mut self) -> (r: &mut T)
        ensures
            *r == old(self).value(),
            final(self).value() == *final(r),
    {
        &mut self.data
    }

    /// Replaces the value held.
    pub fn set(&mut self, data: T)
        ensures
            final(self).value() == data,
    {
        self.data = data;
    }

    /// The value held.
    pub fn into_inner(self) -> (r: T)
        ensures
            r == self.value(),
    {
        self.data
    }
}

/// A cell that is set at most once.
pub struct SyncOnceCell<T> {
    cell: Option<T>,
}

impl<T> SyncOnceCell<T> {
    /// The value, once set.
    pub closed spec fn value(&self) -> Option<T> {
        self.cell
    }

    /// An empty cell. Only for single-threaded use.
    pub fn new() -> (r: SyncOnceCell<T>)
        ensures
            r.value() is None,
    {
        SyncOnceCell { cell: None }
    }

    /// The value, if the cell was set.
    pub fn get(&self) -> (r: Option<&T>)
        ensures
            r is Some <==> self.value() is Some,
            r matches Some(v) ==> *v == self.value()->0,
    {
        match &self.cell {
            Some(v) => Some(v),
            None => None,
        }
    }

    /// Sets the cell if it is empty; a cell already set keeps its value,
    /// and `value` is handed back.
    pub fn set(&mut self, value: T) -> (r: Result<(), T>)
        ensures
            old(self).value() is None ==> r is Ok && final(self).value() == Some(value),
            old(self).value() is Some ==> r == Err::<(), T>(value) && final(self).value() == old(
                self,
            ).value(),
    {
        if self.cell.is_some() {
            Err(value)
        } else {
            self.cell = Some(value);
            Ok(())
        }
    }

    /// The value, setting it first to what `f` gives if the cell is
    /// empty; `f` is called only then.
    pub fn get_or_init<F: FnOnce() -> T>(&mut self, f: F) -> (r: &T)
        requires
            old(self).value() is None ==> f.requires(()),
        ensures
            old(self).value() is Some ==> final(self).value() == old(self).value() && *r == old(
                self,
            ).value()->0,
            old(self).value() is None ==> f.ensures((), *r) && final(self).value() == Some(*r),
    {
        if self.cell.is_none() {
            self.cell = Some(f());
        }
        self.cell.as_ref().unwrap()
    }

    /// The value, taken out of the cell, which is empty again.
    pub fn take(&mut self) -> (r: Option<T>)
        ensures
            r == old(self).value(),
            final(self).value() is None,
    {
        let mut v: Option<T> = None;
        core::mem::swap(&mut v, &mut self.cell);
        v
    }
}

} // verus!
