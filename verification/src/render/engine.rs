//! The engine interface of the renderer (`ref_api_s`). Its functions are
//! called through the engine's table of function pointers, outside this
//! library; the interface here holds a copy of that table.

use vstd::prelude::*;

verus! {

/// The engine interface of the renderer: its table of functions.
pub struct RefEngine<R> {
    raw: R,
}

impl<R: Copy> RefEngine<R> {
    /// The table held.
    pub closed spec fn spec_raw(&self) -> R {
        self.raw
    }

    /// The interface of a copy of the engine's table `raw`.
    pub fn new(raw: &R) -> (r: RefEngine<R>)
        ensures
            r.spec_raw() == *raw,
    {
        RefEngine { raw: *raw }
    }

    /// The engine's table of functions.
    pub fn raw(&self) -> (r: &R)
        ensures
            *r == self.spec_raw(),
    {
        &self.raw
    }
}

} // verus!
