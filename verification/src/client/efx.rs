//! The engine's effects interface (`efx_api_s`). Its functions are called
//! through the engine's table of function pointers, outside this library;
//! the interface here holds that table.

use vstd::prelude::*;

verus! {

/// The engine's effects interface: a reference to its table of functions.
pub struct EfxApi<'a, R> {
    raw: &'a R,
}

impl<'a, R> EfxApi<'a, R> {
    /// The table referenced.
    pub closed spec fn spec_raw(&self) -> R {
        *self.raw
    }

    /// The interface of the engine's table `raw`.
    pub fn new(raw: &'a R) -> (r: EfxApi<'a, R>)
        ensures
            r.spec_raw() == *raw,
    {
        EfxApi { raw }
    }

    /// The engine's table of effect functions.
    pub fn raw(&self) -> (r: &'a R)
        ensures
            *r == self.spec_raw(),
    {
        self.raw
    }
}

} // verus!
