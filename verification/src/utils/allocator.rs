//! The choice of C allocation function behind the engine's global
//! allocator: plain `malloc` for the smallest alignments, an aligned
//! allocation otherwise.

use vstd::prelude::*;

verus! {

/// The C allocation function to use.
#[derive(Copy, Clone, Debug, PartialEq, Eq, Structural)]
pub enum AllocMethod {
    /// `malloc`, freed with `free`.
    Malloc,
    /// `posix_memalign` (or `_aligned_malloc` on Windows, freed with
    /// `_aligned_free`).
    Aligned,
}

/// The global allocator backed by the C runtime.
pub struct System {}

impl System {
    /// The allocator.
    pub fn new() -> (r: System) {
        System {}
    }

    /// The function that allocates (and frees) memory of alignment
    /// `align`: `malloc` for alignments 1 and 2, an aligned allocation for
    /// larger ones.
    pub fn alloc_method(&self, align: usize) -> (r: AllocMethod)
        ensures
            r == if align == 1 || align == 2 {
                AllocMethod::Malloc
            } else {
                AllocMethod::Aligned
            },
    {
        match align {
            1 | 2 => AllocMethod::Malloc,
            _ => AllocMethod::Aligned,
        }
    }
}

} // verus!
