//! The choice of C allocation function behind the `allocator` crate's
//! global allocator.

use vstd::prelude::*;
pub use crate::utils::allocator::AllocMethod;

verus! {

/// The global allocator backed by the C runtime.
pub struct System {}

impl System {
    /// The allocator.
    pub fn new() -> (r: System) {
        System {}
    }

    /// On Unix: memory of alignment `align` comes from `malloc` when the
    /// alignment is below the size of a pointer (`malloc` already aligns
    /// that far), and from `posix_memalign` otherwise. It is freed with
    /// `free` either way.
    pub fn alloc_method(&self, align: usize, pointer_size: usize) -> (r: AllocMethod)
        ensures
            r == if align < pointer_size {
                AllocMethod::Malloc
            } else {
                AllocMethod::Aligned
            },
    {
        if align < pointer_size {
            AllocMethod::Malloc
        } else {
            AllocMethod::Aligned
        }
    }

    /// On Windows: memory of alignment 1 or 2 comes from `malloc` and goes
    /// back with `free`; larger alignments use `_aligned_malloc` and
    /// `_aligned_free`.
    pub fn alloc_method_windows(&self, align: usize) -> (r: AllocMethod)
        ensures
            r == if align == 1 || align == 2 {
                AllocMethod::Malloc
            } else {
                AllocMethod::Aligned
            },
    {
        match align {
            1 | 2 => AllocMethod::Malloc,
            _ => AllocMethod::Aligned,
        }
    }
}

} // verus!
