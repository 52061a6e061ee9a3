//! Shared helpers: byte string comparison, text decoding, temporary C
//! strings, the allocator and logger settings, and array copies.

pub mod allocator;
pub mod ignore_case;
pub mod logger;
pub mod parse;
pub mod str;

use vstd::prelude::*;

verus! {

/// Copies the first `N` items of `slice` into an array. The slice must
/// hold at least `N` items.
pub fn array_from_slice<T: Copy + Default, const N: usize>(slice: &[T]) -> (r: [T; N])
    requires
        slice@.len() >= N,
    ensures
        r@ == slice@.subrange(0, N as int),
{
    let mut arr: [T; N] = [T::default(); N];
    let mut i: usize = 0;
    while i < N
        invariant
            i <= N,
            N <= slice@.len(),
            arr@.len() == N,
            forall|j: int| 0 <= j < i ==> arr@[j] == slice@[j],
        decreases N - i,
    {
        arr[i] = slice[i];
        i += 1;
    }
    assert(arr@ =~= slice@.subrange(0, N as int));
    arr
}

} // verus!
