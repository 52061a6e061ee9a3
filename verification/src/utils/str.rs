//! Temporary C strings: a Rust string copied with a trailing NUL byte into
//! a buffer of `N` bytes on the stack when it fits, and onto the heap
//! otherwise, to hand to the engine.

use vstd::prelude::*;
use vstd::string::StringSliceAdditionalSpecFns;

verus! {

/// A byte string holds no NUL byte.
pub open spec fn no_nul(s: Seq<u8>) -> bool {
    forall|i: int| 0 <= i < s.len() ==> #[trigger] s[i] != 0
}

/// Where the bytes of a `CStrTemp` are.
enum Buf<const N: usize> {
    /// In a buffer of `N` bytes: the string is the first `len` bytes,
    /// followed by a NUL.
    Stack { buf: [u8; N], len: usize },
    /// On the heap, NUL included.
    Heap(Vec<u8>),
}

/// A temporary C string stored on the stack or the heap.
pub struct CStrTemp<const N: usize> {
    buf: Buf<N>,
}

impl<const N: usize> CStrTemp<N> {
    /// The string's bytes, without the trailing NUL.
    pub closed spec fn spec_bytes(&self) -> Seq<u8> {
        match self.buf {
            Buf::Stack { buf, len } => buf@.subrange(0, len as int),
            Buf::Heap(v) => v@.drop_last(),
        }
    }

    /// The string is in the stack buffer.
    pub closed spec fn spec_is_stack(&self) -> bool {
        self.buf is Stack
    }

    /// The representation holds the string and exactly one NUL after it.
    #[verifier::type_invariant]
    spec fn wf(&self) -> bool {
        match self.buf {
            Buf::Stack { buf, len } => len < N && buf@.len() == N && buf@[len as int] == 0 && no_nul(
                buf@.subrange(0, len as int),
            ),
            Buf::Heap(v) => v@.len() >= 1 && v@.last() == 0 && no_nul(v@.drop_last()),
        }
    }

    /// Copies `s` with a trailing NUL into a stack buffer of `N` bytes when
    /// it fits there, that is when it is shorter than `N` bytes, and onto
    /// the heap otherwise. `s` must not hold a NUL byte.
    pub fn new(s: &str) -> (r: CStrTemp<N>)
        requires
            no_nul(s.spec_bytes()),
        ensures
            r.spec_bytes() == s.spec_bytes(),
            r.spec_is_stack() <==> s.spec_bytes().len() < N,
    {
        let bytes = s.as_bytes();
        let len = bytes.len();
        if len < N {
            let mut buf: [u8; N] = [0u8; N];
            let mut i: usize = 0;
            while i < len
                invariant
                    len == bytes@.len(),
                    len < N,
                    i <= len,
                    buf@.len() == N,
                    forall|j: int| 0 <= j < i ==> buf@[j] == bytes@[j],
                    forall|j: int| i <= j < N ==> buf@[j] == 0,
                decreases len - i,
            {
                buf[i] = bytes[i];
                i += 1;
            }
            assert(buf@.subrange(0, len as int) =~= bytes@);
            CStrTemp { buf: Buf::Stack { buf, len } }
        } else {
            let mut v = vstd::slice::slice_to_vec(bytes);
            v.push(0);
            assert(v@.drop_last() =~= bytes@);
            CStrTemp { buf: Buf::Heap(v) }
        }
    }

    /// The string's bytes followed by the trailing NUL.
    pub fn as_bytes_with_null(&self) -> (r: &[u8])
        ensures
            r@ == self.spec_bytes().push(0),
    {
        proof {
            use_type_invariant(self);
        }
        match &self.buf {
            Buf::Stack { buf, len } => {
                let r = vstd::array::array_as_slice(buf);
                assert(r@.subrange(0, *len + 1) =~= buf@.subrange(0, *len as int).push(0));
                &r[0..*len + 1]
            },
            Buf::Heap(v) => {
                assert(v@ =~= v@.drop_last().push(0));
                v.as_slice()
            },
        }
    }

    /// The string is stored on the stack.
    pub fn is_stack(&self) -> (r: bool)
        ensures
            r == self.spec_is_stack(),
    {
        match &self.buf {
            Buf::Stack { .. } => true,
            Buf::Heap(_) => false,
        }
    }

    /// The string is stored on the heap.
    pub fn is_heap(&self) -> (r: bool)
        ensures
            r == !self.spec_is_stack(),
    {
        match &self.buf {
            Buf::Stack { .. } => false,
            Buf::Heap(_) => true,
        }
    }
}

} // verus!
