//! The heap form: a reference-counted byte buffer. Its allocation starts
//! with a header region of `REFCOUNT_HEADER_BYTES` reserved bytes, followed by
//! the elements and any unused capacity.
use std::rc::Rc;
use vstd::prelude::*;
use vstd::slice::slice_subrange;

use crate::bytes::{first_nul_in, first_nul_result, nul_terminated};

verus! {

/// The bytes that precede the first element in every heap allocation.
pub const REFCOUNT_HEADER_BYTES: usize = 8;

/// One heap allocation: the header region, `len` elements, then slack.
pub(crate) struct HeapStorage {
    pub(crate) alloc: Vec<u8>,
    pub(crate) len: usize,
}

impl HeapStorage {
    pub(crate) open spec fn wf(&self) -> bool {
        REFCOUNT_HEADER_BYTES + self.len <= self.alloc@.len() <= usize::MAX
    }

    pub(crate) open spec fn view(&self) -> Seq<u8> {
        self.alloc@.subrange(
            REFCOUNT_HEADER_BYTES as int,
            REFCOUNT_HEADER_BYTES + self.len,
        )
    }

    pub(crate) open spec fn spec_capacity(&self) -> nat {
        (self.alloc@.len() - REFCOUNT_HEADER_BYTES) as nat
    }

    /// Writes a zero byte right after the elements of an exclusively owned
    /// allocation and returns where the terminated bytes start. With slack
    /// left, the zero goes into the first unused byte. Without it, the
    /// elements are first moved back over the header region, which frees a
    /// header's worth of space at the end.
    pub(crate) fn terminate_in_place(&mut self) -> (start: usize)
        requires
            old(self).wf(),
        ensures
            final(self).alloc@.len() == old(self).alloc@.len(),
            start + old(self).len + 1 <= final(self).alloc@.len(),
            final(self).alloc@.subrange(start as int, start + old(self).len + 1)
                == nul_terminated(old(self)@),
            old(self).len < old(self).spec_capacity() ==> start == REFCOUNT_HEADER_BYTES,
            old(self).len == old(self).spec_capacity() ==> start == 0,
    {
        let len = self.len;
        let ghost before = self.alloc@;
        let end = self.alloc.len();
        if REFCOUNT_HEADER_BYTES + len < end {
            self.alloc.set(REFCOUNT_HEADER_BYTES + len, 0u8);
            assert(self.alloc@.subrange(
                REFCOUNT_HEADER_BYTES as int,
                REFCOUNT_HEADER_BYTES + len + 1,
            ) =~= nul_terminated(old(self)@));
            REFCOUNT_HEADER_BYTES
        } else {
            let mut i: usize = 0;
            while i < len
                invariant
                    len == old(self).len,
                    REFCOUNT_HEADER_BYTES + len <= before.len() == end,
                    self.alloc@.len() == before.len(),
                    self.len == len,
                    i <= len,
                    forall|j: int| 0 <= j < i ==> self.alloc@[j] == before[REFCOUNT_HEADER_BYTES + j],
                    forall|j: int| i <= j < before.len() ==> self.alloc@[j] == before[j],
                decreases len - i,
            {
                let b = self.alloc[REFCOUNT_HEADER_BYTES + i];
                self.alloc.set(i, b);
                i = i + 1;
            }
            self.alloc.set(len, 0u8);
            assert(self.alloc@.subrange(0, len + 1) =~= nul_terminated(old(self)@));
            0
        }
    }
}

/// A handle on a shared heap allocation; clones share it.
pub(crate) struct SharedBytes {
    pub(crate) storage: Rc<HeapStorage>,
}

impl SharedBytes {
    pub(crate) open spec fn wf(&self) -> bool {
        (*self.storage).wf()
    }

    pub(crate) open spec fn view(&self) -> Seq<u8> {
        (*self.storage)@
    }

    pub(crate) open spec fn spec_capacity(&self) -> nat {
        (*self.storage).spec_capacity()
    }

    /// A fresh allocation holding a copy of `slice`, with no slack.
    pub(crate) fn from_slice(slice: &[u8]) -> (r: Self)
        requires
            slice@.len() + REFCOUNT_HEADER_BYTES <= usize::MAX,
        ensures
            r.wf(),
            r@ == slice@,
            r.spec_capacity() == slice@.len(),
    {
        let n = slice.len();
        let mut alloc: Vec<u8> = Vec::with_capacity(REFCOUNT_HEADER_BYTES + n);
        let mut i: usize = 0;
        while i < REFCOUNT_HEADER_BYTES
            invariant
                i <= REFCOUNT_HEADER_BYTES,
                alloc@.len() == i,
            decreases REFCOUNT_HEADER_BYTES - i,
        {
            alloc.push(0u8);
            i = i + 1;
        }
        let mut k: usize = 0;
        while k < n
            invariant
                n == slice@.len(),
                k <= n,
                alloc@.len() == REFCOUNT_HEADER_BYTES + k,
                forall|j: int| 0 <= j < k ==> alloc@[REFCOUNT_HEADER_BYTES + j] == slice@[j],
            decreases n - k,
        {
            alloc.push(slice[k]);
            k = k + 1;
        }
        let storage = HeapStorage { alloc, len: n };
        assert(storage@ =~= slice@);
        SharedBytes { storage: Rc::new(storage) }
    }

    pub(crate) fn len(&self) -> (r: usize)
        requires
            self.wf(),
        ensures
            r == self@.len(),
    {
        self.storage.len
    }

    pub(crate) fn capacity(&self) -> (r: usize)
        requires
            self.wf(),
        ensures
            r == self.spec_capacity(),
    {
        self.storage.alloc.len() - REFCOUNT_HEADER_BYTES
    }

    /// Another handle on the same allocation.
    pub(crate) fn share(&self) -> (r: Self)
        ensures
            r == *self,
    {
        SharedBytes { storage: Rc::clone(&self.storage) }
    }

    pub(crate) fn as_slice(&self) -> (r: &[u8])
        requires
            self.wf(),
        ensures
            r@ == self@,
    {
        let s = self.storage.alloc.as_slice();
        slice_subrange(s, REFCOUNT_HEADER_BYTES, REFCOUNT_HEADER_BYTES + self.storage.len)
    }

    pub(crate) fn first_nul_byte(&self) -> (r: Option<usize>)
        requires
            self.wf(),
        ensures
            first_nul_result(self@, r),
    {
        let s = self.storage.alloc.as_slice();
        first_nul_in(s, REFCOUNT_HEADER_BYTES, REFCOUNT_HEADER_BYTES + self.storage.len)
    }
}

} // verus!
