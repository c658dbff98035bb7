//! The inline form: up to `SMALL_STR_CAPACITY` bytes stored in the value
//! itself, followed by one byte whose high bit marks the form and whose low
//! seven bits hold the length.
use vstd::prelude::*;

use crate::bytes::{first_nul_in, first_nul_result};

verus! {

/// How many bytes the inline form holds: 23 bytes of content and one
/// length byte make an inline string as wide as three machine words on a
/// 64-bit target.
pub const SMALL_STR_CAPACITY: usize = 23;

/// The bit of the length byte that marks the inline form.
pub const MASK: u8 = 0x80;

#[derive(Clone, Copy)]
pub(crate) struct SmallString {
    pub(crate) bytes: [u8; 23],
    pub(crate) len: u8,
}

impl SmallString {
    /// The length stored in the low seven bits of the length byte.
    pub(crate) open spec fn spec_len(&self) -> nat {
        (self.len & 0x7fu8) as nat
    }

    /// The tag bit is set and the length fits the storage.
    pub(crate) open spec fn wf(&self) -> bool {
        &&& self.len & MASK != 0
        &&& self.spec_len() <= SMALL_STR_CAPACITY
    }

    pub(crate) open spec fn view(&self) -> Seq<u8> {
        self.bytes@.subrange(0, self.spec_len() as int)
    }

    pub(crate) fn empty() -> (r: Self)
        ensures
            r.wf(),
            r@ == Seq::<u8>::empty(),
            r.len == MASK,
            forall|j: int| 0 <= j < SMALL_STR_CAPACITY ==> r.bytes@[j] == 0,
    {
        let r = SmallString { bytes: [0u8; 23], len: MASK };
        assert(MASK & MASK != 0 && MASK & 0x7fu8 == 0) by (bit_vector);
        r
    }

    /// The inline form of `slice`, or `None` when it is too long for it.
    pub(crate) fn try_from_utf8_bytes(slice: &[u8]) -> (r: Option<Self>)
        ensures
            r is Some <==> slice@.len() <= SMALL_STR_CAPACITY,
            r matches Some(s) ==> {
                &&& s.wf()
                &&& s@ == slice@
                &&& s.spec_len() == slice@.len()
                &&& s.len == (slice@.len() as u8 | MASK)
                &&& forall|j: int| slice@.len() <= j < SMALL_STR_CAPACITY ==> s.bytes@[j] == 0
            },
    {
        let n = slice.len();
        if n > SMALL_STR_CAPACITY {
            return None;
        }
        let mut bytes: [u8; 23] = [0u8; 23];
        let mut i: usize = 0;
        while i < n
            invariant
                n == slice@.len() <= SMALL_STR_CAPACITY,
                i <= n,
                forall|j: int| 0 <= j < i ==> bytes@[j] == slice@[j],
                forall|j: int| n <= j < SMALL_STR_CAPACITY ==> bytes@[j] == 0,
            decreases n - i,
        {
            bytes[i] = slice[i];
            i = i + 1;
        }
        let l: u8 = n as u8;
        let len: u8 = l | MASK;
        assert(l <= 23 ==> (l | 0x80u8) & 0x80u8 != 0 && (l | 0x80u8) & 0x7fu8 == l) by (bit_vector);
        let s = SmallString { bytes, len };
        assert(s@ =~= slice@);
        Some(s)
    }

    pub(crate) fn is_small_str(&self) -> (r: bool)
        ensures
            r == (self.len & MASK != 0),
    {
        self.len & MASK != 0
    }

    pub(crate) fn len(&self) -> (r: usize)
        ensures
            r == self.spec_len(),
    {
        (self.len & 0x7fu8) as usize
    }

    /// The index of the first zero byte of the content, if any.
    pub(crate) fn first_nul_byte(&self) -> (r: Option<usize>)
        requires
            self.wf(),
        ensures
            first_nul_result(self@, r),
    {
        let n = self.len();
        first_nul_in(self.bytes.as_slice(), 0, n)
    }
}

} // verus!
