//! The public string value and its conversion to NUL-terminated bytes.
use std::rc::Rc;
use vstd::prelude::*;
use vstd::slice::slice_subrange;
use vstd::string::StringSliceAdditionalSpecFns;
use vstd::utf8::{decode_utf8, encode_utf8_decode_utf8, encode_utf8_valid_utf8, valid_utf8};

use crate::bytes::{compare_bytes, first_nul_result, is_first_nul, lex_cmp, nul_free, nul_terminated};
use crate::heap::{HeapStorage, SharedBytes, REFCOUNT_HEADER_BYTES};
use crate::small::{SmallString, SMALL_STR_CAPACITY};

verus! {

/// Relies on `core::str::from_utf8`: it succeeds exactly on valid UTF-8 and
/// then views the same bytes as a `str`.
#[verifier::external_body]
fn str_from_utf8(b: &[u8]) -> (r: Option<&str>)
    ensures
        r is Some <==> valid_utf8(b@),
        r matches Some(s) ==> s.spec_bytes() == b@,
{
    core::str::from_utf8(b).ok()
}

/// The text that `{:?}` writes for a string with the characters `s`.
pub uninterp spec fn debug_of(s: Seq<char>) -> Seq<char>;

/// Relies on `str`'s `Debug`, through `format!`: the quoted, escaped text
/// depends on the characters alone.
#[verifier::external_body]
fn str_debug(s: &str) -> (r: String)
    ensures
        r@ == debug_of(s@),
{
    format!("{:?}", s)
}

/// Below this length, a string that cannot be terminated in place is copied
/// into a fixed buffer local to the conversion instead of a fresh allocation.
pub const TEMP_CSTR_MAX_STACK_BYTES: usize = 64;

enum RocStrInner {
    Small(SmallString),
    Heap(SharedBytes),
}

/// An immutable UTF-8 string. Short contents are stored inline; longer ones
/// live in a heap allocation that clones share.
pub struct RocStr {
    inner: RocStrInner,
}

#[derive(Clone, PartialEq, Eq)]
/// A conversion to NUL-terminated bytes met a zero byte inside the string.
/// The string comes back untouched.
pub struct InteriorNulError {
    pub pos: usize,
    pub roc_str: RocStr,
}

/// `t` is what `func` returned when handed the bytes of `s` followed by a
/// zero byte, together with the length of `s`.
pub open spec fn handed_over<T, F: Fn(&[u8], usize) -> T>(func: F, s: Seq<u8>, t: T) -> bool {
    exists|buf: &[u8]|
        buf@ == nul_terminated(s) && #[trigger] func.ensures((buf, s.len() as usize), t)
}

/// What converting a string with content `s` (held inline when `inline`)
/// may return: the consumer's result, when `s` holds no zero byte and the
/// consumer was handed `s` followed by a zero byte; else the position of the
/// first zero byte together with the string, unchanged.
pub open spec fn conversion_outcome<T, F: Fn(&[u8], usize) -> T>(
    func: F,
    s: Seq<u8>,
    inline: bool,
    r: Result<T, InteriorNulError>,
) -> bool {
    match r {
        Ok(t) => nul_free(s) && handed_over(func, s, t),
        Err(e) => {
            &&& is_first_nul(s, e.pos as int)
            &&& e.roc_str@ == s
            &&& e.roc_str.is_inline() == inline
        },
    }
}

/// Calls `func` on `out`, the bytes of `s` followed by a zero byte.
fn hand_over<T, F: Fn(&[u8], usize) -> T>(func: F, out: &[u8], len: usize, Ghost(s): Ghost<Seq<u8>>) -> (t: T)
    requires
        out@ == nul_terminated(s),
        len == s.len(),
        forall|buf: &[u8]|
            buf@ == nul_terminated(s) ==> #[trigger] func.requires((buf, s.len() as usize)),
    ensures
        handed_over(func, s, t),
{
    assert(func.requires((out, s.len() as usize)));
    let t = func(out, len);
    assert(func.ensures((out, s.len() as usize), t));
    t
}

impl RocStr {
    /// The bytes of the string.
    pub closed spec fn view(&self) -> Seq<u8> {
        match self.inner {
            RocStrInner::Small(s) => s@,
            RocStrInner::Heap(h) => h@,
        }
    }

    /// The string is held in the inline form.
    pub closed spec fn is_inline(&self) -> bool {
        self.inner is Small
    }

    /// The bytes the string can hold without a new allocation.
    pub closed spec fn spec_capacity(&self) -> nat {
        match self.inner {
            RocStrInner::Small(_) => SMALL_STR_CAPACITY as nat,
            RocStrInner::Heap(h) => h.spec_capacity(),
        }
    }

    #[verifier::type_invariant]
    closed spec fn inv(&self) -> bool {
        &&& match self.inner {
            RocStrInner::Small(s) => s.wf(),
            RocStrInner::Heap(h) => h.wf(),
        }
        &&& valid_utf8(self@)
    }

    /// The empty string, in the inline form.
    pub fn empty() -> (r: Self)
        ensures
            r@ == Seq::<u8>::empty(),
            r.is_inline(),
    {
        let r = RocStr { inner: RocStrInner::Small(SmallString::empty()) };
        assert(valid_utf8(Seq::<u8>::empty()));
        r
    }

    /// A string holding `slice`: inline when it fits, else in a fresh heap
    /// allocation with no slack.
    pub fn from_slice_unchecked(slice: &[u8]) -> (r: Self)
        requires
            valid_utf8(slice@),
            slice@.len() + REFCOUNT_HEADER_BYTES <= usize::MAX,
        ensures
            r@ == slice@,
            r.is_inline() <==> slice@.len() <= SMALL_STR_CAPACITY,
            !r.is_inline() ==> r.spec_capacity() == slice@.len(),
    {
        match SmallString::try_from_utf8_bytes(slice) {
            Some(small_string) => RocStr { inner: RocStrInner::Small(small_string) },
            None => RocStr { inner: RocStrInner::Heap(SharedBytes::from_slice(slice)) },
        }
    }

    /// Whether the string is held in the inline form, as its tag bit says.
    pub fn is_small_str(&self) -> (r: bool)
        ensures
            r == self.is_inline(),
    {
        proof {
            use_type_invariant(self);
        }
        match &self.inner {
            RocStrInner::Small(s) => s.is_small_str(),
            RocStrInner::Heap(_) => false,
        }
    }

    pub fn capacity(&self) -> (r: usize)
        ensures
            r == self.spec_capacity(),
            self.is_inline() ==> r == SMALL_STR_CAPACITY,
            self@.len() <= r,
    {
        proof {
            use_type_invariant(self);
        }
        match &self.inner {
            RocStrInner::Heap(h) => h.capacity(),
            RocStrInner::Small(_) => SMALL_STR_CAPACITY,
        }
    }

    pub fn len(&self) -> (r: usize)
        ensures
            r == self@.len(),
            r <= self.spec_capacity(),
            self.is_inline() ==> r <= SMALL_STR_CAPACITY,
    {
        proof {
            use_type_invariant(self);
        }
        match &self.inner {
            RocStrInner::Heap(h) => h.len(),
            RocStrInner::Small(s) => s.len(),
        }
    }

    pub fn is_empty(&self) -> (r: bool)
        ensures
            r == (self@.len() == 0),
    {
        self.len() == 0
    }

    /// The bytes of the string, borrowed.
    pub fn as_bytes(&self) -> (r: &[u8])
        ensures
            r@ == self@,
    {
        proof {
            use_type_invariant(self);
        }
        match &self.inner {
            RocStrInner::Heap(h) => h.as_slice(),
            RocStrInner::Small(s) => {
                let n = s.len();
                slice_subrange(s.bytes.as_slice(), 0, n)
            },
        }
    }

    /// The string, borrowed as a `str`.
    pub fn as_str(&self) -> (r: &str)
        ensures
            r.spec_bytes() == self@,
    {
        proof {
            use_type_invariant(self);
        }
        let b = self.as_bytes();
        match str_from_utf8(b) {
            Some(s) => s,
            None => "",
        }
    }

    /// The text that `{:?}` writes for the content, as for a `str`.
    pub fn to_debug_string(&self) -> (r: String)
        ensures
            r@ == debug_of(decode_utf8(self@)),
    {
        let s = self.as_str();
        proof {
            encode_utf8_decode_utf8(s@);
        }
        str_debug(s)
    }

    /// A string holding the UTF-8 bytes of `s`.
    pub fn from_str_slice(s: &str) -> (r: Self)
        requires
            s.spec_bytes().len() + REFCOUNT_HEADER_BYTES <= usize::MAX,
        ensures
            r@ == s.spec_bytes(),
            r.is_inline() <==> s.spec_bytes().len() <= SMALL_STR_CAPACITY,
    {
        proof {
            encode_utf8_valid_utf8(s@);
        }
        Self::from_slice_unchecked(s.as_bytes())
    }

    /// A string holding `bytes`, or `None` when they are not valid UTF-8.
    pub fn from_utf8(bytes: &[u8]) -> (r: Option<Self>)
        requires
            bytes@.len() + REFCOUNT_HEADER_BYTES <= usize::MAX,
        ensures
            r is Some <==> valid_utf8(bytes@),
            r matches Some(s) ==> s@ == bytes@,
    {
        match str_from_utf8(bytes) {
            Some(_) => Some(Self::from_slice_unchecked(bytes)),
            None => None,
        }
    }

    /// The index of the first zero byte, if any.
    pub fn first_nul_byte(&self) -> (r: Option<usize>)
        ensures
            first_nul_result(self@, r),
    {
        proof {
            use_type_invariant(self);
        }
        match &self.inner {
            RocStrInner::Heap(h) => h.first_nul_byte(),
            RocStrInner::Small(s) => s.first_nul_byte(),
        }
    }

    /// Hands `func` the bytes of the string followed by a zero byte, and the
    /// length without that zero, for the duration of one call. Fails with the
    /// position of the first zero byte, and the string itself, when the
    /// contents hold one.
    ///
    /// The inline form is copied next to a terminator in a local buffer.
    /// A heap allocation that this value alone owns is terminated in place:
    /// in its slack if it has any, else after moving the bytes back over the
    /// header region. A shared allocation is left as it is and copied: into a
    /// fixed local buffer below `TEMP_CSTR_MAX_STACK_BYTES` bytes, else into a
    /// fresh allocation that is released on return.
    pub fn temp_c_utf8<T, F: Fn(&[u8], usize) -> T>(self, func: F) -> (r: Result<T, InteriorNulError>)
        requires
            forall|buf: &[u8]|
                buf@ == nul_terminated(self@) ==> #[trigger] func.requires((buf, self@.len() as usize)),
        ensures
            conversion_outcome(func, self@, self.is_inline(), r),
    {
        proof {
            use_type_invariant(&self);
        }
        let ghost content = self@;
        if let Some(pos) = self.first_nul_byte() {
            return Err(InteriorNulError { pos, roc_str: self });
        }
        let len = self.len();
        assert(nul_free(content));
        match self.inner {
            RocStrInner::Small(small) => {
                // The inline bytes plus the slot of the length byte, which
                // takes the terminator.
                let mut buf: [u8; 24] = [0u8; 24];
                let mut i: usize = 0;
                while i < len
                    invariant
                        len == small.spec_len() <= SMALL_STR_CAPACITY,
                        content == small@,
                        i <= len,
                        forall|j: int| 0 <= j < i ==> buf@[j] == small.bytes@[j],
                        forall|j: int| i <= j < 24 ==> buf@[j] == 0,
                    decreases len - i,
                {
                    buf[i] = small.bytes[i];
                    i = i + 1;
                }
                let out = slice_subrange(buf.as_slice(), 0, len + 1);
                assert(out@ =~= nul_terminated(content));
                Ok(hand_over(func, out, len, Ghost(content)))
            },
            RocStrInner::Heap(h) => {
                match Rc::try_unwrap(h.storage) {
                    Ok(mut storage) => {
                        let start = storage.terminate_in_place();
                        let out = slice_subrange(storage.alloc.as_slice(), start, start + len + 1);
                        Ok(hand_over(func, out, len, Ghost(content)))
                    },
                    Err(shared) => {
                        let src = shared.alloc.as_slice();
                        if len == 0 {
                            let nul: [u8; 1] = [0u8; 1];
                            let out = nul.as_slice();
                            assert(out@ =~= nul_terminated(content));
                            Ok(hand_over(func, out, len, Ghost(content)))
                        } else if len < TEMP_CSTR_MAX_STACK_BYTES {
                            let mut buf: [u8; 64] = [0u8; 64];
                            let mut i: usize = 0;
                            while i < len
                                invariant
                                    len < TEMP_CSTR_MAX_STACK_BYTES,
                                    content == (*shared)@,
                                    len == content.len(),
                                    src@ == (*shared).alloc@,
                                    (*shared).wf(),
                                    i <= len,
                                    forall|j: int| 0 <= j < i ==> buf@[j] == content[j],
                                    forall|j: int| i <= j < 64 ==> buf@[j] == 0,
                                decreases len - i,
                            {
                                buf[i] = src[REFCOUNT_HEADER_BYTES + i];
                                i = i + 1;
                            }
                            let out = slice_subrange(buf.as_slice(), 0, len + 1);
                            assert(out@ =~= nul_terminated(content));
                            Ok(hand_over(func, out, len, Ghost(content)))
                        } else {
                            let mut buf: Vec<u8> = Vec::with_capacity(len + 1);
                            let mut i: usize = 0;
                            while i < len
                                invariant
                                    content == (*shared)@,
                                    len == content.len(),
                                    src@ == (*shared).alloc@,
                                    (*shared).wf(),
                                    i <= len,
                                    buf@ == content.subrange(0, i as int),
                                decreases len - i,
                            {
                                buf.push(src[REFCOUNT_HEADER_BYTES + i]);
                                i = i + 1;
                                assert(buf@ =~= content.subrange(0, i as int));
                            }
                            buf.push(0u8);
                            let out = buf.as_slice();
                            assert(out@ =~= nul_terminated(content));
                            Ok(hand_over(func, out, len, Ghost(content)))
                        }
                    },
                }
            },
        }
    }
}

impl Clone for RocStr {
    /// The inline form is copied; the heap form gets another handle on the
    /// same allocation, with no bytes copied.
    fn clone(&self) -> (r: Self)
        ensures
            r@ == self@,
            r.is_inline() == self.is_inline(),
            r.spec_capacity() == self.spec_capacity(),
    {
        proof {
            use_type_invariant(self);
        }
        match &self.inner {
            RocStrInner::Heap(h) => RocStr { inner: RocStrInner::Heap(h.share()) },
            RocStrInner::Small(s) => RocStr { inner: RocStrInner::Small(*s) },
        }
    }
}

impl Default for RocStr {
    fn default() -> (r: Self)
        ensures
            r@ == Seq::<u8>::empty(),
            r.is_inline(),
    {
        Self::empty()
    }
}

impl PartialEq for RocStr {
    /// Equal contents, whatever the form of either side.
    fn eq(&self, other: &Self) -> (r: bool)
        ensures
            r == (self@ == other@),
    {
        let a = self.as_bytes();
        let b = other.as_bytes();
        if a.len() != b.len() {
            return false;
        }
        let mut i: usize = 0;
        while i < a.len()
            invariant
                a@ == self@,
                b@ == other@,
                a@.len() == b@.len(),
                i <= a@.len(),
                forall|j: int| 0 <= j < i ==> a@[j] == b@[j],
            decreases a@.len() - i,
        {
            if a[i] != b[i] {
                return false;
            }
            i = i + 1;
        }
        assert(a@ =~= b@);
        true
    }
}

impl vstd::std_specs::cmp::PartialEqSpecImpl for RocStr {
    open spec fn obeys_eq_spec() -> bool {
        true
    }

    open spec fn eq_spec(&self, other: &RocStr) -> bool {
        self@ == other@
    }
}

impl Eq for RocStr {
}

/// Relies on `str`'s `Hash`: it feeds the string's bytes to the hasher. Nothing
/// is claimed of the hasher's state afterwards.
pub assume_specification<H: core::hash::Hasher>[ <str as core::hash::Hash>::hash::<H> ](
    s: &str,
    state: &mut H,
);

impl core::hash::Hash for RocStr {
    /// Hashes the content as a `str`, so equal strings hash alike.
    fn hash<H: core::hash::Hasher>(&self, state: &mut H) {
        self.as_str().hash(state)
    }
}

impl PartialOrd for RocStr {
    /// Lexicographic by content, whatever the form of either side.
    fn partial_cmp(&self, other: &Self) -> (r: Option<core::cmp::Ordering>)
        ensures
            r == Some(lex_cmp(self@, other@)),
    {
        Some(compare_bytes(self.as_bytes(), other.as_bytes()))
    }
}

impl vstd::std_specs::cmp::PartialOrdSpecImpl for RocStr {
    open spec fn obeys_partial_cmp_spec() -> bool {
        true
    }

    open spec fn partial_cmp_spec(&self, other: &RocStr) -> Option<core::cmp::Ordering> {
        Some(lex_cmp(self@, other@))
    }
}

} // verus!
