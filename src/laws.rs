//! Properties that relate several operations of the string value.
use vstd::prelude::*;
use vstd::string::StringSliceAdditionalSpecFns;
use vstd::utf8::encode_utf8_decode_utf8;

use crate::bytes::{is_first_nul, nul_terminated};
use crate::roc_str::{conversion_outcome, handed_over, InteriorNulError};

verus! {

/// A string built from `s` and read back with `as_str` is `s` again:
/// construction keeps the UTF-8 bytes of `s`, `as_str` views exactly the
/// stored bytes, and two strings with the same UTF-8 bytes are equal.
pub proof fn lemma_round_trip(s: &str, t: &str)
    requires
        t.spec_bytes() == s.spec_bytes(),
    ensures
        t@ == s@,
{
    encode_utf8_decode_utf8(s@);
    encode_utf8_decode_utf8(t@);
}

/// Converting a string whose first zero byte sits at `p` fails, reports `p`,
/// and gives back a string with the same contents and form.
pub proof fn lemma_interior_nul_reported<T, F: Fn(&[u8], usize) -> T>(
    func: F,
    s: Seq<u8>,
    inline: bool,
    p: int,
    r: Result<T, InteriorNulError>,
)
    requires
        is_first_nul(s, p),
        conversion_outcome(func, s, inline, r),
    ensures
        r matches Err(e) && e.pos == p && e.roc_str@ == s && e.roc_str.is_inline() == inline,
{
    if let Err(e) = r {
        if e.pos < p {
        } else if e.pos > p {
            assert(s[p] != 0);
        }
    }
}

/// Two strings with the same contents, in any form and with any sharing,
/// hand the consumer the same bytes: the contents, then a zero byte at the
/// index given as the length.
pub proof fn lemma_conversion_depends_on_content<T, F: Fn(&[u8], usize) -> T>(
    func: F,
    a: Seq<u8>,
    a_inline: bool,
    ra: Result<T, InteriorNulError>,
    b: Seq<u8>,
    b_inline: bool,
    rb: Result<T, InteriorNulError>,
)
    requires
        a == b,
        conversion_outcome(func, a, a_inline, ra),
        conversion_outcome(func, b, b_inline, rb),
    ensures
        ra is Ok <==> rb is Ok,
        (ra is Ok && rb is Ok) ==> exists|buf_a: &[u8], buf_b: &[u8]|
            {
                &&& #[trigger] func.ensures((buf_a, a.len() as usize), ra->Ok_0)
                &&& #[trigger] func.ensures((buf_b, b.len() as usize), rb->Ok_0)
                &&& buf_a@ == buf_b@
                &&& buf_a@.len() == a.len() + 1
                &&& buf_a@[a.len() as int] == 0
                &&& buf_a@.subrange(0, a.len() as int) == a
            },
{
    if let (Ok(ta), Ok(tb)) = (ra, rb) {
        let buf_a = choose|buf: &[u8]|
            buf@ == nul_terminated(a) && #[trigger] func.ensures((buf, a.len() as usize), ta);
        let buf_b = choose|buf: &[u8]|
            buf@ == nul_terminated(b) && #[trigger] func.ensures((buf, b.len() as usize), tb);
        assert(buf_a@.subrange(0, a.len() as int) =~= a);
    }
    if let Err(e) = ra {
        lemma_interior_nul_reported(func, b, b_inline, e.pos as int, rb);
    }
    if let Err(e) = rb {
        lemma_interior_nul_reported(func, a, a_inline, e.pos as int, ra);
    }
}

} // verus!
