//! What is assumed of constant-time comparison and of zeroing. Every function here
//! calls into `subtle` or `zeroize`; its contract is believed, not proved.

use subtle::ConstantTimeEq;
use zeroize::Zeroize;
use vstd::prelude::*;

verus! {

/// Compares two byte strings with `subtle`'s `ct_eq` for slices, which says
/// `1` exactly when the lengths and all bytes agree.
#[verifier::external_body]
pub(crate) fn ct_eq_bytes(a: &[u8], b: &[u8]) -> (r: bool)
    ensures
        r == (a@ == b@),
{
    bool::from(a.ct_eq(b))
}

/// Compares two lengths with `subtle`'s `ct_eq` for `usize`, which says `1`
/// exactly when the two numbers are the same.
#[verifier::external_body]
pub(crate) fn ct_eq_usize(a: usize, b: usize) -> (r: bool)
    ensures
        r == (a == b),
{
    bool::from(a.ct_eq(&b))
}

/// Overwrites a vector with `zeroize`, which zeroes the elements and the spare
/// capacity and then clears the vector, leaving it empty.
#[verifier::external_body]
pub(crate) fn wipe_vec(buf: &mut Vec<u8>)
    ensures
        final(buf)@ == Seq::<u8>::empty(),
{
    buf.zeroize()
}

/// Overwrites an array with `zeroize`, which sets every element to zero.
#[verifier::external_body]
pub(crate) fn wipe_array<const N: usize>(buf: &mut [u8; N])
    ensures
        forall|i: int| 0 <= i < N ==> #[trigger] final(buf)@[i] == 0u8,
{
    buf.zeroize()
}

} // verus!
