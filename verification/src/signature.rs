//! The signature that a device returns.

use vstd::prelude::*;
use crate::error::Error;

verus! {

/// Length of the response that ends a signing operation.
pub const SIGNATURE_RESPONSE_SIZE: usize = 65;

/// An ECDSA signature with its recovery id.
#[derive(Debug, Clone, Copy, PartialEq, Eq)]
pub struct Signature {
    /// The recovery id, 0 or 1.
    pub v: u8,
    /// The R component.
    pub r: [u8; 32],
    /// The S component.
    pub s: [u8; 32],
}

/// What a signature is: the recovery id and the two components as bytes.
pub struct SignatureView {
    pub v: u8,
    pub r: Seq<u8>,
    pub s: Seq<u8>,
}

impl View for Signature {
    type V = SignatureView;

    open spec fn view(&self) -> SignatureView {
        SignatureView { v: self.v, r: self.r@, s: self.s@ }
    }
}

impl Signature {
    /// Puts a signature together from its components.
    pub fn from_rsv(r: &[u8; 32], s: &[u8; 32], v: u8) -> (signature: Signature)
        ensures
            signature == (Signature { v, r: *r, s: *s }),
    {
        Signature { v, r: *r, s: *s }
    }
}

/// The recovery id that the library reports for the one the device sent.
pub open spec fn spec_corrected_v(raw: u8) -> u8 {
    ((raw + 1) % 2) as u8
}

/// Copies 32 bytes of `source`, from `start` on, into an array.
fn copy_32(source: &[u8], start: usize) -> (out: [u8; 32])
    requires
        start + 32 <= source@.len(),
    ensures
        out@ == source@.subrange(start as int, start + 32),
{
    let len = source.len();
    let mut out = [0u8;32];
    let mut i: usize = 0;
    while i < 32
        invariant
            i <= 32,
            start + 32 <= len == source@.len(),
            forall|j: int| 0 <= j < i ==> out@[j] == source@[start + j],
        decreases 32 - i,
    {
        out[i] = source[start + i];
        i += 1;
    }
    assert(out@ =~= source@.subrange(start as int, start + 32));
    out
}

/// What the response that ends a signing operation yields: one byte of
/// recovery id, which is corrected, 32 bytes of R, 32 bytes of S. A response
/// of any other length is a protocol error.
pub open spec fn spec_parse_signature(response: Seq<u8>) -> Result<SignatureView, Error> {
    if response.len() != SIGNATURE_RESPONSE_SIZE {
        Err(Error::Protocol("Signature packet size mismatch"))
    } else {
        Ok(
            SignatureView {
                v: spec_corrected_v(response[0]),
                r: response.subrange(1, 33),
                s: response.subrange(33, 65),
            },
        )
    }
}

/// Reads the response that ends a signing operation.
pub fn parse_signature(response: &[u8]) -> (outcome: Result<Signature, Error>)
    ensures
        match spec_parse_signature(response@) {
            Ok(view) => outcome matches Ok(signature) && signature@ == view,
            Err(error) => outcome == Err::<Signature, Error>(error),
        },
{
    if response.len() != SIGNATURE_RESPONSE_SIZE {
        return Err(Error::Protocol("Signature packet size mismatch"));
    }
    let v: u8 = ((response[0] as u16 + 1) % 2) as u8;
    let r = copy_32(response, 1);
    let s = copy_32(response, 33);
    Ok(Signature::from_rsv(&r, &s, v))
}

/// The corrected recovery id swaps 0 and 1, and is always 0 or 1.
pub proof fn lemma_corrected_v(raw: u8)
    ensures
        raw == 0 ==> spec_corrected_v(raw) == 1,
        raw == 1 ==> spec_corrected_v(raw) == 0,
        spec_corrected_v(raw) == 0 || spec_corrected_v(raw) == 1,
        spec_corrected_v(raw) == 1 <==> raw % 2 == 0,
{
}

} // verus!
