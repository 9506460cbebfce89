//! The SHA-1 digest used by the login handshake, behind a trusted wrapper.

use vstd::prelude::*;
use sha1::Digest;

verus! {

/// The SHA-1 digest of a byte sequence. The algorithm itself is not
/// restated here; the digest is a function of the input bytes alone.
pub uninterp spec fn sha1_of(data: Seq<u8>) -> Seq<u8>;

/// Relies on sha1::Sha1 (RustCrypto `Digest`): the 20-byte SHA-1 digest of
/// the input, a pure function of the input bytes.
#[verifier::external_body]
pub fn sha1_hash(data: &[u8]) -> (r: Vec<u8>)
    ensures
        r@ == sha1_of(data@),
        r@.len() == 20,
{
    let mut hasher = sha1::Sha1::new();
    hasher.update(data);
    hasher.finalize().to_vec()
}

} // verus!
