//! Random handshake nonce, behind a trusted wrapper.

use vstd::prelude::*;
use rand::distributions::DistString;

verus! {

/// True iff the byte is an ASCII letter or digit.
pub open spec fn is_alnum_byte(b: u8) -> bool {
    (48 <= b <= 57) || (65 <= b <= 90) || (97 <= b <= 122)
}

/// A well-formed handshake nonce: 16 ASCII alphanumeric bytes.
pub open spec fn is_nonce(s: Seq<u8>) -> bool {
    s.len() == 16 && forall|i: int| 0 <= i < s.len() ==> is_alnum_byte(s[i])
}

/// Relies on rand's `Alphanumeric` distribution: every sampled byte is
/// drawn from a-z, A-Z, 0-9. Nothing else is assumed of the outcome.
#[verifier::external_body]
pub fn gen_nonce() -> (r: Vec<u8>)
    ensures
        is_nonce(r@),
{
    rand::distributions::Alphanumeric
        .sample_string(&mut rand::thread_rng(), 16)
        .into_bytes()
}

} // verus!
