//! The digest the miner searches against.
//!
//! The digest of a candidate is a pure function of its characters: the
//! candidate is encoded as UTF-8 and hashed with SHA-256. The value of
//! that function is far too long to state, so it is given a name,
//! `sha256_of`, and the one trusted wrapper around the hash call promises
//! to return exactly that named value.

use vstd::prelude::*;

verus! {

/// The 32-byte SHA-256 digest of the UTF-8 encoding of `input`.
pub uninterp spec fn sha256_of(input: Seq<char>) -> Seq<u8>;

/// Relies on sha2::Sha256::digest: a 32-byte digest that depends on the
/// hashed bytes alone, here the UTF-8 encoding of `input`.
#[verifier::external_body]
pub(crate) fn sha256_digest(input: &str) -> (r: Vec<u8>)
    ensures
        r@ == sha256_of(input@),
        r@.len() == 32,
{
    <sha2::Sha256 as sha2::Digest>::digest(input.as_bytes()).to_vec()
}

} // verus!
