//! The digest algorithm selector.
//!
//! The search itself is algorithm-agnostic: only the digest length, and
//! with it the ceiling on the pattern's length, varies with the selected
//! family. The digest computed by this library is SHA-256; the selector
//! exists so a caller can size the pattern ceiling for the family it
//! asked for.

use vstd::prelude::*;

verus! {

/// The digest family a caller selected.
#[derive(Clone, Copy, PartialEq, Eq, Structural, Debug)]
pub enum HashingProtocol {
    Sha256,
    Md5,
}

impl HashingProtocol {
    /// The length of this family's digest in hexadecimal digits, twice
    /// its length in bytes.
    pub open spec fn spec_digest_hex_len(&self) -> nat {
        match self {
            HashingProtocol::Sha256 => 64,
            HashingProtocol::Md5 => 32,
        }
    }

    /// The length of this family's digest in hexadecimal digits.
    pub fn digest_hex_len(&self) -> (n: usize)
        ensures
            n == self.spec_digest_hex_len(),
    {
        match self {
            HashingProtocol::Sha256 => 64,
            HashingProtocol::Md5 => 32,
        }
    }

    /// The family's conventional lowercase name.
    pub fn name(&self) -> (s: &'static str)
        ensures
            self is Sha256 ==> s@ == "sha256"@,
            self is Md5 ==> s@ == "md5"@,
    {
        match self {
            HashingProtocol::Sha256 => "sha256",
            HashingProtocol::Md5 => "md5",
        }
    }
}

} // verus!
