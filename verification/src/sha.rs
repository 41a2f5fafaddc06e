//! Trusted boundary to the SHA-256 digest of the `crypto` crate.

use vstd::prelude::*;

verus! {

/// The lowercase-hexadecimal SHA-256 digest of a string's characters. The
/// digest is a pure function of its input; its value is not modelled here.
pub uninterp spec fn sha256_hex_of(input: Seq<char>) -> Seq<char>;

/// Relies on `crypto::sha2::Sha256` through `Digest::input_str` and
/// `Digest::result_str`: the SHA-256 digest of the input's UTF-8 bytes,
/// rendered as 64 hexadecimal characters, a deterministic function of the
/// input alone.
#[verifier::external_body]
pub(crate) fn sha256_hex(input: &str) -> (r: String)
    ensures
        r@ == sha256_hex_of(input@),
        r@.len() == 64,
{
    let mut sha = crypto::sha2::Sha256::new();
    crypto::digest::Digest::input_str(&mut sha, input);
    crypto::digest::Digest::result_str(&mut sha)
}

} // verus!
