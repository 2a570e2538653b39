//! Trusted boundary to the outside cryptography crates.  Each item here
//! wraps one call whose result Verus cannot compute; its contract states
//! only what the crate's own source and documentation show.

use vstd::prelude::*;

use sha2::Digest;
use bech32::FromBase32;
use bech32::ToBase32;
use k256::ecdsa::signature::hazmat::PrehashVerifier;

verus! {

/// The SHA-256 digest of a byte string; a function of the input alone.
pub uninterp spec fn spec_sha256(data: Seq<u8>) -> Seq<u8>;

/// Relies on sha2's `Sha256`: the digest depends on the input alone and
/// is always 32 bytes.
#[verifier::external_body]
pub(crate) fn sha256(data: &[u8]) -> (r: Vec<u8>)
    ensures
        r@ == spec_sha256(data@),
        r@.len() == 32,
{
    sha2::Sha256::digest(data).to_vec()
}

/// What bech32 decoding of a string yields: the lowercase human-readable
/// part and the 8-bit payload regrouped from the data characters, or
/// `None` when the string is no well-formed bech32 (bad characters, bad
/// checksum, bad padding).  A function of the input alone.
pub uninterp spec fn spec_bech32_decode(s: Seq<char>) -> Option<(Seq<char>, Seq<u8>)>;

/// Relies on bech32's `decode` and `Vec::<u8>::from_base32`: together
/// they either reject the string or yield its human-readable part and
/// its data bytes, depending on the input alone.
#[verifier::external_body]
pub(crate) fn bech32_decode(s: &str) -> (r: Option<(String, Vec<u8>)>)
    ensures
        match (r, spec_bech32_decode(s@)) {
            (Some(p), Some(q)) => p.0@ == q.0 && p.1@ == q.1,
            (None, None) => true,
            _ => false,
        },
{
    let (hrp, data, _variant) = match bech32::decode(s) {
        Ok(v) => v,
        Err(_) => return None,
    };
    match <Vec<u8> as FromBase32>::from_base32(&data) {
        Ok(bytes) => Some((hrp, bytes)),
        Err(_) => None,
    }
}

/// What bech32 encoding of a human-readable part and payload bytes
/// yields, or `None` when the human-readable part is rejected.  A
/// function of the inputs alone.
pub uninterp spec fn spec_bech32_encode(hrp: Seq<char>, data: Seq<u8>) -> Option<Seq<char>>;

/// Relies on bech32's `encode` with the classic checksum variant and
/// `ToBase32`: the encoding depends on the inputs alone, and fails only
/// on a malformed human-readable part.
#[verifier::external_body]
pub(crate) fn bech32_encode(hrp: &str, data: &[u8]) -> (r: Option<String>)
    ensures
        match (r, spec_bech32_encode(hrp@, data@)) {
            (Some(s), Some(q)) => s@ == q,
            (None, None) => true,
            _ => false,
        },
{
    bech32::encode(hrp, data.to_base32(), bech32::Variant::Bech32).ok()
}

/// Whether 64 bytes form a well-formed (r, s) signature pair on the
/// secp256k1 curve; a function of the bytes alone.
pub uninterp spec fn spec_rs_signature_ok(rs: Seq<u8>) -> bool;

/// Whether bytes form a well-formed SEC1-encoded secp256k1 public key;
/// a function of the bytes alone.
pub uninterp spec fn spec_sec1_pubkey_ok(pk: Seq<u8>) -> bool;

/// Whether the given (r, s) signature verifies for the given public key
/// over the given pre-hashed digest; a function of the inputs alone.
pub uninterp spec fn spec_ecdsa_verifies(pk: Seq<u8>, digest: Seq<u8>, rs: Seq<u8>) -> bool;

/// The stage of an ECDSA check that failed.
#[derive(Debug, Clone, Copy, PartialEq, Eq, Structural)]
pub enum SigFailure {
    BadSignatureBytes,
    BadPubkey,
    VerifyFailed,
}

/// Relies on k256's `Signature::from_slice`,
/// `VerifyingKey::from_sec1_bytes` and `verify_prehash`: each outcome
/// depends on the byte inputs alone, and the three checks run in this
/// order.
#[verifier::external_body]
pub(crate) fn ecdsa_verify_prehash(pk: &[u8], digest: &[u8], rs: &[u8]) -> (r: Result<(), SigFailure>)
    ensures
        r matches Err(SigFailure::BadSignatureBytes) <==> !spec_rs_signature_ok(rs@),
        spec_rs_signature_ok(rs@) ==> ((r matches Err(SigFailure::BadPubkey)) <==> !spec_sec1_pubkey_ok(pk@)),
        (spec_rs_signature_ok(rs@) && spec_sec1_pubkey_ok(pk@)) ==> ((r is Ok) <==> spec_ecdsa_verifies(pk@, digest@, rs@)),
{
    let signature = match k256::ecdsa::Signature::from_slice(rs) {
        Ok(s) => s,
        Err(_) => return Err(SigFailure::BadSignatureBytes),
    };
    let verifying_key = match k256::ecdsa::VerifyingKey::from_sec1_bytes(pk) {
        Ok(k) => k,
        Err(_) => return Err(SigFailure::BadPubkey),
    };
    match verifying_key.verify_prehash(digest, &signature) {
        Ok(()) => Ok(()),
        Err(_) => Err(SigFailure::VerifyFailed),
    }
}

} // verus!
