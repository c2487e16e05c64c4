//! Normalization of raw peer identity bytes to the canonical whitelist key:
//! the lower-case hex encoding of the compressed public key. Whether a byte
//! string is a well-formed public key, and what its canonical encoding is,
//! are decided by the secp256k1 library; both depend on the bytes alone.

use vstd::prelude::*;

verus! {

/// Whether `b` encodes a well-formed secp256k1 public key, exactly as
/// `secp256k1::PublicKey::from_slice` accepts it.
pub uninterp spec fn pubkey_valid(b: Seq<u8>) -> bool;

/// The canonical identity of a well-formed public key encoding: the
/// lower-case hex of its compressed serialization, exactly as secp256k1
/// renders it.
pub uninterp spec fn pubkey_hex(b: Seq<u8>) -> Seq<char>;

/// Relies on `secp256k1::PublicKey::from_slice`, which succeeds exactly on
/// byte strings encoding a curve point (33-byte compressed or 65-byte
/// uncompressed), and on `secp256k1::PublicKey`'s `Display`, which renders
/// the lower-case hex of the compressed serialization. Both results are
/// functions of the input bytes alone.
#[verifier::external_body]
pub(crate) fn normalize_peer_identity(b: &[u8]) -> (r: Option<String>)
    ensures
        r is Some <==> pubkey_valid(b@),
        r matches Some(s) ==> s@ == pubkey_hex(b@),
{
    match secp256k1::PublicKey::from_slice(b) {
        Ok(pk) => Some(pk.to_string()),
        Err(_) => None,
    }
}

} // verus!
