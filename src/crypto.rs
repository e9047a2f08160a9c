//! Signature verification and the four hash functions, taken from the
//! `bitcoin` crate and its `secp256k1` and `bitcoin_hashes` dependencies.
use vstd::prelude::*;

verus! {

/// Whether `sig` is a valid DER-encoded ECDSA signature of the 32-byte
/// digest `msg` under the serialized public key `key`.
pub uninterp spec fn sig_valid(key: Seq<u8>, msg: Seq<u8>, sig: Seq<u8>) -> bool;

/// SHA-256 of a byte string.
pub uninterp spec fn sha256_of(b: Seq<u8>) -> Seq<u8>;

/// Double SHA-256 of a byte string.
pub uninterp spec fn sha256d_of(b: Seq<u8>) -> Seq<u8>;

/// RIPEMD-160 of a byte string.
pub uninterp spec fn ripemd160_of(b: Seq<u8>) -> Seq<u8>;

/// RIPEMD-160 of the SHA-256 of a byte string.
pub uninterp spec fn hash160_of(b: Seq<u8>) -> Seq<u8>;

/// Relies on secp256k1's `PublicKey::from_slice`, `ecdsa::Signature::from_der`,
/// `Message::from_digest_slice` and `verify_ecdsa`: a result that depends on
/// the three byte strings alone; bytes that do not parse never verify.
#[verifier::external_body]
pub(crate) fn check_signature(key: &Vec<u8>, msg: &Vec<u8>, sig: &Vec<u8>) -> (r: bool)
    ensures
        r == sig_valid(key@, msg@, sig@),
{
    let secp = bitcoin::secp256k1::Secp256k1::verification_only();
    match (
        bitcoin::secp256k1::PublicKey::from_slice(key),
        bitcoin::secp256k1::ecdsa::Signature::from_der(sig),
        bitcoin::secp256k1::Message::from_digest_slice(msg),
    ) {
        (Ok(k), Ok(s), Ok(m)) => secp.verify_ecdsa(&m, &s, &k).is_ok(),
        _ => false,
    }
}

/// Relies on `bitcoin_hashes::sha256::Hash::hash`: a 32-byte digest.
#[verifier::external_body]
pub(crate) fn sha256(b: &Vec<u8>) -> (r: Vec<u8>)
    ensures
        r@ == sha256_of(b@),
        r@.len() == 32,
{
    let h = <bitcoin::hashes::sha256::Hash as bitcoin::hashes::Hash>::hash(b);
    bitcoin::hashes::Hash::to_byte_array(h).to_vec()
}

/// Relies on `bitcoin_hashes::sha256d::Hash::hash`: a 32-byte digest.
#[verifier::external_body]
pub(crate) fn sha256d(b: &Vec<u8>) -> (r: Vec<u8>)
    ensures
        r@ == sha256d_of(b@),
        r@.len() == 32,
{
    let h = <bitcoin::hashes::sha256d::Hash as bitcoin::hashes::Hash>::hash(b);
    bitcoin::hashes::Hash::to_byte_array(h).to_vec()
}

/// Relies on `bitcoin_hashes::ripemd160::Hash::hash`: a 20-byte digest.
#[verifier::external_body]
pub(crate) fn ripemd160(b: &Vec<u8>) -> (r: Vec<u8>)
    ensures
        r@ == ripemd160_of(b@),
        r@.len() == 20,
{
    let h = <bitcoin::hashes::ripemd160::Hash as bitcoin::hashes::Hash>::hash(b);
    bitcoin::hashes::Hash::to_byte_array(h).to_vec()
}

/// Relies on `bitcoin_hashes::hash160::Hash::hash`: a 20-byte digest.
#[verifier::external_body]
pub(crate) fn hash160(b: &Vec<u8>) -> (r: Vec<u8>)
    ensures
        r@ == hash160_of(b@),
        r@.len() == 20,
{
    let h = <bitcoin::hashes::hash160::Hash as bitcoin::hashes::Hash>::hash(b);
    bitcoin::hashes::Hash::to_byte_array(h).to_vec()
}

} // verus!
