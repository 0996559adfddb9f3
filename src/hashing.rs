//! The hash functions and field arithmetic that the protocol takes from
//! semaphore-rs, ruint and tiny-keccak.
use vstd::prelude::*;

use crate::field::{be_value, field_modulus, is_field_bytes};
use tiny_keccak::Hasher;

verus! {

/// Keccak-256 of the UTF-8 bytes of a text.
pub uninterp spec fn keccak256_text_of(s: Seq<char>) -> Seq<u8>;

/// semaphore-rs's `hash_to_field` of a byte string, as 32 big-endian bytes.
pub uninterp spec fn hash_to_field_of(data: Seq<u8>) -> Seq<u8>;

/// semaphore-rs's nullifier hash for an identity's nullifier secret and an
/// external nullifier, as 32 big-endian bytes.
pub uninterp spec fn nullifier_hash_of(identity_nullifier: Seq<u8>, external_nullifier: Seq<u8>) -> Seq<u8>;

/// Relies on tiny_keccak's `Keccak::v256`: the 32-byte digest of the text's
/// bytes, a function of the text alone.
#[verifier::external_body]
pub(crate) fn keccak256_text(s: &str) -> (r: Vec<u8>)
    ensures
        r@ == keccak256_text_of(s@),
        r@.len() == 32,
{
    let mut hasher = tiny_keccak::Keccak::v256();
    let mut out = [0u8; 32];
    hasher.update(s.as_bytes());
    hasher.finalize(&mut out);
    out.to_vec()
}

/// Relies on semaphore_rs::hash_to_field: Keccak-256 of the data shifted
/// right by one byte, so the top byte of the result is zero.
#[verifier::external_body]
pub(crate) fn hash_to_field(data: &Vec<u8>) -> (r: Vec<u8>)
    ensures
        r@ == hash_to_field_of(data@),
        r@.len() == 32,
        r@[0] == 0,
{
    semaphore_rs::hash_to_field(data).to_be_bytes::<32>().to_vec()
}

/// Relies on semaphore_rs::protocol::generate_nullifier_hash, the Poseidon
/// hash of the external nullifier and the identity's nullifier secret (the
/// trapdoor is not read). Both hashed values must be field elements, or the
/// Poseidon conversion panics; the result comes out of `into_bigint`, so it
/// is below the modulus.
#[verifier::external_body]
pub(crate) fn generate_nullifier_hash(trapdoor: &Vec<u8>, nullifier: &Vec<u8>, external_nullifier: &Vec<u8>) -> (r: Vec<u8>)
    requires
        trapdoor@.len() == 32,
        is_field_bytes(nullifier@),
        is_field_bytes(external_nullifier@),
    ensures
        r@ == nullifier_hash_of(nullifier@, external_nullifier@),
        is_field_bytes(r@),
{
    let identity = semaphore_rs::identity::Identity {
        trapdoor: semaphore_rs::Field::from_be_slice(trapdoor),
        nullifier: semaphore_rs::Field::from_be_slice(nullifier),
    };
    let ext = semaphore_rs::Field::from_be_slice(external_nullifier);
    semaphore_rs::protocol::generate_nullifier_hash(&identity, ext).to_be_bytes::<32>().to_vec()
}

/// Relies on ruint's `%` on 256-bit integers, by semaphore_rs::MODULUS: the
/// remainder of the 32-byte big-endian value.
#[verifier::external_body]
pub(crate) fn reduce_to_field(b: &Vec<u8>) -> (r: Vec<u8>)
    requires
        b@.len() == 32,
    ensures
        r@.len() == 32,
        be_value(r@) == be_value(b@) % field_modulus(),
{
    (semaphore_rs::Field::from_be_slice(b) % semaphore_rs::MODULUS).to_be_bytes::<32>().to_vec()
}

} // verus!
