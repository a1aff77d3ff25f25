//! Identity-based key derivation and ElGamal re-encryption.
//!
//! A decryption key for an identity is the master scalar times the hash of
//! the identity onto the curve — a pure function of the two, so the same
//! master key and identity always yield the same secret.  Each derived
//! secret is re-encrypted under the caller's ephemeral public key with
//! one-time randomness, so only the caller can recover it.

use vstd::prelude::*;

use crate::errors::InternalError;
use crate::primitives::{
    g1_add, g1_generator_mul, g1_hash, g1_mul, g1_sub, g1_add_of, g1_gen_mul_of, g1_hash_of,
    g1_mul_of, g1_sub_of, g1_valid, random_scalar, scalar_valid, G1_LENGTH,
};

verus! {

/// The derived secret for an identity: the master scalar times the hash of
/// the identity onto the curve.
pub open spec fn ibe_secret_of(master: Seq<u8>, id: Seq<u8>) -> Seq<u8> {
    g1_mul_of(master, g1_hash_of(id))
}

/// An ElGamal ciphertext: the nonce commitment and the masked message.
pub struct Ciphertext {
    pub c1: Vec<u8>,
    pub c2: Vec<u8>,
}

/// The ciphertext that a given nonce, message and public key determine.
pub open spec fn elgamal_encryption_of(nonce: Seq<u8>, msg: Seq<u8>, pk: Seq<u8>) -> (Seq<u8>, Seq<u8>) {
    (g1_gen_mul_of(nonce), g1_add_of(g1_mul_of(nonce, pk), msg))
}

/// Derives the decryption key for one identity from the master key.
/// Succeeds exactly when the master key is a canonical scalar.
pub fn ibe_extract(master: &Vec<u8>, id: &Vec<u8>) -> (r: Option<Vec<u8>>)
    ensures
        r is Some <==> scalar_valid(master@),
        r matches Some(v) ==> v@ == ibe_secret_of(master@, id@)
            && v@.len() == G1_LENGTH && g1_valid(v@),
{
    let h = g1_hash(id);
    g1_mul(master, &h)
}

/// Encrypts a group element under an ElGamal public key with the given
/// nonce.  Succeeds exactly when the nonce is a canonical scalar and the
/// public key and message are canonical group elements.
pub fn elgamal_encrypt(nonce: &Vec<u8>, msg: &Vec<u8>, pk: &Vec<u8>) -> (r: Option<Ciphertext>)
    ensures
        r is Some <==> (scalar_valid(nonce@) && g1_valid(pk@) && g1_valid(msg@)),
        r matches Some(ct) ==> (ct.c1@, ct.c2@) == elgamal_encryption_of(nonce@, msg@, pk@)
            && ct.c1@.len() == G1_LENGTH && ct.c2@.len() == G1_LENGTH,
{
    let c1 = match g1_generator_mul(nonce) {
        Some(v) => v,
        None => { return None; },
    };
    let shared = match g1_mul(nonce, pk) {
        Some(v) => v,
        None => { return None; },
    };
    let c2 = match g1_add(&shared, msg) {
        Some(v) => v,
        None => { return None; },
    };
    Some(Ciphertext { c1, c2 })
}

/// Encrypts a group element under an ElGamal public key with fresh one-time
/// randomness.  Succeeds exactly when the public key and message are
/// canonical group elements.
pub fn elgamal_encrypt_fresh(msg: &Vec<u8>, pk: &Vec<u8>) -> (r: Option<Ciphertext>)
    ensures
        r is Some <==> (g1_valid(pk@) && g1_valid(msg@)),
        r matches Some(ct) ==> (exists|nonce: Seq<u8>|
            #![auto]
            scalar_valid(nonce) && (ct.c1@, ct.c2@) == elgamal_encryption_of(nonce, msg@, pk@))
            && ct.c1@.len() == G1_LENGTH && ct.c2@.len() == G1_LENGTH,
{
    let nonce = random_scalar();
    elgamal_encrypt(&nonce, msg, pk)
}

/// Decrypts an ElGamal ciphertext with the matching secret key: the masked
/// message minus the shared point.  Succeeds exactly when the secret key is
/// a canonical scalar and both ciphertext halves are canonical group
/// elements.
pub fn elgamal_decrypt(sk: &Vec<u8>, c1: &Vec<u8>, c2: &Vec<u8>) -> (r: Result<Vec<u8>, InternalError>)
    ensures
        r is Ok <==> (scalar_valid(sk@) && g1_valid(c1@) && g1_valid(c2@)),
        r matches Ok(v) ==> v@ == g1_sub_of(c2@, g1_mul_of(sk@, c1@)),
        r matches Err(e) ==> e == InternalError::DecryptionError,
{
    let shared = match g1_mul(sk, c1) {
        Some(v) => v,
        None => { return Err(InternalError::DecryptionError); },
    };
    match g1_sub(c2, &shared) {
        Some(v) => Ok(v),
        None => Err(InternalError::DecryptionError),
    }
}

/// The derived secret is a function of the master key and the identity
/// alone: any two derivations from the same pair are byte-identical.
pub proof fn lemma_derivation_deterministic(master: Seq<u8>, id: Seq<u8>, r1: Seq<u8>, r2: Seq<u8>)
    requires
        r1 == ibe_secret_of(master, id),
        r2 == ibe_secret_of(master, id),
    ensures
        r1 == r2,
{
}

} // verus!
