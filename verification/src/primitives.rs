//! Trusted boundary to the cryptographic primitives.
//!
//! The elliptic-curve and signature algorithms are not reimplemented: each
//! function below wraps one call into the `fastcrypto` crate, and what the
//! call returns is either stated directly or given a name that the rest of
//! the library reasons with.  Group elements, scalars, keys and signatures
//! cross this boundary as their canonical byte encodings.

use vstd::prelude::*;

use fastcrypto::ed25519::{Ed25519KeyPair, Ed25519PublicKey, Ed25519Signature};
use fastcrypto::groups::bls12381::{G1Element, Scalar};
use fastcrypto::groups::{GroupElement, HashToGroupElement, Scalar as ScalarTrait};
use fastcrypto::serde_helpers::ToFromByteArray;
use fastcrypto::traits::{KeyPair, Signer, ToFromBytes, VerifyingKey};
use rand::rngs::StdRng;
use rand::SeedableRng;

verus! {

/// Byte length of a serialized scalar.
pub const SCALAR_LENGTH: usize = 32;

/// Byte length of a serialized group element of the first group.
pub const G1_LENGTH: usize = 48;

/// Byte length of a serialized group element of the second group, in which
/// the caller's encryption verification key lives.
pub const G2_LENGTH: usize = 96;

/// Byte length of a session verification key.
pub const ED25519_VK_LENGTH: usize = 32;

/// Byte length of an Ed25519 secret key.
pub const ED25519_SK_LENGTH: usize = 32;

/// Byte length of a session signature.
pub const ED25519_SIG_LENGTH: usize = 64;

/// Whether these bytes are the canonical encoding of a scalar.
pub uninterp spec fn scalar_valid(bytes: Seq<u8>) -> bool;

/// Whether these bytes are the canonical encoding of a group element.
pub uninterp spec fn g1_valid(bytes: Seq<u8>) -> bool;

/// The group element that hashing a byte string onto the curve yields.
pub uninterp spec fn g1_hash_of(msg: Seq<u8>) -> Seq<u8>;

/// The product of a scalar and a group element.
pub uninterp spec fn g1_mul_of(scalar: Seq<u8>, point: Seq<u8>) -> Seq<u8>;

/// The product of a scalar and the group generator.
pub uninterp spec fn g1_gen_mul_of(scalar: Seq<u8>) -> Seq<u8>;

/// The sum of two group elements.
pub uninterp spec fn g1_add_of(a: Seq<u8>, b: Seq<u8>) -> Seq<u8>;

/// The difference of two group elements.
pub uninterp spec fn g1_sub_of(a: Seq<u8>, b: Seq<u8>) -> Seq<u8>;

/// Whether an Ed25519 verification key accepts a signature over a message.
pub uninterp spec fn ed25519_accepts(vk: Seq<u8>, msg: Seq<u8>, sig: Seq<u8>) -> bool;

/// The Ed25519 signature that a secret key yields over a message; signing is
/// deterministic.
pub uninterp spec fn ed25519_signature_of(sk: Seq<u8>, msg: Seq<u8>) -> Seq<u8>;

/// The Ed25519 key pair, as secret and verification key bytes, that the
/// seeded deterministic generator yields.
pub uninterp spec fn ed25519_keypair_from_seed(seed: u64) -> (Seq<u8>, Seq<u8>);

/// Relies on fastcrypto's G1Element::hash_to_group_element and
/// to_byte_array: a total hash onto the curve, returned canonically encoded.
#[verifier::external_body]
pub fn g1_hash(msg: &Vec<u8>) -> (r: Vec<u8>)
    ensures
        r@ == g1_hash_of(msg@),
        r@.len() == G1_LENGTH,
        g1_valid(r@),
{
    G1Element::hash_to_group_element(msg).to_byte_array().to_vec()
}

/// Relies on fastcrypto's Scalar::from_byte_array, G1Element::from_byte_array
/// and the scalar multiplication of G1Element: defined exactly on canonical
/// encodings, the product returned canonically encoded.
#[verifier::external_body]
pub fn g1_mul(scalar: &Vec<u8>, point: &Vec<u8>) -> (r: Option<Vec<u8>>)
    ensures
        r is Some <==> (scalar_valid(scalar@) && g1_valid(point@)),
        r matches Some(v) ==> v@ == g1_mul_of(scalar@, point@)
            && v@.len() == G1_LENGTH && g1_valid(v@),
{
    let s_arr: [u8; 32] = scalar.as_slice().try_into().ok()?;
    let p_arr: [u8; 48] = point.as_slice().try_into().ok()?;
    let s = Scalar::from_byte_array(&s_arr).ok()?;
    let p = G1Element::from_byte_array(&p_arr).ok()?;
    Some((p * s).to_byte_array().to_vec())
}

/// Relies on fastcrypto's G1Element::generator and its scalar
/// multiplication: defined exactly on canonical scalar encodings.
#[verifier::external_body]
pub fn g1_generator_mul(scalar: &Vec<u8>) -> (r: Option<Vec<u8>>)
    ensures
        r is Some <==> scalar_valid(scalar@),
        r matches Some(v) ==> v@ == g1_gen_mul_of(scalar@)
            && v@.len() == G1_LENGTH && g1_valid(v@),
{
    let s_arr: [u8; 32] = scalar.as_slice().try_into().ok()?;
    let s = Scalar::from_byte_array(&s_arr).ok()?;
    Some((G1Element::generator() * s).to_byte_array().to_vec())
}

/// Relies on fastcrypto's group addition of G1Element: defined exactly on
/// canonical encodings.
#[verifier::external_body]
pub fn g1_add(a: &Vec<u8>, b: &Vec<u8>) -> (r: Option<Vec<u8>>)
    ensures
        r is Some <==> (g1_valid(a@) && g1_valid(b@)),
        r matches Some(v) ==> v@ == g1_add_of(a@, b@)
            && v@.len() == G1_LENGTH && g1_valid(v@),
{
    let a_arr: [u8; 48] = a.as_slice().try_into().ok()?;
    let b_arr: [u8; 48] = b.as_slice().try_into().ok()?;
    let pa = G1Element::from_byte_array(&a_arr).ok()?;
    let pb = G1Element::from_byte_array(&b_arr).ok()?;
    Some((pa + pb).to_byte_array().to_vec())
}

/// Relies on fastcrypto's group subtraction of G1Element: defined exactly on
/// canonical encodings.
#[verifier::external_body]
pub fn g1_sub(a: &Vec<u8>, b: &Vec<u8>) -> (r: Option<Vec<u8>>)
    ensures
        r is Some <==> (g1_valid(a@) && g1_valid(b@)),
        r matches Some(v) ==> v@ == g1_sub_of(a@, b@)
            && v@.len() == G1_LENGTH && g1_valid(v@),
{
    let a_arr: [u8; 48] = a.as_slice().try_into().ok()?;
    let b_arr: [u8; 48] = b.as_slice().try_into().ok()?;
    let pa = G1Element::from_byte_array(&a_arr).ok()?;
    let pb = G1Element::from_byte_array(&b_arr).ok()?;
    Some((pa - pb).to_byte_array().to_vec())
}

/// Relies on fastcrypto's Scalar::rand over the thread rng: some canonical
/// scalar; nothing more is promised of a random draw.
#[verifier::external_body]
pub fn random_scalar() -> (r: Vec<u8>)
    ensures
        r@.len() == SCALAR_LENGTH,
        scalar_valid(r@),
{
    Scalar::rand(&mut rand::thread_rng()).to_byte_array().to_vec()
}

/// Relies on fastcrypto's Ed25519PublicKey::verify (ZIP215 rules): a
/// deterministic accept-or-reject on the key, message and signature bytes;
/// bytes that parse as no key or signature verify as nothing.
#[verifier::external_body]
pub fn ed25519_verify(vk: &Vec<u8>, msg: &Vec<u8>, sig: &Vec<u8>) -> (r: bool)
    ensures
        r == ed25519_accepts(vk@, msg@, sig@),
{
    let vk = match Ed25519PublicKey::from_bytes(vk) {
        Ok(k) => k,
        Err(_) => { return false; },
    };
    let sig = match Ed25519Signature::from_bytes(sig) {
        Ok(s) => s,
        Err(_) => { return false; },
    };
    vk.verify(msg, &sig).is_ok()
}

/// Relies on fastcrypto's Ed25519KeyPair signing (RFC 8032, deterministic);
/// the 32-byte secret key is the key pair's private half.
#[verifier::external_body]
pub fn ed25519_sign(sk: &Vec<u8>, msg: &Vec<u8>) -> (r: Option<Vec<u8>>)
    ensures
        r matches Some(v) ==> v@ == ed25519_signature_of(sk@, msg@)
            && v@.len() == ED25519_SIG_LENGTH,
        r is None <==> sk@.len() != ED25519_SK_LENGTH,
{
    let private = fastcrypto::ed25519::Ed25519PrivateKey::from_bytes(sk).ok()?;
    let kp = Ed25519KeyPair::from(private);
    Some(kp.sign(msg).as_ref().to_vec())
}

/// Relies on fastcrypto's Ed25519KeyPair::generate over a seeded StdRng
/// (a fixed, portable generator): the same seed yields the same pair of
/// secret and verification key bytes.
#[verifier::external_body]
pub fn keypair_from_seed(seed: u64) -> (r: (Vec<u8>, Vec<u8>))
    ensures
        (r.0@, r.1@) == ed25519_keypair_from_seed(seed),
        r.0@.len() == ED25519_SK_LENGTH,
        r.1@.len() == ED25519_VK_LENGTH,
{
    let mut rng = StdRng::seed_from_u64(seed);
    let kp = Ed25519KeyPair::generate(&mut rng);
    let vk = kp.public().as_bytes().to_vec();
    let sk = kp.private().as_bytes().to_vec();
    (sk, vk)
}

} // verus!
