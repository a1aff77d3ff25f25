//! End-to-end tests of the key-issuance request pipeline.

use citadel::errors::InternalError;
use citadel::ibe::elgamal_decrypt;
use citadel::ibe::ibe_extract;
use citadel::keys::{
    check_certificate, evaluate_policy, resolve_namespace, Certificate, DryRunOutcome,
    RequestInput, RequestState,
};
use citadel::primitives::{ed25519_sign, g1_generator_mul, keypair_from_seed, random_scalar};
use citadel::signed_message::signed_request;
use citadel::ALLOWED_STALENESS_MS;

const NOW: u64 = 1_700_000_000_000;

fn uleb(mut n: u32) -> Vec<u8> {
    let mut v = Vec::new();
    loop {
        if n < 128 {
            v.push(n as u8);
            return v;
        }
        v.push(128 + (n % 128) as u8);
        n /= 128;
    }
}

fn build_ptb_bytes(pkg: &[u8; 32], identities: &[Vec<u8>]) -> Vec<u8> {
    let mut out = Vec::new();
    out.extend_from_slice(&uleb(identities.len() as u32));
    for input in identities {
        out.push(0);
        out.extend_from_slice(&uleb(input.len() as u32));
        out.extend_from_slice(input);
    }
    out.extend_from_slice(&uleb(1));
    out.push(0);
    out.extend_from_slice(pkg);
    let module = b"policy";
    let function = b"seal_approve_read";
    out.extend_from_slice(&uleb(module.len() as u32));
    out.extend_from_slice(module);
    out.extend_from_slice(&uleb(function.len() as u32));
    out.extend_from_slice(function);
    out.push(0);
    out.extend_from_slice(&uleb(identities.len() as u32));
    for (i, _) in identities.iter().enumerate() {
        out.push(1);
        out.push((i % 256) as u8);
        out.push((i / 256) as u8);
    }
    out
}

struct Fixture {
    input: RequestInput,
    ptb_bytes: Vec<u8>,
    session_sk: Vec<u8>,
    enc_sk: Vec<u8>,
    pkg: Vec<u8>,
    identities: Vec<Vec<u8>>,
}

fn make_request(ttl_min: u16, creation_time: u64) -> Fixture {
    let pkg = [7u8; 32];
    let identities = vec![vec![1u8; 32], vec![2u8; 32]];
    let ptb_bytes = build_ptb_bytes(&pkg, &identities);
    let ptb_b64 = citadel::encoding::encode_base64(&ptb_bytes);

    let (session_sk, session_vk) = keypair_from_seed(11);
    let enc_sk = random_scalar();
    let enc_key = g1_generator_mul(&enc_sk).expect("canonical scalar");
    let enc_verification_key = vec![3u8; 96];

    let msg = signed_request(&ptb_bytes, &enc_key, &enc_verification_key);
    let request_signature = ed25519_sign(&session_sk, &msg).expect("proper key width");

    let certificate = Certificate {
        user: vec![9u8; 32],
        session_vk,
        creation_time,
        ttl_min,
        signature: vec![0u8; 97],
    };
    Fixture {
        input: RequestInput {
            ptb_b64,
            enc_key,
            enc_verification_key,
            request_signature,
            certificate,
        },
        ptb_bytes,
        session_sk,
        enc_sk,
        pkg: pkg.to_vec(),
        identities,
    }
}

fn run_to_keys(fx: Fixture, master: &Vec<u8>) -> RequestState {
    let first = vec![5u8; 32];
    let state = RequestState::start(fx.input);
    let state = state.step_freshness(NOW, NOW, ALLOWED_STALENESS_MS);
    let state = state.step_shape();
    let state = state.step_version(&first, &fx.pkg);
    let state = state.step_signatures(NOW, true);
    let state = state.step_policy(DryRunOutcome::Success);
    state.step_issue(master)
}

#[test]
fn end_to_end_issues_one_key_per_identity_in_order() {
    let master = random_scalar();
    let fx = make_request(5, NOW);
    let enc_sk = fx.enc_sk.clone();
    let identities = fx.identities.clone();
    let state = run_to_keys(fx, &master);
    let response = match state {
        RequestState::KeysIssued { response } => response,
        other => panic!("expected issued keys, got {}", state_name(&other)),
    };
    assert_eq!(response.decryption_keys.len(), 2);
    let first = vec![5u8; 32];
    for (i, entry) in response.decryption_keys.iter().enumerate() {
        let mut expected_id = first.clone();
        expected_id.extend_from_slice(&identities[i]);
        assert_eq!(entry.id, expected_id, "key ids follow call order");
        // Each share decrypts, under the matching secret key, to the
        // deterministically derived secret for its identity.
        let secret = elgamal_decrypt(
            &enc_sk,
            &entry.encrypted_key.c1,
            &entry.encrypted_key.c2,
        )
        .expect("well-formed ciphertext");
        let derived = ibe_extract(&master, &expected_id).expect("canonical master key");
        assert_eq!(secret, derived);
    }
}

fn state_name(state: &RequestState) -> &'static str {
    match state {
        RequestState::Received { .. } => "Received",
        RequestState::FreshnessChecked { .. } => "FreshnessChecked",
        RequestState::ShapeValidated { .. } => "ShapeValidated",
        RequestState::VersionResolved { .. } => "VersionResolved",
        RequestState::SignatureVerified { .. } => "SignatureVerified",
        RequestState::PolicyApproved { .. } => "PolicyApproved",
        RequestState::KeysIssued { .. } => "KeysIssued",
        RequestState::Rejected { .. } => "Rejected",
    }
}

#[test]
fn stale_chain_rejected_before_any_signature_work() {
    let fx = make_request(5, NOW);
    let state = RequestState::start(fx.input);
    // Checkpoint three minutes old against a two-minute bound.
    let state = state.step_freshness(NOW, NOW - 180_000, 120_000);
    match state {
        RequestState::Rejected { reason } => {
            assert_eq!(reason, InternalError::SuiClientNotFresh)
        }
        other => panic!("expected rejection, got {}", state_name(&other)),
    }
}

#[test]
fn certificate_boundary() {
    // ttl of exactly ten minutes, created now: accepted.
    let cert = Certificate {
        user: vec![0u8; 32],
        session_vk: vec![0u8; 32],
        creation_time: NOW,
        ttl_min: 10,
        signature: vec![],
    };
    assert!(check_certificate(&cert, NOW).is_ok());
    // ttl of eleven minutes: rejected.
    let cert = Certificate { ttl_min: 11, ..cert };
    assert_eq!(
        check_certificate(&cert, NOW),
        Err(InternalError::InvalidCertificate)
    );
    // created one millisecond in the future: rejected.
    let cert = Certificate { ttl_min: 10, creation_time: NOW + 1, ..cert };
    assert_eq!(
        check_certificate(&cert, NOW),
        Err(InternalError::InvalidCertificate)
    );
    // just expired: rejected.
    let cert = Certificate { creation_time: NOW - 10 * 60_000 - 1, ..cert };
    assert_eq!(
        check_certificate(&cert, NOW),
        Err(InternalError::InvalidCertificate)
    );
}

#[test]
fn corrupt_session_signature_rejected_as_session_signature_only() {
    let mut fx = make_request(5, NOW);
    fx.input.request_signature[17] ^= 0x01; // flip one bit
    let first = vec![5u8; 32];
    let pkg = fx.pkg.clone();
    let state = RequestState::start(fx.input);
    let state = state.step_freshness(NOW, NOW, ALLOWED_STALENESS_MS);
    let state = state.step_shape();
    let state = state.step_version(&first, &pkg);
    // The wallet verdict is unchanged and true; only the session check fails.
    let state = state.step_signatures(NOW, true);
    match state {
        RequestState::Rejected { reason } => {
            assert_eq!(reason, InternalError::InvalidSessionSignature)
        }
        other => panic!("expected rejection, got {}", state_name(&other)),
    }
}

#[test]
fn corrupt_wallet_signature_leaves_session_validation_alone() {
    // Corrupting the certificate's signature bytes affects nothing but the
    // outside wallet check itself: when that check still passes, the
    // session signature verifies as before.
    let mut fx = make_request(5, NOW);
    fx.input.certificate.signature[10] ^= 0x01;
    let first = vec![5u8; 32];
    let pkg = fx.pkg.clone();
    let state = RequestState::start(fx.input);
    let state = state.step_freshness(NOW, NOW, ALLOWED_STALENESS_MS);
    let state = state.step_shape();
    let state = state.step_version(&first, &pkg);
    let state = state.step_signatures(NOW, true);
    assert_eq!(state_name(&state), "SignatureVerified");
}

#[test]
fn failed_wallet_verdict_rejected_as_wallet_signature() {
    let fx = make_request(5, NOW);
    let first = vec![5u8; 32];
    let pkg = fx.pkg.clone();
    let state = RequestState::start(fx.input);
    let state = state.step_freshness(NOW, NOW, ALLOWED_STALENESS_MS);
    let state = state.step_shape();
    let state = state.step_version(&first, &pkg);
    let state = state.step_signatures(NOW, false);
    match state {
        RequestState::Rejected { reason } => {
            assert_eq!(reason, InternalError::InvalidSignature)
        }
        other => panic!("expected rejection, got {}", state_name(&other)),
    }
}

#[test]
fn policy_fails_closed() {
    // An execution error denies; an unreadable or failed simulation fails;
    // neither ever grants.
    assert_eq!(
        evaluate_policy(DryRunOutcome::ExecutionFailure),
        Err(InternalError::NoAccess)
    );
    assert_eq!(
        evaluate_policy(DryRunOutcome::RpcFailure),
        Err(InternalError::Failure)
    );
    assert_eq!(evaluate_policy(DryRunOutcome::Success), Ok(()));

    let fx = make_request(5, NOW);
    let first = vec![5u8; 32];
    let pkg = fx.pkg.clone();
    let state = RequestState::start(fx.input);
    let state = state.step_freshness(NOW, NOW, ALLOWED_STALENESS_MS);
    let state = state.step_shape();
    let state = state.step_version(&first, &pkg);
    let state = state.step_signatures(NOW, true);
    let state = state.step_policy(DryRunOutcome::RpcFailure);
    match state {
        RequestState::Rejected { reason } => assert_eq!(reason, InternalError::Failure),
        other => panic!("expected rejection, got {}", state_name(&other)),
    }
}

#[test]
fn old_package_version_rejected_and_namespace_stable() {
    // Direct resolver checks.
    let first = vec![5u8; 32];
    let latest = vec![8u8; 32];
    assert_eq!(
        resolve_namespace(&latest, &first, &latest),
        Ok(first.clone())
    );
    assert_eq!(
        resolve_namespace(&vec![7u8; 32], &first, &latest),
        Err(InternalError::OldPackageVersion)
    );

    // A request naming a version older than latest is rejected outright.
    let fx = make_request(5, NOW);
    let pkg = fx.pkg.clone();
    let newer = vec![8u8; 32];
    let state = RequestState::start(fx.input);
    let state = state.step_freshness(NOW, NOW, ALLOWED_STALENESS_MS);
    let state = state.step_shape();
    let state = state.step_version(&first, &newer);
    match state {
        RequestState::Rejected { reason } => {
            assert_eq!(reason, InternalError::OldPackageVersion)
        }
        other => panic!("expected rejection, got {}", state_name(&other)),
    }
    assert_ne!(pkg, newer);
}

#[test]
fn derivation_is_deterministic_and_rebinds_per_caller() {
    let master = random_scalar();
    let keyid = vec![4u8; 64];
    // The same master key and identifier derive byte-identical secrets.
    let d1 = ibe_extract(&master, &keyid).unwrap();
    let d2 = ibe_extract(&master, &keyid).unwrap();
    assert_eq!(d1, d2);

    // Encrypting under two different keys yields different ciphertexts that
    // each decrypt, with the matching secret key, to the same secret.
    let sk_a = random_scalar();
    let sk_b = random_scalar();
    let pk_a = g1_generator_mul(&sk_a).unwrap();
    let pk_b = g1_generator_mul(&sk_b).unwrap();
    let ct_a = citadel::ibe::elgamal_encrypt_fresh(&d1, &pk_a).unwrap();
    let ct_b = citadel::ibe::elgamal_encrypt_fresh(&d1, &pk_b).unwrap();
    assert!(ct_a.c1 != ct_b.c1 || ct_a.c2 != ct_b.c2);
    assert_eq!(elgamal_decrypt(&sk_a, &ct_a.c1, &ct_a.c2).unwrap(), d1);
    assert_eq!(elgamal_decrypt(&sk_b, &ct_b.c1, &ct_b.c2).unwrap(), d1);
}

#[test]
fn wallet_message_binds_namespace_and_certificate() {
    let fx = make_request(5, NOW);
    let first = vec![5u8; 32];
    let pkg = fx.pkg.clone();
    let session_vk = fx.input.certificate.session_vk.clone();
    let state = RequestState::start(fx.input);
    let state = state.step_freshness(NOW, NOW, ALLOWED_STALENESS_MS);
    let state = state.step_shape();
    let state = state.step_version(&first, &pkg);
    let msg = state.wallet_message();
    let expected = citadel::signed_message::signed_message(&first, &session_vk, NOW, 5);
    assert_eq!(msg, expected);
}
