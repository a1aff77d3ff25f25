//! Tests of session-token minting, decoding and header parsing.

use citadel::errors::InternalError;
use citadel::keys::Certificate;
use citadel::primitives::keypair_from_seed;
use citadel::sdk::Profile;
use citadel::session_login::{
    create_session_token_response, decode_token, derive_jwt_key, extract_token_from_headers,
    passport_id_hex, verify_auth_token,
};

const NOW: u64 = 1_700_000_000_000;

fn make_cert() -> Certificate {
    let (_, session_vk) = keypair_from_seed(3);
    Certificate {
        user: vec![0xab; 32],
        session_vk,
        creation_time: NOW,
        ttl_min: 5,
        signature: vec![],
    }
}

fn jwt_key() -> Vec<u8> {
    let (sk, _) = keypair_from_seed(42);
    derive_jwt_key(&sk).expect("proper key width")
}

#[test]
fn jwt_key_derivation_is_deterministic() {
    let (sk, _) = keypair_from_seed(42);
    let k1 = derive_jwt_key(&sk).unwrap();
    let k2 = derive_jwt_key(&sk).unwrap();
    assert_eq!(k1, k2);
    assert_eq!(k1.len(), 64);
}

#[test]
fn token_round_trip_without_profile() {
    let key = jwt_key();
    let cert = make_cert();
    let response = create_session_token_response(&key, &cert, None, NOW);
    assert_eq!(response.expires_at, NOW + 5 * 60_000);
    let claims = decode_token(&key, &response.auth_token).expect("own token decodes");
    assert_eq!(claims.iss, "catastrophe");
    assert_eq!(claims.sub, format!("0x{}", "ab".repeat(32)));
    assert_eq!(claims.exp, (NOW + 5 * 60_000) / 1000);
    assert_eq!(claims.iat, NOW / 1000);
    assert_eq!(claims.user_address, vec![0xab; 32]);
    assert_eq!(claims.creation_time, NOW);
    assert_eq!(claims.ttl_min, 5);
    assert!(claims.profile.is_none());
}

#[test]
fn token_round_trip_with_profile() {
    let key = jwt_key();
    let cert = make_cert();
    let profile = Profile {
        id: vec![0x11; 32],
        avatar: String::from("data:image/svg+xml;base64,AAA"),
        rating: 1500,
        played: 10,
        won: 6,
        lost: 4,
    };
    let response = create_session_token_response(&key, &cert, Some(profile), NOW);
    let claims = decode_token(&key, &response.auth_token).expect("own token decodes");
    let p = claims.profile.expect("profile carried through");
    assert_eq!(p.id, vec![0x11; 32]);
    assert_eq!(p.avatar, "data:image/svg+xml;base64,AAA");
    assert_eq!(p.rating, 1500);
    assert_eq!(p.played, 10);
    assert_eq!(p.won, 6);
    assert_eq!(p.lost, 4);
}

#[test]
fn tampered_token_rejected() {
    let key = jwt_key();
    let cert = make_cert();
    let response = create_session_token_response(&key, &cert, None, NOW);
    let token = response.auth_token;
    // Flip one character somewhere in the payload section.
    let dot = token.find('.').unwrap();
    let mut bytes = token.clone().into_bytes();
    let i = dot + 3;
    bytes[i] = if bytes[i] == b'A' { b'B' } else { b'A' };
    let tampered = String::from_utf8(bytes).unwrap();
    assert!(matches!(decode_token(&key, &tampered), Err(InternalError::InvalidToken)));
    // A token signed under another key is rejected too.
    let (other_sk, _) = keypair_from_seed(43);
    let other_key = derive_jwt_key(&other_sk).unwrap();
    assert!(matches!(decode_token(&other_key, &token), Err(InternalError::InvalidToken)));
}

#[test]
fn expired_token_rejected() {
    let key = jwt_key();
    let cert = make_cert();
    let response = create_session_token_response(&key, &cert, None, NOW);
    let later = NOW + 6 * 60_000;
    assert_eq!(
        verify_auth_token(&key, &response.auth_token, later).unwrap_err(),
        InternalError::ExpiredToken
    );
    let user = verify_auth_token(&key, &response.auth_token, NOW + 60_000)
        .expect("token still valid");
    assert_eq!(user.user_address, vec![0xab; 32]);
    assert_eq!(user.exp, (NOW + 5 * 60_000) / 1000);
}

#[test]
fn bearer_header_parsing() {
    assert_eq!(
        extract_token_from_headers(None).unwrap_err(),
        InternalError::MissingAuthToken
    );
    assert_eq!(
        extract_token_from_headers(Some("Token abc")).unwrap_err(),
        InternalError::InvalidAuthHeader
    );
    assert_eq!(
        extract_token_from_headers(Some("Bearer abc.def.ghi")).unwrap(),
        "abc.def.ghi"
    );
}

#[test]
fn passport_id_is_prefixed_hex() {
    assert_eq!(passport_id_hex(&vec![0x0a, 0xff]), "0x0aff");
}

fn uleb(mut n: u32) -> Vec<u8> {
    let mut v = Vec::new();
    loop {
        if n < 128 {
            v.push(n as u8);
            return v;
        }
        v.push(128 + (n % 128) as u8);
        n /= 128;
    }
}

fn build_passport_ptb(pkg: &[u8; 32], identity: &[u8]) -> Vec<u8> {
    let mut out = Vec::new();
    out.extend_from_slice(&uleb(1));
    out.push(0);
    out.extend_from_slice(&uleb(identity.len() as u32));
    out.extend_from_slice(identity);
    out.extend_from_slice(&uleb(1));
    out.push(0);
    out.extend_from_slice(pkg);
    out.extend_from_slice(&uleb(7));
    out.extend_from_slice(b"citadel");
    out.extend_from_slice(&uleb(34));
    out.extend_from_slice(b"seal_approve_verify_nexus_passport");
    out.push(0);
    out.extend_from_slice(&uleb(1));
    out.push(1);
    out.push(0);
    out.push(0);
    out
}

#[test]
fn passport_extraction_requires_the_expected_target() {
    let pkg = [6u8; 32];
    let identity = [0x5au8; 32];
    let bytes = build_passport_ptb(&pkg, &identity);
    let ptb = citadel::valid_ptb::ValidPtb::try_parse(&bytes).unwrap();
    let id = citadel::session_login::session_passport_id(
        &ptb,
        &pkg.to_vec(),
        "citadel",
        "seal_approve_verify_nexus_passport",
    )
    .expect("expected target matches");
    assert_eq!(id, format!("0x{}", "5a".repeat(32)));
    assert!(matches!(
        citadel::session_login::session_passport_id(
            &ptb,
            &pkg.to_vec(),
            "citadel",
            "seal_approve_other",
        ),
        Err(InternalError::InvalidPTB)
    ));
}
