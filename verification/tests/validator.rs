//! Tests of the transaction-shape validator.

use citadel::errors::InternalError;
use citadel::valid_ptb::ValidPtb;

fn uleb(mut n: u32) -> Vec<u8> {
    let mut v = Vec::new();
    loop {
        if n < 128 {
            v.push(n as u8);
            return v;
        }
        v.push(128 + (n % 128) as u8);
        n /= 128;
    }
}

fn build_ptb(
    pkg: &[u8; 32],
    module: &str,
    function: &str,
    inputs: &[Vec<u8>],
    args: &[u16],
) -> Vec<u8> {
    let mut out = Vec::new();
    out.extend_from_slice(&uleb(inputs.len() as u32));
    for input in inputs {
        out.push(0);
        out.extend_from_slice(&uleb(input.len() as u32));
        out.extend_from_slice(input);
    }
    out.extend_from_slice(&uleb(1));
    out.push(0);
    out.extend_from_slice(pkg);
    out.extend_from_slice(&uleb(module.len() as u32));
    out.extend_from_slice(module.as_bytes());
    out.extend_from_slice(&uleb(function.len() as u32));
    out.extend_from_slice(function.as_bytes());
    out.push(0);
    out.extend_from_slice(&uleb(args.len() as u32));
    for a in args {
        out.push(1);
        out.push((a % 256) as u8);
        out.push((a / 256) as u8);
    }
    out
}

#[test]
fn accepts_single_approve_call() {
    let pkg = [7u8; 32];
    let id0 = vec![1u8; 32];
    let id1 = vec![2u8; 32];
    let bytes = build_ptb(
        &pkg,
        "policy",
        "seal_approve_read",
        &[id0.clone(), id1.clone()],
        &[0, 1],
    );
    let ptb = ValidPtb::try_parse(&bytes).expect("canonical shape must parse");
    assert_eq!(ptb.pkg_id().as_slice(), &pkg);
    assert_eq!(ptb.module_name().as_slice(), b"policy");
    assert_eq!(ptb.function_name().as_slice(), b"seal_approve_read");
    assert_eq!(ptb.inner_ids().len(), 2);
    assert_eq!(ptb.inner_ids()[0], id0);
    assert_eq!(ptb.inner_ids()[1], id1);
    assert_eq!(
        ptb.full_function(),
        format!("0x{}::policy::seal_approve_read", "07".repeat(32))
    );
}

#[test]
fn identity_prefix_stops_at_non_identity_argument() {
    let pkg = [9u8; 32];
    let id0 = vec![3u8; 32];
    let other = vec![5u8; 4]; // not identity sized
    let bytes = build_ptb(
        &pkg,
        "m",
        "seal_approve_x",
        &[id0.clone(), other],
        &[0, 1],
    );
    let ptb = ValidPtb::try_parse(&bytes).expect("one identity leads the call");
    assert_eq!(ptb.inner_ids().len(), 1);
    assert_eq!(ptb.inner_ids()[0], id0);
}

#[test]
fn rejects_wrong_function_prefix() {
    let pkg = [1u8; 32];
    let bytes = build_ptb(&pkg, "m", "approve_seal", &[vec![0u8; 32]], &[0]);
    assert!(matches!(ValidPtb::try_parse(&bytes), Err(InternalError::InvalidPTB)));
}

#[test]
fn rejects_zero_identity_arguments() {
    let pkg = [1u8; 32];
    // One input of the wrong width: no identity argument leads the call.
    let bytes = build_ptb(&pkg, "m", "seal_approve_x", &[vec![0u8; 16]], &[0]);
    assert!(matches!(ValidPtb::try_parse(&bytes), Err(InternalError::InvalidPTB)));
    // No arguments at all.
    let bytes = build_ptb(&pkg, "m", "seal_approve_x", &[vec![0u8; 32]], &[]);
    assert!(matches!(ValidPtb::try_parse(&bytes), Err(InternalError::InvalidPTB)));
}

#[test]
fn rejects_trailing_bytes() {
    let pkg = [1u8; 32];
    let mut bytes = build_ptb(&pkg, "m", "seal_approve_x", &[vec![0u8; 32]], &[0]);
    bytes.push(0);
    assert!(matches!(ValidPtb::try_parse(&bytes), Err(InternalError::InvalidPTB)));
}

#[test]
fn rejects_truncation_everywhere() {
    let pkg = [4u8; 32];
    let bytes = build_ptb(&pkg, "mod_a", "seal_approve_b", &[vec![8u8; 32]], &[0]);
    for cut in 0..bytes.len() {
        let truncated = &bytes[..cut];
        assert!(
            matches!(ValidPtb::try_parse(truncated), Err(InternalError::InvalidPTB)),
            "prefix of length {} must be rejected",
            cut
        );
    }
}

#[test]
fn rejects_non_canonical_length_encoding() {
    let pkg = [1u8; 32];
    let good = build_ptb(&pkg, "m", "seal_approve_x", &[vec![0u8; 32]], &[0]);
    // Re-encode the leading input count 1 as the two-byte form 0x81 0x00.
    let mut bad = Vec::new();
    bad.push(0x81);
    bad.push(0x00);
    bad.extend_from_slice(&good[1..]);
    assert!(matches!(ValidPtb::try_parse(&bad), Err(InternalError::InvalidPTB)));
}

#[test]
fn rejects_bad_identifier() {
    let pkg = [1u8; 32];
    let bytes = build_ptb(&pkg, "1mod", "seal_approve_x", &[vec![0u8; 32]], &[0]);
    assert!(matches!(ValidPtb::try_parse(&bytes), Err(InternalError::InvalidPTB)));
}

#[test]
fn total_on_arbitrary_bytes() {
    // The validator answers on every byte string: a pseudo-random walk over
    // inputs must always give a value or the typed error, never a panic.
    let mut state: u64 = 0x9e3779b97f4a7c15;
    for len in 0..200usize {
        let mut bytes = Vec::with_capacity(len);
        for _ in 0..len {
            state = state.wrapping_mul(6364136223846793005).wrapping_add(1442695040888963407);
            bytes.push((state >> 33) as u8);
        }
        match ValidPtb::try_parse(&bytes) {
            Ok(_) => {}
            Err(e) => assert_eq!(e, InternalError::InvalidPTB),
        }
    }
}

#[test]
fn accepts_multi_byte_canonical_lengths() {
    // An input long enough to need a two-byte length encoding, sitting
    // unreferenced beside the identity, parses fine.
    let pkg = [3u8; 32];
    let id0 = vec![1u8; 32];
    let long_input = vec![9u8; 300];
    let bytes = build_ptb(&pkg, "m", "seal_approve_x", &[id0.clone(), long_input], &[0]);
    let ptb = ValidPtb::try_parse(&bytes).expect("two-byte lengths are canonical");
    assert_eq!(ptb.inner_ids().len(), 1);
    assert_eq!(ptb.inner_ids()[0], id0);
}

#[test]
fn rejects_out_of_range_argument_index() {
    let pkg = [3u8; 32];
    let bytes = build_ptb(&pkg, "m", "seal_approve_x", &[vec![1u8; 32]], &[5]);
    assert!(matches!(ValidPtb::try_parse(&bytes), Err(InternalError::InvalidPTB)));
}

#[test]
fn matches_target_compares_all_three_names() {
    let pkg = [2u8; 32];
    let bytes = build_ptb(&pkg, "citadel", "seal_approve_verify_nexus_passport", &[vec![1u8; 32]], &[0]);
    let ptb = ValidPtb::try_parse(&bytes).unwrap();
    let pkg_vec = pkg.to_vec();
    assert!(ptb.matches_target(&pkg_vec, "citadel", "seal_approve_verify_nexus_passport"));
    assert!(!ptb.matches_target(&pkg_vec, "citadel", "seal_approve_other"));
    assert!(!ptb.matches_target(&pkg_vec, "other", "seal_approve_verify_nexus_passport"));
    assert!(!ptb.matches_target(&vec![3u8; 32], "citadel", "seal_approve_verify_nexus_passport"));
}
