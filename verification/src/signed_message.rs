//! Canonical messages of the two-tier signature protocol.
//!
//! The wallet signs a message binding the stable package namespace, the
//! session verification key and the certificate window; the session key signs
//! a message binding the transaction block and the caller's encryption keys.
//! Both layouts use fixed-width fields, or length prefixes where a field may
//! vary, so that no two distinct field tuples share an encoding.

use vstd::prelude::*;

verus! {

/// Little-endian bytes of a 64-bit number.
pub open spec fn le64_of(n: nat) -> Seq<u8> {
    seq![
        (n % 256) as u8,
        (n / 256 % 256) as u8,
        (n / 0x10000 % 256) as u8,
        (n / 0x1000000 % 256) as u8,
        (n / 0x100000000 % 256) as u8,
        (n / 0x10000000000 % 256) as u8,
        (n / 0x1000000000000 % 256) as u8,
        (n / 0x100000000000000 % 256) as u8,
    ]
}

/// Little-endian bytes of a 16-bit number.
pub open spec fn le16_of(n: nat) -> Seq<u8> {
    seq![(n % 256) as u8, (n / 256 % 256) as u8]
}

/// Appends the little-endian bytes of a 64-bit number.
pub fn push_le64(out: &mut Vec<u8>, n: u64)
    ensures
        final(out)@ == old(out)@ + le64_of(n as nat),
{
    let ghost before = out@;
    out.push((n & 0xff) as u8);
    out.push((n >> 8 & 0xff) as u8);
    out.push((n >> 16 & 0xff) as u8);
    out.push((n >> 24 & 0xff) as u8);
    out.push((n >> 32 & 0xff) as u8);
    out.push((n >> 40 & 0xff) as u8);
    out.push((n >> 48 & 0xff) as u8);
    out.push((n >> 56 & 0xff) as u8);
    proof {
        assert((n & 0xff) as u8 == n as nat % 256
            && (n >> 8 & 0xff) as u8 == n as nat / 256 % 256
            && (n >> 16 & 0xff) as u8 == n as nat / 0x10000 % 256
            && (n >> 24 & 0xff) as u8 == n as nat / 0x1000000 % 256
            && (n >> 32 & 0xff) as u8 == n as nat / 0x100000000 % 256
            && (n >> 40 & 0xff) as u8 == n as nat / 0x10000000000 % 256
            && (n >> 48 & 0xff) as u8 == n as nat / 0x1000000000000 % 256
            && (n >> 56 & 0xff) as u8 == n as nat / 0x100000000000000 % 256) by (bit_vector);
        assert(out@ =~= before + le64_of(n as nat));
    }
}

/// Appends the little-endian bytes of a 16-bit number.
pub fn push_le16(out: &mut Vec<u8>, n: u16)
    ensures
        final(out)@ == old(out)@ + le16_of(n as nat),
{
    let ghost before = out@;
    out.push((n & 0xff) as u8);
    out.push((n >> 8 & 0xff) as u8);
    proof {
        assert((n & 0xff) as u8 == n as nat % 256
            && (n >> 8 & 0xff) as u8 == n as nat / 256 % 256) by (bit_vector);
        assert(out@ =~= before + le16_of(n as nat));
    }
}

/// Appends a whole byte string.
pub fn push_bytes(out: &mut Vec<u8>, data: &Vec<u8>)
    ensures
        final(out)@ == old(out)@ + data@,
{
    let ghost before = out@;
    for i in 0..data.len()
        invariant
            out@ =~= before + data@.take(i as int),
    {
        out.push(data[i]);
        proof {
            assert(data@.take(i + 1) =~= data@.take(i as int).push(data@[i as int]));
        }
    }
    proof {
        assert(data@.take(data@.len() as int) == data@);
    }
}

/// Domain tag of the wallet-signed certificate message.
pub open spec fn cert_domain_tag() -> Seq<u8> {
    // "cert" in ASCII
    seq![99u8, 101u8, 114u8, 116u8]
}

/// Domain tag of the session-signed request message.
pub open spec fn request_domain_tag() -> Seq<u8> {
    // "rqst" in ASCII
    seq![114u8, 113u8, 115u8, 116u8]
}

/// The message a wallet signs to delegate to a session key: the stable
/// package namespace, the session verification key, and the certificate
/// window.  All fields are fixed width, so the encoding is injective.
pub open spec fn signed_message_of(
    pkg_id: Seq<u8>,
    session_vk: Seq<u8>,
    creation_time: nat,
    ttl_min: nat,
) -> Seq<u8> {
    cert_domain_tag() + pkg_id + session_vk + le64_of(creation_time) + le16_of(ttl_min)
}

/// The message a session key signs over one request: the transaction block
/// (length-prefixed, since it varies) and the caller's encryption keys.
pub open spec fn signed_request_of(
    ptb: Seq<u8>,
    enc_key: Seq<u8>,
    enc_verification_key: Seq<u8>,
) -> Seq<u8> {
    request_domain_tag() + le64_of(ptb.len()) + ptb + enc_key + enc_verification_key
}

/// Builds the wallet-signed certificate message.
pub fn signed_message(
    pkg_id: &Vec<u8>,
    session_vk: &Vec<u8>,
    creation_time: u64,
    ttl_min: u16,
) -> (r: Vec<u8>)
    ensures
        r@ == signed_message_of(pkg_id@, session_vk@, creation_time as nat, ttl_min as nat),
{
    let mut out: Vec<u8> = Vec::new();
    out.push(99);
    out.push(101);
    out.push(114);
    out.push(116);
    proof {
        assert(out@ =~= cert_domain_tag());
    }
    push_bytes(&mut out, pkg_id);
    push_bytes(&mut out, session_vk);
    push_le64(&mut out, creation_time);
    push_le16(&mut out, ttl_min);
    proof {
        assert(out@ =~= signed_message_of(pkg_id@, session_vk@, creation_time as nat, ttl_min as nat));
    }
    out
}

/// Builds the session-signed request message.
pub fn signed_request(
    ptb: &Vec<u8>,
    enc_key: &Vec<u8>,
    enc_verification_key: &Vec<u8>,
) -> (r: Vec<u8>)
    ensures
        r@ == signed_request_of(ptb@, enc_key@, enc_verification_key@),
{
    let mut out: Vec<u8> = Vec::new();
    out.push(114);
    out.push(113);
    out.push(115);
    out.push(116);
    proof {
        assert(out@ =~= request_domain_tag());
    }
    push_le64(&mut out, ptb.len() as u64);
    push_bytes(&mut out, ptb);
    push_bytes(&mut out, enc_key);
    push_bytes(&mut out, enc_verification_key);
    proof {
        assert(out@ =~= signed_request_of(ptb@, enc_key@, enc_verification_key@));
    }
    out
}

} // verus!
