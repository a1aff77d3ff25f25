//! Bearer session tokens.
//!
//! After a request passes the full validation chain once, the server mints
//! an HMAC-signed token binding the certificate's user, session key and
//! expiry plus the user's profile, so later application requests can be
//! authenticated cheaply.  The signing key is derived at boot by signing a
//! fixed message with the server's ephemeral key: it lives only in memory
//! and rotates on restart.

use vstd::prelude::*;
use vstd::string::StringSliceAdditionalSpecFns;
use vstd::utf8::encode_utf8;

use jsonwebtoken::{Algorithm, EncodingKey};

use crate::encoding::{
    ascii_chars_of, ascii_to_string, b64_of, b64url_of, dec_bytes_of, encode_base64,
    encode_base64url, hex_bytes_of, json_string_of, push_dec_bytes, push_hex_bytes,
    push_json_string, push_str_bytes,
};
use crate::errors::InternalError;
use crate::keys::Certificate;
use crate::primitives::ed25519_signature_of;
use crate::sdk::Profile;
use crate::signed_message::push_bytes;

verus! {

/// The session key under which the authenticated user is stored.
pub const SESSION_USER_KEY: &'static str = "user";

/// The claims a session token carries.
#[derive(Debug)]
pub struct TokenClaims {
    /// Issuer tag of this service.
    pub iss: String,
    /// The user's address, as `0x` hex text.
    pub sub: String,
    /// Expiry, in seconds since the epoch.
    pub exp: u64,
    /// Issue time, in seconds since the epoch.
    pub iat: u64,
    /// The user's game profile, if one exists.
    pub profile: Option<Profile>,
    /// The user's address, 32 bytes.
    pub user_address: Vec<u8>,
    /// The session verification key, as standard base64 text.
    pub session_vk: String,
    /// Creation time of the underlying certificate, in milliseconds.
    pub creation_time: u64,
    /// Lifetime of the underlying certificate, in minutes.
    pub ttl_min: u16,
}

/// The user a verified token authenticates.
#[derive(Debug)]
pub struct AuthenticatedUser {
    pub user_address: Vec<u8>,
    pub session_vk: String,
    pub exp: u64,
    pub profile: Option<Profile>,
}

/// The user as stored in a server-side session.
#[derive(Debug, Clone)]
pub struct SessionUser {
    pub user_address: Vec<u8>,
    pub session_vk: String,
    pub exp: u64,
    pub profile: Option<Profile>,
}

/// A request for a session token: the same fields as a fetch-key request.
pub struct SessionTokenRequest {
    pub ptb: String,
    pub enc_key: Vec<u8>,
    pub enc_verification_key: Vec<u8>,
    pub request_signature: Vec<u8>,
    pub certificate: Certificate,
}

impl SessionTokenRequest {
    /// The request as the validation pipeline consumes it: the same chain
    /// runs for a session token as for a key fetch.
    pub fn into_input(self) -> (r: crate::keys::RequestInput)
        ensures
            r.ptb_b64@ == encode_utf8(self.ptb@),
            r.enc_key == self.enc_key,
            r.enc_verification_key == self.enc_verification_key,
            r.request_signature == self.request_signature,
            r.certificate == self.certificate,
    {
        let ptb_b64 = vstd::slice::slice_to_vec(self.ptb.as_str().as_bytes());
        let SessionTokenRequest {
            enc_key,
            enc_verification_key,
            request_signature,
            certificate,
            ..
        } = self;
        crate::keys::RequestInput {
            ptb_b64,
            enc_key,
            enc_verification_key,
            request_signature,
            certificate,
        }
    }
}

/// The minted token and its expiry.
pub struct SessionTokenResponse {
    /// The signed bearer token.
    pub auth_token: String,
    /// Expiry, in milliseconds since the epoch.
    pub expires_at: u64,
    /// The user's profile, if one exists.
    pub profile: Option<Profile>,
}

/// Answer to a credentials lookup.
pub struct GetUserCredentialsResponse {
    pub success: bool,
    pub credentials: Option<SessionUser>,
    pub error: Option<String>,
}

/// Answer to a logout.
pub struct LogoutResponse {
    pub success: bool,
    pub message: String,
}

/// The signature that signing a message with the HS256 keyed hash yields,
/// as URL-safe base64 text bytes.
pub uninterp spec fn hs256_sig_of(key: Seq<u8>, msg: Seq<u8>) -> Seq<u8>;

/// Relies on jsonwebtoken's crypto::sign with the HS256 algorithm: a
/// deterministic keyed hash of the message, returned URL-safe base64
/// encoded, hence ASCII.
#[verifier::external_body]
fn hs256_sign(key: &Vec<u8>, msg: &Vec<u8>) -> (r: Vec<u8>)
    ensures
        r@ == hs256_sig_of(key@, msg@),
        forall|i: int| 0 <= i < r@.len() ==> r@[i] < 128,
{
    let encoding_key = EncodingKey::from_secret(key);
    match jsonwebtoken::crypto::sign(msg, &encoding_key, Algorithm::HS256) {
        Ok(sig) => sig.into_bytes(),
        Err(_) => Vec::new(),
    }
}

/// The fixed message whose self-signature becomes the token-signing key.
pub open spec fn jwt_secret_message() -> Seq<u8> {
    "jwt_secret".spec_bytes()
}

/// Derives the token-signing key: the server's ephemeral key signs a fixed
/// message, so the key exists only in memory and rotates on restart.
/// Succeeds exactly when the secret key has its proper width.
pub fn derive_jwt_key(eph_sk: &Vec<u8>) -> (r: Option<Vec<u8>>)
    ensures
        r is Some <==> eph_sk@.len() == crate::primitives::ED25519_SK_LENGTH,
        r matches Some(v) ==> v@ == ed25519_signature_of(eph_sk@, jwt_secret_message()),
{
    let mut msg: Vec<u8> = Vec::new();
    push_str_bytes(&mut msg, "jwt_secret");
    crate::primitives::ed25519_sign(eph_sk, &msg)
}

/// The JSON of a profile object inside the claims.
pub open spec fn profile_json_of(p: Profile) -> Seq<u8> {
    "{\"id\":\"0x".spec_bytes() + hex_bytes_of(p.id@) + "\",\"avatar\":".spec_bytes()
        + json_string_of(encode_utf8(p.avatar@)) + ",\"rating\":".spec_bytes()
        + dec_bytes_of(p.rating as nat) + ",\"played\":".spec_bytes()
        + dec_bytes_of(p.played as nat) + ",\"won\":".spec_bytes()
        + dec_bytes_of(p.won as nat) + ",\"lost\":".spec_bytes()
        + dec_bytes_of(p.lost as nat) + "}".spec_bytes()
}

/// The canonical claims JSON a certificate, profile and clock determine.
pub open spec fn claims_json_of(
    cert: Certificate,
    profile: Option<Profile>,
    now: nat,
) -> Seq<u8> {
    "{\"iss\":\"catastrophe\",\"sub\":\"0x".spec_bytes() + hex_bytes_of(cert.user@)
        + "\",\"exp\":".spec_bytes() + dec_bytes_of(((now + 60000 * cert.ttl_min) / 1000) as nat)
        + ",\"iat\":".spec_bytes() + dec_bytes_of(now / 1000)
        + ",\"profile\":".spec_bytes() + (match profile {
            Some(p) => profile_json_of(p),
            None => "null".spec_bytes(),
        })
        + ",\"user_address\":\"0x".spec_bytes() + hex_bytes_of(cert.user@)
        + "\",\"session_vk\":\"".spec_bytes() + b64_of(cert.session_vk@)
        + "\",\"creation_time\":".spec_bytes() + dec_bytes_of(cert.creation_time as nat)
        + ",\"ttl_min\":".spec_bytes() + dec_bytes_of(cert.ttl_min as nat)
        + "}".spec_bytes()
}

/// The fixed token header: HS256, JWT.
pub open spec fn header_json() -> Seq<u8> {
    "{\"typ\":\"JWT\",\"alg\":\"HS256\"}".spec_bytes()
}

/// The byte that separates the token's sections.
pub open spec fn dot() -> Seq<u8> {
    seq![46u8]
}

/// The whole token a signing key and a claims payload determine:
/// `b64url(header).b64url(payload).signature`.
pub open spec fn session_token_of(key: Seq<u8>, payload: Seq<u8>) -> Seq<u8> {
    b64url_of(header_json()) + dot() + b64url_of(payload) + dot()
        + hs256_sig_of(key, b64url_of(header_json()) + dot() + b64url_of(payload))
}

/// Appends the JSON of a profile object.
fn push_profile_json(out: &mut Vec<u8>, p: &Profile)
    ensures
        final(out)@ == old(out)@ + profile_json_of(*p),
{
    push_str_bytes(out, "{\"id\":\"0x");
    push_hex_bytes(out, &p.id);
    push_str_bytes(out, "\",\"avatar\":");
    push_json_string(out, p.avatar.as_str());
    push_str_bytes(out, ",\"rating\":");
    push_dec_bytes(out, p.rating);
    push_str_bytes(out, ",\"played\":");
    push_dec_bytes(out, p.played);
    push_str_bytes(out, ",\"won\":");
    push_dec_bytes(out, p.won);
    push_str_bytes(out, ",\"lost\":");
    push_dec_bytes(out, p.lost);
    push_str_bytes(out, "}");
}

/// Builds the canonical claims JSON.
fn build_claims_json(cert: &Certificate, profile: &Option<Profile>, now: u64) -> (r: Vec<u8>)
    requires
        now + 60000 * cert.ttl_min <= u64::MAX,
    ensures
        r@ == claims_json_of(*cert, *profile, now as nat),
{
    let mut out: Vec<u8> = Vec::new();
    push_str_bytes(&mut out, "{\"iss\":\"catastrophe\",\"sub\":\"0x");
    push_hex_bytes(&mut out, &cert.user);
    push_str_bytes(&mut out, "\",\"exp\":");
    let expires_at: u64 = now + 60000 * (cert.ttl_min as u64);
    push_dec_bytes(&mut out, expires_at / 1000);
    push_str_bytes(&mut out, ",\"iat\":");
    push_dec_bytes(&mut out, now / 1000);
    push_str_bytes(&mut out, ",\"profile\":");
    match profile {
        Some(p) => push_profile_json(&mut out, p),
        None => push_str_bytes(&mut out, "null"),
    }
    push_str_bytes(&mut out, ",\"user_address\":\"0x");
    push_hex_bytes(&mut out, &cert.user);
    push_str_bytes(&mut out, "\",\"session_vk\":\"");
    let vk_b64 = encode_base64(cert.session_vk.as_slice());
    push_bytes(&mut out, &vk_b64);
    push_str_bytes(&mut out, "\",\"creation_time\":");
    push_dec_bytes(&mut out, cert.creation_time);
    push_str_bytes(&mut out, ",\"ttl_min\":");
    push_dec_bytes(&mut out, cert.ttl_min as u64);
    push_str_bytes(&mut out, "}");
    out
}

/// Mints the session-token response: a token over the canonical claims,
/// signed with the derived key, expiring when the certificate does.
pub fn create_session_token_response(
    jwt_key: &Vec<u8>,
    cert: &Certificate,
    profile: Option<Profile>,
    now: u64,
) -> (r: SessionTokenResponse)
    requires
        now + 60000 * cert.ttl_min <= u64::MAX,
    ensures
        r.auth_token@ == ascii_chars_of(session_token_of(
            jwt_key@,
            claims_json_of(*cert, r.profile, now as nat),
        )),
        r.expires_at == now + 60000 * cert.ttl_min,
        r.profile == profile,
{
    let expires_at: u64 = now + 60000 * (cert.ttl_min as u64);
    let payload = build_claims_json(cert, &profile, now);
    let mut signing_input: Vec<u8> = Vec::new();
    let header = encode_base64url("{\"typ\":\"JWT\",\"alg\":\"HS256\"}".as_bytes());
    push_bytes(&mut signing_input, &header);
    signing_input.push(46);
    let payload_b64 = encode_base64url(payload.as_slice());
    push_bytes(&mut signing_input, &payload_b64);
    proof {
        assert(signing_input@ =~= b64url_of(header_json()) + dot() + b64url_of(payload@));
    }
    let sig = hs256_sign(jwt_key, &signing_input);
    let mut token: Vec<u8> = Vec::new();
    push_bytes(&mut token, &signing_input);
    token.push(46);
    push_bytes(&mut token, &sig);
    proof {
        assert(token@ =~= session_token_of(jwt_key@, claims_json_of(*cert, profile, now as nat)));
    }
    let auth_token = ascii_to_string(&token);
    SessionTokenResponse { auth_token, expires_at, profile }
}

/// The `0x` hex text of an identity, as the profile systems name it.
pub fn passport_id_hex(id: &Vec<u8>) -> (r: String)
    ensures
        r@ == "0x"@ + crate::encoding::hex_of(id@),
{
    let mut r = String::from_str("0x");
    let hex = crate::encoding::to_hex(id.as_slice());
    r.append(hex.as_str());
    r
}

/// The passport named by a session-token request: the request must call
/// exactly the expected package, module and function, and the first
/// identity argument is the caller's passport.  `InvalidPTB` exactly where
/// the call names another target.
pub fn session_passport_id(
    ptb: &crate::valid_ptb::ValidPtb,
    expected_pkg: &Vec<u8>,
    module: &str,
    function: &str,
) -> (r: Result<String, InternalError>)
    ensures
        r matches Ok(s) ==> ptb@.pkg == expected_pkg@ && ptb@.module == module.spec_bytes()
            && ptb@.function == function.spec_bytes() && ptb@.ids.len() > 0
            && s@ == "0x"@ + crate::encoding::hex_of(ptb@.ids[0]),
        r matches Err(e) ==> e == InternalError::InvalidPTB
            && !(ptb@.pkg == expected_pkg@ && ptb@.module == module.spec_bytes()
                && ptb@.function == function.spec_bytes() && ptb@.ids.len() > 0),
{
    if !ptb.matches_target(expected_pkg, module, function) {
        return Err(InternalError::InvalidPTB);
    }
    let ids = ptb.inner_ids();
    if ids.len() == 0 {
        return Err(InternalError::InvalidPTB);
    }
    proof {
        assert(ids.deep_view()[0] == ids@[0]@);
    }
    Ok(passport_id_hex(&ids[0]))
}

/// The canonical claims JSON that a claims record renders to; the token
/// decoder accepts a payload only if it equals this rendering exactly.
pub open spec fn claims_render(c: TokenClaims) -> Seq<u8> {
    "{\"iss\":\"".spec_bytes() + encode_utf8(c.iss@)
        + "\",\"sub\":\"".spec_bytes() + encode_utf8(c.sub@)
        + "\",\"exp\":".spec_bytes() + dec_bytes_of(c.exp as nat)
        + ",\"iat\":".spec_bytes() + dec_bytes_of(c.iat as nat)
        + ",\"profile\":".spec_bytes() + profile_seg(c.profile)
        + ",\"user_address\":\"0x".spec_bytes() + hex_bytes_of(c.user_address@)
        + "\",\"session_vk\":\"".spec_bytes() + encode_utf8(c.session_vk@)
        + "\",\"creation_time\":".spec_bytes() + dec_bytes_of(c.creation_time as nat)
        + ",\"ttl_min\":".spec_bytes() + dec_bytes_of(c.ttl_min as nat)
        + "}".spec_bytes()
}

/// Renders a claims record to its canonical JSON.
fn render_claims(c: &TokenClaims) -> (r: Vec<u8>)
    ensures
        r@ == claims_render(*c),
{
    let mut out: Vec<u8> = Vec::new();
    push_str_bytes(&mut out, "{\"iss\":\"");
    push_str_bytes(&mut out, c.iss.as_str());
    push_str_bytes(&mut out, "\",\"sub\":\"");
    push_str_bytes(&mut out, c.sub.as_str());
    push_str_bytes(&mut out, "\",\"exp\":");
    push_dec_bytes(&mut out, c.exp);
    push_str_bytes(&mut out, ",\"iat\":");
    push_dec_bytes(&mut out, c.iat);
    push_str_bytes(&mut out, ",\"profile\":");
    match &c.profile {
        Some(p) => push_profile_json(&mut out, p),
        None => push_str_bytes(&mut out, "null"),
    }
    push_str_bytes(&mut out, ",\"user_address\":\"0x");
    push_hex_bytes(&mut out, &c.user_address);
    push_str_bytes(&mut out, "\",\"session_vk\":\"");
    push_str_bytes(&mut out, c.session_vk.as_str());
    push_str_bytes(&mut out, "\",\"creation_time\":");
    push_dec_bytes(&mut out, c.creation_time);
    push_str_bytes(&mut out, ",\"ttl_min\":");
    push_dec_bytes(&mut out, c.ttl_min as u64);
    push_str_bytes(&mut out, "}");
    out
}

/// Which bytes a profile option renders to inside the claims.
pub open spec fn profile_seg(prof: Option<Profile>) -> Seq<u8> {
    match prof {
        Some(p) => profile_json_of(p),
        None => "null".spec_bytes(),
    }
}

/// Whether a profile's avatar needs no JSON escaping.
pub open spec fn profile_plain(prof: Option<Profile>) -> bool {
    match prof {
        Some(p) => crate::encoding::bytes_plain(encode_utf8(p.avatar@)),
        None => true,
    }
}

/// Whether a claims record's raw string fields need no JSON escaping, so
/// that its canonical rendering parses back without loss.
pub open spec fn claims_plain(c: TokenClaims) -> bool {
    &&& crate::encoding::bytes_plain(encode_utf8(c.iss@))
    &&& crate::encoding::bytes_plain(encode_utf8(c.sub@))
    &&& crate::encoding::bytes_plain(encode_utf8(c.session_vk@))
    &&& profile_plain(c.profile)
}

// Length and leading byte of each grammar literal, each proved once
// from the revealed text.

proof fn lit_avatar()
    ensures
        "\",\"avatar\":".spec_bytes().len() == 11,
        "\",\"avatar\":".spec_bytes()[0] == 34,
{
    reveal_strlit("\",\"avatar\":");
    assert("\",\"avatar\":"@.len() == 11);
    assert("\",\"avatar\":"@[0] == '\"' && "\",\"avatar\":"@[1] == ',' && "\",\"avatar\":"@[2] == '\"' && "\",\"avatar\":"@[3] == 'a' && "\",\"avatar\":"@[4] == 'v' && "\",\"avatar\":"@[5] == 'a' && "\",\"avatar\":"@[6] == 't' && "\",\"avatar\":"@[7] == 'a' && "\",\"avatar\":"@[8] == 'r' && "\",\"avatar\":"@[9] == '\"' && "\",\"avatar\":"@[10] == ':');
    assert(vstd::utf8::is_ascii_chars("\",\"avatar\":"@));
    crate::encoding::lemma_ascii_lit("\",\"avatar\":");
}

proof fn lit_close()
    ensures
        "}".spec_bytes().len() == 1,
        "}".spec_bytes()[0] == 125,
{
    reveal_strlit("}");
    assert("}"@.len() == 1);
    assert("}"@[0] == '}');
    assert(vstd::utf8::is_ascii_chars("}"@));
    crate::encoding::lemma_ascii_lit("}");
}

proof fn lit_creation()
    ensures
        "\",\"creation_time\":".spec_bytes().len() == 18,
        "\",\"creation_time\":".spec_bytes()[0] == 34,
{
    reveal_strlit("\",\"creation_time\":");
    assert("\",\"creation_time\":"@.len() == 18);
    assert("\",\"creation_time\":"@[0] == '\"' && "\",\"creation_time\":"@[1] == ',' && "\",\"creation_time\":"@[2] == '\"' && "\",\"creation_time\":"@[3] == 'c' && "\",\"creation_time\":"@[4] == 'r' && "\",\"creation_time\":"@[5] == 'e' && "\",\"creation_time\":"@[6] == 'a' && "\",\"creation_time\":"@[7] == 't' && "\",\"creation_time\":"@[8] == 'i' && "\",\"creation_time\":"@[9] == 'o' && "\",\"creation_time\":"@[10] == 'n' && "\",\"creation_time\":"@[11] == '_' && "\",\"creation_time\":"@[12] == 't' && "\",\"creation_time\":"@[13] == 'i' && "\",\"creation_time\":"@[14] == 'm' && "\",\"creation_time\":"@[15] == 'e' && "\",\"creation_time\":"@[16] == '\"' && "\",\"creation_time\":"@[17] == ':');
    assert(vstd::utf8::is_ascii_chars("\",\"creation_time\":"@));
    crate::encoding::lemma_ascii_lit("\",\"creation_time\":");
}

proof fn lit_exp()
    ensures
        "\",\"exp\":".spec_bytes().len() == 8,
        "\",\"exp\":".spec_bytes()[0] == 34,
{
    reveal_strlit("\",\"exp\":");
    assert("\",\"exp\":"@.len() == 8);
    assert("\",\"exp\":"@[0] == '\"' && "\",\"exp\":"@[1] == ',' && "\",\"exp\":"@[2] == '\"' && "\",\"exp\":"@[3] == 'e' && "\",\"exp\":"@[4] == 'x' && "\",\"exp\":"@[5] == 'p' && "\",\"exp\":"@[6] == '\"' && "\",\"exp\":"@[7] == ':');
    assert(vstd::utf8::is_ascii_chars("\",\"exp\":"@));
    crate::encoding::lemma_ascii_lit("\",\"exp\":");
}

proof fn lit_iat()
    ensures
        ",\"iat\":".spec_bytes().len() == 7,
        ",\"iat\":".spec_bytes()[0] == 44,
{
    reveal_strlit(",\"iat\":");
    assert(",\"iat\":"@.len() == 7);
    assert(",\"iat\":"@[0] == ',' && ",\"iat\":"@[1] == '\"' && ",\"iat\":"@[2] == 'i' && ",\"iat\":"@[3] == 'a' && ",\"iat\":"@[4] == 't' && ",\"iat\":"@[5] == '\"' && ",\"iat\":"@[6] == ':');
    assert(vstd::utf8::is_ascii_chars(",\"iat\":"@));
    crate::encoding::lemma_ascii_lit(",\"iat\":");
}

proof fn lit_lost()
    ensures
        ",\"lost\":".spec_bytes().len() == 8,
        ",\"lost\":".spec_bytes()[0] == 44,
{
    reveal_strlit(",\"lost\":");
    assert(",\"lost\":"@.len() == 8);
    assert(",\"lost\":"@[0] == ',' && ",\"lost\":"@[1] == '\"' && ",\"lost\":"@[2] == 'l' && ",\"lost\":"@[3] == 'o' && ",\"lost\":"@[4] == 's' && ",\"lost\":"@[5] == 't' && ",\"lost\":"@[6] == '\"' && ",\"lost\":"@[7] == ':');
    assert(vstd::utf8::is_ascii_chars(",\"lost\":"@));
    crate::encoding::lemma_ascii_lit(",\"lost\":");
}

proof fn lit_null()
    ensures
        "null".spec_bytes().len() == 4,
        "null".spec_bytes()[0] == 110,
{
    reveal_strlit("null");
    assert("null"@.len() == 4);
    assert("null"@[0] == 'n' && "null"@[1] == 'u' && "null"@[2] == 'l' && "null"@[3] == 'l');
    assert(vstd::utf8::is_ascii_chars("null"@));
    crate::encoding::lemma_ascii_lit("null");
}

proof fn lit_obj_id()
    ensures
        "{\"id\":\"0x".spec_bytes().len() == 9,
        "{\"id\":\"0x".spec_bytes()[0] == 123,
{
    reveal_strlit("{\"id\":\"0x");
    assert("{\"id\":\"0x"@.len() == 9);
    assert("{\"id\":\"0x"@[0] == '{' && "{\"id\":\"0x"@[1] == '\"' && "{\"id\":\"0x"@[2] == 'i' && "{\"id\":\"0x"@[3] == 'd' && "{\"id\":\"0x"@[4] == '\"' && "{\"id\":\"0x"@[5] == ':' && "{\"id\":\"0x"@[6] == '\"' && "{\"id\":\"0x"@[7] == '0' && "{\"id\":\"0x"@[8] == 'x');
    assert(vstd::utf8::is_ascii_chars("{\"id\":\"0x"@));
    crate::encoding::lemma_ascii_lit("{\"id\":\"0x");
}

proof fn lit_obj_iss()
    ensures
        "{\"iss\":\"".spec_bytes().len() == 8,
        "{\"iss\":\"".spec_bytes()[0] == 123,
{
    reveal_strlit("{\"iss\":\"");
    assert("{\"iss\":\""@.len() == 8);
    assert("{\"iss\":\""@[0] == '{' && "{\"iss\":\""@[1] == '\"' && "{\"iss\":\""@[2] == 'i' && "{\"iss\":\""@[3] == 's' && "{\"iss\":\""@[4] == 's' && "{\"iss\":\""@[5] == '\"' && "{\"iss\":\""@[6] == ':' && "{\"iss\":\""@[7] == '\"');
    assert(vstd::utf8::is_ascii_chars("{\"iss\":\""@));
    crate::encoding::lemma_ascii_lit("{\"iss\":\"");
}

proof fn lit_played()
    ensures
        ",\"played\":".spec_bytes().len() == 10,
        ",\"played\":".spec_bytes()[0] == 44,
{
    reveal_strlit(",\"played\":");
    assert(",\"played\":"@.len() == 10);
    assert(",\"played\":"@[0] == ',' && ",\"played\":"@[1] == '\"' && ",\"played\":"@[2] == 'p' && ",\"played\":"@[3] == 'l' && ",\"played\":"@[4] == 'a' && ",\"played\":"@[5] == 'y' && ",\"played\":"@[6] == 'e' && ",\"played\":"@[7] == 'd' && ",\"played\":"@[8] == '\"' && ",\"played\":"@[9] == ':');
    assert(vstd::utf8::is_ascii_chars(",\"played\":"@));
    crate::encoding::lemma_ascii_lit(",\"played\":");
}

proof fn lit_profile()
    ensures
        ",\"profile\":".spec_bytes().len() == 11,
        ",\"profile\":".spec_bytes()[0] == 44,
{
    reveal_strlit(",\"profile\":");
    assert(",\"profile\":"@.len() == 11);
    assert(",\"profile\":"@[0] == ',' && ",\"profile\":"@[1] == '\"' && ",\"profile\":"@[2] == 'p' && ",\"profile\":"@[3] == 'r' && ",\"profile\":"@[4] == 'o' && ",\"profile\":"@[5] == 'f' && ",\"profile\":"@[6] == 'i' && ",\"profile\":"@[7] == 'l' && ",\"profile\":"@[8] == 'e' && ",\"profile\":"@[9] == '\"' && ",\"profile\":"@[10] == ':');
    assert(vstd::utf8::is_ascii_chars(",\"profile\":"@));
    crate::encoding::lemma_ascii_lit(",\"profile\":");
}

proof fn lit_rating()
    ensures
        ",\"rating\":".spec_bytes().len() == 10,
        ",\"rating\":".spec_bytes()[0] == 44,
{
    reveal_strlit(",\"rating\":");
    assert(",\"rating\":"@.len() == 10);
    assert(",\"rating\":"@[0] == ',' && ",\"rating\":"@[1] == '\"' && ",\"rating\":"@[2] == 'r' && ",\"rating\":"@[3] == 'a' && ",\"rating\":"@[4] == 't' && ",\"rating\":"@[5] == 'i' && ",\"rating\":"@[6] == 'n' && ",\"rating\":"@[7] == 'g' && ",\"rating\":"@[8] == '\"' && ",\"rating\":"@[9] == ':');
    assert(vstd::utf8::is_ascii_chars(",\"rating\":"@));
    crate::encoding::lemma_ascii_lit(",\"rating\":");
}

proof fn lit_session_vk()
    ensures
        "\",\"session_vk\":\"".spec_bytes().len() == 16,
        "\",\"session_vk\":\"".spec_bytes()[0] == 34,
{
    reveal_strlit("\",\"session_vk\":\"");
    assert("\",\"session_vk\":\""@.len() == 16);
    assert("\",\"session_vk\":\""@[0] == '\"' && "\",\"session_vk\":\""@[1] == ',' && "\",\"session_vk\":\""@[2] == '\"' && "\",\"session_vk\":\""@[3] == 's' && "\",\"session_vk\":\""@[4] == 'e' && "\",\"session_vk\":\""@[5] == 's' && "\",\"session_vk\":\""@[6] == 's' && "\",\"session_vk\":\""@[7] == 'i' && "\",\"session_vk\":\""@[8] == 'o' && "\",\"session_vk\":\""@[9] == 'n' && "\",\"session_vk\":\""@[10] == '_' && "\",\"session_vk\":\""@[11] == 'v' && "\",\"session_vk\":\""@[12] == 'k' && "\",\"session_vk\":\""@[13] == '\"' && "\",\"session_vk\":\""@[14] == ':' && "\",\"session_vk\":\""@[15] == '\"');
    assert(vstd::utf8::is_ascii_chars("\",\"session_vk\":\""@));
    crate::encoding::lemma_ascii_lit("\",\"session_vk\":\"");
}

proof fn lit_sub()
    ensures
        "\",\"sub\":\"".spec_bytes().len() == 9,
        "\",\"sub\":\"".spec_bytes()[0] == 34,
{
    reveal_strlit("\",\"sub\":\"");
    assert("\",\"sub\":\""@.len() == 9);
    assert("\",\"sub\":\""@[0] == '\"' && "\",\"sub\":\""@[1] == ',' && "\",\"sub\":\""@[2] == '\"' && "\",\"sub\":\""@[3] == 's' && "\",\"sub\":\""@[4] == 'u' && "\",\"sub\":\""@[5] == 'b' && "\",\"sub\":\""@[6] == '\"' && "\",\"sub\":\""@[7] == ':' && "\",\"sub\":\""@[8] == '\"');
    assert(vstd::utf8::is_ascii_chars("\",\"sub\":\""@));
    crate::encoding::lemma_ascii_lit("\",\"sub\":\"");
}

proof fn lit_ttl()
    ensures
        ",\"ttl_min\":".spec_bytes().len() == 11,
        ",\"ttl_min\":".spec_bytes()[0] == 44,
{
    reveal_strlit(",\"ttl_min\":");
    assert(",\"ttl_min\":"@.len() == 11);
    assert(",\"ttl_min\":"@[0] == ',' && ",\"ttl_min\":"@[1] == '\"' && ",\"ttl_min\":"@[2] == 't' && ",\"ttl_min\":"@[3] == 't' && ",\"ttl_min\":"@[4] == 'l' && ",\"ttl_min\":"@[5] == '_' && ",\"ttl_min\":"@[6] == 'm' && ",\"ttl_min\":"@[7] == 'i' && ",\"ttl_min\":"@[8] == 'n' && ",\"ttl_min\":"@[9] == '\"' && ",\"ttl_min\":"@[10] == ':');
    assert(vstd::utf8::is_ascii_chars(",\"ttl_min\":"@));
    crate::encoding::lemma_ascii_lit(",\"ttl_min\":");
}

proof fn lit_user_address()
    ensures
        ",\"user_address\":\"0x".spec_bytes().len() == 19,
        ",\"user_address\":\"0x".spec_bytes()[0] == 44,
{
    reveal_strlit(",\"user_address\":\"0x");
    assert(",\"user_address\":\"0x"@.len() == 19);
    assert(",\"user_address\":\"0x"@[0] == ',' && ",\"user_address\":\"0x"@[1] == '\"' && ",\"user_address\":\"0x"@[2] == 'u' && ",\"user_address\":\"0x"@[3] == 's' && ",\"user_address\":\"0x"@[4] == 'e' && ",\"user_address\":\"0x"@[5] == 'r' && ",\"user_address\":\"0x"@[6] == '_' && ",\"user_address\":\"0x"@[7] == 'a' && ",\"user_address\":\"0x"@[8] == 'd' && ",\"user_address\":\"0x"@[9] == 'd' && ",\"user_address\":\"0x"@[10] == 'r' && ",\"user_address\":\"0x"@[11] == 'e' && ",\"user_address\":\"0x"@[12] == 's' && ",\"user_address\":\"0x"@[13] == 's' && ",\"user_address\":\"0x"@[14] == '\"' && ",\"user_address\":\"0x"@[15] == ':' && ",\"user_address\":\"0x"@[16] == '\"' && ",\"user_address\":\"0x"@[17] == '0' && ",\"user_address\":\"0x"@[18] == 'x');
    assert(vstd::utf8::is_ascii_chars(",\"user_address\":\"0x"@));
    crate::encoding::lemma_ascii_lit(",\"user_address\":\"0x");
}

proof fn lit_won()
    ensures
        ",\"won\":".spec_bytes().len() == 7,
        ",\"won\":".spec_bytes()[0] == 44,
{
    reveal_strlit(",\"won\":");
    assert(",\"won\":"@.len() == 7);
    assert(",\"won\":"@[0] == ',' && ",\"won\":"@[1] == '\"' && ",\"won\":"@[2] == 'w' && ",\"won\":"@[3] == 'o' && ",\"won\":"@[4] == 'n' && ",\"won\":"@[5] == '\"' && ",\"won\":"@[6] == ':');
    assert(vstd::utf8::is_ascii_chars(",\"won\":"@));
    crate::encoding::lemma_ascii_lit(",\"won\":");
}

/// Advances past an expected literal exactly when it is there.
fn expect_lit(s: &[u8], pos: usize, lit: &str) -> (r: Option<usize>)
    ensures
        r matches Some(p) ==> p == pos + lit.spec_bytes().len()
            && pos + lit.spec_bytes().len() <= s@.len()
            && s@.subrange(pos as int, p as int) == lit.spec_bytes(),
        r is None ==> !(pos + lit.spec_bytes().len() <= s@.len()
            && s@.subrange(pos as int, pos + lit.spec_bytes().len()) == lit.spec_bytes()),
{
    let l = lit.as_bytes();
    if pos > s.len() || l.len() > s.len() - pos {
        return None;
    }
    for i in 0..l.len()
        invariant
            pos + l@.len() <= s@.len(),
            s@.len() <= usize::MAX,
            l@ == lit.spec_bytes(),
            forall|k: int| 0 <= k < i ==> s@[pos + k] == l@[k],
    {
        if s[pos + i] != l[i] {
            proof {
                assert(s@.subrange(pos as int, pos + l@.len())[i as int] != l@[i as int]);
            }
            return None;
        }
    }
    proof {
        assert(s@.subrange(pos as int, pos + l@.len()) =~= l@);
    }
    Some(pos + l.len())
}

/// Reads the bytes strictly before the next double quote, and where that
/// quote stands; nothing if no quote follows.
fn read_string_body(s: &[u8], pos: usize) -> (r: Option<(Vec<u8>, usize)>)
    ensures
        r matches Some((v, q)) ==> pos <= q < s@.len() && s@[q as int] == 34
            && v@ == s@.subrange(pos as int, q as int)
            && (forall|k: int| pos <= k < q ==> s@[k] != 34),
        r is None ==> forall|k: int| pos <= k < s@.len() ==> s@[k] != 34,
{
    if pos > s.len() {
        return None;
    }
    let mut out: Vec<u8> = Vec::new();
    let mut i: usize = pos;
    while i < s.len()
        invariant
            pos <= i <= s@.len(),
            out@ =~= s@.subrange(pos as int, i as int),
            forall|k: int| pos <= k < i ==> s@[k] != 34,
        decreases s@.len() - i,
    {
        let b = s[i];
        if b == 34 {
            return Some((out, i));
        }
        out.push(b);
        proof {
            assert(s@.subrange(pos as int, i + 1)
                =~= s@.subrange(pos as int, i as int).push(s@[i as int]));
        }
        i = i + 1;
    }
    None
}

/// Reads a decimal number: exactly the digit run at `pos`, unless it is
/// empty or its value overflows.
fn read_number(s: &[u8], pos: usize) -> (r: Option<(u64, usize)>)
    ensures
        ({
            let e = crate::encoding::digit_run_end(s@, pos as int);
            &&& (r matches Some((v, p)) ==> pos < e && p == e
                && v == crate::encoding::digits_val(s@.subrange(pos as int, e)))
            &&& (r is None ==> pos as int == e
                || crate::encoding::digits_val(s@.subrange(pos as int, e)) > u64::MAX)
        }),
{
    if pos >= s.len() {
        return None;
    }
    let mut i: usize = pos;
    let mut value: u64 = 0;
    let mut any: bool = false;
    while i < s.len() && 48 <= s[i] && s[i] <= 57
        invariant
            pos <= i <= s@.len(),
            forall|k: int| pos <= k < i ==> crate::encoding::is_dec_digit(#[trigger] s@[k]),
            any == (i > pos),
            value == crate::encoding::digits_val(s@.subrange(pos as int, i as int)),
        decreases s@.len() - i,
    {
        let d = s[i] - 48;
        if value > (u64::MAX - d as u64) / 10 {
            proof {
                let e = crate::encoding::digit_run_end(s@, pos as int);
                assert(crate::encoding::is_dec_digit(s@[i as int]));
                crate::encoding::lemma_digit_run_end_step(s@, pos as int, i + 1);
                crate::encoding::lemma_digit_run_end_bounds(s@, i + 1);
                assert(e >= i + 1);
                let t = s@.subrange(pos as int, i + 1);
                assert(t =~= s@.subrange(pos as int, i as int).push(s@[i as int]));
                assert(t.drop_last() =~= s@.subrange(pos as int, i as int));
                assert(t.last() == s@[i as int] && t.last() >= 48);
                assert(crate::encoding::digits_val(t) == value * 10 + d);
                assert(s@.subrange(pos as int, e).take(i + 1 - pos)
                    =~= s@.subrange(pos as int, i + 1));
                crate::encoding::lemma_digits_val_prefix(s@.subrange(pos as int, e), i + 1 - pos);
                assert(value * 10 + d > u64::MAX);
            }
            return None;
        }
        proof {
            let t = s@.subrange(pos as int, i + 1);
            assert(t =~= s@.subrange(pos as int, i as int).push(s@[i as int]));
            assert(t.drop_last() =~= s@.subrange(pos as int, i as int));
            assert(t.last() == s@[i as int] && t.last() >= 48);
            assert(crate::encoding::digits_val(t) == value * 10 + d);
        }
        value = value * 10 + d as u64;
        any = true;
        i = i + 1;
    }
    proof {
        crate::encoding::lemma_digit_run_end_step(s@, pos as int, i as int);
        assert(crate::encoding::digit_run_end(s@, i as int) == i);
    }
    if any {
        Some((value, i))
    } else {
        None
    }
}

/// The positions the canonical profile object decomposes at, measured from
/// its start: the id digits, the avatar body, each counter, the brace.
pub open spec fn prof_id_end(p: Profile, q: int) -> int {
    q + 9 + hex_bytes_of(p.id@).len() as int
}

pub open spec fn prof_av_end(p: Profile, q: int) -> int {
    prof_id_end(p, q) + 12 + encode_utf8(p.avatar@).len() as int
}

pub open spec fn prof_rating_end(p: Profile, q: int) -> int {
    prof_av_end(p, q) + 11 + dec_bytes_of(p.rating as nat).len() as int
}

pub open spec fn prof_played_end(p: Profile, q: int) -> int {
    prof_rating_end(p, q) + 10 + dec_bytes_of(p.played as nat).len() as int
}

pub open spec fn prof_won_end(p: Profile, q: int) -> int {
    prof_played_end(p, q) + 7 + dec_bytes_of(p.won as nat).len() as int
}

pub open spec fn prof_lost_end(p: Profile, q: int) -> int {
    prof_won_end(p, q) + 8 + dec_bytes_of(p.lost as nat).len() as int
}

/// How one canonical profile object sits inside a byte string: every
/// literal, hex, string and digit segment at its place.
#[verifier::rlimit(100)]
#[verifier::spinoff_prover]
proof fn lemma_profile_layout(p: Profile, s: Seq<u8>, q: int)
    requires
        crate::encoding::bytes_plain(encode_utf8(p.avatar@)),
        0 <= q,
        q + profile_json_of(p).len() <= s.len(),
        s.subrange(q, q + profile_json_of(p).len()) == profile_json_of(p),
    ensures
        q + profile_json_of(p).len() == prof_lost_end(p, q) + 1,
        s.subrange(q, q + 9) == "{\"id\":\"0x".spec_bytes(),
        s.subrange(q + 9, prof_id_end(p, q)) == hex_bytes_of(p.id@),
        forall|k: int| q + 9 <= k < prof_id_end(p, q) ==> s[k] != 34,
        s[prof_id_end(p, q)] == 34,
        s.subrange(prof_id_end(p, q), prof_id_end(p, q) + 11) == "\",\"avatar\":".spec_bytes(),
        s[prof_id_end(p, q) + 11] == 34,
        s.subrange(prof_id_end(p, q) + 12, prof_av_end(p, q)) == encode_utf8(p.avatar@),
        forall|k: int| prof_id_end(p, q) + 12 <= k < prof_av_end(p, q) ==> s[k] != 34,
        s[prof_av_end(p, q)] == 34,
        s.subrange(prof_av_end(p, q) + 1, prof_av_end(p, q) + 11) == ",\"rating\":".spec_bytes(),
        crate::encoding::digit_run_end(s, prof_av_end(p, q) + 11) == prof_rating_end(p, q),
        crate::encoding::digits_val(s.subrange(prof_av_end(p, q) + 11, prof_rating_end(p, q)))
            == p.rating,
        s.subrange(prof_rating_end(p, q), prof_rating_end(p, q) + 10)
            == ",\"played\":".spec_bytes(),
        crate::encoding::digit_run_end(s, prof_rating_end(p, q) + 10) == prof_played_end(p, q),
        crate::encoding::digits_val(s.subrange(prof_rating_end(p, q) + 10, prof_played_end(p, q)))
            == p.played,
        s.subrange(prof_played_end(p, q), prof_played_end(p, q) + 7) == ",\"won\":".spec_bytes(),
        crate::encoding::digit_run_end(s, prof_played_end(p, q) + 7) == prof_won_end(p, q),
        crate::encoding::digits_val(s.subrange(prof_played_end(p, q) + 7, prof_won_end(p, q)))
            == p.won,
        s.subrange(prof_won_end(p, q), prof_won_end(p, q) + 8) == ",\"lost\":".spec_bytes(),
        crate::encoding::digit_run_end(s, prof_won_end(p, q) + 8) == prof_lost_end(p, q),
        crate::encoding::digits_val(s.subrange(prof_won_end(p, q) + 8, prof_lost_end(p, q)))
            == p.lost,
        s.subrange(prof_lost_end(p, q), prof_lost_end(p, q) + 1) == "}".spec_bytes(),
{
    lit_obj_id();
    lit_avatar();
    lit_rating();
    lit_played();
    lit_won();
    lit_lost();
    lit_close();
    crate::encoding::lemma_hex_bytes_plain(p.id@);
    crate::encoding::lemma_plain_escape_identity(encode_utf8(p.avatar@));
    crate::encoding::lemma_dec_bytes_digits(p.rating as nat);
    crate::encoding::lemma_dec_bytes_digits(p.played as nat);
    crate::encoding::lemma_dec_bytes_digits(p.won as nat);
    crate::encoding::lemma_dec_bytes_digits(p.lost as nat);
    let t = profile_json_of(p);
    assert(json_string_of(encode_utf8(p.avatar@)).len() == 2 + encode_utf8(p.avatar@).len());
    let pa1 = "{\"id\":\"0x".spec_bytes();
    let pa2 = pa1 + hex_bytes_of(p.id@);
    let pa3 = pa2 + "\",\"avatar\":".spec_bytes();
    let pa4 = pa3 + json_string_of(encode_utf8(p.avatar@));
    let pa5 = pa4 + ",\"rating\":".spec_bytes();
    let pa6 = pa5 + dec_bytes_of(p.rating as nat);
    let pa7 = pa6 + ",\"played\":".spec_bytes();
    let pa8 = pa7 + dec_bytes_of(p.played as nat);
    let pa9 = pa8 + ",\"won\":".spec_bytes();
    let pa10 = pa9 + dec_bytes_of(p.won as nat);
    let pa11 = pa10 + ",\"lost\":".spec_bytes();
    let pa12 = pa11 + dec_bytes_of(p.lost as nat);
    let pa13 = pa12 + "}".spec_bytes();
    assert(t == pa13);
    assert(t.subrange(0, t.len() as int) =~= t);
    crate::encoding::lemma_concat_parts(pa12, "}".spec_bytes(), t, 0);
    crate::encoding::lemma_concat_parts(pa11, dec_bytes_of(p.lost as nat), t, 0);
    crate::encoding::lemma_concat_parts(pa10, ",\"lost\":".spec_bytes(), t, 0);
    crate::encoding::lemma_concat_parts(pa9, dec_bytes_of(p.won as nat), t, 0);
    crate::encoding::lemma_concat_parts(pa8, ",\"won\":".spec_bytes(), t, 0);
    crate::encoding::lemma_concat_parts(pa7, dec_bytes_of(p.played as nat), t, 0);
    crate::encoding::lemma_concat_parts(pa6, ",\"played\":".spec_bytes(), t, 0);
    crate::encoding::lemma_concat_parts(pa5, dec_bytes_of(p.rating as nat), t, 0);
    crate::encoding::lemma_concat_parts(pa4, ",\"rating\":".spec_bytes(), t, 0);
    crate::encoding::lemma_concat_parts(pa3, json_string_of(encode_utf8(p.avatar@)), t, 0);
    crate::encoding::lemma_concat_parts(pa2, "\",\"avatar\":".spec_bytes(), t, 0);
    crate::encoding::lemma_concat_parts(pa1, hex_bytes_of(p.id@), t, 0);
    // map the object-relative facts into s
    crate::encoding::lemma_subrange_offset(s, t, q, 0, 9);
    crate::encoding::lemma_subrange_offset(s, t, q, 9, prof_id_end(p, 0));
    crate::encoding::lemma_subrange_offset(s, t, q, prof_id_end(p, 0), prof_id_end(p, 0) + 11);
    crate::encoding::lemma_subrange_offset(s, t, q, prof_id_end(p, 0) + 11, prof_av_end(p, 0) + 1);
    crate::encoding::lemma_subrange_offset(s, t, q, prof_av_end(p, 0) + 1, prof_av_end(p, 0) + 11);
    crate::encoding::lemma_subrange_offset(s, t, q, prof_av_end(p, 0) + 11, prof_rating_end(p, 0));
    crate::encoding::lemma_subrange_offset(s, t, q, prof_rating_end(p, 0), prof_rating_end(p, 0) + 10);
    crate::encoding::lemma_subrange_offset(s, t, q, prof_rating_end(p, 0) + 10, prof_played_end(p, 0));
    crate::encoding::lemma_subrange_offset(s, t, q, prof_played_end(p, 0), prof_played_end(p, 0) + 7);
    crate::encoding::lemma_subrange_offset(s, t, q, prof_played_end(p, 0) + 7, prof_won_end(p, 0));
    crate::encoding::lemma_subrange_offset(s, t, q, prof_won_end(p, 0), prof_won_end(p, 0) + 8);
    crate::encoding::lemma_subrange_offset(s, t, q, prof_won_end(p, 0) + 8, prof_lost_end(p, 0));
    crate::encoding::lemma_subrange_offset(s, t, q, prof_lost_end(p, 0), prof_lost_end(p, 0) + 1);
    assert(s.subrange(q + (prof_id_end(p, 0) + 11), q + (prof_av_end(p, 0) + 1))
        == seq![34u8] + encode_utf8(p.avatar@) + seq![34u8]) by {
        assert(json_string_of(encode_utf8(p.avatar@)) =~= seq![34u8] + encode_utf8(p.avatar@)
            + seq![34u8]);
    }
    crate::encoding::lemma_concat_parts(seq![34u8] + encode_utf8(p.avatar@), seq![34u8], s,
        q + prof_id_end(p, 0) + 11);
    crate::encoding::lemma_concat_parts(seq![34u8], encode_utf8(p.avatar@), s,
        q + prof_id_end(p, 0) + 11);
    assert(s.subrange(q + (prof_id_end(p, 0) + 11), q + (prof_id_end(p, 0) + 12))[0] == 34);
    assert(s[prof_id_end(p, q) + 11] == 34);
    assert(s.subrange(q + prof_av_end(p, 0), q + (prof_av_end(p, 0) + 1))[0] == 34);
    assert(s[prof_av_end(p, q)] == 34);
    assert(s.subrange(q + prof_id_end(p, 0), q + (prof_id_end(p, 0) + 11))[0] == 34);
    assert(s[prof_id_end(p, q)] == 34);
    assert forall|k: int| q + 9 <= k < prof_id_end(p, q) implies s[k] != 34 by {
        assert(s.subrange(q + 9, prof_id_end(p, q))[k - q - 9] == s[k]);
    }
    assert forall|k: int| prof_id_end(p, q) + 12 <= k < prof_av_end(p, q) implies s[k] != 34 by {
        assert(s.subrange(q + (prof_id_end(p, 0) + 12), q + prof_av_end(p, 0))[
            k - q - prof_id_end(p, 0) - 12] == s[k]);
    }
    lemma_digit_segment(s, prof_av_end(p, q) + 11, dec_bytes_of(p.rating as nat),
        p.rating as nat, 44);
    lemma_digit_segment(s, prof_rating_end(p, q) + 10, dec_bytes_of(p.played as nat),
        p.played as nat, 44);
    lemma_digit_segment(s, prof_played_end(p, q) + 7, dec_bytes_of(p.won as nat),
        p.won as nat, 44);
    lemma_digit_segment(s, prof_won_end(p, q) + 8, dec_bytes_of(p.lost as nat),
        p.lost as nat, 125);

}

/// A digit segment followed by a non-digit byte is exactly the digit run
/// at its start.
proof fn lemma_digit_segment(s: Seq<u8>, a: int, d: Seq<u8>, n: nat, term: u8)
    requires
        0 <= a,
        a + d.len() < s.len(),
        d == dec_bytes_of(n),
        s.subrange(a, a + d.len()) == d,
        s[a + d.len()] == term,
        !crate::encoding::is_dec_digit(term),
    ensures
        crate::encoding::digit_run_end(s, a) == a + d.len(),
        crate::encoding::digits_val(s.subrange(a, a + d.len())) == n,
{
    crate::encoding::lemma_dec_bytes_digits(n);
    assert forall|k: int| a <= k < a + d.len() implies crate::encoding::is_dec_digit(
        #[trigger] s[k],
    ) by {
        assert(s.subrange(a, a + d.len())[k - a] == s[k]);
    }
    crate::encoding::lemma_digit_run_end_step(s, a, a + d.len());
}

/// Reads a profile object or the null marker; a null marker is always
/// read exactly.
fn read_profile(s: &[u8], pos: usize) -> (r: Option<(Option<Profile>, usize)>)
    ensures
        r matches Some((v, p)) ==> pos <= p <= s@.len(),
        (pos + 4 <= s@.len() && s@.subrange(pos as int, pos + 4) == "null".spec_bytes())
            ==> r == Some((None::<Profile>, (pos + 4) as usize)),
{
    proof {
        lit_null();
    }
    match expect_lit(s, pos, "null") {
        Some(p) => { return Some((None, p)); },
        None => {},
    }
    let p0 = expect_lit(s, pos, "{\"id\":\"0x")?;
    let (id_hex, q1) = read_string_body(s, p0)?;
    let id = crate::encoding::decode_hex(id_hex.as_slice())?;
    let p1 = expect_lit(s, q1, "\",\"avatar\":")?;
    if p1 >= s.len() || s[p1] != 34 {
        return None;
    }
    let (avatar_bytes, q2) = read_string_body(s, p1 + 1)?;
    let avatar = crate::encoding::bytes_to_string(avatar_bytes)?;
    let p2 = expect_lit(s, q2 + 1, ",\"rating\":")?;
    let (rating, p3) = read_number(s, p2)?;
    let p4 = expect_lit(s, p3, ",\"played\":")?;
    let (played, p5) = read_number(s, p4)?;
    let p6 = expect_lit(s, p5, ",\"won\":")?;
    let (won, p7) = read_number(s, p6)?;
    let p8 = expect_lit(s, p7, ",\"lost\":")?;
    let (lost, p9) = read_number(s, p8)?;
    let p10 = expect_lit(s, p9, "}")?;
    Some((Some(Profile { id, avatar, rating, played, won, lost }), p10))
}

/// The positions the canonical claims JSON decomposes at.
pub open spec fn iss_end(c: TokenClaims) -> int {
    8 + encode_utf8(c.iss@).len() as int
}

pub open spec fn sub_end(c: TokenClaims) -> int {
    iss_end(c) + 9 + encode_utf8(c.sub@).len() as int
}

pub open spec fn exp_end(c: TokenClaims) -> int {
    sub_end(c) + 8 + dec_bytes_of(c.exp as nat).len() as int
}

pub open spec fn iat_end(c: TokenClaims) -> int {
    exp_end(c) + 7 + dec_bytes_of(c.iat as nat).len() as int
}

pub open spec fn prof_end(c: TokenClaims) -> int {
    iat_end(c) + 11 + profile_seg(c.profile).len() as int
}

pub open spec fn ua_end(c: TokenClaims) -> int {
    prof_end(c) + 19 + hex_bytes_of(c.user_address@).len() as int
}

pub open spec fn vk_end(c: TokenClaims) -> int {
    ua_end(c) + 16 + encode_utf8(c.session_vk@).len() as int
}

pub open spec fn ct_end(c: TokenClaims) -> int {
    vk_end(c) + 18 + dec_bytes_of(c.creation_time as nat).len() as int
}

pub open spec fn ttl_end(c: TokenClaims) -> int {
    ct_end(c) + 11 + dec_bytes_of(c.ttl_min as nat).len() as int
}

/// How one canonical claims JSON decomposes: every literal, string, hex
/// and digit segment at its place.
#[verifier::rlimit(100)]
#[verifier::spinoff_prover]
proof fn lemma_claims_layout(c: TokenClaims, s: Seq<u8>)
    requires
        claims_plain(c),
        s == claims_render(c),
    ensures
        s.len() == ttl_end(c) + 1,
        s.subrange(0, 8) == "{\"iss\":\"".spec_bytes(),
        s.subrange(8, iss_end(c)) == encode_utf8(c.iss@),
        forall|k: int| 8 <= k < iss_end(c) ==> s[k] != 34,
        s[iss_end(c)] == 34,
        s.subrange(iss_end(c), iss_end(c) + 9) == "\",\"sub\":\"".spec_bytes(),
        s.subrange(iss_end(c) + 9, sub_end(c)) == encode_utf8(c.sub@),
        forall|k: int| iss_end(c) + 9 <= k < sub_end(c) ==> s[k] != 34,
        s[sub_end(c)] == 34,
        s.subrange(sub_end(c), sub_end(c) + 8) == "\",\"exp\":".spec_bytes(),
        crate::encoding::digit_run_end(s, sub_end(c) + 8) == exp_end(c),
        crate::encoding::digits_val(s.subrange(sub_end(c) + 8, exp_end(c))) == c.exp,
        s.subrange(exp_end(c), exp_end(c) + 7) == ",\"iat\":".spec_bytes(),
        crate::encoding::digit_run_end(s, exp_end(c) + 7) == iat_end(c),
        crate::encoding::digits_val(s.subrange(exp_end(c) + 7, iat_end(c))) == c.iat,
        s.subrange(iat_end(c), iat_end(c) + 11) == ",\"profile\":".spec_bytes(),
        s.subrange(iat_end(c) + 11, prof_end(c)) == profile_seg(c.profile),
        s.subrange(prof_end(c), prof_end(c) + 19) == ",\"user_address\":\"0x".spec_bytes(),
        s.subrange(prof_end(c) + 19, ua_end(c)) == hex_bytes_of(c.user_address@),
        forall|k: int| prof_end(c) + 19 <= k < ua_end(c) ==> s[k] != 34,
        s[ua_end(c)] == 34,
        s.subrange(ua_end(c), ua_end(c) + 16) == "\",\"session_vk\":\"".spec_bytes(),
        s.subrange(ua_end(c) + 16, vk_end(c)) == encode_utf8(c.session_vk@),
        forall|k: int| ua_end(c) + 16 <= k < vk_end(c) ==> s[k] != 34,
        s[vk_end(c)] == 34,
        s.subrange(vk_end(c), vk_end(c) + 18) == "\",\"creation_time\":".spec_bytes(),
        crate::encoding::digit_run_end(s, vk_end(c) + 18) == ct_end(c),
        crate::encoding::digits_val(s.subrange(vk_end(c) + 18, ct_end(c))) == c.creation_time,
        s.subrange(ct_end(c), ct_end(c) + 11) == ",\"ttl_min\":".spec_bytes(),
        crate::encoding::digit_run_end(s, ct_end(c) + 11) == ttl_end(c),
        crate::encoding::digits_val(s.subrange(ct_end(c) + 11, ttl_end(c))) == c.ttl_min,
        s.subrange(ttl_end(c), ttl_end(c) + 1) == "}".spec_bytes(),
{
    lit_obj_iss();
    lit_sub();
    lit_exp();
    lit_iat();
    lit_profile();
    lit_user_address();
    lit_session_vk();
    lit_creation();
    lit_ttl();
    lit_close();
    crate::encoding::lemma_hex_bytes_plain(c.user_address@);
    crate::encoding::lemma_dec_bytes_digits(c.exp as nat);
    crate::encoding::lemma_dec_bytes_digits(c.iat as nat);
    crate::encoding::lemma_dec_bytes_digits(c.creation_time as nat);
    crate::encoding::lemma_dec_bytes_digits(c.ttl_min as nat);
    let ca1 = "{\"iss\":\"".spec_bytes();
    let ca2 = ca1 + encode_utf8(c.iss@);
    let ca3 = ca2 + "\",\"sub\":\"".spec_bytes();
    let ca4 = ca3 + encode_utf8(c.sub@);
    let ca5 = ca4 + "\",\"exp\":".spec_bytes();
    let ca6 = ca5 + dec_bytes_of(c.exp as nat);
    let ca7 = ca6 + ",\"iat\":".spec_bytes();
    let ca8 = ca7 + dec_bytes_of(c.iat as nat);
    let ca9 = ca8 + ",\"profile\":".spec_bytes();
    let ca10 = ca9 + profile_seg(c.profile);
    let ca11 = ca10 + ",\"user_address\":\"0x".spec_bytes();
    let ca12 = ca11 + hex_bytes_of(c.user_address@);
    let ca13 = ca12 + "\",\"session_vk\":\"".spec_bytes();
    let ca14 = ca13 + encode_utf8(c.session_vk@);
    let ca15 = ca14 + "\",\"creation_time\":".spec_bytes();
    let ca16 = ca15 + dec_bytes_of(c.creation_time as nat);
    let ca17 = ca16 + ",\"ttl_min\":".spec_bytes();
    let ca18 = ca17 + dec_bytes_of(c.ttl_min as nat);
    let ca19 = ca18 + "}".spec_bytes();
    assert(s == ca19);
    assert(s.subrange(0, s.len() as int) =~= s);
    crate::encoding::lemma_concat_parts(ca18, "}".spec_bytes(), s, 0);
    crate::encoding::lemma_concat_parts(ca17, dec_bytes_of(c.ttl_min as nat), s, 0);
    crate::encoding::lemma_concat_parts(ca16, ",\"ttl_min\":".spec_bytes(), s, 0);
    crate::encoding::lemma_concat_parts(ca15, dec_bytes_of(c.creation_time as nat), s, 0);
    crate::encoding::lemma_concat_parts(ca14, "\",\"creation_time\":".spec_bytes(), s, 0);
    crate::encoding::lemma_concat_parts(ca13, encode_utf8(c.session_vk@), s, 0);
    crate::encoding::lemma_concat_parts(ca12, "\",\"session_vk\":\"".spec_bytes(), s, 0);
    crate::encoding::lemma_concat_parts(ca11, hex_bytes_of(c.user_address@), s, 0);
    crate::encoding::lemma_concat_parts(ca10, ",\"user_address\":\"0x".spec_bytes(), s, 0);
    crate::encoding::lemma_concat_parts(ca9, profile_seg(c.profile), s, 0);
    crate::encoding::lemma_concat_parts(ca8, ",\"profile\":".spec_bytes(), s, 0);
    crate::encoding::lemma_concat_parts(ca7, dec_bytes_of(c.iat as nat), s, 0);
    crate::encoding::lemma_concat_parts(ca6, ",\"iat\":".spec_bytes(), s, 0);
    crate::encoding::lemma_concat_parts(ca5, dec_bytes_of(c.exp as nat), s, 0);
    crate::encoding::lemma_concat_parts(ca4, "\",\"exp\":".spec_bytes(), s, 0);
    crate::encoding::lemma_concat_parts(ca3, encode_utf8(c.sub@), s, 0);
    crate::encoding::lemma_concat_parts(ca2, "\",\"sub\":\"".spec_bytes(), s, 0);
    crate::encoding::lemma_concat_parts(ca1, encode_utf8(c.iss@), s, 0);
    assert(s.len() == ttl_end(c) + 1);
    assert(s.subrange(iss_end(c), iss_end(c) + 9)[0] == 34);
    assert(s[iss_end(c)] == 34);
    assert(s.subrange(sub_end(c), sub_end(c) + 8)[0] == 34);
    assert(s[sub_end(c)] == 34);
    assert(s.subrange(ua_end(c), ua_end(c) + 16)[0] == 34);
    assert(s[ua_end(c)] == 34);
    assert(s.subrange(vk_end(c), vk_end(c) + 18)[0] == 34);
    assert(s[vk_end(c)] == 34);
    assert forall|k: int| 8 <= k < iss_end(c) implies s[k] != 34 by {
        assert(s.subrange(8, iss_end(c))[k - 8] == s[k]);
    }
    assert forall|k: int| iss_end(c) + 9 <= k < sub_end(c) implies s[k] != 34 by {
        assert(s.subrange(iss_end(c) + 9, sub_end(c))[k - iss_end(c) - 9] == s[k]);
    }
    assert forall|k: int| prof_end(c) + 19 <= k < ua_end(c) implies s[k] != 34 by {
        assert(s.subrange(prof_end(c) + 19, ua_end(c))[k - prof_end(c) - 19] == s[k]);
    }
    assert forall|k: int| ua_end(c) + 16 <= k < vk_end(c) implies s[k] != 34 by {
        assert(s.subrange(ua_end(c) + 16, vk_end(c))[k - ua_end(c) - 16] == s[k]);
    }
    lemma_digit_segment(s, sub_end(c) + 8, dec_bytes_of(c.exp as nat), c.exp as nat, 44);
    lemma_digit_segment(s, exp_end(c) + 7, dec_bytes_of(c.iat as nat), c.iat as nat, 44);
    lemma_digit_segment(s, vk_end(c) + 18, dec_bytes_of(c.creation_time as nat),
        c.creation_time as nat, 44);
    lemma_digit_segment(s, ct_end(c) + 11, dec_bytes_of(c.ttl_min as nat),
        c.ttl_min as nat, 125);
}

/// Reads the leading claims fields, through the profile marker.  On the
/// canonical rendering of plain, profile-free claims the read succeeds and
/// recovers those fields.
#[verifier::rlimit(100)]
#[verifier::spinoff_prover]
fn read_claims_head(s: &[u8]) -> (r: Option<(String, String, u64, u64, usize)>)
    ensures
        r matches Some((iss, sub, exp, iat, p)) ==> p <= s@.len(),
        forall|c: TokenClaims| #![trigger claims_render(c)]
            (claims_plain(c) && c.profile is None && s@ == claims_render(c))
                ==> (r matches Some((iss, sub, exp, iat, p))
                    && encode_utf8(iss@) == encode_utf8(c.iss@)
                    && encode_utf8(sub@) == encode_utf8(c.sub@)
                    && exp == c.exp && iat == c.iat && p == iat_end(c) + 11),
{
    broadcast use vstd::utf8::encode_utf8_valid_utf8;

    let ghost have: bool = exists|c: TokenClaims| #[trigger] claims_render(c)
        == claims_render(c) && claims_plain(c) && c.profile is None && s@ == claims_render(c);
    let ghost w: TokenClaims = choose|c: TokenClaims| #![auto] claims_plain(c)
        && c.profile is None && s@ == claims_render(c);
    proof {
        if have {
            assert(claims_plain(w) && w.profile is None && s@ == claims_render(w));
        }
    }
    let p0 = match expect_lit(s, 0, "{\"iss\":\"") {
        Some(p) => p,
        None => {
            proof {
                assert forall|c: TokenClaims| #![trigger claims_render(c)]
                    !(claims_plain(c) && c.profile is None && s@ == claims_render(c)) by {
                    if claims_plain(c) && c.profile is None && s@ == claims_render(c) {
                        assert(have);
                        lemma_claims_layout(w, s@);
                        assert(false);
                    }
                }
            }
            return None;
        },
    };
    proof {
        assert(have ==> (p0 == 8)) by {
            if have {
                lemma_claims_layout(w, s@);
            }
        }
    }
    let (iss_bytes, q1) = match read_string_body(s, p0) {
        Some(x) => x,
        None => {
            proof {
                assert forall|c: TokenClaims| #![trigger claims_render(c)]
                    !(claims_plain(c) && c.profile is None && s@ == claims_render(c)) by {
                    if claims_plain(c) && c.profile is None && s@ == claims_render(c) {
                        assert(have);
                        lemma_claims_layout(w, s@);
                        assert(false);
                    }
                }
            }
            return None;
        },
    };
    proof {
        assert(have ==> (q1 == iss_end(w) && iss_bytes@ == encode_utf8(w.iss@))) by {
            if have {
                lemma_claims_layout(w, s@);
                assert(q1 == iss_end(w)) by {
                    if q1 < iss_end(w) {
                        assert(s@[q1 as int] != 34);
                    }
                    if q1 > iss_end(w) {
                        assert(s@[iss_end(w)] != 34);
                    }
                }
            }
        }
    }
    let iss = match crate::encoding::bytes_to_string(iss_bytes) {
        Some(v) => v,
        None => {
            proof {
                assert forall|c: TokenClaims| #![trigger claims_render(c)]
                    !(claims_plain(c) && c.profile is None && s@ == claims_render(c)) by {
                    if claims_plain(c) && c.profile is None && s@ == claims_render(c) {
                        assert(have);
                        lemma_claims_layout(w, s@);
                        assert(false);
                    }
                }
            }
            return None;
        },
    };
    proof {
        assert(have ==> (encode_utf8(iss@) == encode_utf8(w.iss@))) by {
            if have {
                lemma_claims_layout(w, s@);
            }
        }
    }
    let p1 = match expect_lit(s, q1, "\",\"sub\":\"") {
        Some(p) => p,
        None => {
            proof {
                assert forall|c: TokenClaims| #![trigger claims_render(c)]
                    !(claims_plain(c) && c.profile is None && s@ == claims_render(c)) by {
                    if claims_plain(c) && c.profile is None && s@ == claims_render(c) {
                        assert(have);
                        lemma_claims_layout(w, s@);
                        assert(false);
                    }
                }
            }
            return None;
        },
    };
    proof {
        assert(have ==> (p1 == iss_end(w) + 9)) by {
            if have {
                lemma_claims_layout(w, s@);
            }
        }
    }
    let (sub_bytes, q2) = match read_string_body(s, p1) {
        Some(x) => x,
        None => {
            proof {
                assert forall|c: TokenClaims| #![trigger claims_render(c)]
                    !(claims_plain(c) && c.profile is None && s@ == claims_render(c)) by {
                    if claims_plain(c) && c.profile is None && s@ == claims_render(c) {
                        assert(have);
                        lemma_claims_layout(w, s@);
                        assert(false);
                    }
                }
            }
            return None;
        },
    };
    proof {
        assert(have ==> (q2 == sub_end(w) && sub_bytes@ == encode_utf8(w.sub@))) by {
            if have {
                lemma_claims_layout(w, s@);
                assert(q2 == sub_end(w)) by {
                    if q2 < sub_end(w) {
                        assert(s@[q2 as int] != 34);
                    }
                    if q2 > sub_end(w) {
                        assert(s@[sub_end(w)] != 34);
                    }
                }
            }
        }
    }
    let sub = match crate::encoding::bytes_to_string(sub_bytes) {
        Some(v) => v,
        None => {
            proof {
                assert forall|c: TokenClaims| #![trigger claims_render(c)]
                    !(claims_plain(c) && c.profile is None && s@ == claims_render(c)) by {
                    if claims_plain(c) && c.profile is None && s@ == claims_render(c) {
                        assert(have);
                        lemma_claims_layout(w, s@);
                        assert(false);
                    }
                }
            }
            return None;
        },
    };
    proof {
        assert(have ==> (encode_utf8(sub@) == encode_utf8(w.sub@))) by {
            if have {
                lemma_claims_layout(w, s@);
            }
        }
    }
    let p2 = match expect_lit(s, q2, "\",\"exp\":") {
        Some(p) => p,
        None => {
            proof {
                assert forall|c: TokenClaims| #![trigger claims_render(c)]
                    !(claims_plain(c) && c.profile is None && s@ == claims_render(c)) by {
                    if claims_plain(c) && c.profile is None && s@ == claims_render(c) {
                        assert(have);
                        lemma_claims_layout(w, s@);
                        assert(false);
                    }
                }
            }
            return None;
        },
    };
    proof {
        assert(have ==> (p2 == sub_end(w) + 8)) by {
            if have {
                lemma_claims_layout(w, s@);
            }
        }
    }
    let (exp, p3) = match read_number(s, p2) {
        Some(x) => x,
        None => {
            proof {
                assert forall|c: TokenClaims| #![trigger claims_render(c)]
                    !(claims_plain(c) && c.profile is None && s@ == claims_render(c)) by {
                    if claims_plain(c) && c.profile is None && s@ == claims_render(c) {
                        assert(have);
                        lemma_claims_layout(w, s@);
                        assert(false);
                    }
                }
            }
            return None;
        },
    };
    proof {
        assert(have ==> (p3 == exp_end(w) && exp == w.exp)) by {
            if have {
                lemma_claims_layout(w, s@);
            }
        }
    }
    let p4 = match expect_lit(s, p3, ",\"iat\":") {
        Some(p) => p,
        None => {
            proof {
                assert forall|c: TokenClaims| #![trigger claims_render(c)]
                    !(claims_plain(c) && c.profile is None && s@ == claims_render(c)) by {
                    if claims_plain(c) && c.profile is None && s@ == claims_render(c) {
                        assert(have);
                        lemma_claims_layout(w, s@);
                        assert(false);
                    }
                }
            }
            return None;
        },
    };
    proof {
        assert(have ==> (p4 == exp_end(w) + 7)) by {
            if have {
                lemma_claims_layout(w, s@);
            }
        }
    }
    let (iat, p5) = match read_number(s, p4) {
        Some(x) => x,
        None => {
            proof {
                assert forall|c: TokenClaims| #![trigger claims_render(c)]
                    !(claims_plain(c) && c.profile is None && s@ == claims_render(c)) by {
                    if claims_plain(c) && c.profile is None && s@ == claims_render(c) {
                        assert(have);
                        lemma_claims_layout(w, s@);
                        assert(false);
                    }
                }
            }
            return None;
        },
    };
    proof {
        assert(have ==> (p5 == iat_end(w) && iat == w.iat)) by {
            if have {
                lemma_claims_layout(w, s@);
            }
        }
    }
    let p6 = match expect_lit(s, p5, ",\"profile\":") {
        Some(p) => p,
        None => {
            proof {
                assert forall|c: TokenClaims| #![trigger claims_render(c)]
                    !(claims_plain(c) && c.profile is None && s@ == claims_render(c)) by {
                    if claims_plain(c) && c.profile is None && s@ == claims_render(c) {
                        assert(have);
                        lemma_claims_layout(w, s@);
                        assert(false);
                    }
                }
            }
            return None;
        },
    };
    proof {
        assert(have ==> (p6 == iat_end(w) + 11)) by {
            if have {
                lemma_claims_layout(w, s@);
            }
        }
    }
    proof {
        assert forall|c: TokenClaims| #![trigger claims_render(c)]
            (claims_plain(c) && c.profile is None && s@ == claims_render(c))
            implies (encode_utf8(iss@) == encode_utf8(c.iss@)
            && encode_utf8(sub@) == encode_utf8(c.sub@) && exp == c.exp && iat == c.iat
            && p6 == iat_end(c) + 11) by {
            assert(have);
            lemma_claims_layout(c, s@);
            lemma_claims_layout(w, s@);
            assert(iss_end(c) == iss_end(w)) by {
                if iss_end(c) < iss_end(w) {
                    assert(s@[iss_end(c)] != 34);
                }
                if iss_end(c) > iss_end(w) {
                    assert(s@[iss_end(w)] != 34);
                }
            }
            assert(encode_utf8(c.iss@) == s@.subrange(8, iss_end(c)));
            assert(encode_utf8(w.iss@) == s@.subrange(8, iss_end(w)));
            assert(sub_end(c) == sub_end(w)) by {
                if sub_end(c) < sub_end(w) {
                    assert(s@[sub_end(c)] != 34);
                }
                if sub_end(c) > sub_end(w) {
                    assert(s@[sub_end(w)] != 34);
                }
            }
            assert(encode_utf8(c.sub@) == s@.subrange(iss_end(c) + 9, sub_end(c)));
            assert(exp_end(c) == exp_end(w));
            assert(c.exp == crate::encoding::digits_val(s@.subrange(sub_end(c) + 8, exp_end(c))));
            assert(iat_end(c) == iat_end(w));
            assert(c.iat == crate::encoding::digits_val(s@.subrange(exp_end(c) + 7, iat_end(c))));
        }
    }
    Some((iss, sub, exp, iat, p6))
}

/// Two plain, profile-free claims records rendering to the same bytes
/// agree on the fields the token reader returns.
#[verifier::rlimit(100)]
#[verifier::spinoff_prover]
proof fn lemma_claims_fields_unique(c: TokenClaims, w: TokenClaims, s: Seq<u8>)
    requires
        claims_plain(c),
        c.profile is None,
        s == claims_render(c),
        claims_plain(w),
        w.profile is None,
        s == claims_render(w),
    ensures
        c.user_address@ == w.user_address@,
        encode_utf8(c.session_vk@) == encode_utf8(w.session_vk@),
        ua_end(c) == ua_end(w),
        vk_end(c) == vk_end(w),
{
    lemma_claims_layout(c, s);
    lemma_claims_layout(w, s);
    assert(iss_end(c) == iss_end(w)) by {
        if iss_end(c) < iss_end(w) {
            assert(s[iss_end(c)] != 34);
        }
        if iss_end(c) > iss_end(w) {
            assert(s[iss_end(w)] != 34);
        }
    }
    assert(sub_end(c) == sub_end(w)) by {
        if sub_end(c) < sub_end(w) {
            assert(s[sub_end(c)] != 34);
        }
        if sub_end(c) > sub_end(w) {
            assert(s[sub_end(w)] != 34);
        }
    }
    assert(exp_end(c) == exp_end(w) && iat_end(c) == iat_end(w));
    assert(prof_end(c) == prof_end(w));
    assert(ua_end(c) == ua_end(w)) by {
        if ua_end(c) < ua_end(w) {
            assert(s[ua_end(c)] != 34);
        }
        if ua_end(c) > ua_end(w) {
            assert(s[ua_end(w)] != 34);
        }
    }
    assert(hex_bytes_of(c.user_address@) == s.subrange(prof_end(c) + 19, ua_end(c)));
    crate::encoding::lemma_hex_encode_parse(c.user_address@);
    crate::encoding::lemma_hex_encode_parse(w.user_address@);
    assert(c.user_address@ == w.user_address@);
    assert(vk_end(c) == vk_end(w)) by {
        if vk_end(c) < vk_end(w) {
            assert(s[vk_end(c)] != 34);
        }
        if vk_end(c) > vk_end(w) {
            assert(s[vk_end(w)] != 34);
        }
    }
    assert(encode_utf8(c.session_vk@) == s.subrange(ua_end(c) + 16, vk_end(c)));
}

/// Where the profile marker's null object sits for a plain, profile-free
/// claims record.
#[verifier::rlimit(100)]
#[verifier::spinoff_prover]
proof fn lemma_profile_marker(w: TokenClaims, s: Seq<u8>, p6: int)
    requires
        claims_plain(w),
        w.profile is None,
        s == claims_render(w),
        p6 == iat_end(w) + 11,
    ensures
        p6 + 4 <= s.len(),
        s.subrange(p6, p6 + 4) == "null".spec_bytes(),
        prof_end(w) == iat_end(w) + 15,
{
    lemma_claims_layout(w, s);
    lit_null();
    assert(profile_seg(w.profile) == "null".spec_bytes());
}

/// Reads the profile slot, which for a plain, profile-free record holds
/// the null marker.
#[verifier::rlimit(100)]
#[verifier::spinoff_prover]
fn read_profile_slot(s: &[u8], p6: usize) -> (r: Option<(Option<Profile>, usize)>)
    requires
        forall|c: TokenClaims| #![trigger claims_render(c)]
            (claims_plain(c) && c.profile is None && s@ == claims_render(c))
                ==> p6 == iat_end(c) + 11,
    ensures
        r matches Some((v, p)) ==> p6 <= p <= s@.len(),
        forall|c: TokenClaims| #![trigger claims_render(c)]
            (claims_plain(c) && c.profile is None && s@ == claims_render(c))
                ==> (r matches Some((v, p)) && v is None && p == prof_end(c)),
{
    let n = s.len();
    let r = read_profile(s, p6);
    proof {
        assert(n == s@.len());
        assert forall|c: TokenClaims| #![trigger claims_render(c)]
            (claims_plain(c) && c.profile is None && s@ == claims_render(c))
            implies (r matches Some((v, p)) && v is None && p == prof_end(c)) by {
            assert(p6 == iat_end(c) + 11);
            lemma_profile_marker(c, s@, p6 as int);
            assert(p6 + 4 <= s@.len());
            assert(s@.subrange(p6 as int, p6 + 4) == "null".spec_bytes());
            assert(r == Some((None::<Profile>, (p6 + 4) as usize)));
            assert(prof_end(c) == iat_end(c) + 15);
        }
    }
    r
}

/// Reads the user address.  On the canonical rendering of plain,
/// profile-free claims the read succeeds and recovers the address.
#[verifier::rlimit(100)]
#[verifier::spinoff_prover]
fn read_claims_mid1(s: &[u8], p7: usize) -> (r: Option<(Vec<u8>, usize)>)
    requires
        forall|c: TokenClaims| #![trigger claims_render(c)]
            (claims_plain(c) && c.profile is None && s@ == claims_render(c))
                ==> p7 == prof_end(c),
    ensures
        r matches Some((ua, p)) ==> p <= s@.len(),
        forall|c: TokenClaims| #![trigger claims_render(c)]
            (claims_plain(c) && c.profile is None && s@ == claims_render(c))
                ==> (r matches Some((ua, p)) && ua@ == c.user_address@ && p == ua_end(c)),
{
    broadcast use vstd::utf8::encode_utf8_valid_utf8;

    let ghost have: bool = exists|c: TokenClaims| #[trigger] claims_render(c)
        == claims_render(c) && claims_plain(c) && c.profile is None && s@ == claims_render(c);
    let ghost w: TokenClaims = choose|c: TokenClaims| #![auto] claims_plain(c)
        && c.profile is None && s@ == claims_render(c);
    proof {
        if have {
            assert(claims_plain(w) && w.profile is None && s@ == claims_render(w));
        }
    }
    let p8 = match expect_lit(s, p7, ",\"user_address\":\"0x") {
        Some(p) => p,
        None => {
            proof {
                assert forall|c: TokenClaims| #![trigger claims_render(c)]
                    !(claims_plain(c) && c.profile is None && s@ == claims_render(c)) by {
                    if claims_plain(c) && c.profile is None && s@ == claims_render(c) {
                        assert(have);
                        lemma_claims_layout(w, s@);
                        assert(false);
                    }
                }
            }
            return None;
        },
    };
    proof {
        assert(have ==> (p8 == prof_end(w) + 19)) by {
            if have {
                lit_user_address();
            }
        }
    }
    let (addr_hex, q3) = match read_string_body(s, p8) {
        Some(x) => x,
        None => {
            proof {
                assert forall|c: TokenClaims| #![trigger claims_render(c)]
                    !(claims_plain(c) && c.profile is None && s@ == claims_render(c)) by {
                    if claims_plain(c) && c.profile is None && s@ == claims_render(c) {
                        assert(have);
                        lemma_claims_layout(w, s@);
                        assert(false);
                    }
                }
            }
            return None;
        },
    };
    proof {
        assert(have ==> (q3 == ua_end(w) && addr_hex@ == hex_bytes_of(w.user_address@))) by {
            if have {
                lemma_claims_layout(w, s@);
                assert(q3 == ua_end(w)) by {
                    if q3 < ua_end(w) {
                        assert(s@[q3 as int] != 34);
                    }
                    if q3 > ua_end(w) {
                        assert(s@[ua_end(w)] != 34);
                    }
                }
            }
        }
    }
    let user_address = match crate::encoding::decode_hex(addr_hex.as_slice()) {
        Some(v) => v,
        None => {
            proof {
                assert forall|c: TokenClaims| #![trigger claims_render(c)]
                    !(claims_plain(c) && c.profile is None && s@ == claims_render(c)) by {
                    if claims_plain(c) && c.profile is None && s@ == claims_render(c) {
                        assert(have);
                        lemma_claims_layout(w, s@);
                        crate::encoding::lemma_hex_encode_parse(w.user_address@);
                        assert(false);
                    }
                }
            }
            return None;
        },
    };
    proof {
        assert(have ==> (user_address@ == w.user_address@)) by {
            if have {
                crate::encoding::lemma_hex_encode_parse(w.user_address@);
            }
        }
    }
    proof {
        assert forall|c: TokenClaims| #![trigger claims_render(c)]
            (claims_plain(c) && c.profile is None && s@ == claims_render(c))
            implies (user_address@ == c.user_address@ && q3 == ua_end(c)) by {
            assert(have);
            lemma_claims_fields_unique(c, w, s@);
        }
    }
    Some((user_address, q3))
}

/// Reads the session key up to the creation-time marker.  On the
/// canonical rendering of plain, profile-free claims the read succeeds and
/// recovers the key.
#[verifier::rlimit(100)]
#[verifier::spinoff_prover]
fn read_claims_mid2(s: &[u8], q3: usize) -> (r: Option<(String, usize)>)
    requires
        forall|c: TokenClaims| #![trigger claims_render(c)]
            (claims_plain(c) && c.profile is None && s@ == claims_render(c))
                ==> q3 == ua_end(c),
    ensures
        r matches Some((vk, p)) ==> p <= s@.len(),
        forall|c: TokenClaims| #![trigger claims_render(c)]
            (claims_plain(c) && c.profile is None && s@ == claims_render(c))
                ==> (r matches Some((vk, p)) && encode_utf8(vk@) == encode_utf8(c.session_vk@)
                    && p == vk_end(c) + 18)
{
    broadcast use vstd::utf8::encode_utf8_valid_utf8;

    let ghost have: bool = exists|c: TokenClaims| #[trigger] claims_render(c)
        == claims_render(c) && claims_plain(c) && c.profile is None && s@ == claims_render(c);
    let ghost w: TokenClaims = choose|c: TokenClaims| #![auto] claims_plain(c)
        && c.profile is None && s@ == claims_render(c);
    proof {
        if have {
            assert(claims_plain(w) && w.profile is None && s@ == claims_render(w));
        }
    }
    let p9 = match expect_lit(s, q3, "\",\"session_vk\":\"") {
        Some(p) => p,
        None => {
            proof {
                assert forall|c: TokenClaims| #![trigger claims_render(c)]
                    !(claims_plain(c) && c.profile is None && s@ == claims_render(c)) by {
                    if claims_plain(c) && c.profile is None && s@ == claims_render(c) {
                        assert(have);
                        lemma_claims_layout(w, s@);
                        assert(false);
                    }
                }
            }
            return None;
        },
    };
    proof {
        assert(have ==> (p9 == ua_end(w) + 16)) by {
            if have {
                lit_session_vk();
            }
        }
    }
    let (vk_bytes, q4) = match read_string_body(s, p9) {
        Some(x) => x,
        None => {
            proof {
                assert forall|c: TokenClaims| #![trigger claims_render(c)]
                    !(claims_plain(c) && c.profile is None && s@ == claims_render(c)) by {
                    if claims_plain(c) && c.profile is None && s@ == claims_render(c) {
                        assert(have);
                        lemma_claims_layout(w, s@);
                        assert(false);
                    }
                }
            }
            return None;
        },
    };
    proof {
        assert(have ==> (q4 == vk_end(w) && vk_bytes@ == encode_utf8(w.session_vk@))) by {
            if have {
                lemma_claims_layout(w, s@);
                assert(q4 == vk_end(w)) by {
                    if q4 < vk_end(w) {
                        assert(s@[q4 as int] != 34);
                    }
                    if q4 > vk_end(w) {
                        assert(s@[vk_end(w)] != 34);
                    }
                }
            }
        }
    }
    let session_vk = match crate::encoding::bytes_to_string(vk_bytes) {
        Some(v) => v,
        None => {
            proof {
                assert forall|c: TokenClaims| #![trigger claims_render(c)]
                    !(claims_plain(c) && c.profile is None && s@ == claims_render(c)) by {
                    if claims_plain(c) && c.profile is None && s@ == claims_render(c) {
                        assert(have);
                        lemma_claims_layout(w, s@);
                        assert(false);
                    }
                }
            }
            return None;
        },
    };
    proof {
        assert(have ==> (encode_utf8(session_vk@) == encode_utf8(w.session_vk@))) by {
            if have {
                assert(have);
            }
        }
    }
    let p10 = match expect_lit(s, q4, "\",\"creation_time\":") {
        Some(p) => p,
        None => {
            proof {
                assert forall|c: TokenClaims| #![trigger claims_render(c)]
                    !(claims_plain(c) && c.profile is None && s@ == claims_render(c)) by {
                    if claims_plain(c) && c.profile is None && s@ == claims_render(c) {
                        assert(have);
                        lemma_claims_layout(w, s@);
                        assert(false);
                    }
                }
            }
            return None;
        },
    };
    proof {
        assert(have ==> (p10 == vk_end(w) + 18)) by {
            if have {
                lit_creation();
            }
        }
    }
    proof {
        assert forall|c: TokenClaims| #![trigger claims_render(c)]
            (claims_plain(c) && c.profile is None && s@ == claims_render(c))
            implies (encode_utf8(session_vk@) == encode_utf8(c.session_vk@)
            && p10 == vk_end(c) + 18) by {
            assert(have);
            lemma_claims_fields_unique(c, w, s@);
        }
    }
    Some((session_vk, p10))
}

/// Reads a claims record; acceptance is decided afterwards, by comparing
/// the canonical rendering of what was read against the payload itself.
/// On the canonical rendering of plain, profile-free claims the read
/// succeeds and reproduces that rendering.
#[verifier::rlimit(100)]
#[verifier::spinoff_prover]
fn read_claims(s: &[u8]) -> (r: Option<TokenClaims>)
    ensures
        forall|c: TokenClaims| #![trigger claims_render(c)]
            (claims_plain(c) && c.profile is None && s@ == claims_render(c))
                ==> (r matches Some(c2) && claims_render(c2) == s@ && c2.exp == c.exp
                    && encode_utf8(c2.iss@) == encode_utf8(c.iss@)),
{
    broadcast use vstd::utf8::encode_utf8_valid_utf8;

    let ghost have: bool = exists|c: TokenClaims| #[trigger] claims_render(c)
        == claims_render(c) && claims_plain(c) && c.profile is None && s@ == claims_render(c);
    let ghost w: TokenClaims = choose|c: TokenClaims| #![auto] claims_plain(c)
        && c.profile is None && s@ == claims_render(c);
    proof {
        if have {
            assert(claims_plain(w) && w.profile is None && s@ == claims_render(w));
        }
    }
    let (iss, sub, exp, iat, p6) = match read_claims_head(s) {
        Some(x) => x,
        None => {
            proof {
                assert forall|c: TokenClaims| #![trigger claims_render(c)]
                    !(claims_plain(c) && c.profile is None && s@ == claims_render(c)) by {
                    if claims_plain(c) && c.profile is None && s@ == claims_render(c) {
                        assert(have);
                        lemma_claims_layout(w, s@);
                        assert(false);
                    }
                }
            }
            return None;
        },
    };
    let (profile, p7) = match read_profile_slot(s, p6) {
        Some(x) => x,
        None => {
            proof {
                assert forall|c: TokenClaims| #![trigger claims_render(c)]
                    !(claims_plain(c) && c.profile is None && s@ == claims_render(c)) by {
                    if claims_plain(c) && c.profile is None && s@ == claims_render(c) {
                        assert(have);
                        lemma_claims_layout(w, s@);
                        assert(false);
                    }
                }
            }
            return None;
        },
    };
    let (user_address, q3) = match read_claims_mid1(s, p7) {
        Some(x) => x,
        None => {
            proof {
                assert forall|c: TokenClaims| #![trigger claims_render(c)]
                    !(claims_plain(c) && c.profile is None && s@ == claims_render(c)) by {
                    if claims_plain(c) && c.profile is None && s@ == claims_render(c) {
                        assert(have);
                        lemma_claims_layout(w, s@);
                        assert(false);
                    }
                }
            }
            return None;
        },
    };
    let (session_vk, p10) = match read_claims_mid2(s, q3) {
        Some(x) => x,
        None => {
            proof {
                assert forall|c: TokenClaims| #![trigger claims_render(c)]
                    !(claims_plain(c) && c.profile is None && s@ == claims_render(c)) by {
                    if claims_plain(c) && c.profile is None && s@ == claims_render(c) {
                        assert(have);
                        lemma_claims_layout(w, s@);
                        assert(false);
                    }
                }
            }
            return None;
        },
    };
    proof {
        assert(have ==> (profile is None && user_address@ == w.user_address@
            && encode_utf8(session_vk@) == encode_utf8(w.session_vk@)
            && p10 == vk_end(w) + 18)) by {
            if have {
                assert(claims_plain(w) && w.profile is None && s@ == claims_render(w));
            }
        }
    }
    let (creation_time, p11) = match read_number(s, p10) {
        Some(x) => x,
        None => {
            proof {
                assert forall|c: TokenClaims| #![trigger claims_render(c)]
                    !(claims_plain(c) && c.profile is None && s@ == claims_render(c)) by {
                    if claims_plain(c) && c.profile is None && s@ == claims_render(c) {
                        assert(have);
                        lemma_claims_layout(w, s@);
                        assert(false);
                    }
                }
            }
            return None;
        },
    };
    proof {
        assert(have ==> (p11 == ct_end(w) && creation_time == w.creation_time)) by {
            if have {
                lemma_claims_layout(w, s@);
            }
        }
    }
    let p12 = match expect_lit(s, p11, ",\"ttl_min\":") {
        Some(p) => p,
        None => {
            proof {
                assert forall|c: TokenClaims| #![trigger claims_render(c)]
                    !(claims_plain(c) && c.profile is None && s@ == claims_render(c)) by {
                    if claims_plain(c) && c.profile is None && s@ == claims_render(c) {
                        assert(have);
                        lemma_claims_layout(w, s@);
                        assert(false);
                    }
                }
            }
            return None;
        },
    };
    proof {
        assert(have ==> (p12 == ct_end(w) + 11)) by {
            if have {
                lemma_claims_layout(w, s@);
            }
        }
    }
    let (ttl, p13) = match read_number(s, p12) {
        Some(x) => x,
        None => {
            proof {
                assert forall|c: TokenClaims| #![trigger claims_render(c)]
                    !(claims_plain(c) && c.profile is None && s@ == claims_render(c)) by {
                    if claims_plain(c) && c.profile is None && s@ == claims_render(c) {
                        assert(have);
                        lemma_claims_layout(w, s@);
                        assert(false);
                    }
                }
            }
            return None;
        },
    };
    proof {
        assert(have ==> (p13 == ttl_end(w) && ttl == w.ttl_min)) by {
            if have {
                lemma_claims_layout(w, s@);
            }
        }
    }
    if ttl > u16::MAX as u64 {
        proof {
            assert forall|c: TokenClaims| #![trigger claims_render(c)]
                !(claims_plain(c) && c.profile is None && s@ == claims_render(c)) by {
                if claims_plain(c) && c.profile is None && s@ == claims_render(c) {
                    assert(have);
                    lemma_claims_layout(w, s@);
                    assert(false);
                }
            }
        }
        return None;
    }
    let p14 = match expect_lit(s, p13, "}") {
        Some(p) => p,
        None => {
            proof {
                assert forall|c: TokenClaims| #![trigger claims_render(c)]
                    !(claims_plain(c) && c.profile is None && s@ == claims_render(c)) by {
                    if claims_plain(c) && c.profile is None && s@ == claims_render(c) {
                        assert(have);
                        lemma_claims_layout(w, s@);
                        assert(false);
                    }
                }
            }
            return None;
        },
    };
    proof {
        assert(have ==> (p14 == ttl_end(w) + 1)) by {
            if have {
                lemma_claims_layout(w, s@);
            }
        }
    }
    if p14 != s.len() {
        proof {
            assert forall|c: TokenClaims| #![trigger claims_render(c)]
                !(claims_plain(c) && c.profile is None && s@ == claims_render(c)) by {
                if claims_plain(c) && c.profile is None && s@ == claims_render(c) {
                    assert(have);
                    lemma_claims_layout(w, s@);
                    assert(false);
                }
            }
        }
        return None;
    }
    let result = TokenClaims {
        iss,
        sub,
        exp,
        iat,
        profile,
        user_address,
        session_vk,
        creation_time,
        ttl_min: ttl as u16,
    };
    proof {
        assert forall|c: TokenClaims| #![trigger claims_render(c)]
            (claims_plain(c) && c.profile is None && s@ == claims_render(c))
            implies (claims_render(result) == s@ && result.exp == c.exp
            && encode_utf8(result.iss@) == encode_utf8(c.iss@)) by {
            assert(have);
            assert(encode_utf8(iss@) == encode_utf8(w.iss@)
                && encode_utf8(sub@) == encode_utf8(w.sub@) && exp == w.exp && iat == w.iat);
            assert(profile is None && user_address@ == w.user_address@
                && encode_utf8(session_vk@) == encode_utf8(w.session_vk@));
            assert(profile_seg(result.profile) == profile_seg(w.profile));
            assert(claims_render(result) == claims_render(w));
            assert(encode_utf8(result.iss@) == encode_utf8(c.iss@) && result.exp == c.exp);
        }
    }
    Some(result)
}

/// Position of the first dot at or after `pos`.
fn find_dot(s: &[u8], pos: usize) -> (r: Option<usize>)
    ensures
        r matches Some(d) ==> pos <= d < s@.len() && s@[d as int] == 46,
{
    if pos > s.len() {
        return None;
    }
    let mut i: usize = pos;
    while i < s.len()
        invariant
            pos <= i <= s@.len(),
        decreases s@.len() - i,
    {
        if s[i] == 46 {
            return Some(i);
        }
        i = i + 1;
    }
    None
}

/// How a canonical token decomposes: header, payload and signature at
/// their places, with the two separating dots and no dot before them.
#[verifier::rlimit(100)]
#[verifier::spinoff_prover]
proof fn lemma_token_layout(key: Seq<u8>, payload: Seq<u8>, t: Seq<u8>)
    requires
        t == session_token_of(key, payload),
    ensures
        ({
            let hb = b64url_of(header_json());
            let pb = b64url_of(payload);
            let sig = hs256_sig_of(key, hb + dot() + pb);
            &&& t.len() == hb.len() + 1 + pb.len() + 1 + sig.len()
            &&& t.subrange(0, hb.len() as int) == hb
            &&& (forall|k: int| 0 <= k < hb.len() ==> t[k] != 46)
            &&& t[hb.len() as int] == 46
            &&& t.subrange(hb.len() + 1 as int, hb.len() + 1 + pb.len() as int) == pb
            &&& (forall|k: int| hb.len() + 1 <= k < hb.len() + 1 + pb.len() as int ==> t[k] != 46)
            &&& t[hb.len() + 1 + pb.len() as int] == 46
            &&& t.subrange(0, hb.len() + 1 + pb.len() as int) == hb + dot() + pb
            &&& t.subrange(hb.len() + 1 + pb.len() + 1 as int, t.len() as int) == sig
        }),
{
    let hb = b64url_of(header_json());
    let pb = b64url_of(payload);
    let sig = hs256_sig_of(key, hb + dot() + pb);
    crate::encoding::lemma_b64url_no_dot(header_json());
    crate::encoding::lemma_b64url_no_dot(payload);
    let a1 = hb;
    let a2 = a1 + dot();
    let a3 = a2 + pb;
    let a4 = a3 + dot();
    let a5 = a4 + sig;
    assert(t == a5);
    assert(t.subrange(0, t.len() as int) =~= t);
    crate::encoding::lemma_concat_parts(a4, sig, t, 0);
    crate::encoding::lemma_concat_parts(a3, dot(), t, 0);
    crate::encoding::lemma_concat_parts(a2, pb, t, 0);
    crate::encoding::lemma_concat_parts(a1, dot(), t, 0);
    assert(t.subrange(hb.len() as int, hb.len() + 1 as int) == dot());
    assert(t[hb.len() as int] == 46) by {
        assert(t.subrange(hb.len() as int, hb.len() + 1 as int)[0] == 46);
    }
    assert(t[hb.len() + 1 + pb.len() as int] == 46) by {
        assert(t.subrange(hb.len() + 1 + pb.len() as int, hb.len() + 1 + pb.len() + 1 as int)[0] == 46);
    }
    assert forall|k: int| 0 <= k < hb.len() implies t[k] != 46 by {
        assert(t.subrange(0, hb.len() as int)[k] == t[k]);
    }
    assert forall|k: int| hb.len() + 1 <= k < hb.len() + 1 + pb.len() as int implies t[k] != 46 by {
        assert(t.subrange(hb.len() + 1 as int, hb.len() + 1 + pb.len() as int)[k - hb.len() - 1] == t[k]);
    }
    assert(t.subrange(0, hb.len() + 1 + pb.len() as int) =~= hb + dot() + pb);
}


/// A token whose sections check out is the canonical token of the claims
/// its payload renders.
#[verifier::rlimit(100)]
#[verifier::spinoff_prover]
proof fn lemma_decode_ok(
    key: Seq<u8>,
    s: Seq<u8>,
    d1: int,
    d2: int,
    payload: Seq<u8>,
    claims: TokenClaims,
)
    requires
        0 <= d1 < d2 < s.len(),
        s[d1] == 46,
        s[d2] == 46,
        s.subrange(0, d1) == b64url_of(header_json()),
        crate::encoding::b64url_parse(s.subrange(d1 + 1, d2)) == Some(payload),
        s.subrange(d2 + 1, s.len() as int) == hs256_sig_of(
            key,
            s.subrange(0, d1) + seq![46u8] + s.subrange(d1 + 1, d2),
        ),
        claims_render(claims) == payload,
    ensures
        s == session_token_of(key, claims_render(claims)),
{
    let hj = s.subrange(0, d1);
    let pb = s.subrange(d1 + 1, d2);
    let sigp = s.subrange(d2 + 1, s.len() as int);
    crate::encoding::lemma_b64url_roundtrip(pb, payload);
    assert(pb == b64url_of(claims_render(claims)));
    assert(s.subrange(0, d2) =~= hj + seq![46u8] + pb);
    assert(s =~= s.subrange(0, d2) + seq![46u8] + sigp);
    assert(s =~= (hj + seq![46u8] + pb) + seq![46u8] + sigp);
    assert(session_token_of(key, claims_render(claims))
        =~= (hj + seq![46u8] + pb) + seq![46u8] + sigp);
}

/// Validates and decodes a session token with the given signing key.
/// A decoded record is sound: the token is, byte for byte, the canonical
/// token this server mints for exactly those claims under that key, and
/// its issuer tag is this service's.  Anything else is `InvalidToken`.
#[verifier::rlimit(100)]
#[verifier::spinoff_prover]
pub fn decode_token(jwt_key: &Vec<u8>, token: &str) -> (r: Result<TokenClaims, InternalError>)
    ensures
        r matches Ok(c) ==> token.spec_bytes() == session_token_of(jwt_key@, claims_render(c))
            && encode_utf8(c.iss@) == "catastrophe".spec_bytes(),
        r matches Err(e) ==> e == InternalError::InvalidToken,
{
    let s = token.as_bytes();
    let n = s.len();
    proof {
        assert(n == s@.len());
    }
    let d1 = match find_dot(s, 0) {
        Some(d) => d,
        None => { return Err(InternalError::InvalidToken); },
    };
    let d2 = match find_dot(s, d1 + 1) {
        Some(d) => d,
        None => { return Err(InternalError::InvalidToken); },
    };
    let header_part = vstd::slice::slice_subrange(s, 0, d1);
    let expected_header = encode_base64url("{\"typ\":\"JWT\",\"alg\":\"HS256\"}".as_bytes());
    if !crate::encoding::slice_eq(header_part, expected_header.as_slice()) {
        return Err(InternalError::InvalidToken);
    }
    let signing_part = vstd::slice::slice_subrange(s, 0, d2);
    let signing_input = vstd::slice::slice_to_vec(signing_part);
    let sig_expected = hs256_sign(jwt_key, &signing_input);
    let sig_part = vstd::slice::slice_subrange(s, d2 + 1, s.len());
    if !crate::encoding::slice_eq(sig_part, sig_expected.as_slice()) {
        return Err(InternalError::InvalidToken);
    }
    let payload_part = vstd::slice::slice_subrange(s, d1 + 1, d2);
    let payload = match crate::encoding::decode_base64url(payload_part) {
        Some(v) => v,
        None => { return Err(InternalError::InvalidToken); },
    };
    let claims = match read_claims(payload.as_slice()) {
        Some(c) => c,
        None => { return Err(InternalError::InvalidToken); },
    };
    let rendered = render_claims(&claims);
    if !crate::encoding::slice_eq(rendered.as_slice(), payload.as_slice()) {
        return Err(InternalError::InvalidToken);
    }
    if !crate::encoding::slice_eq(claims.iss.as_str().as_bytes(), "catastrophe".as_bytes()) {
        return Err(InternalError::InvalidToken);
    }
    proof {
        assert(signing_input@ == s@.subrange(0, d1 as int) + seq![46u8]
            + s@.subrange(d1 + 1, d2 as int)) by {
            assert(s@.subrange(0, d2 as int) =~= s@.subrange(0, d1 as int) + seq![46u8]
                + s@.subrange(d1 + 1, d2 as int));
        }
        lemma_decode_ok(jwt_key@, s@, d1 as int, d2 as int, payload@, claims);
        assert(token.spec_bytes() == session_token_of(jwt_key@, claims_render(claims)));
    }
    Ok(claims)
}

/// Decodes a token and checks its expiry against the clock: the
/// authenticated user exactly when the token is valid and not expired.
pub fn verify_auth_token(jwt_key: &Vec<u8>, token: &str, now: u64) -> (r: Result<
    AuthenticatedUser,
    InternalError,
>)
    ensures
        r matches Ok(u) ==> exists|c: TokenClaims|
            {
                &&& token.spec_bytes() == session_token_of(jwt_key@, claims_render(c))
                &&& encode_utf8(c.iss@) == #[trigger] "catastrophe".spec_bytes()
                &&& u.user_address == c.user_address
                &&& u.session_vk == c.session_vk
                &&& u.exp == c.exp
                &&& u.profile == c.profile
                &&& c.exp >= now / 1000
            },
        r matches Err(e) ==> e == InternalError::InvalidToken || e == InternalError::ExpiredToken,
        r == Err::<AuthenticatedUser, InternalError>(InternalError::ExpiredToken)
            ==> exists|c: TokenClaims|
                token.spec_bytes() == #[trigger] session_token_of(jwt_key@, claims_render(c))
                    && c.exp < now / 1000,
{
    let claims = match decode_token(jwt_key, token) {
        Ok(c) => c,
        Err(e) => { return Err(e); },
    };
    if claims.exp < now / 1000 {
        proof {
            let c0 = claims;
            assert(token.spec_bytes() == session_token_of(jwt_key@, claims_render(c0))
                && c0.exp < now / 1000);
        }
        return Err(InternalError::ExpiredToken);
    }
    let ghost c = claims;
    let TokenClaims { profile, user_address, session_vk, exp, .. } = claims;
    let user = AuthenticatedUser { user_address, session_vk, exp, profile };
    proof {
        assert(token.spec_bytes() == session_token_of(jwt_key@, claims_render(c))
            && encode_utf8(c.iss@) == "catastrophe".spec_bytes() && user.user_address
            == c.user_address && user.session_vk == c.session_vk && user.exp == c.exp
            && user.profile == c.profile && c.exp >= now / 1000);
    }
    Ok(user)
}

/// Whether a header value carries a bearer token: the `Bearer ` marker
/// followed by the token text.
pub open spec fn bearer_shape(h: &str, token: Seq<char>) -> bool {
    h.spec_bytes() == "Bearer ".spec_bytes() + encode_utf8(token)
}

/// Parses a bearer header value: the token after the `Bearer ` marker.
/// `MissingAuthToken` without a header, `InvalidAuthHeader` exactly where
/// the marker is missing.
pub fn extract_token_from_headers(auth_header: Option<&str>) -> (r: Result<String, InternalError>)
    ensures
        auth_header is None ==> r == Err::<String, InternalError>(InternalError::MissingAuthToken),
        auth_header matches Some(h) ==> match r {
            Ok(token) => bearer_shape(h, token@),
            Err(e) => e == InternalError::InvalidAuthHeader
                && !(exists|t: Seq<char>| bearer_shape(h, t)),
        },
{
    broadcast use vstd::utf8::encode_utf8_valid_utf8;

    let header = match auth_header {
        Some(h) => h,
        None => { return Err(InternalError::MissingAuthToken); },
    };
    let b = header.as_bytes();
    let mut marker: Vec<u8> = Vec::new();
    push_str_bytes(&mut marker, "Bearer ");
    if b.len() < marker.len() {
        proof {
            assert forall|t: Seq<char>| !bearer_shape(header, t) by {
                assert(("Bearer ".spec_bytes() + encode_utf8(t)).len()
                    >= "Bearer ".spec_bytes().len());
            }
        }
        return Err(InternalError::InvalidAuthHeader);
    }
    let mut i: usize = 0;
    while i < marker.len()
        invariant
            auth_header matches Some(h2) && h2 == header,
            marker@ == "Bearer ".spec_bytes(),
            i <= marker@.len() <= b@.len(),
            b@ == header.spec_bytes(),
            forall|k: int| 0 <= k < i ==> b@[k] == marker@[k],
        decreases marker@.len() - i,
    {
        if b[i] != marker[i] {
            proof {
                let bad = i as int;
                assert forall|t: Seq<char>| !bearer_shape(header, t) by {
                    if bearer_shape(header, t) {
                        assert(header.spec_bytes()[bad]
                            == ("Bearer ".spec_bytes() + encode_utf8(t))[bad]);
                    }
                }
            }
            return Err(InternalError::InvalidAuthHeader);
        }
        i = i + 1;
    }
    let mut rest: Vec<u8> = Vec::new();
    let mut j: usize = marker.len();
    while j < b.len()
        invariant
            marker@.len() <= b@.len(),
            marker@.len() <= j <= b@.len(),
            rest@ =~= b@.subrange(marker@.len() as int, j as int),
        decreases b@.len() - j,
    {
        rest.push(b[j]);
        proof {
            assert(b@.subrange(marker@.len() as int, j + 1)
                =~= b@.subrange(marker@.len() as int, j as int).push(b@[j as int]));
        }
        j = j + 1;
    }
    proof {
        assert(b@ =~= marker@ + b@.subrange(marker@.len() as int, b@.len() as int));
    }
    let ghost rest_view = rest@;
    match crate::encoding::bytes_to_string(rest) {
        Some(token) => Ok(token),
        None => {
            proof {
                assert forall|t: Seq<char>| !bearer_shape(header, t) by {
                    if bearer_shape(header, t) {
                        let m = "Bearer ".spec_bytes().len() as int;
                        assert(encode_utf8(t)
                            =~= header.spec_bytes().subrange(m, header.spec_bytes().len() as int));
                        assert(vstd::utf8::valid_utf8(rest_view));
                    }
                }
            }
            Err(InternalError::InvalidAuthHeader)
        },
    }
}

} // verus!
