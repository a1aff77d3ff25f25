//! The key-issuance request pipeline.
//!
//! A request is checked in a fixed order — freshness of the chain view,
//! transaction shape, package version, certificate window and the two
//! signatures, on-chain policy — and every stage fails terminally with one
//! specific error.  Only after all stages pass is a decryption key derived
//! per identity and re-encrypted to the caller.

use vstd::prelude::*;

use crate::errors::InternalError;
use crate::ibe::{elgamal_encrypt_fresh, elgamal_encryption_of, ibe_extract, ibe_secret_of, Ciphertext};
use crate::primitives::{g1_valid, scalar_valid, G1_LENGTH};
use crate::valid_ptb::copy_bytes;
use crate::SESSION_KEY_TTL_MAX;

verus! {

/// A session certificate: a wallet-signed, time-bounded delegation to a
/// session verification key.
pub struct Certificate {
    /// Wallet address of the user, 32 bytes.
    pub user: Vec<u8>,
    /// Ed25519 verification key of the session.
    pub session_vk: Vec<u8>,
    /// Creation time, in milliseconds since the epoch.
    pub creation_time: u64,
    /// Lifetime in minutes.
    pub ttl_min: u16,
    /// Wallet signature over the canonical certificate message.
    pub signature: Vec<u8>,
}

/// The byte string a decryption key is derived from.
pub type KeyId = Vec<u8>;

/// A key identifier: the stable namespace followed by the identity bytes.
pub open spec fn keyid_of(namespace: Seq<u8>, id: Seq<u8>) -> Seq<u8> {
    namespace + id
}

/// When a certificate is inside its validity window: its lifetime is within
/// the cap, it was not created in the future, and it has not expired.
pub open spec fn cert_time_valid(cert: Certificate, now: nat) -> bool {
    &&& cert.ttl_min <= SESSION_KEY_TTL_MAX
    &&& cert.creation_time <= now
    &&& now - 60000 * cert.ttl_min <= cert.creation_time
}

/// Checks the certificate window; `InvalidCertificate` outside it.
pub fn check_certificate(cert: &Certificate, now: u64) -> (r: Result<(), InternalError>)
    ensures
        r is Ok <==> cert_time_valid(*cert, now as nat),
        r matches Err(e) ==> e == InternalError::InvalidCertificate,
{
    if cert.ttl_min > SESSION_KEY_TTL_MAX {
        return Err(InternalError::InvalidCertificate);
    }
    if cert.creation_time > now {
        return Err(InternalError::InvalidCertificate);
    }
    let window: u64 = 60000 * (cert.ttl_min as u64);
    if now - cert.creation_time > window {
        return Err(InternalError::InvalidCertificate);
    }
    Ok(())
}

/// When the server's chain view is fresh enough to act on.
pub open spec fn fresh_at(now: nat, checkpoint_ts: nat, allowed_ms: nat) -> bool {
    now <= checkpoint_ts + allowed_ms
}

/// Rejects a chain view older than the allowed staleness; fail closed.
pub fn check_freshness(now: u64, checkpoint_ts: u64, allowed_ms: u64) -> (r: Result<(), InternalError>)
    ensures
        r is Ok <==> fresh_at(now as nat, checkpoint_ts as nat, allowed_ms as nat),
        r matches Err(e) ==> e == InternalError::SuiClientNotFresh,
{
    if checkpoint_ts >= now {
        return Ok(());
    }
    if now - checkpoint_ts > allowed_ms {
        return Err(InternalError::SuiClientNotFresh);
    }
    Ok(())
}

/// What one simulated execution of the transaction reported.
#[derive(Clone, Copy, Debug, PartialEq, Eq, Structural)]
pub enum DryRunOutcome {
    /// Simulation ran and reported success: the policy allows the release.
    Success,
    /// Simulation ran and reported an execution error: access denied.
    ExecutionFailure,
    /// Simulation could not be run or its answer could not be read.
    RpcFailure,
}

/// The policy decision for one dry-run outcome: only a reported success
/// grants access; an execution error denies, and any ambiguity fails.
pub open spec fn policy_outcome(outcome: DryRunOutcome) -> Result<(), InternalError> {
    match outcome {
        DryRunOutcome::Success => Ok(()),
        DryRunOutcome::ExecutionFailure => Err(InternalError::NoAccess),
        DryRunOutcome::RpcFailure => Err(InternalError::Failure),
    }
}

/// Turns a dry-run outcome into the policy decision.
pub fn evaluate_policy(outcome: DryRunOutcome) -> (r: Result<(), InternalError>)
    ensures
        r == policy_outcome(outcome),
{
    match outcome {
        DryRunOutcome::Success => Ok(()),
        DryRunOutcome::ExecutionFailure => Err(InternalError::NoAccess),
        DryRunOutcome::RpcFailure => Err(InternalError::Failure),
    }
}

/// The policy fails closed: any outcome other than a reported success —
/// a denial, an outage, a malformed answer — yields an error, never a grant.
pub proof fn lemma_policy_fail_closed(outcome: DryRunOutcome)
    ensures
        outcome != DryRunOutcome::Success ==> policy_outcome(outcome) is Err,
        policy_outcome(outcome) is Ok ==> outcome == DryRunOutcome::Success,
{
}

/// The version decision: only a call to the latest deployed version is
/// accepted, and an accepted call resolves to the first deployed version —
/// the stable namespace.
pub open spec fn resolve_outcome(
    pkg: Seq<u8>,
    first: Seq<u8>,
    latest: Seq<u8>,
) -> Result<Seq<u8>, InternalError> {
    if pkg == latest {
        Ok(first)
    } else {
        Err(InternalError::OldPackageVersion)
    }
}

/// Accepts only a call to the latest package version, and resolves the
/// stable namespace: the address of the first deployed version.
pub fn resolve_namespace(pkg: &Vec<u8>, first: &Vec<u8>, latest: &Vec<u8>) -> (r: Result<
    Vec<u8>,
    InternalError,
>)
    ensures
        r matches Ok(ns) ==> resolve_outcome(pkg@, first@, latest@) == Ok::<_, InternalError>(ns@),
        r matches Err(e) ==> resolve_outcome(pkg@, first@, latest@) == Err::<Seq<u8>, _>(e),
{
    if crate::valid_ptb::bytes_eq(pkg, latest) {
        Ok(copy_bytes(first))
    } else {
        Err(InternalError::OldPackageVersion)
    }
}

/// Namespace stability across upgrades: whenever two transaction blocks
/// naming the same identity are accepted against the same deployment
/// lineage — whatever versions they named — both resolve to the same
/// namespace and so to the same key identifier; and naming any version
/// other than the latest is rejected as `OldPackageVersion`.
pub proof fn lemma_namespace_stability(
    pkg_a: Seq<u8>,
    pkg_b: Seq<u8>,
    first: Seq<u8>,
    latest: Seq<u8>,
    id: Seq<u8>,
)
    ensures
        (resolve_outcome(pkg_a, first, latest) matches Ok(ns_a)
            && resolve_outcome(pkg_b, first, latest) matches Ok(ns_b))
            ==> keyid_of(resolve_outcome(pkg_a, first, latest)->Ok_0, id)
                == keyid_of(resolve_outcome(pkg_b, first, latest)->Ok_0, id),
        pkg_a != latest ==> resolve_outcome(pkg_a, first, latest)
            == Err::<Seq<u8>, InternalError>(InternalError::OldPackageVersion),
{
}

/// Prefixes every identity with the stable namespace, in order.
pub fn full_ids(namespace: &Vec<u8>, ids: &Vec<Vec<u8>>) -> (r: Vec<Vec<u8>>)
    ensures
        r.deep_view().len() == ids.deep_view().len(),
        forall|i: int| 0 <= i < ids.deep_view().len()
            ==> #[trigger] r.deep_view()[i] == keyid_of(namespace@, ids.deep_view()[i]),
{
    let mut r: Vec<Vec<u8>> = Vec::new();
    for i in 0..ids.len()
        invariant
            r.deep_view().len() == i,
            forall|j: int| 0 <= j < i
                ==> #[trigger] r.deep_view()[j] == keyid_of(namespace@, ids.deep_view()[j]),
    {
        let mut keyid = copy_bytes(namespace);
        crate::signed_message::push_bytes(&mut keyid, &ids[i]);
        let ghost before = r.deep_view();
        let ghost kv = keyid@;
        r.push(keyid);
        proof {
            assert(r.deep_view() =~~= before.push(kv));
            assert(ids.deep_view()[i as int] == ids@[i as int]@);
        }
    }
    r
}

/// One issued key: the identifier and the secret re-encrypted to the caller.
pub struct DecryptionKey {
    pub id: KeyId,
    pub encrypted_key: Ciphertext,
}

/// The response to a fetch-key request: one entry per identity, in order.
pub struct FetchKeyResponse {
    pub decryption_keys: Vec<DecryptionKey>,
}

/// The server's identity object and its proof of possession of the master
/// key, as published to callers.
pub struct GetServiceResponse {
    pub service_id: Vec<u8>,
    pub pop: Vec<u8>,
}

/// One response entry is sound for a key id: it carries that id, and its
/// ciphertext encrypts the derived secret for the id under the caller's key
/// with some one-time nonce.
pub open spec fn entry_encrypts(
    entry: DecryptionKey,
    keyid: Seq<u8>,
    master: Seq<u8>,
    enc_key: Seq<u8>,
) -> bool {
    &&& entry.id@ == keyid
    &&& exists|nonce: Seq<u8>|
        #![auto]
        scalar_valid(nonce) && (entry.encrypted_key.c1@, entry.encrypted_key.c2@)
            == elgamal_encryption_of(nonce, ibe_secret_of(master, keyid), enc_key)
}

/// Derives one key per identifier and re-encrypts each under the caller's
/// ephemeral public key.  Succeeds exactly when the master key is a
/// canonical scalar and the caller's key a canonical group element (or no
/// key was requested); the response pairs the identifiers, in order, with
/// ciphertexts of their derived secrets.
pub fn create_response(master: &Vec<u8>, key_ids: &Vec<Vec<u8>>, enc_key: &Vec<u8>) -> (r: Result<
    FetchKeyResponse,
    InternalError,
>)
    ensures
        r is Ok <==> (key_ids@.len() == 0 || (scalar_valid(master@) && g1_valid(enc_key@))),
        r matches Ok(resp) ==> {
            &&& resp.decryption_keys@.len() == key_ids@.len()
            &&& forall|i: int| 0 <= i < key_ids@.len()
                ==> entry_encrypts(
                    #[trigger] resp.decryption_keys@[i],
                    key_ids@[i]@,
                    master@,
                    enc_key@,
                )
        },
        r matches Err(e) ==> (e == InternalError::Failure && !scalar_valid(master@))
            || (e == InternalError::InvalidInput && scalar_valid(master@) && !g1_valid(enc_key@)),
{
    let mut decryption_keys: Vec<DecryptionKey> = Vec::new();
    for i in 0..key_ids.len()
        invariant
            decryption_keys@.len() == i,
            i > 0 ==> scalar_valid(master@) && g1_valid(enc_key@),
            forall|j: int| 0 <= j < i
                ==> entry_encrypts(
                    #[trigger] decryption_keys@[j],
                    key_ids@[j]@,
                    master@,
                    enc_key@,
                ),
    {
        let keyid = copy_bytes(&key_ids[i]);
        let secret = match ibe_extract(master, &keyid) {
            Some(s) => s,
            None => { return Err(InternalError::Failure); },
        };
        let encrypted_key = match elgamal_encrypt_fresh(&secret, enc_key) {
            Some(ct) => ct,
            None => { return Err(InternalError::InvalidInput); },
        };
        decryption_keys.push(DecryptionKey { id: keyid, encrypted_key });
    }
    Ok(FetchKeyResponse { decryption_keys })
}

/// A fetch-key request as it arrives on the wire: the transaction block is
/// base64 text inside the JSON body.
pub struct FetchKeyRequest {
    /// Base64 text of the serialized transaction block.
    pub ptb: String,
    /// The caller's ephemeral ElGamal public key.
    pub enc_key: Vec<u8>,
    /// The caller's ElGamal verification key.
    pub enc_verification_key: Vec<u8>,
    /// Session signature over the canonical request message.
    pub request_signature: Vec<u8>,
    /// The wallet-signed session certificate.
    pub certificate: Certificate,
}

impl FetchKeyRequest {
    /// The request as the pipeline consumes it.
    pub fn into_input(self) -> (r: RequestInput)
        ensures
            r.ptb_b64@ == vstd::utf8::encode_utf8(self.ptb@),
            r.enc_key == self.enc_key,
            r.enc_verification_key == self.enc_verification_key,
            r.request_signature == self.request_signature,
            r.certificate == self.certificate,
    {
        let ptb_b64 = vstd::slice::slice_to_vec(self.ptb.as_str().as_bytes());
        let FetchKeyRequest { enc_key, enc_verification_key, request_signature, certificate, .. } =
            self;
        RequestInput { ptb_b64, enc_key, enc_verification_key, request_signature, certificate }
    }
}

/// The fields a fetch-key request arrives with.
pub struct RequestInput {
    /// Base64 text of the serialized transaction block.
    pub ptb_b64: Vec<u8>,
    /// The caller's ephemeral ElGamal public key.
    pub enc_key: Vec<u8>,
    /// The caller's ElGamal verification key.
    pub enc_verification_key: Vec<u8>,
    /// Session signature over the canonical request message.
    pub request_signature: Vec<u8>,
    /// The wallet-signed session certificate.
    pub certificate: Certificate,
}

/// The request lifecycle.  Every transition either advances one stage in
/// this order or rejects terminally; there is no retry state.
pub enum RequestState {
    /// The request as received; nothing checked yet.
    Received { input: RequestInput },
    /// The chain view was fresh enough to act on.
    FreshnessChecked { input: RequestInput },
    /// The transaction block decoded to the one accepted shape.
    ShapeValidated { input: RequestInput, ptb_bytes: Vec<u8>, ptb: crate::valid_ptb::ValidPtb },
    /// The named package is the latest version; the namespace is fixed.
    VersionResolved {
        input: RequestInput,
        ptb_bytes: Vec<u8>,
        ptb: crate::valid_ptb::ValidPtb,
        namespace: Vec<u8>,
    },
    /// Certificate window, wallet signature and session signature all hold.
    SignatureVerified {
        input: RequestInput,
        ptb: crate::valid_ptb::ValidPtb,
        namespace: Vec<u8>,
    },
    /// The on-chain policy approved the release of these key identifiers.
    PolicyApproved { key_ids: Vec<Vec<u8>>, enc_key: Vec<u8> },
    /// Keys were derived and re-encrypted; the response is ready.
    KeysIssued { response: FetchKeyResponse },
    /// The request failed terminally at some stage.
    Rejected { reason: InternalError },
}

/// The decision of the signature stage: certificate window first, then the
/// wallet signature, then the session signature; `None` means all passed.
pub open spec fn signature_check_outcome(
    cert: Certificate,
    now: nat,
    wallet_sig_ok: bool,
    ptb_bytes: Seq<u8>,
    enc_key: Seq<u8>,
    enc_verification_key: Seq<u8>,
    request_signature: Seq<u8>,
) -> Option<InternalError> {
    if !cert_time_valid(cert, now) {
        Some(InternalError::InvalidCertificate)
    } else if !wallet_sig_ok {
        Some(InternalError::InvalidSignature)
    } else if !crate::primitives::ed25519_accepts(
        cert.session_vk@,
        crate::signed_message::signed_request_of(ptb_bytes, enc_key, enc_verification_key),
        request_signature,
    ) {
        Some(InternalError::InvalidSessionSignature)
    } else {
        None
    }
}

impl RequestState {
    /// A freshly received request.
    pub fn start(input: RequestInput) -> (r: RequestState)
        ensures
            r == (RequestState::Received { input }),
    {
        RequestState::Received { input }
    }

    /// Stage one: refuse to act on a stale chain view, before any
    /// signature or policy work.
    pub fn step_freshness(self, now: u64, checkpoint_ts: u64, allowed_ms: u64) -> (r: RequestState)
        requires
            self is Received,
        ensures
            self matches RequestState::Received { input } ==> r == (
                if fresh_at(now as nat, checkpoint_ts as nat, allowed_ms as nat) {
                    RequestState::FreshnessChecked { input }
                } else {
                    RequestState::Rejected { reason: InternalError::SuiClientNotFresh }
                }
            ),
    {
        match self {
            RequestState::Received { input } => {
                match check_freshness(now, checkpoint_ts, allowed_ms) {
                    Ok(()) => RequestState::FreshnessChecked { input },
                    Err(e) => RequestState::Rejected { reason: e },
                }
            },
            _ => {
                proof { assert(false); }
                RequestState::Rejected { reason: InternalError::Failure }
            },
        }
    }

    /// Stage two: decode the transaction block and hold it to the one
    /// accepted shape.
    pub fn step_shape(self) -> (r: RequestState)
        requires
            self is FreshnessChecked,
        ensures
            self matches RequestState::FreshnessChecked { input } ==> match crate::encoding::b64_parse(
                input.ptb_b64@,
            ) {
                Some(bytes) => match crate::valid_ptb::ptb_validate(bytes) {
                    Some(view) => r matches RequestState::ShapeValidated { input: i2, ptb_bytes, ptb }
                        && i2 == input && ptb_bytes@ == bytes && ptb@ == view,
                    None => r == (RequestState::Rejected { reason: InternalError::InvalidPTB }),
                },
                None => r == (RequestState::Rejected { reason: InternalError::InvalidPTB }),
            },
    {
        match self {
            RequestState::FreshnessChecked { input } => {
                let ptb_bytes = match crate::encoding::decode_base64(input.ptb_b64.as_slice()) {
                    Some(b) => b,
                    None => {
                        return RequestState::Rejected { reason: InternalError::InvalidPTB };
                    },
                };
                match crate::valid_ptb::ValidPtb::try_parse(ptb_bytes.as_slice()) {
                    Ok(ptb) => RequestState::ShapeValidated { input, ptb_bytes, ptb },
                    Err(e) => RequestState::Rejected { reason: e },
                }
            },
            _ => {
                proof { assert(false); }
                RequestState::Rejected { reason: InternalError::Failure }
            },
        }
    }

    /// Stage three: only the latest package version may be called, and the
    /// first version becomes the stable identity namespace.
    pub fn step_version(self, first: &Vec<u8>, latest: &Vec<u8>) -> (r: RequestState)
        requires
            self is ShapeValidated,
        ensures
            self matches RequestState::ShapeValidated { input, ptb_bytes, ptb } ==> (
                if ptb@.pkg == latest@ {
                    r matches RequestState::VersionResolved {
                        input: i2,
                        ptb_bytes: pb2,
                        ptb: ptb2,
                        namespace,
                    } && i2 == input && pb2 == ptb_bytes && ptb2 == ptb && namespace@ == first@
                } else {
                    r == (RequestState::Rejected { reason: InternalError::OldPackageVersion })
                }
            ),
    {
        match self {
            RequestState::ShapeValidated { input, ptb_bytes, ptb } => {
                match resolve_namespace(ptb.pkg_id(), first, latest) {
                    Ok(namespace) => RequestState::VersionResolved { input, ptb_bytes, ptb, namespace },
                    Err(e) => RequestState::Rejected { reason: e },
                }
            },
            _ => {
                proof { assert(false); }
                RequestState::Rejected { reason: InternalError::Failure }
            },
        }
    }

    /// The message whose wallet signature the caller must carry: it binds
    /// the stable namespace, the session key and the certificate window.
    pub fn wallet_message(&self) -> (r: Vec<u8>)
        requires
            self is VersionResolved,
        ensures
            self matches RequestState::VersionResolved { input, namespace, .. }
                ==> r@ == crate::signed_message::signed_message_of(
                    namespace@,
                    input.certificate.session_vk@,
                    input.certificate.creation_time as nat,
                    input.certificate.ttl_min as nat,
                ),
    {
        match self {
            RequestState::VersionResolved { input, namespace, .. } => {
                crate::signed_message::signed_message(
                    namespace,
                    &input.certificate.session_vk,
                    input.certificate.creation_time,
                    input.certificate.ttl_min,
                )
            },
            _ => {
                proof { assert(false); }
                Vec::new()
            },
        }
    }

    /// Stage four: the certificate window, the wallet signature over the
    /// canonical certificate message — verified outside against the chain,
    /// its verdict passed in — and the session signature over the canonical
    /// request message, in that order.
    pub fn step_signatures(self, now: u64, wallet_sig_ok: bool) -> (r: RequestState)
        requires
            self is VersionResolved,
        ensures
            self matches RequestState::VersionResolved { input, ptb_bytes, ptb, namespace }
                ==> match signature_check_outcome(
                    input.certificate,
                    now as nat,
                    wallet_sig_ok,
                    ptb_bytes@,
                    input.enc_key@,
                    input.enc_verification_key@,
                    input.request_signature@,
                ) {
                    Some(e) => r == (RequestState::Rejected { reason: e }),
                    None => r matches RequestState::SignatureVerified {
                        input: i2,
                        ptb: ptb2,
                        namespace: ns2,
                    } && i2 == input && ptb2 == ptb && ns2 == namespace,
                },
    {
        match self {
            RequestState::VersionResolved { input, ptb_bytes, ptb, namespace } => {
                match check_certificate(&input.certificate, now) {
                    Ok(()) => {},
                    Err(e) => {
                        return RequestState::Rejected { reason: e };
                    },
                }
                if !wallet_sig_ok {
                    return RequestState::Rejected { reason: InternalError::InvalidSignature };
                }
                let msg = crate::signed_message::signed_request(
                    &ptb_bytes,
                    &input.enc_key,
                    &input.enc_verification_key,
                );
                if !crate::primitives::ed25519_verify(
                    &input.certificate.session_vk,
                    &msg,
                    &input.request_signature,
                ) {
                    return RequestState::Rejected { reason: InternalError::InvalidSessionSignature };
                }
                RequestState::SignatureVerified { input, ptb, namespace }
            },
            _ => {
                proof { assert(false); }
                RequestState::Rejected { reason: InternalError::Failure }
            },
        }
    }

    /// Stage five: the dry-run verdict decides; approval fixes the key
    /// identifiers — the namespace-prefixed identities, in call order.
    pub fn step_policy(self, outcome: DryRunOutcome) -> (r: RequestState)
        requires
            self is SignatureVerified,
        ensures
            self matches RequestState::SignatureVerified { input, ptb, namespace }
                ==> match policy_outcome(outcome) {
                    Err(e) => r == (RequestState::Rejected { reason: e }),
                    Ok(()) => r matches RequestState::PolicyApproved { key_ids, enc_key }
                        && enc_key == input.enc_key
                        && key_ids.deep_view().len() == ptb@.ids.len()
                        && (forall|i: int| 0 <= i < ptb@.ids.len()
                            ==> #[trigger] key_ids.deep_view()[i]
                                == keyid_of(namespace@, ptb@.ids[i])),
                },
    {
        match self {
            RequestState::SignatureVerified { input, ptb, namespace } => {
                match evaluate_policy(outcome) {
                    Ok(()) => {
                        let key_ids = full_ids(&namespace, ptb.inner_ids());
                        let RequestInput { enc_key, .. } = input;
                        RequestState::PolicyApproved { key_ids, enc_key }
                    },
                    Err(e) => RequestState::Rejected { reason: e },
                }
            },
            _ => {
                proof { assert(false); }
                RequestState::Rejected { reason: InternalError::Failure }
            },
        }
    }

    /// Stage six: derive one key per approved identifier and re-encrypt
    /// each under the caller's ephemeral public key.
    pub fn step_issue(self, master: &Vec<u8>) -> (r: RequestState)
        requires
            self is PolicyApproved,
        ensures
            self matches RequestState::PolicyApproved { key_ids, enc_key } ==> (
                if key_ids@.len() == 0 || (scalar_valid(master@) && g1_valid(enc_key@)) {
                    r matches RequestState::KeysIssued { response }
                        && response.decryption_keys@.len() == key_ids@.len()
                        && (forall|i: int| 0 <= i < key_ids@.len()
                            ==> entry_encrypts(
                                #[trigger] response.decryption_keys@[i],
                                key_ids@[i]@,
                                master@,
                                enc_key@,
                            ))
                } else {
                    r matches RequestState::Rejected { reason }
                        && (reason == InternalError::Failure || reason == InternalError::InvalidInput)
                }
            ),
    {
        match self {
            RequestState::PolicyApproved { key_ids, enc_key } => {
                match create_response(master, &key_ids, &enc_key) {
                    Ok(response) => RequestState::KeysIssued { response },
                    Err(e) => RequestState::Rejected { reason: e },
                }
            },
            _ => {
                proof { assert(false); }
                RequestState::Rejected { reason: InternalError::Failure }
            },
        }
    }
}

/// Neither the certificate-window verdict nor the wallet verdict reads the
/// session signature: corrupting it can change the outcome only from or to
/// `InvalidSessionSignature`, and a session-signature rejection happens
/// exactly when everything before it passed and the signature fails to
/// verify.
pub proof fn lemma_signature_independence(
    cert: Certificate,
    now: nat,
    wallet_sig_ok: bool,
    ptb_bytes: Seq<u8>,
    enc_key: Seq<u8>,
    enc_verification_key: Seq<u8>,
    sig_a: Seq<u8>,
    sig_b: Seq<u8>,
)
    ensures
        (signature_check_outcome(cert, now, wallet_sig_ok, ptb_bytes, enc_key, enc_verification_key, sig_a)
            == Some(InternalError::InvalidCertificate))
            == (signature_check_outcome(cert, now, wallet_sig_ok, ptb_bytes, enc_key, enc_verification_key, sig_b)
                == Some(InternalError::InvalidCertificate)),
        (signature_check_outcome(cert, now, wallet_sig_ok, ptb_bytes, enc_key, enc_verification_key, sig_a)
            == Some(InternalError::InvalidSignature))
            == (signature_check_outcome(cert, now, wallet_sig_ok, ptb_bytes, enc_key, enc_verification_key, sig_b)
                == Some(InternalError::InvalidSignature)),
        signature_check_outcome(cert, now, wallet_sig_ok, ptb_bytes, enc_key, enc_verification_key, sig_a)
            == Some(InternalError::InvalidSessionSignature) <==> (cert_time_valid(cert, now)
            && wallet_sig_ok && !crate::primitives::ed25519_accepts(
            cert.session_vk@,
            crate::signed_message::signed_request_of(ptb_bytes, enc_key, enc_verification_key),
            sig_a,
        )),
{
}

/// The wallet signature is consulted only through its verdict, after the
/// certificate window and before the session signature: with a valid window
/// a false verdict yields exactly `InvalidSignature`, whatever the session
/// signature holds.
pub proof fn lemma_wallet_verdict_decides(
    cert: Certificate,
    now: nat,
    ptb_bytes: Seq<u8>,
    enc_key: Seq<u8>,
    enc_verification_key: Seq<u8>,
    request_signature: Seq<u8>,
)
    requires
        cert_time_valid(cert, now),
    ensures
        signature_check_outcome(cert, now, false, ptb_bytes, enc_key, enc_verification_key, request_signature)
            == Some(InternalError::InvalidSignature),
{
}

} // verus!
