//! Policy-gated decryption-key issuance service.
//!
//! The library validates key-release requests: it parses a restricted
//! transaction-block shape, checks a time-bounded session certificate and two
//! signatures, resolves package versions to a stable identity namespace,
//! guards against stale chain state, treats simulated-execution failures as
//! denial, and derives per-identity decryption keys re-encrypted to the
//! caller.

use vstd::prelude::*;

pub mod api;
pub mod catastrophe;
pub mod chat;
pub mod cli;
pub mod encoding;
pub mod errors;
pub mod game;
pub mod gaming;
pub mod ibe;
pub mod keys;
pub mod metrics;
pub mod passport;
pub mod primitives;
pub mod profile;
pub mod sdk;
pub mod session_login;
pub mod signed_message;
pub mod tool;
pub mod types;
pub mod valid_ptb;
pub mod ws;

verus! {

/// Upper bound on a certificate's time-to-live, in minutes.
pub const SESSION_KEY_TTL_MAX: u16 = 10;

/// How old the latest known checkpoint may be, in milliseconds, before the
/// service refuses to act on its view of chain state.
pub const ALLOWED_STALENESS_MS: u64 = 120_000;

} // verus!
