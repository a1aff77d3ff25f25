//! Bodies of the authenticated example endpoints.

use vstd::prelude::*;

verus! {

/// What a protected resource answers an authenticated caller.
pub struct ProtectedResourceResponse {
    pub message: String,
    pub user_address: String,
}

/// Data about the authenticated user.
pub struct UserInfoResponse {
    pub user_address: String,
    pub token_expires_at: u64,
}

} // verus!
