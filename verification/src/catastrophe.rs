//! Bodies of the game-administration endpoints.

use vstd::prelude::*;

verus! {

/// Query parameters of the avatar endpoint.
pub struct AvatarParams {
    /// Seed text the avatar is derived from.
    pub address: Option<String>,
    /// Requested figure, `male` or `female`.
    pub gender: Option<String>,
}

/// Request body: create a profile for a passport.
pub struct CreateProfileRequest {
    pub passport_id: String,
}

/// Response body of profile creation.
pub struct CreateProfileResponse {
    pub success: bool,
    pub digest: Option<String>,
    pub error: Option<String>,
}

/// Request body: read a profile by passport.
pub struct GetProfileRequest {
    pub passport_id: String,
}

/// Response body of a profile read.
pub struct GetProfileResponse {
    pub success: bool,
    pub profile: Option<crate::sdk::Profile>,
    pub error: Option<String>,
}

/// Response body of the session-bound profile read.
pub struct GetUserProfileResponse {
    pub success: bool,
    pub profile: Option<crate::sdk::Profile>,
    pub error: Option<String>,
}

/// Request body: send a friend request on behalf of two profiles.
pub struct AdminSendFriendRequestRequest {
    pub from_profile_id: String,
    pub to_profile_id: String,
}

/// Response body of the administrative friend request.
pub struct AdminSendFriendRequestResponse {
    pub success: bool,
    pub digest: Option<String>,
    pub error: Option<String>,
}

/// Request body: read the relationship between a user and a profile.
pub struct GetRelationshipRequest {
    pub user_id: String,
    pub profile_id: String,
}

/// Response body of a relationship read.
pub struct GetRelationshipResponse {
    pub success: bool,
    pub relationship: Option<crate::sdk::Relationship>,
    pub error: Option<String>,
}

} // verus!
