//! Chain-data models: profiles, stored relationships, and the rows that
//! table queries return.

use vstd::prelude::*;

verus! {

/// The relationship states the chain stores.
#[derive(Debug, Clone, Copy, PartialEq, Eq, Structural)]
pub enum RelationshipStatus {
    /// Requested, not yet accepted.
    Pending,
    /// Accepted.
    Friends,
}

/// One stored relationship, keyed by the two profile objects.
#[derive(Debug, Clone)]
pub struct Relationship {
    /// Object id of the requesting profile, 32 bytes.
    pub initiator: Vec<u8>,
    /// Object id of the receiving profile, 32 bytes.
    pub receiver: Vec<u8>,
    pub status: RelationshipStatus,
    pub created_at: u64,
}

/// One player profile as stored on chain.
#[derive(Debug, Clone)]
pub struct Profile {
    /// Object id of the profile, 32 bytes.
    pub id: Vec<u8>,
    /// Avatar image, as a data URL.
    pub avatar: String,
    pub rating: u64,
    pub played: u64,
    pub won: u64,
    pub lost: u64,
}

/// A profile together with the relationship to the asking user.
#[derive(Debug, Clone)]
pub struct ProfileWithRelationship {
    pub profile: Profile,
    pub relationship: Option<Relationship>,
}

/// One field of a queried table row.
pub struct TableField {
    pub name: String,
    pub value: String,
}

/// One page of a table query.
pub struct TableQueryResult {
    pub fields: Vec<TableField>,
    pub has_next_page: bool,
    pub end_cursor: Option<String>,
}

} // verus!
