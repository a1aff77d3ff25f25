//! User presence and relationship model: statuses, relationships, the
//! websocket event vocabulary, and the request bodies of the passport
//! endpoints.

use vstd::prelude::*;

verus! {

/// Presence of a user.
#[derive(Debug, Clone, Copy, PartialEq, Eq, Structural)]
pub enum UserStatus {
    /// Online.
    Online,
    /// Offline.
    Offline,
    /// Playing a match.
    InGame,
    /// Idle.
    Idle,
    /// Away.
    Away,
}

impl Default for UserStatus {
    /// The status before anything is known: offline.
    fn default() -> (r: Self)
        ensures
            r == UserStatus::Offline,
    {
        UserStatus::Offline
    }
}

/// The relationship between two users.
#[derive(Debug, Clone, Copy, PartialEq, Eq, Structural)]
pub enum RelationshipStatus {
    /// No relationship.
    NoRelation,
    /// Friends.
    Friends,
    /// The first user asked the second for friendship.
    FriendRequest1To2,
    /// The second user asked the first for friendship.
    FriendRequest2To1,
    /// Both users blocked each other.
    Blocked,
    /// The first user blocked the second.
    Blocked1To2,
    /// The second user blocked the first.
    Blocked2To1,
}

impl Default for RelationshipStatus {
    /// The relationship before anything is known: none.
    fn default() -> (r: Self)
        ensures
            r == RelationshipStatus::NoRelation,
    {
        RelationshipStatus::NoRelation
    }
}

/// Public data of one user.
pub struct UserInfo {
    pub id: String,
    pub username: String,
    pub avatar_url: Option<String>,
    pub status: UserStatus,
    pub last_active: i64,
    pub created_at: i64,
}

/// One stored relationship record.
pub struct Relationship {
    pub id: String,
    pub user1_id: String,
    pub user2_id: String,
    pub status: RelationshipStatus,
    pub created_at: i64,
    pub updated_at: i64,
}

/// A game a user currently takes part in.
pub struct OngoingGame {
    pub id: String,
    pub game_type: String,
    pub players: Vec<String>,
    pub started_at: i64,
}

/// What kind of activity a user is engaged in.
#[derive(Debug, Clone, Copy, PartialEq, Eq, Structural)]
pub enum UserActivityType {
    /// In a lobby.
    InLobby,
    /// In a match.
    InMatch,
    /// Watching a match.
    Spectate,
}

/// A user's current activity, if any.
pub struct UserActivity {
    pub activity_type: Option<UserActivityType>,
    pub match_id: Option<String>,
    pub lobby_id: Option<String>,
}

impl Default for UserActivity {
    /// No activity.
    fn default() -> (r: Self)
        ensures
            r.activity_type is None && r.match_id is None && r.lobby_id is None,
    {
        UserActivity { activity_type: None, match_id: None, lobby_id: None }
    }
}

/// The two presence values the front end distinguishes.
#[derive(Debug, Clone, Copy, PartialEq, Eq, Structural)]
pub enum UserStatusString {
    /// Online, in any form.
    Online,
    /// Offline.
    Offline,
}

impl UserStatusString {
    /// Every presence but offline counts as online.
    pub open spec fn spec_from_status(status: UserStatus) -> UserStatusString {
        match status {
            UserStatus::Offline => UserStatusString::Offline,
            _ => UserStatusString::Online,
        }
    }

}

impl From<UserStatus> for UserStatusString {
    /// Collapses a presence into the two front-end values.
    fn from(status: UserStatus) -> (r: UserStatusString) {
        match status {
            UserStatus::Offline => UserStatusString::Offline,
            _ => UserStatusString::Online,
        }
    }
}

impl vstd::std_specs::convert::FromSpecImpl<UserStatus> for UserStatusString {
    open spec fn obeys_from_spec() -> bool {
        true
    }

    open spec fn from_spec(status: UserStatus) -> UserStatusString {
        UserStatusString::spec_from_status(status)
    }
}

/// Presence and activity of one user, as the front end reads it.
pub struct UserSupplemental {
    pub status: UserStatusString,
    pub activity: Option<UserActivity>,
}

/// A partial presence update.
pub struct UserInterim {
    pub status: Option<UserStatusString>,
    pub activity: Option<UserActivity>,
}

impl Default for UserInterim {
    /// An empty update.
    fn default() -> (r: Self)
        ensures
            r.status is None && r.activity is None,
    {
        UserInterim { status: None, activity: None }
    }
}

/// Request body asking for the presence of a list of users.
pub struct GetSupplementalDto {
    pub ids: Vec<String>,
}

/// The event vocabulary of the passport websocket.
pub struct UserEvents;

/// Events the server pushes to clients.
#[derive(Debug, Clone, Copy, PartialEq, Eq, Hash, Structural)]
pub enum ServerEvent {
    /// A user came online.
    Online,
    /// A user went offline.
    Offline,
    /// A friend request arrived.
    FriendRequestReceived,
    /// A friend request was accepted.
    FriendRequestAccepted,
    /// A friend request was rejected.
    FriendRequestRejected,
    /// A friend request was revoked.
    FriendRequestRevoked,
    /// A friendship was ended.
    Unfriended,
}

impl ServerEvent {
    /// The wire name of the event.
    pub fn as_str(&self) -> (r: &'static str)
        ensures
            r@ == self.spec_tag(),
    {
        match self {
            ServerEvent::Online => "user:online",
            ServerEvent::Offline => "user:offline",
            ServerEvent::FriendRequestReceived => "user:friend-request-received",
            ServerEvent::FriendRequestAccepted => "user:friend-request-accepted",
            ServerEvent::FriendRequestRejected => "user:friend-request-rejected",
            ServerEvent::FriendRequestRevoked => "user:friend-request-revoked",
            ServerEvent::Unfriended => "user:unfriended",
        }
    }

    /// The wire name `as_str` returns for each event.
    pub open spec fn spec_tag(self) -> Seq<char> {
        match self {
            ServerEvent::Online => "user:online"@,
            ServerEvent::Offline => "user:offline"@,
            ServerEvent::FriendRequestReceived => "user:friend-request-received"@,
            ServerEvent::FriendRequestAccepted => "user:friend-request-accepted"@,
            ServerEvent::FriendRequestRejected => "user:friend-request-rejected"@,
            ServerEvent::FriendRequestRevoked => "user:friend-request-revoked"@,
            ServerEvent::Unfriended => "user:unfriended"@,
        }
    }
}

/// Events clients send to the server.
#[derive(Debug, Clone, Copy, PartialEq, Eq, Hash, Structural)]
pub enum ClientEvent {
    /// Ask another user for friendship.
    SendFriendRequest,
    /// Withdraw a friend request.
    RevokeFriendRequest,
    /// Accept a friend request.
    AcceptFriendRequest,
    /// Reject a friend request.
    RejectFriendRequest,
    /// End a friendship.
    Unfriend,
    /// Block a user.
    Block,
    /// Unblock a user.
    Unblock,
    /// Ask for presence data.
    GetSupplemental,
    /// Publish a partial presence update.
    SetInterim,
}

impl ClientEvent {
    /// The wire name of the event.
    pub fn as_str(&self) -> (r: &'static str)
        ensures
            r@ == self.spec_tag(),
    {
        match self {
            ClientEvent::SendFriendRequest => "user:send-friend-request",
            ClientEvent::RevokeFriendRequest => "user:revoke-friend-request",
            ClientEvent::AcceptFriendRequest => "user:accept-friend-request",
            ClientEvent::RejectFriendRequest => "user:reject-friend-request",
            ClientEvent::Unfriend => "user:unfriend",
            ClientEvent::Block => "user:block",
            ClientEvent::Unblock => "user:unblock",
            ClientEvent::GetSupplemental => "user:get-supplemental",
            ClientEvent::SetInterim => "user:set-interim",
        }
    }

    /// The wire name `as_str` returns for each event.
    pub open spec fn spec_tag(self) -> Seq<char> {
        match self {
            ClientEvent::SendFriendRequest => "user:send-friend-request"@,
            ClientEvent::RevokeFriendRequest => "user:revoke-friend-request"@,
            ClientEvent::AcceptFriendRequest => "user:accept-friend-request"@,
            ClientEvent::RejectFriendRequest => "user:reject-friend-request"@,
            ClientEvent::Unfriend => "user:unfriend"@,
            ClientEvent::Block => "user:block"@,
            ClientEvent::Unblock => "user:unblock"@,
            ClientEvent::GetSupplemental => "user:get-supplemental"@,
            ClientEvent::SetInterim => "user:set-interim"@,
        }
    }

    /// The event a wire name denotes, if any: the inverse of `as_str`.
    pub fn from_str(s: &str) -> (r: Option<ClientEvent>)
        ensures
            r matches Some(e) ==> s@ == e.spec_tag(),
            r is None ==> forall|e: ClientEvent| s@ != #[trigger] e.spec_tag(),
    {
        proof {
            reveal_strlit("user:send-friend-request");
            reveal_strlit("user:revoke-friend-request");
            reveal_strlit("user:accept-friend-request");
            reveal_strlit("user:reject-friend-request");
            reveal_strlit("user:unfriend");
            reveal_strlit("user:block");
            reveal_strlit("user:unblock");
            reveal_strlit("user:get-supplemental");
            reveal_strlit("user:set-interim");
        }
        if crate::encoding::str_eq(s, "user:send-friend-request") {
            Some(ClientEvent::SendFriendRequest)
        } else if crate::encoding::str_eq(s, "user:revoke-friend-request") {
            Some(ClientEvent::RevokeFriendRequest)
        } else if crate::encoding::str_eq(s, "user:accept-friend-request") {
            Some(ClientEvent::AcceptFriendRequest)
        } else if crate::encoding::str_eq(s, "user:reject-friend-request") {
            Some(ClientEvent::RejectFriendRequest)
        } else if crate::encoding::str_eq(s, "user:unfriend") {
            Some(ClientEvent::Unfriend)
        } else if crate::encoding::str_eq(s, "user:block") {
            Some(ClientEvent::Block)
        } else if crate::encoding::str_eq(s, "user:unblock") {
            Some(ClientEvent::Unblock)
        } else if crate::encoding::str_eq(s, "user:get-supplemental") {
            Some(ClientEvent::GetSupplemental)
        } else if crate::encoding::str_eq(s, "user:set-interim") {
            Some(ClientEvent::SetInterim)
        } else {
            None
        }
    }
}

/// Acknowledgement events the server answers client events with.
#[derive(Debug, Clone, Copy, PartialEq, Eq, Hash, Structural)]
pub enum ResponseEvent {
    /// A friend request went out.
    FriendRequestSent,
    /// A friend request was revoked.
    FriendRequestRevokedResponse,
    /// A friend request was accepted.
    FriendRequestAcceptedResponse,
    /// A friend request was rejected.
    FriendRequestRejectedResponse,
    /// A friendship was ended.
    UnfriendedResponse,
    /// Presence data follows.
    GetSupplementalResponse,
    /// A presence update was applied.
    SetInterimResponse,
}

impl ResponseEvent {
    /// The wire name of the event.
    pub fn as_str(&self) -> (r: &'static str)
        ensures
            r@ == self.spec_tag(),
    {
        match self {
            ResponseEvent::FriendRequestSent => "user:friend-request-sent",
            ResponseEvent::FriendRequestRevokedResponse => "user:friend-request-revoked-response",
            ResponseEvent::FriendRequestAcceptedResponse => "user:friend-request-accepted-response",
            ResponseEvent::FriendRequestRejectedResponse => "user:friend-request-rejected-response",
            ResponseEvent::UnfriendedResponse => "user:unfriended-response",
            ResponseEvent::GetSupplementalResponse => "user:get-supplemental-response",
            ResponseEvent::SetInterimResponse => "user:set-interim-response",
        }
    }

    /// The wire name `as_str` returns for each event.
    pub open spec fn spec_tag(self) -> Seq<char> {
        match self {
            ResponseEvent::FriendRequestSent => "user:friend-request-sent"@,
            ResponseEvent::FriendRequestRevokedResponse => "user:friend-request-revoked-response"@,
            ResponseEvent::FriendRequestAcceptedResponse => "user:friend-request-accepted-response"@,
            ResponseEvent::FriendRequestRejectedResponse => "user:friend-request-rejected-response"@,
            ResponseEvent::UnfriendedResponse => "user:unfriended-response"@,
            ResponseEvent::GetSupplementalResponse => "user:get-supplemental-response"@,
            ResponseEvent::SetInterimResponse => "user:set-interim-response"@,
        }
    }
}

impl UserEvents {
    /// The wire name of a client event.
    pub fn client_event(event: ClientEvent) -> (r: &'static str)
        ensures
            r@ == event.spec_tag(),
    {
        event.as_str()
    }

    /// The wire name of a server event.
    pub fn server_event(event: ServerEvent) -> (r: &'static str)
        ensures
            r@ == event.spec_tag(),
    {
        event.as_str()
    }

    /// The wire name of a response event.
    pub fn response_event(event: ResponseEvent) -> (r: &'static str)
        ensures
            r@ == event.spec_tag(),
    {
        event.as_str()
    }
}

/// Request body: ask a user for friendship.
pub struct SendFriendRequestDto {
    pub user_id: String,
}

/// Request body: withdraw a friend request.
pub struct RevokeFriendRequestDto {
    pub user_id: String,
}

/// Request body: accept a friend request.
pub struct AcceptFriendRequestDto {
    pub user_id: String,
}

/// Request body: reject a friend request.
pub struct RejectFriendRequestDto {
    pub user_id: String,
}

/// Request body: end a friendship.
pub struct UnfriendDto {
    pub user_id: String,
}

/// Request body: block a user.
pub struct BlockUserDto {
    pub user_id: String,
}

/// Request body: unblock a user.
pub struct UnblockUserDto {
    pub user_id: String,
}

} // verus!
