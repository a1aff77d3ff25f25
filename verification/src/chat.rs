//! Chat-room model: the event names and the message and request bodies.

use vstd::prelude::*;

verus! {

/// The event vocabulary of the chat websocket.
pub struct ChatEvents;

impl ChatEvents {
    /// Client event: send a message.
    pub const SEND_MESSAGE: &'static str = "chat:send-message";

    /// Client event: join a chat room.
    pub const JOIN_CHAT: &'static str = "chat:join-chat";

    /// Server event: a new message was broadcast.
    pub const NEW_MESSAGE: &'static str = "chat:new-message";
}

/// Public data of one chat participant.
pub struct UserInfo {
    pub id: String,
    pub name: String,
    pub avatar_url: Option<String>,
}

/// One chat message.
pub struct ChatMessage {
    pub id: String,
    pub content: String,
    pub sender: UserInfo,
    pub created_at: i64,
}

/// Request body: join a chat room.
pub struct JoinChatRequest {
    pub chat_id: String,
}

/// Request body: send a message to a chat room.
pub struct SendMessageRequest {
    pub chat_id: String,
    pub text: String,
}

} // verus!
