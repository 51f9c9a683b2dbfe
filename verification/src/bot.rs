//! The bot-side data the delivery collaborator reports back: who the bot
//! is, and which chats wrote to it.  The binary shell deserializes the API
//! responses into these values; the library only holds and renders them.

use vstd::prelude::*;

verus! {

/// The bot `getMe` API result.
pub struct BotResult {
    /// Bot ID
    pub id: i64,
    /// Bot name
    pub first_name: String,
    /// Bot username
    pub username: String,
}

/// The chat extractor.
pub struct Chat {
    pub id: i64,
    pub first_name: String,
    pub username: String,
    pub _type: String,
}

/// The message extractor: the chat it came from and its body.
pub struct Message {
    /// The chat information
    pub chat: Chat,
    /// The message body
    pub text: String,
}

/// One entry of the bot `getUpdates` API result.
pub struct ChatResult {
    /// The message this update carries.
    pub message: Message,
}

} // verus!
