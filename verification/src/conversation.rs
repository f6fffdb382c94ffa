//! The local projection of a conversation.

use crate::ident::same_id;
use uuid::Uuid;
use vstd::prelude::*;

verus! {

/// What the client keeps about one conversation: which conversation it is and
/// the read watermark, the identifier of the last message the user has seen.
///
/// The watermark is only ever compared against message identifiers; it is
/// never used to look a message up.
#[derive(Clone, Copy, Debug, PartialEq, Eq)]
pub struct ConversationInfo {
    /// Identifier of the conversation.
    pub conversation: Uuid,
    /// Identifier of the last message seen, unset while nothing was seen.
    pub last_msg_read: Option<Uuid>,
}

impl ConversationInfo {
    /// The projection of a conversation in which nothing has been read yet.
    pub fn new(conversation: Uuid) -> (info: ConversationInfo)
        ensures
            info == (ConversationInfo { conversation, last_msg_read: None }),
    {
        ConversationInfo { conversation, last_msg_read: None }
    }

    /// Whether this is the projection of the conversation `id`.
    pub fn is_for(&self, id: &Uuid) -> (yes: bool)
        ensures
            yes == (self.conversation == *id),
    {
        same_id(&self.conversation, id)
    }

    /// The same projection with the watermark moved to `message`.
    pub fn read_up_to(self, message: Uuid) -> (info: ConversationInfo)
        ensures
            info == (ConversationInfo { last_msg_read: Some(message), ..self }),
    {
        ConversationInfo { conversation: self.conversation, last_msg_read: Some(message) }
    }
}

} // verus!
