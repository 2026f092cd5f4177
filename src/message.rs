use vstd::prelude::*;

verus! {

/// The chat and message that a batch reply answers.
#[derive(Debug, Clone, Copy, PartialEq, Eq, Structural)]
pub struct ReplyTarget {
    pub chat_id: i64,
    pub message_id: i32,
}

/// The largest size of a photo attached to a message.
#[derive(Debug, Clone)]
pub struct PhotoRef {
    /// Identifier used to fetch the file.
    pub file_id: String,
    /// Identifier that stays the same for the file across bots.
    pub unique_id: String,
}

/// A video attached to a message.
#[derive(Debug, Clone)]
pub struct VideoRef {
    /// Identifier used to fetch the file.
    pub file_id: String,
    /// The file name given by the sender, if any.
    pub file_name: Option<String>,
}

/// An inbound chat message, reduced to what the core reads from it.
#[derive(Debug, Clone)]
pub struct InboundMessage {
    pub id: i32,
    pub chat_id: i64,
    pub photo: Option<PhotoRef>,
    pub video: Option<VideoRef>,
    /// Correlation identifier shared by the parts of one album.
    pub media_group_id: Option<String>,
}

impl InboundMessage {
    /// The chat and message that a reply to this message is addressed to.
    pub fn target(&self) -> (r: ReplyTarget)
        ensures
            r == (ReplyTarget { chat_id: self.chat_id, message_id: self.id }),
    {
        ReplyTarget { chat_id: self.chat_id, message_id: self.id }
    }
}

} // verus!
