//! The channels that one side of a conversation opens and accepts.

use crate::proto::codec;
use crate::proto::codec::{ChannelId, ChannelStreamHeader, ConversationId, HeaderFields};
use vstd::prelude::*;
use vstd::string::*;

verus! {

/// Why a channel could not be opened or accepted.
#[derive(Debug, Clone, PartialEq, Eq)]
pub enum ChannelError {
    OpenFailed { reason: String },
}

/// A conversation, and the numbers of its channels. They count up from 0, and start
/// again after the last.
#[derive(Debug)]
pub struct LocalConversation {
    conversation_id: ConversationId,
    next_channel_id: u32,
}

impl LocalConversation {
    /// The conversation.
    pub closed spec fn id(&self) -> ConversationId {
        self.conversation_id
    }

    /// The number of the next channel.
    pub closed spec fn next_id(&self) -> u32 {
        self.next_channel_id
    }

    /// A conversation without channels.
    pub fn new(conversation_id: ConversationId) -> (r: Self)
        ensures
            r.id() == conversation_id,
            r.next_id() == 0,
    {
        LocalConversation { conversation_id, next_channel_id: 0 }
    }

    /// The conversation.
    pub fn conversation_id(&self) -> (r: ConversationId)
        ensures
            r == self.id(),
    {
        self.conversation_id
    }

    fn allocate_channel_id(&mut self) -> (r: ChannelId)
        ensures
            r@ == old(self).next_id(),
            final(self).id() == old(self).id(),
            final(self).next_id() == (if old(self).next_id() == u32::MAX {
                0
            } else {
                old(self).next_id() + 1
            }),
    {
        let id: u32 = self.next_channel_id;
        self.next_channel_id = self.next_channel_id.wrapping_add(1);
        ChannelId::new(id)
    }

    /// Opens a channel: its number, and the header that its stream starts with.
    pub fn open_channel(&mut self, channel_type: &str, max_message_size: u64) -> (r: (
        ChannelId,
        Result<Vec<u8>, ChannelError>,
    ))
        ensures
            r.0@ == old(self).next_id(),
            final(self).id() == old(self).id(),
            final(self).next_id() == (if old(self).next_id() == u32::MAX {
                0
            } else {
                old(self).next_id() + 1
            }),
            ({
                let h = HeaderFields {
                    conversation_id: old(self).id()@,
                    channel_type: channel_type@,
                    max_message_size,
                };
                match r.1 {
                    Ok(b) => codec::header_fits(h) && b@ == codec::header_bytes(h),
                    Err(ChannelError::OpenFailed { reason }) => !codec::header_fits(h) && reason@
                        == codec::ChannelHeaderEncodeError::VarIntOverflow.message(),
                }
            }),
    {
        let id = self.allocate_channel_id();
        let header = ChannelStreamHeader::new(
            self.conversation_id,
            channel_type.to_owned(),
            max_message_size,
        );
        match header.encode_to_vec() {
            Ok(b) => (id, Ok(b)),
            Err(e) => (id, Err(ChannelError::OpenFailed { reason: e.to_string() })),
        }
    }

    /// Accepts the channel whose stream, with this header, has come in: its number and its
    /// type. None comes in any more once the conversation is closed.
    pub fn accept_channel(&mut self, routed: Option<ChannelStreamHeader>) -> (r: Result<
        (ChannelId, String),
        ChannelError,
    >)
        ensures
            final(self).id() == old(self).id(),
            match routed {
                Some(header) => {
                    &&& r matches Ok((id, channel_type))
                    &&& id@ == old(self).next_id()
                    &&& channel_type@ == header@.channel_type
                    &&& final(self).next_id() == (if old(self).next_id() == u32::MAX {
                        0
                    } else {
                        old(self).next_id() + 1
                    })
                },
                None => {
                    &&& r matches Err(ChannelError::OpenFailed { reason })
                    &&& reason@ == "conversation closed"@
                    &&& final(self).next_id() == old(self).next_id()
                },
            },
    {
        match routed {
            Some(header) => Ok((self.allocate_channel_id(), header.channel_type)),
            None => Err(ChannelError::OpenFailed { reason: "conversation closed".to_owned() }),
        }
    }
}

} // verus!
