//! The messages peers exchange, and the rules an incoming one must meet.

use vstd::prelude::*;
use vstd::utf8::encode_utf8;
use vstd::string::StringSliceAdditionalSpecFns;
use crate::error::MessageError;
use crate::limits::{CHUNK_SIZE, MAX_MESSAGE_BYTES, MAX_TOTAL_CHUNKS};
use crate::peer::User;

verus! {

/// One message of the discovery and chat protocol.
#[derive(Debug, Clone, PartialEq, Eq)]
#[allow(inconsistent_fields)]
pub enum DiscoveryMessage {
    Online(User),
    Offline(User),
    Response(User),
    Query,
    Message {
        content: String,
        sender: String,
        sender_id: u64,
        target_id: u64,
        sender_port: u16,
        timestamp: u64,
    },
    ChunkedMessage {
        chunk_id: String,
        chunk_index: u16,
        total_chunks: u16,
        content: String,
        sender: String,
        sender_id: u64,
        target_id: u64,
        sender_port: u16,
        timestamp: u64,
    },
    FileOffer { sender: User, file_name: String, file_size: u64, transfer_id: String },
    FileAccept { receiver: User, transfer_id: String },
    FileReject { transfer_id: String },
    TransferReady { transfer_id: String, tcp_port: u16 },
}

/// Number of bytes in the UTF-8 encoding of a text.
pub open spec fn byte_len(text: Seq<char>) -> nat {
    encode_utf8(text).len()
}

/// Counts the bytes of a text's UTF-8 encoding.
pub fn text_bytes(text: &str) -> (n: usize)
    ensures
        n == byte_len(text@),
{
    text.as_bytes().len()
}

impl DiscoveryMessage {
    /// The cause for which this message is refused, if it is. The rules are
    /// tried in the order written; the first one broken gives the cause.
    pub open spec fn rejection(&self) -> Option<Seq<char>> {
        match self {
            DiscoveryMessage::Online(user) => user.rejection(),
            DiscoveryMessage::Offline(user) => user.rejection(),
            DiscoveryMessage::Response(user) => user.rejection(),
            DiscoveryMessage::Message { content, sender, .. } => {
                if byte_len(content@) > MAX_MESSAGE_BYTES {
                    Some("Message too long"@)
                } else if sender@.len() == 0 {
                    Some("Sender name required"@)
                } else {
                    None
                }
            },
            DiscoveryMessage::ChunkedMessage { content, sender, total_chunks, .. } => {
                if byte_len(content@) > CHUNK_SIZE {
                    Some("Chunk too large"@)
                } else if sender@.len() == 0 {
                    Some("Sender name required"@)
                } else if *total_chunks == 0 || *total_chunks > MAX_TOTAL_CHUNKS {
                    Some("Invalid chunk count"@)
                } else {
                    None
                }
            },
            DiscoveryMessage::FileOffer { file_name, .. } => {
                if file_name@.len() == 0 {
                    Some("File name cannot be empty"@)
                } else {
                    None
                }
            },
            DiscoveryMessage::FileAccept { .. } => None,
            DiscoveryMessage::FileReject { .. } => None,
            DiscoveryMessage::TransferReady { .. } => None,
            DiscoveryMessage::Query => None,
        }
    }

    /// True of the presence and query messages, the only ones a socket that
    /// serves discovery alone lets through.
    pub open spec fn is_discovery(&self) -> bool {
        self is Online || self is Offline || self is Response || self is Query
    }

    /// Checks the rules of this message's kind.
    pub fn validate(&self) -> (res: Result<(), MessageError>)
        ensures
            res is Ok <==> self.rejection() is None,
            res matches Err(e) ==> e is InvalidData && self.rejection() == Some(e.cause()),
    {
        match self {
            DiscoveryMessage::Online(user) => user.validate(),
            DiscoveryMessage::Offline(user) => user.validate(),
            DiscoveryMessage::Response(user) => user.validate(),
            DiscoveryMessage::Message { content, sender, .. } => {
                if text_bytes(content.as_str()) > MAX_MESSAGE_BYTES {
                    return Err(MessageError::invalid("Message too long"));
                }
                if sender.as_str().is_empty() {
                    return Err(MessageError::invalid("Sender name required"));
                }
                Ok(())
            },
            DiscoveryMessage::ChunkedMessage { content, sender, total_chunks, .. } => {
                if text_bytes(content.as_str()) > CHUNK_SIZE {
                    return Err(MessageError::invalid("Chunk too large"));
                }
                if sender.as_str().is_empty() {
                    return Err(MessageError::invalid("Sender name required"));
                }
                if *total_chunks == 0 || *total_chunks > MAX_TOTAL_CHUNKS {
                    return Err(MessageError::invalid("Invalid chunk count"));
                }
                Ok(())
            },
            DiscoveryMessage::FileOffer { file_name, .. } => {
                if file_name.as_str().is_empty() {
                    return Err(MessageError::invalid("File name cannot be empty"));
                }
                Ok(())
            },
            DiscoveryMessage::FileAccept { .. } => Ok(()),
            DiscoveryMessage::FileReject { .. } => Ok(()),
            DiscoveryMessage::TransferReady { .. } => Ok(()),
            DiscoveryMessage::Query => Ok(()),
        }
    }

    /// Tells whether this is a presence or query message.
    pub fn is_discovery_kind(&self) -> (b: bool)
        ensures
            b == self.is_discovery(),
    {
        match self {
            DiscoveryMessage::Online(_) => true,
            DiscoveryMessage::Offline(_) => true,
            DiscoveryMessage::Response(_) => true,
            DiscoveryMessage::Query => true,
            _ => false,
        }
    }
}

} // verus!
