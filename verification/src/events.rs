//! What the engine reports to the notification sink.

use vstd::prelude::*;
use crate::peer::User;

verus! {

/// A change of state the user interface must reflect. The sink receives the
/// event's name and its fields.
#[derive(Debug, Clone, PartialEq, Eq)]
#[allow(inconsistent_fields)]
pub enum Event {
    UserOnline(User),
    UserOffline(User),
    DiscoveryQueryReceived,
    MessageReceived {
        content: String,
        sender: String,
        sender_id: u64,
        target_id: u64,
        sender_port: u16,
        ip: String,
        timestamp: u64,
    },
    FileOfferReceived { sender: User, file_name: String, file_size: u64, transfer_id: String },
    FileTransferAccepted { transfer_id: String, receiver: User },
    FileTransferReady { transfer_id: String, port: u16, sender_ip: String },
    FileTransferProgress { transfer_id: String, progress: u8 },
    FileTransferComplete { transfer_id: String, file_path: String, size: u64 },
    FileTransferError { transfer_id: String, error: String },
}

impl Event {
    /// The name under which the sink receives this event.
    pub open spec fn name_text(&self) -> Seq<char> {
        match self {
            Event::UserOnline(_) => "user-online"@,
            Event::UserOffline(_) => "user-offline"@,
            Event::DiscoveryQueryReceived => "discovery-query-received"@,
            Event::MessageReceived { .. } => "message-received"@,
            Event::FileOfferReceived { .. } => "file-offer-received"@,
            Event::FileTransferAccepted { .. } => "file-transfer-accepted"@,
            Event::FileTransferReady { .. } => "file-transfer-ready"@,
            Event::FileTransferProgress { .. } => "file-transfer-progress"@,
            Event::FileTransferComplete { .. } => "file-transfer-complete"@,
            Event::FileTransferError { .. } => "file-transfer-error"@,
        }
    }

    /// The name under which the sink receives this event.
    pub fn name(&self) -> (name: &'static str)
        ensures
            name@ == self.name_text(),
    {
        match self {
            Event::UserOnline(_) => "user-online",
            Event::UserOffline(_) => "user-offline",
            Event::DiscoveryQueryReceived => "discovery-query-received",
            Event::MessageReceived { .. } => "message-received",
            Event::FileOfferReceived { .. } => "file-offer-received",
            Event::FileTransferAccepted { .. } => "file-transfer-accepted",
            Event::FileTransferReady { .. } => "file-transfer-ready",
            Event::FileTransferProgress { .. } => "file-transfer-progress",
            Event::FileTransferComplete { .. } => "file-transfer-complete",
            Event::FileTransferError { .. } => "file-transfer-error",
        }
    }
}

} // verus!
