//! What a node does with a message it has received.
//!
//! The listener decodes a datagram and hands the message over together with
//! the address it came from. The decision taken here is all there is to
//! dispatch: what to drop, what to report to the sink, and when to start the
//! sending side of a file transfer.

use vstd::prelude::*;
use crate::chunk_store::{accept_chunk, ChunkEntry, ChunkManager};
use crate::error::MessageError;
use crate::events::Event;
use crate::identifiers::{message_id, message_id_text};
use crate::message::DiscoveryMessage;
use crate::transfer::TransferRegistry;

verus! {

/// Why a valid message led to nothing.
#[derive(Debug, Clone, Copy, PartialEq, Eq, Structural)]
pub enum Ignored {
    /// It came in on the socket that serves discovery alone and is neither a
    /// presence nor a query message.
    DiscoveryOnly,
    /// The message it belongs to was delivered before.
    Duplicate,
    /// It is a chunk of a message that is not complete yet.
    AwaitingChunks,
    /// It accepts a transfer that is not on offer, or no longer.
    StaleAccept,
    /// It rejects an offer, which calls for nothing.
    Rejected,
}

/// The outcome of handling one received message.
#[derive(Debug, Clone, PartialEq, Eq)]
pub enum Handled {
    /// The message breaks the rules of its kind and is dropped.
    Invalid(MessageError),
    /// The message is in order and calls for nothing.
    Ignored(Ignored),
    /// The sink is to be told.
    Emit(Event),
    /// An offer was accepted: the sink is to be told, a listener is to be
    /// opened for the transfer, and the accepter is to be told its port at
    /// the address and port given.
    StartTransfer { accepted: Event, transfer_id: String, reply_ip: String, reply_port: u16 },
}

/// The report of a chat message to the sink.
pub open spec fn is_message_report(
    event: Event,
    text: Seq<char>,
    from: String,
    from_id: u64,
    to_id: u64,
    port: u16,
    source_ip: String,
    unix_secs: u64,
) -> bool {
    event matches Event::MessageReceived {
        content,
        sender,
        sender_id,
        target_id,
        sender_port,
        ip,
        timestamp,
    } && content@ == text && sender == from && sender_id == from_id && target_id == to_id
        && sender_port == port && ip == source_ip && timestamp == unix_secs
}

/// What handling a message amounts to, in terms of the state before and
/// after and of the outcome.
///
/// A message that breaks the rules of its kind is dropped with the cause.
/// Presence and query messages are reported to the sink, a peer that is
/// online or responding under the address its datagram came from. Every other
/// message is ignored on the socket that serves discovery alone. A chat
/// message is reported unless its identifier is on record, and then goes on
/// record. A chunk is stored; if it completes its message, that message is
/// reported under the same rule. An offer and a readiness notice are
/// reported. An acceptance starts a transfer if its transfer id is
/// registered and is ignored otherwise. A rejection is ignored.
pub open spec fn is_handled(
    message: DiscoveryMessage,
    source_ip: String,
    is_discovery_only: bool,
    now: u64,
    unix_secs: u64,
    registered: Set<Seq<char>>,
    chunks_before: Map<Seq<char>, Map<u16, ChunkEntry>>,
    processed_before: Set<Seq<char>>,
    chunks_after: Map<Seq<char>, Map<u16, ChunkEntry>>,
    processed_after: Set<Seq<char>>,
    outcome: Handled,
) -> bool {
    let unchanged = chunks_after == chunks_before && processed_after == processed_before;
    if message.rejection() is Some {
        &&& unchanged
        &&& outcome matches Handled::Invalid(e) && e is InvalidData && message.rejection() == Some(
            e.cause(),
        )
    } else if is_discovery_only && !message.is_discovery() {
        unchanged && outcome == Handled::Ignored(Ignored::DiscoveryOnly)
    } else {
        match message {
            DiscoveryMessage::Online(user) => unchanged && outcome == Handled::Emit(
                Event::UserOnline(user.with_ip(source_ip)),
            ),
            DiscoveryMessage::Response(user) => unchanged && outcome == Handled::Emit(
                Event::UserOnline(user.with_ip(source_ip)),
            ),
            DiscoveryMessage::Offline(user) => unchanged && outcome == Handled::Emit(
                Event::UserOffline(user),
            ),
            DiscoveryMessage::Query => unchanged && outcome == Handled::Emit(
                Event::DiscoveryQueryReceived,
            ),
            DiscoveryMessage::Message {
                content,
                sender,
                sender_id,
                target_id,
                sender_port,
                timestamp,
            } => {
                let id = message_id_text(sender_id, target_id, timestamp);
                if processed_before.contains(id) {
                    unchanged && outcome == Handled::Ignored(Ignored::Duplicate)
                } else {
                    &&& chunks_after == chunks_before
                    &&& processed_after == processed_before.insert(id)
                    &&& outcome == Handled::Emit(
                        Event::MessageReceived {
                            content,
                            sender,
                            sender_id,
                            target_id,
                            sender_port,
                            ip: source_ip,
                            timestamp: unix_secs,
                        },
                    )
                }
            },
            DiscoveryMessage::ChunkedMessage {
                chunk_id,
                chunk_index,
                total_chunks,
                content,
                sender,
                sender_id,
                target_id,
                sender_port,
                timestamp,
            } => {
                let step = accept_chunk(
                    chunks_before,
                    chunk_id@,
                    chunk_index,
                    total_chunks,
                    ChunkEntry { content: content@, received_at: now },
                );
                let id = message_id_text(sender_id, target_id, timestamp);
                &&& chunks_after == step.0
                &&& match step.1 {
                    None => processed_after == processed_before && outcome == Handled::Ignored(
                        Ignored::AwaitingChunks,
                    ),
                    Some(text) => if processed_before.contains(id) {
                        processed_after == processed_before && outcome == Handled::Ignored(
                            Ignored::Duplicate,
                        )
                    } else {
                        &&& processed_after == processed_before.insert(id)
                        &&& outcome matches Handled::Emit(event) && is_message_report(
                            event,
                            text,
                            sender,
                            sender_id,
                            target_id,
                            sender_port,
                            source_ip,
                            unix_secs,
                        )
                    },
                }
            },
            DiscoveryMessage::FileOffer { sender, file_name, file_size, transfer_id } => unchanged
                && outcome == Handled::Emit(
                Event::FileOfferReceived {
                    sender: sender.with_ip(source_ip),
                    file_name,
                    file_size,
                    transfer_id,
                },
            ),
            DiscoveryMessage::FileAccept { receiver, transfer_id } => unchanged && outcome == if registered.contains(
                transfer_id@,
            ) {
                Handled::StartTransfer {
                    accepted: Event::FileTransferAccepted {
                        transfer_id,
                        receiver: receiver.with_ip(source_ip),
                    },
                    transfer_id,
                    reply_ip: source_ip,
                    reply_port: receiver.port,
                }
            } else {
                Handled::Ignored(Ignored::StaleAccept)
            },
            DiscoveryMessage::FileReject { .. } => unchanged && outcome == Handled::Ignored(
                Ignored::Rejected,
            ),
            DiscoveryMessage::TransferReady { transfer_id, tcp_port } => unchanged && outcome
                == Handled::Emit(
                Event::FileTransferReady { transfer_id, port: tcp_port, sender_ip: source_ip },
            ),
        }
    }
}

/// Reports a chat message unless its identifier is on record; puts the
/// identifier on record if it was not.
fn deliver_once(
    chunk_manager: &mut ChunkManager,
    content: String,
    sender: String,
    sender_id: u64,
    target_id: u64,
    sender_port: u16,
    timestamp: u64,
    source_ip: String,
    unix_secs: u64,
) -> (outcome: Handled)
    requires
        old(chunk_manager).wf(),
    ensures
        final(chunk_manager).wf(),
        final(chunk_manager).chunks() == old(chunk_manager).chunks(),
        old(chunk_manager).processed().contains(message_id_text(sender_id, target_id, timestamp))
            ==> final(chunk_manager).processed() == old(chunk_manager).processed() && outcome
            == Handled::Ignored(Ignored::Duplicate),
        !old(chunk_manager).processed().contains(message_id_text(sender_id, target_id, timestamp))
            ==> final(chunk_manager).processed() == old(chunk_manager).processed().insert(
            message_id_text(sender_id, target_id, timestamp),
        ) && outcome == Handled::Emit(
            Event::MessageReceived {
                content,
                sender,
                sender_id,
                target_id,
                sender_port,
                ip: source_ip,
                timestamp: unix_secs,
            },
        ),
{
    let id = message_id(sender_id, target_id, timestamp);
    if chunk_manager.is_processed(id.as_str()) {
        return Handled::Ignored(Ignored::Duplicate);
    }
    chunk_manager.mark_processed(id);
    Handled::Emit(
        Event::MessageReceived {
            content,
            sender,
            sender_id,
            target_id,
            sender_port,
            ip: source_ip,
            timestamp: unix_secs,
        },
    )
}

/// Handles one received message. `source_ip` is the address the datagram
/// came from, `now` a reading of the monotonic clock in nanoseconds, and
/// `unix_secs` the time of day in seconds, which a reported chat message
/// carries.
pub fn handle_message(
    chunk_manager: &mut ChunkManager,
    registry: &TransferRegistry,
    message: DiscoveryMessage,
    source_ip: String,
    is_discovery_only: bool,
    now: u64,
    unix_secs: u64,
) -> (outcome: Handled)
    requires
        old(chunk_manager).wf(),
    ensures
        final(chunk_manager).wf(),
        is_handled(
            message,
            source_ip,
            is_discovery_only,
            now,
            unix_secs,
            registry.entries().dom(),
            old(chunk_manager).chunks(),
            old(chunk_manager).processed(),
            final(chunk_manager).chunks(),
            final(chunk_manager).processed(),
            outcome,
        ),
{
    match message.validate() {
        Err(e) => {
            return Handled::Invalid(e);
        },
        Ok(()) => {},
    }
    if is_discovery_only && !message.is_discovery_kind() {
        return Handled::Ignored(Ignored::DiscoveryOnly);
    }
    match message {
        DiscoveryMessage::Online(user) => Handled::Emit(
            Event::UserOnline(user.observed_at(source_ip)),
        ),
        DiscoveryMessage::Response(user) => Handled::Emit(
            Event::UserOnline(user.observed_at(source_ip)),
        ),
        DiscoveryMessage::Offline(user) => Handled::Emit(Event::UserOffline(user)),
        DiscoveryMessage::Query => Handled::Emit(Event::DiscoveryQueryReceived),
        DiscoveryMessage::Message {
            content,
            sender,
            sender_id,
            target_id,
            sender_port,
            timestamp,
        } => deliver_once(
            chunk_manager,
            content,
            sender,
            sender_id,
            target_id,
            sender_port,
            timestamp,
            source_ip,
            unix_secs,
        ),
        DiscoveryMessage::ChunkedMessage {
            chunk_id,
            chunk_index,
            total_chunks,
            content,
            sender,
            sender_id,
            target_id,
            sender_port,
            timestamp,
        } => {
            match chunk_manager.reassemble_chunks(chunk_id, chunk_index, total_chunks, content, now) {
                Some(complete) => deliver_once(
                    chunk_manager,
                    complete,
                    sender,
                    sender_id,
                    target_id,
                    sender_port,
                    timestamp,
                    source_ip,
                    unix_secs,
                ),
                None => Handled::Ignored(Ignored::AwaitingChunks),
            }
        },
        DiscoveryMessage::FileOffer { sender, file_name, file_size, transfer_id } => Handled::Emit(
            Event::FileOfferReceived {
                sender: sender.observed_at(source_ip),
                file_name,
                file_size,
                transfer_id,
            },
        ),
        DiscoveryMessage::FileAccept { receiver, transfer_id } => {
            if !registry.contains(transfer_id.as_str()) {
                return Handled::Ignored(Ignored::StaleAccept);
            }
            let reply_port = receiver.port;
            let reply_ip = source_ip.clone();
            Handled::StartTransfer {
                accepted: Event::FileTransferAccepted {
                    transfer_id: transfer_id.clone(),
                    receiver: receiver.observed_at(source_ip),
                },
                transfer_id,
                reply_ip,
                reply_port,
            }
        },
        DiscoveryMessage::FileReject { .. } => Handled::Ignored(Ignored::Rejected),
        DiscoveryMessage::TransferReady { transfer_id, tcp_port } => Handled::Emit(
            Event::FileTransferReady { transfer_id, port: tcp_port, sender_ip: source_ip },
        ),
    }
}

} // verus!
