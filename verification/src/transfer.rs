//! The file-transfer handshake and the byte stream that follows it.
//!
//! A sender registers the file it offers under a transfer id. When the
//! receiver accepts, the sender opens a TCP listener and names its port in a
//! readiness notice; the receiver connects, reads an eight-byte big-endian
//! size and then the content. Whatever way a transfer ends, its registration
//! is removed. The functions here decide each step; the caller owns the
//! sockets and files and reports what happened to them.

use vstd::prelude::*;
use vstd::hash_map::StringHashMap;
use vstd::string::StringExecFns;
use crate::decimal::{decimal, render_decimal};
use crate::events::Event;
use crate::identifiers::{address_text, broadcast_address, socket_address};
use crate::limits::TRANSFER_CHUNK_SIZE;
use crate::message::DiscoveryMessage;
use crate::peer::{is_self_description, local_peer};

verus! {

/// The files on offer: transfer id to the path of the file to send.
pub struct TransferRegistry {
    entries: StringHashMap<String>,
}

impl TransferRegistry {
    /// The registered paths by transfer id.
    pub closed spec fn entries(&self) -> Map<Seq<char>, String> {
        self.entries@
    }

    /// A registry with nothing on offer.
    pub fn new() -> (registry: TransferRegistry)
        ensures
            registry.entries() == Map::<Seq<char>, String>::empty(),
    {
        TransferRegistry { entries: StringHashMap::new() }
    }

    /// Registers a file under a transfer id, in place of any earlier one.
    pub fn register(&mut self, transfer_id: String, path: String)
        ensures
            final(self).entries() == old(self).entries().insert(transfer_id@, path),
    {
        self.entries.insert(transfer_id, path);
    }

    /// Tells whether a transfer id is registered.
    pub fn contains(&self, transfer_id: &str) -> (found: bool)
        ensures
            found == self.entries().contains_key(transfer_id@),
    {
        self.entries.contains_key(transfer_id)
    }

    /// The path registered under a transfer id.
    pub fn path_of(&self, transfer_id: &str) -> (path: Option<String>)
        ensures
            path is Some <==> self.entries().contains_key(transfer_id@),
            path matches Some(p) ==> p == self.entries()[transfer_id@],
    {
        match self.entries.get(transfer_id) {
            Some(p) => Some(p.clone()),
            None => None,
        }
    }

    /// Removes a registration, if there is one.
    pub fn remove(&mut self, transfer_id: &str)
        ensures
            final(self).entries() == old(self).entries().remove(transfer_id@),
    {
        self.entries.remove(transfer_id);
    }
}

/// A message to send, and the address to send it to.
#[derive(Debug, Clone, PartialEq, Eq)]
pub struct Outgoing {
    pub message: DiscoveryMessage,
    pub target_addr: String,
}

/// Offers a file: registers its path under the transfer id and prepares the
/// offer for the target. Without a path nothing is registered and the offer
/// fails. The offer names the local node, under the name the machine reports
/// for itself.
pub fn initiate_file_offer(
    registry: &mut TransferRegistry,
    target_ip: &str,
    target_port: u16,
    transfer_id: String,
    file_name: String,
    file_size: u64,
    file_path: Option<String>,
    sender_id: u64,
    sender_name: String,
    sender_username: String,
    sender_profile_picture: Option<String>,
    message_port: u16,
) -> (res: Result<Outgoing, String>)
    ensures
        res is Ok <==> (file_path matches Some(p) && p@.len() > 0),
        res matches Err(e) ==> final(registry).entries() == old(registry).entries() && e@
            == "File offer failed because the file path was not provided or was empty."@,
        res matches Ok(out) ==> {
            &&& final(registry).entries() == old(registry).entries().insert(
                transfer_id@,
                file_path->Some_0,
            )
            &&& out.target_addr@ == address_text(target_ip@, target_port)
            &&& out.message matches DiscoveryMessage::FileOffer {
                sender,
                file_name: name,
                file_size: size,
                transfer_id: id,
            } && name == file_name && size == file_size && id == transfer_id
                && is_self_description(
                sender,
                sender_id,
                sender_name,
                sender_username,
                sender_profile_picture,
                message_port,
                sender.hostname,
            )
        },
{
    let valid_path = match file_path {
        Some(path) => {
            if path.as_str().is_empty() {
                return Err(
                    String::from_str(
                        "File offer failed because the file path was not provided or was empty.",
                    ),
                );
            }
            path
        },
        None => {
            return Err(
                String::from_str(
                    "File offer failed because the file path was not provided or was empty.",
                ),
            );
        },
    };
    registry.register(transfer_id.clone(), valid_path);
    let sender = local_peer(
        sender_id,
        sender_name,
        sender_username,
        sender_profile_picture,
        message_port,
    );
    let message = DiscoveryMessage::FileOffer { sender, file_name, file_size, transfer_id };
    Ok(Outgoing { message, target_addr: socket_address(target_ip, target_port) })
}

/// Where the answer to an offer goes: to the offerer if its address and port
/// are both known, to everyone on the message port otherwise.
pub open spec fn response_address(
    target_ip: Option<String>,
    target_port: Option<u16>,
    message_port: u16,
) -> Seq<char> {
    if target_ip is Some && target_port is Some {
        address_text(target_ip->Some_0@, target_port->Some_0)
    } else {
        address_text("255.255.255.255"@, message_port)
    }
}

/// Answers an offer: an acceptance that names the local node, or a
/// rejection.
pub fn respond_to_file_offer(
    transfer_id: String,
    accepted: bool,
    sender_id: u64,
    sender_name: String,
    sender_username: String,
    sender_profile_picture: Option<String>,
    target_ip: Option<String>,
    target_port: Option<u16>,
    message_port: u16,
) -> (out: Outgoing)
    ensures
        out.target_addr@ == response_address(target_ip, target_port, message_port),
        accepted ==> (out.message matches DiscoveryMessage::FileAccept { receiver, transfer_id: id }
            && id == transfer_id && is_self_description(
            receiver,
            sender_id,
            sender_name,
            sender_username,
            sender_profile_picture,
            message_port,
            receiver.hostname,
        )),
        !accepted ==> (out.message matches DiscoveryMessage::FileReject { transfer_id: id } && id
            == transfer_id),
{
    let target_addr = match (&target_ip, target_port) {
        (Some(ip), Some(port)) => socket_address(ip.as_str(), port),
        _ => broadcast_address(message_port),
    };
    let message = if accepted {
        let receiver = local_peer(
            sender_id,
            sender_name,
            sender_username,
            sender_profile_picture,
            message_port,
        );
        DiscoveryMessage::FileAccept { receiver, transfer_id }
    } else {
        DiscoveryMessage::FileReject { transfer_id }
    };
    Outgoing { message, target_addr }
}

/// Announces to everyone on the message port that the transfer's listener is
/// up on `tcp_port`.
pub fn start_file_transfer(transfer_id: String, tcp_port: u16, message_port: u16) -> (out: Outgoing)
    ensures
        out.target_addr@ == address_text("255.255.255.255"@, message_port),
        out.message matches DiscoveryMessage::TransferReady { transfer_id: id, tcp_port: port }
            && id == transfer_id && port == tcp_port,
{
    Outgoing {
        message: DiscoveryMessage::TransferReady { transfer_id, tcp_port },
        target_addr: broadcast_address(message_port),
    }
}

/// Tells the accepter that the transfer's listener is up, given the port
/// obtained for it. Port zero stands for no port: then there is no listener
/// and nothing to tell.
pub fn transfer_ready_reply(
    transfer_id: String,
    tcp_port: u16,
    reply_ip: &str,
    reply_port: u16,
) -> (out: Option<Outgoing>)
    ensures
        out is Some <==> tcp_port > 0,
        out matches Some(o) ==> o.target_addr@ == address_text(reply_ip@, reply_port) && (
        o.message matches DiscoveryMessage::TransferReady { transfer_id: id, tcp_port: port } && id
            == transfer_id && port == tcp_port),
{
    if tcp_port > 0 {
        Some(
            Outgoing {
                message: DiscoveryMessage::TransferReady { transfer_id, tcp_port },
                target_addr: socket_address(reply_ip, reply_port),
            },
        )
    } else {
        None
    }
}

/// Where a transfer stands.
#[derive(Debug, Clone, Copy, PartialEq, Eq, Structural)]
pub enum TransferState {
    /// Offered to the receiver, not answered yet.
    Offered,
    /// Accepted by the receiver.
    Accepted,
    /// The sender listens; the receiver has not connected yet.
    AwaitingConnection,
    /// The content is on its way.
    Transferring,
    /// All content was sent.
    Completed,
    /// Rejected by the receiver.
    Rejected,
    /// Ended by an error.
    Failed,
    /// Ended because a wait ran out.
    TimedOut,
}

/// What can happen to a transfer.
#[derive(Debug, Clone, Copy, PartialEq, Eq, Structural)]
pub enum TransferSignal {
    /// The receiver accepted the offer.
    Accept,
    /// The receiver rejected the offer.
    Reject,
    /// The sender's listener is up and its port announced.
    ListenerOpened,
    /// The receiver connected.
    Connected,
    /// The last byte was sent.
    Finished,
    /// Something went wrong.
    Failure,
    /// A wait ran out.
    Timeout,
}

/// The state a signal leads to; nothing where the signal has no place.
pub open spec fn transition(state: TransferState, signal: TransferSignal) -> Option<TransferState> {
    match (state, signal) {
        (TransferState::Offered, TransferSignal::Accept) => Some(TransferState::Accepted),
        (TransferState::Offered, TransferSignal::Reject) => Some(TransferState::Rejected),
        (TransferState::Accepted, TransferSignal::ListenerOpened) => Some(
            TransferState::AwaitingConnection,
        ),
        (TransferState::AwaitingConnection, TransferSignal::Connected) => Some(
            TransferState::Transferring,
        ),
        (TransferState::AwaitingConnection, TransferSignal::Failure) => Some(TransferState::Failed),
        (TransferState::AwaitingConnection, TransferSignal::Timeout) => Some(
            TransferState::TimedOut,
        ),
        (TransferState::Transferring, TransferSignal::Finished) => Some(TransferState::Completed),
        (TransferState::Transferring, TransferSignal::Failure) => Some(TransferState::Failed),
        (TransferState::Transferring, TransferSignal::Timeout) => Some(TransferState::TimedOut),
        _ => None,
    }
}

/// The states in which a transfer is over.
pub open spec fn is_concluded(state: TransferState) -> bool {
    state == TransferState::Completed || state == TransferState::Rejected || state
        == TransferState::Failed || state == TransferState::TimedOut
}

/// A transfer that is over stays as it is, and a transfer fails or times out
/// only while it awaits the connection or while the content is on its way.
pub proof fn lemma_transfer_states(state: TransferState, signal: TransferSignal)
    ensures
        is_concluded(state) ==> transition(state, signal) is None,
        transition(state, signal) == Some(TransferState::Failed) || transition(state, signal)
            == Some(TransferState::TimedOut) ==> state == TransferState::AwaitingConnection
            || state == TransferState::Transferring,
        transition(state, signal) == Some(TransferState::Completed) ==> state
            == TransferState::Transferring,
{
}

impl TransferState {
    /// Moves a transfer on by one signal.
    pub fn advance(self, signal: TransferSignal) -> (next: Option<TransferState>)
        ensures
            next == transition(self, signal),
    {
        match (self, signal) {
            (TransferState::Offered, TransferSignal::Accept) => Some(TransferState::Accepted),
            (TransferState::Offered, TransferSignal::Reject) => Some(TransferState::Rejected),
            (TransferState::Accepted, TransferSignal::ListenerOpened) => Some(
                TransferState::AwaitingConnection,
            ),
            (TransferState::AwaitingConnection, TransferSignal::Connected) => Some(
                TransferState::Transferring,
            ),
            (TransferState::AwaitingConnection, TransferSignal::Failure) => Some(
                TransferState::Failed,
            ),
            (TransferState::AwaitingConnection, TransferSignal::Timeout) => Some(
                TransferState::TimedOut,
            ),
            (TransferState::Transferring, TransferSignal::Finished) => Some(
                TransferState::Completed,
            ),
            (TransferState::Transferring, TransferSignal::Failure) => Some(TransferState::Failed),
            (TransferState::Transferring, TransferSignal::Timeout) => Some(TransferState::TimedOut),
            _ => None,
        }
    }

    /// Tells whether the transfer is over.
    pub fn concluded(self) -> (over: bool)
        ensures
            over == is_concluded(self),
    {
        match self {
            TransferState::Completed => true,
            TransferState::Rejected => true,
            TransferState::Failed => true,
            TransferState::TimedOut => true,
            _ => false,
        }
    }
}

/// How the sending side of a transfer ended.
#[derive(Debug, Clone, PartialEq, Eq)]
pub enum ServerOutcome {
    /// The content was written to the receiver.
    Sent,
    /// The listener could not be set up.
    SetupFailed(String),
    /// Accepting the receiver's connection failed.
    AcceptFailed(String),
    /// No receiver connected within `ACCEPT_TIMEOUT_SECS`.
    AcceptTimedOut,
    /// The file could not be read.
    ReadFailed(String),
    /// Writing to the receiver failed.
    WriteFailed(String),
}

impl ServerOutcome {
    /// The cause reported for a failed transfer; nothing for one that was
    /// sent.
    pub open spec fn failure_text(&self) -> Option<Seq<char>> {
        match self {
            ServerOutcome::Sent => None,
            ServerOutcome::SetupFailed(e) => Some("Failed to setup file transfer server: "@ + e@),
            ServerOutcome::AcceptFailed(e) => Some("Failed to accept connection: "@ + e@),
            ServerOutcome::AcceptTimedOut => Some("Timeout waiting for connection"@),
            ServerOutcome::ReadFailed(e) => Some("Failed to read file: "@ + e@),
            ServerOutcome::WriteFailed(e) => Some("Error sending file chunk: "@ + e@),
        }
    }

    /// The last step of the transfer: the state it was in and what happened
    /// to it there. The listener's setup and the wait for the receiver belong
    /// to the wait for the connection, reading the file and writing it to the
    /// transfer of the content.
    pub open spec fn last_step(&self) -> (TransferState, TransferSignal) {
        match self {
            ServerOutcome::Sent => (TransferState::Transferring, TransferSignal::Finished),
            ServerOutcome::SetupFailed(_) => (
                TransferState::AwaitingConnection,
                TransferSignal::Failure,
            ),
            ServerOutcome::AcceptFailed(_) => (
                TransferState::AwaitingConnection,
                TransferSignal::Failure,
            ),
            ServerOutcome::AcceptTimedOut => (
                TransferState::AwaitingConnection,
                TransferSignal::Timeout,
            ),
            ServerOutcome::ReadFailed(_) => (TransferState::Transferring, TransferSignal::Failure),
            ServerOutcome::WriteFailed(_) => (TransferState::Transferring, TransferSignal::Failure),
        }
    }

    /// The state the transfer ends in.
    pub open spec fn end_state(&self) -> TransferState {
        match self {
            ServerOutcome::Sent => TransferState::Completed,
            ServerOutcome::AcceptTimedOut => TransferState::TimedOut,
            _ => TransferState::Failed,
        }
    }

    /// The state the transfer ends in, reached by its last step: completed
    /// if the content was sent, timed out if no receiver connected in time,
    /// failed otherwise.
    pub fn final_state(&self) -> (state: TransferState)
        ensures
            state == self.end_state(),
            transition(self.last_step().0, self.last_step().1) == Some(state),
            is_concluded(state),
    {
        let (from, signal) = match self {
            ServerOutcome::Sent => (TransferState::Transferring, TransferSignal::Finished),
            ServerOutcome::SetupFailed(_) => (
                TransferState::AwaitingConnection,
                TransferSignal::Failure,
            ),
            ServerOutcome::AcceptFailed(_) => (
                TransferState::AwaitingConnection,
                TransferSignal::Failure,
            ),
            ServerOutcome::AcceptTimedOut => (
                TransferState::AwaitingConnection,
                TransferSignal::Timeout,
            ),
            ServerOutcome::ReadFailed(_) => (TransferState::Transferring, TransferSignal::Failure),
            ServerOutcome::WriteFailed(_) => (TransferState::Transferring, TransferSignal::Failure),
        };
        match from.advance(signal) {
            Some(state) => state,
            None => TransferState::Failed,
        }
    }

    /// The cause reported for a failed transfer.
    pub fn failure(&self) -> (text: Option<String>)
        ensures
            text is Some <==> self.failure_text() is Some,
            text matches Some(t) ==> self.failure_text() == Some(t@),
    {
        match self {
            ServerOutcome::Sent => None,
            ServerOutcome::SetupFailed(e) => Some(
                String::from_str("Failed to setup file transfer server: ").concat(e.as_str()),
            ),
            ServerOutcome::AcceptFailed(e) => Some(
                String::from_str("Failed to accept connection: ").concat(e.as_str()),
            ),
            ServerOutcome::AcceptTimedOut => Some(String::from_str("Timeout waiting for connection")),
            ServerOutcome::ReadFailed(e) => Some(
                String::from_str("Failed to read file: ").concat(e.as_str()),
            ),
            ServerOutcome::WriteFailed(e) => Some(
                String::from_str("Error sending file chunk: ").concat(e.as_str()),
            ),
        }
    }
}

/// The cause reported when a transfer is started for an id that is not
/// registered.
pub open spec fn missing_path_text(transfer_id: Seq<char>) -> Seq<char> {
    "File path for transfer ID "@ + transfer_id + " not found in registry."@
}

/// Looks up the file to send when a transfer's server starts. For an id that
/// is not registered there is nothing to send: the result is the failure to
/// report.
pub fn begin_transfer(registry: &TransferRegistry, transfer_id: &String) -> (res: Result<
    String,
    Event,
>)
    ensures
        res is Ok <==> registry.entries().contains_key(transfer_id@),
        res matches Ok(path) ==> path == registry.entries()[transfer_id@],
        res matches Err(event) ==> event matches Event::FileTransferError { transfer_id: id, error }
            && id == *transfer_id && error@ == missing_path_text(transfer_id@),
{
    match registry.path_of(transfer_id.as_str()) {
        Some(path) => Ok(path),
        None => {
            let mut error = String::from_str("File path for transfer ID ");
            error.append(transfer_id.as_str());
            error.append(" not found in registry.");
            Err(Event::FileTransferError { transfer_id: transfer_id.clone(), error })
        },
    }
}

/// Closes the sending side of a transfer, however it ended: the registration
/// is removed, and a failure is reported with its cause.
pub fn conclude_transfer(
    registry: &mut TransferRegistry,
    transfer_id: String,
    outcome: &ServerOutcome,
) -> (report: Option<Event>)
    ensures
        final(registry).entries() == old(registry).entries().remove(transfer_id@),
        report is Some <==> !(outcome is Sent),
        report matches Some(event) ==> event matches Event::FileTransferError {
            transfer_id: id,
            error,
        } && id == transfer_id && outcome.failure_text() == Some(error@),
{
    registry.remove(transfer_id.as_str());
    match outcome.failure() {
        Some(error) => Some(Event::FileTransferError { transfer_id, error }),
        None => None,
    }
}

/// The eight bytes that announce a size, most significant first.
pub open spec fn size_header_bytes(size: u64) -> Seq<u8> {
    seq![
        ((size >> 56) & 0xff) as u8,
        ((size >> 48) & 0xff) as u8,
        ((size >> 40) & 0xff) as u8,
        ((size >> 32) & 0xff) as u8,
        ((size >> 24) & 0xff) as u8,
        ((size >> 16) & 0xff) as u8,
        ((size >> 8) & 0xff) as u8,
        (size & 0xff) as u8,
    ]
}

/// The size that eight bytes announce, most significant first.
pub open spec fn size_of_header(header: Seq<u8>) -> u64 {
    ((header[0] as u64) << 56) | ((header[1] as u64) << 48) | ((header[2] as u64) << 40) | ((
    header[3] as u64) << 32) | ((header[4] as u64) << 24) | ((header[5] as u64) << 16) | ((
    header[6] as u64) << 8) | (header[7] as u64)
}

proof fn lemma_low_byte(x: u64)
    by (bit_vector)
    ensures
        x & 0xff <= 0xff,
{
}

proof fn lemma_bytes_rejoin(x: u64)
    by (bit_vector)
    ensures
        ((((x >> 56) & 0xff) << 56) | (((x >> 48) & 0xff) << 48) | (((x >> 40) & 0xff) << 40) | (((x
            >> 32) & 0xff) << 32) | (((x >> 24) & 0xff) << 24) | (((x >> 16) & 0xff) << 16) | (((x
            >> 8) & 0xff) << 8) | (x & 0xff)) == x,
{
}

/// The size read from a header is the size the header was written for.
pub proof fn lemma_size_header_roundtrip(size: u64)
    ensures
        size_header_bytes(size).len() == 8,
        size_of_header(size_header_bytes(size)) == size,
{
    lemma_low_byte(size >> 56);
    lemma_low_byte(size >> 48);
    lemma_low_byte(size >> 40);
    lemma_low_byte(size >> 32);
    lemma_low_byte(size >> 24);
    lemma_low_byte(size >> 16);
    lemma_low_byte(size >> 8);
    lemma_low_byte(size);
    lemma_bytes_rejoin(size);
    let h = size_header_bytes(size);
    assert(h[0] as u64 == (size >> 56) & 0xff);
    assert(h[1] as u64 == (size >> 48) & 0xff);
    assert(h[2] as u64 == (size >> 40) & 0xff);
    assert(h[3] as u64 == (size >> 32) & 0xff);
    assert(h[4] as u64 == (size >> 24) & 0xff);
    assert(h[5] as u64 == (size >> 16) & 0xff);
    assert(h[6] as u64 == (size >> 8) & 0xff);
    assert(h[7] as u64 == size & 0xff);
}

fn low_byte(x: u64) -> (b: u8)
    ensures
        b == (x & 0xff) as u8,
        b as u64 == x & 0xff,
{
    proof {
        lemma_low_byte(x);
    }
    (x & 0xff) as u8
}

/// Writes the header that announces a file of `size` bytes.
pub fn size_header(size: u64) -> (header: Vec<u8>)
    ensures
        header@ == size_header_bytes(size),
{
    let mut header: Vec<u8> = Vec::new();
    header.push(low_byte(size >> 56));
    header.push(low_byte(size >> 48));
    header.push(low_byte(size >> 40));
    header.push(low_byte(size >> 32));
    header.push(low_byte(size >> 24));
    header.push(low_byte(size >> 16));
    header.push(low_byte(size >> 8));
    header.push(low_byte(size));
    assert(header@ =~= size_header_bytes(size));
    header
}

/// Reads the size a header announces. Anything but eight bytes is no header.
pub fn read_size_header(header: &[u8]) -> (size: Option<u64>)
    ensures
        size is Some <==> header@.len() == 8,
        size matches Some(n) ==> n == size_of_header(header@),
{
    if header.len() != 8 {
        return None;
    }
    let b0 = header[0] as u64;
    let b1 = header[1] as u64;
    let b2 = header[2] as u64;
    let b3 = header[3] as u64;
    let b4 = header[4] as u64;
    let b5 = header[5] as u64;
    let b6 = header[6] as u64;
    let b7 = header[7] as u64;
    Some((b0 << 56) | (b1 << 48) | (b2 << 40) | (b3 << 32) | (b4 << 24) | (b5 << 16) | (b6 << 8) | b7)
}

/// Where the piece of content that starts at `offset` ends: after
/// `TRANSFER_CHUNK_SIZE` bytes, or where the content ends.
pub open spec fn chunk_end(offset: nat, len: nat) -> nat {
    if len - offset > TRANSFER_CHUNK_SIZE {
        offset + TRANSFER_CHUNK_SIZE as nat
    } else {
        len
    }
}

/// Where the next piece of content to write ends.
pub fn next_chunk_end(offset: usize, len: usize) -> (end: usize)
    requires
        offset <= len,
    ensures
        end == chunk_end(offset as nat, len as nat),
        offset <= end <= len,
        offset < len ==> offset < end,
{
    if len - offset > TRANSFER_CHUNK_SIZE {
        offset + TRANSFER_CHUNK_SIZE
    } else {
        len
    }
}

/// The whole percentage of `size` that `total` is, rounded down; a hundred
/// for a total of `size` or more.
pub open spec fn percent_done(total: u64, size: u64) -> u8
    recommends
        size > 0,
{
    let percent = (total as int * 100) / (size as int);
    if percent > 100 {
        100u8
    } else {
        percent as u8
    }
}

/// More bytes never lower the percentage.
pub proof fn lemma_percent_monotone(earlier: u64, later: u64, size: u64)
    requires
        size > 0,
        earlier <= later,
    ensures
        percent_done(earlier, size) <= percent_done(later, size),
{
    assert((earlier as int * 100) / (size as int) <= (later as int * 100) / (size as int))
        by (nonlinear_arith)
        requires
            size > 0,
            0 <= earlier <= later,
    ;
    assert(0 <= (earlier as int * 100) / (size as int)) by (nonlinear_arith)
        requires
            size > 0,
            0 <= earlier,
    ;
}

/// Nothing received is zero percent, and the whole size is a hundred.
pub proof fn lemma_percent_ends(size: u64)
    requires
        size > 0,
    ensures
        percent_done(0, size) == 0,
        percent_done(size, size) == 100,
        forall|total: u64| total < size ==> percent_done(total, size) < 100,
{
    assert((size as int * 100) / (size as int) == 100) by (nonlinear_arith)
        requires
            size > 0,
    ;
    assert((0int * 100) / (size as int) == 0) by (nonlinear_arith)
        requires
            size > 0,
    ;
    assert forall|total: u64| total < size implies percent_done(total, size) < 100 by {
        assert((total as int * 100) / (size as int) < 100) by (nonlinear_arith)
            requires
                size > 0,
                0 <= total < size,
        ;
    }
}

/// Computes the whole percentage of `size` that `total` is, rounded down; a
/// hundred for a total of `size` or more.
pub fn progress_percent(total: u64, size: u64) -> (percent: u8)
    requires
        size > 0,
    ensures
        percent == percent_done(total, size),
        percent <= 100,
{
    let scaled: u128 = (total as u128) * 100;
    let percent: u128 = scaled / (size as u128);
    if percent > 100 {
        100
    } else {
        percent as u8
    }
}

/// How the receiving side of a transfer failed.
#[derive(Debug, Clone, PartialEq, Eq)]
#[allow(inconsistent_fields)]
pub enum DownloadFailure {
    /// The connection to the sender was refused or broke.
    ConnectFailed(String),
    /// No connection within `CONNECT_TIMEOUT_SECS`.
    ConnectTimedOut,
    /// The size header could not be read.
    HeaderFailed(String),
    /// The destination file could not be created.
    CreateFailed(String),
    /// Writing to the destination file failed.
    WriteFailed(String),
    /// Reading from the sender failed.
    ReadFailed(String),
    /// The stream ended before the announced size had arrived.
    StreamEndedEarly { received: u64, expected: u64 },
}

impl DownloadFailure {
    /// The cause reported for the failure.
    pub open spec fn text(&self) -> Seq<char> {
        match self {
            DownloadFailure::ConnectFailed(e) => "Failed to connect to file server: "@ + e@,
            DownloadFailure::ConnectTimedOut => "Connection attempt timed out"@,
            DownloadFailure::HeaderFailed(e) => "Failed to read file size: "@ + e@,
            DownloadFailure::CreateFailed(e) => "Failed to create output file: "@ + e@,
            DownloadFailure::WriteFailed(e) => "Failed to write to file: "@ + e@,
            DownloadFailure::ReadFailed(e) => "Failed to read from stream: "@ + e@,
            DownloadFailure::StreamEndedEarly { received, expected } => "Stream ended after "@
                + decimal(*received as nat) + " of "@ + decimal(*expected as nat) + " bytes"@,
        }
    }

    /// The last step of the transfer: the state it was in and what happened
    /// to it there. Connecting belongs to the wait for the connection; the
    /// header, the file and the stream to the transfer of the content.
    pub open spec fn last_step(&self) -> (TransferState, TransferSignal) {
        match self {
            DownloadFailure::ConnectFailed(_) => (
                TransferState::AwaitingConnection,
                TransferSignal::Failure,
            ),
            DownloadFailure::ConnectTimedOut => (
                TransferState::AwaitingConnection,
                TransferSignal::Timeout,
            ),
            _ => (TransferState::Transferring, TransferSignal::Failure),
        }
    }

    /// The state the failure leaves the transfer in.
    pub open spec fn end_state(&self) -> TransferState {
        if self is ConnectTimedOut {
            TransferState::TimedOut
        } else {
            TransferState::Failed
        }
    }

    /// The state the failure leaves the transfer in, reached by its last
    /// step: timed out if the connection was not established in time, failed
    /// otherwise.
    pub fn final_state(&self) -> (state: TransferState)
        ensures
            state == self.end_state(),
            transition(self.last_step().0, self.last_step().1) == Some(state),
            is_concluded(state),
    {
        let (from, signal) = match self {
            DownloadFailure::ConnectFailed(_) => (
                TransferState::AwaitingConnection,
                TransferSignal::Failure,
            ),
            DownloadFailure::ConnectTimedOut => (
                TransferState::AwaitingConnection,
                TransferSignal::Timeout,
            ),
            _ => (TransferState::Transferring, TransferSignal::Failure),
        };
        match from.advance(signal) {
            Some(state) => state,
            None => TransferState::Failed,
        }
    }

    /// The cause reported for the failure.
    pub fn message(&self) -> (text: String)
        ensures
            text@ == self.text(),
    {
        match self {
            DownloadFailure::ConnectFailed(e) => String::from_str(
                "Failed to connect to file server: ",
            ).concat(e.as_str()),
            DownloadFailure::ConnectTimedOut => String::from_str("Connection attempt timed out"),
            DownloadFailure::HeaderFailed(e) => String::from_str("Failed to read file size: ").concat(
                e.as_str(),
            ),
            DownloadFailure::CreateFailed(e) => String::from_str(
                "Failed to create output file: ",
            ).concat(e.as_str()),
            DownloadFailure::WriteFailed(e) => String::from_str("Failed to write to file: ").concat(
                e.as_str(),
            ),
            DownloadFailure::ReadFailed(e) => String::from_str("Failed to read from stream: ").concat(
                e.as_str(),
            ),
            DownloadFailure::StreamEndedEarly { received, expected } => {
                let mut text = String::from_str("Stream ended after ");
                text.append(render_decimal(*received).as_str());
                text.append(" of ");
                text.append(render_decimal(*expected).as_str());
                text.append(" bytes");
                text
            },
        }
    }
}

/// However a transfer ends on either side, its end state is one in which it
/// is over, and it is reached by one step of the machine from the wait for
/// the connection or from the transfer of the content.
pub proof fn lemma_ends_are_reached(outcome: ServerOutcome, failure: DownloadFailure)
    ensures
        transition(outcome.last_step().0, outcome.last_step().1) == Some(outcome.end_state()),
        outcome.last_step().0 == TransferState::AwaitingConnection || outcome.last_step().0
            == TransferState::Transferring,
        is_concluded(outcome.end_state()),
        outcome.end_state() == TransferState::Completed <==> outcome is Sent,
        transition(failure.last_step().0, failure.last_step().1) == Some(failure.end_state()),
        failure.last_step().0 == TransferState::AwaitingConnection || failure.last_step().0
            == TransferState::Transferring,
        failure.end_state() == TransferState::Failed || failure.end_state()
            == TransferState::TimedOut,
{
}

/// Reports a failed download.
pub fn download_failed(transfer_id: String, failure: &DownloadFailure) -> (event: Event)
    ensures
        event matches Event::FileTransferError { transfer_id: id, error } && id == transfer_id
            && error@ == failure.text(),
{
    Event::FileTransferError { transfer_id, error: failure.message() }
}

/// A download in progress: what was announced, what has arrived of it, and
/// the percentage last reported.
pub struct Download {
    transfer_id: String,
    save_path: String,
    file_size: u64,
    total_bytes: u64,
    last_progress: u8,
}

/// What one read from the sender leads to.
#[derive(Debug, Clone, PartialEq, Eq)]
pub struct DownloadStep {
    /// How many of the bytes read belong to the file, from the first on.
    /// These are to be written; any beyond them are not part of the file.
    pub accepted: usize,
    /// The progress to report, if the percentage changed.
    pub progress: Option<Event>,
    /// True when no more is to be read.
    pub finished: bool,
    /// The failure to report, if the stream ended early.
    pub failure: Option<DownloadFailure>,
}

/// How many of `n` bytes read belong to a file of `size` bytes of which
/// `received` have arrived: all of them, or as many as are still missing.
pub open spec fn accepted_of(received: u64, size: u64, n: usize) -> usize {
    if size - received < n {
        (size - received) as usize
    } else {
        n
    }
}

impl Download {
    /// The transfer this download belongs to.
    pub closed spec fn id(&self) -> String {
        self.transfer_id
    }

    /// Where the content is saved.
    pub closed spec fn path(&self) -> String {
        self.save_path
    }

    /// The size the sender announced.
    pub closed spec fn size(&self) -> u64 {
        self.file_size
    }

    /// The number of bytes of the file received so far.
    pub closed spec fn received(&self) -> u64 {
        self.total_bytes
    }

    /// The percentage last reported; zero before any report.
    pub closed spec fn reported(&self) -> u8 {
        self.last_progress
    }

    /// No more has been received than was announced, and the percentage last
    /// reported is the percentage received; of an empty file none is
    /// reported.
    pub closed spec fn wf(&self) -> bool {
        &&& self.total_bytes <= self.file_size
        &&& self.file_size > 0 ==> self.last_progress == percent_done(
            self.total_bytes,
            self.file_size,
        )
        &&& self.file_size == 0 ==> self.last_progress == 0
    }

    /// What is true of every download in order.
    pub proof fn lemma_wf(&self)
        requires
            self.wf(),
        ensures
            self.received() <= self.size(),
            self.reported() <= 100,
            self.size() > 0 ==> self.reported() == percent_done(self.received(), self.size()),
            self.size() > 0 ==> (self.reported() == 100 <==> self.received() == self.size()),
    {
        if self.file_size > 0 {
            lemma_percent_ends(self.file_size);
        }
    }

    /// Starts a download from the header the sender wrote. Anything but eight
    /// bytes is no header, and no download starts.
    pub fn begin(transfer_id: String, save_path: String, header: &[u8]) -> (download: Option<
        Download,
    >)
        ensures
            download is Some <==> header@.len() == 8,
            download matches Some(d) ==> d.wf() && d.id() == transfer_id && d.path() == save_path
                && d.size() == size_of_header(header@) && d.received() == 0 && d.reported() == 0,
    {
        match read_size_header(header) {
            Some(file_size) => {
                proof {
                    if file_size > 0 {
                        lemma_percent_ends(file_size);
                    }
                }
                Some(Download { transfer_id, save_path, file_size, total_bytes: 0, last_progress: 0 })
            },
            None => None,
        }
    }

    /// The size the sender announced.
    pub fn file_size(&self) -> (size: u64)
        ensures
            size == self.size(),
    {
        self.file_size
    }

    /// The number of bytes of the file received so far.
    pub fn total_bytes(&self) -> (total: u64)
        ensures
            total == self.received(),
    {
        self.total_bytes
    }

    /// Tells whether the announced size has been received.
    pub fn is_complete(&self) -> (done: bool)
        ensures
            done == (self.received() >= self.size()),
    {
        self.total_bytes >= self.file_size
    }

    /// Takes note of a read of `n` bytes from the sender.
    ///
    /// A read of nothing is the end of the stream: no more is to be read,
    /// and if the announced size has not arrived by then, the download has
    /// failed. Of a read of more, the bytes that belong to the file are
    /// counted, which are all of them or as many as were still missing; if
    /// the announced size is not zero and the whole percentage received
    /// differs from the one last reported, it is reported; and the download
    /// is finished once the announced size has been received. The percentage
    /// reported never falls and never passes a hundred, and no percentage is
    /// reported twice in a row.
    pub fn on_read(&mut self, n: usize) -> (step: DownloadStep)
        requires
            old(self).wf(),
        ensures
            final(self).wf(),
            final(self).received() <= final(self).size(),
            final(self).reported() >= old(self).reported(),
            final(self).reported() <= 100,
            step.progress is Some ==> final(self).reported() > old(self).reported(),
            final(self).id() == old(self).id(),
            final(self).path() == old(self).path(),
            final(self).size() == old(self).size(),
            step.accepted == accepted_of(old(self).received(), old(self).size(), n),
            final(self).received() == old(self).received() + step.accepted,
            step.finished == (n == 0 || final(self).received() == final(self).size()),
            step.failure is Some <==> n == 0 && old(self).received() < old(self).size(),
            step.failure matches Some(failure) ==> failure == (DownloadFailure::StreamEndedEarly {
                received: old(self).received(),
                expected: old(self).size(),
            }),
            n == 0 ==> step.progress is None && final(self).reported() == old(self).reported(),
            n > 0 ==> {
                let total = final(self).received();
                let size = old(self).size();
                let changed = size > 0 && percent_done(total, size) != old(self).reported();
                &&& final(self).reported() == if changed {
                    percent_done(total, size)
                } else {
                    old(self).reported()
                }
                &&& step.progress is Some <==> changed
                &&& step.progress matches Some(event) ==> event matches Event::FileTransferProgress {
                    transfer_id,
                    progress,
                } && transfer_id == old(self).id() && progress == percent_done(total, size)
            },
    {
        proof {
            self.lemma_wf();
        }
        if n == 0 {
            let failure = if self.total_bytes < self.file_size {
                Some(
                    DownloadFailure::StreamEndedEarly {
                        received: self.total_bytes,
                        expected: self.file_size,
                    },
                )
            } else {
                None
            };
            return DownloadStep { accepted: 0, progress: None, finished: true, failure };
        }
        let missing = self.file_size - self.total_bytes;
        let accepted: usize = if missing < n as u64 {
            missing as usize
        } else {
            n
        };
        let total = self.total_bytes + accepted as u64;
        proof {
            if self.file_size > 0 {
                lemma_percent_monotone(self.total_bytes, total, self.file_size);
                lemma_percent_monotone(total, self.file_size, self.file_size);
                lemma_percent_ends(self.file_size);
            }
        }
        self.total_bytes = total;
        let mut progress: Option<Event> = None;
        if self.file_size > 0 {
            let percent = progress_percent(total, self.file_size);
            if percent != self.last_progress {
                self.last_progress = percent;
                progress = Some(
                    Event::FileTransferProgress {
                        transfer_id: self.transfer_id.clone(),
                        progress: percent,
                    },
                );
            }
        }
        DownloadStep { accepted, progress, finished: total == self.file_size, failure: None }
    }

    /// Reports the download as complete. Only a download that has received
    /// the announced size is complete: one cut short is reported through the
    /// failure `on_read` gives for the end of the stream.
    pub fn complete(self) -> (event: Event)
        requires
            self.wf(),
            self.received() >= self.size(),
        ensures
            event matches Event::FileTransferComplete { transfer_id, file_path, size }
                && transfer_id == self.id() && file_path == self.path() && size == self.size(),
    {
        Event::FileTransferComplete {
            transfer_id: self.transfer_id,
            file_path: self.save_path,
            size: self.total_bytes,
        }
    }
}

} // verus!
