//! What to send, and how: one datagram or a run of chunks, to one peer or to
//! everyone.
//!
//! Encoding a message and handing it to a socket is the caller's work. The
//! functions here prepare the messages, choose between single-packet and
//! chunked delivery from the size of the encoding, and name the sockets and
//! addresses a broadcast goes to.

use vstd::prelude::*;
use vstd::string::StringExecFns;
use crate::decimal::{decimal, render_decimal};
use crate::error::MessageError;
use crate::identifiers::{address_text, broadcast_address, chunk_id, chunk_id_text, socket_address};
use crate::limits::{
    CHUNK_SIZE, DISCOVERY_PORT, MAX_OUTGOING_BYTES, MAX_SINGLE_PACKET_SIZE, MSG_PORT_DEVELOPMENT,
    MSG_PORT_RELEASE,
};
use crate::message::{byte_len, text_bytes, DiscoveryMessage};
use crate::peer::{is_self_description, local_peer, name_rejection, User};
use crate::splitter::{lemma_split_count, split_message, split_text, texts};

verus! {

/// The two ports of a node. Where they are the same, one socket serves both
/// kinds of traffic.
#[derive(Debug, Clone, Copy, PartialEq, Eq)]
pub struct PortConfig {
    pub discovery_port: u16,
    pub message_port: u16,
}

impl PortConfig {
    /// The ports of a release build.
    pub fn release() -> (ports: PortConfig)
        ensures
            ports.discovery_port == DISCOVERY_PORT,
            ports.message_port == MSG_PORT_RELEASE,
    {
        PortConfig { discovery_port: DISCOVERY_PORT, message_port: MSG_PORT_RELEASE }
    }

    /// The ports of a development build.
    pub fn development() -> (ports: PortConfig)
        ensures
            ports.discovery_port == DISCOVERY_PORT,
            ports.message_port == MSG_PORT_DEVELOPMENT,
    {
        PortConfig { discovery_port: DISCOVERY_PORT, message_port: MSG_PORT_DEVELOPMENT }
    }

    /// True where one socket serves discovery and messages alike.
    pub fn is_unified(&self) -> (unified: bool)
        ensures
            unified == (self.discovery_port == self.message_port),
    {
        self.discovery_port == self.message_port
    }
}

/// One of the sockets of a node.
#[derive(Debug, Clone, Copy, PartialEq, Eq, Structural)]
pub enum SocketRole {
    Discovery,
    Message,
}

/// One transmission of a broadcast: the socket it leaves through and the
/// address it goes to.
#[derive(Debug, Clone, PartialEq, Eq)]
pub struct BroadcastTarget {
    pub socket: SocketRole,
    pub address: String,
}

/// Where a broadcast goes: to the discovery port, through the discovery
/// socket if there is one and the message socket otherwise; and, where the
/// two ports differ, to the message port as well, through the message socket.
pub open spec fn is_broadcast_route(
    targets: Seq<BroadcastTarget>,
    ports: PortConfig,
    has_discovery_socket: bool,
) -> bool {
    &&& targets.len() == if ports.discovery_port == ports.message_port {
        1nat
    } else {
        2nat
    }
    &&& targets[0].socket == if has_discovery_socket {
        SocketRole::Discovery
    } else {
        SocketRole::Message
    }
    &&& targets[0].address@ == address_text("255.255.255.255"@, ports.discovery_port)
    &&& targets.len() == 2 ==> targets[1].socket == SocketRole::Message && targets[1].address@
        == address_text("255.255.255.255"@, ports.message_port)
}

/// Names the transmissions of a broadcast.
pub fn broadcast_targets(ports: &PortConfig, has_discovery_socket: bool) -> (targets: Vec<
    BroadcastTarget,
>)
    ensures
        is_broadcast_route(targets@, *ports, has_discovery_socket),
{
    let mut targets: Vec<BroadcastTarget> = Vec::new();
    let first = if has_discovery_socket {
        SocketRole::Discovery
    } else {
        SocketRole::Message
    };
    targets.push(BroadcastTarget { socket: first, address: broadcast_address(ports.discovery_port) });
    if ports.discovery_port != ports.message_port {
        targets.push(
            BroadcastTarget {
                socket: SocketRole::Message,
                address: broadcast_address(ports.message_port),
            },
        );
    }
    targets
}

/// Prepares a broadcast: a message that breaks the rules of its kind is
/// refused; any other goes out by the route of `broadcast_targets`.
pub fn broadcast_message(
    message: &DiscoveryMessage,
    ports: &PortConfig,
    has_discovery_socket: bool,
) -> (res: Result<Vec<BroadcastTarget>, MessageError>)
    ensures
        res is Ok <==> message.rejection() is None,
        res matches Ok(targets) ==> is_broadcast_route(targets@, *ports, has_discovery_socket),
        res matches Err(e) ==> e is InvalidData && message.rejection() == Some(e.cause()),
{
    match message.validate() {
        Ok(()) => Ok(broadcast_targets(ports, has_discovery_socket)),
        Err(e) => Err(e),
    }
}

/// Announces the local node as online. An empty name is refused before
/// anything else is looked at, a name longer than the limit by the rules of
/// a peer.
pub fn broadcast_user_presence(
    user_id: u64,
    name: String,
    username: String,
    profile_picture: Option<String>,
    message_port: u16,
) -> (res: Result<DiscoveryMessage, String>)
    ensures
        res is Ok <==> name_rejection(name@) is None,
        res matches Ok(message) ==> (message matches DiscoveryMessage::Online(user)
            && is_self_description(
            user,
            user_id,
            name,
            username,
            profile_picture,
            message_port,
            user.hostname,
        )),
        res matches Err(e) ==> e@ == if name@.len() == 0 {
            "Name cannot be empty"@
        } else {
            "Invalid data: "@ + name_rejection(name@)->Some_0
        },
{
    if name.as_str().is_empty() {
        return Err(String::from_str("Name cannot be empty"));
    }
    let user = local_peer(user_id, name, username, profile_picture, message_port);
    match user.validate() {
        Ok(()) => Ok(DiscoveryMessage::Online(user)),
        Err(e) => Err(e.message()),
    }
}

/// Announces that the node with this id is leaving.
pub fn broadcast_offline(user_id: u64, message_port: u16) -> (message: DiscoveryMessage)
    ensures
        message matches DiscoveryMessage::Offline(user) && user.id == user_id && user.name@
            == "Roundtable User"@ && user.username@.len() == 0 && user.ip@ == "0.0.0.0"@
            && user.port == message_port && user.profile_picture is None && user.hostname is None,
        message.rejection() is None,
{
    proof {
        reveal_strlit("Roundtable User");
    }
    DiscoveryMessage::Offline(
        User {
            id: user_id,
            name: String::from_str("Roundtable User"),
            username: String::new(),
            ip: String::from_str("0.0.0.0"),
            port: message_port,
            profile_picture: None,
            hostname: None,
        },
    )
}

/// The discovery ping.
pub fn broadcast_discovery_query() -> (message: DiscoveryMessage)
    ensures
        message is Query,
{
    DiscoveryMessage::Query
}

/// A chat message as one packet, and the address it goes to.
#[derive(Debug, Clone, PartialEq, Eq)]
pub struct SingleAttempt {
    pub packet: DiscoveryMessage,
    pub target_addr: String,
}

/// The cause for which a text is not accepted for sending, if it is not.
pub open spec fn outgoing_rejection(message: Seq<char>) -> Option<Seq<char>> {
    if message.len() == 0 {
        Some("Message cannot be empty"@)
    } else if byte_len(message) > MAX_OUTGOING_BYTES {
        Some("Message too large"@)
    } else {
        None
    }
}

/// Starts the sending of a chat message: refuses an empty text and one of
/// more than `MAX_OUTGOING_BYTES` bytes, and prepares any other as a single
/// packet for the target. Whether that packet is sent as it is depends on the
/// size of its encoding: see `choose_delivery`.
pub fn send_message(
    message: &String,
    target_ip: &str,
    sender_name: &String,
    sender_id: u64,
    target_id: u64,
    target_port: u16,
    sender_port: u16,
    timestamp: u64,
) -> (res: Result<SingleAttempt, String>)
    ensures
        res is Ok <==> outgoing_rejection(message@) is None,
        res matches Err(e) ==> outgoing_rejection(message@) == Some(e@),
        res matches Ok(attempt) ==> attempt.target_addr@ == address_text(target_ip@, target_port)
            && attempt.packet == (DiscoveryMessage::Message {
            content: *message,
            sender: *sender_name,
            sender_id,
            target_id,
            sender_port,
            timestamp,
        }),
{
    if message.as_str().is_empty() {
        return Err(String::from_str("Message cannot be empty"));
    }
    if text_bytes(message.as_str()) > MAX_OUTGOING_BYTES {
        return Err(String::from_str("Message too large"));
    }
    Ok(
        SingleAttempt {
            packet: DiscoveryMessage::Message {
                content: message.clone(),
                sender: sender_name.clone(),
                sender_id,
                target_id,
                sender_port,
                timestamp,
            },
            target_addr: socket_address(target_ip, target_port),
        },
    )
}

/// How a chat message travels.
#[derive(Debug, Clone, Copy, PartialEq, Eq, Structural)]
pub enum Delivery {
    /// As the one packet prepared for it.
    SinglePacket,
    /// Divided into chunks.
    Chunked,
}

/// Chooses how a chat message travels, from the size of its encoding as a
/// single packet, if it could be encoded: as that one packet if the encoding
/// is at most `MAX_SINGLE_PACKET_SIZE` bytes, in chunks otherwise.
pub fn choose_delivery(encoded_len: Option<usize>) -> (delivery: Delivery)
    ensures
        delivery == Delivery::SinglePacket <==> (encoded_len matches Some(n) && n
            <= MAX_SINGLE_PACKET_SIZE),
        delivery == Delivery::Chunked <==> !(encoded_len matches Some(n) && n
            <= MAX_SINGLE_PACKET_SIZE),
{
    match encoded_len {
        Some(n) => {
            if n <= MAX_SINGLE_PACKET_SIZE {
                Delivery::SinglePacket
            } else {
                Delivery::Chunked
            }
        },
        None => Delivery::Chunked,
    }
}

/// The report of a single packet sent.
pub open spec fn single_report_text(bytes_sent: usize) -> Seq<char> {
    "Message sent successfully, "@ + decimal(bytes_sent as nat) + " bytes"@
}

/// The report of a run of chunks sent.
pub open spec fn chunked_report_text(total_chunks: usize) -> Seq<char> {
    "Chunked message sent successfully ("@ + decimal(total_chunks as nat) + " chunks)"@
}

/// What follows the attempt to send the single packet: the report of
/// success with the number of bytes sent, or nothing if the send failed and
/// the message must go out in chunks after all.
pub fn single_send_outcome(bytes_sent: Option<usize>) -> (report: Option<String>)
    ensures
        report is Some <==> bytes_sent is Some,
        report matches Some(text) ==> text@ == single_report_text(bytes_sent->Some_0),
{
    match bytes_sent {
        Some(n) => {
            let mut text = String::from_str("Message sent successfully, ");
            text.append(render_decimal(n as u64).as_str());
            text.append(" bytes");
            Some(text)
        },
        None => None,
    }
}

/// Reports a run of chunks as sent.
pub fn chunked_report(total_chunks: usize) -> (text: String)
    ensures
        text@ == chunked_report_text(total_chunks),
{
    let mut text = String::from_str("Chunked message sent successfully (");
    text.append(render_decimal(total_chunks as u64).as_str());
    text.append(" chunks)");
    text
}

/// True of the chunk with the given place in a divided message.
pub open spec fn is_chunk_packet(
    packet: DiscoveryMessage,
    id: Seq<char>,
    index: int,
    total: int,
    text: Seq<char>,
    sender_name: Seq<char>,
    sender_id: u64,
    target_id: u64,
    sender_port: u16,
    timestamp: u64,
) -> bool {
    packet matches DiscoveryMessage::ChunkedMessage {
        chunk_id,
        chunk_index,
        total_chunks,
        content,
        sender,
        sender_id: from,
        target_id: to,
        sender_port: port,
        timestamp: at,
    } && chunk_id@ == id && chunk_index == index && total_chunks == total && content@ == text
        && sender@ == sender_name && from == sender_id && to == target_id && port == sender_port
        && at == timestamp
}

/// True of the chunks of a divided message: one for each piece of the text,
/// in order, numbered from zero, each declaring the number of pieces, all
/// under one chunk id.
pub open spec fn are_chunk_packets(
    packets: Seq<DiscoveryMessage>,
    message: Seq<char>,
    id: Seq<char>,
    sender_name: Seq<char>,
    sender_id: u64,
    target_id: u64,
    sender_port: u16,
    timestamp: u64,
) -> bool {
    &&& packets.len() == split_text(message).len()
    &&& forall|i: int|
        0 <= i < packets.len() ==> is_chunk_packet(
            #[trigger] packets[i],
            id,
            i,
            packets.len() as int,
            split_text(message)[i],
            sender_name,
            sender_id,
            target_id,
            sender_port,
            timestamp,
        )
}

/// Divides a chat message into chunk packets under the chunk id derived from
/// `random_id`. A text of more than `MAX_OUTGOING_BYTES` bytes is refused.
pub fn send_chunked_message_with_id(
    message: &str,
    sender_name: &str,
    sender_id: u64,
    target_id: u64,
    sender_port: u16,
    random_id: u32,
    timestamp: u64,
) -> (res: Result<Vec<DiscoveryMessage>, MessageError>)
    ensures
        res is Ok <==> byte_len(message@) <= MAX_OUTGOING_BYTES,
        res matches Err(e) ==> e is InvalidData && e.cause() == "Message too large"@,
        res matches Ok(packets) ==> are_chunk_packets(
            packets@,
            message@,
            chunk_id_text(sender_id, target_id, random_id),
            sender_name@,
            sender_id,
            target_id,
            sender_port,
            timestamp,
        ),
{
    if text_bytes(message) > MAX_OUTGOING_BYTES {
        return Err(MessageError::invalid("Message too large"));
    }
    let id = chunk_id(sender_id, target_id, random_id);
    let mut chunks = split_message(message);
    let count = chunks.len();
    proof {
        lemma_split_count(message@);
        assert(count <= 501) by {
            if count > 501 {
                assert((count - 1) * (CHUNK_SIZE - 3) >= 501 * 1997) by (nonlinear_arith)
                    requires
                        count > 501,
                        CHUNK_SIZE == 2000,
                ;
            }
        }
    }
    let total = count as u16;
    let ghost pieces = texts(chunks@);
    let mut packets: Vec<DiscoveryMessage> = Vec::new();
    let mut reversed: Vec<String> = Vec::new();
    while chunks.len() > 0
        invariant
            chunks.len() + reversed.len() == count,
            forall|i: int| 0 <= i < chunks.len() ==> (#[trigger] chunks[i])@ == pieces[i],
            forall|j: int|
                0 <= j < reversed.len() ==> (#[trigger] reversed[j])@ == pieces[count - 1 - j],
            pieces.len() == count,
        decreases chunks.len(),
    {
        let piece = chunks.pop().unwrap();
        reversed.push(piece);
    }
    while reversed.len() > 0
        invariant
            packets.len() + reversed.len() == count,
            count <= 501,
            total == count,
            pieces.len() == count,
            forall|j: int|
                0 <= j < reversed.len() ==> (#[trigger] reversed[j])@ == pieces[count - 1 - j],
            forall|i: int|
                0 <= i < packets.len() ==> is_chunk_packet(
                    #[trigger] packets[i],
                    id@,
                    i,
                    count as int,
                    pieces[i],
                    sender_name@,
                    sender_id,
                    target_id,
                    sender_port,
                    timestamp,
                ),
        decreases reversed.len(),
    {
        let index = packets.len() as u16;
        let content = reversed.pop().unwrap();
        packets.push(
            DiscoveryMessage::ChunkedMessage {
                chunk_id: id.clone(),
                chunk_index: index,
                total_chunks: total,
                content,
                sender: String::from_str(sender_name),
                sender_id,
                target_id,
                sender_port,
                timestamp,
            },
        );
    }
    Ok(packets)
}

/// Draws a number from `rand::random`. Nothing is claimed of the number
/// drawn.
#[verifier::external_body]
fn random_id() -> (id: u32) {
    rand::random::<u32>()
}

/// Divides a chat message into chunk packets under a chunk id drawn at
/// random.
pub fn send_chunked_message(
    message: &str,
    sender_name: &str,
    sender_id: u64,
    target_id: u64,
    sender_port: u16,
    timestamp: u64,
) -> (res: Result<Vec<DiscoveryMessage>, MessageError>)
    ensures
        res is Ok <==> byte_len(message@) <= MAX_OUTGOING_BYTES,
        res matches Err(e) ==> e is InvalidData && e.cause() == "Message too large"@,
        res matches Ok(packets) ==> exists|drawn: u32|
            are_chunk_packets(
                packets@,
                message@,
                #[trigger] chunk_id_text(sender_id, target_id, drawn),
                sender_name@,
                sender_id,
                target_id,
                sender_port,
                timestamp,
            ),
{
    let drawn = random_id();
    let res = send_chunked_message_with_id(
        message,
        sender_name,
        sender_id,
        target_id,
        sender_port,
        drawn,
        timestamp,
    );
    proof {
        if res is Ok {
            assert(are_chunk_packets(
                res->Ok_0@,
                message@,
                chunk_id_text(sender_id, target_id, drawn),
                sender_name@,
                sender_id,
                target_id,
                sender_port,
                timestamp,
            ));
        }
    }
    res
}

} // verus!
