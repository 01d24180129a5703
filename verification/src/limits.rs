//! Protocol constants.

use vstd::prelude::*;

verus! {

/// UDP port of the presence and query traffic.
pub const DISCOVERY_PORT: u16 = 2425;

/// UDP port of chat and handshake traffic in a development build.
pub const MSG_PORT_DEVELOPMENT: u16 = 2426;

/// UDP port of chat and handshake traffic in a release build.
pub const MSG_PORT_RELEASE: u16 = 2427;

/// Length in bytes of a datagram receive buffer.
pub const BUFFER_SIZE: usize = 8192;

/// Size in bytes asked of the kernel for a socket's receive and send
/// buffers.
pub const SOCKET_BUFFER_SIZE: usize = 32768;

/// Pause in milliseconds before a listener tries again after a failed
/// receive.
pub const RECEIVE_RETRY_DELAY_MS: u64 = 100;

/// Largest number of bytes of text carried by one chunk.
pub const CHUNK_SIZE: usize = 2000;

/// Age in seconds at which a pending chunk is discarded.
pub const CHUNK_TIMEOUT_SECS: u64 = 30;

/// Nanoseconds in a second.
pub const NANOS_PER_SEC: u64 = 1_000_000_000;

/// Age in nanoseconds at which a pending chunk is discarded: the same age as
/// `CHUNK_TIMEOUT_SECS`, in the unit of the clock readings.
pub const CHUNK_TIMEOUT_NANOS: u64 = CHUNK_TIMEOUT_SECS * NANOS_PER_SEC;

/// Seconds between two sweeps of the pending chunks.
pub const CLEANUP_INTERVAL_SECS: u64 = 60;

/// Pause in milliseconds that follows each chunk sent.
pub const CHUNK_SEND_DELAY_MS: u64 = 10;

/// Largest encoded message that is sent as one datagram.
pub const MAX_SINGLE_PACKET_SIZE: usize = 6000;

/// Number of buffers the receive pool keeps for reuse.
pub const BUFFER_POOL_SIZE: usize = 50;

/// Number of chunk datagrams that may be in flight at once.
pub const MAX_CONCURRENT_SENDS: usize = 10;

/// Largest number of characters in a peer's display name.
pub const MAX_NAME_CHARS: usize = 100;

/// Largest number of bytes in the text of an undivided message.
pub const MAX_MESSAGE_BYTES: usize = 100_000;

/// Largest number of bytes of text accepted for sending.
pub const MAX_OUTGOING_BYTES: usize = 1_000_000;

/// Largest number of chunks a divided message may declare.
pub const MAX_TOTAL_CHUNKS: u16 = 1000;

/// Seconds the sending side waits for the receiver to connect.
pub const ACCEPT_TIMEOUT_SECS: u64 = 60;

/// Seconds the receiving side waits for its connection to be established.
pub const CONNECT_TIMEOUT_SECS: u64 = 15;

/// Number of file bytes written to the stream at a time.
pub const TRANSFER_CHUNK_SIZE: usize = 16384;

/// Length in bytes of the size header that precedes the file content.
pub const SIZE_HEADER_LEN: usize = 8;

} // verus!
