//! The sockets of a node, with the state that every listener and sender
//! shares.

use std::sync::Arc;
use vstd::prelude::*;
use crate::buffer_pool::{blank_buffer, BufferPool};
use crate::chunk_store::{sweep, ChunkEntry, ChunkManager};
use crate::dispatch::{handle_message, is_handled, Handled};
use crate::limits::{BUFFER_POOL_SIZE, BUFFER_SIZE};
use crate::message::DiscoveryMessage;
use crate::outbound::SocketRole;
use crate::transfer::TransferRegistry;

verus! {

/// `tokio::net::UdpSocket`, carried through as an opaque value: nothing is
/// claimed of it.
#[verifier::external_type_specification]
#[verifier::external_body]
pub struct ExUdpSocket(tokio::net::UdpSocket);

/// The message socket, the discovery socket where discovery has a port of its
/// own, and the buffer pool and chunk store they share.
pub struct SocketManager {
    pub message_socket: Arc<tokio::net::UdpSocket>,
    pub discovery_socket: Option<Arc<tokio::net::UdpSocket>>,
    buffer_pool: BufferPool,
    chunk_manager: ChunkManager,
}

impl SocketManager {
    /// The pool and the store are in order.
    pub closed spec fn wf(&self) -> bool {
        self.buffer_pool.wf() && self.chunk_manager.wf()
    }

    /// The socket of chat and handshake traffic.
    pub closed spec fn message(&self) -> Arc<tokio::net::UdpSocket> {
        self.message_socket
    }

    /// The socket of discovery traffic, where discovery has a port of its own.
    pub closed spec fn discovery(&self) -> Option<Arc<tokio::net::UdpSocket>> {
        self.discovery_socket
    }

    /// Number of buffers at rest in the pool.
    pub closed spec fn buffers_available(&self) -> nat {
        self.buffer_pool.available()
    }

    /// Largest number of buffers the pool keeps.
    pub closed spec fn buffer_limit(&self) -> nat {
        self.buffer_pool.limit()
    }

    /// The pending chunks.
    pub closed spec fn chunks(&self) -> Map<Seq<char>, Map<u16, ChunkEntry>> {
        self.chunk_manager.chunks()
    }

    /// The identifiers of the messages already delivered.
    pub closed spec fn processed(&self) -> Set<Seq<char>> {
        self.chunk_manager.processed()
    }

    /// Takes the sockets into a manager with an empty pool and an empty store.
    pub fn new(
        message_socket: Arc<tokio::net::UdpSocket>,
        discovery_socket: Option<Arc<tokio::net::UdpSocket>>,
    ) -> (manager: SocketManager)
        ensures
            manager.wf(),
            manager.message() == message_socket,
            manager.discovery() == discovery_socket,
            manager.buffers_available() == 0,
            manager.buffer_limit() == BUFFER_POOL_SIZE,
            manager.chunks() == Map::<Seq<char>, Map<u16, ChunkEntry>>::empty(),
            manager.processed() == Set::<Seq<char>>::empty(),
    {
        SocketManager {
            message_socket,
            discovery_socket,
            buffer_pool: BufferPool::new(BUFFER_POOL_SIZE),
            chunk_manager: ChunkManager::new(),
        }
    }

    /// Tells whether discovery has a socket of its own.
    pub fn has_discovery_socket(&self) -> (has: bool)
        ensures
            has == self.discovery() is Some,
    {
        self.discovery_socket.is_some()
    }

    /// The socket a broadcast to the discovery port leaves through: the
    /// discovery socket if there is one, the message socket otherwise.
    pub fn broadcast_socket(&self) -> (socket: &Arc<tokio::net::UdpSocket>)
        ensures
            *socket == match self.discovery() {
                Some(discovery) => discovery,
                None => self.message(),
            },
    {
        match &self.discovery_socket {
            Some(discovery) => discovery,
            None => &self.message_socket,
        }
    }

    /// The socket that plays the given role; the message socket plays both
    /// where discovery has none of its own.
    pub fn socket_for(&self, role: SocketRole) -> (socket: &Arc<tokio::net::UdpSocket>)
        ensures
            *socket == match (role, self.discovery()) {
                (SocketRole::Discovery, Some(discovery)) => discovery,
                _ => self.message(),
            },
    {
        match role {
            SocketRole::Discovery => self.broadcast_socket(),
            SocketRole::Message => &self.message_socket,
        }
    }

    /// Hands out a blank receive buffer from the pool.
    pub fn get_buffer(&mut self) -> (buf: Vec<u8>)
        requires
            old(self).wf(),
        ensures
            final(self).wf(),
            buf@ == blank_buffer(),
            final(self).message() == old(self).message(),
            final(self).discovery() == old(self).discovery(),
            final(self).chunks() == old(self).chunks(),
            final(self).processed() == old(self).processed(),
            final(self).buffers_available() == if old(self).buffers_available() > 0 {
                old(self).buffers_available() - 1
            } else {
                0
            },
    {
        self.buffer_pool.get_buffer()
    }

    /// Takes a receive buffer back into the pool, which keeps at most
    /// `BUFFER_POOL_SIZE` of them. A buffer of `BUFFER_SIZE` bytes or more is
    /// kept whenever there is room.
    pub fn return_buffer(&mut self, buf: Vec<u8>)
        requires
            old(self).wf(),
        ensures
            final(self).wf(),
            final(self).message() == old(self).message(),
            final(self).discovery() == old(self).discovery(),
            final(self).chunks() == old(self).chunks(),
            final(self).processed() == old(self).processed(),
            final(self).buffers_available() == old(self).buffers_available() || final(self).buffers_available() == old(self).buffers_available() + 1,
            buf.len() >= BUFFER_SIZE && old(self).buffers_available() < old(self).buffer_limit()
                ==> final(self).buffers_available() == old(self).buffers_available() + 1,
            old(self).buffers_available() >= old(self).buffer_limit() ==> final(self).buffers_available() == old(self).buffers_available(),
            final(self).buffer_limit() == old(self).buffer_limit(),
    {
        self.buffer_pool.return_buffer(buf);
    }

    /// Sweeps the pending chunks at time `now`.
    pub fn cleanup_old_chunks(&mut self, now: u64)
        requires
            old(self).wf(),
        ensures
            final(self).wf(),
            final(self).message() == old(self).message(),
            final(self).discovery() == old(self).discovery(),
            final(self).buffers_available() == old(self).buffers_available(),
            final(self).buffer_limit() == old(self).buffer_limit(),
            final(self).processed() == old(self).processed(),
            final(self).chunks() == sweep(old(self).chunks(), now),
    {
        self.chunk_manager.cleanup_old_chunks(now);
    }

    /// Handles one received message against the shared chunk store.
    pub fn handle_message(
        &mut self,
        registry: &TransferRegistry,
        message: DiscoveryMessage,
        source_ip: String,
        is_discovery_only: bool,
        now: u64,
        unix_secs: u64,
    ) -> (outcome: Handled)
        requires
            old(self).wf(),
        ensures
            final(self).wf(),
            final(self).message() == old(self).message(),
            final(self).discovery() == old(self).discovery(),
            final(self).buffers_available() == old(self).buffers_available(),
            final(self).buffer_limit() == old(self).buffer_limit(),
            is_handled(
                message,
                source_ip,
                is_discovery_only,
                now,
                unix_secs,
                registry.entries().dom(),
                old(self).chunks(),
                old(self).processed(),
                final(self).chunks(),
                final(self).processed(),
                outcome,
            ),
    {
        handle_message(
            &mut self.chunk_manager,
            registry,
            message,
            source_ip,
            is_discovery_only,
            now,
            unix_secs,
        )
    }
}

} // verus!
