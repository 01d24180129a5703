use roundtable::limits::{BUFFER_SIZE, CHUNK_TIMEOUT_NANOS};
use roundtable::dispatch::{Handled, Ignored};
use roundtable::message::DiscoveryMessage;
use roundtable::outbound::SocketRole;
use roundtable::socket_manager::SocketManager;
use roundtable::transfer::TransferRegistry;
use std::sync::Arc;
use tokio::net::UdpSocket;

fn bound(runtime: &tokio::runtime::Runtime) -> Option<Arc<UdpSocket>> {
    runtime.block_on(UdpSocket::bind("127.0.0.1:0")).ok().map(Arc::new)
}

fn runtime() -> tokio::runtime::Runtime {
    match tokio::runtime::Builder::new_current_thread().enable_all().build() {
        Ok(rt) => rt,
        Err(e) => panic!("no runtime: {}", e),
    }
}

#[test]
fn manager_with_one_socket_uses_it_for_everything() {
    let rt = runtime();
    let message = match bound(&rt) {
        Some(s) => s,
        None => return,
    };
    let manager = SocketManager::new(message.clone(), None);
    assert!(!manager.has_discovery_socket());
    assert!(Arc::ptr_eq(manager.broadcast_socket(), &message));
    assert!(Arc::ptr_eq(manager.socket_for(SocketRole::Discovery), &message));
    assert!(Arc::ptr_eq(manager.socket_for(SocketRole::Message), &message));
    assert!(Arc::ptr_eq(&manager.message_socket, &message));
    assert!(manager.discovery_socket.is_none());
}

#[test]
fn manager_with_two_sockets_keeps_them_apart() {
    let rt = runtime();
    let (message, discovery) = match (bound(&rt), bound(&rt)) {
        (Some(m), Some(d)) => (m, d),
        _ => return,
    };
    let manager = SocketManager::new(message.clone(), Some(discovery.clone()));
    assert!(manager.has_discovery_socket());
    assert!(Arc::ptr_eq(manager.broadcast_socket(), &discovery));
    assert!(Arc::ptr_eq(manager.socket_for(SocketRole::Discovery), &discovery));
    assert!(Arc::ptr_eq(manager.socket_for(SocketRole::Message), &message));
}

#[test]
fn manager_shares_one_pool_and_one_store() {
    let rt = runtime();
    let message = match bound(&rt) {
        Some(s) => s,
        None => return,
    };
    let mut manager = SocketManager::new(message, None);
    let registry = TransferRegistry::new();
    let buf = manager.get_buffer();
    assert_eq!(buf.len(), BUFFER_SIZE);
    assert!(buf.iter().all(|b| *b == 0));
    manager.return_buffer(buf);
    let chunk = DiscoveryMessage::ChunkedMessage {
        chunk_id: "1-2-3".to_string(),
        chunk_index: 0,
        total_chunks: 2,
        content: "x".to_string(),
        sender: "Ann".to_string(),
        sender_id: 1,
        target_id: 2,
        sender_port: 2426,
        timestamp: 9,
    };
    let out = manager.handle_message(&registry, chunk, "10.0.0.2".to_string(), false, 0, 9);
    assert_eq!(out, Handled::Ignored(Ignored::AwaitingChunks));
    manager.cleanup_old_chunks(CHUNK_TIMEOUT_NANOS);
    let late = DiscoveryMessage::ChunkedMessage {
        chunk_id: "1-2-3".to_string(),
        chunk_index: 1,
        total_chunks: 2,
        content: "y".to_string(),
        sender: "Ann".to_string(),
        sender_id: 1,
        target_id: 2,
        sender_port: 2426,
        timestamp: 9,
    };
    let out = manager.handle_message(&registry, late, "10.0.0.2".to_string(), false, CHUNK_TIMEOUT_NANOS, 9);
    assert_eq!(out, Handled::Ignored(Ignored::AwaitingChunks));
}
