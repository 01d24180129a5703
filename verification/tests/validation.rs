use roundtable::error::MessageError;
use roundtable::message::{text_bytes, DiscoveryMessage};
use roundtable::peer::{describe_peer, local_peer, User};

fn user(name: &str) -> User {
    User {
        id: 7,
        name: name.to_string(),
        username: "handle".to_string(),
        ip: "0.0.0.0".to_string(),
        port: 2426,
        profile_picture: None,
        hostname: None,
    }
}

fn invalid(cause: &str) -> Result<(), MessageError> {
    Err(MessageError::InvalidData(cause.to_string()))
}

fn chat(content: String, sender: &str) -> DiscoveryMessage {
    DiscoveryMessage::Message {
        content,
        sender: sender.to_string(),
        sender_id: 1,
        target_id: 2,
        sender_port: 2426,
        timestamp: 1700000000,
    }
}

fn chunk(content: String, sender: &str, total_chunks: u16) -> DiscoveryMessage {
    DiscoveryMessage::ChunkedMessage {
        chunk_id: "1-2-3".to_string(),
        chunk_index: 0,
        total_chunks,
        content,
        sender: sender.to_string(),
        sender_id: 1,
        target_id: 2,
        sender_port: 2426,
        timestamp: 1700000000,
    }
}

#[test]
fn user_with_a_name_is_accepted() {
    assert_eq!(user("Ann").validate(), Ok(()));
}

#[test]
fn user_without_a_name_is_refused() {
    assert_eq!(user("").validate(), invalid("Username cannot be empty"));
}

#[test]
fn user_name_of_one_hundred_characters_is_the_longest() {
    assert_eq!(user(&"n".repeat(100)).validate(), Ok(()));
    assert_eq!(user(&"n".repeat(101)).validate(), invalid("Username too long"));
}

#[test]
fn user_name_is_measured_in_characters() {
    let name = "é".repeat(100);
    assert_eq!(name.len(), 200);
    assert_eq!(user(&name).validate(), Ok(()));
    assert_eq!(user(&"é".repeat(101)).validate(), invalid("Username too long"));
}

#[test]
fn presence_messages_follow_the_rules_of_a_peer() {
    assert_eq!(DiscoveryMessage::Online(user("Ann")).validate(), Ok(()));
    assert_eq!(DiscoveryMessage::Offline(user("Ann")).validate(), Ok(()));
    assert_eq!(DiscoveryMessage::Response(user("Ann")).validate(), Ok(()));
    assert_eq!(
        DiscoveryMessage::Online(user("")).validate(),
        invalid("Username cannot be empty")
    );
    assert_eq!(
        DiscoveryMessage::Offline(user(&"x".repeat(101))).validate(),
        invalid("Username too long")
    );
    assert_eq!(
        DiscoveryMessage::Response(user("")).validate(),
        invalid("Username cannot be empty")
    );
}

#[test]
fn query_is_always_accepted() {
    assert_eq!(DiscoveryMessage::Query.validate(), Ok(()));
}

#[test]
fn chat_message_limits() {
    assert_eq!(chat("x".repeat(100_000), "Ann").validate(), Ok(()));
    assert_eq!(chat("x".repeat(100_001), "Ann").validate(), invalid("Message too long"));
    assert_eq!(chat("hello".to_string(), "").validate(), invalid("Sender name required"));
    assert_eq!(chat(String::new(), "Ann").validate(), Ok(()));
}

#[test]
fn chat_message_is_measured_in_bytes() {
    let content = "é".repeat(50_001);
    assert_eq!(content.chars().count(), 50_001);
    assert_eq!(chat(content, "Ann").validate(), invalid("Message too long"));
}

#[test]
fn too_long_is_reported_before_missing_sender() {
    assert_eq!(chat("x".repeat(100_001), "").validate(), invalid("Message too long"));
}

#[test]
fn chunk_limits() {
    assert_eq!(chunk("x".repeat(2000), "Ann", 1).validate(), Ok(()));
    assert_eq!(chunk("x".repeat(2001), "Ann", 1).validate(), invalid("Chunk too large"));
    assert_eq!(chunk("x".to_string(), "", 1).validate(), invalid("Sender name required"));
    assert_eq!(chunk("x".to_string(), "Ann", 0).validate(), invalid("Invalid chunk count"));
    assert_eq!(chunk("x".to_string(), "Ann", 1000).validate(), Ok(()));
    assert_eq!(chunk("x".to_string(), "Ann", 1001).validate(), invalid("Invalid chunk count"));
}

#[test]
fn chunk_rules_are_tried_in_order() {
    assert_eq!(chunk("x".repeat(2001), "", 0).validate(), invalid("Chunk too large"));
    assert_eq!(chunk("x".to_string(), "", 0).validate(), invalid("Sender name required"));
}

#[test]
fn file_offer_needs_a_file_name() {
    let offer = |file_name: &str| DiscoveryMessage::FileOffer {
        sender: user(""),
        file_name: file_name.to_string(),
        file_size: 10,
        transfer_id: "t1".to_string(),
    };
    assert_eq!(offer("a.txt").validate(), Ok(()));
    assert_eq!(offer("").validate(), invalid("File name cannot be empty"));
}

#[test]
fn handshake_messages_are_always_accepted() {
    let accept =
        DiscoveryMessage::FileAccept { receiver: user(""), transfer_id: String::new() };
    let reject = DiscoveryMessage::FileReject { transfer_id: String::new() };
    let ready = DiscoveryMessage::TransferReady { transfer_id: String::new(), tcp_port: 0 };
    assert_eq!(accept.validate(), Ok(()));
    assert_eq!(reject.validate(), Ok(()));
    assert_eq!(ready.validate(), Ok(()));
}

#[test]
fn discovery_kinds() {
    assert!(DiscoveryMessage::Online(user("Ann")).is_discovery_kind());
    assert!(DiscoveryMessage::Offline(user("Ann")).is_discovery_kind());
    assert!(DiscoveryMessage::Response(user("Ann")).is_discovery_kind());
    assert!(DiscoveryMessage::Query.is_discovery_kind());
    assert!(!chat("hi".to_string(), "Ann").is_discovery_kind());
    assert!(!chunk("hi".to_string(), "Ann", 1).is_discovery_kind());
    assert!(!DiscoveryMessage::FileReject { transfer_id: "t".to_string() }.is_discovery_kind());
    assert!(!DiscoveryMessage::TransferReady { transfer_id: "t".to_string(), tcp_port: 1 }
        .is_discovery_kind());
}

#[test]
fn error_text_names_the_kind() {
    assert_eq!(
        MessageError::InvalidData("Chunk too large".to_string()).message(),
        "Invalid data: Chunk too large"
    );
    assert_eq!(
        MessageError::NetworkError("unreachable".to_string()).message(),
        "Network error: unreachable"
    );
    assert_eq!(
        MessageError::SerializationError("bad key".to_string()).message(),
        "Serialization error: bad key"
    );
    assert_eq!(
        MessageError::invalid("Message too long"),
        MessageError::InvalidData("Message too long".to_string())
    );
}

#[test]
fn text_bytes_counts_the_encoding() {
    assert_eq!(text_bytes(""), 0);
    assert_eq!(text_bytes("abc"), 3);
    assert_eq!(text_bytes("é"), 2);
    assert_eq!(text_bytes("€"), 3);
    assert_eq!(text_bytes("😀"), 4);
}

#[test]
fn observed_address_replaces_the_reported_one() {
    let seen = user("Ann").observed_at("192.168.1.20".to_string());
    let mut expected = user("Ann");
    expected.ip = "192.168.1.20".to_string();
    assert_eq!(seen, expected);
}

#[test]
fn describe_peer_fills_every_field() {
    let described = describe_peer(
        9,
        "Ann".to_string(),
        "ann".to_string(),
        Some("pic.png".to_string()),
        2427,
        Some("box".to_string()),
    );
    assert_eq!(
        described,
        User {
            id: 9,
            name: "Ann".to_string(),
            username: "ann".to_string(),
            ip: "0.0.0.0".to_string(),
            port: 2427,
            profile_picture: Some("pic.png".to_string()),
            hostname: Some("box".to_string()),
        }
    );
}

#[test]
fn local_peer_differs_from_a_description_in_the_hostname_alone() {
    let local = local_peer(9, "Ann".to_string(), "ann".to_string(), None, 2427);
    let described =
        describe_peer(9, "Ann".to_string(), "ann".to_string(), None, 2427, local.hostname.clone());
    assert_eq!(local, described);
    if let Some(name) = &local.hostname {
        assert!(!name.is_empty());
    }
}
