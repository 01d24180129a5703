use roundtable::decimal::render_decimal;
use roundtable::identifiers::{broadcast_address, chunk_id, message_id, socket_address};

#[test]
fn decimal_of_small_and_large_numbers() {
    assert_eq!(render_decimal(0), "0");
    assert_eq!(render_decimal(7), "7");
    assert_eq!(render_decimal(10), "10");
    assert_eq!(render_decimal(109), "109");
    assert_eq!(render_decimal(1234567890), "1234567890");
    assert_eq!(render_decimal(u64::MAX), "18446744073709551615");
}

#[test]
fn decimal_agrees_with_the_standard_rendering() {
    let mut n: u64 = 1;
    for _ in 0..64 {
        assert_eq!(render_decimal(n), n.to_string());
        assert_eq!(render_decimal(n - 1), (n - 1).to_string());
        n = n.wrapping_mul(3).wrapping_add(11);
    }
}

#[test]
fn message_id_joins_sender_target_and_timestamp() {
    assert_eq!(message_id(1, 2, 3), "1-2-3");
    assert_eq!(message_id(12345, 67890, 1700000000), "12345-67890-1700000000");
    assert_eq!(message_id(0, 0, 0), "0-0-0");
}

#[test]
fn distinct_triples_have_distinct_message_ids() {
    let triples: [(u64, u64, u64); 6] =
        [(1, 23, 4), (12, 3, 4), (1, 2, 34), (123, 4, 0), (1, 234, 0), (0, 1234, 0)];
    for (i, a) in triples.iter().enumerate() {
        for (j, b) in triples.iter().enumerate() {
            if i != j {
                assert_ne!(message_id(a.0, a.1, a.2), message_id(b.0, b.1, b.2));
            }
        }
    }
}

#[test]
fn chunk_id_joins_sender_target_and_random_number() {
    assert_eq!(chunk_id(5, 6, 4294967295), "5-6-4294967295");
    assert_eq!(chunk_id(5, 6, 0), "5-6-0");
}

#[test]
fn socket_address_joins_host_and_port() {
    assert_eq!(socket_address("192.168.1.20", 2426), "192.168.1.20:2426");
    assert_eq!(socket_address("host", 0), "host:0");
    assert_eq!(socket_address("10.0.0.1", 65535), "10.0.0.1:65535");
}

#[test]
fn broadcast_address_reaches_everyone() {
    assert_eq!(broadcast_address(2425), "255.255.255.255:2425");
}
