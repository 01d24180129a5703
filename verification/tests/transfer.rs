use roundtable::events::Event;
use roundtable::limits::{ACCEPT_TIMEOUT_SECS, CONNECT_TIMEOUT_SECS, TRANSFER_CHUNK_SIZE};
use roundtable::message::DiscoveryMessage;
use roundtable::transfer::{
    begin_transfer, conclude_transfer, download_failed, initiate_file_offer, next_chunk_end,
    progress_percent, read_size_header, respond_to_file_offer, size_header, start_file_transfer,
    transfer_ready_reply, Download, DownloadFailure, Outgoing, ServerOutcome, TransferRegistry,
    TransferSignal, TransferState,
};

fn failure(transfer_id: &str, error: &str) -> Event {
    Event::FileTransferError { transfer_id: transfer_id.to_string(), error: error.to_string() }
}

#[test]
fn timeouts_and_chunk_size_of_a_transfer() {
    assert_eq!(ACCEPT_TIMEOUT_SECS, 60);
    assert_eq!(CONNECT_TIMEOUT_SECS, 15);
    assert_eq!(TRANSFER_CHUNK_SIZE, 16384);
}

#[test]
fn registry_keeps_what_is_registered() {
    let mut registry = TransferRegistry::new();
    assert!(!registry.contains("t1"));
    assert_eq!(registry.path_of("t1"), None);
    registry.register("t1".to_string(), "/tmp/a.bin".to_string());
    assert!(registry.contains("t1"));
    assert_eq!(registry.path_of("t1"), Some("/tmp/a.bin".to_string()));
    registry.register("t1".to_string(), "/tmp/b.bin".to_string());
    assert_eq!(registry.path_of("t1"), Some("/tmp/b.bin".to_string()));
    registry.remove("t1");
    assert!(!registry.contains("t1"));
    registry.remove("t1");
    assert!(!registry.contains("t1"));
}

#[test]
fn offer_without_a_path_fails_and_registers_nothing() {
    let cause = "File offer failed because the file path was not provided or was empty.";
    let mut registry = TransferRegistry::new();
    let none = initiate_file_offer(
        &mut registry, "10.0.0.2", 2426, "t1".to_string(), "a.bin".to_string(), 5, None, 1,
        "Ann".to_string(), "ann".to_string(), None, 2426,
    );
    assert_eq!(none, Err(cause.to_string()));
    let empty = initiate_file_offer(
        &mut registry, "10.0.0.2", 2426, "t1".to_string(), "a.bin".to_string(), 5,
        Some(String::new()), 1, "Ann".to_string(), "ann".to_string(), None, 2426,
    );
    assert_eq!(empty, Err(cause.to_string()));
    assert!(!registry.contains("t1"));
}

#[test]
fn offer_registers_the_path_and_names_the_file() {
    let mut registry = TransferRegistry::new();
    let out = initiate_file_offer(
        &mut registry, "10.0.0.2", 2500, "t1".to_string(), "a.bin".to_string(), 1_048_576,
        Some("/tmp/a.bin".to_string()), 7, "Ann".to_string(), "ann".to_string(),
        Some("pic".to_string()), 2426,
    );
    assert_eq!(registry.path_of("t1"), Some("/tmp/a.bin".to_string()));
    let out = match out {
        Ok(o) => o,
        Err(e) => panic!("unexpected {}", e),
    };
    assert_eq!(out.target_addr, "10.0.0.2:2500");
    match out.message {
        DiscoveryMessage::FileOffer { sender, file_name, file_size, transfer_id } => {
            assert_eq!(file_name, "a.bin");
            assert_eq!(file_size, 1_048_576);
            assert_eq!(transfer_id, "t1");
            assert_eq!(sender.id, 7);
            assert_eq!(sender.name, "Ann");
            assert_eq!(sender.username, "ann");
            assert_eq!(sender.ip, "0.0.0.0");
            assert_eq!(sender.port, 2426);
            assert_eq!(sender.profile_picture, Some("pic".to_string()));
        }
        other => panic!("unexpected {:?}", other),
    }
}

#[test]
fn acceptance_goes_to_the_offerer() {
    let out = respond_to_file_offer(
        "t1".to_string(), true, 8, "Bob".to_string(), "bob".to_string(), None,
        Some("10.0.0.1".to_string()), Some(2426), 2427,
    );
    assert_eq!(out.target_addr, "10.0.0.1:2426");
    match out.message {
        DiscoveryMessage::FileAccept { receiver, transfer_id } => {
            assert_eq!(transfer_id, "t1");
            assert_eq!(receiver.id, 8);
            assert_eq!(receiver.name, "Bob");
            assert_eq!(receiver.username, "bob");
            assert_eq!(receiver.ip, "0.0.0.0");
            assert_eq!(receiver.port, 2427);
            assert_eq!(receiver.profile_picture, None);
        }
        other => panic!("unexpected {:?}", other),
    }
}

#[test]
fn rejection_without_an_address_goes_to_everyone() {
    let out = respond_to_file_offer(
        "t1".to_string(), false, 8, "Bob".to_string(), "bob".to_string(), None, None, Some(2426),
        2427,
    );
    assert_eq!(
        out,
        Outgoing {
            message: DiscoveryMessage::FileReject { transfer_id: "t1".to_string() },
            target_addr: "255.255.255.255:2427".to_string(),
        }
    );
    let no_port = respond_to_file_offer(
        "t1".to_string(), false, 8, "Bob".to_string(), "bob".to_string(), None,
        Some("10.0.0.1".to_string()), None, 2427,
    );
    assert_eq!(no_port.target_addr, "255.255.255.255:2427");
}

#[test]
fn readiness_is_announced_to_everyone() {
    assert_eq!(
        start_file_transfer("t1".to_string(), 40000, 2427),
        Outgoing {
            message: DiscoveryMessage::TransferReady { transfer_id: "t1".to_string(), tcp_port: 40000 },
            target_addr: "255.255.255.255:2427".to_string(),
        }
    );
}

#[test]
fn readiness_reply_goes_to_the_accepter() {
    assert_eq!(
        transfer_ready_reply("t1".to_string(), 40000, "10.0.0.9", 2426),
        Some(Outgoing {
            message: DiscoveryMessage::TransferReady { transfer_id: "t1".to_string(), tcp_port: 40000 },
            target_addr: "10.0.0.9:2426".to_string(),
        })
    );
}

#[test]
fn no_port_no_readiness_reply() {
    assert_eq!(transfer_ready_reply("t1".to_string(), 0, "10.0.0.9", 2426), None);
}

#[test]
fn server_finds_the_registered_file() {
    let mut registry = TransferRegistry::new();
    registry.register("t1".to_string(), "/tmp/a.bin".to_string());
    assert_eq!(begin_transfer(&registry, &"t1".to_string()), Ok("/tmp/a.bin".to_string()));
}

#[test]
fn server_for_an_unknown_transfer_reports_the_missing_path() {
    let registry = TransferRegistry::new();
    assert_eq!(
        begin_transfer(&registry, &"t9".to_string()),
        Err(failure("t9", "File path for transfer ID t9 not found in registry."))
    );
}

#[test]
fn accept_timeout_is_reported_and_the_registration_removed() {
    let mut registry = TransferRegistry::new();
    registry.register("t1".to_string(), "/tmp/a.bin".to_string());
    registry.register("t2".to_string(), "/tmp/b.bin".to_string());
    let report = conclude_transfer(&mut registry, "t1".to_string(), &ServerOutcome::AcceptTimedOut);
    assert_eq!(report, Some(failure("t1", "Timeout waiting for connection")));
    assert!(!registry.contains("t1"));
    assert!(registry.contains("t2"));
}

#[test]
fn every_end_of_a_transfer_removes_the_registration() {
    let outcomes = [
        (ServerOutcome::Sent, None),
        (
            ServerOutcome::SetupFailed("in use".to_string()),
            Some("Failed to setup file transfer server: in use"),
        ),
        (
            ServerOutcome::AcceptFailed("reset".to_string()),
            Some("Failed to accept connection: reset"),
        ),
        (ServerOutcome::AcceptTimedOut, Some("Timeout waiting for connection")),
        (ServerOutcome::ReadFailed("gone".to_string()), Some("Failed to read file: gone")),
        (
            ServerOutcome::WriteFailed("broken pipe".to_string()),
            Some("Error sending file chunk: broken pipe"),
        ),
    ];
    for (outcome, cause) in outcomes.iter() {
        let mut registry = TransferRegistry::new();
        registry.register("t1".to_string(), "/tmp/a.bin".to_string());
        let report = conclude_transfer(&mut registry, "t1".to_string(), outcome);
        assert_eq!(report, cause.map(|c| failure("t1", c)));
        assert_eq!(outcome.failure(), cause.map(|c| c.to_string()));
        assert!(!registry.contains("t1"));
    }
}

#[test]
fn size_header_is_big_endian() {
    assert_eq!(size_header(1_048_576), vec![0, 0, 0, 0, 0, 0x10, 0, 0]);
    assert_eq!(size_header(0), vec![0; 8]);
    assert_eq!(size_header(1), vec![0, 0, 0, 0, 0, 0, 0, 1]);
    assert_eq!(size_header(0x0102030405060708), vec![1, 2, 3, 4, 5, 6, 7, 8]);
    assert_eq!(size_header(u64::MAX), vec![0xff; 8]);
}

#[test]
fn size_header_agrees_with_the_standard_encoding() {
    let mut n: u64 = 1;
    for _ in 0..64 {
        assert_eq!(size_header(n), n.to_be_bytes().to_vec());
        assert_eq!(read_size_header(&n.to_be_bytes()), Some(n));
        n = n.wrapping_mul(6364136223846793005).wrapping_add(1442695040888963407);
    }
}

#[test]
fn size_header_read_back() {
    assert_eq!(read_size_header(&size_header(1_048_576)), Some(1_048_576));
    assert_eq!(read_size_header(&[1, 2, 3, 4, 5, 6, 7, 8]), Some(0x0102030405060708));
}

#[test]
fn anything_but_eight_bytes_is_no_header() {
    assert_eq!(read_size_header(&[]), None);
    assert_eq!(read_size_header(&[0; 7]), None);
    assert_eq!(read_size_header(&[0; 9]), None);
}

#[test]
fn content_is_written_sixteen_kibibytes_at_a_time() {
    assert_eq!(next_chunk_end(0, 0), 0);
    assert_eq!(next_chunk_end(0, 100), 100);
    assert_eq!(next_chunk_end(0, 16384), 16384);
    assert_eq!(next_chunk_end(0, 16385), 16384);
    assert_eq!(next_chunk_end(16384, 16385), 16385);
    assert_eq!(next_chunk_end(16384, 1_048_576), 32768);
    let mut offset = 0;
    let mut pieces = 0;
    while offset < 1_048_576 {
        offset = next_chunk_end(offset, 1_048_576);
        pieces += 1;
    }
    assert_eq!(pieces, 64);
}

#[test]
fn percentage_is_rounded_down() {
    assert_eq!(progress_percent(0, 3), 0);
    assert_eq!(progress_percent(1, 3), 33);
    assert_eq!(progress_percent(2, 3), 66);
    assert_eq!(progress_percent(3, 3), 100);
    assert_eq!(progress_percent(29, 100), 29);
    assert_eq!(progress_percent(57, 100), 57);
    assert_eq!(progress_percent(u64::MAX, u64::MAX), 100);
    assert_eq!(progress_percent(u64::MAX - 1, u64::MAX), 99);
}

#[test]
fn percentage_stops_at_a_hundred() {
    assert_eq!(progress_percent(100, 100), 100);
    assert_eq!(progress_percent(101, 100), 100);
    assert_eq!(progress_percent(255, 100), 100);
    assert_eq!(progress_percent(u64::MAX, 1), 100);
}

#[test]
fn download_failures_name_their_cause() {
    let cases = [
        (DownloadFailure::ConnectFailed("refused".to_string()), "Failed to connect to file server: refused"),
        (DownloadFailure::ConnectTimedOut, "Connection attempt timed out"),
        (DownloadFailure::HeaderFailed("eof".to_string()), "Failed to read file size: eof"),
        (DownloadFailure::CreateFailed("denied".to_string()), "Failed to create output file: denied"),
        (DownloadFailure::WriteFailed("full".to_string()), "Failed to write to file: full"),
        (DownloadFailure::ReadFailed("reset".to_string()), "Failed to read from stream: reset"),
        (
            DownloadFailure::StreamEndedEarly { received: 0, expected: 1_048_576 },
            "Stream ended after 0 of 1048576 bytes",
        ),
    ];
    for (case, text) in cases.iter() {
        assert_eq!(case.message(), *text);
        assert_eq!(download_failed("t1".to_string(), case), failure("t1", text));
    }
}

#[test]
fn download_needs_a_header_of_eight_bytes() {
    assert!(Download::begin("t1".to_string(), "/tmp/x".to_string(), &[0; 7]).is_none());
    assert!(Download::begin("t1".to_string(), "/tmp/x".to_string(), &[0; 8]).is_some());
}

#[test]
fn download_of_one_mebibyte() {
    let header = size_header(1_048_576);
    assert_eq!(read_size_header(&header), Some(1_048_576));
    let mut download = match Download::begin("t1".to_string(), "/tmp/out.bin".to_string(), &header) {
        Some(d) => d,
        None => panic!("no download"),
    };
    assert_eq!(download.file_size(), 1_048_576);
    let mut reports: Vec<u8> = Vec::new();
    assert!(!download.is_complete());
    for read in 0..64 {
        let step = download.on_read(16384);
        assert_eq!(step.accepted, 16384);
        assert_eq!(step.failure, None);
        assert_eq!(step.finished, read == 63);
        match step.progress {
            Some(Event::FileTransferProgress { transfer_id, progress }) => {
                assert_eq!(transfer_id, "t1");
                reports.push(progress);
            }
            Some(other) => panic!("unexpected {:?}", other),
            None => {}
        }
    }
    assert_eq!(download.total_bytes(), 1_048_576);
    assert!(download.is_complete());
    let end = download.on_read(0);
    assert!(end.finished);
    assert_eq!(end.failure, None);
    assert_eq!(end.progress, None);
    assert!(reports.windows(2).all(|w| w[0] < w[1]));
    assert_eq!(reports.first(), Some(&1));
    assert_eq!(reports.last(), Some(&100));
    assert_eq!(reports.len(), 64);
    assert_eq!(
        download.complete(),
        Event::FileTransferComplete {
            transfer_id: "t1".to_string(),
            file_path: "/tmp/out.bin".to_string(),
            size: 1_048_576,
        }
    );
}

#[test]
fn progress_is_reported_only_when_the_percentage_changes() {
    let mut download = match Download::begin("t".to_string(), "p".to_string(), &size_header(1000)) {
        Some(d) => d,
        None => panic!("no download"),
    };
    assert_eq!(download.on_read(5).progress, None);
    assert_eq!(
        download.on_read(5).progress,
        Some(Event::FileTransferProgress { transfer_id: "t".to_string(), progress: 1 })
    );
    assert_eq!(download.on_read(9).progress, None);
    assert_eq!(
        download.on_read(1).progress,
        Some(Event::FileTransferProgress { transfer_id: "t".to_string(), progress: 2 })
    );
    let last = download.on_read(980);
    assert!(last.finished);
    assert_eq!(
        last.progress,
        Some(Event::FileTransferProgress { transfer_id: "t".to_string(), progress: 100 })
    );
}

#[test]
fn end_of_stream_before_the_announced_size_is_a_failure() {
    let mut download = match Download::begin("t".to_string(), "p".to_string(), &size_header(1000)) {
        Some(d) => d,
        None => panic!("no download"),
    };
    let first = download.on_read(400);
    assert!(!first.finished);
    assert_eq!(first.failure, None);
    let end = download.on_read(0);
    assert!(end.finished);
    assert_eq!(end.accepted, 0);
    assert_eq!(end.progress, None);
    let cut_short = DownloadFailure::StreamEndedEarly { received: 400, expected: 1000 };
    assert_eq!(end.failure, Some(cut_short.clone()));
    assert!(!download.is_complete());
    assert_eq!(download.total_bytes(), 400);
    assert_eq!(
        download_failed("t".to_string(), &cut_short),
        failure("t", "Stream ended after 400 of 1000 bytes")
    );
    assert_eq!(cut_short.final_state(), TransferState::Failed);
}

#[test]
fn end_of_stream_at_once_is_a_failure_unless_the_file_is_empty() {
    let mut download = match Download::begin("t".to_string(), "p".to_string(), &size_header(1)) {
        Some(d) => d,
        None => panic!("no download"),
    };
    assert_eq!(
        download.on_read(0).failure,
        Some(DownloadFailure::StreamEndedEarly { received: 0, expected: 1 })
    );
    let mut empty = match Download::begin("t".to_string(), "p".to_string(), &size_header(0)) {
        Some(d) => d,
        None => panic!("no download"),
    };
    assert!(empty.is_complete());
    let end = empty.on_read(0);
    assert!(end.finished);
    assert_eq!(end.failure, None);
    assert_eq!(
        empty.complete(),
        Event::FileTransferComplete { transfer_id: "t".to_string(), file_path: "p".to_string(), size: 0 }
    );
}

#[test]
fn end_of_stream_after_the_announced_size_completes_the_download() {
    let mut download = match Download::begin("t".to_string(), "p".to_string(), &size_header(1000)) {
        Some(d) => d,
        None => panic!("no download"),
    };
    let all = download.on_read(1000);
    assert!(all.finished);
    assert_eq!(all.accepted, 1000);
    let end = download.on_read(0);
    assert!(end.finished);
    assert_eq!(end.failure, None);
    assert_eq!(
        download.complete(),
        Event::FileTransferComplete { transfer_id: "t".to_string(), file_path: "p".to_string(), size: 1000 }
    );
}

#[test]
fn bytes_beyond_the_announced_size_are_not_part_of_the_file() {
    let mut download = match Download::begin("t".to_string(), "p".to_string(), &size_header(1000)) {
        Some(d) => d,
        None => panic!("no download"),
    };
    assert_eq!(download.on_read(900).accepted, 900);
    let last = download.on_read(500);
    assert_eq!(last.accepted, 100);
    assert!(last.finished);
    assert_eq!(last.failure, None);
    assert_eq!(
        last.progress,
        Some(Event::FileTransferProgress { transfer_id: "t".to_string(), progress: 100 })
    );
    assert_eq!(download.total_bytes(), 1000);
    let more = download.on_read(16384);
    assert_eq!(more.accepted, 0);
    assert!(more.finished);
    assert_eq!(more.progress, None);
    assert_eq!(download.total_bytes(), 1000);
}

#[test]
fn download_of_an_empty_file_reports_no_progress() {
    let mut download = match Download::begin("t".to_string(), "p".to_string(), &size_header(0)) {
        Some(d) => d,
        None => panic!("no download"),
    };
    let step = download.on_read(10);
    assert!(step.finished);
    assert_eq!(step.accepted, 0);
    assert_eq!(step.progress, None);
    assert_eq!(step.failure, None);
    assert_eq!(download.total_bytes(), 0);
}

fn states() -> [TransferState; 8] {
    [
        TransferState::Offered,
        TransferState::Accepted,
        TransferState::AwaitingConnection,
        TransferState::Transferring,
        TransferState::Completed,
        TransferState::Rejected,
        TransferState::Failed,
        TransferState::TimedOut,
    ]
}

fn signals() -> [TransferSignal; 7] {
    [
        TransferSignal::Accept,
        TransferSignal::Reject,
        TransferSignal::ListenerOpened,
        TransferSignal::Connected,
        TransferSignal::Finished,
        TransferSignal::Failure,
        TransferSignal::Timeout,
    ]
}

#[test]
fn a_transfer_that_goes_well() {
    let mut state = TransferState::Offered;
    let path = [
        (TransferSignal::Accept, TransferState::Accepted),
        (TransferSignal::ListenerOpened, TransferState::AwaitingConnection),
        (TransferSignal::Connected, TransferState::Transferring),
        (TransferSignal::Finished, TransferState::Completed),
    ];
    for (signal, expected) in path.iter() {
        assert!(!state.concluded());
        assert_eq!(state.advance(*signal), Some(*expected));
        state = *expected;
    }
    assert!(state.concluded());
}

#[test]
fn an_offer_may_be_rejected() {
    assert_eq!(
        TransferState::Offered.advance(TransferSignal::Reject),
        Some(TransferState::Rejected)
    );
    assert!(TransferState::Rejected.concluded());
}

#[test]
fn failure_and_timeout_end_a_waiting_or_running_transfer() {
    for state in [TransferState::AwaitingConnection, TransferState::Transferring] {
        assert_eq!(state.advance(TransferSignal::Failure), Some(TransferState::Failed));
        assert_eq!(state.advance(TransferSignal::Timeout), Some(TransferState::TimedOut));
    }
    for state in [TransferState::Offered, TransferState::Accepted] {
        assert_eq!(state.advance(TransferSignal::Failure), None);
        assert_eq!(state.advance(TransferSignal::Timeout), None);
    }
}

#[test]
fn a_concluded_transfer_stays_as_it_is() {
    let mut moves = 0;
    for state in states().iter() {
        for signal in signals().iter() {
            let next = state.advance(*signal);
            if state.concluded() {
                assert_eq!(next, None);
            }
            if next.is_some() {
                moves += 1;
            }
        }
    }
    assert_eq!(moves, 9);
}

#[test]
fn outcomes_end_in_concluded_states() {
    assert_eq!(ServerOutcome::Sent.final_state(), TransferState::Completed);
    assert_eq!(ServerOutcome::AcceptTimedOut.final_state(), TransferState::TimedOut);
    assert_eq!(ServerOutcome::SetupFailed("e".to_string()).final_state(), TransferState::Failed);
    assert_eq!(ServerOutcome::AcceptFailed("e".to_string()).final_state(), TransferState::Failed);
    assert_eq!(ServerOutcome::ReadFailed("e".to_string()).final_state(), TransferState::Failed);
    assert_eq!(ServerOutcome::WriteFailed("e".to_string()).final_state(), TransferState::Failed);
    assert_eq!(DownloadFailure::ConnectTimedOut.final_state(), TransferState::TimedOut);
    assert_eq!(DownloadFailure::ConnectFailed("e".to_string()).final_state(), TransferState::Failed);
    assert_eq!(DownloadFailure::ReadFailed("e".to_string()).final_state(), TransferState::Failed);
    assert_eq!(DownloadFailure::HeaderFailed("e".to_string()).final_state(), TransferState::Failed);
    assert_eq!(DownloadFailure::CreateFailed("e".to_string()).final_state(), TransferState::Failed);
    assert_eq!(DownloadFailure::WriteFailed("e".to_string()).final_state(), TransferState::Failed);
    assert_eq!(
        DownloadFailure::StreamEndedEarly { received: 1, expected: 2 }.final_state(),
        TransferState::Failed
    );
}

#[test]
fn every_end_is_one_step_from_waiting_or_transferring() {
    assert_eq!(
        TransferState::Transferring.advance(TransferSignal::Finished),
        Some(ServerOutcome::Sent.final_state())
    );
    assert_eq!(
        TransferState::AwaitingConnection.advance(TransferSignal::Timeout),
        Some(ServerOutcome::AcceptTimedOut.final_state())
    );
    assert_eq!(
        TransferState::AwaitingConnection.advance(TransferSignal::Failure),
        Some(ServerOutcome::SetupFailed("e".to_string()).final_state())
    );
    assert_eq!(
        TransferState::Transferring.advance(TransferSignal::Failure),
        Some(DownloadFailure::StreamEndedEarly { received: 1, expected: 2 }.final_state())
    );
    assert_eq!(
        TransferState::AwaitingConnection.advance(TransferSignal::Timeout),
        Some(DownloadFailure::ConnectTimedOut.final_state())
    );
}
