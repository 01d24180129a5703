use roundtable::chatlog::{
    format_log_entry, format_log_entry_at, log_chat_participants, log_chat_participants_at,
    log_file_header, log_file_header_at, log_session_start, log_session_start_at, ClockReading,
};
use roundtable::diagnostics::{echo_test, test_emit};
use roundtable::events::Event;
use roundtable::peer::User;

fn is_time_of_day(text: &str) -> bool {
    let b = text.as_bytes();
    b.len() == 8
        && b[2] == b':'
        && b[5] == b':'
        && [0usize, 1, 3, 4, 6, 7].iter().all(|i| b[*i].is_ascii_digit())
}

fn is_date(text: &str) -> bool {
    let b = text.as_bytes();
    b.len() == 10
        && b[4] == b'-'
        && b[7] == b'-'
        && [0usize, 1, 2, 3, 5, 6, 8, 9].iter().all(|i| b[*i].is_ascii_digit())
}

fn is_date_and_time(text: &str) -> bool {
    text.len() == 19 && &text[10..11] == " " && is_date(&text[..10]) && is_time_of_day(&text[11..])
}

#[test]
fn entry_of_a_chat_message() {
    assert_eq!(
        format_log_entry_at("12:34:56", "Ann", "10.0.0.2", "Bob", "10.0.0.3", "hi there", true),
        "[12:34:56] Ann (10.0.0.2): hi there\n"
    );
}

#[test]
fn entry_names_the_sender_whichever_way_the_message_went() {
    assert_eq!(
        format_log_entry_at("12:34:56", "Ann", "10.0.0.2", "Bob", "10.0.0.3", "hi", false),
        format_log_entry_at("12:34:56", "Ann", "10.0.0.2", "Bob", "10.0.0.3", "hi", true)
    );
}

#[test]
fn entry_at_the_local_time_of_day() {
    let entry = format_log_entry("Ann", "10.0.0.2", "Bob", "10.0.0.3", "hi", true);
    assert!(entry.starts_with('['));
    assert!(entry.ends_with("] Ann (10.0.0.2): hi\n"));
    let stamp = &entry[1..entry.len() - "] Ann (10.0.0.2): hi\n".len()];
    assert!(is_time_of_day(stamp));
}

#[test]
fn entry_that_opens_a_session() {
    assert_eq!(
        log_session_start_at("Ann", "10.0.0.2", "2024-01-02 03:04:05"),
        format!(
            "\n--- Session Started ---\nLocal User: Ann (10.0.0.2)\nTime: 2024-01-02 03:04:05\n{}\n",
            "-".repeat(30)
        )
    );
}

#[test]
fn session_entry_at_the_local_time() {
    let entry = log_session_start("Ann", "10.0.0.2");
    let head = "\n--- Session Started ---\nLocal User: Ann (10.0.0.2)\nTime: ";
    let tail = format!("\n{}\n", "-".repeat(30));
    assert!(entry.starts_with(head));
    assert!(entry.ends_with(&tail));
    assert!(is_date_and_time(&entry[head.len()..entry.len() - tail.len()]));
}

#[test]
fn entry_that_names_the_participants() {
    assert_eq!(
        log_chat_participants_at("Ann", "10.0.0.2", "Bob", "10.0.0.3", "2024-01-02 03:04:05"),
        format!(
            "\n--- Chat Participants ---\nLocal: Ann (10.0.0.2)\nRemote: Bob (10.0.0.3)\nTime: 2024-01-02 03:04:05\n{}\n",
            "-".repeat(25)
        )
    );
}

#[test]
fn participants_entry_at_the_local_time() {
    let entry = log_chat_participants("Ann", "10.0.0.2", "Bob", "10.0.0.3");
    let head = "\n--- Chat Participants ---\nLocal: Ann (10.0.0.2)\nRemote: Bob (10.0.0.3)\nTime: ";
    let tail = format!("\n{}\n", "-".repeat(25));
    assert!(entry.starts_with(head));
    assert!(entry.ends_with(&tail));
    assert!(is_date_and_time(&entry[head.len()..entry.len() - tail.len()]));
}

#[test]
fn head_of_a_new_log_file() {
    assert_eq!(
        log_file_header_at("2024-01-02", "03:04:05"),
        format!(
            "=== Roundtable Chat Log ===\nDate: 2024-01-02\nLog started at: 03:04:05\n{}\n",
            "=".repeat(50)
        )
    );
}

#[test]
fn head_of_a_new_log_file_at_the_local_time() {
    let header = log_file_header();
    let head = "=== Roundtable Chat Log ===\nDate: ";
    let middle = "\nLog started at: ";
    let tail = format!("\n{}\n", "=".repeat(50));
    assert!(header.starts_with(head));
    assert!(header.ends_with(&tail));
    let date = &header[head.len()..head.len() + 10];
    assert!(is_date(date));
    let rest = &header[head.len() + 10..header.len() - tail.len()];
    assert!(rest.starts_with(middle));
    assert!(is_time_of_day(&rest[middle.len()..]));
}

#[test]
fn echo() {
    assert_eq!(echo_test("ping"), "Echo: ping");
    assert_eq!(echo_test(""), "Echo: ");
}

#[test]
fn made_up_peer_for_trying_out_the_sink() {
    assert_eq!(
        test_emit(2426),
        Event::UserOnline(User {
            id: 12345,
            name: "Test User".to_string(),
            username: "testuser".to_string(),
            ip: "192.168.1.100".to_string(),
            port: 2426,
            profile_picture: None,
            hostname: Some("test-pc".to_string()),
        })
    );
}

#[test]
fn one_reading_of_the_clock_gives_a_date_and_a_time_of_day() {
    let reading = ClockReading::now();
    assert!(is_date(&reading.date));
    assert!(is_time_of_day(&reading.time));
    assert_eq!(reading.date_and_time(), format!("{} {}", reading.date, reading.time));
}

#[test]
fn date_and_time_are_joined_by_a_space() {
    let reading =
        ClockReading { date: "2024-12-31".to_string(), time: "23:59:59".to_string() };
    assert_eq!(reading.date_and_time(), "2024-12-31 23:59:59");
}
