//! The entries of the chat log.
//!
//! Writing the log file is the caller's work; the functions here say what is
//! written. Each entry comes in two forms: one that takes the time as text,
//! and one that reads the local clock.

use vstd::prelude::*;
use vstd::string::StringExecFns;

verus! {

/// The patterns in which the log writes a date and a time of day.
pub open spec fn is_clock_pattern(pattern: Seq<char>) -> bool {
    pattern == "%Y-%m-%d"@ || pattern == "%H:%M:%S"@
}

/// One reading of the local clock, written out as a date and as a time of
/// day.
#[derive(Debug, Clone, PartialEq, Eq)]
pub struct ClockReading {
    pub date: String,
    pub time: String,
}

/// Reads the local time once with `chrono::Local::now` and writes that one
/// reading out twice with `DateTime::format`, in the two patterns given.
/// Writing out fails on a pattern `chrono` does not know, so only the two
/// patterns of the log are let through. Nothing is claimed of the texts: they
/// are whatever the clock says.
#[verifier::external_body]
fn read_local_clock(date_pattern: &str, time_pattern: &str) -> (reading: ClockReading)
    requires
        is_clock_pattern(date_pattern@),
        is_clock_pattern(time_pattern@),
{
    let now = chrono::Local::now();
    ClockReading {
        date: now.format(date_pattern).to_string(),
        time: now.format(time_pattern).to_string(),
    }
}

/// A date and a time of day as one text, a space between them.
pub open spec fn date_and_time_text(date: Seq<char>, time: Seq<char>) -> Seq<char> {
    date + " "@ + time
}

impl ClockReading {
    /// Reads the local clock.
    pub fn now() -> (reading: ClockReading) {
        read_local_clock("%Y-%m-%d", "%H:%M:%S")
    }

    /// The date and the time of day of this reading as one text.
    pub fn date_and_time(&self) -> (text: String)
        ensures
            text@ == date_and_time_text(self.date@, self.time@),
    {
        let mut text = self.date.clone();
        text.append(" ");
        text.append(self.time.as_str());
        text
    }
}

/// The entry of one chat message.
pub open spec fn log_entry_text(
    timestamp: Seq<char>,
    name: Seq<char>,
    ip: Seq<char>,
    message: Seq<char>,
) -> Seq<char> {
    "["@ + timestamp + "] "@ + name + " ("@ + ip + "): "@ + message + "\n"@
}

/// The entry that opens a session.
pub open spec fn session_start_text(user_name: Seq<char>, user_ip: Seq<char>, when: Seq<char>) -> Seq<
    char,
> {
    "\n--- Session Started ---\nLocal User: "@ + user_name + " ("@ + user_ip + ")\nTime: "@ + when
        + "\n------------------------------\n"@
}

/// The entry that names the two sides of a chat.
pub open spec fn chat_participants_text(
    local_user: Seq<char>,
    local_ip: Seq<char>,
    remote_user: Seq<char>,
    remote_ip: Seq<char>,
    when: Seq<char>,
) -> Seq<char> {
    "\n--- Chat Participants ---\nLocal: "@ + local_user + " ("@ + local_ip + ")\nRemote: "@
        + remote_user + " ("@ + remote_ip + ")\nTime: "@ + when + "\n-------------------------\n"@
}

/// The lines at the head of a new log file.
pub open spec fn log_header_text(date: Seq<char>, time: Seq<char>) -> Seq<char> {
    "=== Roundtable Chat Log ===\nDate: "@ + date + "\nLog started at: "@ + time
        + "\n==================================================\n"@
}

/// Writes the entry of one chat message, given the time of day as text. The
/// entry names the sender, whichever way the message went.
pub fn format_log_entry_at(
    timestamp: &str,
    sender_name: &str,
    sender_ip: &str,
    receiver_name: &str,
    receiver_ip: &str,
    message: &str,
    is_outgoing: bool,
) -> (entry: String)
    ensures
        entry@ == log_entry_text(timestamp@, sender_name@, sender_ip@, message@),
{
    let mut entry = String::from_str("[");
    entry.append(timestamp);
    entry.append("] ");
    entry.append(sender_name);
    entry.append(" (");
    entry.append(sender_ip);
    entry.append("): ");
    entry.append(message);
    entry.append("\n");
    entry
}

/// Writes the entry of one chat message at the local time of day, whatever
/// that is.
pub fn format_log_entry(
    sender_name: &str,
    sender_ip: &str,
    receiver_name: &str,
    receiver_ip: &str,
    message: &str,
    is_outgoing: bool,
) -> (entry: String)
    ensures
        exists|timestamp: Seq<char>|
            entry@ == #[trigger] log_entry_text(timestamp, sender_name@, sender_ip@, message@),
{
    let timestamp = ClockReading::now().time;
    let entry = format_log_entry_at(
        timestamp.as_str(),
        sender_name,
        sender_ip,
        receiver_name,
        receiver_ip,
        message,
        is_outgoing,
    );
    assert(entry@ == log_entry_text(timestamp@, sender_name@, sender_ip@, message@));
    entry
}

/// Writes the entry that opens a session, given the date and time as text.
pub fn log_session_start_at(user_name: &str, user_ip: &str, when: &str) -> (entry: String)
    ensures
        entry@ == session_start_text(user_name@, user_ip@, when@),
{
    let mut entry = String::from_str("\n--- Session Started ---\nLocal User: ");
    entry.append(user_name);
    entry.append(" (");
    entry.append(user_ip);
    entry.append(")\nTime: ");
    entry.append(when);
    entry.append("\n------------------------------\n");
    entry
}

/// Writes the entry that opens a session at the local date and time,
/// whatever they are.
pub fn log_session_start(user_name: &str, user_ip: &str) -> (entry: String)
    ensures
        exists|date: Seq<char>, time: Seq<char>|
            entry@ == session_start_text(
                user_name@,
                user_ip@,
                #[trigger] date_and_time_text(date, time),
            ),
{
    let reading = ClockReading::now();
    let when = reading.date_and_time();
    let entry = log_session_start_at(user_name, user_ip, when.as_str());
    assert(entry@ == session_start_text(
        user_name@,
        user_ip@,
        date_and_time_text(reading.date@, reading.time@),
    ));
    entry
}

/// Writes the entry that names the two sides of a chat, given the date and
/// time as text.
pub fn log_chat_participants_at(
    local_user: &str,
    local_ip: &str,
    remote_user: &str,
    remote_ip: &str,
    when: &str,
) -> (entry: String)
    ensures
        entry@ == chat_participants_text(local_user@, local_ip@, remote_user@, remote_ip@, when@),
{
    let mut entry = String::from_str("\n--- Chat Participants ---\nLocal: ");
    entry.append(local_user);
    entry.append(" (");
    entry.append(local_ip);
    entry.append(")\nRemote: ");
    entry.append(remote_user);
    entry.append(" (");
    entry.append(remote_ip);
    entry.append(")\nTime: ");
    entry.append(when);
    entry.append("\n-------------------------\n");
    entry
}

/// Writes the entry that names the two sides of a chat at the local date and
/// time, whatever they are.
pub fn log_chat_participants(
    local_user: &str,
    local_ip: &str,
    remote_user: &str,
    remote_ip: &str,
) -> (entry: String)
    ensures
        exists|date: Seq<char>, time: Seq<char>|
            entry@ == chat_participants_text(
                local_user@,
                local_ip@,
                remote_user@,
                remote_ip@,
                #[trigger] date_and_time_text(date, time),
            ),
{
    let reading = ClockReading::now();
    let when = reading.date_and_time();
    let entry = log_chat_participants_at(local_user, local_ip, remote_user, remote_ip, when.as_str());
    assert(entry@ == chat_participants_text(
        local_user@,
        local_ip@,
        remote_user@,
        remote_ip@,
        date_and_time_text(reading.date@, reading.time@),
    ));
    entry
}

/// Writes the lines at the head of a new log file, given the date and the
/// time of day as text.
pub fn log_file_header_at(date: &str, time: &str) -> (header: String)
    ensures
        header@ == log_header_text(date@, time@),
{
    let mut header = String::from_str("=== Roundtable Chat Log ===\nDate: ");
    header.append(date);
    header.append("\nLog started at: ");
    header.append(time);
    header.append("\n==================================================\n");
    header
}

/// Writes the lines at the head of a new log file for the local date and
/// time of day, whatever they are, both taken from one reading of the clock.
pub fn log_file_header() -> (header: String)
    ensures
        exists|date: Seq<char>, time: Seq<char>| header@ == #[trigger] log_header_text(date, time),
{
    let reading = ClockReading::now();
    let header = log_file_header_at(reading.date.as_str(), reading.time.as_str());
    assert(header@ == log_header_text(reading.date@, reading.time@));
    header
}

} // verus!
