//! Helpers for checking by hand that a node and its sink are wired up.

use vstd::prelude::*;
use vstd::string::StringExecFns;
use crate::events::Event;
use crate::peer::User;

verus! {

/// What is written back to one who asks for an echo.
pub fn echo_test(input: &str) -> (reply: String)
    ensures
        reply@ == "Echo: "@ + input@,
{
    String::from_str("Echo: ").concat(input)
}

/// The report of a made-up peer coming online, for trying out the sink.
pub fn test_emit(message_port: u16) -> (event: Event)
    ensures
        event matches Event::UserOnline(user) && user.id == 12345 && user.name@ == "Test User"@
            && user.username@ == "testuser"@ && user.ip@ == "192.168.1.100"@ && user.port
            == message_port && user.profile_picture is None && (user.hostname matches Some(h)
            && h@ == "test-pc"@),
{
    Event::UserOnline(
        User {
            id: 12345,
            name: String::from_str("Test User"),
            username: String::from_str("testuser"),
            ip: String::from_str("192.168.1.100"),
            port: message_port,
            profile_picture: None,
            hostname: Some(String::from_str("test-pc")),
        },
    )
}

} // verus!
