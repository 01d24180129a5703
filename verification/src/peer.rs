//! A peer on the local network.

use vstd::prelude::*;
use vstd::string::{StrSliceExecFns, StringExecFns};
use crate::error::MessageError;
use crate::limits::MAX_NAME_CHARS;

verus! {

/// A peer as it announces itself. The address a peer reports for itself is not
/// trusted: a receiver replaces `ip` with the address the datagram came from.
#[derive(Debug, Clone, PartialEq, Eq)]
pub struct User {
    pub id: u64,
    pub name: String,
    pub username: String,
    pub ip: String,
    pub port: u16,
    pub profile_picture: Option<String>,
    pub hostname: Option<String>,
}

/// The cause for which a display name is refused, if it is.
pub open spec fn name_rejection(name: Seq<char>) -> Option<Seq<char>> {
    if name.len() == 0 {
        Some("Username cannot be empty"@)
    } else if name.len() > MAX_NAME_CHARS {
        Some("Username too long"@)
    } else {
        None
    }
}

/// Asks `hostname::get` for the name of this machine and keeps it if it is
/// valid Unicode. The name is the machine's own business: nothing is claimed
/// of it, nor that there is one.
#[verifier::external_body]
fn local_hostname() -> (name: Option<String>) {
    match hostname::get() {
        Ok(name) => name.into_string().ok(),
        Err(_) => None,
    }
}

/// What a node says of itself: the address is left for the receiver to fill
/// in, the port is the one its message socket listens on.
pub open spec fn is_self_description(
    user: User,
    id: u64,
    name: String,
    username: String,
    profile_picture: Option<String>,
    port: u16,
    hostname: Option<String>,
) -> bool {
    &&& user.id == id
    &&& user.name == name
    &&& user.username == username
    &&& user.ip@ == "0.0.0.0"@
    &&& user.port == port
    &&& user.profile_picture == profile_picture
    &&& user.hostname == hostname
}

/// Describes the local node, given the name of the machine it runs on.
pub fn describe_peer(
    id: u64,
    name: String,
    username: String,
    profile_picture: Option<String>,
    port: u16,
    hostname: Option<String>,
) -> (user: User)
    ensures
        is_self_description(user, id, name, username, profile_picture, port, hostname),
{
    User { id, name, username, ip: String::from_str("0.0.0.0"), port, profile_picture, hostname }
}

/// Describes the local node under the name the machine reports for itself,
/// whatever that is.
pub fn local_peer(
    id: u64,
    name: String,
    username: String,
    profile_picture: Option<String>,
    port: u16,
) -> (user: User)
    ensures
        is_self_description(user, id, name, username, profile_picture, port, user.hostname),
{
    describe_peer(id, name, username, profile_picture, port, local_hostname())
}

impl User {
    /// The cause for which this peer is refused, if it is: its display name is
    /// empty or longer than `MAX_NAME_CHARS` characters.
    pub open spec fn rejection(&self) -> Option<Seq<char>> {
        name_rejection(self.name@)
    }

    /// This peer with its address replaced.
    pub open spec fn with_ip(self, ip: String) -> User {
        User { ip, ..self }
    }

    /// Accepts a peer whose display name is non-empty and at most
    /// `MAX_NAME_CHARS` characters long.
    pub fn validate(&self) -> (res: Result<(), MessageError>)
        ensures
            res is Ok <==> self.rejection() is None,
            res matches Err(e) ==> e is InvalidData && self.rejection() == Some(e.cause()),
    {
        if self.name.as_str().is_empty() {
            return Err(MessageError::invalid("Username cannot be empty"));
        }
        if self.name.as_str().unicode_len() > MAX_NAME_CHARS {
            return Err(MessageError::invalid("Username too long"));
        }
        Ok(())
    }

    /// Replaces the address this peer reported with the one it was seen at.
    pub fn observed_at(self, ip: String) -> (u: User)
        ensures
            u == self.with_ip(ip),
    {
        User {
            id: self.id,
            name: self.name,
            username: self.username,
            ip,
            port: self.port,
            profile_picture: self.profile_picture,
            hostname: self.hostname,
        }
    }
}

} // verus!
