//! Identifiers of messages and of chunked transmissions, and the text of
//! socket addresses.

use vstd::prelude::*;
use vstd::string::StringExecFns;
use crate::decimal::{decimal, is_digit, lemma_decimal_digits, lemma_decimal_injective, render_decimal};

verus! {

/// Three numbers in decimal notation, joined by hyphens.
pub open spec fn triple_text(a: nat, b: nat, c: nat) -> Seq<char> {
    decimal(a) + seq!['-'] + decimal(b) + seq!['-'] + decimal(c)
}

/// The identifier under which a chat message is remembered as delivered.
pub open spec fn message_id_text(sender_id: u64, target_id: u64, timestamp: u64) -> Seq<char> {
    triple_text(sender_id as nat, target_id as nat, timestamp as nat)
}

/// The identifier shared by the chunks of one divided message.
pub open spec fn chunk_id_text(sender_id: u64, target_id: u64, random_id: u32) -> Seq<char> {
    triple_text(sender_id as nat, target_id as nat, random_id as nat)
}

/// A host and a port, joined by a colon.
pub open spec fn address_text(host: Seq<char>, port: u16) -> Seq<char> {
    host + seq![':'] + decimal(port as nat)
}

/// A text of digits followed by a hyphen determines where the hyphen stands:
/// two such texts that agree have the same digits and the same remainder.
proof fn lemma_first_hyphen(x: Seq<char>, r1: Seq<char>, y: Seq<char>, r2: Seq<char>)
    requires
        forall|i: int| 0 <= i < x.len() ==> is_digit(#[trigger] x[i]),
        forall|i: int| 0 <= i < y.len() ==> is_digit(#[trigger] y[i]),
        x + seq!['-'] + r1 == y + seq!['-'] + r2,
    ensures
        x == y,
        r1 == r2,
{
    let l = x + seq!['-'] + r1;
    let r = y + seq!['-'] + r2;
    assert(l[x.len() as int] == '-');
    assert(r[y.len() as int] == '-');
    if x.len() < y.len() {
        assert(r[x.len() as int] == y[x.len() as int]);
        assert(is_digit(y[x.len() as int]));
    }
    if y.len() < x.len() {
        assert(l[y.len() as int] == x[y.len() as int]);
        assert(is_digit(x[y.len() as int]));
    }
    assert(x =~= l.subrange(0, x.len() as int));
    assert(y =~= r.subrange(0, y.len() as int));
    assert(r1 =~= l.subrange(x.len() as int + 1, l.len() as int));
    assert(r2 =~= r.subrange(y.len() as int + 1, r.len() as int));
}

/// Distinct triples of numbers never share a joined text.
pub proof fn lemma_triple_text_injective(a1: nat, b1: nat, c1: nat, a2: nat, b2: nat, c2: nat)
    requires
        triple_text(a1, b1, c1) == triple_text(a2, b2, c2),
    ensures
        a1 == a2,
        b1 == b2,
        c1 == c2,
{
    lemma_decimal_digits(a1);
    lemma_decimal_digits(a2);
    lemma_decimal_digits(b1);
    lemma_decimal_digits(b2);
    let r1 = decimal(b1) + seq!['-'] + decimal(c1);
    let r2 = decimal(b2) + seq!['-'] + decimal(c2);
    assert(triple_text(a1, b1, c1) =~= decimal(a1) + seq!['-'] + r1);
    assert(triple_text(a2, b2, c2) =~= decimal(a2) + seq!['-'] + r2);
    lemma_first_hyphen(decimal(a1), r1, decimal(a2), r2);
    lemma_first_hyphen(decimal(b1), decimal(c1), decimal(b2), decimal(c2));
    lemma_decimal_injective(a1, a2);
    lemma_decimal_injective(b1, b2);
    lemma_decimal_injective(c1, c2);
}

/// Two chat messages that differ in sender, target or timestamp have
/// different identifiers.
pub proof fn lemma_message_ids_distinct(
    sender_a: u64,
    target_a: u64,
    timestamp_a: u64,
    sender_b: u64,
    target_b: u64,
    timestamp_b: u64,
)
    requires
        (sender_a, target_a, timestamp_a) != (sender_b, target_b, timestamp_b),
    ensures
        message_id_text(sender_a, target_a, timestamp_a) != message_id_text(
            sender_b,
            target_b,
            timestamp_b,
        ),
{
    if message_id_text(sender_a, target_a, timestamp_a) == message_id_text(
        sender_b,
        target_b,
        timestamp_b,
    ) {
        lemma_triple_text_injective(
            sender_a as nat,
            target_a as nat,
            timestamp_a as nat,
            sender_b as nat,
            target_b as nat,
            timestamp_b as nat,
        );
    }
}

/// Joins three numbers by hyphens.
fn join_triple(a: u64, b: u64, c: u64) -> (s: String)
    ensures
        s@ == triple_text(a as nat, b as nat, c as nat),
{
    proof {
        reveal_strlit("-");
    }
    let mut out = render_decimal(a);
    out.append("-");
    out.append(render_decimal(b).as_str());
    out.append("-");
    out.append(render_decimal(c).as_str());
    assert(out@ =~= triple_text(a as nat, b as nat, c as nat));
    out
}

/// Derives the identifier of a chat message from its sender, its target and
/// its timestamp.
pub fn message_id(sender_id: u64, target_id: u64, timestamp: u64) -> (id: String)
    ensures
        id@ == message_id_text(sender_id, target_id, timestamp),
{
    join_triple(sender_id, target_id, timestamp)
}

/// Derives the identifier shared by the chunks of one divided message.
pub fn chunk_id(sender_id: u64, target_id: u64, random_id: u32) -> (id: String)
    ensures
        id@ == chunk_id_text(sender_id, target_id, random_id),
{
    join_triple(sender_id, target_id, random_id as u64)
}

/// Writes a host and a port as one address.
pub fn socket_address(host: &str, port: u16) -> (addr: String)
    ensures
        addr@ == address_text(host@, port),
{
    proof {
        reveal_strlit(":");
    }
    let mut out = String::from_str(host);
    out.append(":");
    out.append(render_decimal(port as u64).as_str());
    assert(out@ =~= address_text(host@, port));
    out
}

/// The address that reaches every host of the local network on a port.
pub fn broadcast_address(port: u16) -> (addr: String)
    ensures
        addr@ == address_text("255.255.255.255"@, port),
{
    socket_address("255.255.255.255", port)
}

} // verus!
