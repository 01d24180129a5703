//! Reassembly of divided messages, and the record of messages delivered.
//!
//! The chunks of one divided message share a chunk id and carry an index each.
//! They may arrive in any order and more than once. The store keeps, for each
//! chunk id, the latest content received under each index; when the number of
//! distinct indices reaches the total a chunk declares, the contents are joined
//! in ascending order of index and the chunk id's state is dropped.
//!
//! Time is a reading of a monotonic clock in nanoseconds, handed in by the
//! caller.

use vstd::prelude::*;
use vstd::hash_set::StringHashSet;
use vstd::pervasive::VecAdditionalExecFns;
use vstd::string::StringExecFns;
use vstd::string::StringSliceAdditionalSpecFns;
use crate::limits::{CHUNK_TIMEOUT_NANOS, CHUNK_TIMEOUT_SECS, NANOS_PER_SEC};
use crate::splitter::lemma_encode_injective;

verus! {

/// What the store knows of one chunk: its text and when it arrived.
pub struct ChunkEntry {
    pub content: Seq<char>,
    pub received_at: u64,
}

/// One received chunk.
#[derive(Debug, Clone, PartialEq, Eq)]
pub struct ChunkData {
    pub content: String,
    pub timestamp: u64,
}

impl View for ChunkData {
    type V = ChunkEntry;

    open spec fn view(&self) -> ChunkEntry {
        ChunkEntry { content: self.content@, received_at: self.timestamp }
    }
}

/// The text of an optional string.
pub open spec fn option_text(s: Option<String>) -> Option<Seq<char>> {
    match s {
        Some(t) => Some(t@),
        None => None,
    }
}

/// The contents held under the indices below `bound`, joined in ascending
/// order of index.
pub open spec fn assemble_below(parts: Map<u16, ChunkEntry>, bound: nat) -> Seq<char>
    decreases bound,
{
    if bound == 0 {
        Seq::empty()
    } else {
        let k = (bound - 1) as u16;
        let head = assemble_below(parts, (bound - 1) as nat);
        if parts.contains_key(k) {
            head + parts[k].content
        } else {
            head
        }
    }
}

/// All contents, joined in ascending order of index.
pub open spec fn assemble(parts: Map<u16, ChunkEntry>) -> Seq<char> {
    assemble_below(parts, 65536)
}

/// What receiving one chunk does to the pending state, and the text it
/// completes, if any. The chunk replaces whatever was held under its index.
/// If the chunk id then holds exactly `total` indices, they are assembled and
/// the chunk id is forgotten; otherwise the state stays pending.
pub open spec fn accept_chunk(
    chunks: Map<Seq<char>, Map<u16, ChunkEntry>>,
    chunk_id: Seq<char>,
    index: u16,
    total: u16,
    entry: ChunkEntry,
) -> (Map<Seq<char>, Map<u16, ChunkEntry>>, Option<Seq<char>>) {
    let before = if chunks.contains_key(chunk_id) {
        chunks[chunk_id]
    } else {
        Map::empty()
    };
    let parts = before.insert(index, entry);
    if parts.len() == total {
        (chunks.remove(chunk_id), Some(assemble(parts)))
    } else {
        (chunks.insert(chunk_id, parts), None)
    }
}

/// Time passed since `since`, zero if the clock reads earlier than that.
pub open spec fn elapsed(now: u64, since: u64) -> nat {
    if now >= since {
        (now - since) as nat
    } else {
        0
    }
}

/// A chunk is kept by a sweep while it is younger than the timeout.
pub open spec fn is_fresh(entry: ChunkEntry, now: u64) -> bool {
    elapsed(now, entry.received_at) < CHUNK_TIMEOUT_NANOS
}

/// The timeout in the unit of the clock is the timeout in seconds: a chunk
/// is kept while fewer than `CHUNK_TIMEOUT_SECS` whole seconds' worth of
/// nanoseconds have passed since it arrived.
pub proof fn lemma_timeout_in_seconds(entry: ChunkEntry, now: u64)
    ensures
        CHUNK_TIMEOUT_NANOS == CHUNK_TIMEOUT_SECS * NANOS_PER_SEC,
        CHUNK_TIMEOUT_NANOS == 30_000_000_000,
        is_fresh(entry, now) <==> elapsed(now, entry.received_at) < CHUNK_TIMEOUT_SECS
            * 1_000_000_000,
        is_fresh(entry, now) <==> elapsed(now, entry.received_at) / (NANOS_PER_SEC as nat)
            < CHUNK_TIMEOUT_SECS,
{
}

/// True if a sweep keeps any chunk of `parts`.
pub open spec fn has_fresh(parts: Map<u16, ChunkEntry>, now: u64) -> bool {
    exists|k: u16| #[trigger] parts.contains_key(k) && is_fresh(parts[k], now)
}

/// The chunks of `parts` that a sweep keeps.
pub open spec fn fresh_parts(parts: Map<u16, ChunkEntry>, now: u64) -> Map<u16, ChunkEntry> {
    Map::new(|k: u16| parts.contains_key(k) && is_fresh(parts[k], now), |k: u16| parts[k])
}

/// The pending state after a sweep: every chunk as old as the timeout is
/// gone, and so is every chunk id left without chunks.
pub open spec fn sweep(chunks: Map<Seq<char>, Map<u16, ChunkEntry>>, now: u64) -> Map<
    Seq<char>,
    Map<u16, ChunkEntry>,
> {
    Map::new(
        |id: Seq<char>| chunks.contains_key(id) && has_fresh(chunks[id], now),
        |id: Seq<char>| fresh_parts(chunks[id], now),
    )
}

/// Two sets of chunks that agree below `bound` assemble alike below it.
pub proof fn lemma_assemble_agree(
    a: Map<u16, ChunkEntry>,
    b: Map<u16, ChunkEntry>,
    bound: nat,
)
    requires
        bound <= 65536,
        forall|k: u16| k < bound ==> a.contains_key(k) == b.contains_key(k),
        forall|k: u16| k < bound && a.contains_key(k) ==> a[k] == b[k],
    ensures
        assemble_below(a, bound) == assemble_below(b, bound),
    decreases bound,
{
    if bound > 0 {
        lemma_assemble_agree(a, b, (bound - 1) as nat);
    }
}

/// Indices that hold nothing add nothing.
pub proof fn lemma_assemble_gap(parts: Map<u16, ChunkEntry>, from: nat, bound: nat)
    requires
        from <= bound <= 65536,
        forall|k: u16| from <= k < bound ==> !parts.contains_key(k),
    ensures
        assemble_below(parts, bound) == assemble_below(parts, from),
    decreases bound,
{
    if bound > from {
        lemma_assemble_gap(parts, from, (bound - 1) as nat);
    }
}

/// A chunk above all others is assembled last.
pub proof fn lemma_assemble_insert_above(parts: Map<u16, ChunkEntry>, index: u16, entry: ChunkEntry)
    requires
        forall|k: u16| parts.contains_key(k) ==> k < index,
    ensures
        assemble(parts.insert(index, entry)) == assemble(parts) + entry.content,
{
    let more = parts.insert(index, entry);
    lemma_assemble_gap(more, index as nat + 1, 65536);
    lemma_assemble_agree(more, parts, index as nat);
    lemma_assemble_gap(parts, index as nat, 65536);
    assert(((index as nat + 1) - 1) as u16 == index);
}

struct Part {
    index: u16,
    data: ChunkData,
}

struct PendingMessage {
    chunk_id: String,
    parts: Vec<Part>,
}

/// Strictly ascending indices.
spec fn ascending(parts: Seq<Part>) -> bool {
    forall|i: int, j: int| 0 <= i < j < parts.len() ==> parts[i].index < parts[j].index
}

spec fn parts_map(parts: Seq<Part>) -> Map<u16, ChunkEntry>
    decreases parts.len(),
{
    if parts.len() == 0 {
        Map::empty()
    } else {
        parts_map(parts.drop_last()).insert(parts.last().index, parts.last().data@)
    }
}

/// The contents of the first `n` parts, joined in the order they stand in.
spec fn joined(parts: Seq<Part>, n: nat) -> Seq<char>
    decreases n,
{
    if n == 0 {
        Seq::empty()
    } else {
        joined(parts, (n - 1) as nat) + parts[n - 1].data.content@
    }
}

proof fn lemma_parts_map(parts: Seq<Part>)
    requires
        ascending(parts),
    ensures
        parts_map(parts).dom().finite(),
        parts_map(parts).len() == parts.len(),
        forall|i: int|
            0 <= i < parts.len() ==> parts_map(parts).contains_key(#[trigger] parts[i].index)
                && parts_map(parts)[parts[i].index] == parts[i].data@,
        forall|k: u16| #[trigger]
            parts_map(parts).contains_key(k) ==> exists|i: int|
                0 <= i < parts.len() && #[trigger] parts[i].index == k,
    decreases parts.len(),
{
    if parts.len() > 0 {
        let init = parts.drop_last();
        let last = parts.last();
        lemma_parts_map(init);
        if parts_map(init).contains_key(last.index) {
            let i = choose|i: int| 0 <= i < init.len() && #[trigger] init[i].index == last.index;
            assert(parts[i].index < parts[parts.len() - 1].index);
        }
        assert forall|i: int| 0 <= i < parts.len() implies parts_map(parts).contains_key(
            #[trigger] parts[i].index,
        ) && parts_map(parts)[parts[i].index] == parts[i].data@ by {
            if i < parts.len() - 1 {
                assert(init[i] == parts[i]);
                assert(parts[i].index < parts[parts.len() - 1].index);
            }
        }
        assert forall|k: u16| #[trigger] parts_map(parts).contains_key(k) implies exists|i: int|
            0 <= i < parts.len() && #[trigger] parts[i].index == k by {
            if k == last.index {
                assert(parts[parts.len() - 1].index == k);
            } else {
                let i = choose|i: int| 0 <= i < init.len() && #[trigger] init[i].index == k;
                assert(parts[i].index == k);
            }
        }
    }
}

proof fn lemma_joined_prefix(a: Seq<Part>, b: Seq<Part>, n: nat)
    requires
        n <= a.len(),
        n <= b.len(),
        forall|i: int| 0 <= i < n ==> a[i] == b[i],
    ensures
        joined(a, n) == joined(b, n),
    decreases n,
{
    if n > 0 {
        lemma_joined_prefix(a, b, (n - 1) as nat);
    }
}

proof fn lemma_joined_is_assembled(parts: Seq<Part>)
    requires
        ascending(parts),
    ensures
        assemble(parts_map(parts)) == joined(parts, parts.len()),
    decreases parts.len(),
{
    if parts.len() == 0 {
        lemma_assemble_gap(parts_map(parts), 0, 65536);
    } else {
        let init = parts.drop_last();
        let last = parts.last();
        lemma_joined_is_assembled(init);
        lemma_parts_map(init);
        assert forall|k: u16| parts_map(init).contains_key(k) implies k < last.index by {
            let i = choose|i: int| 0 <= i < init.len() && #[trigger] init[i].index == k;
            assert(parts[i].index < parts[parts.len() - 1].index);
        }
        lemma_assemble_insert_above(parts_map(init), last.index, last.data@);
        lemma_joined_prefix(parts, init, init.len());
    }
}

spec fn distinct_ids(pending: Seq<PendingMessage>) -> bool {
    forall|i: int, j: int|
        0 <= i < pending.len() && 0 <= j < pending.len() && i != j ==> pending[i].chunk_id@
            != pending[j].chunk_id@
}

spec fn holds_id(pending: Seq<PendingMessage>, id: Seq<char>) -> bool {
    exists|i: int| 0 <= i < pending.len() && #[trigger] pending[i].chunk_id@ == id
}

spec fn slot_of(pending: Seq<PendingMessage>, id: Seq<char>) -> int {
    choose|i: int| 0 <= i < pending.len() && #[trigger] pending[i].chunk_id@ == id
}

spec fn pending_map(pending: Seq<PendingMessage>) -> Map<Seq<char>, Map<u16, ChunkEntry>> {
    Map::new(
        |id: Seq<char>| holds_id(pending, id),
        |id: Seq<char>| parts_map(pending[slot_of(pending, id)].parts@),
    )
}

spec fn sound(pending: Seq<PendingMessage>) -> bool {
    &&& distinct_ids(pending)
    &&& forall|i: int| 0 <= i < pending.len() ==> ascending(#[trigger] pending[i].parts@)
    &&& forall|i: int| 0 <= i < pending.len() ==> (#[trigger] pending[i]).parts.len() > 0
}

proof fn lemma_pending_map(pending: Seq<PendingMessage>)
    requires
        distinct_ids(pending),
    ensures
        forall|i: int|
            0 <= i < pending.len() ==> pending_map(pending).contains_key(
                #[trigger] pending[i].chunk_id@,
            ) && pending_map(pending)[pending[i].chunk_id@] == parts_map(pending[i].parts@),
{
    assert forall|i: int| 0 <= i < pending.len() implies pending_map(pending).contains_key(
        #[trigger] pending[i].chunk_id@,
    ) && pending_map(pending)[pending[i].chunk_id@] == parts_map(pending[i].parts@) by {
        let id = pending[i].chunk_id@;
        assert(holds_id(pending, id));
        assert(slot_of(pending, id) == i);
    }
}

proof fn lemma_pending_removed(pending: Seq<PendingMessage>, slot: int)
    requires
        sound(pending),
        0 <= slot < pending.len(),
    ensures
        sound(pending.remove(slot)),
        pending_map(pending.remove(slot)) == pending_map(pending).remove(pending[slot].chunk_id@),
{
    let rest = pending.remove(slot);
    let gone = pending[slot].chunk_id@;
    assert forall|i: int| 0 <= i < rest.len() implies rest[i] == pending[if i < slot {
        i
    } else {
        i + 1
    }] by {}
    assert(sound(rest)) by {
        assert forall|i: int, j: int|
            0 <= i < rest.len() && 0 <= j < rest.len() && i != j implies rest[i].chunk_id@
            != rest[j].chunk_id@ by {
            let a = if i < slot { i } else { i + 1 };
            let b = if j < slot { j } else { j + 1 };
            assert(pending[a].chunk_id@ != pending[b].chunk_id@);
        }
        assert forall|i: int| 0 <= i < rest.len() implies ascending(#[trigger] rest[i].parts@) by {
            let a = if i < slot { i } else { i + 1 };
            assert(ascending(pending[a].parts@));
        }
        assert forall|i: int| 0 <= i < rest.len() implies (#[trigger] rest[i]).parts.len() > 0 by {
            let a = if i < slot { i } else { i + 1 };
            assert(pending[a].parts.len() > 0);
        }
    }
    lemma_pending_map(pending);
    lemma_pending_map(rest);
    let left = pending_map(rest);
    let right = pending_map(pending).remove(gone);
    assert forall|id: Seq<char>| left.contains_key(id) implies right.contains_key(id) && left[id]
        == right[id] by {
        let i = slot_of(rest, id);
        let a = if i < slot { i } else { i + 1 };
        assert(rest[i] == pending[a]);
        assert(pending[a].chunk_id@ == id);
        assert(pending[a].chunk_id@ != pending[slot].chunk_id@);
    }
    assert forall|id: Seq<char>| right.contains_key(id) implies left.contains_key(id) by {
        let a = slot_of(pending, id);
        let i = if a < slot { a } else { a - 1 };
        assert(rest[i] == pending[a]);
        assert(rest[i].chunk_id@ == id);
    }
    assert(left =~= right);
}

proof fn lemma_pending_pushed(pending: Seq<PendingMessage>, added: PendingMessage)
    requires
        sound(pending),
        !holds_id(pending, added.chunk_id@),
        ascending(added.parts@),
        added.parts.len() > 0,
    ensures
        sound(pending.push(added)),
        pending_map(pending.push(added)) == pending_map(pending).insert(
            added.chunk_id@,
            parts_map(added.parts@),
        ),
{
    let more = pending.push(added);
    assert(sound(more)) by {
        assert forall|i: int, j: int|
            0 <= i < more.len() && 0 <= j < more.len() && i != j implies more[i].chunk_id@
            != more[j].chunk_id@ by {
            if i < pending.len() {
                assert(pending[i].chunk_id@ == more[i].chunk_id@);
            }
            if j < pending.len() {
                assert(pending[j].chunk_id@ == more[j].chunk_id@);
            }
        }
        assert forall|i: int| 0 <= i < more.len() implies ascending(#[trigger] more[i].parts@) by {
            if i < pending.len() {
                assert(more[i] == pending[i]);
            }
        }
        assert forall|i: int| 0 <= i < more.len() implies (#[trigger] more[i]).parts.len() > 0 by {
            if i < pending.len() {
                assert(more[i] == pending[i]);
            }
        }
    }
    lemma_pending_map(pending);
    lemma_pending_map(more);
    let left = pending_map(more);
    let right = pending_map(pending).insert(added.chunk_id@, parts_map(added.parts@));
    assert forall|id: Seq<char>| left.contains_key(id) implies right.contains_key(id) && left[id]
        == right[id] by {
        let i = slot_of(more, id);
        if i < pending.len() {
            assert(more[i] == pending[i]);
            assert(pending[i].chunk_id@ == id);
        }
    }
    assert forall|id: Seq<char>| right.contains_key(id) implies left.contains_key(id) by {
        if id == added.chunk_id@ {
            assert(more[pending.len() as int].chunk_id@ == id);
        } else {
            let a = slot_of(pending, id);
            assert(more[a].chunk_id@ == id);
        }
    }
    assert(left =~= right);
}

/// Puts a chunk into an ascending list, in place of the one with its index if
/// there is one.
fn place_part(parts: &mut Vec<Part>, index: u16, data: ChunkData)
    requires
        ascending(old(parts)@),
    ensures
        ascending(final(parts)@),
        parts_map(final(parts)@) == parts_map(old(parts)@).insert(index, data@),
        final(parts).len() > 0,
{
    let ghost before = parts@;
    let mut at: usize = 0;
    while at < parts.len() && parts[at].index < index
        invariant
            at <= parts.len(),
            parts@ == before,
            forall|j: int| 0 <= j < at ==> before[j].index < index,
        decreases parts.len() - at,
    {
        at += 1;
    }
    let replace = at < parts.len() && parts[at].index == index;
    let part = Part { index, data };
    if replace {
        parts.set(at, part);
    } else {
        parts.insert(at, part);
    }
    proof {
        let after = parts@;
        let p = at as int;
        assert(after[p] == part);
        assert forall|i: int, j: int| 0 <= i < j < after.len() implies after[i].index
            < after[j].index by {
            if replace {
                if i != p {
                    assert(after[i] == before[i]);
                }
                if j != p {
                    assert(after[j] == before[j]);
                }
                assert(before[i].index < before[j].index);
            } else {
                let a = if i < p { i } else { i - 1 };
                let b = if j < p { j } else { j - 1 };
                if i != p {
                    assert(after[i] == before[a]);
                }
                if j != p {
                    assert(after[j] == before[b]);
                }
                if i != p && j != p {
                    assert(before[a].index < before[b].index);
                }
                if i == p && p < before.len() {
                    assert(before[p].index <= before[b].index);
                }
            }
        }
        lemma_parts_map(before);
        lemma_parts_map(after);
        let left = parts_map(after);
        let right = parts_map(before).insert(index, data@);
        assert forall|k: u16| left.contains_key(k) implies right.contains_key(k) && left[k]
            == right[k] by {
            let i = choose|i: int| 0 <= i < after.len() && #[trigger] after[i].index == k;
            if i != p {
                let a = if replace || i < p { i } else { i - 1 };
                assert(after[i] == before[a]);
                assert(before[a].index == k);
            }
        }
        assert forall|k: u16| right.contains_key(k) implies left.contains_key(k) by {
            if k == index {
                assert(after[p].index == k);
            } else {
                let a = choose|a: int| 0 <= a < before.len() && #[trigger] before[a].index == k;
                let i = if replace || a < p { a } else { a + 1 };
                assert(after[i] == before[a]);
                assert(after[i].index == k);
            }
        }
        assert(left =~= right);
    }
}

/// Joins the contents of an ascending list.
fn join_parts(parts: &Vec<Part>) -> (text: String)
    requires
        ascending(parts@),
    ensures
        text@ == assemble(parts_map(parts@)),
{
    let mut text = String::new();
    let mut at: usize = 0;
    while at < parts.len()
        invariant
            at <= parts.len(),
            text@ == joined(parts@, at as nat),
        decreases parts.len() - at,
    {
        text.append(parts[at].data.content.as_str());
        at += 1;
    }
    proof {
        lemma_joined_is_assembled(parts@);
    }
    text
}

/// True if `part` stands in `parts` at `from` or later.
spec fn among(parts: Seq<Part>, from: int, part: Part) -> bool {
    exists|i: int| from <= i < parts.len() && #[trigger] parts[i] == part
}

/// Keeps the chunks younger than the timeout, in their order.
fn retain_fresh(parts: Vec<Part>, now: u64) -> (kept: Vec<Part>)
    requires
        ascending(parts@),
    ensures
        ascending(kept@),
        parts_map(kept@) == fresh_parts(parts_map(parts@), now),
        kept.len() > 0 <==> has_fresh(parts_map(parts@), now),
{
    let ghost before = parts@;
    let mut kept: Vec<Part> = Vec::new();
    let mut rest = parts;
    let mut reversed: Vec<Part> = Vec::new();
    assert(rest@ =~= before.take(rest.len() as int));
    while rest.len() > 0
        invariant
            rest@ == before.take(rest.len() as int),
            rest.len() <= before.len(),
            forall|j: int|
                0 <= j < reversed.len() ==> among(before, rest.len() as int, #[trigger] reversed[j]),
            forall|j: int| 0 <= j < reversed.len() ==> is_fresh((#[trigger] reversed[j]).data@, now),
            forall|i: int|
                rest.len() <= i < before.len() && is_fresh((#[trigger] before[i]).data@, now)
                    ==> among(reversed@, 0, before[i]),
            forall|i: int, j: int|
                0 <= i < j < reversed.len() ==> reversed[i].index > reversed[j].index,
            ascending(before),
        decreases rest.len(),
    {
        let ghost n = rest.len() as int;
        let ghost seen = reversed@;
        let part = rest.pop().unwrap();
        assert(part == before[n - 1]);
        let age = if now >= part.data.timestamp {
            now - part.data.timestamp
        } else {
            0
        };
        if age < CHUNK_TIMEOUT_NANOS {
            reversed.push(part);
        }
        proof {
            let grew = reversed.len() > seen.len();
            assert forall|j: int| 0 <= j < reversed.len() implies among(
                before,
                rest.len() as int,
                #[trigger] reversed[j],
            ) by {
                if j < seen.len() {
                    assert(among(before, n, seen[j]));
                    let a = choose|a: int| n <= a < before.len() && #[trigger] before[a] == seen[j];
                    assert(before[a] == reversed[j]);
                } else {
                    assert(before[n - 1] == reversed[j]);
                }
            }
            assert forall|i: int, j: int| 0 <= i < j < reversed.len() implies reversed[i].index
                > reversed[j].index by {
                if j == seen.len() {
                    assert(among(before, n, seen[i]));
                    let a = choose|a: int| n <= a < before.len() && #[trigger] before[a] == seen[i];
                    assert(before[n - 1].index < before[a].index);
                } else {
                    assert(seen[i].index > seen[j].index);
                }
            }
            assert forall|i: int|
                rest.len() <= i < before.len() && is_fresh(
                    (#[trigger] before[i]).data@,
                    now,
                ) implies among(reversed@, 0, before[i]) by {
                if i == n - 1 {
                    assert(grew);
                    assert(reversed[reversed.len() - 1] == before[i]);
                } else {
                    assert(among(seen, 0, before[i]));
                    let b = choose|b: int| 0 <= b < seen.len() && #[trigger] seen[b] == before[i];
                    assert(reversed[b] == before[i]);
                }
            }
            assert(rest@ =~= before.take(rest.len() as int));
        }
    }
    let ghost turned = reversed@;
    assert(reversed@ =~= turned.take(reversed.len() as int));
    while reversed.len() > 0
        invariant
            reversed@ == turned.take(reversed.len() as int),
            reversed.len() <= turned.len(),
            kept.len() == turned.len() - reversed.len(),
            forall|j: int| 0 <= j < kept.len() ==> kept[j] == turned[turned.len() - 1 - j],
        decreases reversed.len(),
    {
        let part = reversed.pop().unwrap();
        kept.push(part);
        assert(reversed@ =~= turned.take(reversed.len() as int));
    }
    proof {
        let m = turned.len() as int;
        assert forall|i: int, j: int| 0 <= i < j < kept.len() implies kept[i].index
            < kept[j].index by {
            assert(turned[m - 1 - j].index > turned[m - 1 - i].index);
        }
        lemma_parts_map(before);
        lemma_parts_map(kept@);
        let left = parts_map(kept@);
        let right = fresh_parts(parts_map(before), now);
        assert forall|k: u16| left.contains_key(k) implies right.contains_key(k) && left[k]
            == right[k] by {
            let j = choose|j: int| 0 <= j < kept.len() && #[trigger] kept[j].index == k;
            let t = m - 1 - j;
            assert(kept[j] == turned[t]);
            assert(is_fresh(turned[t].data@, now));
            assert(among(before, 0, turned[t]));
            let i = choose|i: int| 0 <= i < before.len() && #[trigger] before[i] == turned[t];
            assert(before[i].index == k);
        }
        assert forall|k: u16| right.contains_key(k) implies left.contains_key(k) by {
            let i = choose|i: int| 0 <= i < before.len() && #[trigger] before[i].index == k;
            assert(is_fresh(before[i].data@, now));
            assert(among(turned, 0, before[i]));
            let t = choose|t: int| 0 <= t < turned.len() && #[trigger] turned[t] == before[i];
            assert(kept[m - 1 - t] == turned[t]);
            assert(kept[m - 1 - t].index == k);
        }
        assert(left =~= right);
        if kept.len() > 0 {
            assert(left.contains_key(kept[0].index));
            assert(right.contains_key(kept[0].index));
            assert(parts_map(before).contains_key(kept[0].index) && is_fresh(
                parts_map(before)[kept[0].index],
                now,
            ));
        }
        if has_fresh(parts_map(before), now) {
            let k = choose|k: u16| #[trigger]
                parts_map(before).contains_key(k) && is_fresh(parts_map(before)[k], now);
            assert(right.contains_key(k));
            assert(left.contains_key(k));
        }
    }
    kept
}

/// True if `kept` is what a sweep leaves of a message that stands in `before`
/// at `from` or later.
spec fn swept_from(before: Seq<PendingMessage>, from: int, kept: PendingMessage, now: u64) -> bool {
    exists|i: int|
        from <= i < before.len() && #[trigger] before[i].chunk_id@ == kept.chunk_id@ && parts_map(
            kept.parts@,
        ) == fresh_parts(parts_map(before[i].parts@), now)
}

/// The chunks awaiting reassembly and the identifiers of the messages already
/// delivered.
pub struct ChunkManager {
    pending: Vec<PendingMessage>,
    processed_messages: StringHashSet,
}

impl ChunkManager {
    /// The pending chunks: for each chunk id, what is held under each index.
    pub closed spec fn chunks(&self) -> Map<Seq<char>, Map<u16, ChunkEntry>> {
        pending_map(self.pending@)
    }

    /// The identifiers of the messages already delivered.
    pub closed spec fn processed(&self) -> Set<Seq<char>> {
        self.processed_messages@
    }

    /// No chunk id is held twice, and none is held without chunks.
    pub closed spec fn wf(&self) -> bool {
        sound(self.pending@)
    }

    /// A store that holds nothing.
    pub fn new() -> (store: ChunkManager)
        ensures
            store.wf(),
            store.chunks() == Map::<Seq<char>, Map<u16, ChunkEntry>>::empty(),
            store.processed() == Set::<Seq<char>>::empty(),
    {
        let store = ChunkManager { pending: Vec::new(), processed_messages: StringHashSet::new() };
        assert(store.chunks() =~= Map::<Seq<char>, Map<u16, ChunkEntry>>::empty());
        store
    }

    fn find(&self, chunk_id: &str) -> (slot: Option<usize>)
        ensures
            match slot {
                Some(i) => i < self.pending.len() && self.pending[i as int].chunk_id@ == chunk_id@,
                None => !holds_id(self.pending@, chunk_id@),
            },
    {
        let mut at: usize = 0;
        while at < self.pending.len()
            invariant
                at <= self.pending.len(),
                forall|j: int| 0 <= j < at ==> self.pending[j].chunk_id@ != chunk_id@,
            decreases self.pending.len() - at,
        {
            if same_text(self.pending[at].chunk_id.as_str(), chunk_id) {
                return Some(at);
            }
            at += 1;
        }
        None
    }

    /// Receives one chunk at time `now`. Returns the whole text if this chunk
    /// completes its message.
    pub fn reassemble_chunks(
        &mut self,
        chunk_id: String,
        chunk_index: u16,
        total_chunks: u16,
        content: String,
        now: u64,
    ) -> (complete: Option<String>)
        requires
            old(self).wf(),
        ensures
            final(self).wf(),
            final(self).processed() == old(self).processed(),
            (final(self).chunks(), option_text(complete)) == accept_chunk(
                old(self).chunks(),
                chunk_id@,
                chunk_index,
                total_chunks,
                ChunkEntry { content: content@, received_at: now },
            ),
    {
        let ghost before = self.pending@;
        let data = ChunkData { content, timestamp: now };
        let slot = self.find(chunk_id.as_str());
        proof {
            lemma_pending_map(before);
        }
        let mut parts: Vec<Part> = match slot {
            Some(i) => {
                proof {
                    lemma_pending_removed(before, i as int);
                }
                let found = self.pending.remove(i);
                found.parts
            },
            None => {
                assert(pending_map(before).remove(chunk_id@) =~= pending_map(before));
                Vec::new()
            },
        };
        let ghost held = parts_map(parts@);
        let ghost rest = self.pending@;
        assert(pending_map(rest) == pending_map(before).remove(chunk_id@));
        assert(held == if pending_map(before).contains_key(chunk_id@) {
            pending_map(before)[chunk_id@]
        } else {
            Map::empty()
        });
        place_part(&mut parts, chunk_index, data);
        proof {
            lemma_parts_map(parts@);
        }
        if parts.len() == total_chunks as usize {
            let text = join_parts(&parts);
            Some(text)
        } else {
            let added = PendingMessage { chunk_id, parts };
            proof {
                assert(!holds_id(rest, chunk_id@)) by {
                    if holds_id(rest, chunk_id@) {
                        assert(pending_map(rest).contains_key(chunk_id@));
                    }
                }
                lemma_pending_pushed(rest, added);
                assert(pending_map(before).remove(chunk_id@).insert(chunk_id@, parts_map(parts@))
                    =~= pending_map(before).insert(chunk_id@, parts_map(parts@)));
            }
            self.pending.push(added);
            None
        }
    }

    /// Sweeps the pending chunks at time `now`: drops every chunk as old as
    /// the timeout and every chunk id left without chunks. The record of
    /// delivered messages is not touched.
    pub fn cleanup_old_chunks(&mut self, now: u64)
        requires
            old(self).wf(),
        ensures
            final(self).wf(),
            final(self).processed() == old(self).processed(),
            final(self).chunks() == sweep(old(self).chunks(), now),
    {
        let ghost before = self.pending@;
        let mut rest: Vec<PendingMessage> = Vec::new();
        std::mem::swap(&mut self.pending, &mut rest);
        let mut kept: Vec<PendingMessage> = Vec::new();
        assert(rest@ =~= before.take(rest.len() as int));
        while rest.len() > 0
            invariant
                sound(before),
                rest@ == before.take(rest.len() as int),
                rest.len() <= before.len(),
                sound(kept@),
                forall|j: int|
                    0 <= j < kept.len() ==> swept_from(
                        before,
                        rest.len() as int,
                        #[trigger] kept[j],
                        now,
                    ),
                forall|i: int|
                    rest.len() <= i < before.len() && has_fresh(
                        parts_map((#[trigger] before[i]).parts@),
                        now,
                    ) ==> holds_id(kept@, before[i].chunk_id@),
            decreases rest.len(),
        {
            let ghost n = rest.len() as int;
            let ghost seen = kept@;
            let message = rest.pop().unwrap();
            assert(message == before[n - 1]);
            assert(ascending(before[n - 1].parts@));
            let fresh = retain_fresh(message.parts, now);
            if fresh.len() > 0 {
                let added = PendingMessage { chunk_id: message.chunk_id, parts: fresh };
                proof {
                    if holds_id(seen, added.chunk_id@) {
                        let j = slot_of(seen, added.chunk_id@);
                        assert(swept_from(before, n, seen[j], now));
                        let i = choose|i: int|
                            n <= i < before.len() && #[trigger] before[i].chunk_id@
                                == seen[j].chunk_id@ && parts_map(seen[j].parts@) == fresh_parts(
                                parts_map(before[i].parts@),
                                now,
                            );
                        assert(before[i].chunk_id@ != before[n - 1].chunk_id@);
                    }
                    lemma_pending_pushed(seen, added);
                }
                kept.push(added);
            }
            proof {
                assert forall|j: int| 0 <= j < kept.len() implies swept_from(
                    before,
                    rest.len() as int,
                    #[trigger] kept[j],
                    now,
                ) by {
                    if j < seen.len() {
                        assert(swept_from(before, n, seen[j], now));
                        let i = choose|i: int|
                            n <= i < before.len() && #[trigger] before[i].chunk_id@
                                == seen[j].chunk_id@ && parts_map(seen[j].parts@) == fresh_parts(
                                parts_map(before[i].parts@),
                                now,
                            );
                        assert(before[i].chunk_id@ == kept[j].chunk_id@);
                    } else {
                        assert(before[n - 1].chunk_id@ == kept[j].chunk_id@);
                    }
                }
                assert forall|i: int|
                    rest.len() <= i < before.len() && has_fresh(
                        parts_map((#[trigger] before[i]).parts@),
                        now,
                    ) implies holds_id(kept@, before[i].chunk_id@) by {
                    if i == n - 1 {
                        assert(kept[kept.len() - 1].chunk_id@ == before[i].chunk_id@);
                    } else {
                        let j = slot_of(seen, before[i].chunk_id@);
                        assert(kept[j].chunk_id@ == before[i].chunk_id@);
                    }
                }
                assert(rest@ =~= before.take(rest.len() as int));
            }
        }
        proof {
            lemma_pending_map(before);
            lemma_pending_map(kept@);
            let left = pending_map(kept@);
            let right = sweep(pending_map(before), now);
            assert forall|id: Seq<char>| left.contains_key(id) implies right.contains_key(id)
                && left[id] == right[id] by {
                let j = slot_of(kept@, id);
                assert(swept_from(before, 0, kept[j], now));
                let i = choose|i: int|
                    0 <= i < before.len() && #[trigger] before[i].chunk_id@ == kept[j].chunk_id@
                        && parts_map(kept[j].parts@) == fresh_parts(
                        parts_map(before[i].parts@),
                        now,
                    );
                assert(pending_map(before)[before[i].chunk_id@] == parts_map(before[i].parts@));
                let fresh = parts_map(kept[j].parts@);
                assert(ascending(kept[j].parts@));
                lemma_parts_map(kept[j].parts@);
                assert(fresh.contains_key(kept[j].parts[0].index));
                assert(has_fresh(parts_map(before[i].parts@), now));
            }
            assert forall|id: Seq<char>| right.contains_key(id) implies left.contains_key(id) by {
                let i = slot_of(before, id);
                assert(pending_map(before)[before[i].chunk_id@] == parts_map(before[i].parts@));
                assert(holds_id(kept@, before[i].chunk_id@));
            }
            assert(left =~= right);
        }
        self.pending = kept;
    }

    /// Tells whether the message with this identifier was already delivered.
    pub fn is_processed(&self, message_id: &str) -> (seen: bool)
        ensures
            seen == self.processed().contains(message_id@),
    {
        self.processed_messages.contains(message_id)
    }

    /// Records the message with this identifier as delivered.
    pub fn mark_processed(&mut self, message_id: String)
        requires
            old(self).wf(),
        ensures
            final(self).wf(),
            final(self).chunks() == old(self).chunks(),
            final(self).processed() == old(self).processed().insert(message_id@),
    {
        self.processed_messages.insert(message_id);
    }

    /// Number of chunk ids with chunks pending.
    pub fn pending_messages(&self) -> (n: usize)
        requires
            self.wf(),
        ensures
            n == self.chunks().len(),
            self.chunks().dom().finite(),
    {
        proof {
            lemma_pending_count(self.pending@);
        }
        self.pending.len()
    }

    /// Number of chunks pending under a chunk id.
    pub fn pending_chunks(&self, chunk_id: &str) -> (n: usize)
        requires
            self.wf(),
        ensures
            n == if self.chunks().contains_key(chunk_id@) {
                self.chunks()[chunk_id@].len()
            } else {
                0
            },
    {
        proof {
            lemma_pending_map(self.pending@);
        }
        match self.find(chunk_id) {
            Some(i) => {
                proof {
                    lemma_parts_map(self.pending[i as int].parts@);
                }
                self.pending[i].parts.len()
            },
            None => 0,
        }
    }
}

/// Compares two texts, byte by byte.
fn same_text(a: &str, b: &str) -> (same: bool)
    ensures
        same == (a@ == b@),
{
    let x = a.as_bytes();
    let y = b.as_bytes();
    if x.len() != y.len() {
        return false;
    }
    let mut at: usize = 0;
    while at < x.len()
        invariant
            at <= x.len(),
            x.len() == y.len(),
            x@ == a.spec_bytes(),
            y@ == b.spec_bytes(),
            forall|j: int| 0 <= j < at ==> x@[j] == y@[j],
        decreases x.len() - at,
    {
        if x[at] != y[at] {
            assert(a.spec_bytes()[at as int] != b.spec_bytes()[at as int]);
            return false;
        }
        at += 1;
    }
    proof {
        assert(x@ =~= y@);
        lemma_encode_injective(a@, b@);
    }
    true
}

proof fn lemma_pending_count(pending: Seq<PendingMessage>)
    requires
        distinct_ids(pending),
    ensures
        pending_map(pending).dom().finite(),
        pending_map(pending).len() == pending.len(),
    decreases pending.len(),
{
    if pending.len() == 0 {
        assert(pending_map(pending).dom() =~= Set::<Seq<char>>::empty());
    } else {
        let init = pending.drop_last();
        let last = pending.last();
        assert(distinct_ids(init)) by {
            assert forall|i: int, j: int|
                0 <= i < init.len() && 0 <= j < init.len() && i != j implies init[i].chunk_id@
                != init[j].chunk_id@ by {
                assert(pending[i].chunk_id@ != pending[j].chunk_id@);
            }
        }
        lemma_pending_count(init);
        let left = pending_map(pending).dom();
        let right = pending_map(init).dom().insert(last.chunk_id@);
        assert forall|id: Seq<char>| left.contains(id) implies right.contains(id) by {
            let i = slot_of(pending, id);
            if i < init.len() {
                assert(init[i].chunk_id@ == id);
            }
        }
        assert forall|id: Seq<char>| right.contains(id) implies left.contains(id) by {
            if id == last.chunk_id@ {
                assert(pending[pending.len() - 1].chunk_id@ == id);
            } else {
                let i = slot_of(init, id);
                assert(pending[i].chunk_id@ == id);
            }
        }
        assert(left =~= right);
        if pending_map(init).dom().contains(last.chunk_id@) {
            let i = slot_of(init, last.chunk_id@);
            assert(pending[i].chunk_id@ == pending[pending.len() - 1].chunk_id@);
        }
    }
}

} // verus!
