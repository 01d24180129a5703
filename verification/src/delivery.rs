//! What the sender's division and the receiver's reassembly guarantee
//! together, whatever the network does to the order of the chunks.

use vstd::prelude::*;
use vstd::set_lib::lemma_subset_equality;
use crate::chunk_store::{
    accept_chunk, assemble, assemble_below, is_fresh, lemma_assemble_gap,
    lemma_assemble_insert_above, sweep, ChunkEntry,
};
use crate::splitter::{concat_all, lemma_split_concat, split_text};

verus! {

/// One chunk reaching the receiver: which piece it carries and when it came.
pub struct Arrival {
    pub index: u16,
    pub at: u64,
}

/// What the receiver stores for an arrival.
pub open spec fn entry_of(pieces: Seq<Seq<char>>, arrival: Arrival) -> ChunkEntry {
    ChunkEntry { content: pieces[arrival.index as int], received_at: arrival.at }
}

/// The pending state after a run of arrivals for one chunk id, and what each
/// arrival completed. Every chunk declares `pieces.len()` as the total.
pub open spec fn deliver(
    chunks: Map<Seq<char>, Map<u16, ChunkEntry>>,
    chunk_id: Seq<char>,
    pieces: Seq<Seq<char>>,
    arrivals: Seq<Arrival>,
) -> (Map<Seq<char>, Map<u16, ChunkEntry>>, Seq<Option<Seq<char>>>)
    decreases arrivals.len(),
{
    if arrivals.len() == 0 {
        (chunks, Seq::empty())
    } else {
        let before = deliver(chunks, chunk_id, pieces, arrivals.drop_last());
        let step = accept_chunk(
            before.0,
            chunk_id,
            arrivals.last().index,
            pieces.len() as u16,
            entry_of(pieces, arrivals.last()),
        );
        (step.0, before.1.push(step.1))
    }
}

/// The distinct indices among a run of arrivals.
pub open spec fn indices_seen(arrivals: Seq<Arrival>) -> Set<u16>
    decreases arrivals.len(),
{
    if arrivals.len() == 0 {
        Set::empty()
    } else {
        indices_seen(arrivals.drop_last()).insert(arrivals.last().index)
    }
}

/// What the receiver holds after a run of arrivals none of which completed
/// the message.
pub open spec fn held(pieces: Seq<Seq<char>>, arrivals: Seq<Arrival>) -> Map<u16, ChunkEntry>
    decreases arrivals.len(),
{
    if arrivals.len() == 0 {
        Map::empty()
    } else {
        held(pieces, arrivals.drop_last()).insert(
            arrivals.last().index,
            entry_of(pieces, arrivals.last()),
        )
    }
}

/// The indices below `n`.
pub open spec fn below(n: nat) -> Set<u16> {
    Set::new(|k: u16| k < n)
}

proof fn lemma_below(n: nat)
    requires
        n <= 65536,
    ensures
        below(n).finite(),
        below(n).len() == n,
    decreases n,
{
    if n == 0 {
        assert(below(0) =~= Set::<u16>::empty());
    } else {
        lemma_below((n - 1) as nat);
        assert(below(n) =~= below((n - 1) as nat).insert((n - 1) as u16));
    }
}

proof fn lemma_held(pieces: Seq<Seq<char>>, arrivals: Seq<Arrival>)
    requires
        forall|i: int| 0 <= i < arrivals.len() ==> (#[trigger] arrivals[i]).index < pieces.len(),
    ensures
        indices_seen(arrivals).finite(),
        held(pieces, arrivals).dom() == indices_seen(arrivals),
        indices_seen(arrivals).subset_of(below(pieces.len())),
        arrivals.len() > 0 ==> indices_seen(arrivals.drop_last()).len() <= indices_seen(
            arrivals,
        ).len(),
        forall|k: u16| #[trigger]
            held(pieces, arrivals).contains_key(k) ==> held(pieces, arrivals)[k].content
                == pieces[k as int],
    decreases arrivals.len(),
{
    if arrivals.len() > 0 {
        let init = arrivals.drop_last();
        assert forall|i: int| 0 <= i < init.len() implies (#[trigger] init[i]).index
            < pieces.len() by {
            assert(init[i] == arrivals[i]);
        }
        lemma_held(pieces, init);
        assert(arrivals[arrivals.len() - 1].index < pieces.len());
        assert(held(pieces, arrivals).dom() =~= indices_seen(arrivals));
    } else {
        assert(held(pieces, arrivals).dom() =~= indices_seen(arrivals));
    }
}

/// Chunks held under every index below their number assemble to the pieces
/// joined in order.
pub proof fn lemma_assemble_complete(parts: Map<u16, ChunkEntry>, pieces: Seq<Seq<char>>)
    requires
        pieces.len() <= 65536,
        parts.dom() == below(pieces.len()),
        forall|k: u16| #[trigger] parts.contains_key(k) ==> parts[k].content == pieces[k as int],
    ensures
        assemble(parts) == concat_all(pieces),
{
    lemma_assemble_prefix(parts, pieces, pieces.len());
    assert(pieces.take(pieces.len() as int) =~= pieces);
    assert forall|k: u16| pieces.len() <= k < 65536 implies !parts.contains_key(k) by {
        assert(!below(pieces.len()).contains(k));
    }
    lemma_assemble_gap(parts, pieces.len(), 65536);
}

proof fn lemma_assemble_prefix(parts: Map<u16, ChunkEntry>, pieces: Seq<Seq<char>>, n: nat)
    requires
        n <= pieces.len() <= 65536,
        parts.dom() == below(pieces.len()),
        forall|k: u16| #[trigger] parts.contains_key(k) ==> parts[k].content == pieces[k as int],
    ensures
        assemble_below(parts, n) == concat_all(pieces.take(n as int)),
    decreases n,
{
    if n == 0 {
        assert(pieces.take(0) =~= Seq::<Seq<char>>::empty());
    } else {
        lemma_assemble_prefix(parts, pieces, (n - 1) as nat);
        let k = (n - 1) as u16;
        assert(below(pieces.len()).contains(k));
        assert(parts.contains_key(k));
        assert(pieces.take(n as int).drop_last() =~= pieces.take(n - 1));
        assert(pieces.take(n as int).last() == pieces[n - 1]);
    }
}

proof fn lemma_pending_run(
    chunks: Map<Seq<char>, Map<u16, ChunkEntry>>,
    chunk_id: Seq<char>,
    pieces: Seq<Seq<char>>,
    arrivals: Seq<Arrival>,
)
    requires
        !chunks.contains_key(chunk_id),
        0 < pieces.len() <= 65535,
        forall|i: int| 0 <= i < arrivals.len() ==> (#[trigger] arrivals[i]).index < pieces.len(),
        indices_seen(arrivals).len() < pieces.len(),
    ensures
        deliver(chunks, chunk_id, pieces, arrivals).1.len() == arrivals.len(),
        forall|i: int|
            0 <= i < arrivals.len() ==> (#[trigger] deliver(chunks, chunk_id, pieces, arrivals).1[i])
                is None,
        deliver(chunks, chunk_id, pieces, arrivals).0 == if arrivals.len() == 0 {
            chunks
        } else {
            chunks.insert(chunk_id, held(pieces, arrivals))
        },
    decreases arrivals.len(),
{
    if arrivals.len() > 0 {
        let init = arrivals.drop_last();
        assert forall|i: int| 0 <= i < init.len() implies (#[trigger] init[i]).index
            < pieces.len() by {
            assert(init[i] == arrivals[i]);
        }
        lemma_held(pieces, arrivals);
        lemma_held(pieces, init);
        lemma_pending_run(chunks, chunk_id, pieces, init);
        let before = deliver(chunks, chunk_id, pieces, init);
        let parts = held(pieces, arrivals);
        assert(parts.len() == indices_seen(arrivals).len());
        let after = deliver(chunks, chunk_id, pieces, arrivals);
        assert(after.0 =~= chunks.insert(chunk_id, parts));
        assert forall|i: int| 0 <= i < arrivals.len() implies (#[trigger] after.1[i]) is None by {
            if i < init.len() {
                assert(after.1[i] == before.1[i]);
            }
        }
    }
}

/// However the chunks of a message arrive (in any order, any of them more
/// than once), nothing is delivered until every index has been seen, and the
/// arrival that brings the last missing index delivers the pieces joined in
/// the order of their indices. The chunk id is then forgotten.
pub proof fn lemma_delivery_in_any_order(
    chunks: Map<Seq<char>, Map<u16, ChunkEntry>>,
    chunk_id: Seq<char>,
    pieces: Seq<Seq<char>>,
    arrivals: Seq<Arrival>,
)
    requires
        !chunks.contains_key(chunk_id),
        0 < pieces.len() <= 65535,
        arrivals.len() > 0,
        forall|i: int| 0 <= i < arrivals.len() ==> (#[trigger] arrivals[i]).index < pieces.len(),
        indices_seen(arrivals).len() == pieces.len(),
        indices_seen(arrivals.drop_last()).len() < pieces.len(),
    ensures
        deliver(chunks, chunk_id, pieces, arrivals).1.len() == arrivals.len(),
        forall|i: int|
            0 <= i < arrivals.len() - 1 ==> (#[trigger] deliver(
                chunks,
                chunk_id,
                pieces,
                arrivals,
            ).1[i]) is None,
        deliver(chunks, chunk_id, pieces, arrivals).1.last() == Some(concat_all(pieces)),
        deliver(chunks, chunk_id, pieces, arrivals).0 == chunks,
{
    let init = arrivals.drop_last();
    assert forall|i: int| 0 <= i < init.len() implies (#[trigger] init[i]).index
        < pieces.len() by {
        assert(init[i] == arrivals[i]);
    }
    lemma_pending_run(chunks, chunk_id, pieces, init);
    lemma_held(pieces, arrivals);
    let before = deliver(chunks, chunk_id, pieces, init);
    let after = deliver(chunks, chunk_id, pieces, arrivals);
    let parts = held(pieces, arrivals);
    assert(parts.len() == pieces.len());
    lemma_below(pieces.len());
    lemma_subset_equality(indices_seen(arrivals), below(pieces.len()));
    lemma_assemble_complete(parts, pieces);
    assert(after.0 =~= chunks);
    assert forall|i: int| 0 <= i < arrivals.len() - 1 implies (#[trigger] after.1[i]) is None by {
        assert(after.1[i] == before.1[i]);
    }
}

/// A text divided into chunks and reassembled from them, in whatever order
/// they arrive, is the same text.
pub proof fn lemma_split_then_reassemble(
    chunks: Map<Seq<char>, Map<u16, ChunkEntry>>,
    chunk_id: Seq<char>,
    text: Seq<char>,
    arrivals: Seq<Arrival>,
)
    requires
        !chunks.contains_key(chunk_id),
        0 < split_text(text).len() <= 65535,
        arrivals.len() > 0,
        forall|i: int|
            0 <= i < arrivals.len() ==> (#[trigger] arrivals[i]).index < split_text(text).len(),
        indices_seen(arrivals).len() == split_text(text).len(),
        indices_seen(arrivals.drop_last()).len() < split_text(text).len(),
    ensures
        deliver(chunks, chunk_id, split_text(text), arrivals).1.last() == Some(text),
        forall|i: int|
            0 <= i < arrivals.len() - 1 ==> (#[trigger] deliver(
                chunks,
                chunk_id,
                split_text(text),
                arrivals,
            ).1[i]) is None,
        deliver(chunks, chunk_id, split_text(text), arrivals).0 == chunks,
{
    lemma_delivery_in_any_order(chunks, chunk_id, split_text(text), arrivals);
    lemma_split_concat(text);
}

/// A sweep leaves no chunk as old as the timeout.
pub proof fn lemma_sweep_drops_stale(
    chunks: Map<Seq<char>, Map<u16, ChunkEntry>>,
    now: u64,
    chunk_id: Seq<char>,
    index: u16,
)
    requires
        sweep(chunks, now).contains_key(chunk_id),
        sweep(chunks, now)[chunk_id].contains_key(index),
    ensures
        chunks.contains_key(chunk_id),
        chunks[chunk_id].contains_key(index),
        sweep(chunks, now)[chunk_id][index] == chunks[chunk_id][index],
        is_fresh(chunks[chunk_id][index], now),
{
}

/// Once a sweep has found every chunk of a chunk id too old, the chunk id is
/// gone, and a chunk that arrives for it afterwards starts from nothing: it
/// is held alone, or delivered alone if it declares itself the only one.
pub proof fn lemma_swept_state_stays_gone(
    chunks: Map<Seq<char>, Map<u16, ChunkEntry>>,
    now: u64,
    chunk_id: Seq<char>,
    index: u16,
    total: u16,
    entry: ChunkEntry,
)
    requires
        chunks.contains_key(chunk_id) ==> forall|k: u16| #[trigger]
            chunks[chunk_id].contains_key(k) ==> !is_fresh(chunks[chunk_id][k], now),
    ensures
        !sweep(chunks, now).contains_key(chunk_id),
        total != 1 ==> accept_chunk(sweep(chunks, now), chunk_id, index, total, entry) == (
            sweep(chunks, now).insert(chunk_id, Map::<u16, ChunkEntry>::empty().insert(index, entry)),
            None::<Seq<char>>,
        ),
        total == 1 ==> accept_chunk(sweep(chunks, now), chunk_id, index, total, entry) == (
            sweep(chunks, now),
            Some(entry.content),
        ),
{
    let swept = sweep(chunks, now);
    let alone = Map::<u16, ChunkEntry>::empty().insert(index, entry);
    assert(alone.dom() =~= Set::<u16>::empty().insert(index));
    assert(alone.len() == 1);
    lemma_assemble_insert_above(Map::<u16, ChunkEntry>::empty(), index, entry);
    lemma_assemble_gap(Map::<u16, ChunkEntry>::empty(), 0, 65536);
    assert(assemble(alone) =~= entry.content);
    assert(swept.remove(chunk_id) =~= swept);
}

/// The record of delivered messages after more identifiers are marked.
pub open spec fn mark_all(processed: Set<Seq<char>>, ids: Seq<Seq<char>>) -> Set<Seq<char>>
    decreases ids.len(),
{
    if ids.len() == 0 {
        processed
    } else {
        mark_all(processed, ids.drop_last()).insert(ids.last())
    }
}

/// An identifier marked once is found marked ever after, whatever else is
/// marked later.
pub proof fn lemma_marked_stays_marked(
    processed: Set<Seq<char>>,
    id: Seq<char>,
    later: Seq<Seq<char>>,
)
    ensures
        mark_all(processed.insert(id), later).contains(id),
    decreases later.len(),
{
    if later.len() > 0 {
        lemma_marked_stays_marked(processed, id, later.drop_last());
    }
}

} // verus!
