//! Division of a long text into chunks.
//!
//! A chunk is the longest run of whole characters whose UTF-8 encoding fits in
//! `CHUNK_SIZE` bytes. No character is ever cut: every chunk is a text of its
//! own, and the chunks in order spell the text they were cut from.

use vstd::prelude::*;
use vstd::string::StringSliceAdditionalSpecFns;
use vstd::utf8::{
    decode_utf8, encode_scalar, encode_utf8, encode_utf8_decode_utf8, encode_utf8_first_scalar,
    encode_utf8_valid_utf8, is_ascii_chars, is_ascii_chars_encode_utf8, is_char_boundary,
    is_char_boundary_start_end_of_seq, pop_first_scalar, valid_utf8,
};
use crate::limits::CHUNK_SIZE;
use crate::message::byte_len;

verus! {

/// Number of bytes in the UTF-8 encoding of one character.
pub open spec fn char_width(c: char) -> nat {
    encode_scalar(c as u32).len()
}

/// Number of leading characters of `text` whose encoding fits in `budget`
/// bytes.
pub open spec fn fitting(text: Seq<char>, budget: nat) -> nat
    decreases text.len(),
{
    if text.len() == 0 {
        0
    } else if char_width(text[0]) > budget {
        0
    } else {
        1 + fitting(text.drop_first(), (budget - char_width(text[0])) as nat)
    }
}

/// The chunks of a text: each is the longest prefix of what remains that fits
/// in `CHUNK_SIZE` bytes.
pub open spec fn split_text(text: Seq<char>) -> Seq<Seq<char>>
    decreases text.len(),
{
    let n = fitting(text, CHUNK_SIZE as nat);
    if text.len() == 0 || n == 0 || n > text.len() {
        Seq::empty()
    } else {
        seq![text.take(n as int)] + split_text(text.skip(n as int))
    }
}

/// Texts joined in order.
pub open spec fn concat_all(pieces: Seq<Seq<char>>) -> Seq<char>
    decreases pieces.len(),
{
    if pieces.len() == 0 {
        Seq::empty()
    } else {
        concat_all(pieces.drop_last()) + pieces.last()
    }
}

/// The texts of a list of strings.
pub open spec fn texts(strings: Seq<String>) -> Seq<Seq<char>> {
    Seq::new(strings.len(), |i: int| strings[i]@)
}

/// Smallest number of chunks that could hold `bytes` bytes.
pub open spec fn full_chunks(bytes: nat) -> nat {
    ((bytes + CHUNK_SIZE - 1) / (CHUNK_SIZE as int)) as nat
}

/// A character takes one to four bytes.
pub proof fn lemma_char_width(c: char)
    ensures
        1 <= char_width(c) <= 4,
{
}

/// The encoding of a joined text is the joined encodings.
pub proof fn lemma_encode_concat(a: Seq<char>, b: Seq<char>)
    ensures
        encode_utf8(a + b) == encode_utf8(a) + encode_utf8(b),
    decreases a.len(),
{
    if a.len() == 0 {
        assert(a + b =~= b);
        assert(encode_utf8(a) + encode_utf8(b) =~= encode_utf8(b));
    } else {
        lemma_encode_concat(a.drop_first(), b);
        assert((a + b).drop_first() =~= a.drop_first() + b);
        assert(encode_utf8(a + b) =~= encode_utf8(a) + encode_utf8(b));
    }
}

/// A text of one character is encoded as that character is.
pub proof fn lemma_encode_single(c: char)
    ensures
        encode_utf8(seq![c]) == encode_scalar(c as u32),
        byte_len(seq![c]) == char_width(c),
{
    reveal_with_fuel(encode_utf8, 2);
    assert(seq![c].drop_first() =~= Seq::<char>::empty());
    assert(encode_utf8(seq![c]) =~= encode_scalar(c as u32));
}

/// The bytes of a prefix are the bytes of its first character and those of
/// the rest of the prefix.
pub proof fn lemma_prefix_bytes(text: Seq<char>, k: nat)
    requires
        k < text.len(),
    ensures
        byte_len(text.take(k as int + 1)) == char_width(text[0]) + byte_len(
            text.drop_first().take(k as int),
        ),
{
    let rest = text.drop_first();
    assert(text.take(k as int + 1) =~= seq![text[0]] + rest.take(k as int));
    lemma_encode_concat(seq![text[0]], rest.take(k as int));
    lemma_encode_single(text[0]);
}

/// Two texts with the same encoding are the same text.
pub proof fn lemma_encode_injective(a: Seq<char>, b: Seq<char>)
    requires
        encode_utf8(a) == encode_utf8(b),
    ensures
        a == b,
{
    encode_utf8_decode_utf8(a);
    encode_utf8_decode_utf8(b);
}

/// What `fitting` counts: the prefix fits, and one more character would not.
pub proof fn lemma_fitting(text: Seq<char>, budget: nat)
    ensures
        fitting(text, budget) <= text.len(),
        byte_len(text.take(fitting(text, budget) as int)) <= budget,
        fitting(text, budget) < text.len() ==> byte_len(text.take(fitting(text, budget) as int))
            + char_width(text[fitting(text, budget) as int]) > budget,
        text.len() > 0 && budget >= 4 ==> fitting(text, budget) >= 1,
    decreases text.len(),
{
    if text.len() == 0 {
        assert(text.take(0) =~= Seq::<char>::empty());
    } else if char_width(text[0]) > budget {
        assert(text.take(0) =~= Seq::<char>::empty());
        lemma_char_width(text[0]);
    } else {
        let w = char_width(text[0]);
        let rest = text.drop_first();
        let k = fitting(rest, (budget - w) as nat);
        lemma_fitting(rest, (budget - w) as nat);
        lemma_prefix_bytes(text, k);
        if k < rest.len() {
            assert(rest[k as int] == text[k as int + 1]);
        }
    }
}

/// The end of every prefix of whole characters is a character boundary of
/// the encoding.
pub proof fn lemma_prefix_is_boundary(text: Seq<char>, n: nat)
    requires
        n <= text.len(),
    ensures
        is_char_boundary(encode_utf8(text), byte_len(text.take(n as int)) as int),
    decreases text.len(),
{
    let bytes = encode_utf8(text);
    encode_utf8_valid_utf8(text);
    if n == 0 {
        assert(text.take(0) =~= Seq::<char>::empty());
    } else {
        let rest = text.drop_first();
        encode_utf8_first_scalar(text);
        assert(pop_first_scalar(bytes) =~= encode_utf8(rest));
        lemma_prefix_is_boundary(rest, (n - 1) as nat);
        lemma_prefix_bytes(text, (n - 1) as nat);
        lemma_char_width(text[0]);
        lemma_encode_concat(text.take(n as int), text.skip(n as int));
        assert(text.take(n as int) + text.skip(n as int) =~= text);
    }
}

/// No character boundary within the budget lies beyond the prefix that
/// `fitting` counts.
pub proof fn lemma_boundary_within_budget(text: Seq<char>, budget: nat, index: int)
    requires
        is_char_boundary(encode_utf8(text), index),
        0 <= index <= budget,
    ensures
        index <= byte_len(text.take(fitting(text, budget) as int)),
    decreases text.len(),
{
    let bytes = encode_utf8(text);
    encode_utf8_valid_utf8(text);
    if index > 0 {
        if text.len() == 0 {
            assert(bytes.len() == 0);
        } else {
            let rest = text.drop_first();
            let w = char_width(text[0]);
            encode_utf8_first_scalar(text);
            assert(pop_first_scalar(bytes) =~= encode_utf8(rest));
            encode_utf8_valid_utf8(rest);
            assert(is_char_boundary(encode_utf8(rest), index - w));
            if index - w < 0 {
                assert(!is_char_boundary(encode_utf8(rest), index - w));
            }
            lemma_boundary_within_budget(rest, (budget - w) as nat, index - w);
            let k = fitting(rest, (budget - w) as nat);
            lemma_fitting(rest, (budget - w) as nat);
            lemma_prefix_bytes(text, k);
        }
    }
}

/// Joining a text in front of joined texts.
pub proof fn lemma_concat_front(head: Seq<char>, tail: Seq<Seq<char>>)
    ensures
        concat_all(seq![head] + tail) == head + concat_all(tail),
    decreases tail.len(),
{
    let all = seq![head] + tail;
    if tail.len() == 0 {
        assert(all.drop_last() =~= Seq::<Seq<char>>::empty());
        assert(concat_all(all.drop_last()) =~= Seq::<char>::empty());
        assert(concat_all(tail) =~= Seq::<char>::empty());
        assert(concat_all(all) =~= head + concat_all(tail));
    } else {
        lemma_concat_front(head, tail.drop_last());
        assert(all.drop_last() =~= seq![head] + tail.drop_last());
        assert(all.last() == tail.last());
        assert(concat_all(all) =~= head + concat_all(tail));
    }
}

/// The chunks of a text, joined in order, are the text.
pub proof fn lemma_split_concat(text: Seq<char>)
    ensures
        concat_all(split_text(text)) == text,
    decreases text.len(),
{
    let n = fitting(text, CHUNK_SIZE as nat);
    lemma_fitting(text, CHUNK_SIZE as nat);
    if text.len() == 0 {
        assert(text =~= Seq::<char>::empty());
    } else {
        lemma_split_concat(text.skip(n as int));
        lemma_concat_front(text.take(n as int), split_text(text.skip(n as int)));
        assert(text.take(n as int) + text.skip(n as int) =~= text);
    }
}

/// No chunk is empty, and none is longer than `CHUNK_SIZE` bytes.
pub proof fn lemma_split_sizes(text: Seq<char>)
    ensures
        forall|i: int|
            0 <= i < split_text(text).len() ==> (#[trigger] split_text(text)[i]).len() > 0
                && byte_len(split_text(text)[i]) <= CHUNK_SIZE,
        text.len() > 0 ==> split_text(text).len() > 0,
    decreases text.len(),
{
    let n = fitting(text, CHUNK_SIZE as nat);
    lemma_fitting(text, CHUNK_SIZE as nat);
    if text.len() > 0 {
        lemma_split_sizes(text.skip(n as int));
        let pieces = split_text(text);
        let tail = split_text(text.skip(n as int));
        assert forall|i: int| 0 <= i < pieces.len() implies (#[trigger] pieces[i]).len() > 0
            && byte_len(pieces[i]) <= CHUNK_SIZE by {
            if i > 0 {
                assert(pieces[i] == tail[i - 1]);
            }
        }
    }
}

/// How many chunks a text has: no fewer than its bytes need at `CHUNK_SIZE`
/// bytes a chunk, and every chunk but the last holds more than `CHUNK_SIZE - 4`
/// bytes.
pub proof fn lemma_split_count(text: Seq<char>)
    ensures
        split_text(text).len() * CHUNK_SIZE >= byte_len(text),
        split_text(text).len() >= full_chunks(byte_len(text)),
        split_text(text).len() > 0 ==> (split_text(text).len() - 1) * (CHUNK_SIZE - 3) < byte_len(
            text,
        ),
    decreases text.len(),
{
    let n = fitting(text, CHUNK_SIZE as nat);
    lemma_fitting(text, CHUNK_SIZE as nat);
    if text.len() == 0 {
        assert(encode_utf8(text).len() == 0);
    } else {
        let head = text.take(n as int);
        let rest = text.skip(n as int);
        lemma_split_count(rest);
        lemma_encode_concat(head, rest);
        assert(head + rest =~= text);
        assert(byte_len(text) == byte_len(head) + byte_len(rest));
        let m = split_text(rest).len();
        assert(split_text(text).len() == m + 1);
        if n < text.len() {
            lemma_char_width(text[n as int]);
            lemma_split_sizes(rest);
            assert(byte_len(head) >= CHUNK_SIZE - 3);
            assert(m >= 1);
            assert(byte_len(rest) > (m - 1) * (CHUNK_SIZE - 3));
            assert((m + 1 - 1) * (CHUNK_SIZE - 3) == (m - 1) * (CHUNK_SIZE - 3) + (CHUNK_SIZE - 3))
                by (nonlinear_arith);
        } else {
            assert(rest =~= Seq::<char>::empty());
            assert(m == 0);
            assert(byte_len(head) > 0) by {
                lemma_char_width(text[0]);
                assert(head =~= text);
            }
        }
        assert((m + 1) * CHUNK_SIZE == m * CHUNK_SIZE + CHUNK_SIZE) by (nonlinear_arith);
        let total = split_text(text).len();
        assert(total >= full_chunks(byte_len(text))) by {
            assert(total * CHUNK_SIZE >= byte_len(text));
            assert((byte_len(text) + CHUNK_SIZE - 1) / (CHUNK_SIZE as int) <= total)
                by (nonlinear_arith)
                requires
                    total * CHUNK_SIZE >= byte_len(text),
                    CHUNK_SIZE == 2000,
            ;
        }
    }
}

/// A text whose every chunk but the last is full has exactly as many chunks
/// as its bytes need at `CHUNK_SIZE` bytes a chunk. Any text of one-byte
/// characters is such a text.
pub proof fn lemma_split_count_exact(text: Seq<char>)
    requires
        forall|i: int|
            0 <= i < split_text(text).len() - 1 ==> byte_len(#[trigger] split_text(text)[i])
                == CHUNK_SIZE,
    ensures
        split_text(text).len() == full_chunks(byte_len(text)),
    decreases text.len(),
{
    let n = fitting(text, CHUNK_SIZE as nat);
    lemma_fitting(text, CHUNK_SIZE as nat);
    lemma_split_sizes(text);
    if text.len() == 0 {
        assert(encode_utf8(text).len() == 0);
    } else {
        let head = text.take(n as int);
        let rest = text.skip(n as int);
        let pieces = split_text(text);
        let tail = split_text(rest);
        assert(pieces[0] == head);
        assert forall|i: int| 0 <= i < tail.len() - 1 implies byte_len(#[trigger] tail[i])
            == CHUNK_SIZE by {
            assert(pieces[i + 1] == tail[i]);
        }
        lemma_split_count_exact(rest);
        lemma_split_sizes(rest);
        lemma_encode_concat(head, rest);
        assert(head + rest =~= text);
        let m = tail.len();
        if m == 0 {
            assert(rest.len() == 0);
            assert(byte_len(rest) == 0);
            assert(0 < byte_len(head) <= CHUNK_SIZE);
        } else {
            assert(byte_len(head) == CHUNK_SIZE);
            assert(m == (byte_len(rest) + CHUNK_SIZE - 1) / (CHUNK_SIZE as int));
        }
    }
}

/// A text of one-byte characters has exactly as many chunks as its length
/// needs at `CHUNK_SIZE` characters a chunk.
pub proof fn lemma_split_count_ascii(text: Seq<char>)
    requires
        is_ascii_chars(text),
    ensures
        byte_len(text) == text.len(),
        split_text(text).len() == full_chunks(text.len()),
{
    is_ascii_chars_encode_utf8(text);
    lemma_all_but_last_full(text);
    lemma_split_count_exact(text);
}

proof fn lemma_all_but_last_full(text: Seq<char>)
    requires
        is_ascii_chars(text),
    ensures
        forall|i: int|
            0 <= i < split_text(text).len() - 1 ==> byte_len(#[trigger] split_text(text)[i])
                == CHUNK_SIZE,
    decreases text.len(),
{
    let n = fitting(text, CHUNK_SIZE as nat);
    lemma_fitting(text, CHUNK_SIZE as nat);
    if text.len() > 0 {
        let head = text.take(n as int);
        let rest = text.skip(n as int);
        let pieces = split_text(text);
        let tail = split_text(rest);
        assert(is_ascii_chars(rest));
        lemma_all_but_last_full(rest);
        lemma_split_sizes(rest);
        assert forall|i: int| 0 <= i < pieces.len() - 1 implies byte_len(#[trigger] pieces[i])
            == CHUNK_SIZE by {
            if i == 0 {
                assert(pieces[0] == head);
                assert(tail.len() > 0);
                assert(rest.len() > 0) by {
                    if rest.len() == 0 {
                        assert(split_text(rest).len() == 0);
                    }
                }
                assert(char_width(text[n as int]) == 1);
            } else {
                assert(pieces[i] == tail[i - 1]);
            }
        }
    }
}

/// Every chunk is encoded by a run of whole characters of the text: it
/// starts and ends on a character boundary of the text's encoding, and its
/// own encoding is valid UTF-8 that decodes to the chunk.
pub proof fn lemma_split_boundaries(text: Seq<char>, count: nat)
    requires
        count <= split_text(text).len(),
    ensures
        is_char_boundary(
            encode_utf8(text),
            byte_len(concat_all(split_text(text).take(count as int))) as int,
        ),
        count < split_text(text).len() ==> {
            let start = byte_len(concat_all(split_text(text).take(count as int))) as int;
            let piece = split_text(text)[count as int];
            &&& start + byte_len(piece) <= byte_len(text)
            &&& encode_utf8(text).subrange(start, start + byte_len(piece)) == encode_utf8(piece)
            &&& valid_utf8(encode_utf8(piece))
            &&& decode_utf8(encode_utf8(piece)) == piece
        },
{
    let pieces = split_text(text);
    let before = concat_all(pieces.take(count as int));
    let after = concat_all(pieces.skip(count as int));
    lemma_concat_split(pieces, count);
    lemma_split_concat(text);
    assert(before + after == text);
    assert(before =~= text.take(before.len() as int));
    lemma_prefix_is_boundary(text, before.len());
    if count < pieces.len() {
        let piece = pieces[count as int];
        let later = concat_all(pieces.skip(count as int + 1));
        assert(pieces.skip(count as int) =~= seq![piece] + pieces.skip(count as int + 1));
        lemma_concat_front(piece, pieces.skip(count as int + 1));
        lemma_encode_concat(before, after);
        lemma_encode_concat(piece, later);
        assert(encode_utf8(text).subrange(
            byte_len(before) as int,
            (byte_len(before) + byte_len(piece)) as int,
        ) =~= encode_utf8(piece));
        encode_utf8_valid_utf8(piece);
        encode_utf8_decode_utf8(piece);
    }
}

/// Joined texts, cut anywhere between two of them.
pub proof fn lemma_concat_split(pieces: Seq<Seq<char>>, at: nat)
    requires
        at <= pieces.len(),
    ensures
        concat_all(pieces) == concat_all(pieces.take(at as int)) + concat_all(
            pieces.skip(at as int),
        ),
    decreases pieces.len(),
{
    if at == pieces.len() {
        assert(pieces.take(at as int) =~= pieces);
        assert(pieces.skip(at as int) =~= Seq::<Seq<char>>::empty());
        assert(concat_all(pieces) + Seq::<char>::empty() =~= concat_all(pieces));
    } else {
        let init = pieces.drop_last();
        lemma_concat_split(init, at);
        assert(init.take(at as int) =~= pieces.take(at as int));
        assert(pieces.skip(at as int).drop_last() =~= init.skip(at as int));
        assert(pieces.skip(at as int).last() == pieces.last());
        assert(concat_all(pieces) =~= concat_all(pieces.take(at as int)) + concat_all(
            pieces.skip(at as int),
        ));
    }
}

/// Divides a text into its chunks.
pub fn split_message(message: &str) -> (chunks: Vec<String>)
    ensures
        texts(chunks@) == split_text(message@),
{
    let mut chunks: Vec<String> = Vec::new();
    let mut rest: &str = message;
    assert(texts(chunks@) + split_text(rest@) =~= split_text(message@));
    while !rest.is_empty()
        invariant
            split_text(message@) == texts(chunks@) + split_text(rest@),
        decreases rest@.len(),
    {
        let ghost text = rest@;
        let ghost bytes = encode_utf8(text);
        let ghost n = fitting(text, CHUNK_SIZE as nat);
        let ghost cut = byte_len(text.take(n as int)) as int;
        let len = rest.as_bytes().len();
        let limit = if len < CHUNK_SIZE {
            len
        } else {
            CHUNK_SIZE
        };
        proof {
            encode_utf8_valid_utf8(text);
            lemma_fitting(text, CHUNK_SIZE as nat);
            lemma_prefix_is_boundary(text, n);
            lemma_encode_concat(text.take(n as int), text.skip(n as int));
            assert(text.take(n as int) + text.skip(n as int) =~= text);
            assert(cut <= limit);
            is_char_boundary_start_end_of_seq(bytes);
        }
        let mut end = limit;
        while !rest.is_char_boundary(end)
            invariant
                rest@ == text,
                bytes == encode_utf8(text),
                valid_utf8(bytes),
                cut <= end <= limit,
                is_char_boundary(bytes, cut),
            decreases end,
        {
            end -= 1;
        }
        proof {
            lemma_boundary_within_budget(text, CHUNK_SIZE as nat, end as int);
            assert(end == cut);
        }
        let (head, tail) = rest.split_at(end);
        proof {
            assert(bytes.subrange(0, cut) =~= encode_utf8(text.take(n as int)));
            assert(bytes.subrange(cut, bytes.len() as int) =~= encode_utf8(text.skip(n as int)));
            lemma_encode_injective(head@, text.take(n as int));
            lemma_encode_injective(tail@, text.skip(n as int));
        }
        let ghost done = chunks@;
        chunks.push(head.to_owned());
        rest = tail;
        proof {
            assert(texts(chunks@) =~= texts(done) + seq![text.take(n as int)]);
            assert(texts(chunks@) + split_text(rest@) =~= texts(done) + split_text(text));
        }
    }
    proof {
        assert(split_text(rest@) =~= Seq::<Seq<char>>::empty());
        assert(texts(chunks@) + split_text(rest@) =~= texts(chunks@));
    }
    chunks
}

} // verus!
