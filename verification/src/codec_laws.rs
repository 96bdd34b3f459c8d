//! What holds of every frame: decoding undoes encoding, the delimiter closes
//! the frame, and the lengths of frame and payload bound each other.

use crate::codec::{
    decode_blocks, decode_frame, encode_blocks, encode_frame, frame_blocks, is_code_byte,
    max_encoded_len, run_len, MAX_RUN,
};
use vstd::prelude::*;

verus! {

/// A prefix of `s` of length `n` that holds no delimiter and ends at the cap,
/// at the end of `s` or in front of a delimiter is the run of `s`.
pub proof fn lemma_run_len_is(s: Seq<u8>, delimiter: u8, cap: nat, n: nat)
    requires
        n <= cap,
        n <= s.len(),
        forall|k: int| 0 <= k < n ==> s[k] != delimiter,
        n == cap || n == s.len() || s[n as int] == delimiter,
    ensures
        run_len(s, delimiter, cap) == n,
    decreases cap,
{
    if n > 0 {
        let t = s.drop_first();
        assert forall|k: int| 0 <= k < n - 1 implies t[k] != delimiter by {
            assert(t[k] == s[k + 1]);
        }
        if n < cap && n < s.len() {
            assert(t[n - 1] == s[n as int]);
        }
        lemma_run_len_is(t, delimiter, (cap - 1) as nat, (n - 1) as nat);
    }
}

/// The run of `s` is a prefix of `s` that holds no delimiter and ends at the
/// cap, at the end of `s` or in front of a delimiter.
pub proof fn lemma_run_len_bounds(s: Seq<u8>, delimiter: u8, cap: nat)
    ensures
        run_len(s, delimiter, cap) <= cap,
        run_len(s, delimiter, cap) <= s.len(),
        forall|k: int| 0 <= k < run_len(s, delimiter, cap) ==> s[k] != delimiter,
        run_len(s, delimiter, cap) == cap || run_len(s, delimiter, cap) == s.len() || s[run_len(
            s,
            delimiter,
            cap,
        ) as int] == delimiter,
    decreases cap,
{
    if !(cap == 0 || s.len() == 0 || s[0] == delimiter) {
        let t = s.drop_first();
        let m = run_len(t, delimiter, (cap - 1) as nat);
        lemma_run_len_bounds(t, delimiter, (cap - 1) as nat);
        assert forall|k: int| 0 <= k < m + 1 implies s[k] != delimiter by {
            if k > 0 {
                assert(t[k - 1] == s[k]);
            }
        }
        if m < cap - 1 && m < t.len() {
            assert(t[m as int] == s[m as int + 1]);
        }
    }
}

/// The blocks of a payload hold at least one byte more than the payload, and,
/// for a payload that is not empty, at most one more for every 254 bytes
/// begun. The empty payload has the one block `[1]`.
pub proof fn lemma_encode_blocks_len(payload: Seq<u8>, delimiter: u8)
    ensures
        encode_blocks(payload, delimiter).len() >= payload.len() + 1,
        payload.len() > 0 ==> encode_blocks(payload, delimiter).len() <= payload.len() + (
        payload.len() + 253) / 254,
        payload.len() == 0 ==> encode_blocks(payload, delimiter) == seq![1u8],
    decreases payload.len(),
{
    let n = run_len(payload, delimiter, MAX_RUN as nat);
    lemma_run_len_bounds(payload, delimiter, MAX_RUN as nat);
    if n >= payload.len() {
        if payload.len() == 0 {
            assert(encode_blocks(payload, delimiter) =~= seq![1u8]);
        }
    } else if n == MAX_RUN {
        lemma_encode_blocks_len(payload.skip(n as int), delimiter);
    } else {
        lemma_encode_blocks_len(payload.skip(n as int + 1), delimiter);
    }
}

/// Decoding the blocks of a payload gives the payload back.
pub proof fn lemma_decode_encode_blocks(payload: Seq<u8>, delimiter: u8)
    ensures
        decode_blocks(encode_blocks(payload, delimiter), delimiter) == Some(payload),
    decreases payload.len(),
{
    let n = run_len(payload, delimiter, MAX_RUN as nat);
    lemma_run_len_bounds(payload, delimiter, MAX_RUN as nat);
    let blocks = encode_blocks(payload, delimiter);
    let code = n as int + 1;
    let data = blocks.subrange(1, code);
    assert(blocks[0] == code);
    assert(data =~= payload.take(n as int));
    assert(!data.contains(delimiter)) by {
        if data.contains(delimiter) {
            let k = choose|k: int| 0 <= k < data.len() && data[k] == delimiter;
            assert(payload[k] == delimiter);
        }
    }
    if n >= payload.len() {
        assert(blocks.skip(code).len() == 0);
        assert(data =~= payload);
    } else {
        let next = if n == MAX_RUN {
            n as int
        } else {
            n as int + 1
        };
        let tail = payload.skip(next);
        lemma_decode_encode_blocks(tail, delimiter);
        lemma_encode_blocks_len(tail, delimiter);
        assert(blocks.skip(code) =~= encode_blocks(tail, delimiter));
        if n == MAX_RUN {
            assert(data + tail =~= payload);
        } else {
            assert(data.push(delimiter) + tail =~= payload);
        }
    }
}

/// Round trip: for every payload and every delimiter, decoding the frame of
/// the payload gives the payload back.
pub proof fn lemma_round_trip(payload: Seq<u8>, delimiter: u8)
    ensures
        decode_frame(encode_frame(payload, delimiter), delimiter) == Some(payload),
{
    let blocks = encode_blocks(payload, delimiter);
    assert(frame_blocks(encode_frame(payload, delimiter), delimiter) =~= blocks);
    lemma_decode_encode_blocks(payload, delimiter);
}

/// Two payloads with the same frame are the same payload.
pub proof fn lemma_encode_injective(first: Seq<u8>, second: Seq<u8>, delimiter: u8)
    requires
        encode_frame(first, delimiter) == encode_frame(second, delimiter),
    ensures
        first == second,
{
    lemma_round_trip(first, delimiter);
    lemma_round_trip(second, delimiter);
}

/// Every frame ends in the delimiter.
pub proof fn lemma_frame_ends_in_delimiter(payload: Seq<u8>, delimiter: u8)
    ensures
        encode_frame(payload, delimiter).len() >= 2,
        encode_frame(payload, delimiter).last() == delimiter,
{
    lemma_encode_blocks_len(payload, delimiter);
}

/// A frame is at least two bytes longer than its payload. The frame of a
/// payload that is not empty is no longer than `max_encoded_len` says; the
/// frame of the empty payload is the code byte `1` and the delimiter.
pub proof fn lemma_encoded_len(payload: Seq<u8>, delimiter: u8)
    ensures
        encode_frame(payload, delimiter).len() >= payload.len() + 2,
        payload.len() > 0 ==> encode_frame(payload, delimiter).len() <= max_encoded_len(
            payload.len(),
        ),
        payload.len() == 0 ==> encode_frame(payload, delimiter) == seq![1u8, delimiter],
{
    lemma_encode_blocks_len(payload, delimiter);
    if payload.len() == 0 {
        assert(encode_frame(payload, delimiter) =~= seq![1u8, delimiter]);
    }
}

/// Whatever the delimiter, no block carries it: where it occurs in the blocks
/// of a payload, it is the code byte of a block.
pub proof fn lemma_delimiter_in_code_bytes(payload: Seq<u8>, delimiter: u8)
    ensures
        forall|i: int|
            0 <= i < encode_blocks(payload, delimiter).len() && #[trigger] encode_blocks(
                payload,
                delimiter,
            )[i] == delimiter ==> is_code_byte(encode_blocks(payload, delimiter), i),
    decreases payload.len(),
{
    let n = run_len(payload, delimiter, MAX_RUN as nat);
    lemma_run_len_bounds(payload, delimiter, MAX_RUN as nat);
    let blocks = encode_blocks(payload, delimiter);
    let code = n as int + 1;
    let tail = if n >= payload.len() {
        Seq::<u8>::empty()
    } else if n == MAX_RUN {
        lemma_delimiter_in_code_bytes(payload.skip(n as int), delimiter);
        encode_blocks(payload.skip(n as int), delimiter)
    } else {
        lemma_delimiter_in_code_bytes(payload.skip(n as int + 1), delimiter);
        encode_blocks(payload.skip(n as int + 1), delimiter)
    };
    assert(blocks =~= seq![code as u8] + payload.take(n as int) + tail);
    assert(blocks.skip(code) =~= tail);
    assert forall|i: int| 0 <= i < blocks.len() && #[trigger] blocks[i] == delimiter implies is_code_byte(
        blocks,
        i,
    ) by {
        if 1 <= i < code {
            assert(blocks[i] == payload[i - 1]);
        } else if i >= code {
            assert(tail[i - code] == blocks[i]);
        }
    }
}

/// With the delimiter zero, no byte of the blocks is the delimiter.
pub proof fn lemma_zero_free_blocks(payload: Seq<u8>)
    ensures
        !encode_blocks(payload, 0).contains(0),
    decreases payload.len(),
{
    let n = run_len(payload, 0, MAX_RUN as nat);
    lemma_run_len_bounds(payload, 0, MAX_RUN as nat);
    let blocks = encode_blocks(payload, 0);
    let block = seq![(n + 1) as u8] + payload.take(n as int);
    let tail = if n >= payload.len() {
        Seq::<u8>::empty()
    } else if n == MAX_RUN {
        lemma_zero_free_blocks(payload.skip(n as int));
        encode_blocks(payload.skip(n as int), 0)
    } else {
        lemma_zero_free_blocks(payload.skip(n as int + 1));
        encode_blocks(payload.skip(n as int + 1), 0)
    };
    assert(blocks =~= block + tail);
    if blocks.contains(0) {
        let k = choose|k: int| 0 <= k < blocks.len() && blocks[k] == 0;
        if k == 0 {
        } else if k < block.len() {
            assert(payload[k - 1] == 0);
        } else {
            assert(tail[k - block.len()] == 0);
        }
    }
}

/// With the delimiter zero, the delimiter occurs in a frame once, as its
/// last byte.
pub proof fn lemma_zero_delimiter_once(payload: Seq<u8>)
    ensures
        forall|i: int|
            0 <= i < encode_frame(payload, 0).len() ==> (#[trigger] encode_frame(payload, 0)[i] == 0
                <==> i == encode_frame(payload, 0).len() - 1),
{
    lemma_zero_free_blocks(payload);
    let blocks = encode_blocks(payload, 0);
    assert forall|i: int| 0 <= i < encode_frame(payload, 0).len() implies (#[trigger] encode_frame(
        payload,
        0,
    )[i] == 0 <==> i == encode_frame(payload, 0).len() - 1) by {
        if i < blocks.len() {
            assert(blocks[i] == encode_frame(payload, 0)[i]);
            assert(blocks.contains(blocks[i]));
        }
    }
}

/// The last byte of the blocks of a payload is the delimiter only where the
/// delimiter is `1` and the payload is empty or ends in it.
pub proof fn lemma_blocks_last(payload: Seq<u8>, delimiter: u8)
    ensures
        encode_blocks(payload, delimiter).len() > 0,
        encode_blocks(payload, delimiter).last() == delimiter <==> delimiter == 1 && (payload.len()
            == 0 || payload.last() == delimiter),
    decreases payload.len(),
{
    let n = run_len(payload, delimiter, MAX_RUN as nat);
    lemma_run_len_bounds(payload, delimiter, MAX_RUN as nat);
    lemma_encode_blocks_len(payload, delimiter);
    let blocks = encode_blocks(payload, delimiter);
    if n >= payload.len() {
        if n > 0 {
            assert(blocks.last() == payload[n - 1]);
        }
    } else {
        let next = if n == MAX_RUN {
            n as int
        } else {
            n as int + 1
        };
        let tail = payload.skip(next);
        lemma_blocks_last(tail, delimiter);
        lemma_encode_blocks_len(tail, delimiter);
        assert(blocks.last() == encode_blocks(tail, delimiter).last());
        if tail.len() > 0 {
            assert(tail.last() == payload.last());
        }
    }
}

/// A frame whose closing delimiter was taken off decodes to its payload,
/// unless the delimiter is `1` and the payload ends in it: the blocks of such
/// a payload end in a code byte `1`, which is then taken for the delimiter.
pub proof fn lemma_round_trip_stripped(payload: Seq<u8>, delimiter: u8)
    requires
        delimiter != 1 || payload.len() == 0 || payload.last() != delimiter,
    ensures
        decode_frame(encode_blocks(payload, delimiter), delimiter) == Some(payload),
{
    lemma_blocks_last(payload, delimiter);
    lemma_decode_encode_blocks(payload, delimiter);
    if payload.len() == 0 && delimiter == 1 {
        lemma_encode_blocks_len(payload, delimiter);
        assert(frame_blocks(encode_blocks(payload, delimiter), delimiter) =~= Seq::<u8>::empty());
    }
}

/// A run of blocks that decodes is longer than its payload, unless both are
/// empty.
pub proof fn lemma_decode_blocks_len(blocks: Seq<u8>, delimiter: u8)
    requires
        decode_blocks(blocks, delimiter) is Some,
    ensures
        blocks.len() > 0 ==> decode_blocks(blocks, delimiter)->0.len() < blocks.len(),
        blocks.len() == 0 ==> decode_blocks(blocks, delimiter)->0.len() == 0,
    decreases blocks.len(),
{
    if blocks.len() > 0 {
        let code = blocks[0] as int;
        let rest = blocks.skip(code);
        if rest.len() > 0 {
            lemma_decode_blocks_len(rest, delimiter);
        }
    }
}

/// Decoding never expands: a payload is no longer than the frame it was
/// decoded from.
pub proof fn lemma_decode_len(frame: Seq<u8>, delimiter: u8)
    requires
        decode_frame(frame, delimiter) is Some,
    ensures
        decode_frame(frame, delimiter)->0.len() <= frame.len(),
{
    lemma_decode_blocks_len(frame_blocks(frame, delimiter), delimiter);
}

/// A payload of 254 bytes without the delimiter makes one full block.
pub proof fn lemma_full_run(payload: Seq<u8>, delimiter: u8)
    requires
        payload.len() == 254,
        !payload.contains(delimiter),
    ensures
        encode_frame(payload, delimiter) == seq![0xffu8] + payload + seq![delimiter],
{
    lemma_run_len_is(payload, delimiter, MAX_RUN as nat, 254);
    assert(payload.take(254) =~= payload);
    assert(encode_frame(payload, delimiter) =~= seq![0xffu8] + payload + seq![delimiter]);
}

/// A payload of 255 bytes without the delimiter makes a full block and a
/// block of one byte: no code byte exceeds 255.
pub proof fn lemma_run_past_full(payload: Seq<u8>, delimiter: u8)
    requires
        payload.len() == 255,
        !payload.contains(delimiter),
    ensures
        encode_frame(payload, delimiter) == seq![0xffu8] + payload.take(254) + seq![
            2u8,
            payload[254],
        ] + seq![delimiter],
{
    lemma_run_len_is(payload, delimiter, MAX_RUN as nat, 254);
    let tail = payload.skip(254);
    assert(tail[0] == payload[254]);
    lemma_run_len_is(tail, delimiter, MAX_RUN as nat, 1);
    assert(encode_blocks(tail, delimiter) =~= seq![2u8, payload[254]]);
    assert(encode_frame(payload, delimiter) =~= seq![0xffu8] + payload.take(254) + seq![
        2u8,
        payload[254],
    ] + seq![delimiter]);
}

/// A payload of `count` delimiters makes `count + 1` empty blocks.
pub proof fn lemma_all_delimiters(count: nat, delimiter: u8)
    ensures
        encode_blocks(Seq::new(count, |i: int| delimiter), delimiter) == Seq::new(
            count + 1,
            |i: int| 1u8,
        ),
    decreases count,
{
    let payload = Seq::new(count, |i: int| delimiter);
    if count == 0 {
        lemma_encode_blocks_len(payload, delimiter);
        assert(seq![1u8] =~= Seq::new(1, |i: int| 1u8));
    } else {
        lemma_all_delimiters((count - 1) as nat, delimiter);
        assert(payload.skip(1) =~= Seq::new((count - 1) as nat, |i: int| delimiter));
        assert(payload.take(0) =~= Seq::<u8>::empty());
        assert(encode_blocks(payload, delimiter) =~= Seq::new(count + 1, |i: int| 1u8));
    }
}

} // verus!
