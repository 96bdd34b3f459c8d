//! The frame codec.
//!
//! A payload is cut into blocks. Each block starts with a code byte `n + 1`
//! and carries `n` payload bytes, `n <= 254`, none of which is the delimiter.
//! A block with fewer than 254 bytes that is not the last one stands for its
//! bytes followed by one delimiter; a block with 254 bytes stands for its
//! bytes alone. A frame is the blocks followed by one delimiter byte.

use crate::codec_laws::{
    lemma_decode_len, lemma_delimiter_in_code_bytes, lemma_encoded_len, lemma_run_len_is,
    lemma_zero_free_blocks,
};
use vstd::prelude::*;

verus! {

/// The most payload bytes that one block carries.
pub const MAX_RUN: usize = 254;

/// The length of the longest prefix of `s` that holds no `delimiter` and is
/// no longer than `cap`.
pub open spec fn run_len(s: Seq<u8>, delimiter: u8, cap: nat) -> nat
    decreases cap,
{
    if cap == 0 || s.len() == 0 || s[0] == delimiter {
        0
    } else {
        1 + run_len(s.drop_first(), delimiter, (cap - 1) as nat)
    }
}

/// The blocks of the frame of `payload`, without the closing delimiter.
pub open spec fn encode_blocks(payload: Seq<u8>, delimiter: u8) -> Seq<u8>
    decreases payload.len(),
{
    let n = run_len(payload, delimiter, MAX_RUN as nat);
    let block = seq![(n + 1) as u8] + payload.take(n as int);
    if n >= payload.len() {
        // the run reaches the end of the payload
        block
    } else if n == MAX_RUN {
        // a full block: the payload goes on, and no delimiter is taken
        block + encode_blocks(payload.skip(n as int), delimiter)
    } else {
        // the run stops in front of a delimiter, which the block stands for
        block + encode_blocks(payload.skip(n as int + 1), delimiter)
    }
}

/// The frame of `payload`: its blocks and one closing delimiter.
pub open spec fn encode_frame(payload: Seq<u8>, delimiter: u8) -> Seq<u8> {
    encode_blocks(payload, delimiter).push(delimiter)
}

/// The payload that a run of blocks stands for, or `None` where the bytes are
/// no run of blocks: a code byte is zero, a block is cut short, or a block
/// holds the delimiter.
pub open spec fn decode_blocks(blocks: Seq<u8>, delimiter: u8) -> Option<Seq<u8>>
    decreases blocks.len(),
{
    if blocks.len() == 0 {
        Some(Seq::empty())
    } else {
        let code = blocks[0] as int;
        if code == 0 || code > blocks.len() {
            None
        } else {
            let data = blocks.subrange(1, code);
            let rest = blocks.skip(code);
            if data.contains(delimiter) {
                None
            } else if rest.len() == 0 {
                Some(data)
            } else {
                match decode_blocks(rest, delimiter) {
                    Some(tail) => Some(
                        if code <= MAX_RUN {
                            data.push(delimiter) + tail
                        } else {
                            data + tail
                        },
                    ),
                    None => None,
                }
            }
        }
    }
}

/// Whether the byte at `index` of a run of blocks is the code byte of a
/// block, and not one of the payload bytes that a block carries.
pub open spec fn is_code_byte(blocks: Seq<u8>, index: int) -> bool
    decreases blocks.len(),
{
    if index < 0 || index >= blocks.len() {
        false
    } else if index == 0 {
        true
    } else {
        let code = blocks[0] as int;
        code >= 1 && index >= code && is_code_byte(blocks.skip(code), index - code)
    }
}

/// The blocks of a frame: the frame without its closing delimiter, where it
/// has one.
pub open spec fn frame_blocks(frame: Seq<u8>, delimiter: u8) -> Seq<u8> {
    if frame.len() > 0 && frame.last() == delimiter {
        frame.drop_last()
    } else {
        frame
    }
}

/// The payload of a frame, with or without its closing delimiter, or `None`
/// where the frame is malformed.
pub open spec fn decode_frame(frame: Seq<u8>, delimiter: u8) -> Option<Seq<u8>> {
    decode_blocks(frame_blocks(frame, delimiter), delimiter)
}

/// The bound on the length of a frame of a payload of `length` bytes: one
/// code byte for every 254 bytes begun, and the closing delimiter.
pub open spec fn max_encoded_len(length: nat) -> nat {
    length + (length + 253) / 254 + 1
}

/// Why a frame could not be decoded.
#[derive(Debug, Clone, Copy, PartialEq, Eq)]
pub enum DecodeError {
    /// A code byte is zero or asks for more bytes than are left, or a block
    /// holds the delimiter.
    MalformedFrame,
}

/// The size of the buffer to set aside for the frame of a payload of
/// `length` bytes: `length` and one byte for every 254 bytes begun, and one
/// for the closing delimiter. No frame of a payload that is not empty is
/// longer. The frame of the empty payload has two bytes, one more than this
/// size for zero.
pub fn get_max_encode_buffer_size(length: usize) -> (size: usize)
    requires
        max_encoded_len(length as nat) <= usize::MAX,
    ensures
        size == max_encoded_len(length as nat),
{
    let blocks: usize = length / MAX_RUN + if length % MAX_RUN == 0 { 0 } else { 1 };
    length + blocks + 1
}

/// `prefix` in front of the payload `tail`, where there is one.
spec fn prepend(prefix: Seq<u8>, tail: Option<Seq<u8>>) -> Option<Seq<u8>> {
    match tail {
        Some(t) => Some(prefix + t),
        None => None,
    }
}

/// A frame codec for one delimiter byte.
pub struct TuskEncoder {
    delimiter: u8,
}

impl TuskEncoder {
    /// The delimiter that closes every frame of this codec.
    pub closed spec fn delimiter(&self) -> u8 {
        self.delimiter
    }

    /// A codec whose frames end in `delimiter`.
    pub fn new(delimiter: u8) -> (encoder: Self)
        ensures
            encoder.delimiter() == delimiter,
    {
        Self { delimiter }
    }

    /// The frame of `input`: its blocks and the closing delimiter. The frame
    /// is at least two bytes longer than `input`, and for an `input` that is
    /// not empty no longer than `get_max_encode_buffer_size` says. In front
    /// of the closing delimiter, the delimiter occurs at most as the code
    /// byte of a block, never among the bytes that a block carries; with the
    /// delimiter zero it occurs nowhere else in the frame.
    pub fn encode(&self, input: &[u8]) -> (frame: Vec<u8>)
        ensures
            frame@ == encode_frame(input@, self.delimiter()),
            frame@.len() >= input@.len() + 2,
            input@.len() > 0 ==> frame@.len() <= max_encoded_len(input@.len()),
            frame@.last() == self.delimiter(),
            forall|i: int|
                0 <= i < frame@.len() - 1 && #[trigger] frame@[i] == self.delimiter()
                    ==> self.delimiter() != 0 && is_code_byte(frame@.drop_last(), i),
    {
        let delimiter = self.delimiter;
        let len = input.len();
        let mut out: Vec<u8> = Vec::new();
        out.push(1);
        // where the code byte of the open block stands, and what it will hold
        let mut code_at: usize = 0;
        let mut code: u8 = 1;
        let mut open = true;
        let mut i: usize = 0;
        // where the open block starts in the input
        let ghost mut start: int = 0;
        proof {
            assert(input@.skip(0) =~= input@);
            assert(out@.subrange(0, 0) + encode_blocks(input@.skip(0), delimiter) =~= encode_blocks(
                input@,
                delimiter,
            ));
        }
        while i < len
            invariant
                len == input@.len(),
                i <= len,
                0 <= start <= i,
                open ==> {
                    &&& 1 <= code <= MAX_RUN
                    &&& code - 1 == i - start
                    &&& out@.len() == code_at + code
                    &&& out@.subrange(0, code_at as int) + encode_blocks(
                        input@.skip(start),
                        delimiter,
                    ) == encode_blocks(input@, delimiter)
                    &&& forall|j: int|
                        start <= j < i ==> #[trigger] input@[j] != delimiter && out@[code_at + 1
                            + (j - start)] == input@[j]
                },
                !open ==> i == len && out@ == encode_blocks(input@, delimiter),
            decreases len - i,
        {
            let byte = input[i];
            if byte != delimiter {
                out.push(byte);
                code = code + 1;
            }
            if byte == delimiter || code == 0xff {
                let more = byte == delimiter || i + 1 < len;
                proof {
                    let rest = input@.skip(start);
                    let n = (code - 1) as nat;
                    assert forall|k: int| 0 <= k < n implies rest[k] != delimiter by {
                        assert(rest[k] == input@[start + k]);
                    }
                    if byte == delimiter {
                        assert(rest[n as int] == delimiter);
                    }
                    lemma_run_len_is(rest, delimiter, MAX_RUN as nat, n);
                }
                out.set(code_at, code);
                proof {
                    let rest = input@.skip(start);
                    let n = (code - 1) as int;
                    let block = seq![code] + rest.take(n);
                    let done = out@.subrange(0, code_at as int);
                    assert(out@ =~= done + block);
                    if more {
                        let next = if byte == delimiter {
                            n + 1
                        } else {
                            n
                        };
                        assert(rest.skip(next) =~= input@.skip(start + next));
                        assert(encode_blocks(rest, delimiter) == block + encode_blocks(
                            rest.skip(next),
                            delimiter,
                        ));
                        assert(out@ + encode_blocks(input@.skip(start + next), delimiter) =~= done
                            + encode_blocks(rest, delimiter));
                        start = start + next;
                    } else {
                        assert(encode_blocks(rest, delimiter) == block);
                    }
                }
                code = 1;
                code_at = out.len();
                if more {
                    proof {
                        assert(out@.push(1).subrange(0, code_at as int) =~= out@);
                    }
                    out.push(1);
                } else {
                    open = false;
                }
            }
            i = i + 1;
        }
        if open {
            proof {
                let rest = input@.skip(start);
                let n = (code - 1) as nat;
                assert forall|k: int| 0 <= k < n implies rest[k] != delimiter by {
                    assert(rest[k] == input@[start + k]);
                }
                lemma_run_len_is(rest, delimiter, MAX_RUN as nat, n);
            }
            out.set(code_at, code);
            proof {
                let rest = input@.skip(start);
                let block = seq![code] + rest.take(code - 1);
                assert(encode_blocks(rest, delimiter) == block);
                assert(out@ =~= out@.subrange(0, code_at as int) + block);
            }
        }
        out.push(delimiter);
        proof {
            let blocks = encode_blocks(input@, delimiter);
            lemma_encoded_len(input@, delimiter);
            lemma_delimiter_in_code_bytes(input@, delimiter);
            lemma_zero_free_blocks(input@);
            assert(out@.drop_last() =~= blocks);
            assert forall|i: int|
                0 <= i < out@.len() - 1 && #[trigger] out@[i] == delimiter implies delimiter != 0
                && is_code_byte(out@.drop_last(), i) by {
                assert(blocks[i] == out@[i]);
                assert(blocks.contains(blocks[i]));
            }
        }
        out
    }

    /// The payload of the frame `input`, which may or may not end in the
    /// closing delimiter; `MalformedFrame` where `input` is no frame. The
    /// payload is no longer than `input`.
    pub fn decode(&self, input: &[u8]) -> (result: Result<Vec<u8>, DecodeError>)
        ensures
            match result {
                Ok(payload) => decode_frame(input@, self.delimiter()) == Some(payload@)
                    && payload@.len() <= input@.len(),
                Err(e) => decode_frame(input@, self.delimiter()) is None && e
                    == DecodeError::MalformedFrame,
            },
    {
        let delimiter = self.delimiter;
        let mut len = input.len();
        if len > 0 && input[len - 1] == delimiter {
            len = len - 1;
        }
        let ghost blocks = input@.take(len as int);
        let mut out: Vec<u8> = Vec::new();
        let mut i: usize = 0;
        proof {
            assert(blocks =~= frame_blocks(input@, delimiter));
            assert(blocks.skip(0) =~= blocks);
            assert(out@ + blocks =~= blocks);
        }
        while i < len
            invariant
                i <= len <= input@.len(),
                blocks == input@.take(len as int),
                blocks == frame_blocks(input@, delimiter),
                delimiter == self.delimiter(),
                decode_blocks(blocks, delimiter) == prepend(
                    out@,
                    decode_blocks(blocks.skip(i as int), delimiter),
                ),
            decreases len - i,
        {
            let ghost rest = blocks.skip(i as int);
            let ghost before = out@;
            let code = input[i] as usize;
            assert(rest[0] == input@[i as int]);
            if code == 0 || code > len - i {
                return Err(DecodeError::MalformedFrame);
            }
            let end = i + code;
            let mut k = i + 1;
            while k < end
                invariant
                    i < k <= end <= len <= input@.len(),
                    end == i + code,
                    blocks == input@.take(len as int),
                    blocks == frame_blocks(input@, delimiter),
                    delimiter == self.delimiter(),
                    rest == blocks.skip(i as int),
                    code == rest[0],
                    decode_blocks(blocks, delimiter) == prepend(
                        before,
                        decode_blocks(rest, delimiter),
                    ),
                    out@ == before + rest.subrange(1, k - i),
                    !rest.subrange(1, k - i).contains(delimiter),
                decreases end - k,
            {
                let byte = input[k];
                assert(rest[k - i] == byte);
                if byte == delimiter {
                    proof {
                        assert(rest.subrange(1, code as int)[k - i - 1] == delimiter);
                    }
                    return Err(DecodeError::MalformedFrame);
                }
                proof {
                    let grown = rest.subrange(1, k - i + 1);
                    assert(grown =~= rest.subrange(1, k - i).push(byte));
                    assert forall|j: int| 0 <= j < grown.len() implies grown[j] != delimiter by {
                        if j < grown.len() - 1 {
                            assert(rest.subrange(1, k - i)[j] == grown[j]);
                        }
                    }
                }
                out.push(byte);
                k = k + 1;
            }
            proof {
                assert(rest.skip(code as int) =~= blocks.skip(end as int));
            }
            if end < len && code < 0xff {
                out.push(delimiter);
            }
            proof {
                let data = rest.subrange(1, code as int);
                let tail = decode_blocks(blocks.skip(end as int), delimiter);
                if end < len {
                    if tail is Some {
                        if code < 0xff {
                            assert(before + (data.push(delimiter) + tail->0) =~= out@ + tail->0);
                        } else {
                            assert(before + (data + tail->0) =~= out@ + tail->0);
                        }
                    }
                } else {
                    assert(out@ + Seq::<u8>::empty() =~= out@);
                }
            }
            i = end;
        }
        proof {
            assert(out@ + Seq::<u8>::empty() =~= out@);
            lemma_decode_len(input@, delimiter);
        }
        Ok(out)
    }
}

} // verus!
