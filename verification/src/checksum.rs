//! The 16-bit checksum of a buffer, and the two bytes that cancel it.
//!
//! The checksum holds two sums modulo 255: in its low byte the sum of the
//! bytes, in its high byte the sum of the sums of all prefixes, so that the
//! order of the bytes counts.

use vstd::prelude::*;

verus! {

/// The sum of the bytes of `s`.
pub open spec fn byte_sum(s: Seq<u8>) -> nat
    decreases s.len(),
{
    if s.len() == 0 {
        0
    } else {
        byte_sum(s.drop_last()) + s.last() as nat
    }
}

/// The sum of the byte sums of all prefixes of `s`.
pub open spec fn prefix_sum(s: Seq<u8>) -> nat
    decreases s.len(),
{
    if s.len() == 0 {
        0
    } else {
        prefix_sum(s.drop_last()) + byte_sum(s)
    }
}

/// The checksum of `s`: `prefix_sum` modulo 255 above `byte_sum` modulo 255.
pub open spec fn spec_checksum(s: Seq<u8>) -> u16 {
    ((prefix_sum(s) % 255) * 256 + byte_sum(s) % 255) as u16
}

/// The two bytes that cancel the checksum `sum`.
pub open spec fn spec_check_bytes(sum: u16) -> (u8, u8) {
    let low = sum as int % 256;
    let high = sum as int / 256;
    let first = 255 - (low + high) % 255;
    let second = 255 - (low + first) % 255;
    (first as u8, second as u8)
}

/// The checksum of `input`.
pub fn checksum(input: &[u8]) -> (sum: u16)
    ensures
        sum == spec_checksum(input@),
{
    let mut low: u16 = 0;
    let mut high: u16 = 0;
    let mut i: usize = 0;
    while i < input.len()
        invariant
            i <= input@.len(),
            low == byte_sum(input@.take(i as int)) % 255,
            high == prefix_sum(input@.take(i as int)) % 255,
        decreases input@.len() - i,
    {
        proof {
            assert(input@.take(i + 1) =~= input@.take(i as int).push(input@[i as int]));
            lemma_sums_push(input@.take(i as int), input@[i as int]);
        }
        low = (low + input[i] as u16) % 255;
        high = (high + low) % 255;
        i = i + 1;
    }
    proof {
        assert(input@.take(i as int) =~= input@);
    }
    high * 256 + low
}

/// The two bytes that, put behind a buffer whose checksum is `sum`, bring the
/// checksum of the whole to zero.
pub fn check_bytes(sum: u16) -> (bytes: (u8, u8))
    ensures
        bytes == spec_check_bytes(sum),
{
    let low = sum % 256;
    let high = sum / 256;
    let first = 255 - (low + high) % 255;
    let second = 255 - (low + first) % 255;
    (first as u8, second as u8)
}

/// What one more byte adds to the two sums.
pub proof fn lemma_sums_push(s: Seq<u8>, byte: u8)
    ensures
        byte_sum(s.push(byte)) == byte_sum(s) + byte,
        prefix_sum(s.push(byte)) == prefix_sum(s) + byte_sum(s) + byte,
{
    assert(s.push(byte).drop_last() =~= s);
}

/// The check bytes of two sums below 255 bring both sums to a multiple of
/// 255.
proof fn lemma_cancel_sums(low: int, high: int)
    requires
        0 <= low < 255,
        0 <= high < 255,
    ensures
        ({
            let first = 255 - (low + high) % 255;
            let second = 255 - (low + first) % 255;
            &&& 1 <= first <= 255
            &&& 1 <= second <= 255
            &&& (low + first + second) % 255 == 0
            &&& (high + 2 * low + 2 * first + second) % 255 == 0
        }),
{
    let first = 255 - (low + high) % 255;
    if low + high < 255 {
        assert(first == 255 - low - high);
    } else {
        assert(first == 510 - low - high);
    }
}

/// A multiple of 255 in front of a sum does not change what the sum is
/// modulo 255.
proof fn lemma_mod_255(x: nat, rest: int)
    ensures
        (x + rest) % 255 == (x % 255 + rest) % 255,
{
    vstd::arithmetic::div_mod::lemma_fundamental_div_mod(x as int, 255);
    vstd::arithmetic::div_mod::lemma_mod_multiples_vanish(x as int / 255, x as int % 255 + rest, 255);
}

/// A buffer followed by the check bytes of its checksum has the checksum
/// zero.
pub proof fn lemma_check_bytes_cancel(data: Seq<u8>)
    ensures
        spec_checksum(data.push(spec_check_bytes(spec_checksum(data)).0).push(
            spec_check_bytes(spec_checksum(data)).1,
        )) == 0,
{
    let (first, second) = spec_check_bytes(spec_checksum(data));
    lemma_sums_push(data, first);
    lemma_sums_push(data.push(first), second);
    let low = (byte_sum(data) % 255) as int;
    let high = (prefix_sum(data) % 255) as int;
    lemma_cancel_sums(low, high);
    assert(spec_checksum(data) as int % 256 == low);
    assert(spec_checksum(data) as int / 256 == high);
    let two = data.push(first).push(second);
    assert(byte_sum(two) % 255 == 0) by {
        lemma_mod_255(byte_sum(data), first + second);
    }
    assert(prefix_sum(two) % 255 == 0) by {
        lemma_mod_255(prefix_sum(data), 2 * byte_sum(data) + 2 * first + second);
        lemma_mod_255(byte_sum(data), byte_sum(data) + high + 2 * first + second);
        lemma_mod_255(byte_sum(data), low + high + 2 * first + second);
    }
}

/// Both sums of a checksum are below 255.
pub proof fn lemma_checksum_bytes(data: Seq<u8>)
    ensures
        spec_checksum(data) % 256 == byte_sum(data) % 255,
        spec_checksum(data) / 256 == prefix_sum(data) % 255,
        spec_checksum(data) % 256 < 255,
        spec_checksum(data) / 256 < 255,
{
}

} // verus!
