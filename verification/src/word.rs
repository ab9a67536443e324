//! Arithmetic on 32-bit words: circular rotation, saturating counters and the
//! byte orders a word can be written in.

use vstd::prelude::*;

verus! {

/// `x` with its bits moved `n` places towards the high end, the bits that
/// fall off re-entering at the low end. Only `n` modulo 32 matters.
pub open spec fn rotl(x: u32, n: u32) -> u32 {
    let k = n % 32;
    if k == 0 {
        x
    } else {
        (x << k) | (x >> ((32 - k) as u32))
    }
}

/// `x` with its bits moved `n` places towards the low end, the bits that fall
/// off re-entering at the high end. Only `n` modulo 32 matters.
pub open spec fn rotr(x: u32, n: u32) -> u32 {
    let k = n % 32;
    if k == 0 {
        x
    } else {
        (x >> k) | (x << ((32 - k) as u32))
    }
}

/// `x + 1`, held at the largest word.
pub open spec fn inc(x: u32) -> u32 {
    if x == u32::MAX {
        x
    } else {
        (x + 1) as u32
    }
}

/// `x - 1`, held at zero.
pub open spec fn dec(x: u32) -> u32 {
    if x == 0 {
        x
    } else {
        (x - 1) as u32
    }
}

/// `x + y`, held at the largest word.
pub open spec fn capped_sum(x: u32, y: u32) -> u32 {
    if x + y > u32::MAX {
        u32::MAX
    } else {
        (x + y) as u32
    }
}

/// `x + y` modulo 2^32.
pub open spec fn wrapped_sum(x: u32, y: u32) -> u32 {
    if x + y > u32::MAX {
        (x + y - 0x1_0000_0000) as u32
    } else {
        (x + y) as u32
    }
}

/// The four bytes of `x`, least significant first.
pub open spec fn le_bytes(x: u32) -> Seq<u8> {
    seq![
        (x & 0xff) as u8,
        ((x >> 8) & 0xff) as u8,
        ((x >> 16) & 0xff) as u8,
        ((x >> 24) & 0xff) as u8,
    ]
}

/// The four bytes of `x`, most significant first.
pub open spec fn be_bytes(x: u32) -> Seq<u8> {
    seq![
        ((x >> 24) & 0xff) as u8,
        ((x >> 16) & 0xff) as u8,
        ((x >> 8) & 0xff) as u8,
        (x & 0xff) as u8,
    ]
}

/// Whether `bytes` is `x` as a machine may hold it in memory: in one of the
/// two byte orders.
pub open spec fn in_memory_order(bytes: Seq<u8>, x: u32) -> bool {
    bytes == le_bytes(x) || bytes == be_bytes(x)
}

/// The word as the running machine holds it in memory, from
/// `u32::to_ne_bytes`. Which of the two byte orders that is depends on the
/// target, so this claims only that the result is the word in one of them.
#[verifier::external_body]
pub(crate) fn memory_bytes(x: u32) -> (bytes: [u8; 4])
    ensures
        in_memory_order(bytes@, x),
{
    x.to_ne_bytes()
}

/// Rotates `x` left by `n` bits.
pub fn rotate_left(x: u32, n: u32) -> (r: u32)
    ensures
        r == rotl(x, n),
{
    let k: u32 = n % 32;
    if k == 0 {
        x
    } else {
        (x << k) | (x >> (32 - k))
    }
}

/// Rotates `x` right by `n` bits.
pub fn rotate_right(x: u32, n: u32) -> (r: u32)
    ensures
        r == rotr(x, n),
{
    let k: u32 = n % 32;
    if k == 0 {
        x
    } else {
        (x >> k) | (x << (32 - k))
    }
}

} // verus!
