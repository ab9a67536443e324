//! Key material bit by bit, for those who want to look at it or count it.

use vstd::prelude::*;

verus! {

/// Bit `i` of `byte`, counted from the most significant bit down.
pub open spec fn bit_at(byte: u8, i: int) -> bool {
    (byte >> ((7 - i) as u8)) & 1 == 1
}

/// The bits of `bytes` in a row, each byte from its most significant bit
/// down.
pub open spec fn bits_of(bytes: Seq<u8>) -> Seq<bool> {
    Seq::new(8 * bytes.len(), |i: int| bit_at(bytes[i / 8], i % 8))
}

/// How many of `bits` are set.
pub open spec fn ones_in(bits: Seq<bool>) -> nat
    decreases bits.len(),
{
    if bits.len() == 0 {
        0
    } else {
        ones_in(bits.drop_last()) + if bits.last() {
            1nat
        } else {
            0nat
        }
    }
}

/// Spreads `bytes` out into bits, each byte from its most significant bit
/// down.
pub fn unpack_bits(bytes: &[u8]) -> (bits: Vec<bool>)
    ensures
        bits@ == bits_of(bytes@),
{
    let mut bits: Vec<bool> = Vec::new();
    let mut n: usize = 0;
    while n < bytes.len()
        invariant
            n <= bytes@.len(),
            bits@ == bits_of(bytes@.take(n as int)),
        decreases bytes@.len() - n,
    {
        let byte = bytes[n];
        let ghost before = bits@;
        let mut rest: u8 = byte;
        let mut k: u8 = 0;
        assert(byte << 0u8 == byte) by (bit_vector);
        while k < 8
            invariant
                k <= 8,
                rest == byte << k,
                bits@.len() == before.len() + k,
                forall|i: int| 0 <= i < before.len() ==> bits@[i] == before[i],
                forall|i: int| 0 <= i < k ==> bits@[before.len() + i] == bit_at(byte, i),
            decreases 8 - k,
        {
            assert(((byte << k) & 0x80 == 0x80) == ((byte >> ((7 - k) as u8)) & 1 == 1))
                by (bit_vector)
                requires
                    k < 8,
            ;
            assert((byte << k) << 1u8 == byte << ((k + 1) as u8)) by (bit_vector)
                requires
                    k < 8,
            ;
            bits.push((rest & 0x80) == 0x80);
            rest = rest << 1;
            k += 1;
        }
        n += 1;
        assert(bits@ =~= bits_of(bytes@.take(n as int))) by {
            assert(before.len() == 8 * (n - 1));
            assert forall|i: int| 0 <= i < 8 * n implies bits@[i] == bit_at(
                bytes@.take(n as int)[i / 8],
                i % 8,
            ) by {
                let earlier = bytes@.take(n - 1);
                if i < 8 * (n - 1) {
                    assert(bits@[i] == before[i]);
                    assert(before[i] == bit_at(earlier[i / 8], i % 8));
                    assert(bytes@.take(n as int)[i / 8] == earlier[i / 8]);
                } else {
                    let j = i - 8 * (n - 1);
                    assert(i / 8 == n - 1 && i % 8 == j);
                    assert(bits@[before.len() + j] == bit_at(byte, j));
                }
            }
        }
    }
    assert(bytes@.take(n as int) =~= bytes@);
    bits
}

/// Counts the bits that are set.
pub fn count_ones(bits: &[bool]) -> (ones: usize)
    ensures
        ones == ones_in(bits@),
{
    let mut ones: usize = 0;
    let mut n: usize = 0;
    while n < bits.len()
        invariant
            n <= bits@.len(),
            ones <= n,
            ones == ones_in(bits@.take(n as int)),
        decreases bits@.len() - n,
    {
        assert(bits@.take(n + 1).drop_last() =~= bits@.take(n as int));
        if bits[n] {
            ones += 1;
        }
        n += 1;
    }
    assert(bits@.take(n as int) =~= bits@);
    ones
}

} // verus!
