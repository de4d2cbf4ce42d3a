//! The 16-bit checksum that protects a tag frame.
//!
//! The register starts at `0xFFFF`; every message byte is aligned with the top
//! of the register and consumed in eight rounds, most significant bit first.
//! A round shifts the register left by one and folds the polynomial `0x1021`
//! in whenever the bit leaving the register differs from the message bit.
//! Nothing is reflected and nothing is folded in at the end.

use vstd::prelude::*;

verus! {

/// The generator polynomial, without its leading term.
pub const POLYNOMIAL: u16 = 0x1021;

/// The register before the first byte.
pub const INITIAL: u16 = 0xFFFF;

/// One round: `feed` carries the next message bit in its top position.
pub open spec fn crc_round(reg: u16, feed: u16) -> u16 {
    if (reg ^ feed) & 0x8000 != 0 {
        (reg << 1) ^ POLYNOMIAL
    } else {
        reg << 1
    }
}

/// `n` rounds in a row, the message bits moving up through `feed`.
pub open spec fn crc_rounds(reg: u16, feed: u16, n: nat) -> u16
    decreases n,
{
    if n == 0 {
        reg
    } else {
        crc_rounds(crc_round(reg, feed), feed << 1, (n - 1) as nat)
    }
}

/// The register after one whole message byte.
pub open spec fn crc_byte(reg: u16, byte: u8) -> u16 {
    crc_rounds(reg, (byte as u16) << 8, 8)
}

/// The register after a run of message bytes, starting from `reg`.
pub open spec fn crc_fold(reg: u16, bytes: Seq<u8>) -> u16
    decreases bytes.len(),
{
    if bytes.len() == 0 {
        reg
    } else {
        crc_byte(crc_fold(reg, bytes.drop_last()), bytes.last())
    }
}

/// The checksum of a message.
pub open spec fn crc16(bytes: Seq<u8>) -> u16 {
    crc_fold(INITIAL, bytes)
}

/// Folding a message in two parts is folding it whole.
pub proof fn lemma_crc_fold_concat(reg: u16, head: Seq<u8>, tail: Seq<u8>)
    ensures
        crc_fold(reg, head + tail) == crc_fold(crc_fold(reg, head), tail),
    decreases tail.len(),
{
    if tail.len() == 0 {
        assert(head + tail =~= head);
    } else {
        assert((head + tail).drop_last() =~= head + tail.drop_last());
        assert((head + tail).last() == tail.last());
        lemma_crc_fold_concat(reg, head, tail.drop_last());
    }
}

/// Folding one more byte at the end.
pub proof fn lemma_crc_fold_push(reg: u16, bytes: Seq<u8>, byte: u8)
    ensures
        crc_fold(reg, bytes.push(byte)) == crc_byte(crc_fold(reg, bytes), byte),
{
    assert(bytes.push(byte).drop_last() =~= bytes);
}

/// The register after one whole message byte, without rounds: the byte is
/// mixed into the high half of the register, and the mix is spread over the
/// places that the polynomial names.
pub open spec fn crc_byte_in_one_step(reg: u16, byte: u8) -> u16 {
    let mixed = (reg >> 8) ^ (byte as u16);
    let spread = mixed ^ (mixed >> 4);
    (reg << 8) ^ (spread << 12) ^ (spread << 5) ^ spread
}

/// Eight rounds come to the same as the one step.
pub proof fn lemma_crc_byte_in_one_step(reg: u16, byte: u8)
    ensures
        crc_byte(reg, byte) == crc_byte_in_one_step(reg, byte),
{
    reveal_with_fuel(crc_rounds, 9);
    assert(crc_rounds(reg, (byte as u16) << 8, 8) == crc_byte_in_one_step(reg, byte))
        by (bit_vector);
}

/// Two registers that differ before a byte differ after it.
pub proof fn lemma_crc_byte_separates_registers(a: u16, b: u16, byte: u8)
    requires
        a != b,
    ensures
        crc_byte(a, byte) != crc_byte(b, byte),
{
    reveal_with_fuel(crc_rounds, 9);
    assert(a != b ==> crc_rounds(a, (byte as u16) << 8, 8) != crc_rounds(b, (byte as u16) << 8, 8))
        by (bit_vector);
}

/// Two different bytes leave the same register in different states.
pub proof fn lemma_crc_byte_separates_bytes(reg: u16, x: u8, y: u8)
    requires
        x != y,
    ensures
        crc_byte(reg, x) != crc_byte(reg, y),
{
    reveal_with_fuel(crc_rounds, 9);
    assert(x != y ==> crc_rounds(reg, (x as u16) << 8, 8) != crc_rounds(reg, (y as u16) << 8, 8))
        by (bit_vector);
}

/// The checksum tells apart any two messages of one length that differ in
/// exactly one byte.
pub proof fn lemma_crc16_detects_one_byte(a: Seq<u8>, b: Seq<u8>, at: int)
    requires
        a.len() == b.len(),
        0 <= at < a.len(),
        a[at] != b[at],
        forall|i: int| 0 <= i < a.len() && i != at ==> a[i] == b[i],
    ensures
        crc16(a) != crc16(b),
    decreases a.len(),
{
    if at == a.len() - 1 {
        assert(a.drop_last() =~= b.drop_last());
        lemma_crc_byte_separates_bytes(crc16(a.drop_last()), a.last(), b.last());
    } else {
        lemma_crc16_detects_one_byte(a.drop_last(), b.drop_last(), at);
        lemma_crc_byte_separates_registers(crc16(a.drop_last()), crc16(b.drop_last()), a.last());
    }
}

/// Feeds one byte to the register.
pub fn update(reg: u16, byte: u8) -> (next: u16)
    ensures
        next == crc_byte(reg, byte),
{
    let mut sum: u16 = reg;
    let mut feed: u16 = (byte as u16) << 8;
    let mut round: u8 = 0;
    while round < 8
        invariant
            round <= 8,
            crc_rounds(sum, feed, (8 - round) as nat) == crc_byte(reg, byte),
        decreases 8 - round,
    {
        let fold: bool = ((sum ^ feed) & 0x8000) != 0;
        sum = sum << 1;
        if fold {
            sum = sum ^ POLYNOMIAL;
        }
        feed = feed << 1;
        round = round + 1;
    }
    sum
}

/// Feeds a run of bytes to the register.
pub fn extend(reg: u16, bytes: &[u8]) -> (next: u16)
    ensures
        next == crc_fold(reg, bytes@),
{
    let mut sum: u16 = reg;
    let mut at: usize = 0;
    while at < bytes.len()
        invariant
            at <= bytes.len(),
            sum == crc_fold(reg, bytes@.subrange(0, at as int)),
        decreases bytes.len() - at,
    {
        proof {
            assert(bytes@.subrange(0, at + 1) =~= bytes@.subrange(0, at as int).push(bytes@[at as int]));
            lemma_crc_fold_push(reg, bytes@.subrange(0, at as int), bytes@[at as int]);
        }
        sum = update(sum, bytes[at]);
        at = at + 1;
    }
    proof {
        assert(bytes@.subrange(0, at as int) =~= bytes@);
    }
    sum
}

} // verus!
