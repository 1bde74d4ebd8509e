//! Arithmetic readings of the bit operations the emulator uses.
//!
//! Contracts speak of bytes and words as numbers (`/`, `%`, `+`); the code
//! works with masks and shifts. The lemmas here connect the two.

use vstd::prelude::*;

verus! {

/// The low eight bits of an integer.
pub open spec fn wrap8(i: int) -> u8 {
    (i % 256) as u8
}

/// The low sixteen bits of an integer.
pub open spec fn wrap16(i: int) -> u16 {
    (i % 65536) as u16
}

/// Bit `n` of a byte, as a truth value.
pub open spec fn bit(x: u8, n: int) -> bool {
    if n == 0 {
        x % 2 == 1
    } else if n == 1 {
        x / 2 % 2 == 1
    } else if n == 2 {
        x / 4 % 2 == 1
    } else if n == 3 {
        x / 8 % 2 == 1
    } else if n == 4 {
        x / 16 % 2 == 1
    } else if n == 5 {
        x / 32 % 2 == 1
    } else if n == 6 {
        x / 64 % 2 == 1
    } else {
        x / 128 % 2 == 1
    }
}

/// The value of bit `n`: 1, 2, 4, ... 128.
pub open spec fn bit_weight(n: int) -> int {
    if n == 0 {
        1
    } else if n == 1 {
        2
    } else if n == 2 {
        4
    } else if n == 3 {
        8
    } else if n == 4 {
        16
    } else if n == 5 {
        32
    } else if n == 6 {
        64
    } else {
        128
    }
}

/// Testing one bit with a mask reads that bit.
pub proof fn lemma_bit_tests(x: u8)
    by (bit_vector)
    ensures
        (x & 0x01 != 0) == (x % 2 == 1),
        (x & 0x02 != 0) == (x / 2 % 2 == 1),
        (x & 0x04 != 0) == (x / 4 % 2 == 1),
        (x & 0x08 != 0) == (x / 8 % 2 == 1),
        (x & 0x10 != 0) == (x / 16 % 2 == 1),
        (x & 0x20 != 0) == (x / 32 % 2 == 1),
        (x & 0x40 != 0) == (x / 64 % 2 == 1),
        (x & 0x80 != 0) == (x / 128 % 2 == 1),
{
}

/// Nibble masks and shifts of a byte are quotients and remainders by 16.
pub proof fn lemma_nibbles(x: u8)
    by (bit_vector)
    ensures
        x & 0x0F == x % 16,
        x & 0xF0 == x - x % 16,
        x >> 4 == x / 16,
        (x & 0x0F) << 4 == (x % 16) * 16,
        ((x & 0x0F) << 4) | (x >> 4) == (x % 16) * 16 + x / 16,
{
}

/// A word is its high byte times 256 plus its low byte.
pub proof fn lemma_word_join(hi: u8, lo: u8)
    by (bit_vector)
    ensures
        ((hi as u16) << 8) | (lo as u16) == (hi as u16) * 256 + (lo as u16),
{
}

/// The two bytes of a word.
pub proof fn lemma_word_split(w: u16)
    by (bit_vector)
    ensures
        (w >> 8) as u8 == (w / 256) as u8,
        (w & 0xFF) as u8 == (w % 256) as u8,
{
}

/// Masks and shifts of a word are remainders and quotients.
pub proof fn lemma_word_masks(w: u16)
    by (bit_vector)
    ensures
        w & 0xFF == w % 256,
        w >> 8 == w / 256,
        w & 0x0FFF == w % 4096,
        w & 0x000F == w % 16,
{
}

/// Clearing the bits of a mask clears them and no others; setting them sets
/// them and no others.
pub proof fn lemma_mask_clear_set(x: u8, m: u8, other: u8)
    by (bit_vector)
    ensures
        (x & !m) & m == 0,
        (x | m) & m == m,
        m & other == 0 ==> (x & !m) & other == x & other,
        m & other == 0 ==> (x | m) & other == x & other,
        m != 0 ==> (x | m) & m != 0,
{
}

/// Bits 4 and 5 of a byte, moved down to bits 0 and 1.
pub proof fn lemma_select_bits(x: u8)
    by (bit_vector)
    ensures
        (x & 0x30) >> 4 == x / 16 % 4,
        x & 0x03 == x % 4,
        x & 0x07 == x % 8,
        x & 0x1F == x % 32,
        x & 0x7F == x % 128,
{
}

/// Testing one of the bits of the divider that the timer can watch.
pub proof fn lemma_divider_bits(d: u16)
    by (bit_vector)
    ensures
        (d & 0x0200 != 0) == (d / 512 % 2 == 1),
        (d & 0x0008 != 0) == (d / 8 % 2 == 1),
        (d & 0x0020 != 0) == (d / 32 % 2 == 1),
        (d & 0x0080 != 0) == (d / 128 % 2 == 1),
{
}

} // verus!
