//! A flat memory of 64 KiB.

use vstd::prelude::*;
use crate::gameboy::bits::{lemma_word_join, lemma_word_split, wrap16};
use crate::gameboy::register::{high_byte, low_byte, word};

verus! {

/// Sixty-four KiB of bytes, addressed from 0x0000 to 0xFFFF.
pub struct Memory {
    pub ram: [u8; 0x10000],
}

impl Memory {
    /// The word at `address`: low byte first. The second byte of a word at
    /// 0xFFFF is the byte at 0x0000.
    pub open spec fn word_at(self, address: u16) -> u16 {
        word(self.ram@[wrap16(address + 1) as int], self.ram@[address as int])
    }

    /// A memory of zeros.
    pub fn new() -> (memory: Self)
        ensures
            forall|i: int| 0 <= i < 0x10000 ==> memory.ram@[i] == 0,
    {
        Memory { ram: [0u8; 0x10000] }
    }

    pub fn read_byte(&self, address: u16) -> (byte: u8)
        ensures
            byte == self.ram@[address as int],
    {
        self.ram[address as usize]
    }

    pub fn write_byte(&mut self, address: u16, byte: u8)
        ensures
            final(self).ram@ == old(self).ram@.update(address as int, byte),
    {
        self.ram[address as usize] = byte;
    }

    /// Read two bytes as a word, low byte first.
    pub fn read_word(&self, address: u16) -> (value: u16)
        ensures
            value == self.word_at(address),
    {
        let lo = self.read_byte(address);
        let hi = self.read_byte(address.wrapping_add(1));
        proof {
            lemma_word_join(hi, lo);
        }
        ((hi as u16) << 8) | (lo as u16)
    }

    /// Write a word as two bytes, low byte first.
    pub fn write_word(&mut self, address: u16, value: u16)
        ensures
            final(self).ram@ == old(self).ram@.update(address as int, low_byte(value)).update(
                wrap16(address + 1) as int,
                high_byte(value),
            ),
            final(self).word_at(address) == value,
    {
        proof {
            lemma_word_split(value);
        }
        self.write_byte(address, (value & 0xFF) as u8);
        self.write_byte(address.wrapping_add(1), (value >> 8) as u8);
    }
}

} // verus!
