//! The CPU's register file.

use vstd::prelude::*;
use crate::gameboy::bits::{lemma_word_join, lemma_word_split, wrap16};
use crate::gameboy::flags_register::FlagsRegister;

verus! {

/// The eight-bit registers A, B, C, D, E, H, L, the flags F, and the
/// sixteen-bit registers PC and SP.
#[derive(Clone, Copy, Debug, PartialEq, Eq, Structural)]
pub struct Registers {
    pub a: u8,
    pub b: u8,
    pub c: u8,
    pub d: u8,
    pub e: u8,
    pub f: FlagsRegister,
    pub h: u8,
    pub l: u8,
    pub pc: u16,
    pub sp: u16,
}

/// The word whose high byte is `hi` and whose low byte is `lo`.
pub open spec fn word(hi: u8, lo: u8) -> u16 {
    (hi as int * 256 + lo as int) as u16
}

/// The high byte of a word.
pub open spec fn high_byte(w: u16) -> u8 {
    (w / 256) as u8
}

/// The low byte of a word.
pub open spec fn low_byte(w: u16) -> u8 {
    (w % 256) as u8
}

impl Registers {
    /// The register file as the boot program leaves it.
    pub open spec fn after_boot() -> Registers {
        Registers {
            a: 0x01,
            f: FlagsRegister::from_byte(0xB0),
            b: 0x00,
            c: 0x13,
            d: 0x00,
            e: 0xD8,
            h: 0x01,
            l: 0x4D,
            pc: 0x0100,
            sp: 0xFFFE,
        }
    }

    pub open spec fn af(self) -> u16 {
        word(self.a, self.f.to_byte())
    }

    pub open spec fn bc(self) -> u16 {
        word(self.b, self.c)
    }

    pub open spec fn de(self) -> u16 {
        word(self.d, self.e)
    }

    pub open spec fn hl(self) -> u16 {
        word(self.h, self.l)
    }

    /// The register file after AF is written: the low nibble of F is lost.
    pub open spec fn with_af(self, bytes: u16) -> Registers {
        Registers { a: high_byte(bytes), f: FlagsRegister::from_byte(low_byte(bytes)), ..self }
    }

    pub open spec fn with_bc(self, bytes: u16) -> Registers {
        Registers { b: high_byte(bytes), c: low_byte(bytes), ..self }
    }

    pub open spec fn with_de(self, bytes: u16) -> Registers {
        Registers { d: high_byte(bytes), e: low_byte(bytes), ..self }
    }

    pub open spec fn with_hl(self, bytes: u16) -> Registers {
        Registers { h: high_byte(bytes), l: low_byte(bytes), ..self }
    }

    /// A = 0x01, F = 0xB0, BC = 0x0013, DE = 0x00D8, HL = 0x014D,
    /// SP = 0xFFFE, PC = 0x0100.
    pub fn new() -> (regs: Self)
        ensures
            regs == Registers::after_boot(),
            regs.af() == 0x01B0,
            regs.bc() == 0x0013,
            regs.de() == 0x00D8,
            regs.hl() == 0x014D,
    {
        Registers {
            a: 0x01,
            b: 0x00,
            d: 0x00,
            h: 0x01,
            f: FlagsRegister { zero: true, subtract: false, half_carry: true, carry: true },
            c: 0x13,
            e: 0xD8,
            l: 0x4D,
            pc: 0x0100,
            sp: 0xFFFE,
        }
    }

    /// A in the high byte, F in the low byte.
    pub fn get_af(&self) -> (bytes: u16)
        ensures
            bytes == self.af(),
            bytes % 16 == 0,
    {
        let f: u8 = self.f.bits();
        proof {
            lemma_word_join(self.a, f);
        }
        ((self.a as u16) << 8) | (f as u16)
    }

    /// B in the high byte, C in the low byte.
    pub fn get_bc(&self) -> (bytes: u16)
        ensures
            bytes == self.bc(),
    {
        proof {
            lemma_word_join(self.b, self.c);
        }
        ((self.b as u16) << 8) | (self.c as u16)
    }

    /// D in the high byte, E in the low byte.
    pub fn get_de(&self) -> (bytes: u16)
        ensures
            bytes == self.de(),
    {
        proof {
            lemma_word_join(self.d, self.e);
        }
        ((self.d as u16) << 8) | (self.e as u16)
    }

    /// H in the high byte, L in the low byte.
    pub fn get_hl(&self) -> (bytes: u16)
        ensures
            bytes == self.hl(),
    {
        proof {
            lemma_word_join(self.h, self.l);
        }
        ((self.h as u16) << 8) | (self.l as u16)
    }

    /// Write AF. The low nibble of F does not exist, so reading AF back gives
    /// `bytes` with its low nibble cleared.
    pub fn set_af(&mut self, bytes: u16)
        ensures
            *final(self) == old(self).with_af(bytes),
            final(self).af() == bytes - bytes % 16,
    {
        proof {
            lemma_word_split(bytes);
        }
        self.a = (bytes >> 8) as u8;
        self.f = FlagsRegister::from((bytes & 0xFF) as u8);
    }

    /// Write BC.
    pub fn set_bc(&mut self, bytes: u16)
        ensures
            *final(self) == old(self).with_bc(bytes),
            final(self).bc() == bytes,
    {
        proof {
            lemma_word_split(bytes);
        }
        self.b = (bytes >> 8) as u8;
        self.c = (bytes & 0xFF) as u8;
    }

    /// Write DE.
    pub fn set_de(&mut self, bytes: u16)
        ensures
            *final(self) == old(self).with_de(bytes),
            final(self).de() == bytes,
    {
        proof {
            lemma_word_split(bytes);
        }
        self.d = (bytes >> 8) as u8;
        self.e = (bytes & 0xFF) as u8;
    }

    /// Write HL.
    pub fn set_hl(&mut self, bytes: u16)
        ensures
            *final(self) == old(self).with_hl(bytes),
            final(self).hl() == bytes,
    {
        proof {
            lemma_word_split(bytes);
        }
        self.h = (bytes >> 8) as u8;
        self.l = (bytes & 0xFF) as u8;
    }

    /// Hand out HL and then add one to it, wrapping at 0xFFFF.
    pub fn hli(&mut self) -> (value: u16)
        ensures
            value == old(self).hl(),
            *final(self) == old(self).with_hl(wrap16(value + 1)),
    {
        let value = self.get_hl();
        self.set_hl(value.wrapping_add(1));
        value
    }

    /// Hand out HL and then take one from it, wrapping at zero.
    pub fn hld(&mut self) -> (value: u16)
        ensures
            value == old(self).hl(),
            *final(self) == old(self).with_hl(wrap16(value - 1)),
    {
        let value = self.get_hl();
        self.set_hl(value.wrapping_sub(1));
        value
    }
}

/// Writing a word to a register pair and reading the pair gives the word
/// back; for AF this holds of every word whose low nibble is zero.
pub proof fn lemma_pair_round_trip(regs: Registers, bytes: u16)
    ensures
        regs.with_bc(bytes).bc() == bytes,
        regs.with_de(bytes).de() == bytes,
        regs.with_hl(bytes).hl() == bytes,
        regs.with_af(bytes).af() == bytes - bytes % 16,
        bytes % 16 == 0 ==> regs.with_af(bytes).af() == bytes,
{
}

/// Reading a register pair and writing the word back changes nothing.
pub proof fn lemma_pair_write_back(regs: Registers)
    ensures
        regs.with_bc(regs.bc()) == regs,
        regs.with_de(regs.de()) == regs,
        regs.with_hl(regs.hl()) == regs,
        regs.with_af(regs.af()) == regs,
{
}

} // verus!
