//! The flags byte F of the CPU, held as four truth values.

use vstd::prelude::*;
use crate::gameboy::bits::lemma_bit_tests;

verus! {

/// One of the four flags of F.
#[derive(Clone, Copy, Debug, PartialEq, Eq, Structural)]
pub enum Flag {
    /// Zero, bit 7 of F.
    Z,
    /// Subtraction, bit 6 of F.
    N,
    /// Half-carry, bit 5 of F.
    H,
    /// Carry, bit 4 of F.
    C,
}

/// The flags Z, N, H and C. The low nibble of F is not stored: it reads as
/// zero whatever was written.
#[derive(Clone, Copy, Debug, PartialEq, Eq, Structural)]
pub struct FlagsRegister {
    pub zero: bool,
    pub subtract: bool,
    pub half_carry: bool,
    pub carry: bool,
}

impl FlagsRegister {
    /// The byte F that these flags make up.
    pub open spec fn to_byte(self) -> u8 {
        ((if self.zero { 128int } else { 0 })
            + (if self.subtract { 64int } else { 0 })
            + (if self.half_carry { 32int } else { 0 })
            + (if self.carry { 16int } else { 0 })) as u8
    }

    /// The flags that a byte written to F sets.
    pub open spec fn from_byte(byte: u8) -> FlagsRegister {
        FlagsRegister {
            zero: byte / 128 % 2 == 1,
            subtract: byte / 64 % 2 == 1,
            half_carry: byte / 32 % 2 == 1,
            carry: byte / 16 % 2 == 1,
        }
    }

    /// The value of one flag.
    pub open spec fn value_of(self, flag: Flag) -> bool {
        match flag {
            Flag::Z => self.zero,
            Flag::N => self.subtract,
            Flag::H => self.half_carry,
            Flag::C => self.carry,
        }
    }

    /// These flags with one of them set to `value`.
    pub open spec fn with(self, flag: Flag, value: bool) -> FlagsRegister {
        match flag {
            Flag::Z => FlagsRegister { zero: value, ..self },
            Flag::N => FlagsRegister { subtract: value, ..self },
            Flag::H => FlagsRegister { half_carry: value, ..self },
            Flag::C => FlagsRegister { carry: value, ..self },
        }
    }

    /// All four flags clear.
    pub fn new() -> (flags: Self)
        ensures
            flags == FlagsRegister::from_byte(0),
    {
        FlagsRegister { zero: false, subtract: false, half_carry: false, carry: false }
    }

    /// Set or clear one flag; the others keep their values.
    pub fn flag(&mut self, flag: Flag, value: bool)
        ensures
            *final(self) == old(self).with(flag, value),
    {
        match flag {
            Flag::Z => self.zero = value,
            Flag::N => self.subtract = value,
            Flag::H => self.half_carry = value,
            Flag::C => self.carry = value,
        }
    }

    /// Read one flag.
    pub fn get(&self, flag: Flag) -> (value: bool)
        ensures
            value == self.value_of(flag),
    {
        match flag {
            Flag::Z => self.zero,
            Flag::N => self.subtract,
            Flag::H => self.half_carry,
            Flag::C => self.carry,
        }
    }

    /// The byte F: Z in bit 7, N in bit 6, H in bit 5, C in bit 4, and a low
    /// nibble of zero.
    pub fn bits(&self) -> (byte: u8)
        ensures
            byte == self.to_byte(),
            byte % 16 == 0,
    {
        let z: u8 = if self.zero { 0x80 } else { 0 };
        let n: u8 = if self.subtract { 0x40 } else { 0 };
        let h: u8 = if self.half_carry { 0x20 } else { 0 };
        let c: u8 = if self.carry { 0x10 } else { 0 };
        z + n + h + c
    }
}

impl From<u8> for FlagsRegister {
    fn from(byte: u8) -> (flags: FlagsRegister) {
        proof {
            lemma_bit_tests(byte);
        }
        FlagsRegister {
            zero: byte & 0x80 != 0,
            subtract: byte & 0x40 != 0,
            half_carry: byte & 0x20 != 0,
            carry: byte & 0x10 != 0,
        }
    }
}

impl vstd::std_specs::convert::FromSpecImpl<u8> for FlagsRegister {
    open spec fn obeys_from_spec() -> bool {
        true
    }

    open spec fn from_spec(byte: u8) -> FlagsRegister {
        FlagsRegister::from_byte(byte)
    }
}

impl From<FlagsRegister> for u8 {
    fn from(flags: FlagsRegister) -> (byte: u8) {
        flags.bits()
    }
}

impl vstd::std_specs::convert::FromSpecImpl<FlagsRegister> for u8 {
    open spec fn obeys_from_spec() -> bool {
        true
    }

    open spec fn from_spec(flags: FlagsRegister) -> u8 {
        flags.to_byte()
    }
}

/// Writing a byte to F and reading F back loses the low nibble and nothing
/// else; reading the flags and writing them back changes nothing.
pub proof fn lemma_flags_round_trip(flags: FlagsRegister, byte: u8)
    ensures
        FlagsRegister::from_byte(flags.to_byte()) == flags,
        FlagsRegister::from_byte(byte).to_byte() == byte - byte % 16,
        flags.to_byte() % 16 == 0,
{
}

} // verus!
