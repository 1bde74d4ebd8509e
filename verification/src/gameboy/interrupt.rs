//! The five interrupt sources, their flag bits and their handler vectors.

use vstd::prelude::*;

verus! {

/// An interrupt source. The order of the variants is the order of priority:
/// `VBlank` is served first, `Joypad` last.
#[derive(Clone, Copy, Debug, PartialEq, Eq, Hash, Structural)]
pub enum Interrupt {
    VBlank,
    LCD,
    Timer,
    Serial,
    Joypad,
}

impl Interrupt {
    /// The bit that stands for this source in the IE and IF registers.
    pub open spec fn flag_mask(self) -> u8 {
        match self {
            Interrupt::VBlank => 0x01,
            Interrupt::LCD => 0x02,
            Interrupt::Timer => 0x04,
            Interrupt::Serial => 0x08,
            Interrupt::Joypad => 0x10,
        }
    }

    /// The address of this source's handler.
    pub open spec fn jump_addr(self) -> u8 {
        match self {
            Interrupt::VBlank => 0x40,
            Interrupt::LCD => 0x48,
            Interrupt::Timer => 0x50,
            Interrupt::Serial => 0x58,
            Interrupt::Joypad => 0x60,
        }
    }

    /// The position of this source's bit: 0 for `VBlank` up to 4 for `Joypad`.
    pub open spec fn bit_index(self) -> int {
        match self {
            Interrupt::VBlank => 0,
            Interrupt::LCD => 1,
            Interrupt::Timer => 2,
            Interrupt::Serial => 3,
            Interrupt::Joypad => 4,
        }
    }

    /// The source that is served when `pending` holds the requested and
    /// enabled sources: the one with the lowest bit set among bits 0 to 4.
    pub open spec fn highest_priority(pending: u8) -> Option<Interrupt> {
        if pending % 2 == 1 {
            Some(Interrupt::VBlank)
        } else if pending / 2 % 2 == 1 {
            Some(Interrupt::LCD)
        } else if pending / 4 % 2 == 1 {
            Some(Interrupt::Timer)
        } else if pending / 8 % 2 == 1 {
            Some(Interrupt::Serial)
        } else if pending / 16 % 2 == 1 {
            Some(Interrupt::Joypad)
        } else {
            None
        }
    }

    /// Get the bits used in the IE, IF registers to signify the interrupt.
    pub fn get_flag_mask(&self) -> (mask: u8)
        ensures
            mask == self.flag_mask(),
    {
        match self {
            Interrupt::VBlank => 0x01,
            Interrupt::LCD => 0x02,
            Interrupt::Timer => 0x04,
            Interrupt::Serial => 0x08,
            Interrupt::Joypad => 0x10,
        }
    }

    /// Get the address of the respective interrupt handler.
    pub fn get_jump_addr(&self) -> (addr: u8)
        ensures
            addr == self.jump_addr(),
    {
        match self {
            Interrupt::VBlank => 0x40,
            Interrupt::LCD => 0x48,
            Interrupt::Timer => 0x50,
            Interrupt::Serial => 0x58,
            Interrupt::Joypad => 0x60,
        }
    }

    /// Pick the source to serve among the pending ones, if there is one.
    pub fn select(pending: u8) -> (chosen: Option<Interrupt>)
        ensures
            chosen == Interrupt::highest_priority(pending),
    {
        proof {
            crate::gameboy::bits::lemma_bit_tests(pending);
        }
        if pending & 0x01 != 0 {
            Some(Interrupt::VBlank)
        } else if pending & 0x02 != 0 {
            Some(Interrupt::LCD)
        } else if pending & 0x04 != 0 {
            Some(Interrupt::Timer)
        } else if pending & 0x08 != 0 {
            Some(Interrupt::Serial)
        } else if pending & 0x10 != 0 {
            Some(Interrupt::Joypad)
        } else {
            None
        }
    }
}

impl From<Interrupt> for u8 {
    fn from(interrupt: Interrupt) -> (mask: u8) {
        interrupt.get_flag_mask()
    }
}

impl vstd::std_specs::convert::FromSpecImpl<Interrupt> for u8 {
    open spec fn obeys_from_spec() -> bool {
        true
    }

    open spec fn from_spec(interrupt: Interrupt) -> u8 {
        interrupt.flag_mask()
    }
}

/// Every source has its own bit, and the lower the bit, the lower the
/// handler's address.
pub proof fn lemma_interrupt_bits(a: Interrupt, b: Interrupt)
    ensures
        a.flag_mask() == b.flag_mask() <==> a == b,
        a.jump_addr() == 0x40 + 8 * a.bit_index(),
        a.bit_index() < b.bit_index() <==> a.jump_addr() < b.jump_addr(),
        Interrupt::highest_priority(a.flag_mask()) == Some(a),
{
}

} // verus!
