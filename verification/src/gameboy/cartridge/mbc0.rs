//! The plain cartridge: 32 KiB of ROM, no banking, no RAM.

use vstd::prelude::*;
use crate::gameboy::cartridge::mbc::{MbcKind, MbcState, MBC};

verus! {

/// A cartridge without a controller.
pub struct MBC0 {
    pub rom: [u8; 0x8000],
}

impl MBC0 {
    /// A cartridge whose ROM is all zero.
    pub fn new() -> (mbc: Self)
        ensures
            mbc.wf(),
            mbc.state() == MbcState::blank(MbcKind::RomOnly, 0x8000, 0),
    {
        let mbc = MBC0 { rom: [0u8; 0x8000] };
        assert(mbc.state() =~= MbcState::blank(MbcKind::RomOnly, 0x8000, 0));
        mbc
    }
}

impl MBC for MBC0 {
    open spec fn wf(&self) -> bool {
        true
    }

    open spec fn state(&self) -> MbcState {
        MbcState {
            kind: MbcKind::RomOnly,
            rom: self.rom@,
            ram: Seq::empty(),
            ramg: 0,
            bank1: 1,
            bank2: 0,
            mode: false,
        }
    }

    proof fn lemma_wf_state(&self) {
    }

    /// ROM below 0x8000; 0xFF in the RAM range, where nothing is mapped.
    fn read_byte(&self, addr: u16) -> (byte: u8) {
        if addr < 0x8000 {
            self.rom[addr as usize]
        } else {
            0xFF
        }
    }

    /// Writes are dropped: there is no register and no RAM.
    fn write_byte(&mut self, addr: u16, byte: u8) {
    }

    fn load_rom(&mut self, rom_data: &[u8]) {
        let mut i: usize = 0;
        while i < rom_data.len()
            invariant
                i <= rom_data@.len() <= 0x8000,
                forall|j: int| 0 <= j < i ==> self.rom@[j] == rom_data@[j],
                forall|j: int| i <= j < 0x8000 ==> self.rom@[j] == old(self).rom@[j],
            decreases rom_data@.len() - i,
        {
            self.rom[i] = rom_data[i];
            i = i + 1;
        }
        assert(self.state().rom =~= old(self).state().load(rom_data@).rom);
    }
}

} // verus!
