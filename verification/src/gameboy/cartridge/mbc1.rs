//! The first bank controller: up to 512 ROM banks reached through a five-bit
//! and a two-bit register, and up to four banks of RAM behind an enable register.

use vstd::prelude::*;
use crate::gameboy::bits::{lemma_bit_tests, lemma_select_bits};
use crate::gameboy::cartridge::header::{lemma_rom_kib_values, CartridgeHeader};
use crate::gameboy::cartridge::mbc::{
    get_bit_mask, lemma_bank_join, lemma_bank_mask_power_of_two, lemma_mask_is_modulo, MbcKind,
    MbcState, MBC, RAM_BANK_SIZE, ROM_BANK_SIZE,
};

verus! {

/// A cartridge with the first bank controller.
pub struct MBC1 {
    pub rom: Vec<u8>,
    pub ram: Vec<u8>,
    /// RAM enable register: the low nibble of the last byte written to 0x0000
    /// to 0x1FFF. RAM is open while it holds 0x0A.
    pub ramg: u8,
    /// Bank register 1: five bits, never zero. The low five bits of the ROM
    /// bank number for 0x4000 to 0x7FFF.
    pub bank1: u8,
    /// Bank register 2: two bits. The upper bits of the ROM bank number, and
    /// in mode 1 the RAM bank number.
    pub bank2: u8,
    /// Mode register: in mode 1 bank register 2 also acts on 0x0000 to
    /// 0x3FFF and on 0xA000 to 0xBFFF.
    pub mode: bool,
    pub rom_bank_count: i32,
    pub ram_bank_count: i32,
    pub rom_mask: u16,
    pub ram_mask: u16,
}

impl MBC1 {
    /// A cartridge of the sizes that the header declares, with ROM and RAM
    /// all zero, RAM closed, ROM bank 1 selected and mode 0.
    pub fn new(ch: &CartridgeHeader) -> (mbc: Self)
        requires
            ch.wf(),
        ensures
            mbc.wf(),
            mbc.state() == MbcState::blank(
                MbcKind::Mbc1,
                (ch.rom_size * 1024) as nat,
                (ch.ram_size * 1024) as nat,
            ),
    {
        proof {
            lemma_rom_kib_values();
            lemma_bank_mask_power_of_two(ch.rom_bank_count as nat);
            lemma_bank_mask_power_of_two(ch.ram_bank_count as nat);
        }
        let rom_mask = MBC1::get_bit_mask(ch.rom_bank_count as usize);
        let ram_mask = MBC1::get_bit_mask(ch.ram_bank_count as usize);
        let mbc = MBC1 {
            rom: vec![0u8; ch.rom_size as usize * 1024],
            ram: vec![0u8; ch.ram_size as usize * 1024],
            ramg: 0,
            bank1: 1,
            bank2: 0,
            mode: false,
            rom_bank_count: ch.rom_bank_count,
            ram_bank_count: ch.ram_bank_count,
            rom_mask: rom_mask as u16,
            ram_mask: ram_mask as u16,
        };
        assert(mbc.state() =~= MbcState::blank(
            MbcKind::Mbc1,
            (ch.rom_size * 1024) as nat,
            (ch.ram_size * 1024) as nat,
        ));
        mbc
    }

    /// Form the bit mask for a number of banks.
    pub fn get_bit_mask(bank_count: usize) -> (mask: usize)
        requires
            bank_count <= 0x8000_0000,
        ensures
            mask == crate::gameboy::cartridge::mbc::bank_mask(bank_count as nat),
    {
        get_bit_mask(bank_count)
    }

    /// RAM is reachable while the enable register holds 0x0A and there is RAM.
    fn is_ram_accessible(&self) -> (open: bool)
        requires
            self.wf(),
        ensures
            open == self.state().ram_enabled(),
    {
        self.ramg == 0b1010 && self.ram_bank_count != 0
    }

    /// The two low bits of bank register 2, moved to bits 5 and 6.
    fn upper_bits(&self) -> (bits: u8)
        ensures
            bits == self.state().upper_bank_bits(),
    {
        proof {
            lemma_bank_join(self.bank1, self.bank2);
        }
        (self.bank2 & 3) << 5
    }

    fn rom_read_byte(&self, bank_no: usize, offset: usize) -> (byte: u8)
        requires
            self.wf(),
            bank_no < 0x100,
            offset < ROM_BANK_SIZE,
        ensures
            byte == self.rom@[(bank_no as int % self.state().rom_banks()) * 0x4000 + offset],
    {
        proof {
            lemma_mask_is_modulo(bank_no as u16, self.rom_mask);
        }
        let real_bank_no: usize = ((bank_no as u16) & self.rom_mask) as usize;
        self.rom[real_bank_no * ROM_BANK_SIZE + offset]
    }

    fn ram_read_byte(&self, bank_no: usize, offset: usize) -> (byte: u8)
        requires
            self.wf(),
            self.state().ram_banks() > 0,
            bank_no < 0x100,
            offset < RAM_BANK_SIZE,
        ensures
            byte == self.ram@[(bank_no as int % self.state().ram_banks()) * 0x2000 + offset],
    {
        proof {
            lemma_mask_is_modulo(bank_no as u16, self.ram_mask);
        }
        let real_bank_no: usize = ((bank_no as u16) & self.ram_mask) as usize;
        self.ram[real_bank_no * RAM_BANK_SIZE + offset]
    }

    fn ram_write_byte(&mut self, bank_no: usize, offset: usize, byte: u8)
        requires
            old(self).wf(),
            old(self).state().ram_banks() > 0,
            bank_no < 0x100,
            offset < RAM_BANK_SIZE,
        ensures
            final(self).wf(),
            final(self).state() == (MbcState {
                ram: old(self).ram@.update(
                    (bank_no as int % old(self).state().ram_banks()) * 0x2000 + offset,
                    byte,
                ),
                ..old(self).state()
            }),
    {
        proof {
            lemma_mask_is_modulo(bank_no as u16, self.ram_mask);
        }
        let real_bank_no: usize = ((bank_no as u16) & self.ram_mask) as usize;
        self.ram.set(real_bank_no * RAM_BANK_SIZE + offset, byte);
    }

    /// The RAM bank that the registers select.
    fn selected_ram_bank(&self) -> (bank_no: usize)
        requires
            self.wf(),
            self.state().ram_banks() > 0,
        ensures
            bank_no < 4,
            bank_no as int % self.state().ram_banks() == self.state().ram_bank(),
    {
        proof {
            lemma_bank_join(self.bank1, self.bank2);
        }
        if self.mode {
            (self.bank2 & 3) as usize
        } else {
            0
        }
    }
}

impl MBC for MBC1 {
    open spec fn wf(&self) -> bool {
        &&& self.state().wf()
        &&& self.rom_bank_count == self.state().rom_banks()
        &&& self.ram_bank_count == self.state().ram_banks()
        &&& self.rom_mask == self.state().rom_banks() - 1
        &&& self.ram_mask == (if self.state().ram_banks() > 0 {
            self.state().ram_banks() - 1
        } else {
            0
        })
    }

    open spec fn state(&self) -> MbcState {
        MbcState {
            kind: MbcKind::Mbc1,
            rom: self.rom@,
            ram: self.ram@,
            ramg: self.ramg,
            bank1: self.bank1,
            bank2: self.bank2,
            mode: self.mode,
        }
    }

    proof fn lemma_wf_state(&self) {
    }

    fn read_byte(&self, addr: u16) -> (byte: u8) {
        if addr < 0x4000 {
            let bank_no: usize = if !self.mode {
                0
            } else {
                self.upper_bits() as usize
            };
            self.rom_read_byte(bank_no, addr as usize)
        } else if addr < 0x8000 {
            let bank_no = self.upper_bits() | self.bank1;
            self.rom_read_byte(bank_no as usize, addr as usize - 0x4000)
        } else {
            if self.is_ram_accessible() {
                let bank_no = self.selected_ram_bank();
                self.ram_read_byte(bank_no, (addr - 0xA000) as usize)
            } else {
                0xFF
            }
        }
    }

    fn write_byte(&mut self, addr: u16, byte: u8) {
        proof {
            lemma_select_bits(byte);
            lemma_bit_tests(byte);
            crate::gameboy::bits::lemma_nibbles(byte);
        }
        if addr < 0x2000 {
            self.ramg = byte & 0xF;
        } else if addr < 0x4000 {
            self.bank1 = byte & 0b1_1111;
            if self.bank1 == 0 {
                self.bank1 = 1;
            }
        } else if addr < 0x6000 {
            self.bank2 = byte & 0b11;
        } else if addr < 0x8000 {
            self.mode = byte & 0x1 != 0;
        } else {
            if self.is_ram_accessible() {
                let bank_no = self.selected_ram_bank();
                self.ram_write_byte(bank_no, (addr - 0xA000) as usize, byte);
            }
        }
    }

    fn load_rom(&mut self, rom_data: &[u8]) {
        let mut i: usize = 0;
        while i < rom_data.len()
            invariant
                i <= rom_data@.len() <= self.rom@.len(),
                self.rom@.len() == old(self).rom@.len(),
                forall|j: int| 0 <= j < i ==> self.rom@[j] == rom_data@[j],
                forall|j: int| i <= j < self.rom@.len() ==> self.rom@[j] == old(self).rom@[j],
                self.ram == old(self).ram,
                self.ramg == old(self).ramg,
                self.bank1 == old(self).bank1,
                self.bank2 == old(self).bank2,
                self.mode == old(self).mode,
                self.rom_bank_count == old(self).rom_bank_count,
                self.ram_bank_count == old(self).ram_bank_count,
                self.rom_mask == old(self).rom_mask,
                self.ram_mask == old(self).ram_mask,
            decreases rom_data@.len() - i,
        {
            self.rom.set(i, rom_data[i]);
            i = i + 1;
        }
        assert(self.state().rom =~= old(self).state().load(rom_data@).rom);
    }
}

} // verus!
