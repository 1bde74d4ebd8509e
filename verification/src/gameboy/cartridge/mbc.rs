//! What a memory bank controller is: the state of a cartridge and the rules
//! by which reads and writes of the cartridge's address ranges act on it.

use vstd::prelude::*;

verus! {

/// The size of one ROM bank: 16 KiB.
pub const ROM_BANK_SIZE: usize = 0x4000;

/// The size of one bank of cartridge RAM: 8 KiB.
pub const RAM_BANK_SIZE: usize = 0x2000;

/// The controllers that are emulated.
#[derive(Clone, Copy, Debug, PartialEq, Eq, Structural)]
pub enum MbcKind {
    /// No banking: 32 KiB of ROM and no RAM.
    RomOnly,
    /// A five-bit ROM bank register, a two-bit secondary register and a
    /// mode register.
    Mbc1,
    /// As `Mbc1` with a seven-bit ROM bank register, and with clock
    /// registers in place of RAM while the secondary register holds 0x08 to
    /// 0x0C. The clock does not run: its registers read as zero.
    Mbc3,
}

/// The state of a cartridge: its ROM image, its RAM, and the registers of its
/// controller. This is also what a saved game holds.
#[verifier::ext_equal]
pub struct MbcState {
    pub kind: MbcKind,
    pub rom: Seq<u8>,
    pub ram: Seq<u8>,
    /// The RAM enable register: RAM is open while this is 0x0A.
    pub ramg: u8,
    /// The ROM bank register. Never zero.
    pub bank1: u8,
    /// The secondary register.
    pub bank2: u8,
    /// The mode register.
    pub mode: bool,
}

/// Whether `addr` lies in one of the two ranges that belong to the
/// cartridge: 0x0000 to 0x7FFF and 0xA000 to 0xBFFF.
pub open spec fn is_cartridge_addr(addr: u16) -> bool {
    addr < 0x8000 || (0xA000 <= addr < 0xC000)
}

/// The numbers of ROM banks that a header can declare.
pub open spec fn is_rom_bank_count(n: int) -> bool {
    n == 2 || n == 4 || n == 8 || n == 16 || n == 32 || n == 64 || n == 128 || n == 256 || n
        == 512
}

/// The numbers of RAM banks that a header can declare.
pub open spec fn is_ram_bank_count(n: int) -> bool {
    n == 0 || n == 1 || n == 4 || n == 8 || n == 16
}

/// The mask that keeps as many low bits of a bank number as are needed to
/// tell `bank_count` banks apart, reached from `mask` by appending one-bits.
pub open spec fn grow_mask(mask: nat, bank_count: nat) -> nat
    decreases
        (if bank_count > mask {
            bank_count - mask
        } else {
            0
        }),
{
    if mask + 1 >= bank_count {
        mask
    } else {
        grow_mask(2 * mask + 1, bank_count)
    }
}

/// The mask for `bank_count` banks: the smallest number of the form
/// 2^k - 1 that is at least `bank_count - 1`.
pub open spec fn bank_mask(bank_count: nat) -> nat {
    grow_mask(0, bank_count)
}

/// Whether `mask` is a run of one-bits: 0, 1, 3, 7, 15, ...
pub open spec fn is_low_mask(mask: nat) -> bool
    decreases mask,
{
    mask == 0 || (mask % 2 == 1 && is_low_mask(mask / 2))
}

impl MbcState {
    /// The number of 16 KiB banks of ROM.
    pub open spec fn rom_banks(self) -> int {
        self.rom.len() as int / 0x4000
    }

    /// The number of 8 KiB banks of RAM.
    pub open spec fn ram_banks(self) -> int {
        self.ram.len() as int / 0x2000
    }

    /// The sizes are ones that a header can declare and the registers hold
    /// values that writes can give them.
    pub open spec fn wf(self) -> bool {
        match self.kind {
            MbcKind::RomOnly => {
                &&& self.rom.len() == 0x8000
                &&& self.ram.len() == 0
                &&& self.ramg == 0
                &&& self.bank1 == 1
                &&& self.bank2 == 0
                &&& !self.mode
            },
            MbcKind::Mbc1 => {
                &&& is_rom_bank_count(self.rom_banks())
                &&& self.rom.len() == self.rom_banks() * 0x4000
                &&& is_ram_bank_count(self.ram_banks())
                &&& self.ram.len() == self.ram_banks() * 0x2000
                &&& self.ramg < 0x10
                &&& 1 <= self.bank1 < 0x20
                &&& self.bank2 < 0x04
            },
            MbcKind::Mbc3 => {
                &&& is_rom_bank_count(self.rom_banks())
                &&& self.rom.len() == self.rom_banks() * 0x4000
                &&& is_ram_bank_count(self.ram_banks())
                &&& self.ram.len() == self.ram_banks() * 0x2000
                &&& self.ramg < 0x10
                &&& 1 <= self.bank1 < 0x80
                &&& self.bank2 < 0x10
            },
        }
    }

    /// A cartridge of the given kind and sizes with all of its memory zero
    /// and its registers as after power-on.
    pub open spec fn blank(kind: MbcKind, rom_len: nat, ram_len: nat) -> MbcState {
        MbcState {
            kind,
            rom: Seq::new(rom_len, |i: int| 0u8),
            ram: Seq::new(ram_len, |i: int| 0u8),
            ramg: 0,
            bank1: 1,
            bank2: 0,
            mode: false,
        }
    }

    /// Whether reads and writes of 0xA000 to 0xBFFF reach RAM: it is
    /// open and there is RAM.
    pub open spec fn ram_enabled(self) -> bool {
        self.ramg == 0x0A && self.ram.len() > 0
    }

    /// Whether 0xA000 to 0xBFFF shows a clock register.
    pub open spec fn rtc_selected(self) -> bool {
        self.kind == MbcKind::Mbc3 && 0x08 <= self.bank2 <= 0x0C
    }

    /// The two low bits of the secondary register, as bits 5 and 6 of a bank
    /// number.
    pub open spec fn upper_bank_bits(self) -> u8 {
        ((self.bank2 % 4) * 32) as u8
    }

    /// The ROM bank that the registers name for 0x4000 to 0x7FFF, before it
    /// is wrapped to the banks that exist.
    pub open spec fn selected_rom_bank(self) -> int {
        (self.upper_bank_bits() | self.bank1) as int
    }

    /// The ROM bank that shows at 0x4000 to 0x7FFF.
    pub open spec fn high_rom_bank(self) -> int {
        self.selected_rom_bank() % self.rom_banks()
    }

    /// The ROM bank that shows at 0x0000 to 0x3FFF: bank 0, or in mode 1 the
    /// bank that the secondary register names.
    pub open spec fn low_rom_bank(self) -> int {
        if self.mode {
            self.upper_bank_bits() as int % self.rom_banks()
        } else {
            0
        }
    }

    /// The RAM bank that shows at 0xA000 to 0xBFFF: bank 0, or in mode 1 the
    /// bank that the secondary register names.
    pub open spec fn ram_bank(self) -> int {
        if self.mode && self.ram_banks() > 0 {
            (self.bank2 % 4) as int % self.ram_banks()
        } else {
            0
        }
    }

    /// The byte that a read of `addr` gives. Where nothing is mapped, and
    /// where RAM is closed, that is 0xFF.
    pub open spec fn read(self, addr: u16) -> u8 {
        if self.kind == MbcKind::RomOnly {
            if addr < 0x8000 {
                self.rom[addr as int]
            } else {
                0xFF
            }
        } else if addr < 0x4000 {
            self.rom[self.low_rom_bank() * 0x4000 + addr]
        } else if addr < 0x8000 {
            self.rom[self.high_rom_bank() * 0x4000 + (addr - 0x4000)]
        } else if 0xA000 <= addr < 0xC000 {
            if self.rtc_selected() {
                0x00
            } else if self.ram_enabled() {
                self.ram[self.ram_bank() * 0x2000 + (addr - 0xA000)]
            } else {
                0xFF
            }
        } else {
            0xFF
        }
    }

    /// The value that a write of `byte` gives the ROM bank register: the low
    /// five bits (seven for `Mbc3`), with 1 in place of 0.
    pub open spec fn bank1_for(self, byte: u8) -> u8 {
        let kept: u8 = if self.kind == MbcKind::Mbc3 {
            byte % 128
        } else {
            byte % 32
        };
        if kept == 0 {
            1
        } else {
            kept
        }
    }

    /// The value that a write of `byte` gives the secondary register: the
    /// low two bits (four for `Mbc3`).
    pub open spec fn bank2_for(self, byte: u8) -> u8 {
        if self.kind == MbcKind::Mbc3 {
            byte % 16
        } else {
            byte % 4
        }
    }

    /// The state after `byte` is written to `addr`. Writes below 0x8000 set
    /// registers; writes to 0xA000 to 0xBFFF reach RAM while it is open and
    /// are dropped otherwise.
    pub open spec fn write(self, addr: u16, byte: u8) -> MbcState {
        if self.kind == MbcKind::RomOnly {
            self
        } else if addr < 0x2000 {
            MbcState { ramg: byte % 16, ..self }
        } else if addr < 0x4000 {
            MbcState { bank1: self.bank1_for(byte), ..self }
        } else if addr < 0x6000 {
            MbcState { bank2: self.bank2_for(byte), ..self }
        } else if addr < 0x8000 {
            MbcState { mode: byte % 2 == 1, ..self }
        } else if 0xA000 <= addr < 0xC000 && !self.rtc_selected() && self.ram_enabled() {
            MbcState {
                ram: self.ram.update(self.ram_bank() * 0x2000 + (addr - 0xA000), byte),
                ..self
            }
        } else {
            self
        }
    }

    /// The state after an image is copied to the start of ROM.
    pub open spec fn load(self, data: Seq<u8>) -> MbcState {
        MbcState { rom: data + self.rom.skip(data.len() as int), ..self }
    }
}

/// A memory bank controller: it answers reads and writes of the cartridge's
/// address ranges, and takes a ROM image.
pub trait MBC {
    /// The controller's invariant.
    spec fn wf(&self) -> bool;

    /// The state of the cartridge.
    spec fn state(&self) -> MbcState;

    /// The invariant of the controller includes that of the state.
    proof fn lemma_wf_state(&self)
        requires
            self.wf(),
        ensures
            self.state().wf(),
    ;

    fn read_byte(&self, addr: u16) -> (byte: u8)
        requires
            self.wf(),
            is_cartridge_addr(addr),
        ensures
            byte == self.state().read(addr),
    ;

    fn write_byte(&mut self, addr: u16, byte: u8)
        requires
            old(self).wf(),
            is_cartridge_addr(addr),
        ensures
            final(self).wf(),
            final(self).state() == old(self).state().write(addr, byte),
    ;

    fn load_rom(&mut self, rom_data: &[u8])
        requires
            old(self).wf(),
            rom_data@.len() <= old(self).state().rom.len(),
        ensures
            final(self).wf(),
            final(self).state() == old(self).state().load(rom_data@),
    ;
}

/// Form the bit mask for a number of banks: 4 banks need 2 bits, so the
/// mask is 0b11.
pub fn get_bit_mask(bank_count: usize) -> (mask: usize)
    requires
        bank_count <= 0x8000_0000,
    ensures
        mask == bank_mask(bank_count as nat),
        is_low_mask(mask as nat),
        mask + 1 >= bank_count,
        mask > 0 ==> mask / 2 + 1 < bank_count,
{
    let mut mask: usize = 0;
    while mask + 1 < bank_count
        invariant
            bank_count <= 0x8000_0000,
            mask <= 0xFFFF_FFFD,
            grow_mask(mask as nat, bank_count as nat) == bank_mask(bank_count as nat),
            is_low_mask(mask as nat),
            mask > 0 ==> mask / 2 + 1 < bank_count,
        decreases
            (if bank_count > mask {
                bank_count - mask
            } else {
                0
            }),
    {
        proof {
            assert((2 * mask + 1) / 2 == mask);
        }
        mask = mask * 2 + 1;
    }
    mask
}

/// Where the number of banks is a power of two, the mask is that number
/// less one, so masking a bank number is taking it modulo the number of
/// banks.
pub proof fn lemma_bank_mask_power_of_two(bank_count: nat)
    requires
        bank_count == 1 || is_rom_bank_count(bank_count as int) || is_ram_bank_count(
            bank_count as int,
        ),
    ensures
        bank_count > 0 ==> bank_mask(bank_count) == bank_count - 1,
        bank_count == 0 ==> bank_mask(bank_count) == 0,
{
    reveal_with_fuel(grow_mask, 12);
}

/// Masking with one of the masks that occur is reducing modulo the number of
/// banks.
pub proof fn lemma_mask_is_modulo(x: u16, mask: u16)
    by (bit_vector)
    requires
        mask == 0 || mask == 1 || mask == 3 || mask == 7 || mask == 15 || mask == 31 || mask
            == 63 || mask == 127 || mask == 255 || mask == 511,
    ensures
        x & mask == x % ((mask + 1) as u16),
        x & mask <= mask,
{
}

/// Joining the secondary register and the ROM bank register into one bank
/// number.
pub proof fn lemma_bank_join(bank1: u8, bank2: u8)
    by (bit_vector)
    ensures
        (bank2 & 3) << 5 == ((bank2 % 4) * 32) as u8,
        bank2 & 3 == bank2 % 4,
        bank2 < 4 && bank1 < 32 ==> ((bank2 & 3) << 5) | bank1 == bank2 * 32 + bank1,
{
}

/// For the first controller the bank number is the secondary register times
/// 32 plus the ROM bank register, which is never a multiple of 32.
pub proof fn lemma_mbc1_bank_number(state: MbcState)
    requires
        state.kind == MbcKind::Mbc1,
        state.wf(),
    ensures
        state.selected_rom_bank() == state.bank2 * 32 + state.bank1,
        state.selected_rom_bank() % 32 != 0,
{
    lemma_bank_join(state.bank1, state.bank2);
}

} // verus!
