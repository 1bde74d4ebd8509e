//! The cartridge that sits in the slot: one of the emulated controllers,
//! chosen by the header of the image, and its saved state.

use vstd::prelude::*;
use crate::gameboy::cartridge::header::{
    image_fault, lemma_rom_kib_values, CartridgeError, CartridgeHeader, CARTRIDGE_HEADER_SIZE,
    HEADER_START,
};
use crate::gameboy::cartridge::mbc::{
    get_bit_mask, is_ram_bank_count, is_rom_bank_count, lemma_bank_mask_power_of_two, MbcKind,
    MbcState, MBC,
};
use crate::gameboy::cartridge::mbc0::MBC0;
use crate::gameboy::cartridge::mbc1::MBC1;
use crate::gameboy::cartridge::mbc3::MBC3;

verus! {

/// The cartridge in the slot.
pub enum Cartridge {
    Mbc0(MBC0),
    Mbc1(MBC1),
    Mbc3(MBC3),
}

/// A cartridge's state as plain values: what a save file holds.
pub struct CartridgeState {
    pub kind: MbcKind,
    pub rom: Vec<u8>,
    pub ram: Vec<u8>,
    pub ramg: u8,
    pub bank1: u8,
    pub bank2: u8,
    pub mode: bool,
}

impl View for CartridgeState {
    type V = MbcState;

    open spec fn view(&self) -> MbcState {
        MbcState {
            kind: self.kind,
            rom: self.rom@,
            ram: self.ram@,
            ramg: self.ramg,
            bank1: self.bank1,
            bank2: self.bank2,
            mode: self.mode,
        }
    }
}

/// The controller that a type code stands for.
pub open spec fn kind_of(type_code: u8) -> MbcKind {
    if type_code == 0 {
        MbcKind::RomOnly
    } else if type_code <= 0x03 {
        MbcKind::Mbc1
    } else {
        MbcKind::Mbc3
    }
}

/// The cartridge that an accepted image makes: the controller and the sizes
/// that the header names, the image in ROM, RAM all zero, and the registers
/// as after power-on.
pub open spec fn cartridge_of(image: Seq<u8>) -> MbcState {
    MbcState::blank(kind_of(image[0x0147]), image.len(), ram_len_of(image)).load(image)
}

/// The number of bytes of RAM in the cartridge that an image describes: what
/// the header declares, and none for the plain cartridge.
pub open spec fn ram_len_of(image: Seq<u8>) -> nat {
    if image[0x0147] == 0 {
        0
    } else {
        (crate::gameboy::cartridge::header::ram_kib(image[0x0149]) * 1024) as nat
    }
}

/// A copy of `source`.
pub fn copy_bytes(source: &[u8]) -> (copy: Vec<u8>)
    ensures
        copy@ == source@,
{
    let mut copy: Vec<u8> = Vec::new();
    let mut i: usize = 0;
    while i < source.len()
        invariant
            i <= source@.len(),
            copy@ == source@.subrange(0, i as int),
        decreases source@.len() - i,
    {
        copy.push(source[i]);
        assert(source@.subrange(0, i as int).push(source@[i as int]) == source@.subrange(
            0,
            i as int + 1,
        ));
        i = i + 1;
    }
    assert(source@.subrange(0, source@.len() as int) == source@);
    copy
}

/// Whether `len` bytes are a whole number of ROM banks that a header can
/// declare.
fn is_rom_len(len: usize) -> (valid: bool)
    ensures
        valid == (is_rom_bank_count(len as int / 0x4000) && len == (len as int / 0x4000)
            * 0x4000),
{
    len == 0x8000 || len == 0x1_0000 || len == 0x2_0000 || len == 0x4_0000 || len == 0x8_0000
        || len == 0x10_0000 || len == 0x20_0000 || len == 0x40_0000 || len == 0x80_0000
}

/// Whether `len` bytes are a whole number of RAM banks that a header can
/// declare.
fn is_ram_len(len: usize) -> (valid: bool)
    ensures
        valid == (is_ram_bank_count(len as int / 0x2000) && len == (len as int / 0x2000)
            * 0x2000),
{
    len == 0 || len == 0x2000 || len == 0x8000 || len == 0x1_0000 || len == 0x2_0000
}

impl Cartridge {
    /// An empty slot behaves as a plain cartridge whose ROM is all zero.
    pub fn new() -> (cartridge: Self)
        ensures
            cartridge.wf(),
            cartridge.state() == MbcState::blank(MbcKind::RomOnly, 0x8000, 0),
    {
        Cartridge::Mbc0(MBC0::new())
    }

    /// Make the cartridge that an image describes, or say why the image is
    /// not accepted.
    pub fn from_image(image: &[u8]) -> (result: Result<Cartridge, CartridgeError>)
        ensures
            match result {
                Ok(cartridge) => image_fault(image@).is_none() && cartridge.wf()
                    && cartridge.state() == cartridge_of(image@),
                Err(fault) => image_fault(image@) == Some(fault),
            },
    {
        match CartridgeHeader::check_image(image) {
            Some(fault) => Err(fault),
            None => {
                proof {
                    lemma_rom_kib_values();
                }
                let header = CartridgeHeader::new(
                    vstd::slice::slice_subrange(
                        image,
                        HEADER_START,
                        HEADER_START + CARTRIDGE_HEADER_SIZE,
                    ),
                );
                let type_code = header.cartridge_type_code;
                proof {
                    let header_bytes = image@.subrange(
                        HEADER_START as int,
                        HEADER_START + CARTRIDGE_HEADER_SIZE,
                    );
                    assert(header_bytes[0x47] == image@[0x0147]);
                    assert(header_bytes[0x48] == image@[0x0148]);
                    assert(header_bytes[0x49] == image@[0x0149]);
                }
                let mut cartridge = if type_code == 0x00 {
                    Cartridge::Mbc0(MBC0::new())
                } else if type_code <= 0x03 {
                    Cartridge::Mbc1(MBC1::new(&header))
                } else {
                    Cartridge::Mbc3(MBC3::new(&header))
                };
                cartridge.load_rom(image);
                assert(cartridge.state() =~= cartridge_of(image@));
                Ok(cartridge)
            },
        }
    }

    /// The cartridge's state as plain values.
    pub fn save_state(&self) -> (saved: CartridgeState)
        requires
            self.wf(),
        ensures
            saved@ == self.state(),
    {
        match self {
            Cartridge::Mbc0(mbc) => CartridgeState {
                kind: MbcKind::RomOnly,
                rom: copy_bytes(mbc.rom.as_slice()),
                ram: Vec::new(),
                ramg: 0,
                bank1: 1,
                bank2: 0,
                mode: false,
            },
            Cartridge::Mbc1(mbc) => CartridgeState {
                kind: MbcKind::Mbc1,
                rom: copy_bytes(mbc.rom.as_slice()),
                ram: copy_bytes(mbc.ram.as_slice()),
                ramg: mbc.ramg,
                bank1: mbc.bank1,
                bank2: mbc.bank2,
                mode: mbc.mode,
            },
            Cartridge::Mbc3(mbc) => CartridgeState {
                kind: MbcKind::Mbc3,
                rom: copy_bytes(mbc.rom.as_slice()),
                ram: copy_bytes(mbc.ram.as_slice()),
                ramg: mbc.ramg,
                bank1: mbc.bank1,
                bank2: mbc.bank2,
                mode: mbc.mode,
            },
        }
    }

    /// Make a cartridge from a saved state. A state whose sizes or register
    /// values no cartridge can have is refused.
    pub fn load_state(saved: &CartridgeState) -> (loaded: Option<Cartridge>)
        ensures
            loaded.is_some() == saved@.wf(),
            loaded matches Some(cartridge) ==> cartridge.wf() && Some(cartridge.state())
                == restored(saved@),
    {
        match saved.kind {
            MbcKind::RomOnly => {
                if saved.rom.len() == 0x8000 && saved.ram.len() == 0 && saved.ramg == 0
                    && saved.bank1 == 1 && saved.bank2 == 0 && !saved.mode {
                    let mut mbc = MBC0::new();
                    mbc.load_rom(saved.rom.as_slice());
                    let cartridge = Cartridge::Mbc0(mbc);
                    assert(cartridge.state() =~= saved@);
                    Some(cartridge)
                } else {
                    None
                }
            },
            MbcKind::Mbc1 => {
                if is_rom_len(saved.rom.len()) && is_ram_len(saved.ram.len()) && saved.ramg
                    < 0x10 && 1 <= saved.bank1 && saved.bank1 < 0x20 && saved.bank2 < 0x04 {
                    let rom_banks = saved.rom.len() / 0x4000;
                    let ram_banks = saved.ram.len() / 0x2000;
                    proof {
                        lemma_bank_mask_power_of_two(rom_banks as nat);
                        lemma_bank_mask_power_of_two(ram_banks as nat);
                    }
                    let mbc = MBC1 {
                        rom: copy_bytes(saved.rom.as_slice()),
                        ram: copy_bytes(saved.ram.as_slice()),
                        ramg: saved.ramg,
                        bank1: saved.bank1,
                        bank2: saved.bank2,
                        mode: saved.mode,
                        rom_bank_count: rom_banks as i32,
                        ram_bank_count: ram_banks as i32,
                        rom_mask: get_bit_mask(rom_banks) as u16,
                        ram_mask: get_bit_mask(ram_banks) as u16,
                    };
                    let cartridge = Cartridge::Mbc1(mbc);
                    assert(cartridge.state() =~= saved@);
                    Some(cartridge)
                } else {
                    None
                }
            },
            MbcKind::Mbc3 => {
                if is_rom_len(saved.rom.len()) && is_ram_len(saved.ram.len()) && saved.ramg
                    < 0x10 && 1 <= saved.bank1 && saved.bank1 < 0x80 && saved.bank2 < 0x10 {
                    let rom_banks = saved.rom.len() / 0x4000;
                    let ram_banks = saved.ram.len() / 0x2000;
                    proof {
                        lemma_bank_mask_power_of_two(rom_banks as nat);
                        lemma_bank_mask_power_of_two(ram_banks as nat);
                    }
                    let mbc = MBC3 {
                        rom: copy_bytes(saved.rom.as_slice()),
                        ram: copy_bytes(saved.ram.as_slice()),
                        ramg: saved.ramg,
                        bank1: saved.bank1,
                        bank2: saved.bank2,
                        mode: saved.mode,
                        rom_bank_count: rom_banks as i32,
                        ram_bank_count: ram_banks as i32,
                        rom_mask: get_bit_mask(rom_banks) as u16,
                        ram_mask: get_bit_mask(ram_banks) as u16,
                    };
                    let cartridge = Cartridge::Mbc3(mbc);
                    assert(cartridge.state() =~= saved@);
                    Some(cartridge)
                } else {
                    None
                }
            },
        }
    }
}

impl MBC for Cartridge {
    open spec fn wf(&self) -> bool {
        match self {
            Cartridge::Mbc0(mbc) => mbc.wf(),
            Cartridge::Mbc1(mbc) => mbc.wf(),
            Cartridge::Mbc3(mbc) => mbc.wf(),
        }
    }

    open spec fn state(&self) -> MbcState {
        match self {
            Cartridge::Mbc0(mbc) => mbc.state(),
            Cartridge::Mbc1(mbc) => mbc.state(),
            Cartridge::Mbc3(mbc) => mbc.state(),
        }
    }

    proof fn lemma_wf_state(&self) {
    }

    fn read_byte(&self, addr: u16) -> (byte: u8) {
        match self {
            Cartridge::Mbc0(mbc) => mbc.read_byte(addr),
            Cartridge::Mbc1(mbc) => mbc.read_byte(addr),
            Cartridge::Mbc3(mbc) => mbc.read_byte(addr),
        }
    }

    fn write_byte(&mut self, addr: u16, byte: u8) {
        match self {
            Cartridge::Mbc0(mbc) => mbc.write_byte(addr, byte),
            Cartridge::Mbc1(mbc) => mbc.write_byte(addr, byte),
            Cartridge::Mbc3(mbc) => mbc.write_byte(addr, byte),
        }
    }

    fn load_rom(&mut self, rom_data: &[u8]) {
        match self {
            Cartridge::Mbc0(mbc) => mbc.load_rom(rom_data),
            Cartridge::Mbc1(mbc) => mbc.load_rom(rom_data),
            Cartridge::Mbc3(mbc) => mbc.load_rom(rom_data),
        }
    }
}

/// What loading a saved state gives: the state, if a cartridge can have it,
/// and nothing otherwise.
pub open spec fn restored(saved: MbcState) -> Option<MbcState> {
    if saved.wf() {
        Some(saved)
    } else {
        None
    }
}

/// A cartridge that is saved and loaded again is the cartridge that was
/// saved: the load succeeds, and after any writes every read of the loaded
/// cartridge gives what the same read of the saved one gives.
pub proof fn lemma_save_load_round_trip(cart: MbcState, writes: Seq<(u16, u8)>, addr: u16)
    requires
        cart.wf(),
    ensures
        restored(cart) matches Some(loaded) && after_writes(loaded, writes).read(addr)
            == after_writes(cart, writes).read(addr),
        restored(cart) == Some(cart),
{
}

/// The state after a sequence of writes, each an address and a byte.
pub open spec fn after_writes(state: MbcState, writes: Seq<(u16, u8)>) -> MbcState
    decreases writes.len(),
{
    if writes.len() == 0 {
        state
    } else {
        after_writes(state, writes.drop_last()).write(writes.last().0, writes.last().1)
    }
}

/// Writes keep a state well-formed, and so does loading an image that fits.
pub proof fn lemma_write_keeps_wf(state: MbcState, addr: u16, byte: u8, data: Seq<u8>)
    requires
        state.wf(),
    ensures
        state.write(addr, byte).wf(),
        data.len() <= state.rom.len() ==> state.load(data).wf(),
        state.write(addr, byte).rom == state.rom,
        state.write(addr, byte).kind == state.kind,
        state.write(addr, byte).ram.len() == state.ram.len(),
{
    if state.kind != MbcKind::RomOnly && 0xA000 <= addr < 0xC000 && !state.rtc_selected()
        && state.ram_enabled() {
        assert(state.ram_bank() < state.ram_banks());
    }
}

} // verus!
