//! The memory bus: the one address space through which the processor
//! reaches the cartridge, video memory, work RAM and the I/O registers.

use vstd::prelude::*;
use crate::gameboy::bits::{lemma_word_join, lemma_word_split, wrap16};
use crate::gameboy::cartridge::controller::Cartridge;
use crate::gameboy::cartridge::mbc::{MbcKind, MbcState, MBC};
use crate::gameboy::interrupt::Interrupt;
use crate::gameboy::joypad::Joypad;
use crate::gameboy::memory::Memory;
use crate::gameboy::ppu::PPU;
use crate::gameboy::ppu_state::PpuState;
use crate::gameboy::register::{high_byte, low_byte, word};
use crate::gameboy::timer::Timer;

verus! {

/// The size of the boot program.
pub const BOOT_ROM_SIZE: u16 = 0x100;

/// The address of the interrupt-request register IF.
pub const IF_REG: u16 = 0xFF0F;

/// The address of the interrupt-enable register IE.
pub const IE_REG: u16 = 0xFFFF;

/// Everything that is reached through the bus.
pub struct Bus {
    /// The I/O registers that no component claims: they hold what was
    /// written to them.
    pub ram: Memory,
    pub ppu: PPU,
    pub timer: Timer,
    /// The characters that the program has sent over the serial port.
    pub dbg: Vec<char>,
    pub mbc: Cartridge,
    pub joypad: Joypad,
    pub is_boot_rom_mapped: bool,
    pub boot_rom: [u8; 0x100],
    /// The last byte written to the transfer register at 0xFF46.
    pub dma_address_upper: u8,
    /// Work RAM, 0xC000 to 0xDFFF.
    pub wram: [u8; 0x2000],
    /// High RAM, 0xFF80 to 0xFFFE.
    pub hram: [u8; 0x7F],
    /// Serial control (0xFF02) and serial data (0xFF01), in this order.
    pub serial: [u8; 2],
    /// IF, the interrupts that are requested.
    pub interrupt_flags: u8,
    /// IE, the interrupts that are enabled.
    pub interrupts_enabled: u8,
}

/// The state of everything that is reached through the bus.
#[verifier::ext_equal]
pub struct BusState {
    pub cart: MbcState,
    pub ppu: PpuState,
    pub timer: Timer,
    pub joypad: Joypad,
    pub boot_rom: Seq<u8>,
    pub boot_mapped: bool,
    pub dma: u8,
    pub wram: Seq<u8>,
    pub hram: Seq<u8>,
    pub serial: Seq<u8>,
    pub io: Seq<u8>,
    pub dbg: Seq<char>,
    pub interrupt_flags: u8,
    pub interrupts_enabled: u8,
}

impl View for Bus {
    type V = BusState;

    open spec fn view(&self) -> BusState {
        BusState {
            cart: self.mbc.state(),
            ppu: self.ppu@,
            timer: self.timer,
            joypad: self.joypad,
            boot_rom: self.boot_rom@,
            boot_mapped: self.is_boot_rom_mapped,
            dma: self.dma_address_upper,
            wram: self.wram@,
            hram: self.hram@,
            serial: self.serial@,
            io: self.ram.ram@,
            dbg: self.dbg@,
            interrupt_flags: self.interrupt_flags,
            interrupts_enabled: self.interrupts_enabled,
        }
    }
}

impl BusState {
    /// The sizes of the memories, and the invariants of the components.
    pub open spec fn wf(self) -> bool {
        &&& self.cart.wf()
        &&& self.ppu.wf()
        &&& self.timer.wf()
        &&& self.boot_rom.len() == 0x100
        &&& self.wram.len() == 0x2000
        &&& self.hram.len() == 0x7F
        &&& self.serial.len() == 2
        &&& self.io.len() == 0x10000
    }

    /// The byte that a read of `address` gives.
    ///
    /// | Range | Content |
    /// |---|---|
    /// | 0x0000 to 0x7FFF | cartridge ROM, under the boot program while it is mapped |
    /// | 0x8000 to 0x9FFF | video RAM |
    /// | 0xA000 to 0xBFFF | cartridge RAM |
    /// | 0xC000 to 0xDFFF | work RAM |
    /// | 0xE000 to 0xFDFF | work RAM again |
    /// | 0xFE00 to 0xFE9F | the sprite table |
    /// | 0xFEA0 to 0xFEFF | nothing: 0xFF |
    /// | 0xFF00 to 0xFF7F | I/O registers |
    /// | 0xFF80 to 0xFFFE | high RAM |
    /// | 0xFFFF | IE |
    #[verifier::opaque]
    pub open spec fn read(self, address: u16) -> u8 {
        if address < 0x8000 {
            if self.boot_mapped && address < BOOT_ROM_SIZE {
                self.boot_rom[address as int]
            } else {
                self.cart.read(address)
            }
        } else if address < 0xA000 {
            self.ppu.read(address as int)
        } else if address < 0xC000 {
            self.cart.read(address)
        } else if address < 0xE000 {
            self.wram[address - 0xC000]
        } else if address < 0xFE00 {
            self.wram[address - 0xE000]
        } else if address < 0xFEA0 {
            self.ppu.read(address as int)
        } else if address < 0xFF00 {
            0xFF
        } else if address < 0xFF80 {
            self.read_io(address)
        } else if address < 0xFFFF {
            self.hram[address - 0xFF80]
        } else {
            self.interrupts_enabled
        }
    }

    /// The byte that a read of an I/O register gives.
    #[verifier::opaque]
    pub open spec fn read_io(self, address: u16) -> u8 {
        if address == 0xFF00 {
            self.joypad.read_spec()
        } else if address == 0xFF01 || address == 0xFF02 {
            self.serial[address as int % 2]
        } else if 0xFF04 <= address <= 0xFF07 {
            self.timer.read_spec(address - 0xFF04)
        } else if address == 0xFF0F {
            self.interrupt_flags
        } else if 0xFF10 <= address <= 0xFF3F {
            0x00
        } else if address == 0xFF46 {
            self.dma
        } else if 0xFF40 <= address <= 0xFF4B {
            self.ppu.read(address as int)
        } else if address == 0xFF4F {
            0xFF
        } else if address == 0xFF50 {
            if self.boot_mapped {
                1
            } else {
                0
            }
        } else {
            self.io[address as int]
        }
    }

    /// The state after `byte` is written to `address`. Writes to ROM set
    /// the cartridge's registers; writes to where nothing is mapped are
    /// dropped.
    #[verifier::opaque]
    pub open spec fn write(self, address: u16, byte: u8) -> BusState {
        if address < 0x8000 {
            BusState { cart: self.cart.write(address, byte), ..self }
        } else if address < 0xA000 {
            BusState { ppu: self.ppu.write(address as int, byte), ..self }
        } else if address < 0xC000 {
            BusState { cart: self.cart.write(address, byte), ..self }
        } else if address < 0xE000 {
            BusState { wram: self.wram.update(address - 0xC000, byte), ..self }
        } else if address < 0xFE00 {
            BusState { wram: self.wram.update(address - 0xE000, byte), ..self }
        } else if address < 0xFEA0 {
            BusState { ppu: self.ppu.write(address as int, byte), ..self }
        } else if address < 0xFF00 {
            self
        } else if address < 0xFF80 {
            self.write_io(address, byte)
        } else if address < 0xFFFF {
            BusState { hram: self.hram.update(address - 0xFF80, byte), ..self }
        } else {
            BusState { interrupts_enabled: byte, ..self }
        }
    }

    /// The state after `byte` is written to an I/O register.
    ///
    /// A write to 0xFF04 restarts the divider. A write to 0xFF46 copies 160
    /// bytes to the sprite table at once. A write of anything but zero to
    /// 0xFF50 unmaps the boot program for good.
    #[verifier::opaque]
    pub open spec fn write_io(self, address: u16, byte: u8) -> BusState {
        if address == 0xFF00 {
            BusState { joypad: self.joypad.write_spec(byte), ..self }
        } else if address == 0xFF01 || address == 0xFF02 {
            BusState { serial: self.serial.update(address as int % 2, byte), ..self }
        } else if 0xFF04 <= address <= 0xFF07 {
            BusState { timer: self.timer.write_spec(address - 0xFF04, byte), ..self }
        } else if address == 0xFF0F {
            BusState { interrupt_flags: byte, ..self }
        } else if 0xFF10 <= address <= 0xFF3F {
            self
        } else if address == 0xFF46 {
            self.dma_transfer(byte)
        } else if 0xFF40 <= address <= 0xFF4B {
            BusState { ppu: self.ppu.write(address as int, byte), ..self }
        } else if address == 0xFF4F {
            self
        } else if address == 0xFF50 {
            BusState { boot_mapped: self.boot_mapped && byte == 0, ..self }
        } else {
            BusState { io: self.io.update(address as int, byte), ..self }
        }
    }

    /// The state after a transfer from page `page`: the 160 bytes that
    /// reads of `page * 256` onwards give are the new sprite table.
    pub open spec fn dma_transfer(self, page: u8) -> BusState {
        let latched = BusState { dma: page, ..self };
        BusState {
            ppu: self.ppu.with_oam(
                Seq::new(0xA0, |i: int| latched.read((page as int * 256 + i) as u16)),
            ),
            ..latched
        }
    }

    /// The word at `address`: the low byte first. Addresses wrap.
    pub open spec fn read_word(self, address: u16) -> u16 {
        word(self.read(wrap16(address + 1)), self.read(address))
    }

    /// The state after a word is written to `address`, the low byte first.
    pub open spec fn write_word(self, address: u16, value: u16) -> BusState {
        self.write(address, low_byte(value)).write(wrap16(address + 1), high_byte(value))
    }

    /// The state after an interrupt is requested: its bit is set in IF.
    pub open spec fn request(self, interrupt: Interrupt) -> BusState {
        BusState { interrupt_flags: self.interrupt_flags | interrupt.flag_mask(), ..self }
    }

    /// The state after an interrupt is requested or not.
    pub open spec fn request_if(self, wanted: bool, interrupt: Interrupt) -> BusState {
        if wanted {
            self.request(interrupt)
        } else {
            self
        }
    }

    /// The state after `cycles` T-cycles: the timer and the
    /// pixel-processing unit have advanced, and the interrupts that they
    /// and the joypad have requested are set in IF.
    pub open spec fn tick(self, cycles: u8) -> BusState {
        let timer = self.timer.tick_spec(cycles as nat);
        let display = self.ppu.tick(cycles as nat);
        let moved = BusState {
            timer: Timer { raise_interrupt: None, ..timer },
            joypad: Joypad { raise_interrupt: None, ..self.joypad },
            ppu: display.ppu,
            ..self
        };
        moved.request_if(timer.raise_interrupt.is_some(), Interrupt::Timer).request_if(
            self.joypad.raise_interrupt.is_some(),
            Interrupt::Joypad,
        ).request_if(display.vblanks > 0, Interrupt::VBlank).request_if(
            display.lcds > 0,
            Interrupt::LCD,
        )
    }

    /// The state after the boot program is loaded and mapped.
    pub open spec fn load_boot_rom(self, data: Seq<u8>) -> BusState {
        BusState {
            boot_rom: data + self.boot_rom.skip(data.len() as int),
            boot_mapped: true,
            ..self
        }
    }

    /// The state after the serial port is looked at: if a transfer was
    /// started (0x81 in the control register), the data byte is taken as a
    /// character and the control register is cleared.
    pub open spec fn drain_serial(self) -> BusState {
        if self.read(0xFF02) == 0x81 {
            BusState { dbg: self.dbg.push(self.read(0xFF01) as char), ..self }.write(0xFF02, 0)
        } else {
            self
        }
    }

    /// The state at power-on, with an empty cartridge slot.
    pub open spec fn initial() -> BusState {
        BusState {
            cart: MbcState::blank(MbcKind::RomOnly, 0x8000, 0),
            ppu: PPU::initial(),
            timer: Timer::initial(),
            joypad: Joypad::initial(),
            boot_rom: Seq::new(0x100, |i: int| 0u8),
            boot_mapped: false,
            dma: 0,
            wram: Seq::new(0x2000, |i: int| 0u8),
            hram: Seq::new(0x7F, |i: int| 0u8),
            serial: seq![0xFFu8, 0u8],
            io: Seq::new(0x10000, |i: int| 0u8),
            dbg: Seq::empty(),
            interrupt_flags: 0,
            interrupts_enabled: 0,
        }
    }
}

impl Bus {
    /// The invariants of the components.
    pub open spec fn wf(&self) -> bool {
        &&& self.mbc.wf()
        &&& self.ppu.wf()
        &&& self.timer.wf()
    }

    /// The invariant of the bus includes that of its state.
    pub proof fn lemma_wf_state(&self)
        requires
            self.wf(),
        ensures
            self@.wf(),
    {
        self.mbc.lemma_wf_state();
    }

    pub fn new() -> (bus: Self)
        ensures
            bus.wf(),
            bus@ == BusState::initial(),
    {
        let bus = Bus {
            ram: Memory::new(),
            ppu: PPU::new(),
            timer: Timer::new(),
            dbg: Vec::new(),
            mbc: Cartridge::new(),
            joypad: Joypad::new(),
            is_boot_rom_mapped: false,
            boot_rom: [0u8; 0x100],
            dma_address_upper: 0,
            wram: [0u8; 0x2000],
            hram: [0u8; 0x7F],
            serial: [0xFF, 0],
            interrupt_flags: 0,
            interrupts_enabled: 0,
        };
        assert(bus@ =~~= BusState::initial());
        bus
    }

    /// Read the byte at `address`.
    pub fn ram_read_byte(&self, address: u16) -> (byte: u8)
        requires
            self.wf(),
        ensures
            byte == self@.read(address),
    {
        proof {
            reveal(BusState::read);
        }
        if address < 0x8000 {
            if self.is_boot_rom_mapped && address < BOOT_ROM_SIZE {
                self.boot_rom[address as usize]
            } else {
                self.mbc.read_byte(address)
            }
        } else if address < 0xA000 {
            self.ppu.read_byte((address - 0x8000) as usize, address as usize)
        } else if address < 0xC000 {
            self.mbc.read_byte(address)
        } else if address < 0xE000 {
            self.wram[(address - 0xC000) as usize]
        } else if address < 0xFE00 {
            self.wram[(address - 0xE000) as usize]
        } else if address < 0xFEA0 {
            self.ppu.read_byte((address - 0xFE00) as usize, address as usize)
        } else if address < 0xFF00 {
            0xFF
        } else if address < 0xFF80 {
            self.read_io(address)
        } else if address < 0xFFFF {
            self.hram[(address - 0xFF80) as usize]
        } else {
            self.interrupts_enabled
        }
    }

    /// Read an I/O register.
    fn read_io(&self, address: u16) -> (byte: u8)
        requires
            self.wf(),
            0xFF00 <= address < 0xFF80,
        ensures
            byte == self@.read_io(address),
    {
        proof {
            reveal(BusState::read_io);
        }
        if address == 0xFF00 {
            self.joypad.read_byte()
        } else if address == 0xFF01 || address == 0xFF02 {
            self.serial[(address % 2) as usize]
        } else if 0xFF04 <= address && address <= 0xFF07 {
            self.timer.read_byte((address - 0xFF04) as usize)
        } else if address == 0xFF0F {
            self.interrupt_flags
        } else if 0xFF10 <= address && address <= 0xFF3F {
            0x00
        } else if address == 0xFF46 {
            self.dma_address_upper
        } else if 0xFF40 <= address && address <= 0xFF4B {
            self.ppu.read_byte((address - 0xFF40) as usize, address as usize)
        } else if address == 0xFF4F {
            0xFF
        } else if address == 0xFF50 {
            if self.is_boot_rom_mapped {
                1
            } else {
                0
            }
        } else {
            self.ram.read_byte(address)
        }
    }

    /// Write `byte` to `address`.
    pub fn ram_write_byte(&mut self, address: u16, byte: u8)
        requires
            old(self).wf(),
        ensures
            final(self).wf(),
            final(self)@ == old(self)@.write(address, byte),
    {
        proof {
            reveal(BusState::write);
        }
        if address < 0x8000 {
            self.mbc.write_byte(address, byte);
        } else if address < 0xA000 {
            self.ppu.write_byte((address - 0x8000) as usize, address as usize, byte);
        } else if address < 0xC000 {
            self.mbc.write_byte(address, byte);
        } else if address < 0xE000 {
            self.wram[(address - 0xC000) as usize] = byte;
        } else if address < 0xFE00 {
            self.wram[(address - 0xE000) as usize] = byte;
        } else if address < 0xFEA0 {
            self.ppu.write_byte((address - 0xFE00) as usize, address as usize, byte);
        } else if address < 0xFF00 {
        } else if address < 0xFF80 {
            self.write_io(address, byte);
        } else if address < 0xFFFF {
            self.hram[(address - 0xFF80) as usize] = byte;
        } else {
            self.interrupts_enabled = byte;
        }
    }

    /// Write an I/O register.
    fn write_io(&mut self, address: u16, byte: u8)
        requires
            old(self).wf(),
            0xFF00 <= address < 0xFF80,
        ensures
            final(self).wf(),
            final(self)@ == old(self)@.write_io(address, byte),
    {
        proof {
            reveal(BusState::write_io);
        }
        if address == 0xFF00 {
            self.joypad.write_byte(byte);
        } else if address == 0xFF01 || address == 0xFF02 {
            self.serial[(address % 2) as usize] = byte;
        } else if 0xFF04 <= address && address <= 0xFF07 {
            self.timer.write_byte((address - 0xFF04) as usize, byte);
        } else if address == 0xFF0F {
            self.interrupt_flags = byte;
        } else if 0xFF10 <= address && address <= 0xFF3F {
        } else if address == 0xFF46 {
            self.dma_transfer(byte);
        } else if 0xFF40 <= address && address <= 0xFF4B {
            self.ppu.write_byte((address - 0xFF40) as usize, address as usize, byte);
        } else if address == 0xFF4F {
        } else if address == 0xFF50 {
            if byte != 0 {
                self.is_boot_rom_mapped = false;
            }
        } else {
            self.ram.write_byte(address, byte);
        }
    }

    /// Copy 160 bytes from page `address` to the sprite table. The copy is
    /// made at once, at the write that asks for it.
    fn dma_transfer(&mut self, address: u8)
        requires
            old(self).wf(),
        ensures
            final(self).wf(),
            final(self)@ == old(self)@.dma_transfer(address),
    {
        self.dma_address_upper = address;
        let ghost latched = self@;
        let real_addr: u16 = address as u16 * 256;
        let mut data: [u8; 0xA0] = [0u8; 0xA0];
        let mut index: u16 = 0;
        while index < 0xA0
            invariant
                index <= 0xA0,
                self.wf(),
                self@ == latched,
                real_addr == address * 256,
                forall|i: int|
                    0 <= i < index ==> (#[trigger] data[i]) == latched.read(
                        (address as int * 256 + i) as u16,
                    ),
            decreases 0xA0 - index,
        {
            data[index as usize] = self.ram_read_byte(real_addr + index);
            index = index + 1;
        }
        self.ppu.load_oam(&data);
        assert(self@.ppu.oam =~= old(self)@.dma_transfer(address).ppu.oam);
    }

    /// Read the word at `address`, low byte first.
    pub fn ram_read_word(&self, address: u16) -> (value: u16)
        requires
            self.wf(),
        ensures
            value == self@.read_word(address),
    {
        let lo = self.ram_read_byte(address);
        let hi = self.ram_read_byte(address.wrapping_add(1));
        proof {
            lemma_word_join(hi, lo);
        }
        ((hi as u16) << 8) | (lo as u16)
    }

    /// Write a word at `address`, low byte first.
    pub fn ram_write_word(&mut self, address: u16, word: u16)
        requires
            old(self).wf(),
        ensures
            final(self).wf(),
            final(self)@ == old(self)@.write_word(address, word),
    {
        proof {
            lemma_word_split(word);
        }
        self.ram_write_byte(address, (word & 0xFF) as u8);
        self.ram_write_byte(address.wrapping_add(1), (word >> 8) as u8);
    }

    /// Copy a ROM image into the cartridge. `addr` is not looked at.
    pub fn ram_load_rom(&mut self, buffer: &Vec<u8>, addr: usize)
        requires
            old(self).wf(),
            buffer@.len() <= old(self)@.cart.rom.len(),
        ensures
            final(self).wf(),
            final(self)@ == (BusState { cart: old(self)@.cart.load(buffer@), ..old(self)@ }),
    {
        self.mbc.load_rom(buffer.as_slice());
    }

    /// Load the boot program and map it over the start of ROM.
    pub fn ram_load_boot_rom(&mut self, buffer: &Vec<u8>)
        requires
            old(self).wf(),
            buffer@.len() <= BOOT_ROM_SIZE,
        ensures
            final(self).wf(),
            final(self)@ == old(self)@.load_boot_rom(buffer@),
    {
        let mut i: usize = 0;
        while i < buffer.len()
            invariant
                i <= buffer@.len() <= BOOT_ROM_SIZE,
                self.wf(),
                forall|j: int| 0 <= j < i ==> self.boot_rom@[j] == buffer@[j],
                forall|j: int| i <= j < 0x100 ==> self.boot_rom@[j] == old(self).boot_rom@[j],
                self@ == (BusState { boot_rom: self.boot_rom@, ..old(self)@ }),
            decreases buffer@.len() - i,
        {
            self.boot_rom[i] = buffer[i];
            i = i + 1;
        }
        self.is_boot_rom_mapped = true;
        assert(self@.boot_rom =~= old(self)@.load_boot_rom(buffer@).boot_rom);
    }

    /// Request an interrupt: set its bit in IF.
    pub fn trigger_interrupt(&mut self, interrupt: Interrupt)
        requires
            old(self).wf(),
        ensures
            final(self).wf(),
            final(self)@ == old(self)@.request(interrupt),
    {
        proof {
            lemma_interrupt_registers(self@, 0);
        }
        let interrupt_bit = interrupt.get_flag_mask();
        let ifr = self.ram_read_byte(IF_REG);
        proof {
            lemma_interrupt_registers(self@, ifr | interrupt_bit);
        }
        self.ram_write_byte(IF_REG, ifr | interrupt_bit);
    }

    /// Let `cycles` T-cycles pass for the timer and the pixel-processing
    /// unit, and set in IF the interrupts that were requested.
    pub fn tick(&mut self, cycles: u8)
        requires
            old(self).wf(),
        ensures
            final(self).wf(),
            final(self)@ == old(self)@.tick(cycles),
    {
        self.timer.tick(cycles);
        let timer_request = self.timer.take_interrupt();
        let joypad_request = self.joypad.take_interrupt();
        let ppu_interrupts = self.ppu.tick(cycles as u16);
        let ghost display = old(self)@.ppu.tick(cycles as nat);
        if timer_request.is_some() {
            self.trigger_interrupt(Interrupt::Timer);
        }
        if joypad_request.is_some() {
            self.trigger_interrupt(Interrupt::Joypad);
        }
        let mut vblank = false;
        let mut lcd = false;
        let mut i: usize = 0;
        while i < ppu_interrupts.len()
            invariant
                i <= ppu_interrupts@.len(),
                ppu_interrupts@ == crate::gameboy::ppu::interrupts_of(display),
                vblank == (display.vblanks > 0 && i >= 1),
                lcd == (display.lcds > 0 && i >= (if display.vblanks > 0 {
                    2int
                } else {
                    1int
                })),
            decreases ppu_interrupts@.len() - i,
        {
            match ppu_interrupts[i] {
                Interrupt::VBlank => {
                    vblank = true;
                },
                _ => {
                    lcd = true;
                },
            }
            i = i + 1;
        }
        if vblank {
            self.trigger_interrupt(Interrupt::VBlank);
        }
        if lcd {
            self.trigger_interrupt(Interrupt::LCD);
        }
    }

    /// Collect a character that the program has sent over the serial port.
    pub fn debug(&mut self)
        requires
            old(self).wf(),
        ensures
            final(self).wf(),
            final(self)@ == old(self)@.drain_serial(),
    {
        if self.ram_read_byte(0xFF02) == 0x81 {
            let c_byte = self.ram_read_byte(0xFF01);
            let c = c_byte as char;
            self.dbg.push(c);
            self.ram_write_byte(0xFF02, 0);
        }
    }
}

/// IF is at 0xFF0F and IE at 0xFFFF: reads give them, writes set them and
/// nothing else.
pub proof fn lemma_interrupt_registers(bus: BusState, byte: u8)
    ensures
        bus.read(IF_REG) == bus.interrupt_flags,
        bus.read(IE_REG) == bus.interrupts_enabled,
        bus.write(IF_REG, byte) == (BusState { interrupt_flags: byte, ..bus }),
        bus.write(IE_REG, byte) == (BusState { interrupts_enabled: byte, ..bus }),
{
    reveal(BusState::read);
    reveal(BusState::read_io);
    reveal(BusState::write);
    reveal(BusState::write_io);
}

} // verus!
