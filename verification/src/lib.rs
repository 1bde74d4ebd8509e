//! A cycle-counting emulator core for an 8-bit handheld console built around
//! the Sharp LR35902: CPU, pixel-processing unit, memory bus, bank-switching
//! cartridge controllers, timer, joypad and interrupt controller.
//!
//! Every function here carries a contract that is checked by Verus; the
//! contracts are stated over the spec functions that sit next to each type.

#![allow(unused_variables)]

pub mod gameboy;

pub use crate::gameboy::bus::Bus;
pub use crate::gameboy::cartridge::CartridgeHeader;
pub use crate::gameboy::cpu::CPU;
pub use crate::gameboy::gameboy::GameBoy;
pub use crate::gameboy::joypad::Joypad;
pub use crate::gameboy::joypad::JoypadInputKey;
pub use crate::gameboy::ppu::PPU;
pub use crate::gameboy::register::Registers;
pub use crate::gameboy::timer::Timer;
