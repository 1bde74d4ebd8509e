pub mod bits;
pub mod interrupt;
pub mod flags_register;
pub mod register;
pub mod joypad;
pub mod timer;
pub mod cartridge;
pub mod memory;
pub mod pixel;
pub mod ppu_state;
pub mod ppu;
pub mod bus;
pub mod alu;
pub mod cpu;
pub mod semantics;
pub mod gameboy;
pub mod laws;
pub mod instruction;
