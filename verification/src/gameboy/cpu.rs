//! The processor: the register file, the interrupt master enable, and the
//! interpreter of the instruction set.

use vstd::prelude::*;
use crate::gameboy::alu::{
    add16, add8, add_offset, and8, bit_test, daa8, dec8, inc8, lemma_set_reset, lemma_shifts, or8,
    res8, rl8, rlc8, rr8, rrc8, set8, shifted, signed, sla8, sra8, srl8, sub8, swap8, xor8,
};
use crate::gameboy::bits::{
    bit, bit_weight, lemma_bit_tests, lemma_nibbles, lemma_word_join, lemma_word_masks,
};
use crate::gameboy::bus::{Bus, BusState};
use crate::gameboy::flags_register::{Flag, FlagsRegister};
use crate::gameboy::interrupt::Interrupt;
use crate::gameboy::register::{word, Registers};
use crate::gameboy::semantics::{
    accumulator_operation, alu_operation, execute, rotation, run, run_accumulator, run_block0,
    run_block1, run_block2, run_block3_high, run_block3_low, run_byte_counts, run_byte_loads,
    run_cb, run_control, run_indirect_loads, run_jumps_and_loads, run_pops, run_relative_jumps,
    run_returns_and_high_loads, run_wide_counts, run_wide_loads, service, step, Machine, Outcome,
};

verus! {

/// The processor.
#[derive(Clone, Copy, Debug, PartialEq, Eq, Structural)]
pub struct CPU {
    pub registers: Registers,
    /// IME, the interrupt master enable.
    pub ime: bool,
    /// EI has been executed and IME will be set once the next instruction
    /// is done.
    pub ime_scheduled: bool,
    /// HALT has been executed and no interrupt has been pending since.
    pub halted: bool,
    /// HALT has failed to stop the processor and the next opcode is read
    /// without PC moving on.
    pub halt_bug: bool,
    /// An opcode that is no instruction has been executed.
    pub locked: bool,
}

/// The processor and what is on the bus, taken together.
pub open spec fn pair(cpu: CPU, bus: BusState) -> Machine {
    Machine { cpu, bus }
}

/// A processor, what is on the bus, and a number of T-cycles, taken
/// together.
pub open spec fn outcome(cpu: CPU, bus: BusState, cycles: u8) -> Outcome {
    Outcome { cpu, bus, cycles }
}

/// The mask of bit `index`.
fn bit_mask(index: u8) -> (mask: u8)
    requires
        index < 8,
    ensures
        mask == bit_weight(index as int),
        forall|byte: u8| (byte & mask != 0) == bit(byte, index as int),
{
    let mask: u8 = match index {
        0 => 0x01,
        1 => 0x02,
        2 => 0x04,
        3 => 0x08,
        4 => 0x10,
        5 => 0x20,
        6 => 0x40,
        _ => 0x80,
    };
    assert forall|byte: u8| (byte & mask != 0) == bit(byte, index as int) by {
        lemma_bit_tests(byte);
    }
    mask
}

impl CPU {
    /// The processor as the boot program leaves it: the registers at their
    /// documented values, interrupts disabled.
    pub open spec fn initial() -> CPU {
        CPU {
            registers: Registers::after_boot(),
            ime: false,
            ime_scheduled: false,
            halted: false,
            halt_bug: false,
            locked: false,
        }
    }

    /// This processor with other registers.
    pub open spec fn with_registers(self, registers: Registers) -> CPU {
        CPU { registers, ..self }
    }

    /// This processor with other flags.
    pub open spec fn with_f(self, f: FlagsRegister) -> CPU {
        CPU { registers: Registers { f, ..self.registers }, ..self }
    }

    pub fn new() -> (cpu: Self)
        ensures
            cpu == CPU::initial(),
    {
        CPU {
            registers: Registers::new(),
            ime: false,
            ime_scheduled: false,
            halted: false,
            halt_bug: false,
            locked: false,
        }
    }

    /// Take one step: serve an interrupt or execute one instruction. The
    /// result is the number of T-cycles that the step took.
    pub fn step(&mut self, bus: &mut Bus) -> (cycles: u8)
        requires
            old(bus).wf(),
        ensures
            final(bus).wf(),
            outcome(*final(self), final(bus)@, cycles) == step(*old(self), old(bus)@),
            cycles >= 4,
            cycles % 4 == 0,
    {
        let pending = bus.interrupts_enabled & bus.interrupt_flags & 0x1F;
        if self.locked || (self.halted && pending == 0) {
            return 4;
        }
        self.halted = false;
        match Interrupt::select(pending) {
            Some(interrupt) => {
                if self.ime {
                    self.service_interrupt(bus, interrupt)
                } else {
                    self.execute(bus)
                }
            },
            None => self.execute(bus),
        }
    }

    /// Serve an interrupt.
    fn service_interrupt(&mut self, bus: &mut Bus, interrupt: Interrupt) -> (cycles: u8)
        requires
            old(bus).wf(),
        ensures
            final(bus).wf(),
            outcome(*final(self), final(bus)@, cycles) == service(
                pair(*old(self), old(bus)@),
                interrupt,
            ),
            cycles == 20,
    {
        proof {
            reveal(service);
        }
        self.ime = false;
        self.ime_scheduled = false;
        bus.interrupt_flags = bus.interrupt_flags & !interrupt.get_flag_mask();
        let pc = self.registers.pc;
        self.stack_push(bus, pc);
        self.registers.pc = interrupt.get_jump_addr() as u16;
        20
    }

    /// Fetch and execute one instruction.
    fn execute(&mut self, bus: &mut Bus) -> (cycles: u8)
        requires
            old(bus).wf(),
        ensures
            final(bus).wf(),
            outcome(*final(self), final(bus)@, cycles) == execute(pair(*old(self), old(bus)@)),
            cycles >= 4,
            cycles % 4 == 0,
    {
        proof {
            reveal(execute);
        }
        let opcode = bus.ram_read_byte(self.registers.pc);
        let enable_after = self.ime_scheduled;
        self.ime_scheduled = false;
        if self.halt_bug {
            self.halt_bug = false;
        } else {
            self.registers.pc = self.registers.pc.wrapping_add(1);
        }
        let cycles = self.run(bus, opcode);
        if enable_after && opcode != 0xF3 {
            self.ime = true;
        }
        cycles
    }

    /// Execute the instruction with the given opcode. PC is past the
    /// opcode.
    fn run(&mut self, bus: &mut Bus, opcode: u8) -> (cycles: u8)
        requires
            old(bus).wf(),
        ensures
            final(bus).wf(),
            outcome(*final(self), final(bus)@, cycles) == run(
                pair(*old(self), old(bus)@),
                opcode,
            ),
            cycles >= 4,
            cycles % 4 == 0,
    {
        proof {
            reveal(run);
        }
        if opcode < 0x40 {
            self.run_block0(bus, opcode)
        } else if opcode < 0x80 {
            self.run_block1(bus, opcode)
        } else if opcode < 0xC0 {
            self.run_block2(bus, opcode)
        } else if opcode % 8 < 4 {
            self.run_block3_low(bus, opcode)
        } else {
            self.run_block3_high(bus, opcode)
        }
    }

    /// The instructions 0x00 to 0x3F.
    fn run_block0(&mut self, bus: &mut Bus, opcode: u8) -> (cycles: u8)
        requires
            old(bus).wf(),
            opcode < 0x40,
        ensures
            final(bus).wf(),
            outcome(*final(self), final(bus)@, cycles) == run_block0(
                pair(*old(self), old(bus)@),
                opcode,
            ),
            cycles >= 4,
            cycles % 4 == 0,
    {
        let z = opcode % 8;
        if z == 0 {
            self.run_relative_jumps(bus, opcode)
        } else if z == 1 {
            self.run_wide_loads(bus, opcode)
        } else if z == 2 {
            self.run_indirect_loads(bus, opcode)
        } else if z == 3 {
            self.run_wide_counts(bus, opcode)
        } else if z == 4 || z == 5 {
            self.run_byte_counts(bus, opcode)
        } else if z == 6 {
            self.run_byte_loads(bus, opcode)
        } else {
            self.run_accumulator(bus, opcode)
        }
    }

    /// NOP, LD (nn),SP, STOP, JR e and JR cc,e.
    fn run_relative_jumps(&mut self, bus: &mut Bus, opcode: u8) -> (cycles: u8)
        requires
            old(bus).wf(),
            opcode < 0x40,
            opcode % 8 == 0,
        ensures
            final(bus).wf(),
            outcome(*final(self), final(bus)@, cycles) == run_relative_jumps(
                pair(*old(self), old(bus)@),
                opcode as int / 8 % 8,
            ),
            cycles >= 4,
            cycles % 4 == 0,
    {
        proof {
            reveal(run_relative_jumps);
        }
        let y = opcode / 8 % 8;
        let p = y / 2;
        let q = y % 2;
        if y == 0 {
            4
        } else if y == 1 {
            let addr = self.read_word(bus);
            bus.ram_write_word(addr, self.registers.sp);
            20
        } else if y == 2 {
            let _ = self.read_byte(bus);
            bus.ram_write_byte(0xFF04, 0);
            4
        } else if y == 3 {
            let offset = self.read_byte(bus);
            self.jump_relative(offset);
            12
        } else {
            let offset = self.read_byte(bus);
            if self.condition(y - 4) {
                self.jump_relative(offset);
                12
            } else {
                8
            }
        }
    }

    /// LD rr,nn and ADD HL,rr.
    fn run_wide_loads(&mut self, bus: &mut Bus, opcode: u8) -> (cycles: u8)
        requires
            old(bus).wf(),
            opcode < 0x40,
            opcode % 8 == 1,
        ensures
            final(bus).wf(),
            outcome(*final(self), final(bus)@, cycles) == run_wide_loads(
                pair(*old(self), old(bus)@),
                opcode as int / 8 % 8 / 2,
                opcode as int / 8 % 8 % 2,
            ),
            cycles >= 4,
            cycles % 4 == 0,
    {
        proof {
            reveal(run_wide_loads);
        }
        let y = opcode / 8 % 8;
        let p = y / 2;
        let q = y % 2;
        if q == 0 {
            let value = self.read_word(bus);
            self.write_r16(p, value);
            12
        } else {
            let value = self.read_r16(p);
            self.alu_add_16(value);
            8
        }
    }

    /// The loads between A and the byte that BC, DE or HL points at, with
    /// HL moving up or down afterwards.
    fn run_indirect_loads(&mut self, bus: &mut Bus, opcode: u8) -> (cycles: u8)
        requires
            old(bus).wf(),
            opcode < 0x40,
            opcode % 8 == 2,
        ensures
            final(bus).wf(),
            outcome(*final(self), final(bus)@, cycles) == run_indirect_loads(
                pair(*old(self), old(bus)@),
                opcode as int / 8 % 8 / 2,
                opcode as int / 8 % 8 % 2,
            ),
            cycles >= 4,
            cycles % 4 == 0,
    {
        proof {
            reveal(run_indirect_loads);
        }
        let y = opcode / 8 % 8;
        let p = y / 2;
        let q = y % 2;
        let addr = if p == 0 {
            self.registers.get_bc()
        } else if p == 1 {
            self.registers.get_de()
        } else if p == 2 {
            self.registers.hli()
        } else {
            self.registers.hld()
        };
        if q == 0 {
            bus.ram_write_byte(addr, self.registers.a);
        } else {
            self.registers.a = bus.ram_read_byte(addr);
        }
        8
    }

    /// INC rr and DEC rr.
    fn run_wide_counts(&mut self, bus: &mut Bus, opcode: u8) -> (cycles: u8)
        requires
            old(bus).wf(),
            opcode < 0x40,
            opcode % 8 == 3,
        ensures
            final(bus).wf(),
            outcome(*final(self), final(bus)@, cycles) == run_wide_counts(
                pair(*old(self), old(bus)@),
                opcode as int / 8 % 8 / 2,
                opcode as int / 8 % 8 % 2,
            ),
            cycles >= 4,
            cycles % 4 == 0,
    {
        proof {
            reveal(run_wide_counts);
        }
        let y = opcode / 8 % 8;
        let p = y / 2;
        let q = y % 2;
        let value = self.read_r16(p);
        if q == 0 {
            self.write_r16(p, value.wrapping_add(1));
        } else {
            self.write_r16(p, value.wrapping_sub(1));
        }
        8
    }

    /// INC r and DEC r.
    fn run_byte_counts(&mut self, bus: &mut Bus, opcode: u8) -> (cycles: u8)
        requires
            old(bus).wf(),
            opcode < 0x40,
            opcode % 8 == 4 || opcode % 8 == 5,
        ensures
            final(bus).wf(),
            outcome(*final(self), final(bus)@, cycles) == run_byte_counts(
                pair(*old(self), old(bus)@),
                opcode as int / 8 % 8,
                opcode as int % 8,
            ),
            cycles >= 4,
            cycles % 4 == 0,
    {
        proof {
            reveal(run_byte_counts);
        }
        let y = opcode / 8 % 8;
        let p = y / 2;
        let q = y % 2;
        let z = opcode % 8;
        let value = self.read_r8(bus, y);
        let result = if z == 4 {
            self.inc(value)
        } else {
            self.dec(value)
        };
        self.write_r8(bus, y, result);
        if y == 6 {
            12
        } else {
            4
        }
    }

    /// LD r,n.
    fn run_byte_loads(&mut self, bus: &mut Bus, opcode: u8) -> (cycles: u8)
        requires
            old(bus).wf(),
            opcode < 0x40,
            opcode % 8 == 6,
        ensures
            final(bus).wf(),
            outcome(*final(self), final(bus)@, cycles) == run_byte_loads(
                pair(*old(self), old(bus)@),
                opcode as int / 8 % 8,
            ),
            cycles >= 4,
            cycles % 4 == 0,
    {
        proof {
            reveal(run_byte_loads);
        }
        let y = opcode / 8 % 8;
        let p = y / 2;
        let q = y % 2;
        let value = self.read_byte(bus);
        self.write_r8(bus, y, value);
        if y == 6 {
            12
        } else {
            8
        }
    }

    /// RLCA, RRCA, RLA, RRA, DAA, CPL, SCF and CCF.
    fn run_accumulator(&mut self, bus: &mut Bus, opcode: u8) -> (cycles: u8)
        requires
            old(bus).wf(),
            opcode < 0x40,
            opcode % 8 == 7,
        ensures
            final(bus).wf(),
            outcome(*final(self), final(bus)@, cycles) == run_accumulator(
                pair(*old(self), old(bus)@),
                opcode as int / 8 % 8,
            ),
            cycles >= 4,
            cycles % 4 == 0,
    {
        proof {
            reveal(run_accumulator);
        }
        let y = opcode / 8 % 8;
        let p = y / 2;
        let q = y % 2;
        self.accumulator_operation(y);
        4
    }

    /// The instructions 0x40 to 0x7F.
    fn run_block1(&mut self, bus: &mut Bus, opcode: u8) -> (cycles: u8)
        requires
            old(bus).wf(),
            0x40 <= opcode < 0x80,
        ensures
            final(bus).wf(),
            outcome(*final(self), final(bus)@, cycles) == run_block1(
                pair(*old(self), old(bus)@),
                opcode,
            ),
            cycles >= 4,
            cycles % 4 == 0,
    {
        proof {
            reveal(run_block1);
        }
        let y = opcode / 8 % 8;
        let z = opcode % 8;
        if opcode == 0x76 {
            let pending = bus.interrupts_enabled & bus.interrupt_flags & 0x1F;
            if self.ime || pending == 0 {
                self.halted = true;
            } else {
                self.halt_bug = true;
            }
            4
        } else {
            let value = self.read_r8(bus, z);
            self.write_r8(bus, y, value);
            if y == 6 || z == 6 {
                8
            } else {
                4
            }
        }
    }

    /// The instructions 0x80 to 0xBF.
    fn run_block2(&mut self, bus: &mut Bus, opcode: u8) -> (cycles: u8)
        requires
            old(bus).wf(),
            0x80 <= opcode < 0xC0,
        ensures
            final(bus).wf(),
            final(bus)@ == old(bus)@,
            outcome(*final(self), final(bus)@, cycles) == run_block2(
                pair(*old(self), old(bus)@),
                opcode,
            ),
            cycles >= 4,
            cycles % 4 == 0,
    {
        proof {
            reveal(run_block2);
        }
        let y = opcode / 8 % 8;
        let z = opcode % 8;
        let value = self.read_r8(bus, z);
        self.alu(y, value);
        if z == 6 {
            8
        } else {
            4
        }
    }

    /// The instructions 0xC0 to 0xFF whose low three bits are 0 to 3.
    fn run_block3_low(&mut self, bus: &mut Bus, opcode: u8) -> (cycles: u8)
        requires
            old(bus).wf(),
            0xC0 <= opcode,
            opcode % 8 < 4,
        ensures
            final(bus).wf(),
            outcome(*final(self), final(bus)@, cycles) == run_block3_low(
                pair(*old(self), old(bus)@),
                opcode,
            ),
            cycles >= 4,
            cycles % 4 == 0,
    {
        let z = opcode % 8;
        if z == 0 {
            self.run_returns_and_high_loads(bus, opcode)
        } else if z == 1 {
            self.run_pops(bus, opcode)
        } else if z == 2 {
            self.run_jumps_and_loads(bus, opcode)
        } else {
            self.run_control(bus, opcode)
        }
    }

    /// RET cc, LDH (n),A, ADD SP,e, LDH A,(n) and LD HL,SP+e.
    fn run_returns_and_high_loads(&mut self, bus: &mut Bus, opcode: u8) -> (cycles: u8)
        requires
            old(bus).wf(),
            0xC0 <= opcode,
            opcode % 8 == 0,
        ensures
            final(bus).wf(),
            outcome(*final(self), final(bus)@, cycles) == run_returns_and_high_loads(
                pair(*old(self), old(bus)@),
                opcode as int / 8 % 8,
            ),
            cycles >= 4,
            cycles % 4 == 0,
    {
        proof {
            reveal(run_returns_and_high_loads);
        }
        let y = opcode / 8 % 8;
        let p = y / 2;
        let q = y % 2;
        if y < 4 {
            if self.condition(y) {
                self.ret(bus);
                20
            } else {
                8
            }
        } else if y == 4 {
            let offset = self.read_byte(bus);
            bus.ram_write_byte(0xFF00 + offset as u16, self.registers.a);
            12
        } else if y == 5 {
            let offset = self.read_byte(bus);
            self.registers.sp = self.alu_add_16_imm(self.registers.sp, offset);
            16
        } else if y == 6 {
            let offset = self.read_byte(bus);
            self.registers.a = bus.ram_read_byte(0xFF00 + offset as u16);
            12
        } else {
            let offset = self.read_byte(bus);
            let value = self.alu_add_16_imm(self.registers.sp, offset);
            self.registers.set_hl(value);
            12
        }
    }

    /// POP rr, RET, RETI, JP HL and LD SP,HL.
    fn run_pops(&mut self, bus: &mut Bus, opcode: u8) -> (cycles: u8)
        requires
            old(bus).wf(),
            0xC0 <= opcode,
            opcode % 8 == 1,
        ensures
            final(bus).wf(),
            outcome(*final(self), final(bus)@, cycles) == run_pops(
                pair(*old(self), old(bus)@),
                opcode as int / 8 % 8 / 2,
                opcode as int / 8 % 8 % 2,
            ),
            cycles >= 4,
            cycles % 4 == 0,
    {
        proof {
            reveal(run_pops);
        }
        let y = opcode / 8 % 8;
        let p = y / 2;
        let q = y % 2;
        if q == 0 {
            let value = self.stack_pop(bus);
            if p == 3 {
                self.registers.set_af(value);
            } else {
                self.write_r16(p, value);
            }
            12
        } else if p == 0 {
            self.ret(bus);
            16
        } else if p == 1 {
            self.ret(bus);
            self.ime = true;
            16
        } else if p == 2 {
            let target = self.registers.get_hl();
            self.jump_to(target);
            4
        } else {
            self.registers.sp = self.registers.get_hl();
            8
        }
    }

    /// JP cc,nn and the loads between A and (0xFF00+C) or (nn).
    fn run_jumps_and_loads(&mut self, bus: &mut Bus, opcode: u8) -> (cycles: u8)
        requires
            old(bus).wf(),
            0xC0 <= opcode,
            opcode % 8 == 2,
        ensures
            final(bus).wf(),
            outcome(*final(self), final(bus)@, cycles) == run_jumps_and_loads(
                pair(*old(self), old(bus)@),
                opcode as int / 8 % 8,
            ),
            cycles >= 4,
            cycles % 4 == 0,
    {
        proof {
            reveal(run_jumps_and_loads);
        }
        let y = opcode / 8 % 8;
        let p = y / 2;
        let q = y % 2;
        if y < 4 {
            let target = self.read_word(bus);
            if self.condition(y) {
                self.jump_to(target);
                16
            } else {
                12
            }
        } else if y == 4 {
            bus.ram_write_byte(0xFF00 + self.registers.c as u16, self.registers.a);
            8
        } else if y == 5 {
            let addr = self.read_word(bus);
            bus.ram_write_byte(addr, self.registers.a);
            16
        } else if y == 6 {
            self.registers.a = bus.ram_read_byte(0xFF00 + self.registers.c as u16);
            8
        } else {
            let addr = self.read_word(bus);
            self.registers.a = bus.ram_read_byte(addr);
            16
        }
    }

    /// JP nn, the prefix 0xCB, DI, EI, and the opcodes 0xD3, 0xDB, 0xE3
    /// and 0xEB, which are no instructions.
    fn run_control(&mut self, bus: &mut Bus, opcode: u8) -> (cycles: u8)
        requires
            old(bus).wf(),
            0xC0 <= opcode,
            opcode % 8 == 3,
        ensures
            final(bus).wf(),
            outcome(*final(self), final(bus)@, cycles) == run_control(
                pair(*old(self), old(bus)@),
                opcode as int / 8 % 8,
            ),
            cycles >= 4,
            cycles % 4 == 0,
    {
        proof {
            reveal(run_control);
        }
        let y = opcode / 8 % 8;
        let p = y / 2;
        let q = y % 2;
        if y == 0 {
            let target = self.read_word(bus);
            self.jump_to(target);
            16
        } else if y == 1 {
            self.step_cb(bus)
        } else if y == 6 {
            self.ime = false;
            self.ime_scheduled = false;
            4
        } else if y == 7 {
            self.ime_scheduled = true;
            4
        } else {
            self.locked = true;
            4
        }
    }

    /// The instructions 0xC0 to 0xFF whose low three bits are 4 to 7.
    fn run_block3_high(&mut self, bus: &mut Bus, opcode: u8) -> (cycles: u8)
        requires
            old(bus).wf(),
            0xC0 <= opcode,
            opcode % 8 >= 4,
        ensures
            final(bus).wf(),
            outcome(*final(self), final(bus)@, cycles) == run_block3_high(
                pair(*old(self), old(bus)@),
                opcode,
            ),
            cycles >= 4,
            cycles % 4 == 0,
    {
        proof {
            reveal(run_block3_high);
        }
        let y = opcode / 8 % 8;
        let z = opcode % 8;
        let p = y / 2;
        let q = y % 2;
        if z == 4 {
            if y < 4 {
                let target = self.read_word(bus);
                if self.condition(y) {
                    self.call(bus, target);
                    24
                } else {
                    12
                }
            } else {
                self.locked = true;
                4
            }
        } else if z == 5 {
            if q == 0 {
                let value = if p == 3 {
                    self.registers.get_af()
                } else {
                    self.read_r16(p)
                };
                self.stack_push(bus, value);
                16
            } else if p == 0 {
                let target = self.read_word(bus);
                self.call(bus, target);
                24
            } else {
                self.locked = true;
                4
            }
        } else if z == 6 {
            let value = self.read_byte(bus);
            self.alu(y, value);
            8
        } else {
            self.rst(bus, (y * 8) as u16);
            16
        }
    }

    /// The instructions behind the prefix 0xCB. PC is at the byte after the
    /// prefix.
    fn step_cb(&mut self, bus: &mut Bus) -> (cycles: u8)
        requires
            old(bus).wf(),
        ensures
            final(bus).wf(),
            outcome(*final(self), final(bus)@, cycles) == run_cb(
                pair(*old(self), old(bus)@).skip(1),
                pair(*old(self), old(bus)@).imm8(),
            ),
            cycles >= 8,
            cycles % 4 == 0,
    {
        proof {
            reveal(run_cb);
        }
        let opcode = self.read_byte(bus);
        let x = opcode / 64;
        let y = opcode / 8 % 8;
        let z = opcode % 8;
        let value = self.read_r8(bus, z);
        if x == 0 {
            let result = self.rotation(y, value);
            self.write_r8(bus, z, result);
            if z == 6 {
                16
            } else {
                8
            }
        } else if x == 1 {
            self.test_bit(value, y);
            if z == 6 {
                12
            } else {
                8
            }
        } else if x == 2 {
            let result = self.reset_bit(value, y);
            self.write_r8(bus, z, result);
            if z == 6 {
                16
            } else {
                8
            }
        } else {
            let result = self.set_bit(value, y);
            self.write_r8(bus, z, result);
            if z == 6 {
                16
            } else {
                8
            }
        }
    }

    // Operands

    /// Join two bytes into a word: `a` is the high byte.
    fn form_16bit(a: u8, b: u8) -> (value: u16)
        ensures
            value == word(a, b),
    {
        proof {
            lemma_word_join(a, b);
        }
        ((a as u16) << 8) | (b as u16)
    }

    /// Read the byte at PC and move PC past it.
    fn read_byte(&mut self, bus: &Bus) -> (imm1: u8)
        requires
            bus.wf(),
        ensures
            imm1 == pair(*old(self), bus@).imm8(),
            pair(*final(self), bus@) == pair(*old(self), bus@).skip(1),
    {
        let imm1 = bus.ram_read_byte(self.registers.pc);
        self.registers.pc = self.registers.pc.wrapping_add(1);
        imm1
    }

    /// Read the word at PC, low byte first, and move PC past it.
    fn read_word(&mut self, bus: &Bus) -> (addr: u16)
        requires
            bus.wf(),
        ensures
            addr == pair(*old(self), bus@).imm16(),
            pair(*final(self), bus@) == pair(*old(self), bus@).skip(2),
    {
        let imm1 = bus.ram_read_byte(self.registers.pc);
        let imm2 = bus.ram_read_byte(self.registers.pc.wrapping_add(1));
        let addr: u16 = CPU::form_16bit(imm2, imm1);
        self.registers.pc = self.registers.pc.wrapping_add(2);
        addr
    }

    fn read_ram_at_hl(&self, bus: &Bus) -> (byte: u8)
        requires
            bus.wf(),
        ensures
            byte == bus@.read(self.registers.hl()),
    {
        bus.ram_read_byte(self.registers.get_hl())
    }

    fn write_ram_at_hl(&self, bus: &mut Bus, byte: u8)
        requires
            old(bus).wf(),
        ensures
            final(bus).wf(),
            final(bus)@ == old(bus)@.write(self.registers.hl(), byte),
    {
        bus.ram_write_byte(self.registers.get_hl(), byte);
    }

    /// Read the eight-bit operand with the given number: B, C, D, E, H, L,
    /// (HL), A.
    fn read_r8(&self, bus: &Bus, index: u8) -> (value: u8)
        requires
            bus.wf(),
            index < 8,
        ensures
            value == pair(*self, bus@).r8(index as int),
    {
        match index {
            0 => self.registers.b,
            1 => self.registers.c,
            2 => self.registers.d,
            3 => self.registers.e,
            4 => self.registers.h,
            5 => self.registers.l,
            6 => self.read_ram_at_hl(bus),
            _ => self.registers.a,
        }
    }

    /// Write the eight-bit operand with the given number.
    fn write_r8(&mut self, bus: &mut Bus, index: u8, value: u8)
        requires
            old(bus).wf(),
            index < 8,
        ensures
            final(bus).wf(),
            pair(*final(self), final(bus)@) == pair(*old(self), old(bus)@).set_r8(
                index as int,
                value,
            ),
    {
        match index {
            0 => {
                self.registers.b = value;
            },
            1 => {
                self.registers.c = value;
            },
            2 => {
                self.registers.d = value;
            },
            3 => {
                self.registers.e = value;
            },
            4 => {
                self.registers.h = value;
            },
            5 => {
                self.registers.l = value;
            },
            6 => {
                self.write_ram_at_hl(bus, value);
            },
            _ => {
                self.registers.a = value;
            },
        }
    }

    /// Read the register pair with the given number: BC, DE, HL, SP.
    fn read_r16(&self, index: u8) -> (value: u16)
        requires
            index < 4,
        ensures
            forall|bus: BusState| value == (#[trigger] pair(*self, bus)).r16(index as int),
    {
        match index {
            0 => self.registers.get_bc(),
            1 => self.registers.get_de(),
            2 => self.registers.get_hl(),
            _ => self.registers.sp,
        }
    }

    /// Write the register pair with the given number.
    fn write_r16(&mut self, index: u8, value: u16)
        requires
            index < 4,
        ensures
            forall|bus: BusState|
                pair(*final(self), bus) == (#[trigger] pair(*old(self), bus)).set_r16(
                    index as int,
                    value,
                ),
    {
        match index {
            0 => self.registers.set_bc(value),
            1 => self.registers.set_de(value),
            2 => self.registers.set_hl(value),
            _ => {
                self.registers.sp = value;
            },
        }
    }

    /// The condition with the given number: NZ, Z, NC, C.
    fn condition(&self, index: u8) -> (holds: bool)
        requires
            index < 4,
        ensures
            forall|bus: BusState| holds == (#[trigger] pair(*self, bus)).condition(index as int),
    {
        match index {
            0 => !self.registers.f.zero,
            1 => self.registers.f.zero,
            2 => !self.registers.f.carry,
            _ => self.registers.f.carry,
        }
    }

    // The stack

    /// Push a word: SP goes down by two and the word is written there.
    fn stack_push(&mut self, bus: &mut Bus, word: u16)
        requires
            old(bus).wf(),
        ensures
            final(bus).wf(),
            pair(*final(self), final(bus)@) == pair(*old(self), old(bus)@).push(word),
    {
        self.registers.sp = self.registers.sp.wrapping_sub(2);
        bus.ram_write_word(self.registers.sp, word);
    }

    /// Pop a word: it is read at SP, and SP goes up by two.
    fn stack_pop(&mut self, bus: &Bus) -> (word: u16)
        requires
            bus.wf(),
        ensures
            word == pair(*old(self), bus@).top(),
            pair(*final(self), bus@) == pair(*old(self), bus@).drop_top(),
    {
        let word = bus.ram_read_word(self.registers.sp);
        self.registers.sp = self.registers.sp.wrapping_add(2);
        word
    }

    // The arithmetic unit

    /// Take over the result of an operation: the value into A, the flags
    /// into F.
    fn store(&mut self, value: u8, flags: FlagsRegister)
        ensures
            *final(self) == old(self).with_registers(
                Registers { a: value, f: flags, ..old(self).registers },
            ),
    {
        self.registers.a = value;
        self.registers.f = flags;
    }

    /// ADD A,b; with `carry`, ADC A,b.
    fn alu_add(&mut self, b: u8, carry: bool)
        ensures
            *final(self) == old(self).with_registers(
                Registers {
                    a: add8(old(self).registers.a, b, carry && old(self).registers.f.carry).value,
                    f: add8(old(self).registers.a, b, carry && old(self).registers.f.carry).flags,
                    ..old(self).registers
                },
            ),
    {
        let c: u8 = if carry && self.registers.f.carry {
            1
        } else {
            0
        };
        let a = self.registers.a;
        proof {
            lemma_nibbles(a);
            lemma_nibbles(b);
        }
        let sum: u16 = (a as u16) + (b as u16) + (c as u16);
        let result = (sum % 256) as u8;
        let half = (a & 0xF) + (b & 0xF) + c > 0xF;
        self.store(
            result,
            FlagsRegister { zero: result == 0, subtract: false, half_carry: half, carry: sum > 0xFF },
        );
    }

    /// SUB b; with `carry`, SBC A,b.
    fn alu_sub(&mut self, b: u8, carry: bool)
        ensures
            *final(self) == old(self).with_registers(
                Registers {
                    a: sub8(old(self).registers.a, b, carry && old(self).registers.f.carry).value,
                    f: sub8(old(self).registers.a, b, carry && old(self).registers.f.carry).flags,
                    ..old(self).registers
                },
            ),
    {
        let c: u8 = if carry && self.registers.f.carry {
            1
        } else {
            0
        };
        let a = self.registers.a;
        proof {
            lemma_nibbles(a);
            lemma_nibbles(b);
        }
        let result = a.wrapping_sub(b).wrapping_sub(c);
        self.registers.f.flag(Flag::Z, result == 0);
        self.registers.f.flag(Flag::N, true);
        self.registers.f.flag(Flag::H, (a & 0xF) < (b & 0xF) + c);
        self.registers.f.flag(Flag::C, (a as u16) < (b as u16) + (c as u16));
        self.registers.a = result;
    }

    /// AND b.
    fn alu_and(&mut self, b: u8)
        ensures
            *final(self) == old(self).with_registers(
                Registers {
                    a: and8(old(self).registers.a, b).value,
                    f: and8(old(self).registers.a, b).flags,
                    ..old(self).registers
                },
            ),
    {
        let result = self.registers.a & b;
        self.registers.f.flag(Flag::Z, result == 0);
        self.registers.f.flag(Flag::N, false);
        self.registers.f.flag(Flag::H, true);
        self.registers.f.flag(Flag::C, false);
        self.registers.a = result;
    }

    /// OR b.
    fn alu_or(&mut self, b: u8)
        ensures
            *final(self) == old(self).with_registers(
                Registers {
                    a: or8(old(self).registers.a, b).value,
                    f: or8(old(self).registers.a, b).flags,
                    ..old(self).registers
                },
            ),
    {
        let result = self.registers.a | b;
        self.registers.f.flag(Flag::Z, result == 0);
        self.registers.f.flag(Flag::N, false);
        self.registers.f.flag(Flag::H, false);
        self.registers.f.flag(Flag::C, false);
        self.registers.a = result;
    }

    /// XOR b.
    fn alu_xor(&mut self, b: u8)
        ensures
            *final(self) == old(self).with_registers(
                Registers {
                    a: xor8(old(self).registers.a, b).value,
                    f: xor8(old(self).registers.a, b).flags,
                    ..old(self).registers
                },
            ),
    {
        let result = self.registers.a ^ b;
        self.registers.f.flag(Flag::Z, result == 0);
        self.registers.f.flag(Flag::N, false);
        self.registers.f.flag(Flag::H, false);
        self.registers.f.flag(Flag::C, false);
        self.registers.a = result;
    }

    /// CP b: the flags of SUB b, with A left alone.
    fn alu_cp(&mut self, b: u8)
        ensures
            *final(self) == old(self).with_f(sub8(old(self).registers.a, b, false).flags),
    {
        let a = self.registers.a;
        self.alu_sub(b, false);
        self.registers.a = a;
    }

    /// The operation with the given number on A and `b`: ADD, ADC, SUB,
    /// SBC, AND, XOR, OR, CP.
    fn alu(&mut self, index: u8, b: u8)
        requires
            index < 8,
        ensures
            forall|bus: BusState|
                pair(*final(self), bus) == (#[trigger] pair(*old(self), bus)).apply(
                    alu_operation(index as int, old(self).registers.a, b, old(self).registers.f),
                ),
    {
        match index {
            0 => self.alu_add(b, false),
            1 => self.alu_add(b, true),
            2 => self.alu_sub(b, false),
            3 => self.alu_sub(b, true),
            4 => self.alu_and(b),
            5 => self.alu_xor(b),
            6 => self.alu_or(b),
            _ => self.alu_cp(b),
        }
    }

    /// INC of a byte; the result is handed back and the flags are set.
    fn inc(&mut self, a: u8) -> (result: u8)
        ensures
            result == inc8(a, old(self).registers.f).value,
            *final(self) == old(self).with_f(inc8(a, old(self).registers.f).flags),
    {
        proof {
            lemma_nibbles(a);
        }
        let result = a.wrapping_add(1);
        self.registers.f.flag(Flag::Z, result == 0);
        self.registers.f.flag(Flag::N, false);
        self.registers.f.flag(Flag::H, (a & 0xF) + 1 > 0xF);
        result
    }

    /// DEC of a byte; the result is handed back and the flags are set.
    fn dec(&mut self, a: u8) -> (result: u8)
        ensures
            result == dec8(a, old(self).registers.f).value,
            *final(self) == old(self).with_f(dec8(a, old(self).registers.f).flags),
    {
        proof {
            lemma_nibbles(a);
        }
        let result = a.wrapping_sub(1);
        self.registers.f.flag(Flag::Z, result == 0);
        self.registers.f.flag(Flag::N, true);
        self.registers.f.flag(Flag::H, (a & 0x0F) == 0);
        result
    }

    /// The sum of a word and a signed byte, as ADD SP,e computes it; the
    /// sum is handed back and the flags are set.
    fn alu_add_16_imm(&mut self, a: u16, b: u8) -> (result: u16)
        ensures
            result == add_offset(a, b).value,
            *final(self) == old(self).with_f(add_offset(a, b).flags),
    {
        proof {
            lemma_word_masks(a);
            lemma_nibbles(b);
        }
        let result = if b < 128 {
            a.wrapping_add(b as u16)
        } else {
            a.wrapping_sub(256 - b as u16)
        };
        self.registers.f.flag(Flag::Z, false);
        self.registers.f.flag(Flag::N, false);
        self.registers.f.flag(Flag::H, (a & 0xF) + ((b & 0xF) as u16) > 0xF);
        self.registers.f.flag(Flag::C, (a & 0x00FF) + (b as u16) > 0x00FF);
        result
    }

    /// ADD HL,b.
    fn alu_add_16(&mut self, b: u16)
        ensures
            *final(self) == old(self).with_registers(
                old(self).registers.with_hl(
                    add16(old(self).registers.hl(), b, old(self).registers.f).value,
                ),
            ).with_f(add16(old(self).registers.hl(), b, old(self).registers.f).flags),
    {
        let a = self.registers.get_hl();
        proof {
            lemma_word_masks(a);
            lemma_word_masks(b);
        }
        let sum: u32 = (a as u32) + (b as u32);
        let result = (sum % 65536) as u16;
        let half = ((a & 0xFFF) as u32) + ((b & 0xFFF) as u32) > 0xFFF;
        self.registers.f = FlagsRegister {
            zero: self.registers.f.zero,
            subtract: false,
            half_carry: half,
            carry: sum > 0xFFFF,
        };
        self.registers.set_hl(result);
    }

    /// Set the flags after a rotate or a shift.
    fn shift_flags(&mut self, result: u8, carry: bool)
        ensures
            *final(self) == old(self).with_f(shifted(result, carry).flags),
    {
        self.registers.f.flag(Flag::Z, result == 0);
        self.registers.f.flag(Flag::N, false);
        self.registers.f.flag(Flag::H, false);
        self.registers.f.flag(Flag::C, carry);
    }

    /// SWAP: exchange the nibbles.
    fn swap(&mut self, a: u8) -> (result: u8)
        ensures
            result == swap8(a).value,
            *final(self) == old(self).with_f(swap8(a).flags),
    {
        proof {
            lemma_nibbles(a);
        }
        let lower = a & 0x0F;
        let result = (lower << 4) | (a >> 4);
        self.shift_flags(result, false);
        result
    }

    /// RLC and RRC: rotate; the bit that leaves on one side enters on the
    /// other and goes to C.
    fn rotate_circular(&mut self, a: u8, left: bool) -> (result: u8)
        ensures
            result == (if left {
                rlc8(a)
            } else {
                rrc8(a)
            }).value,
            *final(self) == old(self).with_f(
                (if left {
                    rlc8(a)
                } else {
                    rrc8(a)
                }).flags,
            ),
    {
        proof {
            lemma_shifts(a);
        }
        let lost_bit = if left {
            a & 0b1000_0000
        } else {
            a & 0b0000_0001
        };
        let result = if left {
            (a << 1) | (a >> 7)
        } else {
            (a >> 1) | ((a & 0b0000_0001) << 7)
        };
        self.shift_flags(result, lost_bit != 0);
        result
    }

    /// RL and RR: rotate through C.
    fn rotate(&mut self, a: u8, left: bool) -> (result: u8)
        ensures
            result == (if left {
                rl8(a, old(self).registers.f.carry)
            } else {
                rr8(a, old(self).registers.f.carry)
            }).value,
            *final(self) == old(self).with_f(
                (if left {
                    rl8(a, old(self).registers.f.carry)
                } else {
                    rr8(a, old(self).registers.f.carry)
                }).flags,
            ),
    {
        proof {
            lemma_shifts(a);
        }
        let lost_bit = if left {
            a & 0b1000_0000
        } else {
            a & 0b0000_0001
        };
        let result = if left {
            if self.registers.f.carry {
                (a << 1) | 1
            } else {
                a << 1
            }
        } else {
            if self.registers.f.carry {
                (a >> 1) | 0b1000_0000
            } else {
                a >> 1
            }
        };
        self.shift_flags(result, lost_bit != 0);
        result
    }

    /// SLA, SRA and SRL: shift; to the right, `retain_msb` keeps bit 7.
    fn shift(&mut self, a: u8, left: bool, retain_msb: bool) -> (result: u8)
        ensures
            result == (if left {
                sla8(a)
            } else if retain_msb {
                sra8(a)
            } else {
                srl8(a)
            }).value,
            *final(self) == old(self).with_f(
                (if left {
                    sla8(a)
                } else if retain_msb {
                    sra8(a)
                } else {
                    srl8(a)
                }).flags,
            ),
    {
        proof {
            lemma_shifts(a);
        }
        let outter_bit = if left {
            a & 0b1000_0000
        } else {
            a & 0b0000_0001
        };
        let result = if left {
            a << 1
        } else if retain_msb {
            (a >> 1) | (a & 0b1000_0000)
        } else {
            a >> 1
        };
        self.shift_flags(result, outter_bit != 0);
        result
    }

    /// The rotate or shift with the given number: RLC, RRC, RL, RR, SLA,
    /// SRA, SWAP, SRL.
    fn rotation(&mut self, index: u8, value: u8) -> (result: u8)
        requires
            index < 8,
        ensures
            result == rotation(index as int, value, old(self).registers.f).value,
            *final(self) == old(self).with_f(
                rotation(index as int, value, old(self).registers.f).flags,
            ),
    {
        match index {
            0 => self.rotate_circular(value, true),
            1 => self.rotate_circular(value, false),
            2 => self.rotate(value, true),
            3 => self.rotate(value, false),
            4 => self.shift(value, true, false),
            5 => self.shift(value, false, true),
            6 => self.swap(value),
            _ => self.shift(value, false, false),
        }
    }

    /// DAA: correct A to two decimal digits after an addition or a
    /// subtraction.
    fn daa(&mut self)
        ensures
            *final(self) == old(self).with_registers(
                Registers {
                    a: daa8(old(self).registers.a, old(self).registers.f).value,
                    f: daa8(old(self).registers.a, old(self).registers.f).flags,
                    ..old(self).registers
                },
            ),
    {
        let a = self.registers.a;
        proof {
            lemma_nibbles(a);
        }
        let mut adjustment: u8 = 0;
        let mut carry = self.registers.f.carry;
        let result = if self.registers.f.subtract {
            if self.registers.f.half_carry {
                adjustment = adjustment + 0x06;
            }
            if self.registers.f.carry {
                adjustment = adjustment + 0x60;
            }
            a.wrapping_sub(adjustment)
        } else {
            if self.registers.f.half_carry || (a & 0x0F) > 0x09 {
                adjustment = adjustment + 0x06;
            }
            if self.registers.f.carry || a > 0x99 {
                adjustment = adjustment + 0x60;
                carry = true;
            }
            a.wrapping_add(adjustment)
        };
        self.registers.f.flag(Flag::Z, result == 0);
        self.registers.f.flag(Flag::H, false);
        self.registers.f.flag(Flag::C, carry);
        self.registers.a = result;
    }

    /// The operation on A and the flags with the given number: RLCA, RRCA,
    /// RLA, RRA, DAA, CPL, SCF, CCF.
    fn accumulator_operation(&mut self, index: u8)
        requires
            index < 8,
        ensures
            forall|bus: BusState|
                pair(*final(self), bus) == (#[trigger] pair(*old(self), bus)).apply(
                    accumulator_operation(
                        index as int,
                        old(self).registers.a,
                        old(self).registers.f,
                    ),
                ),
    {
        let a = self.registers.a;
        match index {
            0 => {
                self.registers.a = self.rotate_circular(a, true);
                self.registers.f.flag(Flag::Z, false);
            },
            1 => {
                self.registers.a = self.rotate_circular(a, false);
                self.registers.f.flag(Flag::Z, false);
            },
            2 => {
                self.registers.a = self.rotate(a, true);
                self.registers.f.flag(Flag::Z, false);
            },
            3 => {
                self.registers.a = self.rotate(a, false);
                self.registers.f.flag(Flag::Z, false);
            },
            4 => {
                self.daa();
            },
            5 => {
                proof {
                    lemma_shifts(a);
                }
                self.registers.a = !a;
                self.registers.f.flag(Flag::N, true);
                self.registers.f.flag(Flag::H, true);
            },
            6 => {
                self.registers.f.flag(Flag::N, false);
                self.registers.f.flag(Flag::H, false);
                self.registers.f.flag(Flag::C, true);
            },
            _ => {
                let carry = self.registers.f.carry;
                self.registers.f.flag(Flag::N, false);
                self.registers.f.flag(Flag::H, false);
                self.registers.f.flag(Flag::C, !carry);
            },
        }
    }

    /// BIT b,a: test bit `b` of `a`.
    fn test_bit(&mut self, a: u8, b: u8)
        requires
            b < 8,
        ensures
            *final(self) == old(self).with_f(bit_test(a, b as int, old(self).registers.f)),
    {
        let mask = bit_mask(b);
        let bit = a & mask;
        self.registers.f.flag(Flag::Z, bit == 0);
        self.registers.f.flag(Flag::N, false);
        self.registers.f.flag(Flag::H, true);
    }

    /// SET b,a: `a` with bit `b` set.
    fn set_bit(&mut self, a: u8, b: u8) -> (result: u8)
        requires
            b < 8,
        ensures
            result == set8(a, b as int),
            *final(self) == *old(self),
    {
        let mask = bit_mask(b);
        proof {
            lemma_set_reset(a, mask);
        }
        a | mask
    }

    /// RES b,a: `a` with bit `b` clear.
    fn reset_bit(&mut self, a: u8, b: u8) -> (result: u8)
        requires
            b < 8,
        ensures
            result == res8(a, b as int),
            *final(self) == *old(self),
    {
        let mask = bit_mask(b);
        proof {
            lemma_set_reset(a, mask);
        }
        a & !mask
    }

    // Jumps, calls and returns

    /// PC takes `word`.
    fn jump_to(&mut self, word: u16)
        ensures
            forall|bus: BusState|
                pair(*final(self), bus) == (#[trigger] pair(*old(self), bus)).with_pc(word),
    {
        self.registers.pc = word;
    }

    /// PC moves by the signed offset `byte`.
    fn jump_relative(&mut self, byte: u8)
        ensures
            forall|bus: BusState|
                pair(*final(self), bus) == (#[trigger] pair(*old(self), bus)).jump_relative(byte),
    {
        if byte < 128 {
            self.registers.pc = self.registers.pc.wrapping_add(byte as u16);
        } else {
            self.registers.pc = self.registers.pc.wrapping_sub(256 - byte as u16);
        }
    }

    /// Push PC and jump to `word`.
    fn call(&mut self, bus: &mut Bus, word: u16)
        requires
            old(bus).wf(),
        ensures
            final(bus).wf(),
            pair(*final(self), final(bus)@) == pair(*old(self), old(bus)@).push(
                old(self).registers.pc,
            ).with_pc(word),
    {
        let pc = self.registers.pc;
        self.stack_push(bus, pc);
        self.jump_to(word);
    }

    /// Push PC and jump to one of the fixed addresses 0x00, 0x08, ...,
    /// 0x38.
    fn rst(&mut self, bus: &mut Bus, word: u16)
        requires
            old(bus).wf(),
        ensures
            final(bus).wf(),
            pair(*final(self), final(bus)@) == pair(*old(self), old(bus)@).push(
                old(self).registers.pc,
            ).with_pc(word),
    {
        self.call(bus, word);
    }

    /// Pop PC.
    fn ret(&mut self, bus: &Bus)
        requires
            bus.wf(),
        ensures
            pair(*final(self), bus@) == pair(*old(self), bus@).drop_top().with_pc(
                pair(*old(self), bus@).top(),
            ),
    {
        let addr = self.stack_pop(bus);
        self.jump_to(addr);
    }
}

} // verus!
