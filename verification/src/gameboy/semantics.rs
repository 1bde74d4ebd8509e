//! What the processor does in one step: the service of an interrupt, or the
//! execution of one instruction.
//!
//! An opcode is read as three fields, `x` in bits 7 and 6, `y` in bits 5 to
//! 3 and `z` in bits 2 to 0; `p` is the upper two bits of `y` and `q` its
//! lowest bit. The eight-bit operands are numbered B, C, D, E, H, L, (HL),
//! A from 0 to 7.

use vstd::prelude::*;
use crate::gameboy::alu::{
    add16, add8, add_offset, and8, bit_test, ccf, cpl8, daa8, dec8, inc8, or8, res8, rl8, rlc8,
    rr8, rrc8, scf, set8, signed, sla8, sra8, srl8, sub8, swap8, without_zero, xor8, AluResult,
};
use crate::gameboy::bits::wrap16;
use crate::gameboy::bus::BusState;
use crate::gameboy::cpu::CPU;
use crate::gameboy::flags_register::FlagsRegister;
use crate::gameboy::interrupt::Interrupt;
use crate::gameboy::register::Registers;

verus! {

/// The processor together with everything on the bus.
pub struct Machine {
    pub cpu: CPU,
    pub bus: BusState,
}

/// What a step leaves behind, and the T-cycles that it took.
pub struct Outcome {
    pub cpu: CPU,
    pub bus: BusState,
    pub cycles: u8,
}

/// The interrupts that are both requested and enabled, in bits 0 to 4.
pub open spec fn pending_interrupts(bus: BusState) -> u8 {
    bus.interrupts_enabled & bus.interrupt_flags & 0x1F
}

impl Machine {
    pub open spec fn regs(self) -> Registers {
        self.cpu.registers
    }

    pub open spec fn flags(self) -> FlagsRegister {
        self.cpu.registers.f
    }

    pub open spec fn with_regs(self, registers: Registers) -> Machine {
        Machine { cpu: CPU { registers, ..self.cpu }, bus: self.bus }
    }

    pub open spec fn with_flags(self, f: FlagsRegister) -> Machine {
        self.with_regs(Registers { f, ..self.regs() })
    }

    pub open spec fn with_a(self, a: u8) -> Machine {
        self.with_regs(Registers { a, ..self.regs() })
    }

    pub open spec fn with_pc(self, pc: u16) -> Machine {
        self.with_regs(Registers { pc, ..self.regs() })
    }

    pub open spec fn with_sp(self, sp: u16) -> Machine {
        self.with_regs(Registers { sp, ..self.regs() })
    }

    /// The accumulator and the flags take the result of an operation.
    pub open spec fn apply(self, result: AluResult) -> Machine {
        self.with_regs(Registers { a: result.value, f: result.flags, ..self.regs() })
    }

    /// A byte is written through the bus.
    pub open spec fn write(self, address: u16, byte: u8) -> Machine {
        Machine { cpu: self.cpu, bus: self.bus.write(address, byte) }
    }

    /// A word is written through the bus, low byte first.
    pub open spec fn write_word(self, address: u16, value: u16) -> Machine {
        Machine { cpu: self.cpu, bus: self.bus.write_word(address, value) }
    }

    /// The eight-bit operand with the given number; number 6 is the byte at
    /// the address in HL.
    pub open spec fn r8(self, index: int) -> u8 {
        if index == 0 {
            self.regs().b
        } else if index == 1 {
            self.regs().c
        } else if index == 2 {
            self.regs().d
        } else if index == 3 {
            self.regs().e
        } else if index == 4 {
            self.regs().h
        } else if index == 5 {
            self.regs().l
        } else if index == 6 {
            self.bus.read(self.regs().hl())
        } else {
            self.regs().a
        }
    }

    /// The eight-bit operand with the given number is written.
    pub open spec fn set_r8(self, index: int, value: u8) -> Machine {
        if index == 0 {
            self.with_regs(Registers { b: value, ..self.regs() })
        } else if index == 1 {
            self.with_regs(Registers { c: value, ..self.regs() })
        } else if index == 2 {
            self.with_regs(Registers { d: value, ..self.regs() })
        } else if index == 3 {
            self.with_regs(Registers { e: value, ..self.regs() })
        } else if index == 4 {
            self.with_regs(Registers { h: value, ..self.regs() })
        } else if index == 5 {
            self.with_regs(Registers { l: value, ..self.regs() })
        } else if index == 6 {
            self.write(self.regs().hl(), value)
        } else {
            self.with_regs(Registers { a: value, ..self.regs() })
        }
    }

    /// The register pair with the given number: BC, DE, HL, SP.
    pub open spec fn r16(self, index: int) -> u16 {
        if index == 0 {
            self.regs().bc()
        } else if index == 1 {
            self.regs().de()
        } else if index == 2 {
            self.regs().hl()
        } else {
            self.regs().sp
        }
    }

    /// The register pair with the given number is written.
    pub open spec fn set_r16(self, index: int, value: u16) -> Machine {
        if index == 0 {
            self.with_regs(self.regs().with_bc(value))
        } else if index == 1 {
            self.with_regs(self.regs().with_de(value))
        } else if index == 2 {
            self.with_regs(self.regs().with_hl(value))
        } else {
            self.with_sp(value)
        }
    }

    /// The register pair that PUSH and POP number: BC, DE, HL, AF.
    pub open spec fn stack_pair(self, index: int) -> u16 {
        if index == 3 {
            self.regs().af()
        } else {
            self.r16(index)
        }
    }

    /// The register pair that PUSH and POP number is written.
    pub open spec fn set_stack_pair(self, index: int, value: u16) -> Machine {
        if index == 3 {
            self.with_regs(self.regs().with_af(value))
        } else {
            self.set_r16(index, value)
        }
    }

    /// The address that an indirect load through a register pair uses: BC,
    /// DE, HL before it is incremented, HL before it is decremented.
    pub open spec fn pointer(self, index: int) -> u16 {
        if index == 0 {
            self.regs().bc()
        } else if index == 1 {
            self.regs().de()
        } else {
            self.regs().hl()
        }
    }

    /// HL moves after an indirect load: up for number 2, down for number 3.
    pub open spec fn moved_pointer(self, index: int) -> Machine {
        if index == 2 {
            self.with_regs(self.regs().with_hl(wrap16(self.regs().hl() + 1)))
        } else if index == 3 {
            self.with_regs(self.regs().with_hl(wrap16(self.regs().hl() - 1)))
        } else {
            self
        }
    }

    /// The byte at PC.
    pub open spec fn imm8(self) -> u8 {
        self.bus.read(self.regs().pc)
    }

    /// The word at PC, low byte first.
    pub open spec fn imm16(self) -> u16 {
        self.bus.read_word(self.regs().pc)
    }

    /// PC moves on by `count` bytes.
    pub open spec fn skip(self, count: int) -> Machine {
        self.with_pc(wrap16(self.regs().pc + count))
    }

    /// PC moves by a signed offset.
    pub open spec fn jump_relative(self, offset: u8) -> Machine {
        self.with_pc(wrap16(self.regs().pc + signed(offset)))
    }

    /// A word is pushed: SP goes down by two and the word is written there.
    pub open spec fn push(self, value: u16) -> Machine {
        let sp = wrap16(self.regs().sp - 2);
        self.with_sp(sp).write_word(sp, value)
    }

    /// The word on top of the stack.
    pub open spec fn top(self) -> u16 {
        self.bus.read_word(self.regs().sp)
    }

    /// A word is popped: SP goes up by two.
    pub open spec fn drop_top(self) -> Machine {
        self.with_sp(wrap16(self.regs().sp + 2))
    }

    /// The condition with the given number: NZ, Z, NC, C.
    pub open spec fn condition(self, index: int) -> bool {
        if index == 0 {
            !self.flags().zero
        } else if index == 1 {
            self.flags().zero
        } else if index == 2 {
            !self.flags().carry
        } else {
            self.flags().carry
        }
    }

    /// The step ends after `cycles` T-cycles.
    pub open spec fn done(self, cycles: u8) -> Outcome {
        Outcome { cpu: self.cpu, bus: self.bus, cycles }
    }

    /// The processor locks up on an opcode that is no instruction.
    pub open spec fn lock_up(self) -> Outcome {
        Outcome { cpu: CPU { locked: true, ..self.cpu }, bus: self.bus, cycles: 4 }
    }
}

/// The operation of the arithmetic unit with the given number, on the
/// accumulator and an operand: ADD, ADC, SUB, SBC, AND, XOR, OR, CP. CP
/// sets the flags as SUB does and leaves the accumulator alone.
pub open spec fn alu_operation(index: int, a: u8, b: u8, flags: FlagsRegister) -> AluResult {
    if index == 0 {
        add8(a, b, false)
    } else if index == 1 {
        add8(a, b, flags.carry)
    } else if index == 2 {
        sub8(a, b, false)
    } else if index == 3 {
        sub8(a, b, flags.carry)
    } else if index == 4 {
        and8(a, b)
    } else if index == 5 {
        xor8(a, b)
    } else if index == 6 {
        or8(a, b)
    } else {
        AluResult { value: a, flags: sub8(a, b, false).flags }
    }
}

/// The rotate or shift with the given number: RLC, RRC, RL, RR, SLA, SRA,
/// SWAP, SRL.
pub open spec fn rotation(index: int, value: u8, flags: FlagsRegister) -> AluResult {
    if index == 0 {
        rlc8(value)
    } else if index == 1 {
        rrc8(value)
    } else if index == 2 {
        rl8(value, flags.carry)
    } else if index == 3 {
        rr8(value, flags.carry)
    } else if index == 4 {
        sla8(value)
    } else if index == 5 {
        sra8(value)
    } else if index == 6 {
        swap8(value)
    } else {
        srl8(value)
    }
}

/// The operation on the accumulator and the flags with the given number:
/// RLCA, RRCA, RLA, RRA, DAA, CPL, SCF, CCF.
pub open spec fn accumulator_operation(index: int, a: u8, flags: FlagsRegister) -> AluResult {
    if index == 0 {
        without_zero(rlc8(a))
    } else if index == 1 {
        without_zero(rrc8(a))
    } else if index == 2 {
        without_zero(rl8(a, flags.carry))
    } else if index == 3 {
        without_zero(rr8(a, flags.carry))
    } else if index == 4 {
        daa8(a, flags)
    } else if index == 5 {
        cpl8(a, flags)
    } else if index == 6 {
        AluResult { value: a, flags: scf(flags) }
    } else {
        AluResult { value: a, flags: ccf(flags) }
    }
}

/// The T-cycles of an instruction on an eight-bit operand: `plain` for a
/// register, `memory` for (HL).
pub open spec fn operand_cycles(index: int, plain: u8, memory: u8) -> u8 {
    if index == 6 {
        memory
    } else {
        plain
    }
}

/// NOP, LD (nn),SP, STOP, JR e and JR cc,e: the instructions 0x00 to 0x3F
/// whose `z` is 0.
#[verifier::opaque]
pub open spec fn run_relative_jumps(m: Machine, y: int) -> Outcome {
    if y == 0 {
        // NOP
        m.done(4)
    } else if y == 1 {
        // LD (nn),SP
        m.skip(2).write_word(m.imm16(), m.regs().sp).done(20)
    } else if y == 2 {
        // STOP: two bytes long; the divider restarts
        m.skip(1).write(0xFF04, 0).done(4)
    } else if y == 3 {
        // JR e
        m.skip(1).jump_relative(m.imm8()).done(12)
    } else if m.condition(y - 4) {
        // JR cc,e, taken
        m.skip(1).jump_relative(m.imm8()).done(12)
    } else {
        m.skip(1).done(8)
    }
}

/// LD rr,nn and ADD HL,rr.
#[verifier::opaque]
pub open spec fn run_wide_loads(m: Machine, p: int, q: int) -> Outcome {
    if q == 0 {
        // LD rr,nn
        m.skip(2).set_r16(p, m.imm16()).done(12)
    } else {
        // ADD HL,rr
        let result = add16(m.regs().hl(), m.r16(p), m.flags());
        m.with_regs(m.regs().with_hl(result.value)).with_flags(result.flags).done(8)
    }
}

/// LD (BC),A, LD (DE),A, LD (HL+),A, LD (HL-),A and the four loads in the
/// other direction.
#[verifier::opaque]
pub open spec fn run_indirect_loads(m: Machine, p: int, q: int) -> Outcome {
    if q == 0 {
        m.moved_pointer(p).write(m.pointer(p), m.regs().a).done(8)
    } else {
        m.moved_pointer(p).with_a(m.bus.read(m.pointer(p))).done(8)
    }
}

/// INC rr and DEC rr: no flag changes.
#[verifier::opaque]
pub open spec fn run_wide_counts(m: Machine, p: int, q: int) -> Outcome {
    if q == 0 {
        m.set_r16(p, wrap16(m.r16(p) + 1)).done(8)
    } else {
        m.set_r16(p, wrap16(m.r16(p) - 1)).done(8)
    }
}

/// INC r (`z` is 4) and DEC r (`z` is 5).
#[verifier::opaque]
pub open spec fn run_byte_counts(m: Machine, y: int, z: int) -> Outcome {
    let result = if z == 4 {
        inc8(m.r8(y), m.flags())
    } else {
        dec8(m.r8(y), m.flags())
    };
    m.set_r8(y, result.value).with_flags(result.flags).done(operand_cycles(y, 4, 12))
}

/// LD r,n.
#[verifier::opaque]
pub open spec fn run_byte_loads(m: Machine, y: int) -> Outcome {
    m.skip(1).set_r8(y, m.imm8()).done(operand_cycles(y, 8, 12))
}

/// RLCA, RRCA, RLA, RRA, DAA, CPL, SCF and CCF.
#[verifier::opaque]
pub open spec fn run_accumulator(m: Machine, y: int) -> Outcome {
    m.apply(accumulator_operation(y, m.regs().a, m.flags())).done(4)
}

/// The instructions 0x00 to 0x3F. PC is past the opcode.
pub open spec fn run_block0(m: Machine, opcode: u8) -> Outcome {
    let y = opcode as int / 8 % 8;
    let z = opcode as int % 8;
    let p = y / 2;
    let q = y % 2;
    if z == 0 {
        run_relative_jumps(m, y)
    } else if z == 1 {
        run_wide_loads(m, p, q)
    } else if z == 2 {
        run_indirect_loads(m, p, q)
    } else if z == 3 {
        run_wide_counts(m, p, q)
    } else if z == 4 || z == 5 {
        run_byte_counts(m, y, z)
    } else if z == 6 {
        run_byte_loads(m, y)
    } else {
        run_accumulator(m, y)
    }
}

/// HALT. The processor stops until an interrupt is pending. If interrupts
/// are disabled and one is pending already, it does not stop, and the byte
/// after HALT is read twice.
pub open spec fn run_halt(m: Machine) -> Outcome {
    if m.cpu.ime || pending_interrupts(m.bus) == 0 {
        Outcome { cpu: CPU { halted: true, ..m.cpu }, bus: m.bus, cycles: 4 }
    } else {
        Outcome { cpu: CPU { halt_bug: true, ..m.cpu }, bus: m.bus, cycles: 4 }
    }
}

/// The instructions 0x40 to 0x7F: LD r,r' and HALT.
#[verifier::opaque]
pub open spec fn run_block1(m: Machine, opcode: u8) -> Outcome {
    let y = opcode as int / 8 % 8;
    let z = opcode as int % 8;
    if opcode == 0x76 {
        run_halt(m)
    } else {
        m.set_r8(y, m.r8(z)).done(if y == 6 || z == 6 { 8 } else { 4 })
    }
}

/// The instructions 0x80 to 0xBF: the arithmetic unit on A and r.
#[verifier::opaque]
pub open spec fn run_block2(m: Machine, opcode: u8) -> Outcome {
    let y = opcode as int / 8 % 8;
    let z = opcode as int % 8;
    m.apply(alu_operation(y, m.regs().a, m.r8(z), m.flags())).done(operand_cycles(z, 4, 8))
}

/// CALL: the address after the instruction is pushed and PC takes the
/// operand.
pub open spec fn run_call(m: Machine) -> Outcome {
    m.skip(2).push(wrap16(m.regs().pc + 2)).with_pc(m.imm16()).done(24)
}

/// RET: PC takes the word on top of the stack.
pub open spec fn run_return(m: Machine, cycles: u8) -> Outcome {
    m.drop_top().with_pc(m.top()).done(cycles)
}

/// RET cc, LDH (n),A, ADD SP,e, LDH A,(n) and LD HL,SP+e.
#[verifier::opaque]
pub open spec fn run_returns_and_high_loads(m: Machine, y: int) -> Outcome {
    if y < 4 {
        // RET cc
        if m.condition(y) {
            run_return(m, 20)
        } else {
            m.done(8)
        }
    } else if y == 4 {
        // LDH (n),A
        m.skip(1).write((0xFF00 + m.imm8()) as u16, m.regs().a).done(12)
    } else if y == 5 {
        // ADD SP,e
        let result = add_offset(m.regs().sp, m.imm8());
        m.skip(1).with_sp(result.value).with_flags(result.flags).done(16)
    } else if y == 6 {
        // LDH A,(n)
        m.skip(1).with_a(m.bus.read((0xFF00 + m.imm8()) as u16)).done(12)
    } else {
        // LD HL,SP+e
        let result = add_offset(m.regs().sp, m.imm8());
        m.skip(1).set_r16(2, result.value).with_flags(result.flags).done(12)
    }
}

/// POP rr, RET, RETI, JP HL and LD SP,HL. RETI sets the master enable at
/// once.
#[verifier::opaque]
pub open spec fn run_pops(m: Machine, p: int, q: int) -> Outcome {
    if q == 0 {
        // POP rr
        m.drop_top().set_stack_pair(p, m.top()).done(12)
    } else if p == 0 {
        // RET
        run_return(m, 16)
    } else if p == 1 {
        // RETI
        let returned = run_return(m, 16);
        Outcome { cpu: CPU { ime: true, ..returned.cpu }, ..returned }
    } else if p == 2 {
        // JP HL
        m.with_pc(m.regs().hl()).done(4)
    } else {
        // LD SP,HL
        m.with_sp(m.regs().hl()).done(8)
    }
}

/// JP cc,nn and the loads between A and (0xFF00+C) or (nn).
#[verifier::opaque]
pub open spec fn run_jumps_and_loads(m: Machine, y: int) -> Outcome {
    if y < 4 {
        // JP cc,nn
        if m.condition(y) {
            m.with_pc(m.imm16()).done(16)
        } else {
            m.skip(2).done(12)
        }
    } else if y == 4 {
        // LD (0xFF00+C),A
        m.write((0xFF00 + m.regs().c) as u16, m.regs().a).done(8)
    } else if y == 5 {
        // LD (nn),A
        m.skip(2).write(m.imm16(), m.regs().a).done(16)
    } else if y == 6 {
        // LD A,(0xFF00+C)
        m.with_a(m.bus.read((0xFF00 + m.regs().c) as u16)).done(8)
    } else {
        // LD A,(nn)
        m.skip(2).with_a(m.bus.read(m.imm16())).done(16)
    }
}

/// JP nn, the prefix 0xCB, DI and EI; the opcodes 0xD3, 0xDB, 0xE3 and
/// 0xEB are no instructions. DI acts at once; EI acts after the next
/// instruction.
#[verifier::opaque]
pub open spec fn run_control(m: Machine, y: int) -> Outcome {
    if y == 0 {
        // JP nn
        m.with_pc(m.imm16()).done(16)
    } else if y == 1 {
        // the prefix
        run_cb(m.skip(1), m.imm8())
    } else if y == 6 {
        // DI
        Outcome { cpu: CPU { ime: false, ime_scheduled: false, ..m.cpu }, bus: m.bus, cycles: 4 }
    } else if y == 7 {
        // EI
        Outcome { cpu: CPU { ime_scheduled: true, ..m.cpu }, bus: m.bus, cycles: 4 }
    } else {
        m.lock_up()
    }
}

/// The instructions 0xC0 to 0xFF whose `z` is 0 to 3.
pub open spec fn run_block3_low(m: Machine, opcode: u8) -> Outcome {
    let y = opcode as int / 8 % 8;
    let z = opcode as int % 8;
    let p = y / 2;
    let q = y % 2;
    if z == 0 {
        run_returns_and_high_loads(m, y)
    } else if z == 1 {
        run_pops(m, p, q)
    } else if z == 2 {
        run_jumps_and_loads(m, y)
    } else {
        run_control(m, y)
    }
}

/// The instructions 0xC0 to 0xFF whose `z` is 4 to 7.
#[verifier::opaque]
pub open spec fn run_block3_high(m: Machine, opcode: u8) -> Outcome {
    let y = opcode as int / 8 % 8;
    let z = opcode as int % 8;
    let p = y / 2;
    let q = y % 2;
    if z == 4 {
        if y < 4 {
            // CALL cc,nn
            if m.condition(y) {
                run_call(m)
            } else {
                m.skip(2).done(12)
            }
        } else {
            m.lock_up()
        }
    } else if z == 5 {
        if q == 0 {
            // PUSH rr
            m.push(m.stack_pair(p)).done(16)
        } else if p == 0 {
            // CALL nn
            run_call(m)
        } else {
            m.lock_up()
        }
    } else if z == 6 {
        // the arithmetic unit on A and n
        m.skip(1).apply(alu_operation(y, m.regs().a, m.imm8(), m.flags())).done(8)
    } else {
        // RST
        m.push(m.regs().pc).with_pc((y * 8) as u16).done(16)
    }
}

/// The instructions behind the prefix 0xCB. PC is past both bytes.
#[verifier::opaque]
pub open spec fn run_cb(m: Machine, opcode: u8) -> Outcome {
    let x = opcode as int / 64;
    let y = opcode as int / 8 % 8;
    let z = opcode as int % 8;
    let value = m.r8(z);
    if x == 0 {
        let result = rotation(y, value, m.flags());
        m.set_r8(z, result.value).with_flags(result.flags).done(operand_cycles(z, 8, 16))
    } else if x == 1 {
        // BIT
        m.with_flags(bit_test(value, y, m.flags())).done(operand_cycles(z, 8, 12))
    } else if x == 2 {
        // RES
        m.set_r8(z, res8(value, y)).done(operand_cycles(z, 8, 16))
    } else {
        // SET
        m.set_r8(z, set8(value, y)).done(operand_cycles(z, 8, 16))
    }
}

/// One instruction. PC is past the opcode.
#[verifier::opaque]
pub open spec fn run(m: Machine, opcode: u8) -> Outcome {
    if opcode < 0x40 {
        run_block0(m, opcode)
    } else if opcode < 0x80 {
        run_block1(m, opcode)
    } else if opcode < 0xC0 {
        run_block2(m, opcode)
    } else if opcode % 8 < 4 {
        run_block3_low(m, opcode)
    } else {
        run_block3_high(m, opcode)
    }
}

/// The service of the pending interrupt of the highest priority: the
/// master enable is cleared, the interrupt's bit in IF is cleared, PC is
/// pushed and takes the address of the handler. This takes 20 T-cycles.
#[verifier::opaque]
pub open spec fn service(m: Machine, interrupt: Interrupt) -> Outcome {
    let acknowledged = Machine {
        cpu: CPU { ime: false, ime_scheduled: false, ..m.cpu },
        bus: BusState {
            interrupt_flags: m.bus.interrupt_flags & !interrupt.flag_mask(),
            ..m.bus
        },
    };
    acknowledged.push(m.regs().pc).with_pc(interrupt.jump_addr() as u16).done(20)
}

/// The fetch and the execution of one instruction. After HALT has failed
/// to stop the processor, PC does not move past the opcode. An EI that came
/// before takes effect once the instruction is done, unless the
/// instruction is DI.
#[verifier::opaque]
pub open spec fn execute(m: Machine) -> Outcome {
    let opcode = m.imm8();
    let fetched = Machine {
        cpu: CPU { halt_bug: false, ime_scheduled: false, ..m.cpu },
        bus: m.bus,
    };
    let ready = if m.cpu.halt_bug {
        fetched
    } else {
        fetched.skip(1)
    };
    let outcome = run(ready, opcode);
    if m.cpu.ime_scheduled && opcode != 0xF3 {
        Outcome { cpu: CPU { ime: true, ..outcome.cpu }, ..outcome }
    } else {
        outcome
    }
}

/// One step of the processor.
///
/// A processor that has locked up does nothing. A halted processor does
/// nothing until an interrupt is pending. Otherwise a pending interrupt is
/// served if the master enable is set, and if not, one instruction is
/// executed.
pub open spec fn step(cpu: CPU, bus: BusState) -> Outcome {
    let pending = pending_interrupts(bus);
    if cpu.locked || (cpu.halted && pending == 0) {
        Outcome { cpu, bus, cycles: 4 }
    } else {
        let awake = Machine { cpu: CPU { halted: false, ..cpu }, bus };
        match Interrupt::highest_priority(pending) {
            Some(interrupt) => if cpu.ime {
                service(awake, interrupt)
            } else {
                execute(awake)
            },
            None => execute(awake),
        }
    }
}

} // verus!
