//! The opcode table: how many bytes each instruction is long and how many
//! T-cycles it takes.

use vstd::prelude::*;
use crate::gameboy::bits::wrap16;
use crate::gameboy::semantics::{
    run, run_accumulator, run_block0, run_block1, run_block2, run_block3_high, run_block3_low,
    run_byte_counts, run_byte_loads, run_cb, run_control, run_indirect_loads,
    run_jumps_and_loads, run_pops, run_relative_jumps, run_returns_and_high_loads,
    run_wide_counts, run_wide_loads, Machine,
};

verus! {

/// Whether the opcode is one of the eleven that are no instruction: 0xD3,
/// 0xDB, 0xDD, 0xE3, 0xE4, 0xEB, 0xEC, 0xED, 0xF4, 0xFC and 0xFD.
pub open spec fn is_illegal(opcode: u8) -> bool {
    opcode == 0xD3 || opcode == 0xDB || opcode == 0xDD || opcode == 0xE3 || opcode == 0xE4
        || opcode == 0xEB || opcode == 0xEC || opcode == 0xED || opcode == 0xF4 || opcode
        == 0xFC || opcode == 0xFD
}

/// Whether the instruction has a condition: JR cc, RET cc, JP cc and CALL
/// cc.
pub open spec fn is_conditional(opcode: u8) -> bool {
    let y = opcode as int / 8 % 8;
    let z = opcode as int % 8;
    (opcode < 0x40 && z == 0 && y >= 4) || (opcode >= 0xC0 && y < 4 && (z == 0 || z == 2 || z
        == 4))
}

/// Whether the instruction sets PC to something else than the address of
/// the instruction that follows it, apart from conditions that fail: the
/// jumps, calls, returns and restarts.
pub open spec fn transfers_control(opcode: u8) -> bool {
    is_conditional(opcode) || opcode == 0x18 || opcode == 0xC3 || opcode == 0xC9 || opcode
        == 0xCD || opcode == 0xD9 || opcode == 0xE9 || (opcode >= 0xC0 && opcode % 8 == 7)
}

/// The length of the instruction in bytes, the opcode included.
pub open spec fn length_of(opcode: u8) -> int {
    let y = opcode as int / 8 % 8;
    let z = opcode as int % 8;
    if opcode < 0x40 {
        if z == 0 {
            if y == 0 {
                1
            } else if y == 1 {
                3
            } else {
                2
            }
        } else if z == 1 {
            if y % 2 == 0 {
                3
            } else {
                1
            }
        } else if z == 6 {
            2
        } else {
            1
        }
    } else if opcode < 0xC0 {
        1
    } else if z == 0 {
        if y < 4 {
            1
        } else {
            2
        }
    } else if z == 2 {
        if y == 4 || y == 6 {
            1
        } else {
            3
        }
    } else if z == 3 {
        if y == 0 {
            3
        } else if y == 1 {
            2
        } else {
            1
        }
    } else if z == 4 {
        if y < 4 {
            3
        } else {
            1
        }
    } else if z == 5 {
        if y == 1 {
            3
        } else {
            1
        }
    } else if z == 6 {
        2
    } else {
        1
    }
}

/// The T-cycles of an instruction behind the prefix 0xCB: 8 on a register;
/// on (HL) 12 for BIT and 16 for the others.
pub open spec fn prefixed_cycles(second: u8) -> int {
    if second as int % 8 != 6 {
        8
    } else if 0x40 <= second < 0x80 {
        12
    } else {
        16
    }
}

/// The T-cycles of the instruction; for one with a condition, the T-cycles
/// that it takes when the condition fails. `second` is the byte after the
/// opcode, which counts for the prefix 0xCB only.
pub open spec fn cycles_of(opcode: u8, second: u8) -> int {
    let y = opcode as int / 8 % 8;
    let z = opcode as int % 8;
    if is_illegal(opcode) {
        4
    } else if opcode < 0x40 {
        if z == 0 {
            if y == 0 || y == 2 {
                4
            } else if y == 1 {
                20
            } else if y == 3 {
                12
            } else {
                8
            }
        } else if z == 1 {
            if y % 2 == 0 {
                12
            } else {
                8
            }
        } else if z == 2 || z == 3 {
            8
        } else if z == 4 || z == 5 {
            if y == 6 {
                12
            } else {
                4
            }
        } else if z == 6 {
            if y == 6 {
                12
            } else {
                8
            }
        } else {
            4
        }
    } else if opcode < 0x80 {
        if opcode == 0x76 {
            4
        } else if y == 6 || z == 6 {
            8
        } else {
            4
        }
    } else if opcode < 0xC0 {
        if z == 6 {
            8
        } else {
            4
        }
    } else if z == 0 {
        if y < 4 {
            8
        } else if y == 5 {
            16
        } else {
            12
        }
    } else if z == 1 {
        if y % 2 == 0 {
            12
        } else if y == 1 || y == 3 {
            16
        } else if y == 5 {
            4
        } else {
            8
        }
    } else if z == 2 {
        if y < 4 {
            12
        } else if y == 4 || y == 6 {
            8
        } else {
            16
        }
    } else if z == 3 {
        if y == 0 {
            16
        } else if y == 1 {
            prefixed_cycles(second)
        } else {
            4
        }
    } else if z == 4 {
        12
    } else if z == 5 {
        if y == 1 {
            24
        } else {
            16
        }
    } else if z == 6 {
        8
    } else {
        16
    }
}

/// What a condition that holds adds to the T-cycles: 4 for JR cc and JP cc,
/// 12 for RET cc and CALL cc.
pub open spec fn taken_extra(opcode: u8) -> int {
    if opcode < 0x40 || opcode as int % 8 == 2 {
        4
    } else {
        12
    }
}

/// The condition that an instruction with a condition tests: it is numbered
/// by bits 3 and 4 of the opcode, NZ, Z, NC, C.
pub open spec fn condition_holds(m: Machine, opcode: u8) -> bool {
    m.condition(opcode as int / 8 % 4)
}

/// Look an opcode up: the T-cycles of the instruction (for one with a
/// condition, those of the failing condition) and its length in bytes.
/// `next_byte` is the byte after the opcode. An opcode that is no
/// instruction gives an error.
pub fn parse_opcode(opcode: u8, next_byte: u8, next_word: u16) -> (result: Result<
    (u8, u8),
    String,
>)
    ensures
        match result {
            Ok((cycles, bytes)) => !is_illegal(opcode) && cycles == cycles_of(opcode, next_byte)
                && bytes == length_of(opcode),
            Err(message) => is_illegal(opcode) && message@ == "Unsupported instruction"@,
        },
{
    if opcode == 0xCB {
        return parse_opcode_cb(opcode, next_byte, next_word);
    }
    let y = opcode / 8 % 8;
    let z = opcode % 8;
    let illegal = opcode == 0xD3 || opcode == 0xDB || opcode == 0xDD || opcode == 0xE3 || opcode
        == 0xE4 || opcode == 0xEB || opcode == 0xEC || opcode == 0xED || opcode == 0xF4 || opcode
        == 0xFC || opcode == 0xFD;
    if illegal {
        return Err("Unsupported instruction".to_owned());
    }
    let (cycles, bytes): (u8, u8) = if opcode < 0x40 {
        match z {
            0 => match y {
                0 => (4, 1),
                1 => (20, 3),
                2 => (4, 2),
                3 => (12, 2),
                _ => (8, 2),
            },
            1 => if y % 2 == 0 {
                (12, 3)
            } else {
                (8, 1)
            },
            2 | 3 => (8, 1),
            4 | 5 => if y == 6 {
                (12, 1)
            } else {
                (4, 1)
            },
            6 => if y == 6 {
                (12, 2)
            } else {
                (8, 2)
            },
            _ => (4, 1),
        }
    } else if opcode < 0x80 {
        if opcode != 0x76 && (y == 6 || z == 6) {
            (8, 1)
        } else {
            (4, 1)
        }
    } else if opcode < 0xC0 {
        if z == 6 {
            (8, 1)
        } else {
            (4, 1)
        }
    } else {
        match z {
            0 => if y < 4 {
                (8, 1)
            } else if y == 5 {
                (16, 2)
            } else {
                (12, 2)
            },
            1 => if y % 2 == 0 {
                (12, 1)
            } else if y == 1 || y == 3 {
                (16, 1)
            } else if y == 5 {
                (4, 1)
            } else {
                (8, 1)
            },
            2 => if y < 4 {
                (12, 3)
            } else if y == 4 || y == 6 {
                (8, 1)
            } else {
                (16, 3)
            },
            3 => if y == 0 {
                (16, 3)
            } else {
                (4, 1)
            },
            4 => (12, 3),
            5 => if y == 1 {
                (24, 3)
            } else {
                (16, 1)
            },
            6 => (8, 2),
            _ => (16, 1),
        }
    };
    Ok((cycles, bytes))
}

/// Look up the instruction behind the prefix 0xCB; `next_byte` is its
/// second byte. All of them are two bytes long.
pub fn parse_opcode_cb(opcode: u8, next_byte: u8, next_word: u16) -> (result: Result<
    (u8, u8),
    String,
>)
    requires
        opcode == 0xCB,
    ensures
        result matches Ok((cycles, bytes)) && cycles == prefixed_cycles(next_byte) && bytes == 2,
{
    let cycles: u8 = if next_byte % 8 != 6 {
        8
    } else if 0x40 <= next_byte && next_byte < 0x80 {
        12
    } else {
        16
    };
    Ok((cycles, 2))
}

/// What the table says of an instruction holds of what the instruction
/// does: it takes the T-cycles of the table, and more exactly when it has a
/// condition and the condition holds; unless it is a jump, a call, a
/// return or a restart whose condition does not fail, it leaves PC at the
/// instruction that follows it; and the processor locks up exactly on the
/// opcodes that are no instructions. `m` is the machine with PC past the
/// opcode.
pub proof fn lemma_instructions_follow_the_table(m: Machine, opcode: u8)
    ensures
        run(m, opcode).cycles == cycles_of(opcode, m.imm8()) + (if is_conditional(opcode)
            && condition_holds(m, opcode) {
            taken_extra(opcode)
        } else {
            0
        }),
        run(m, opcode).cpu.locked == (m.cpu.locked || is_illegal(opcode)),
        !transfers_control(opcode) || (is_conditional(opcode) && !condition_holds(m, opcode))
            ==> run(m, opcode).cpu.registers.pc == wrap16(m.cpu.registers.pc + length_of(opcode) - 1),
{
    reveal(run);
    if opcode < 0x40 {
        lemma_table_block0(m, opcode);
    } else if opcode < 0x80 {
        reveal(run_block1);
    } else if opcode < 0xC0 {
        reveal(run_block2);
    } else if opcode % 8 < 4 {
        lemma_table_block3_low(m, opcode);
    } else {
        reveal(run_block3_high);
    }
}

proof fn lemma_table_block0(m: Machine, opcode: u8)
    requires
        opcode < 0x40,
    ensures
        run_block0(m, opcode).cycles == cycles_of(opcode, m.imm8()) + (if is_conditional(opcode)
            && condition_holds(m, opcode) {
            taken_extra(opcode)
        } else {
            0
        }),
        run_block0(m, opcode).cpu.locked == (m.cpu.locked || is_illegal(opcode)),
        !transfers_control(opcode) || (is_conditional(opcode) && !condition_holds(m, opcode))
            ==> run_block0(m, opcode).cpu.registers.pc == wrap16(m.cpu.registers.pc + length_of(opcode) - 1),
{
    let z = opcode % 8;
    if z == 0 {
        lemma_table_run_relative_jumps(m, opcode);
    } else if z == 1 {
        lemma_table_run_wide_loads(m, opcode);
    } else if z == 2 {
        lemma_table_run_indirect_loads(m, opcode);
    } else if z == 3 {
        lemma_table_run_wide_counts(m, opcode);
    } else if z == 4 || z == 5 {
        lemma_table_run_byte_counts(m, opcode);
    } else if z == 6 {
        lemma_table_run_byte_loads(m, opcode);
    } else {
        lemma_table_run_accumulator(m, opcode);
    }
}

proof fn lemma_table_block3_low(m: Machine, opcode: u8)
    requires
        opcode >= 0xC0,
        opcode % 8 < 4,
    ensures
        run_block3_low(m, opcode).cycles == cycles_of(opcode, m.imm8()) + (if is_conditional(opcode)
            && condition_holds(m, opcode) {
            taken_extra(opcode)
        } else {
            0
        }),
        run_block3_low(m, opcode).cpu.locked == (m.cpu.locked || is_illegal(opcode)),
        !transfers_control(opcode) || (is_conditional(opcode) && !condition_holds(m, opcode))
            ==> run_block3_low(m, opcode).cpu.registers.pc == wrap16(m.cpu.registers.pc + length_of(opcode) - 1),
{
    let z = opcode % 8;
    if z == 0 {
        lemma_table_run_returns_and_high_loads(m, opcode);
    } else if z == 1 {
        lemma_table_run_pops(m, opcode);
    } else if z == 2 {
        lemma_table_run_jumps_and_loads(m, opcode);
    } else {
        lemma_table_run_control(m, opcode);
    }
}

proof fn lemma_table_run_relative_jumps(m: Machine, opcode: u8)
    requires
        opcode < 0x40,
        opcode % 8 == 0,
    ensures
        run_relative_jumps(m, opcode as int / 8 % 8).cycles == cycles_of(opcode, m.imm8()) + (if is_conditional(opcode)
            && condition_holds(m, opcode) {
            taken_extra(opcode)
        } else {
            0
        }),
        run_relative_jumps(m, opcode as int / 8 % 8).cpu.locked == (m.cpu.locked || is_illegal(opcode)),
        !transfers_control(opcode) || (is_conditional(opcode) && !condition_holds(m, opcode))
            ==> run_relative_jumps(m, opcode as int / 8 % 8).cpu.registers.pc == wrap16(m.cpu.registers.pc + length_of(opcode) - 1),
{
    reveal(run_relative_jumps);
}

proof fn lemma_table_run_wide_loads(m: Machine, opcode: u8)
    requires
        opcode < 0x40,
        opcode % 8 == 1,
    ensures
        run_wide_loads(m, opcode as int / 8 % 8 / 2, opcode as int / 8 % 8 % 2).cycles == cycles_of(opcode, m.imm8()) + (if is_conditional(opcode)
            && condition_holds(m, opcode) {
            taken_extra(opcode)
        } else {
            0
        }),
        run_wide_loads(m, opcode as int / 8 % 8 / 2, opcode as int / 8 % 8 % 2).cpu.locked == (m.cpu.locked || is_illegal(opcode)),
        !transfers_control(opcode) || (is_conditional(opcode) && !condition_holds(m, opcode))
            ==> run_wide_loads(m, opcode as int / 8 % 8 / 2, opcode as int / 8 % 8 % 2).cpu.registers.pc == wrap16(m.cpu.registers.pc + length_of(opcode) - 1),
{
    reveal(run_wide_loads);
}

proof fn lemma_table_run_indirect_loads(m: Machine, opcode: u8)
    requires
        opcode < 0x40,
        opcode % 8 == 2,
    ensures
        run_indirect_loads(m, opcode as int / 8 % 8 / 2, opcode as int / 8 % 8 % 2).cycles == cycles_of(opcode, m.imm8()) + (if is_conditional(opcode)
            && condition_holds(m, opcode) {
            taken_extra(opcode)
        } else {
            0
        }),
        run_indirect_loads(m, opcode as int / 8 % 8 / 2, opcode as int / 8 % 8 % 2).cpu.locked == (m.cpu.locked || is_illegal(opcode)),
        !transfers_control(opcode) || (is_conditional(opcode) && !condition_holds(m, opcode))
            ==> run_indirect_loads(m, opcode as int / 8 % 8 / 2, opcode as int / 8 % 8 % 2).cpu.registers.pc == wrap16(m.cpu.registers.pc + length_of(opcode) - 1),
{
    reveal(run_indirect_loads);
}

proof fn lemma_table_run_wide_counts(m: Machine, opcode: u8)
    requires
        opcode < 0x40,
        opcode % 8 == 3,
    ensures
        run_wide_counts(m, opcode as int / 8 % 8 / 2, opcode as int / 8 % 8 % 2).cycles == cycles_of(opcode, m.imm8()) + (if is_conditional(opcode)
            && condition_holds(m, opcode) {
            taken_extra(opcode)
        } else {
            0
        }),
        run_wide_counts(m, opcode as int / 8 % 8 / 2, opcode as int / 8 % 8 % 2).cpu.locked == (m.cpu.locked || is_illegal(opcode)),
        !transfers_control(opcode) || (is_conditional(opcode) && !condition_holds(m, opcode))
            ==> run_wide_counts(m, opcode as int / 8 % 8 / 2, opcode as int / 8 % 8 % 2).cpu.registers.pc == wrap16(m.cpu.registers.pc + length_of(opcode) - 1),
{
    reveal(run_wide_counts);
}

proof fn lemma_table_run_byte_counts(m: Machine, opcode: u8)
    requires
        opcode < 0x40,
        opcode % 8 == 4 || opcode % 8 == 5,
    ensures
        run_byte_counts(m, opcode as int / 8 % 8, opcode as int % 8).cycles == cycles_of(opcode, m.imm8()) + (if is_conditional(opcode)
            && condition_holds(m, opcode) {
            taken_extra(opcode)
        } else {
            0
        }),
        run_byte_counts(m, opcode as int / 8 % 8, opcode as int % 8).cpu.locked == (m.cpu.locked || is_illegal(opcode)),
        !transfers_control(opcode) || (is_conditional(opcode) && !condition_holds(m, opcode))
            ==> run_byte_counts(m, opcode as int / 8 % 8, opcode as int % 8).cpu.registers.pc == wrap16(m.cpu.registers.pc + length_of(opcode) - 1),
{
    reveal(run_byte_counts);
}

proof fn lemma_table_run_byte_loads(m: Machine, opcode: u8)
    requires
        opcode < 0x40,
        opcode % 8 == 6,
    ensures
        run_byte_loads(m, opcode as int / 8 % 8).cycles == cycles_of(opcode, m.imm8()) + (if is_conditional(opcode)
            && condition_holds(m, opcode) {
            taken_extra(opcode)
        } else {
            0
        }),
        run_byte_loads(m, opcode as int / 8 % 8).cpu.locked == (m.cpu.locked || is_illegal(opcode)),
        !transfers_control(opcode) || (is_conditional(opcode) && !condition_holds(m, opcode))
            ==> run_byte_loads(m, opcode as int / 8 % 8).cpu.registers.pc == wrap16(m.cpu.registers.pc + length_of(opcode) - 1),
{
    reveal(run_byte_loads);
}

proof fn lemma_table_run_accumulator(m: Machine, opcode: u8)
    requires
        opcode < 0x40,
        opcode % 8 == 7,
    ensures
        run_accumulator(m, opcode as int / 8 % 8).cycles == cycles_of(opcode, m.imm8()) + (if is_conditional(opcode)
            && condition_holds(m, opcode) {
            taken_extra(opcode)
        } else {
            0
        }),
        run_accumulator(m, opcode as int / 8 % 8).cpu.locked == (m.cpu.locked || is_illegal(opcode)),
        !transfers_control(opcode) || (is_conditional(opcode) && !condition_holds(m, opcode))
            ==> run_accumulator(m, opcode as int / 8 % 8).cpu.registers.pc == wrap16(m.cpu.registers.pc + length_of(opcode) - 1),
{
    reveal(run_accumulator);
}

proof fn lemma_table_run_returns_and_high_loads(m: Machine, opcode: u8)
    requires
        opcode >= 0xC0,
        opcode % 8 == 0,
    ensures
        run_returns_and_high_loads(m, opcode as int / 8 % 8).cycles == cycles_of(opcode, m.imm8()) + (if is_conditional(opcode)
            && condition_holds(m, opcode) {
            taken_extra(opcode)
        } else {
            0
        }),
        run_returns_and_high_loads(m, opcode as int / 8 % 8).cpu.locked == (m.cpu.locked || is_illegal(opcode)),
        !transfers_control(opcode) || (is_conditional(opcode) && !condition_holds(m, opcode))
            ==> run_returns_and_high_loads(m, opcode as int / 8 % 8).cpu.registers.pc == wrap16(m.cpu.registers.pc + length_of(opcode) - 1),
{
    reveal(run_returns_and_high_loads);
}

proof fn lemma_table_run_pops(m: Machine, opcode: u8)
    requires
        opcode >= 0xC0,
        opcode % 8 == 1,
    ensures
        run_pops(m, opcode as int / 8 % 8 / 2, opcode as int / 8 % 8 % 2).cycles == cycles_of(opcode, m.imm8()) + (if is_conditional(opcode)
            && condition_holds(m, opcode) {
            taken_extra(opcode)
        } else {
            0
        }),
        run_pops(m, opcode as int / 8 % 8 / 2, opcode as int / 8 % 8 % 2).cpu.locked == (m.cpu.locked || is_illegal(opcode)),
        !transfers_control(opcode) || (is_conditional(opcode) && !condition_holds(m, opcode))
            ==> run_pops(m, opcode as int / 8 % 8 / 2, opcode as int / 8 % 8 % 2).cpu.registers.pc == wrap16(m.cpu.registers.pc + length_of(opcode) - 1),
{
    reveal(run_pops);
}

proof fn lemma_table_run_jumps_and_loads(m: Machine, opcode: u8)
    requires
        opcode >= 0xC0,
        opcode % 8 == 2,
    ensures
        run_jumps_and_loads(m, opcode as int / 8 % 8).cycles == cycles_of(opcode, m.imm8()) + (if is_conditional(opcode)
            && condition_holds(m, opcode) {
            taken_extra(opcode)
        } else {
            0
        }),
        run_jumps_and_loads(m, opcode as int / 8 % 8).cpu.locked == (m.cpu.locked || is_illegal(opcode)),
        !transfers_control(opcode) || (is_conditional(opcode) && !condition_holds(m, opcode))
            ==> run_jumps_and_loads(m, opcode as int / 8 % 8).cpu.registers.pc == wrap16(m.cpu.registers.pc + length_of(opcode) - 1),
{
    reveal(run_jumps_and_loads);
}

proof fn lemma_table_run_control(m: Machine, opcode: u8)
    requires
        opcode >= 0xC0,
        opcode % 8 == 3,
    ensures
        run_control(m, opcode as int / 8 % 8).cycles == cycles_of(opcode, m.imm8()) + (if is_conditional(opcode)
            && condition_holds(m, opcode) {
            taken_extra(opcode)
        } else {
            0
        }),
        run_control(m, opcode as int / 8 % 8).cpu.locked == (m.cpu.locked || is_illegal(opcode)),
        !transfers_control(opcode) || (is_conditional(opcode) && !condition_holds(m, opcode))
            ==> run_control(m, opcode as int / 8 % 8).cpu.registers.pc == wrap16(m.cpu.registers.pc + length_of(opcode) - 1),
{
    reveal(run_control);
    reveal(run_cb);
}

} // verus!
