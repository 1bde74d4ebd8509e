//! The arithmetic of the processor: what each operation computes and how it
//! sets the flags Z, N, H and C.

use vstd::prelude::*;
use crate::gameboy::bits::{bit, bit_weight, wrap16, wrap8};
use crate::gameboy::flags_register::FlagsRegister;

verus! {

/// The result of an eight-bit operation.
pub struct AluResult {
    pub value: u8,
    pub flags: FlagsRegister,
}

/// The result of a sixteen-bit operation.
pub struct WideResult {
    pub value: u16,
    pub flags: FlagsRegister,
}

/// One for a set carry, zero for a clear one.
pub open spec fn carry_value(carry: bool) -> int {
    if carry {
        1
    } else {
        0
    }
}

/// A byte read as a signed number, -128 to 127.
pub open spec fn signed(byte: u8) -> int {
    if byte < 128 {
        byte as int
    } else {
        byte - 256
    }
}

/// ADD and ADC: Z from the result, N clear, H from the carry out of bit 3,
/// C from the carry out of bit 7.
pub open spec fn add8(a: u8, b: u8, carry_in: bool) -> AluResult {
    let c = carry_value(carry_in);
    AluResult {
        value: wrap8(a + b + c),
        flags: FlagsRegister {
            zero: wrap8(a + b + c) == 0,
            subtract: false,
            half_carry: a % 16 + b % 16 + c > 15,
            carry: a + b + c > 255,
        },
    }
}

/// SUB, SBC and CP: Z from the result, N set, H from the borrow into bit 4,
/// C from the borrow into bit 8.
pub open spec fn sub8(a: u8, b: u8, carry_in: bool) -> AluResult {
    let c = carry_value(carry_in);
    AluResult {
        value: wrap8(a - b - c),
        flags: FlagsRegister {
            zero: wrap8(a - b - c) == 0,
            subtract: true,
            half_carry: a % 16 < b % 16 + c,
            carry: a < b + c,
        },
    }
}

/// AND: Z from the result, H set, N and C clear.
pub open spec fn and8(a: u8, b: u8) -> AluResult {
    AluResult {
        value: a & b,
        flags: FlagsRegister { zero: a & b == 0, subtract: false, half_carry: true, carry: false },
    }
}

/// OR: Z from the result, the other flags clear.
pub open spec fn or8(a: u8, b: u8) -> AluResult {
    AluResult {
        value: a | b,
        flags: FlagsRegister { zero: a | b == 0, subtract: false, half_carry: false, carry: false },
    }
}

/// XOR: Z from the result, the other flags clear.
pub open spec fn xor8(a: u8, b: u8) -> AluResult {
    AluResult {
        value: a ^ b,
        flags: FlagsRegister { zero: a ^ b == 0, subtract: false, half_carry: false, carry: false },
    }
}

/// INC of a byte: Z from the result, N clear, H from the carry out of bit
/// 3; C keeps its value.
pub open spec fn inc8(a: u8, flags: FlagsRegister) -> AluResult {
    AluResult {
        value: wrap8(a + 1),
        flags: FlagsRegister {
            zero: a == 255,
            subtract: false,
            half_carry: a % 16 == 15,
            carry: flags.carry,
        },
    }
}

/// DEC of a byte: Z from the result, N set, H from the borrow into bit 4;
/// C keeps its value.
pub open spec fn dec8(a: u8, flags: FlagsRegister) -> AluResult {
    AluResult {
        value: wrap8(a - 1),
        flags: FlagsRegister {
            zero: a == 1,
            subtract: true,
            half_carry: a % 16 == 0,
            carry: flags.carry,
        },
    }
}

/// ADD HL,rr: N clear, H from the carry out of bit 11, C from the carry out
/// of bit 15; Z keeps its value.
pub open spec fn add16(hl: u16, rr: u16, flags: FlagsRegister) -> WideResult {
    WideResult {
        value: wrap16(hl + rr),
        flags: FlagsRegister {
            zero: flags.zero,
            subtract: false,
            half_carry: hl % 4096 + rr % 4096 > 4095,
            carry: hl + rr > 65535,
        },
    }
}

/// ADD SP,e and LD HL,SP+e: the offset is signed; Z and N clear, H and C
/// from the carries out of bit 3 and bit 7 of the low byte's sum.
pub open spec fn add_offset(sp: u16, offset: u8) -> WideResult {
    WideResult {
        value: wrap16(sp + signed(offset)),
        flags: FlagsRegister {
            zero: false,
            subtract: false,
            half_carry: sp % 16 + offset % 16 > 15,
            carry: sp % 256 + offset > 255,
        },
    }
}

/// The flags after a rotate or a shift: Z from the result, N and H clear, C
/// the bit that left the byte.
pub open spec fn shifted(value: u8, carry: bool) -> AluResult {
    AluResult {
        value,
        flags: FlagsRegister { zero: value == 0, subtract: false, half_carry: false, carry },
    }
}

/// Rotate left; bit 7 goes to bit 0 and to C.
pub open spec fn rlc8(a: u8) -> AluResult {
    shifted((a % 128 * 2 + a / 128) as u8, a >= 128)
}

/// Rotate right; bit 0 goes to bit 7 and to C.
pub open spec fn rrc8(a: u8) -> AluResult {
    shifted((a / 2 + a % 2 * 128) as u8, a % 2 == 1)
}

/// Rotate left through C: C goes to bit 0, bit 7 goes to C.
pub open spec fn rl8(a: u8, carry_in: bool) -> AluResult {
    shifted((a % 128 * 2 + carry_value(carry_in)) as u8, a >= 128)
}

/// Rotate right through C: C goes to bit 7, bit 0 goes to C.
pub open spec fn rr8(a: u8, carry_in: bool) -> AluResult {
    shifted((a / 2 + carry_value(carry_in) * 128) as u8, a % 2 == 1)
}

/// Shift left; bit 7 goes to C, bit 0 becomes zero.
pub open spec fn sla8(a: u8) -> AluResult {
    shifted((a % 128 * 2) as u8, a >= 128)
}

/// Shift right keeping bit 7; bit 0 goes to C.
pub open spec fn sra8(a: u8) -> AluResult {
    shifted((a / 2 + a / 128 * 128) as u8, a % 2 == 1)
}

/// Shift right; bit 0 goes to C, bit 7 becomes zero.
pub open spec fn srl8(a: u8) -> AluResult {
    shifted(a / 2, a % 2 == 1)
}

/// Exchange the two nibbles; C clear.
pub open spec fn swap8(a: u8) -> AluResult {
    shifted((a % 16 * 16 + a / 16) as u8, false)
}

/// The flags with Z clear: the rotates of the accumulator that have no
/// prefix always clear Z.
pub open spec fn without_zero(result: AluResult) -> AluResult {
    AluResult { value: result.value, flags: FlagsRegister { zero: false, ..result.flags } }
}

/// BIT n: Z set if the bit is clear, N clear, H set; C keeps its value.
pub open spec fn bit_test(a: u8, n: int, flags: FlagsRegister) -> FlagsRegister {
    FlagsRegister { zero: !bit(a, n), subtract: false, half_carry: true, carry: flags.carry }
}

/// SET n: the byte with bit `n` set.
pub open spec fn set8(a: u8, n: int) -> u8 {
    if bit(a, n) {
        a
    } else {
        (a + bit_weight(n)) as u8
    }
}

/// RES n: the byte with bit `n` clear.
pub open spec fn res8(a: u8, n: int) -> u8 {
    if bit(a, n) {
        (a - bit_weight(n)) as u8
    } else {
        a
    }
}

/// What DAA adds to the accumulator after an addition, or takes from it
/// after a subtraction: 0x06 to correct the low digit, 0x60 to correct the
/// high one.
pub open spec fn daa_adjustment(a: u8, flags: FlagsRegister) -> int {
    if flags.subtract {
        (if flags.half_carry { 0x06int } else { 0 }) + (if flags.carry { 0x60int } else { 0 })
    } else {
        (if flags.half_carry || a % 16 > 9 { 0x06int } else { 0 }) + (if flags.carry || a
            > 0x99 { 0x60int } else { 0 })
    }
}

/// DAA: the accumulator corrected to two decimal digits. Z from the result,
/// H clear, N as it was; after an addition C is set if the high digit was
/// corrected, after a subtraction C keeps its value.
pub open spec fn daa8(a: u8, flags: FlagsRegister) -> AluResult {
    let adjustment = daa_adjustment(a, flags);
    let value = if flags.subtract {
        wrap8(a - adjustment)
    } else {
        wrap8(a + adjustment)
    };
    AluResult {
        value,
        flags: FlagsRegister {
            zero: value == 0,
            subtract: flags.subtract,
            half_carry: false,
            carry: if flags.subtract {
                flags.carry
            } else {
                flags.carry || a > 0x99
            },
        },
    }
}

/// CPL: every bit of the accumulator inverted; N and H set.
pub open spec fn cpl8(a: u8, flags: FlagsRegister) -> AluResult {
    AluResult {
        value: (255 - a) as u8,
        flags: FlagsRegister { subtract: true, half_carry: true, ..flags },
    }
}

/// SCF: C set, N and H clear.
pub open spec fn scf(flags: FlagsRegister) -> FlagsRegister {
    FlagsRegister { subtract: false, half_carry: false, carry: true, ..flags }
}

/// CCF: C inverted, N and H clear.
pub open spec fn ccf(flags: FlagsRegister) -> FlagsRegister {
    FlagsRegister { subtract: false, half_carry: false, carry: !flags.carry, ..flags }
}

/// Rotates and shifts of a byte, as masks and shifts and as arithmetic.
pub proof fn lemma_shifts(a: u8)
    by (bit_vector)
    ensures
        a << 1 == a % 128 * 2,
        a >> 1 == a / 2,
        a >> 7 == a / 128,
        (a & 0x80 != 0) == (a >= 128),
        (a & 0x01 != 0) == (a % 2 == 1),
        (a << 1) | (a >> 7) == a % 128 * 2 + a / 128,
        (a >> 1) | ((a & 0x01) << 7) == a / 2 + a % 2 * 128,
        (a << 1) | 1 == a % 128 * 2 + 1,
        (a >> 1) | 0x80 == a / 2 + 128,
        (a >> 1) | (a & 0x80) == a / 2 + a / 128 * 128,
        !a == 255 - a,
{
}

/// Setting and clearing one bit of a byte.
pub proof fn lemma_set_reset(a: u8, mask: u8)
    by (bit_vector)
    requires
        mask == 1 || mask == 2 || mask == 4 || mask == 8 || mask == 16 || mask == 32 || mask
            == 64 || mask == 128,
    ensures
        a | mask == (if a & mask != 0 {
            a
        } else {
            (a + mask) as u8
        }),
        a & !mask == (if a & mask != 0 {
            (a - mask) as u8
        } else {
            a
        }),
{
}

} // verus!
