use emulator::gameboy::flags_register::FlagsRegister;
use emulator::{Bus, CPU};

const START: u16 = 0xC000;

fn flags(z: bool, n: bool, h: bool, c: bool) -> FlagsRegister {
    FlagsRegister { zero: z, subtract: n, half_carry: h, carry: c }
}

fn clear() -> FlagsRegister {
    flags(false, false, false, false)
}

/// A processor at 0xC000 with the program in work RAM and cleared flags.
fn machine(program: &[u8]) -> (CPU, Bus) {
    let mut bus = Bus::new();
    for (i, byte) in program.iter().enumerate() {
        bus.ram_write_byte(START + i as u16, *byte);
    }
    let mut cpu = CPU::new();
    cpu.registers.pc = START;
    cpu.registers.f = clear();
    (cpu, bus)
}

#[test]
fn daa_after_add() {
    let (mut cpu, mut bus) = machine(&[0x80, 0x27]);
    cpu.registers.a = 0x45;
    cpu.registers.b = 0x38;
    assert_eq!(cpu.step(&mut bus), 4);
    assert_eq!(cpu.registers.a, 0x7D);
    assert_eq!(cpu.registers.f, clear());
    assert_eq!(cpu.step(&mut bus), 4);
    assert_eq!(cpu.registers.a, 0x83);
    assert_eq!(cpu.registers.f, clear());
}

#[test]
fn half_carry_on_inc() {
    for carry in [false, true] {
        let (mut cpu, mut bus) = machine(&[0x3C]);
        cpu.registers.a = 0x0F;
        cpu.registers.f = flags(true, true, false, carry);
        assert_eq!(cpu.step(&mut bus), 4);
        assert_eq!(cpu.registers.a, 0x10);
        assert_eq!(cpu.registers.f, flags(false, false, true, carry));
    }
}

#[test]
fn rlca_is_circular() {
    let (mut cpu, mut bus) = machine(&[0x07]);
    cpu.registers.a = 0x85;
    cpu.registers.f = flags(true, true, true, false);
    assert_eq!(cpu.step(&mut bus), 4);
    assert_eq!(cpu.registers.a, 0x0B);
    assert_eq!(cpu.registers.f, flags(false, false, false, true));
}

#[test]
fn push_then_pop_moves_a_word_between_pairs() {
    let (mut cpu, mut bus) = machine(&[0xE5, 0xC1]);
    cpu.registers.sp = 0xFFFE;
    cpu.registers.set_hl(0x1234);
    assert_eq!(cpu.step(&mut bus), 16);
    assert_eq!(cpu.registers.sp, 0xFFFC);
    assert_eq!(bus.ram_read_byte(0xFFFC), 0x34);
    assert_eq!(bus.ram_read_byte(0xFFFD), 0x12);
    assert_eq!(cpu.step(&mut bus), 12);
    assert_eq!(cpu.registers.get_bc(), 0x1234);
    assert_eq!(cpu.registers.sp, 0xFFFE);
    assert_eq!(cpu.registers.pc, START + 2);
}

#[test]
fn pending_interrupt_is_served_before_the_next_opcode() {
    let vectors = [(0x01u8, 0x40u16), (0x02, 0x48), (0x04, 0x50), (0x08, 0x58), (0x10, 0x60)];
    for (bit, vector) in vectors {
        let (mut cpu, mut bus) = machine(&[0x3C]);
        cpu.registers.sp = 0xD000;
        cpu.registers.a = 7;
        cpu.ime = true;
        bus.ram_write_byte(0xFFFF, 0x1F);
        // This one and every lower priority.
        let pending = !(bit - 1) & 0x1F;
        bus.ram_write_byte(0xFF0F, pending | 0xE0);
        assert_eq!(cpu.step(&mut bus), 20);
        assert_eq!(cpu.registers.pc, vector);
        assert_eq!(cpu.registers.a, 7);
        assert!(!cpu.ime);
        assert_eq!(cpu.registers.sp, 0xCFFE);
        assert_eq!(bus.ram_read_word(0xCFFE), START);
        assert_eq!(bus.ram_read_byte(0xFF0F), (pending & !bit) | 0xE0);
    }
}

#[test]
fn interrupts_wait_while_they_are_masked_or_disabled() {
    // The master enable is clear.
    let (mut cpu, mut bus) = machine(&[0x3C]);
    bus.ram_write_byte(0xFFFF, 0x1F);
    bus.ram_write_byte(0xFF0F, 0x01);
    assert_eq!(cpu.step(&mut bus), 4);
    assert_eq!(cpu.registers.pc, START + 1);
    assert_eq!(bus.ram_read_byte(0xFF0F), 0x01);
    // The interrupt is not enabled in IE.
    let (mut cpu, mut bus) = machine(&[0x3C]);
    cpu.ime = true;
    bus.ram_write_byte(0xFFFF, 0x1E);
    bus.ram_write_byte(0xFF0F, 0x01);
    assert_eq!(cpu.step(&mut bus), 4);
    assert_eq!(cpu.registers.pc, START + 1);
    assert!(cpu.ime);
    // Only bits that stand for no interrupt are set.
    let (mut cpu, mut bus) = machine(&[0x3C]);
    cpu.ime = true;
    bus.ram_write_byte(0xFFFF, 0xFF);
    bus.ram_write_byte(0xFF0F, 0xE0);
    assert_eq!(cpu.step(&mut bus), 4);
    assert_eq!(cpu.registers.pc, START + 1);
}

#[test]
fn ei_takes_effect_after_the_next_instruction() {
    let (mut cpu, mut bus) = machine(&[0xFB, 0x3C, 0x3C]);
    cpu.registers.sp = 0xD000;
    bus.ram_write_byte(0xFFFF, 0x04);
    bus.ram_write_byte(0xFF0F, 0x04);
    assert_eq!(cpu.step(&mut bus), 4);
    assert!(!cpu.ime);
    // The instruction after EI is executed although an interrupt waits.
    assert_eq!(cpu.step(&mut bus), 4);
    assert_eq!(cpu.registers.pc, START + 2);
    assert!(cpu.ime);
    // Now the interrupt is served.
    assert_eq!(cpu.step(&mut bus), 20);
    assert_eq!(cpu.registers.pc, 0x0050);
    assert_eq!(bus.ram_read_word(0xCFFE), START + 2);
}

#[test]
fn di_cancels_an_ei_that_has_not_taken_effect() {
    let (mut cpu, mut bus) = machine(&[0xFB, 0xF3, 0x00]);
    bus.ram_write_byte(0xFFFF, 0x04);
    bus.ram_write_byte(0xFF0F, 0x04);
    cpu.step(&mut bus);
    assert_eq!(cpu.step(&mut bus), 4);
    assert!(!cpu.ime);
    assert_eq!(cpu.step(&mut bus), 4);
    assert!(!cpu.ime);
    assert_eq!(cpu.registers.pc, START + 3);
    // DI acts at once.
    let (mut cpu, mut bus) = machine(&[0xF3]);
    cpu.ime = true;
    cpu.step(&mut bus);
    assert!(!cpu.ime);
}

#[test]
fn reti_returns_and_enables_interrupts_at_once() {
    let (mut cpu, mut bus) = machine(&[0xD9]);
    cpu.registers.sp = 0xD000;
    bus.ram_write_word(0xD000, 0xC123);
    assert_eq!(cpu.step(&mut bus), 16);
    assert_eq!(cpu.registers.pc, 0xC123);
    assert_eq!(cpu.registers.sp, 0xD002);
    assert!(cpu.ime);
}

#[test]
fn halt_stops_until_an_interrupt_is_pending() {
    let (mut cpu, mut bus) = machine(&[0x76, 0x3C]);
    cpu.registers.sp = 0xD000;
    cpu.ime = true;
    bus.ram_write_byte(0xFFFF, 0x04);
    assert_eq!(cpu.step(&mut bus), 4);
    assert!(cpu.halted);
    for _ in 0..10 {
        assert_eq!(cpu.step(&mut bus), 4);
        assert_eq!(cpu.registers.pc, START + 1);
    }
    // A request that is not enabled does not wake it.
    bus.ram_write_byte(0xFF0F, 0x01);
    assert_eq!(cpu.step(&mut bus), 4);
    assert!(cpu.halted);
    bus.ram_write_byte(0xFF0F, 0x04);
    assert_eq!(cpu.step(&mut bus), 20);
    assert!(!cpu.halted);
    assert_eq!(cpu.registers.pc, 0x0050);
    assert_eq!(bus.ram_read_word(0xCFFE), START + 1);
}

#[test]
fn halt_wakes_without_service_when_interrupts_are_disabled() {
    let (mut cpu, mut bus) = machine(&[0x76, 0x3C]);
    bus.ram_write_byte(0xFFFF, 0x04);
    cpu.registers.a = 0;
    cpu.step(&mut bus);
    assert!(cpu.halted);
    cpu.step(&mut bus);
    assert!(cpu.halted);
    bus.ram_write_byte(0xFF0F, 0x04);
    assert_eq!(cpu.step(&mut bus), 4);
    assert!(!cpu.halted);
    assert_eq!(cpu.registers.a, 1);
    assert_eq!(cpu.registers.pc, START + 2);
    assert_eq!(bus.ram_read_byte(0xFF0F), 0x04);
}

#[test]
fn halt_with_a_pending_interrupt_and_no_master_enable_repeats_a_byte() {
    // HALT; INC A: the INC is executed twice.
    let (mut cpu, mut bus) = machine(&[0x76, 0x3C, 0x00]);
    bus.ram_write_byte(0xFFFF, 0x04);
    bus.ram_write_byte(0xFF0F, 0x04);
    cpu.registers.a = 0;
    assert_eq!(cpu.step(&mut bus), 4);
    assert!(!cpu.halted);
    assert_eq!(cpu.step(&mut bus), 4);
    assert_eq!(cpu.registers.a, 1);
    assert_eq!(cpu.registers.pc, START + 1);
    assert_eq!(cpu.step(&mut bus), 4);
    assert_eq!(cpu.registers.a, 2);
    assert_eq!(cpu.registers.pc, START + 2);
}

#[test]
fn illegal_opcodes_lock_the_processor_up() {
    for opcode in [0xD3u8, 0xDB, 0xDD, 0xE3, 0xE4, 0xEB, 0xEC, 0xED, 0xF4, 0xFC, 0xFD] {
        let (mut cpu, mut bus) = machine(&[opcode, 0x3C]);
        cpu.registers.a = 0;
        cpu.ime = true;
        assert_eq!(cpu.step(&mut bus), 4, "opcode {:#X}", opcode);
        assert!(cpu.locked);
        // Nothing moves it any more, not even an interrupt.
        bus.ram_write_byte(0xFFFF, 0x1F);
        bus.ram_write_byte(0xFF0F, 0x1F);
        for _ in 0..5 {
            assert_eq!(cpu.step(&mut bus), 4);
        }
        assert_eq!(cpu.registers.a, 0);
        assert_eq!(cpu.registers.pc, START + 1);
        assert_eq!(bus.ram_read_byte(0xFF0F), 0x1F);
    }
}

#[test]
fn stop_is_two_bytes_long_and_restarts_the_divider() {
    let (mut cpu, mut bus) = machine(&[0x10, 0x00, 0x3C]);
    bus.tick(255);
    bus.tick(255);
    assert_eq!(bus.ram_read_byte(0xFF04), 1);
    assert_eq!(cpu.step(&mut bus), 4);
    assert_eq!(cpu.registers.pc, START + 2);
    assert_eq!(bus.ram_read_byte(0xFF04), 0);
    assert_eq!(bus.timer.div, 0);
}

const NOT_TAKEN: [u8; 256] = [
    4, 12, 8, 8, 4, 4, 8, 4, 20, 8, 8, 8, 4, 4, 8, 4, // 0x
    4, 12, 8, 8, 4, 4, 8, 4, 12, 8, 8, 8, 4, 4, 8, 4, // 1x
    8, 12, 8, 8, 4, 4, 8, 4, 8, 8, 8, 8, 4, 4, 8, 4, // 2x
    8, 12, 8, 8, 12, 12, 12, 4, 8, 8, 8, 8, 4, 4, 8, 4, // 3x
    4, 4, 4, 4, 4, 4, 8, 4, 4, 4, 4, 4, 4, 4, 8, 4, // 4x
    4, 4, 4, 4, 4, 4, 8, 4, 4, 4, 4, 4, 4, 4, 8, 4, // 5x
    4, 4, 4, 4, 4, 4, 8, 4, 4, 4, 4, 4, 4, 4, 8, 4, // 6x
    8, 8, 8, 8, 8, 8, 4, 8, 4, 4, 4, 4, 4, 4, 8, 4, // 7x
    4, 4, 4, 4, 4, 4, 8, 4, 4, 4, 4, 4, 4, 4, 8, 4, // 8x
    4, 4, 4, 4, 4, 4, 8, 4, 4, 4, 4, 4, 4, 4, 8, 4, // 9x
    4, 4, 4, 4, 4, 4, 8, 4, 4, 4, 4, 4, 4, 4, 8, 4, // Ax
    4, 4, 4, 4, 4, 4, 8, 4, 4, 4, 4, 4, 4, 4, 8, 4, // Bx
    8, 12, 12, 16, 12, 16, 8, 16, 8, 16, 12, 0, 12, 24, 8, 16, // Cx
    8, 12, 12, 4, 12, 16, 8, 16, 8, 16, 12, 4, 12, 4, 8, 16, // Dx
    12, 12, 8, 4, 4, 16, 8, 16, 16, 4, 16, 4, 4, 4, 8, 16, // Ex
    12, 12, 8, 4, 4, 16, 8, 16, 12, 8, 16, 4, 4, 4, 8, 16, // Fx
];

const LENGTH: [u8; 256] = [
    1, 3, 1, 1, 1, 1, 2, 1, 3, 1, 1, 1, 1, 1, 2, 1, // 0x
    2, 3, 1, 1, 1, 1, 2, 1, 2, 1, 1, 1, 1, 1, 2, 1, // 1x
    2, 3, 1, 1, 1, 1, 2, 1, 2, 1, 1, 1, 1, 1, 2, 1, // 2x
    2, 3, 1, 1, 1, 1, 2, 1, 2, 1, 1, 1, 1, 1, 2, 1, // 3x
    1, 1, 1, 1, 1, 1, 1, 1, 1, 1, 1, 1, 1, 1, 1, 1, // 4x
    1, 1, 1, 1, 1, 1, 1, 1, 1, 1, 1, 1, 1, 1, 1, 1, // 5x
    1, 1, 1, 1, 1, 1, 1, 1, 1, 1, 1, 1, 1, 1, 1, 1, // 6x
    1, 1, 1, 1, 1, 1, 1, 1, 1, 1, 1, 1, 1, 1, 1, 1, // 7x
    1, 1, 1, 1, 1, 1, 1, 1, 1, 1, 1, 1, 1, 1, 1, 1, // 8x
    1, 1, 1, 1, 1, 1, 1, 1, 1, 1, 1, 1, 1, 1, 1, 1, // 9x
    1, 1, 1, 1, 1, 1, 1, 1, 1, 1, 1, 1, 1, 1, 1, 1, // Ax
    1, 1, 1, 1, 1, 1, 1, 1, 1, 1, 1, 1, 1, 1, 1, 1, // Bx
    1, 1, 3, 3, 3, 1, 2, 1, 1, 1, 3, 2, 3, 3, 2, 1, // Cx
    1, 1, 3, 1, 3, 1, 2, 1, 1, 1, 3, 1, 3, 1, 2, 1, // Dx
    2, 1, 1, 1, 1, 1, 2, 1, 2, 1, 3, 1, 1, 1, 2, 1, // Ex
    2, 1, 1, 1, 1, 1, 2, 1, 2, 1, 3, 1, 1, 1, 2, 1, // Fx
];

fn is_conditional(opcode: u8) -> bool {
    matches!(
        opcode,
        0x20 | 0x28 | 0x30 | 0x38 | 0xC0 | 0xC8 | 0xD0 | 0xD8 | 0xC2 | 0xCA | 0xD2 | 0xDA | 0xC4
            | 0xCC | 0xD4 | 0xDC
    )
}

fn changes_pc(opcode: u8) -> bool {
    matches!(opcode, 0x18 | 0xC3 | 0xC9 | 0xD9 | 0xE9 | 0xCD)
        || (opcode & 0xC7) == 0xC7
}

/// The flags under which the condition of a conditional instruction fails.
fn failing(opcode: u8) -> FlagsRegister {
    match (opcode >> 3) & 3 {
        0 => flags(true, false, false, false),
        1 => flags(false, false, false, false),
        2 => flags(false, false, false, true),
        _ => flags(false, false, false, false),
    }
}

/// The flags under which it holds.
fn holding(opcode: u8) -> FlagsRegister {
    match (opcode >> 3) & 3 {
        0 => flags(false, false, false, false),
        1 => flags(true, false, false, false),
        2 => flags(false, false, false, false),
        _ => flags(false, false, false, true),
    }
}

#[test]
fn every_opcode_takes_its_cycles_and_its_bytes() {
    for opcode in 0..=255u8 {
        if opcode == 0xCB {
            continue;
        }
        let (mut cpu, mut bus) = machine(&[opcode, 0x10, 0xD0]);
        cpu.registers.sp = 0xDF00;
        cpu.registers.set_hl(0xD800);
        cpu.registers.set_bc(0xD900);
        cpu.registers.set_de(0xDA00);
        if is_conditional(opcode) {
            cpu.registers.f = failing(opcode);
        }
        let cycles = cpu.step(&mut bus);
        assert_eq!(cycles, NOT_TAKEN[opcode as usize], "cycles of {:#04X}", opcode);
        if !changes_pc(opcode) {
            assert_eq!(
                cpu.registers.pc,
                START + LENGTH[opcode as usize] as u16,
                "length of {:#04X}",
                opcode
            );
        }
    }
}

#[test]
fn taken_branches_cost_more() {
    let taken = [
        (0x20u8, 12u8),
        (0x28, 12),
        (0x30, 12),
        (0x38, 12),
        (0xC0, 20),
        (0xC8, 20),
        (0xD0, 20),
        (0xD8, 20),
        (0xC2, 16),
        (0xCA, 16),
        (0xD2, 16),
        (0xDA, 16),
        (0xC4, 24),
        (0xCC, 24),
        (0xD4, 24),
        (0xDC, 24),
    ];
    for (opcode, cycles) in taken {
        let (mut cpu, mut bus) = machine(&[opcode, 0x10, 0xD0]);
        cpu.registers.sp = 0xDF00;
        bus.ram_write_word(0xDF00, 0xC456);
        cpu.registers.f = holding(opcode);
        assert_eq!(cpu.step(&mut bus), cycles, "cycles of {:#04X}", opcode);
        let target = match opcode {
            0x20 | 0x28 | 0x30 | 0x38 => START + 2 + 0x10,
            0xC0 | 0xC8 | 0xD0 | 0xD8 => 0xC456,
            _ => 0xD010,
        };
        assert_eq!(cpu.registers.pc, target, "target of {:#04X}", opcode);
        if opcode & 0x07 == 0x04 {
            assert_eq!(cpu.registers.sp, 0xDEFE);
            assert_eq!(bus.ram_read_word(0xDEFE), START + 3);
        }
    }
}

#[test]
fn every_prefixed_opcode_takes_its_cycles() {
    for opcode in 0..=255u8 {
        let (mut cpu, mut bus) = machine(&[0xCB, opcode]);
        cpu.registers.set_hl(0xD800);
        let expected = if opcode & 0x07 != 6 {
            8
        } else if opcode & 0xC0 == 0x40 {
            12
        } else {
            16
        };
        assert_eq!(cpu.step(&mut bus), expected, "cycles of CB {:#04X}", opcode);
        assert_eq!(cpu.registers.pc, START + 2);
    }
}

fn alu(opcode: u8, a: u8, operand: u8, before: FlagsRegister) -> (u8, FlagsRegister) {
    // The immediate forms: 0xC6, 0xCE, ...
    let (mut cpu, mut bus) = machine(&[opcode, operand]);
    cpu.registers.a = a;
    cpu.registers.f = before;
    assert_eq!(cpu.step(&mut bus), 8);
    (cpu.registers.a, cpu.registers.f)
}

#[test]
fn add_and_adc_set_the_flags() {
    assert_eq!(alu(0xC6, 0x3A, 0xC6, clear()), (0x00, flags(true, false, true, true)));
    assert_eq!(alu(0xC6, 0x3C, 0xFF, clear()), (0x3B, flags(false, false, true, true)));
    assert_eq!(alu(0xC6, 0x3C, 0x12, clear()), (0x4E, clear()));
    assert_eq!(alu(0xC6, 0x0F, 0x01, flags(true, true, false, true)), (0x10, flags(false, false, true, false)));
    // ADC adds the carry; ADD does not.
    let carry = flags(false, false, false, true);
    assert_eq!(alu(0xCE, 0xE1, 0x0F, carry), (0xF1, flags(false, false, true, false)));
    assert_eq!(alu(0xCE, 0xE1, 0x3B, carry), (0x1D, flags(false, false, false, true)));
    assert_eq!(alu(0xCE, 0xE1, 0x1E, carry), (0x00, flags(true, false, true, true)));
    assert_eq!(alu(0xCE, 0x00, 0xFF, carry), (0x00, flags(true, false, true, true)));
    assert_eq!(alu(0xCE, 0x0F, 0x00, carry), (0x10, flags(false, false, true, false)));
    assert_eq!(alu(0xC6, 0xE1, 0x0F, carry), (0xF0, flags(false, false, true, false)));
}

#[test]
fn sub_sbc_and_cp_set_the_flags() {
    assert_eq!(alu(0xD6, 0x3E, 0x3E, clear()), (0x00, flags(true, true, false, false)));
    assert_eq!(alu(0xD6, 0x3E, 0x0F, clear()), (0x2F, flags(false, true, true, false)));
    assert_eq!(alu(0xD6, 0x3E, 0x40, clear()), (0xFE, flags(false, true, false, true)));
    let carry = flags(false, false, false, true);
    assert_eq!(alu(0xDE, 0x3B, 0x2A, carry), (0x10, flags(false, true, false, false)));
    assert_eq!(alu(0xDE, 0x3B, 0x3A, carry), (0x00, flags(true, true, false, false)));
    assert_eq!(alu(0xDE, 0x3B, 0x4F, carry), (0xEB, flags(false, true, true, true)));
    assert_eq!(alu(0xDE, 0x00, 0xFF, carry), (0x00, flags(true, true, true, true)));
    assert_eq!(alu(0xD6, 0x3B, 0x2A, carry), (0x11, flags(false, true, false, false)));
    // CP leaves A alone.
    assert_eq!(alu(0xFE, 0x3C, 0x2F, clear()), (0x3C, flags(false, true, true, false)));
    assert_eq!(alu(0xFE, 0x3C, 0x3C, clear()), (0x3C, flags(true, true, false, false)));
    assert_eq!(alu(0xFE, 0x3C, 0x40, clear()), (0x3C, flags(false, true, false, true)));
}

#[test]
fn logic_operations_set_the_flags() {
    let all = flags(true, true, true, true);
    assert_eq!(alu(0xE6, 0x5A, 0x3F, all), (0x1A, flags(false, false, true, false)));
    assert_eq!(alu(0xE6, 0x5A, 0x00, all), (0x00, flags(true, false, true, false)));
    assert_eq!(alu(0xF6, 0x5A, 0x0F, all), (0x5F, clear()));
    assert_eq!(alu(0xF6, 0x00, 0x00, all), (0x00, flags(true, false, false, false)));
    assert_eq!(alu(0xEE, 0xFF, 0x0F, all), (0xF0, clear()));
    assert_eq!(alu(0xEE, 0xFF, 0xFF, all), (0x00, flags(true, false, false, false)));
}

#[test]
fn the_arithmetic_unit_takes_every_operand() {
    // ADD A,r for r = B, C, D, E, H, L, (HL), A.
    for z in 0..8u8 {
        let (mut cpu, mut bus) = machine(&[0x80 + z]);
        cpu.registers.a = 0x10;
        cpu.registers.b = 1;
        cpu.registers.c = 2;
        cpu.registers.d = 3;
        cpu.registers.e = 4;
        cpu.registers.h = 0xD0;
        cpu.registers.l = 6;
        bus.ram_write_byte(0xD006, 7);
        let cycles = cpu.step(&mut bus);
        let expected = [0x11, 0x12, 0x13, 0x14, 0xE0, 0x16, 0x17, 0x20][z as usize];
        assert_eq!(cpu.registers.a, expected);
        assert_eq!(cycles, if z == 6 { 8 } else { 4 });
    }
    // Each of the eight operations on B.
    let results = [0x46u8, 0x47, 0x34, 0x33, 0x09, 0x34, 0x3D, 0x3D];
    for y in 0..8u8 {
        let (mut cpu, mut bus) = machine(&[0x80 + 8 * y]);
        cpu.registers.a = 0x3D;
        cpu.registers.b = 0x09;
        cpu.registers.f = flags(false, false, false, true);
        cpu.step(&mut bus);
        assert_eq!(cpu.registers.a, results[y as usize], "operation {}", y);
    }
}

#[test]
fn inc_and_dec_of_bytes_keep_the_carry() {
    for carry in [false, true] {
        let cases = [
            (0x04u8, 0xFFu8, 0x00u8, flags(true, false, true, carry)),
            (0x04, 0x00, 0x01, flags(false, false, false, carry)),
            (0x05, 0x01, 0x00, flags(true, true, false, carry)),
            (0x05, 0x00, 0xFF, flags(false, true, true, carry)),
            (0x05, 0x10, 0x0F, flags(false, true, true, carry)),
        ];
        for (opcode, before, after, expected) in cases {
            let (mut cpu, mut bus) = machine(&[opcode]);
            cpu.registers.b = before;
            cpu.registers.f = flags(false, false, false, carry);
            cpu.step(&mut bus);
            assert_eq!(cpu.registers.b, after);
            assert_eq!(cpu.registers.f, expected);
        }
    }
    // INC (HL) and DEC (HL) work on memory.
    let (mut cpu, mut bus) = machine(&[0x34, 0x35, 0x35]);
    cpu.registers.set_hl(0xD000);
    bus.ram_write_byte(0xD000, 0x0F);
    assert_eq!(cpu.step(&mut bus), 12);
    assert_eq!(bus.ram_read_byte(0xD000), 0x10);
    assert!(cpu.registers.f.half_carry);
    cpu.step(&mut bus);
    cpu.step(&mut bus);
    assert_eq!(bus.ram_read_byte(0xD000), 0x0E);
    assert!(cpu.registers.f.subtract);
}

#[test]
fn sixteen_bit_arithmetic_sets_the_flags() {
    // ADD HL,BC
    let (mut cpu, mut bus) = machine(&[0x09]);
    cpu.registers.set_hl(0x8A23);
    cpu.registers.set_bc(0x0605);
    cpu.registers.f = flags(true, true, false, false);
    assert_eq!(cpu.step(&mut bus), 8);
    assert_eq!(cpu.registers.get_hl(), 0x9028);
    assert_eq!(cpu.registers.f, flags(true, false, true, false));
    // ADD HL,HL
    let (mut cpu, mut bus) = machine(&[0x29]);
    cpu.registers.set_hl(0x8A23);
    cpu.step(&mut bus);
    assert_eq!(cpu.registers.get_hl(), 0x1446);
    assert_eq!(cpu.registers.f, flags(false, false, true, true));
    // ADD HL,SP without a carry
    let (mut cpu, mut bus) = machine(&[0x39]);
    cpu.registers.set_hl(0x0001);
    cpu.registers.sp = 0x0002;
    cpu.registers.f = flags(false, true, true, true);
    cpu.step(&mut bus);
    assert_eq!(cpu.registers.get_hl(), 0x0003);
    assert_eq!(cpu.registers.f, clear());
    // INC and DEC of pairs change no flag and wrap.
    let (mut cpu, mut bus) = machine(&[0x03, 0x1B, 0x33, 0x2B]);
    cpu.registers.set_bc(0xFFFF);
    cpu.registers.set_de(0x0000);
    cpu.registers.sp = 0x00FF;
    cpu.registers.set_hl(0x1000);
    let before = flags(true, false, true, false);
    cpu.registers.f = before;
    for _ in 0..4 {
        assert_eq!(cpu.step(&mut bus), 8);
    }
    assert_eq!(cpu.registers.get_bc(), 0x0000);
    assert_eq!(cpu.registers.get_de(), 0xFFFF);
    assert_eq!(cpu.registers.sp, 0x0100);
    assert_eq!(cpu.registers.get_hl(), 0x0FFF);
    assert_eq!(cpu.registers.f, before);
}

#[test]
fn sp_plus_offset_takes_its_flags_from_the_low_byte() {
    let cases = [
        (0xFFF8u16, 0x02u8, 0xFFFAu16, clear()),
        (0xFFF8, 0x08, 0x0000, flags(false, false, true, true)),
        (0x0000, 0xFF, 0xFFFF, clear()),
        (0x0001, 0xFF, 0x0000, flags(false, false, true, true)),
        (0x00FF, 0x01, 0x0100, flags(false, false, true, true)),
        (0x0100, 0x80, 0x0080, clear()),
        (0x000F, 0x01, 0x0010, flags(false, false, true, false)),
        (0x00F0, 0x10, 0x0100, flags(false, false, false, true)),
    ];
    for (sp, offset, sum, expected) in cases {
        // ADD SP,e
        let (mut cpu, mut bus) = machine(&[0xE8, offset]);
        cpu.registers.sp = sp;
        cpu.registers.f = flags(true, true, false, false);
        assert_eq!(cpu.step(&mut bus), 16);
        assert_eq!(cpu.registers.sp, sum);
        assert_eq!(cpu.registers.f, expected);
        // LD HL,SP+e
        let (mut cpu, mut bus) = machine(&[0xF8, offset]);
        cpu.registers.sp = sp;
        cpu.registers.f = flags(true, true, false, false);
        assert_eq!(cpu.step(&mut bus), 12);
        assert_eq!(cpu.registers.get_hl(), sum);
        assert_eq!(cpu.registers.sp, sp);
        assert_eq!(cpu.registers.f, expected);
    }
}

#[test]
fn rotates_of_the_accumulator_clear_z() {
    let cases = [
        // RLCA
        (0x07u8, 0x80u8, false, 0x01u8, true),
        (0x07, 0x00, true, 0x00, false),
        // RRCA
        (0x0F, 0x3B, false, 0x9D, true),
        (0x0F, 0x02, true, 0x01, false),
        // RLA
        (0x17, 0x95, true, 0x2B, true),
        (0x17, 0x80, false, 0x00, true),
        // RRA
        (0x1F, 0x81, false, 0x40, true),
        (0x1F, 0x00, true, 0x80, false),
    ];
    for (opcode, a, carry, result, carry_out) in cases {
        let (mut cpu, mut bus) = machine(&[opcode]);
        cpu.registers.a = a;
        cpu.registers.f = flags(true, true, true, carry);
        assert_eq!(cpu.step(&mut bus), 4);
        assert_eq!(cpu.registers.a, result, "opcode {:#04X}", opcode);
        assert_eq!(cpu.registers.f, flags(false, false, false, carry_out));
    }
}

#[test]
fn prefixed_rotates_and_shifts_set_z_from_the_result() {
    let cases = [
        // RLC B
        (0x00u8, 0x85u8, false, 0x0Bu8, flags(false, false, false, true)),
        (0x00, 0x00, true, 0x00, flags(true, false, false, false)),
        // RRC B
        (0x08, 0x01, false, 0x80, flags(false, false, false, true)),
        // RL B
        (0x10, 0x80, false, 0x00, flags(true, false, false, true)),
        (0x10, 0x11, true, 0x23, flags(false, false, false, false)),
        // RR B
        (0x18, 0x01, false, 0x00, flags(true, false, false, true)),
        (0x18, 0x8A, true, 0xC5, flags(false, false, false, false)),
        // SLA B
        (0x20, 0x80, true, 0x00, flags(true, false, false, true)),
        (0x20, 0xFF, false, 0xFE, flags(false, false, false, true)),
        // SRA B
        (0x28, 0x8A, false, 0xC5, flags(false, false, false, false)),
        (0x28, 0x01, false, 0x00, flags(true, false, false, true)),
        // SWAP B
        (0x30, 0xF1, true, 0x1F, clear()),
        (0x30, 0x00, true, 0x00, flags(true, false, false, false)),
        // SRL B
        (0x38, 0x01, false, 0x00, flags(true, false, false, true)),
        (0x38, 0xFF, false, 0x7F, flags(false, false, false, true)),
    ];
    for (opcode, b, carry, result, expected) in cases {
        let (mut cpu, mut bus) = machine(&[0xCB, opcode]);
        cpu.registers.b = b;
        cpu.registers.f = flags(false, true, true, carry);
        assert_eq!(cpu.step(&mut bus), 8);
        assert_eq!(cpu.registers.b, result, "opcode CB {:#04X}", opcode);
        assert_eq!(cpu.registers.f, expected, "opcode CB {:#04X}", opcode);
    }
}

#[test]
fn bit_set_and_res_work_on_every_bit_and_operand() {
    for bit in 0..8u8 {
        for z in 0..8u8 {
            let value = 0xA5u8;
            let setup = |opcode: u8| {
                let (mut cpu, mut bus) = machine(&[0xCB, opcode]);
                cpu.registers.a = value;
                cpu.registers.b = value;
                cpu.registers.c = value;
                cpu.registers.d = value;
                cpu.registers.e = value;
                cpu.registers.set_hl(0xD0D0);
                bus.ram_write_byte(0xD0D0, value);
                cpu.registers.f = flags(false, true, false, true);
                (cpu, bus)
            };
            let operand = |cpu: &CPU, bus: &Bus| match z {
                0 => cpu.registers.b,
                1 => cpu.registers.c,
                2 => cpu.registers.d,
                3 => cpu.registers.e,
                4 => cpu.registers.h,
                5 => cpu.registers.l,
                6 => bus.ram_read_byte(cpu.registers.get_hl()),
                _ => cpu.registers.a,
            };
            let initial = if z == 4 || z == 5 { 0xD0 } else { value };
            // BIT
            let (mut cpu, mut bus) = setup(0x40 + 8 * bit + z);
            cpu.step(&mut bus);
            assert_eq!(operand(&cpu, &bus), initial);
            assert_eq!(cpu.registers.f, flags(initial & (1 << bit) == 0, false, true, true));
            // RES
            let (mut cpu, mut bus) = setup(0x80 + 8 * bit + z);
            cpu.step(&mut bus);
            if z != 4 && z != 5 {
                assert_eq!(operand(&cpu, &bus), initial & !(1 << bit));
            }
            assert_eq!(cpu.registers.f, flags(false, true, false, true));
            // SET
            let (mut cpu, mut bus) = setup(0xC0 + 8 * bit + z);
            cpu.step(&mut bus);
            if z != 4 && z != 5 {
                assert_eq!(operand(&cpu, &bus), initial | (1 << bit));
            }
            assert_eq!(cpu.registers.f, flags(false, true, false, true));
        }
    }
    // SET and RES on H change H itself.
    let (mut cpu, mut bus) = machine(&[0xCB, 0xC4, 0xCB, 0xBD]);
    cpu.registers.set_hl(0x00FF);
    cpu.step(&mut bus);
    cpu.step(&mut bus);
    assert_eq!(cpu.registers.get_hl(), 0x017F);
}

#[test]
fn daa_corrects_after_additions_and_subtractions() {
    let cases = [
        // after an addition
        (0x00u8, clear(), 0x00u8, flags(true, false, false, false)),
        (0x0A, clear(), 0x10, clear()),
        (0x9A, clear(), 0x00, flags(true, false, false, true)),
        (0xA0, clear(), 0x00, flags(true, false, false, true)),
        (0x12, flags(false, false, true, false), 0x18, clear()),
        (0x12, flags(false, false, false, true), 0x72, flags(false, false, false, true)),
        (0x99, clear(), 0x99, clear()),
        // after a subtraction
        (0x0F, flags(false, true, true, false), 0x09, flags(false, true, false, false)),
        (0xF0, flags(false, true, false, true), 0x90, flags(false, true, false, true)),
        (0x66, flags(false, true, true, true), 0x00, flags(true, true, false, true)),
        (0xAA, flags(false, true, false, false), 0xAA, flags(false, true, false, false)),
    ];
    for (a, before, result, expected) in cases {
        let (mut cpu, mut bus) = machine(&[0x27]);
        cpu.registers.a = a;
        cpu.registers.f = before;
        cpu.step(&mut bus);
        assert_eq!(cpu.registers.a, result, "A = {:#04X}", a);
        assert_eq!(cpu.registers.f, expected, "A = {:#04X}", a);
    }
}

#[test]
fn cpl_scf_and_ccf_touch_only_their_flags() {
    let (mut cpu, mut bus) = machine(&[0x2F, 0x37, 0x3F, 0x3F]);
    cpu.registers.a = 0x35;
    cpu.registers.f = flags(true, false, false, true);
    cpu.step(&mut bus);
    assert_eq!(cpu.registers.a, 0xCA);
    assert_eq!(cpu.registers.f, flags(true, true, true, true));
    cpu.registers.f = flags(true, true, true, false);
    cpu.step(&mut bus);
    assert_eq!(cpu.registers.f, flags(true, false, false, true));
    cpu.step(&mut bus);
    assert_eq!(cpu.registers.f, flags(true, false, false, false));
    cpu.step(&mut bus);
    assert_eq!(cpu.registers.f, flags(true, false, false, true));
    assert_eq!(cpu.registers.a, 0xCA);
}

#[test]
fn loads_between_registers_leave_the_flags_alone() {
    let before = flags(true, false, true, false);
    for opcode in 0x40..0x80u8 {
        if opcode == 0x76 {
            continue;
        }
        let (mut cpu, mut bus) = machine(&[opcode]);
        cpu.registers.a = 0xA0;
        cpu.registers.b = 0xB0;
        cpu.registers.c = 0xC0;
        cpu.registers.d = 0xD1;
        cpu.registers.e = 0xE0;
        cpu.registers.h = 0xD2;
        cpu.registers.l = 0x34;
        bus.ram_write_byte(0xD234, 0x66);
        cpu.registers.f = before;
        cpu.step(&mut bus);
        assert_eq!(cpu.registers.f, before);
        let source = [0xB0u8, 0xC0, 0xD1, 0xE0, 0xD2, 0x34, 0x66, 0xA0][(opcode & 7) as usize];
        let target = match (opcode >> 3) & 7 {
            0 => cpu.registers.b,
            1 => cpu.registers.c,
            2 => cpu.registers.d,
            3 => cpu.registers.e,
            4 => cpu.registers.h,
            5 => cpu.registers.l,
            6 => bus.ram_read_byte(0xD234),
            _ => cpu.registers.a,
        };
        assert_eq!(target, source, "opcode {:#04X}", opcode);
    }
}

#[test]
fn immediate_and_indirect_loads() {
    // LD r,n for every r.
    for y in 0..8u8 {
        let (mut cpu, mut bus) = machine(&[0x06 + 8 * y, 0x5A]);
        cpu.registers.set_hl(0xD000);
        cpu.step(&mut bus);
        let loaded = match y {
            0 => cpu.registers.b,
            1 => cpu.registers.c,
            2 => cpu.registers.d,
            3 => cpu.registers.e,
            4 => cpu.registers.h,
            5 => cpu.registers.l,
            6 => bus.ram_read_byte(0xD000),
            _ => cpu.registers.a,
        };
        assert_eq!(loaded, 0x5A);
    }
    // LD rr,nn
    let (mut cpu, mut bus) = machine(&[0x01, 0x34, 0x12, 0x11, 0x78, 0x56, 0x21, 0xBC, 0x9A, 0x31, 0xF0, 0xDE]);
    for _ in 0..4 {
        assert_eq!(cpu.step(&mut bus), 12);
    }
    assert_eq!(cpu.registers.get_bc(), 0x1234);
    assert_eq!(cpu.registers.get_de(), 0x5678);
    assert_eq!(cpu.registers.get_hl(), 0x9ABC);
    assert_eq!(cpu.registers.sp, 0xDEF0);
    // LD (BC),A; LD (DE),A; LD (HL+),A; LD (HL-),A and back.
    let (mut cpu, mut bus) = machine(&[0x02, 0x12, 0x22, 0x32, 0x0A, 0x1A, 0x2A, 0x3A]);
    cpu.registers.set_bc(0xD100);
    cpu.registers.set_de(0xD200);
    cpu.registers.set_hl(0xD300);
    cpu.registers.a = 0x11;
    cpu.step(&mut bus);
    cpu.registers.a = 0x22;
    cpu.step(&mut bus);
    cpu.registers.a = 0x33;
    cpu.step(&mut bus);
    assert_eq!(cpu.registers.get_hl(), 0xD301);
    cpu.registers.a = 0x44;
    cpu.step(&mut bus);
    assert_eq!(cpu.registers.get_hl(), 0xD300);
    assert_eq!(bus.ram_read_byte(0xD100), 0x11);
    assert_eq!(bus.ram_read_byte(0xD200), 0x22);
    assert_eq!(bus.ram_read_byte(0xD300), 0x33);
    assert_eq!(bus.ram_read_byte(0xD301), 0x44);
    cpu.step(&mut bus);
    assert_eq!(cpu.registers.a, 0x11);
    cpu.step(&mut bus);
    assert_eq!(cpu.registers.a, 0x22);
    cpu.step(&mut bus);
    assert_eq!(cpu.registers.a, 0x33);
    assert_eq!(cpu.registers.get_hl(), 0xD301);
    cpu.step(&mut bus);
    assert_eq!(cpu.registers.a, 0x44);
    assert_eq!(cpu.registers.get_hl(), 0xD300);
}

#[test]
fn loads_through_addresses_and_the_high_page() {
    // LD (nn),A and LD A,(nn)
    let (mut cpu, mut bus) = machine(&[0xEA, 0x00, 0xD0, 0xFA, 0x01, 0xD0]);
    cpu.registers.a = 0x77;
    bus.ram_write_byte(0xD001, 0x88);
    assert_eq!(cpu.step(&mut bus), 16);
    assert_eq!(bus.ram_read_byte(0xD000), 0x77);
    assert_eq!(cpu.step(&mut bus), 16);
    assert_eq!(cpu.registers.a, 0x88);
    // LDH (n),A; LDH A,(n); LD (0xFF00+C),A; LD A,(0xFF00+C)
    let (mut cpu, mut bus) = machine(&[0xE0, 0x80, 0xF0, 0x81, 0xE2, 0xF2]);
    cpu.registers.a = 0x12;
    bus.ram_write_byte(0xFF81, 0x34);
    cpu.step(&mut bus);
    assert_eq!(bus.ram_read_byte(0xFF80), 0x12);
    cpu.step(&mut bus);
    assert_eq!(cpu.registers.a, 0x34);
    cpu.registers.c = 0x90;
    cpu.step(&mut bus);
    assert_eq!(bus.ram_read_byte(0xFF90), 0x34);
    bus.ram_write_byte(0xFF90, 0x56);
    cpu.step(&mut bus);
    assert_eq!(cpu.registers.a, 0x56);
    // LD (nn),SP; LD SP,HL
    let (mut cpu, mut bus) = machine(&[0x08, 0x00, 0xD0, 0xF9]);
    cpu.registers.sp = 0xABCD;
    cpu.registers.set_hl(0x4321);
    assert_eq!(cpu.step(&mut bus), 20);
    assert_eq!(bus.ram_read_byte(0xD000), 0xCD);
    assert_eq!(bus.ram_read_byte(0xD001), 0xAB);
    assert_eq!(cpu.step(&mut bus), 8);
    assert_eq!(cpu.registers.sp, 0x4321);
}

#[test]
fn pop_af_masks_the_low_nibble_of_f() {
    let (mut cpu, mut bus) = machine(&[0xF1, 0xF5]);
    cpu.registers.sp = 0xD000;
    bus.ram_write_word(0xD000, 0x12FF);
    cpu.step(&mut bus);
    assert_eq!(cpu.registers.a, 0x12);
    assert_eq!(cpu.registers.get_af(), 0x12F0);
    assert_eq!(cpu.registers.f, flags(true, true, true, true));
    cpu.step(&mut bus);
    assert_eq!(bus.ram_read_word(0xD000), 0x12F0);
}

#[test]
fn push_and_pop_every_pair() {
    let (mut cpu, mut bus) = machine(&[0xC5, 0xD5, 0xE5, 0xF5, 0xC1, 0xD1, 0xE1, 0xF1]);
    cpu.registers.sp = 0xD100;
    cpu.registers.set_bc(0x1111);
    cpu.registers.set_de(0x2222);
    cpu.registers.set_hl(0x3333);
    cpu.registers.set_af(0x4450);
    for _ in 0..4 {
        assert_eq!(cpu.step(&mut bus), 16);
    }
    assert_eq!(cpu.registers.sp, 0xD0F8);
    for _ in 0..4 {
        assert_eq!(cpu.step(&mut bus), 12);
    }
    assert_eq!(cpu.registers.sp, 0xD100);
    assert_eq!(cpu.registers.get_bc(), 0x4450);
    assert_eq!(cpu.registers.get_de(), 0x3333);
    assert_eq!(cpu.registers.get_hl(), 0x2222);
    assert_eq!(cpu.registers.get_af(), 0x1110);
}

#[test]
fn stack_pointer_wraps() {
    let (mut cpu, mut bus) = machine(&[0xC5, 0xD1]);
    cpu.registers.sp = 0x0001;
    cpu.registers.set_bc(0xBEEF);
    cpu.step(&mut bus);
    assert_eq!(cpu.registers.sp, 0xFFFF);
    assert_eq!(bus.ram_read_byte(0xFFFF), 0xEF);
    cpu.step(&mut bus);
    assert_eq!(cpu.registers.sp, 0x0001);
    // The high byte went to ROM and is lost.
    assert_eq!(cpu.registers.get_de(), 0x00EF);
}

#[test]
fn jumps_calls_and_returns() {
    // JP nn
    let (mut cpu, mut bus) = machine(&[0xC3, 0x34, 0x12]);
    assert_eq!(cpu.step(&mut bus), 16);
    assert_eq!(cpu.registers.pc, 0x1234);
    // JP HL
    let (mut cpu, mut bus) = machine(&[0xE9]);
    cpu.registers.set_hl(0xD123);
    assert_eq!(cpu.step(&mut bus), 4);
    assert_eq!(cpu.registers.pc, 0xD123);
    // JR forwards and backwards
    let (mut cpu, mut bus) = machine(&[0x18, 0x7F]);
    assert_eq!(cpu.step(&mut bus), 12);
    assert_eq!(cpu.registers.pc, START + 2 + 0x7F);
    let (mut cpu, mut bus) = machine(&[0x18, 0x80]);
    cpu.step(&mut bus);
    assert_eq!(cpu.registers.pc, START + 2 - 0x80);
    let (mut cpu, mut bus) = machine(&[0x18, 0xFE]);
    cpu.step(&mut bus);
    assert_eq!(cpu.registers.pc, START);
    // CALL and RET
    let (mut cpu, mut bus) = machine(&[0xCD, 0x00, 0xD0]);
    bus.ram_write_byte(0xD000, 0xC9);
    cpu.registers.sp = 0xDFFE;
    assert_eq!(cpu.step(&mut bus), 24);
    assert_eq!(cpu.registers.pc, 0xD000);
    assert_eq!(cpu.registers.sp, 0xDFFC);
    assert_eq!(bus.ram_read_word(0xDFFC), START + 3);
    assert_eq!(cpu.step(&mut bus), 16);
    assert_eq!(cpu.registers.pc, START + 3);
    assert_eq!(cpu.registers.sp, 0xDFFE);
    // RST
    for y in 0..8u8 {
        let (mut cpu, mut bus) = machine(&[0xC7 + 8 * y]);
        cpu.registers.sp = 0xDFFE;
        assert_eq!(cpu.step(&mut bus), 16);
        assert_eq!(cpu.registers.pc, 8 * y as u16);
        assert_eq!(bus.ram_read_word(0xDFFC), START + 1);
    }
}

#[test]
fn pc_wraps_at_the_end_of_the_address_space() {
    let mut bus = Bus::new();
    let mut cpu = CPU::new();
    // IE holds 0x00, which is NOP.
    cpu.registers.pc = 0xFFFF;
    assert_eq!(cpu.step(&mut bus), 4);
    assert_eq!(cpu.registers.pc, 0x0000);
    // An operand that lies across the end: LD A,n at 0xFFFF.
    bus.ram_write_byte(0xFFFF, 0x3E);
    cpu.registers.pc = 0xFFFF;
    cpu.step(&mut bus);
    assert_eq!(cpu.registers.pc, 0x0001);
    assert_eq!(cpu.registers.a, 0x00);
}

#[test]
fn cpu_starts_as_the_boot_program_leaves_it() {
    let cpu = CPU::new();
    assert_eq!(cpu.registers.get_af(), 0x01B0);
    assert_eq!(cpu.registers.get_bc(), 0x0013);
    assert_eq!(cpu.registers.get_de(), 0x00D8);
    assert_eq!(cpu.registers.get_hl(), 0x014D);
    assert_eq!(cpu.registers.sp, 0xFFFE);
    assert_eq!(cpu.registers.pc, 0x0100);
    assert!(!cpu.ime);
    assert!(!cpu.halted);
    assert!(!cpu.locked);
}
