//! Laws that hold of the machine as a whole, each proved from the
//! definitions in the other modules.

use vstd::prelude::*;
use crate::gameboy::bits::{lemma_mask_clear_set, wrap16};
use crate::gameboy::bus::{BusState, IE_REG, IF_REG};
use crate::gameboy::cartridge::mbc::{lemma_mbc1_bank_number, MbcKind, MbcState};
use crate::gameboy::cpu::CPU;
use crate::gameboy::flags_register::Flag;
use crate::gameboy::interrupt::Interrupt;
use crate::gameboy::ppu_state::{lemma_tick_position, PpuState, FRAME_CYCLES};
use crate::gameboy::semantics::{
    execute, pending_interrupts, run, run_accumulator, run_block0, run_block1, run_block3_high,
    run_block3_low, run_byte_counts, run_byte_loads, run_cb, run_control, run_indirect_loads,
    run_jumps_and_loads, run_pops, run_relative_jumps, run_returns_and_high_loads, run_wide_counts,
    run_wide_loads, service, step, Machine,
};

verus! {

/// Whether `address` lies in work RAM, in its echo, or in high RAM.
pub open spec fn is_ram_address(address: u16) -> bool {
    (0xC000 <= address <= 0xFDFF) || (0xFF80 <= address <= 0xFFFE)
}

/// A byte that is written to RAM is the byte that the next read of the
/// same address gives.
pub proof fn lemma_ram_write_then_read(bus: BusState, address: u16, byte: u8)
    requires
        bus.wf(),
        is_ram_address(address),
    ensures
        bus.write(address, byte).read(address) == byte,
        bus.write(address, byte).wf(),
{
    reveal(BusState::read);
    reveal(BusState::write);
}

/// A write to RAM changes the byte at its address and at the address that
/// mirrors it, and no other byte of RAM.
pub proof fn lemma_ram_write_leaves_the_rest(
    bus: BusState,
    address: u16,
    byte: u8,
    other: u16,
)
    requires
        bus.wf(),
        is_ram_address(address),
        is_ram_address(other),
        other != address,
        !mirrors(address, other),
    ensures
        bus.write(address, byte).read(other) == bus.read(other),
{
    reveal(BusState::read);
    reveal(BusState::write);
}

/// Whether one of the two addresses is the echo of the other.
pub open spec fn mirrors(a: u16, b: u16) -> bool {
    (0xC000 <= a <= 0xDDFF && b == a + 0x2000) || (0xC000 <= b <= 0xDDFF && a == b + 0x2000)
}

/// The echo at 0xE000 to 0xFDFF shows work RAM: reads agree, and a write to
/// either is a write to the other.
pub proof fn lemma_echo_mirrors_work_ram(bus: BusState, address: u16, byte: u8)
    requires
        bus.wf(),
        0xC000 <= address <= 0xDDFF,
    ensures
        bus.read((address + 0x2000) as u16) == bus.read(address),
        bus.write((address + 0x2000) as u16, byte) == bus.write(address, byte),
{
    reveal(BusState::read);
    reveal(BusState::write);
}

/// A byte that is written to cartridge RAM while it is open is the byte
/// that the next read of the same address gives.
pub proof fn lemma_cartridge_ram_write_then_read(cart: MbcState, address: u16, byte: u8)
    requires
        cart.wf(),
        cart.kind != MbcKind::RomOnly,
        cart.ram_enabled(),
        !cart.rtc_selected(),
        0xA000 <= address < 0xC000,
    ensures
        cart.write(address, byte).read(address) == byte,
{
    assert(cart.ram_bank() < cart.ram_banks());
}

/// While RAM is closed, reads of its range give 0xFF and writes to it
/// change nothing.
pub proof fn lemma_closed_ram(cart: MbcState, address: u16, byte: u8)
    requires
        cart.wf(),
        !cart.ram_enabled(),
        !cart.rtc_selected(),
        0xA000 <= address < 0xC000,
    ensures
        cart.read(address) == 0xFF,
        cart.write(address, byte) == cart,
{
}

/// A write to the divider's address restarts the divider from zero,
/// whatever is written.
pub proof fn lemma_divider_write_resets(bus: BusState, byte: u8)
    ensures
        bus.write(0xFF04, byte).timer.div == 0,
        bus.write(0xFF04, byte).read(0xFF04) == 0,
        bus.write(0xFF04, byte).timer == bus.timer.reset_div_spec(),
{
    reveal(BusState::read);
    reveal(BusState::read_io);
    reveal(BusState::write);
    reveal(BusState::write_io);
}

/// Writes to LY are dropped.
pub proof fn lemma_ly_is_read_only(bus: BusState, byte: u8)
    ensures
        bus.write(0xFF44, byte) == bus,
{
    reveal(BusState::write);
    reveal(BusState::write_io);
}

/// Whether the display is in a mode in which the processor can reach both
/// video RAM and the sprite table: horizontal or vertical blanking, or the
/// display switched off.
pub open spec fn video_memory_open(ppu: PpuState) -> bool {
    ppu.mode_number() == 0 || ppu.mode_number() == 1
}

/// Whether `address` lies in video RAM or in the sprite table.
pub open spec fn is_video_address(address: int) -> bool {
    (0x8000 <= address <= 0x9FFF) || (0xFE00 <= address <= 0xFE9F)
}

/// A byte that is written to video RAM or to the sprite table during
/// horizontal blanking is the byte that the next read of the same address
/// gives.
pub proof fn lemma_video_write_then_read(ppu: PpuState, address: int, byte: u8)
    requires
        ppu.wf(),
        video_memory_open(ppu),
        is_video_address(address),
    ensures
        ppu.write(address, byte).read(address) == byte,
        video_memory_open(ppu.write(address, byte)),
        ppu.write(address, byte).wf(),
{
}

/// The same through the bus.
pub proof fn lemma_video_write_then_read_on_the_bus(bus: BusState, address: u16, byte: u8)
    requires
        bus.wf(),
        video_memory_open(bus.ppu),
        is_video_address(address as int),
    ensures
        bus.write(address, byte).read(address) == byte,
{
    reveal(BusState::read);
    reveal(BusState::write);
    lemma_video_write_then_read(bus.ppu, address as int, byte);
}

/// With the display on, any 70224 T-cycles in a row hold exactly one
/// request of the vertical-blanking interrupt, wherever in the frame they
/// begin.
pub proof fn lemma_one_vblank_per_frame(ppu: PpuState, elapsed: nat)
    requires
        ppu.wf(),
        ppu.lcd_enabled(),
    ensures
        ppu.tick(elapsed).ppu.tick(FRAME_CYCLES as nat).vblanks == 1,
        ppu.tick(FRAME_CYCLES as nat).vblanks == 1,
        ppu.tick(elapsed).ppu.tick(FRAME_CYCLES as nat).ppu.position() == ppu.tick(
            elapsed,
        ).ppu.position(),
{
    lemma_tick_position(ppu, elapsed);
    lemma_tick_position(ppu.tick(elapsed).ppu, FRAME_CYCLES as nat);
    lemma_tick_position(ppu, FRAME_CYCLES as nat);
}

/// From the moment the display is switched on, line 144 begins after
/// exactly 65664 T-cycles, and it is then that the vertical-blanking
/// interrupt is requested for the first time.
pub proof fn lemma_first_vblank(ppu: PpuState, elapsed: nat)
    requires
        ppu.wf(),
        ppu.lcd_enabled(),
        ppu.ly == 0,
        ppu.dot == 0,
        elapsed < 65664,
    ensures
        ppu.tick(65664).ppu.ly == 144,
        ppu.tick(65664).ppu.dot == 0,
        ppu.tick(65664).vblanks == 1,
        ppu.tick(elapsed).vblanks == 0,
        ppu.tick(elapsed).ppu.ly == elapsed / 456,
{
    lemma_tick_position(ppu, 65664);
    lemma_tick_position(ppu, elapsed);
}

/// LY stays in 0 to 153 and the cycle counter in 0 to 455, whatever time
/// passes.
pub proof fn lemma_line_counter_in_range(ppu: PpuState, elapsed: nat)
    requires
        ppu.wf(),
        ppu.lcd_enabled(),
    ensures
        ppu.tick(elapsed).ppu.ly <= 153,
        ppu.tick(elapsed).ppu.dot <= 455,
        ppu.tick(elapsed).ppu.sprites.len() <= 10,
{
    lemma_tick_position(ppu, elapsed);
}

/// After a write to the ROM bank register of the first controller whose
/// low five bits are zero, the register holds 1: reads of 0x4000 to 0x7FFF
/// come from the bank whose low five bits are those of `byte | 1`, wrapped
/// to the banks that exist.
pub proof fn lemma_mbc1_zero_selects_bank_one(
    cart: MbcState,
    register: u16,
    byte: u8,
    address: u16,
)
    requires
        cart.wf(),
        cart.kind == MbcKind::Mbc1,
        0x2000 <= register < 0x4000,
        byte % 32 == 0,
        0x4000 <= address < 0x8000,
    ensures
        cart.write(register, byte).bank1 == 1,
        cart.write(register, byte).bank1 == (byte | 1) % 32,
        cart.write(register, byte).high_rom_bank() == (cart.bank2 * 32 + (byte | 1) % 32)
            % cart.rom_banks(),
        cart.write(register, byte).read(address) == cart.rom[((cart.bank2 * 32 + 1)
            % cart.rom_banks()) * 0x4000 + (address - 0x4000)],
        cart.bank2 == 0 ==> cart.write(register, byte).high_rom_bank() == 1,
{
    assert((byte | 1) % 32 == 1) by (bit_vector)
        requires
            byte % 32 == 0,
    ;
    lemma_mbc1_bank_number(cart.write(register, byte));
}

/// The ROM bank register of the first and of the third controller never
/// holds zero, whatever is written.
pub proof fn lemma_bank_register_is_never_zero(cart: MbcState, address: u16, byte: u8)
    requires
        cart.wf(),
        cart.kind != MbcKind::RomOnly,
    ensures
        cart.write(address, byte).bank1 >= 1,
        cart.write(address, byte).wf(),
{
    if 0xA000 <= address < 0xC000 && !cart.rtc_selected() && cart.ram_enabled() {
        assert(cart.ram_bank() < cart.ram_banks());
    }
}

/// Where an interrupt is pending, one of the five sources is chosen.
pub proof fn lemma_pending_has_a_source(pending: u8)
    requires
        pending != 0,
        pending < 32,
    ensures
        Interrupt::highest_priority(pending).is_some(),
{
}

/// With the master enable set and an interrupt both requested and
/// enabled, the next step of the processor is the service of the pending
/// interrupt of the highest priority: no opcode is fetched, PC is at the
/// handler, the master enable is clear, and 20 T-cycles have gone by.
pub proof fn lemma_pending_interrupt_is_served(cpu: CPU, bus: BusState)
    requires
        cpu.ime,
        !cpu.locked,
        pending_interrupts(bus) != 0,
    ensures
        Interrupt::highest_priority(pending_interrupts(bus)) matches Some(interrupt) && {
            &&& step(cpu, bus) == service(
                Machine { cpu: CPU { halted: false, ..cpu }, bus },
                interrupt,
            )
            &&& step(cpu, bus).cycles == 20
            &&& step(cpu, bus).cpu.registers.pc == interrupt.jump_addr()
            &&& step(cpu, bus).cpu.registers.sp == wrap16(cpu.registers.sp - 2)
            &&& !step(cpu, bus).cpu.ime
            &&& !step(cpu, bus).cpu.halted
            &&& step(cpu, bus).cpu.registers.f == cpu.registers.f
        },
{
    let pending = pending_interrupts(bus);
    let enabled = bus.interrupts_enabled;
    let requested = bus.interrupt_flags;
    assert(enabled & requested & 0x1F < 32) by (bit_vector);
    lemma_pending_has_a_source(pending);
    reveal(service);
}

/// Without the master enable, or with nothing pending, no interrupt is
/// served: a processor that is awake executes an instruction.
pub proof fn lemma_no_service_without_enable(cpu: CPU, bus: BusState)
    requires
        !cpu.locked,
        !cpu.halted,
        !cpu.ime || pending_interrupts(bus) == 0,
    ensures
        step(cpu, bus) == execute(Machine { cpu, bus }),
{
    let pending = pending_interrupts(bus);
    if pending == 0 {
        assert(Interrupt::highest_priority(pending).is_none());
    }
}

/// A word that is pushed onto a stack in RAM is the word on top of the
/// stack, and popping it leaves the stack pointer where it was.
pub proof fn lemma_push_then_pop(m: Machine, value: u16)
    requires
        m.bus.wf(),
        is_ram_address(wrap16(m.cpu.registers.sp - 1)),
        is_ram_address(wrap16(m.cpu.registers.sp - 2)),
    ensures
        m.push(value).top() == value,
        m.push(value).drop_top().cpu == m.cpu,
        m.push(value).cpu.registers.sp == wrap16(m.cpu.registers.sp - 2),
{
    let sp = wrap16(m.cpu.registers.sp - 2);
    let above = wrap16(sp + 1);
    let low = crate::gameboy::register::low_byte(value);
    let high = crate::gameboy::register::high_byte(value);
    assert(above == wrap16(m.cpu.registers.sp - 1));
    let first = m.bus.write(sp, low);
    lemma_ram_write_then_read(m.bus, sp, low);
    lemma_ram_write_then_read(first, above, high);
    lemma_ram_write_leaves_the_rest(first, above, high, sp);
}

/// Whether the instruction with the given opcode can change a flag. For
/// the prefix 0xCB, `second` is the byte that follows it.
///
/// ADD HL,rr leaves Z alone; INC and DEC of a byte leave C alone; DAA
/// leaves N alone; CPL changes N and H only; SCF and CCF leave Z alone; BIT
/// leaves C alone. The arithmetic unit, the rotates and shifts, ADD SP,e,
/// LD HL,SP+e and POP AF can change every flag. No other instruction
/// changes any flag.
pub open spec fn changes_flag(opcode: u8, second: u8, flag: Flag) -> bool {
    let x = opcode as int / 64;
    let y = opcode as int / 8 % 8;
    let z = opcode as int % 8;
    if opcode == 0xCB {
        second < 0x40 || (second < 0x80 && flag != Flag::C)
    } else if x == 0 {
        if z == 1 {
            y % 2 == 1 && flag != Flag::Z
        } else if z == 4 || z == 5 {
            flag != Flag::C
        } else if z == 7 {
            if y < 4 {
                true
            } else if y == 4 {
                flag != Flag::N
            } else if y == 5 {
                flag == Flag::N || flag == Flag::H
            } else {
                flag != Flag::Z
            }
        } else {
            false
        }
    } else if x == 1 {
        false
    } else if x == 2 {
        true
    } else {
        z == 6 || opcode == 0xE8 || opcode == 0xF8 || opcode == 0xF1
    }
}

/// An instruction that does not change a flag leaves it as it was. `m` is
/// the machine with PC past the opcode.
pub proof fn lemma_unchanged_flags(m: Machine, opcode: u8, flag: Flag)
    requires
        !changes_flag(opcode, m.imm8(), flag),
    ensures
        run(m, opcode).cpu.registers.f.value_of(flag) == m.cpu.registers.f.value_of(flag),
{
    reveal(run);
    if opcode < 0x40 {
        lemma_unchanged_flags_block0(m, opcode, flag);
    } else if opcode < 0x80 {
        reveal(run_block1);
    } else if opcode < 0xC0 {
    } else if opcode % 8 < 4 {
        lemma_unchanged_flags_block3_low(m, opcode, flag);
    } else {
        reveal(run_block3_high);
    }
}

proof fn lemma_unchanged_flags_block0(m: Machine, opcode: u8, flag: Flag)
    requires
        opcode < 0x40,
        !changes_flag(opcode, m.imm8(), flag),
    ensures
        run_block0(m, opcode).cpu.registers.f.value_of(flag) == m.cpu.registers.f.value_of(
            flag,
        ),
{
    let z = opcode as int % 8;
    if z == 0 {
        reveal(run_relative_jumps);
    } else if z == 1 {
        reveal(run_wide_loads);
    } else if z == 2 {
        reveal(run_indirect_loads);
    } else if z == 3 {
        reveal(run_wide_counts);
    } else if z == 4 || z == 5 {
        reveal(run_byte_counts);
    } else if z == 6 {
        reveal(run_byte_loads);
    } else {
        reveal(run_accumulator);
    }
}

proof fn lemma_unchanged_flags_block3_low(m: Machine, opcode: u8, flag: Flag)
    requires
        opcode >= 0xC0,
        opcode % 8 < 4,
        !changes_flag(opcode, m.imm8(), flag),
    ensures
        run_block3_low(m, opcode).cpu.registers.f.value_of(flag)
            == m.cpu.registers.f.value_of(flag),
{
    let y = opcode as int / 8 % 8;
    let z = opcode as int % 8;
    if z == 0 {
        lemma_unchanged_flags_returns(m, y, flag);
    } else if z == 1 {
        lemma_unchanged_flags_pops(m, y / 2, y % 2, flag);
    } else if z == 2 {
        lemma_unchanged_flags_jumps(m, y, flag);
    } else if y == 1 {
        reveal(run_control);
        lemma_unchanged_flags_prefixed(m.skip(1), m.imm8(), flag);
    } else {
        reveal(run_control);
    }
}

proof fn lemma_unchanged_flags_returns(m: Machine, y: int, flag: Flag)
    requires
        0 <= y < 8,
        y != 5,
        y != 7,
    ensures
        run_returns_and_high_loads(m, y).cpu.registers.f.value_of(flag)
            == m.cpu.registers.f.value_of(flag),
{
    reveal(run_returns_and_high_loads);
}

proof fn lemma_unchanged_flags_pops(m: Machine, p: int, q: int, flag: Flag)
    requires
        0 <= p < 4,
        0 <= q < 2,
        !(p == 3 && q == 0),
    ensures
        run_pops(m, p, q).cpu.registers.f.value_of(flag) == m.cpu.registers.f.value_of(flag),
{
    reveal(run_pops);
}

proof fn lemma_unchanged_flags_jumps(m: Machine, y: int, flag: Flag)
    requires
        0 <= y < 8,
    ensures
        run_jumps_and_loads(m, y).cpu.registers.f.value_of(flag) == m.cpu.registers.f.value_of(
            flag,
        ),
{
    reveal(run_jumps_and_loads);
}

proof fn lemma_unchanged_flags_prefixed(m: Machine, second: u8, flag: Flag)
    requires
        !(second < 0x40 || (second < 0x80 && flag != Flag::C)),
    ensures
        run_cb(m, second).cpu.registers.f.value_of(flag) == m.cpu.registers.f.value_of(flag),
{
    reveal(run_cb);
}

/// A step of the processor changes a flag only by executing an instruction
/// that changes it: the service of an interrupt, a halted processor and a
/// processor that has locked up leave all flags alone.
pub proof fn lemma_step_keeps_flags(cpu: CPU, bus: BusState, flag: Flag)
    requires
        cpu.locked || (cpu.halted && pending_interrupts(bus) == 0) || (cpu.ime
            && pending_interrupts(bus) != 0) || !changes_flag(
            bus.read(cpu.registers.pc),
            bus.read(
                if cpu.halt_bug {
                    cpu.registers.pc
                } else {
                    wrap16(cpu.registers.pc + 1)
                },
            ),
            flag,
        ),
    ensures
        step(cpu, bus).cpu.registers.f.value_of(flag) == cpu.registers.f.value_of(flag),
{
    let pending = pending_interrupts(bus);
    if cpu.locked || (cpu.halted && pending == 0) {
    } else if cpu.ime && pending != 0 {
        lemma_pending_interrupt_is_served(cpu, bus);
    } else {
        reveal(execute);
        let awake = Machine { cpu: CPU { halted: false, ..cpu }, bus };
        let opcode = awake.imm8();
        let fetched = Machine {
            cpu: CPU { halt_bug: false, ime_scheduled: false, ..awake.cpu },
            bus,
        };
        let ready = if cpu.halt_bug {
            fetched
        } else {
            fetched.skip(1)
        };
        lemma_unchanged_flags(ready, opcode, flag);
        match Interrupt::highest_priority(pending) {
            Some(interrupt) => {
                assert(!cpu.ime);
            },
            None => {},
        }
    }
}

/// A processor that has locked up stays as it is, and a halted processor
/// stays halted until an interrupt is pending.
pub proof fn lemma_stopped_processor_stays(cpu: CPU, bus: BusState)
    requires
        cpu.locked || (cpu.halted && pending_interrupts(bus) == 0),
    ensures
        step(cpu, bus).cpu == cpu,
        step(cpu, bus).bus == bus,
        step(cpu, bus).cycles == 4,
{
}

/// IF and IE are the bytes at 0xFF0F and 0xFFFF.
pub proof fn lemma_interrupt_registers_on_the_bus(bus: BusState)
    ensures
        bus.read(IF_REG) == bus.interrupt_flags,
        bus.read(IE_REG) == bus.interrupts_enabled,
{
    crate::gameboy::bus::lemma_interrupt_registers(bus, 0);
}

/// Requesting an interrupt sets its bit in IF and no other.
pub proof fn lemma_request_sets_one_bit(bus: BusState, interrupt: Interrupt, other: Interrupt)
    requires
        other != interrupt,
    ensures
        bus.request(interrupt).interrupt_flags & interrupt.flag_mask() != 0,
        bus.request(interrupt).interrupt_flags & other.flag_mask() == bus.interrupt_flags
            & other.flag_mask(),
{
    let a = interrupt.flag_mask();
    let b = other.flag_mask();
    assert(a & b == 0) by (bit_vector)
        requires
            a != b,
            a == 1 || a == 2 || a == 4 || a == 8 || a == 16,
            b == 1 || b == 2 || b == 4 || b == 8 || b == 16,
    ;
    lemma_mask_clear_set(bus.interrupt_flags, a, b);
}

} // verus!
