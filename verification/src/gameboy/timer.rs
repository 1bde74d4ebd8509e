//! The divider and the programmable timer: DIV, TIMA, TMA and TAC.

use vstd::prelude::*;
use crate::gameboy::bits::{lemma_bit_tests, lemma_divider_bits, lemma_select_bits, lemma_word_split, wrap16};
use crate::gameboy::interrupt::Interrupt;

verus! {

/// The number of T-cycles between an overflow of TIMA and its reload: one
/// machine cycle.
pub const RELOAD_DELAY: u8 = 4;

/// The timer.
///
/// DIV is a free-running sixteen-bit counter that goes up by one every
/// T-cycle; a read of 0xFF04 shows its upper eight bits. TAC picks one bit
/// of that counter. TIMA goes up by one whenever the picked bit, taken
/// together with TAC's enable bit, falls from one to zero.
#[derive(Clone, Copy, Debug, PartialEq, Eq, Structural)]
pub struct Timer {
    /// The sixteen-bit divider.
    pub div: u16,
    /// The timer counter, at 0xFF05.
    pub tima: u8,
    /// The timer modulo, at 0xFF06: the value TIMA restarts from.
    pub tma: u8,
    /// The timer control, at 0xFF07.
    pub tac: u8,
    /// Zero, or the number of T-cycles left until TIMA is reloaded from TMA
    /// after an overflow. While it is not zero TIMA reads as zero.
    pub reload_delay: u8,
    /// `Some(Interrupt::Timer)` from the reload until the bus has collected
    /// the request.
    pub raise_interrupt: Option<Interrupt>,
}

/// Whether TAC enables the timer: bit 2.
pub open spec fn tac_enabled(tac: u8) -> bool {
    tac / 4 % 2 == 1
}

/// The weight of the divider bit that TAC picks: bit 9, 3, 5 or 7.
pub open spec fn tac_bit_weight(tac: u8) -> int {
    if tac % 4 == 0 {
        512
    } else if tac % 4 == 1 {
        8
    } else if tac % 4 == 2 {
        32
    } else {
        128
    }
}

/// The number of T-cycles between two increments of TIMA.
pub open spec fn tac_period(tac: u8) -> int {
    2 * tac_bit_weight(tac)
}

/// The signal whose falling edge increments TIMA: the picked bit of the
/// divider, and the enable bit.
pub open spec fn edge_signal(div: u16, tac: u8) -> bool {
    tac_enabled(tac) && div as int / tac_bit_weight(tac) % 2 == 1
}

impl Timer {
    /// Every counter at zero, the timer switched off.
    pub open spec fn initial() -> Timer {
        Timer { div: 0, tima: 0, tma: 0, tac: 0, reload_delay: 0, raise_interrupt: None }
    }

    /// A reload is never further away than one machine cycle.
    pub open spec fn wf(self) -> bool {
        self.reload_delay <= RELOAD_DELAY
    }

    /// The timer after one increment of TIMA. An overflow leaves TIMA at
    /// zero and schedules the reload.
    pub open spec fn increment_spec(self) -> Timer {
        if self.tima == 0xFF {
            Timer { tima: 0, reload_delay: RELOAD_DELAY, ..self }
        } else {
            Timer { tima: (self.tima + 1) as u8, ..self }
        }
    }

    /// The timer after the part of a T-cycle that deals with a pending
    /// reload: when the delay runs out, TMA is copied to TIMA and the
    /// interrupt is requested.
    pub open spec fn reload_spec(self) -> Timer {
        if self.reload_delay == 0 {
            self
        } else if self.reload_delay == 1 {
            Timer {
                tima: self.tma,
                reload_delay: 0,
                raise_interrupt: Some(Interrupt::Timer),
                ..self
            }
        } else {
            Timer { reload_delay: (self.reload_delay - 1) as u8, ..self }
        }
    }

    /// The timer one T-cycle later.
    pub open spec fn step_spec(self) -> Timer {
        let reloaded = self.reload_spec();
        let next_div = wrap16(self.div + 1);
        let advanced = Timer { div: next_div, ..reloaded };
        if edge_signal(self.div, self.tac) && !edge_signal(next_div, self.tac) {
            advanced.increment_spec()
        } else {
            advanced
        }
    }

    /// The timer `t_cycles` T-cycles later.
    pub open spec fn tick_spec(self, t_cycles: nat) -> Timer
        decreases t_cycles,
    {
        if t_cycles == 0 {
            self
        } else {
            self.tick_spec((t_cycles - 1) as nat).step_spec()
        }
    }

    /// What a read of register `index` gives: DIV's upper byte, TIMA, TMA or
    /// TAC.
    pub open spec fn read_spec(self, index: int) -> u8 {
        if index == 0 {
            (self.div / 256) as u8
        } else if index == 1 {
            self.tima
        } else if index == 2 {
            self.tma
        } else {
            self.tac
        }
    }

    /// The timer after a write to DIV: the divider restarts from zero
    /// whatever is written, and if that makes the watched signal fall, TIMA
    /// goes up by one.
    pub open spec fn reset_div_spec(self) -> Timer {
        let cleared = Timer { div: 0, ..self };
        if edge_signal(self.div, self.tac) {
            cleared.increment_spec()
        } else {
            cleared
        }
    }

    /// The timer after `value` is written to register `index`.
    ///
    /// A write to TIMA cancels a reload that is pending. A write to TMA
    /// while a reload is pending is the value that gets loaded. A write to
    /// TAC that makes the watched signal fall increments TIMA.
    pub open spec fn write_spec(self, index: int, value: u8) -> Timer {
        if index == 0 {
            self.reset_div_spec()
        } else if index == 1 {
            Timer { tima: value, reload_delay: 0, ..self }
        } else if index == 2 {
            Timer { tma: value, ..self }
        } else {
            let switched = Timer { tac: value, ..self };
            if edge_signal(self.div, self.tac) && !edge_signal(self.div, value) {
                switched.increment_spec()
            } else {
                switched
            }
        }
    }

    pub fn new() -> (timer: Self)
        ensures
            timer == Timer::initial(),
            timer.wf(),
    {
        Timer { div: 0, tima: 0, tma: 0, tac: 0, reload_delay: 0, raise_interrupt: None }
    }

    /// Read DIV (`index` 0), TIMA (1), TMA (2) or TAC (3).
    pub fn read_byte(&self, index: usize) -> (byte: u8)
        requires
            index < 4,
        ensures
            byte == self.read_spec(index as int),
    {
        match index {
            0x00 => {
                proof {
                    lemma_word_split(self.div);
                }
                (self.div >> 8) as u8
            },
            0x01 => self.tima,
            0x02 => self.tma,
            _ => self.tac,
        }
    }

    /// Write DIV (`index` 0), TIMA (1), TMA (2) or TAC (3).
    pub fn write_byte(&mut self, index: usize, value: u8)
        requires
            index < 4,
            old(self).wf(),
        ensures
            *final(self) == old(self).write_spec(index as int, value),
            final(self).wf(),
    {
        match index {
            0x00 => {
                self.reset_div();
            },
            0x01 => {
                self.tima = value;
                self.reload_delay = 0;
            },
            0x02 => {
                self.tma = value;
            },
            _ => {
                let before = self.signal();
                self.tac = value;
                let after = self.signal();
                if before && !after {
                    self.increment_tima();
                }
            },
        };
    }

    /// Restart the divider from zero.
    pub fn reset_div(&mut self)
        requires
            old(self).wf(),
        ensures
            *final(self) == old(self).reset_div_spec(),
            final(self).div == 0,
            final(self).wf(),
    {
        let before = self.signal();
        self.div = 0;
        if before {
            self.increment_tima();
        }
    }

    /// Let `t_cycles` T-cycles pass.
    pub fn tick(&mut self, t_cycles: u8)
        requires
            old(self).wf(),
        ensures
            *final(self) == old(self).tick_spec(t_cycles as nat),
            final(self).wf(),
            final(self).div == wrap16(old(self).div + t_cycles),
            final(self).tma == old(self).tma,
            final(self).tac == old(self).tac,
    {
        let mut done: u8 = 0;
        while done < t_cycles
            invariant
                done <= t_cycles,
                *self == old(self).tick_spec(done as nat),
                self.wf(),
                self.div == wrap16(old(self).div + done),
                self.tma == old(self).tma,
                self.tac == old(self).tac,
            decreases t_cycles - done,
        {
            self.step();
            done = done + 1;
        }
    }

    /// Let one T-cycle pass.
    fn step(&mut self)
        requires
            old(self).wf(),
        ensures
            *final(self) == old(self).step_spec(),
            final(self).wf(),
    {
        if self.reload_delay > 0 {
            self.reload_delay = self.reload_delay - 1;
            if self.reload_delay == 0 {
                self.tima = self.tma;
                self.raise_interrupt = Some(Interrupt::Timer);
            }
        }
        let before = self.signal();
        self.div = self.div.wrapping_add(1);
        let after = self.signal();
        if before && !after {
            self.increment_tima();
        }
    }

    /// Add one to TIMA; on overflow leave it at zero and schedule the reload.
    fn increment_tima(&mut self)
        ensures
            *final(self) == old(self).increment_spec(),
            final(self).reload_delay == old(self).reload_delay || final(self).reload_delay
                == RELOAD_DELAY,
    {
        if self.tima == u8::MAX {
            self.tima = 0;
            self.reload_delay = RELOAD_DELAY;
        } else {
            self.tima = self.tima + 1;
        }
    }

    /// The signal that the falling-edge detector watches.
    fn signal(&self) -> (level: bool)
        ensures
            level == edge_signal(self.div, self.tac),
    {
        let mask = self.get_tac_bit_mask();
        proof {
            lemma_divider_bits(self.div);
        }
        self.is_timer_enabled() && self.div & mask != 0
    }

    fn is_timer_enabled(&self) -> (enabled: bool)
        ensures
            enabled == tac_enabled(self.tac),
    {
        proof {
            lemma_bit_tests(self.tac);
        }
        self.tac & 0x4 != 0
    }

    /// The number of T-cycles between two increments of TIMA: 1024, 16, 64
    /// or 256.
    pub fn get_clock_select(&self) -> (period: u16)
        ensures
            period == tac_period(self.tac),
    {
        proof {
            lemma_select_bits(self.tac);
        }
        match self.tac & 0x3 {
            0b00 => 1024,
            0b01 => 16,
            0b10 => 64,
            _ => 256,
        }
    }

    /// The divider bit that TAC picks, as a mask.
    fn get_tac_bit_mask(&self) -> (mask: u16)
        ensures
            mask == tac_bit_weight(self.tac),
    {
        proof {
            lemma_select_bits(self.tac);
        }
        match self.tac & 0x3 {
            0b00 => 0x0200,
            0b01 => 0x0008,
            0b10 => 0x0020,
            _ => 0x0080,
        }
    }

    /// Hand the waiting interrupt request over, if there is one.
    pub fn take_interrupt(&mut self) -> (request: Option<Interrupt>)
        ensures
            request == old(self).raise_interrupt,
            *final(self) == (Timer { raise_interrupt: None, ..*old(self) }),
    {
        let request = self.raise_interrupt;
        self.raise_interrupt = None;
        request
    }
}

/// Letting `a` T-cycles pass and then `b` more is letting `a + b` pass.
pub proof fn lemma_tick_additive(timer: Timer, a: nat, b: nat)
    ensures
        timer.tick_spec(a).tick_spec(b) == timer.tick_spec(a + b),
    decreases b,
{
    if b > 0 {
        lemma_tick_additive(timer, a, (b - 1) as nat);
    }
}

/// The divider counts every T-cycle, and neither TMA nor TAC is changed by
/// the passing of time.
pub proof fn lemma_tick_divider(timer: Timer, t_cycles: nat)
    ensures
        timer.tick_spec(t_cycles).div == wrap16(timer.div + t_cycles),
        timer.tick_spec(t_cycles).tma == timer.tma,
        timer.tick_spec(t_cycles).tac == timer.tac,
    decreases t_cycles,
{
    if t_cycles > 0 {
        lemma_tick_divider(timer, (t_cycles - 1) as nat);
        let before = timer.tick_spec((t_cycles - 1) as nat);
        assert(before.step_spec().div == wrap16(before.div + 1));
        lemma_wrap16_successor(timer.div + t_cycles - 1);
    }
}

/// While the timer is switched off and no reload is pending, time changes
/// nothing but the divider.
pub proof fn lemma_tick_disabled(timer: Timer, t_cycles: nat)
    requires
        !tac_enabled(timer.tac),
        timer.reload_delay == 0,
    ensures
        timer.tick_spec(t_cycles) == (Timer {
            div: wrap16(timer.div + t_cycles),
            ..timer
        }),
    decreases t_cycles,
{
    if t_cycles > 0 {
        lemma_tick_disabled(timer, (t_cycles - 1) as nat);
        let before = timer.tick_spec((t_cycles - 1) as nat);
        assert(before.step_spec() == (Timer { div: wrap16(before.div + 1), ..before }));
        lemma_wrap16_successor(timer.div + t_cycles - 1);
    }
}

/// Counting one further commutes with wrapping at sixteen bits.
proof fn lemma_wrap16_successor(i: int)
    ensures
        wrap16(wrap16(i) + 1) == wrap16(i + 1),
{
}

/// The watched signal falls exactly when the divider reaches a multiple of
/// the period.
pub proof fn lemma_edge_at_multiples_of_the_period(div: u16, tac: u8)
    requires
        tac_enabled(tac),
    ensures
        (edge_signal(div, tac) && !edge_signal(wrap16(div + 1), tac)) == ((div + 1) % tac_period(
            tac,
        ) == 0),
{
    let next = wrap16(div + 1);
    if tac % 4 == 0 {
        assert((div as int / 512 % 2 == 1 && next as int / 512 % 2 == 0) == ((div + 1) % 1024
            == 0));
    } else if tac % 4 == 1 {
        assert((div as int / 8 % 2 == 1 && next as int / 8 % 2 == 0) == ((div + 1) % 16 == 0));
    } else if tac % 4 == 2 {
        assert((div as int / 32 % 2 == 1 && next as int / 32 % 2 == 0) == ((div + 1) % 64 == 0));
    } else {
        assert((div as int / 128 % 2 == 1 && next as int / 128 % 2 == 0) == ((div + 1) % 256
            == 0));
    }
}

/// How often the divider reaches a multiple of the period in the next
/// `t_cycles` T-cycles.
pub open spec fn periods_reached(div: u16, tac: u8, t_cycles: nat) -> int {
    (div as int % tac_period(tac) + t_cycles as int) / tac_period(tac)
}

/// While the timer is switched on, no reload is pending and TIMA does not
/// overflow, TIMA goes up by one for every multiple of the period that the
/// divider reaches.
pub proof fn lemma_tima_counts_periods(timer: Timer, t_cycles: nat)
    requires
        tac_enabled(timer.tac),
        timer.reload_delay == 0,
        timer.tima + periods_reached(timer.div, timer.tac, t_cycles) <= 255,
    ensures
        timer.tick_spec(t_cycles) == (Timer {
            div: wrap16(timer.div + t_cycles),
            tima: (timer.tima + periods_reached(timer.div, timer.tac, t_cycles)) as u8,
            ..timer
        }),
    decreases t_cycles,
{
    let period = tac_period(timer.tac);
    let phase = timer.div as int % period;
    if t_cycles > 0 {
        lemma_quotient_step(phase + t_cycles - 1, period);
        lemma_tima_counts_periods(timer, (t_cycles - 1) as nat);
        let before = timer.tick_spec((t_cycles - 1) as nat);
        lemma_edge_at_multiples_of_the_period(before.div, timer.tac);
        lemma_wrap16_successor(timer.div + t_cycles - 1);
        lemma_phase(timer.div as int, t_cycles as int, period);
    } else {
        assert(period == 16 || period == 64 || period == 256 || period == 1024);
        assert(phase / period == 0);
    }
}

/// An overflow of TIMA is followed by one machine cycle in which TIMA reads
/// zero and nothing is requested; at the end of it TIMA holds TMA and the
/// timer interrupt is requested.
pub proof fn lemma_delayed_reload(timer: Timer)
    requires
        tac_enabled(timer.tac),
        timer.tima == 0xFF,
        timer.reload_delay == 0,
        (timer.div + 1) % tac_period(timer.tac) == 0,
    ensures
        forall|t: nat|
            1 <= t <= 4 ==> (#[trigger] timer.tick_spec(t)).tima == 0 && timer.tick_spec(
                t,
            ).raise_interrupt == timer.raise_interrupt,
        timer.tick_spec(5).tima == timer.tma,
        timer.tick_spec(5).raise_interrupt == Some(Interrupt::Timer),
        timer.tick_spec(5).reload_delay == 0,
{
    let t1 = timer.step_spec();
    lemma_edge_at_multiples_of_the_period(timer.div, timer.tac);
    assert(t1 == (Timer { div: t1.div, tima: 0, reload_delay: 4, ..timer }));
    lemma_phase_after_a_multiple(timer.div, timer.tac);
    let t2 = t1.step_spec();
    lemma_waiting_step(t1);
    let t3 = t2.step_spec();
    lemma_waiting_step(t2);
    let t4 = t3.step_spec();
    lemma_waiting_step(t3);
    let t5 = t4.step_spec();
    lemma_waiting_step(t4);
    assert(timer.tick_spec(0) == timer);
    assert(timer.tick_spec(1) == t1);
    assert(timer.tick_spec(2) == t2);
    assert(timer.tick_spec(3) == t3);
    assert(timer.tick_spec(4) == t4);
    assert(timer.tick_spec(5) == t5);
}

/// The phase of the divider in the period of the timer.
pub open spec fn phase_of(div: u16, tac: u8) -> int {
    div as int % tac_period(tac)
}

/// One T-cycle after the divider has reached a multiple of the period its
/// phase is zero.
proof fn lemma_phase_after_a_multiple(div: u16, tac: u8)
    requires
        (div + 1) % tac_period(tac) == 0,
    ensures
        phase_of(wrap16(div + 1), tac) == 0,
{
    let period = tac_period(tac);
    assert(period == 16 || period == 64 || period == 256 || period == 1024);
}

/// A T-cycle in which a reload is pending and the divider is at most three
/// T-cycles past a multiple of the period: the delay goes down by one, and
/// when it runs out TIMA is loaded and the interrupt is requested. TIMA is
/// not incremented.
proof fn lemma_waiting_step(timer: Timer)
    requires
        tac_enabled(timer.tac),
        1 <= timer.reload_delay <= 4,
        phase_of(timer.div, timer.tac) == 4 - timer.reload_delay,
    ensures
        timer.step_spec() == (if timer.reload_delay == 1 {
            Timer {
                div: wrap16(timer.div + 1),
                tima: timer.tma,
                reload_delay: 0,
                raise_interrupt: Some(Interrupt::Timer),
                ..timer
            }
        } else {
            Timer {
                div: wrap16(timer.div + 1),
                reload_delay: (timer.reload_delay - 1) as u8,
                ..timer
            }
        }),
        phase_of(timer.step_spec().div, timer.tac) == 5 - timer.reload_delay,
{
    let period = tac_period(timer.tac);
    assert(period == 16 || period == 64 || period == 256 || period == 1024);
    lemma_edge_at_multiples_of_the_period(timer.div, timer.tac);
}

/// A quotient goes up by one exactly at the multiples of the divisor.
proof fn lemma_quotient_step(x: int, period: int)
    requires
        x >= 0,
        period == 16 || period == 64 || period == 256 || period == 1024,
    ensures
        (x + 1) / period == x / period + (if (x + 1) % period == 0 {
            1int
        } else {
            0int
        }),
{
}

/// The divider reaches a multiple of the period when its phase does.
proof fn lemma_phase(div: int, t_cycles: int, period: int)
    requires
        0 <= div < 65536,
        t_cycles >= 1,
        period == 16 || period == 64 || period == 256 || period == 1024,
    ensures
        ((wrap16(div + t_cycles - 1) + 1) % period == 0) == ((div % period + t_cycles) % period
            == 0),
{
}

} // verus!
