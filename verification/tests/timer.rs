use emulator::gameboy::interrupt::Interrupt;
use emulator::{Bus, Timer};

#[test]
fn timer_overflow() {
    // TAC = 0x05: enabled, watching bit 3 of the divider, which falls every
    // 16 T-cycles. The divider stands at 4, so the bit falls after 12
    // T-cycles, and one machine cycle later TIMA is loaded from TMA.
    let mut bus = Bus::new();
    bus.tick(4);
    bus.ram_write_byte(0xFF07, 0x05);
    bus.ram_write_byte(0xFF05, 0xFF);
    bus.ram_write_byte(0xFF06, 0xAB);
    bus.tick(16);
    assert_eq!(bus.ram_read_byte(0xFF05), 0xAB);
    assert_eq!(bus.ram_read_byte(0xFF0F) & 0x04, 0x04);

    let mut timer = Timer::new();
    timer.tick(15);
    timer.write_byte(3, 0x05);
    timer.write_byte(1, 0xFF);
    timer.write_byte(2, 0xAB);
    timer.tick(16);
    assert_eq!(timer.read_byte(1), 0xAB);
    assert_eq!(timer.raise_interrupt, Some(Interrupt::Timer));
}

#[test]
fn timer_overflow_reloads_tima_from_tma_one_machine_cycle_later() {
    // From a divider of zero bit 3 falls after exactly 16 T-cycles.
    let mut timer = Timer::new();
    timer.write_byte(3, 0x05);
    timer.write_byte(1, 0xFF);
    timer.write_byte(2, 0xAB);
    timer.tick(16);
    // The overflow has happened; for one machine cycle TIMA reads zero.
    assert_eq!(timer.read_byte(1), 0x00);
    assert_eq!(timer.raise_interrupt, None);
    timer.tick(4);
    assert_eq!(timer.read_byte(1), 0xAB);
    assert_eq!(timer.raise_interrupt, Some(Interrupt::Timer));
}

#[test]
fn timer_overflow_sets_the_timer_bit_of_if() {
    let mut bus = Bus::new();
    bus.ram_write_byte(0xFF07, 0x05);
    bus.ram_write_byte(0xFF05, 0xFF);
    bus.ram_write_byte(0xFF06, 0xAB);
    bus.tick(16);
    assert_eq!(bus.ram_read_byte(0xFF05), 0x00);
    assert_eq!(bus.ram_read_byte(0xFF0F) & 0x04, 0x00);
    bus.tick(4);
    assert_eq!(bus.ram_read_byte(0xFF05), 0xAB);
    assert_eq!(bus.ram_read_byte(0xFF0F) & 0x04, 0x04);
    assert_eq!(bus.timer.raise_interrupt, None);
}

#[test]
fn timer_counts_at_the_four_rates() {
    for (tac, period) in [(0x04u8, 1024u32), (0x05, 16), (0x06, 64), (0x07, 256)] {
        let mut timer = Timer::new();
        timer.write_byte(3, tac);
        assert_eq!(timer.get_clock_select() as u32, period);
        let mut elapsed: u32 = 0;
        while elapsed < period - 1 {
            timer.tick(1);
            elapsed += 1;
        }
        assert_eq!(timer.read_byte(1), 0);
        timer.tick(1);
        assert_eq!(timer.read_byte(1), 1);
        let mut more: u32 = 0;
        while more < 3 * period {
            timer.tick(1);
            more += 1;
        }
        assert_eq!(timer.read_byte(1), 4);
    }
}

#[test]
fn timer_stands_still_while_it_is_switched_off() {
    let mut timer = Timer::new();
    timer.write_byte(3, 0x01);
    let mut i = 0;
    while i < 100 {
        timer.tick(255);
        i += 1;
    }
    assert_eq!(timer.read_byte(1), 0);
    // The divider runs all the same: 25500 T-cycles are 99 times 256 and
    // a rest.
    assert_eq!(timer.read_byte(0), 99);
}

#[test]
fn divider_shows_its_upper_byte_and_restarts_on_a_write() {
    let mut timer = Timer::new();
    timer.tick(255);
    assert_eq!(timer.read_byte(0), 0);
    timer.tick(1);
    assert_eq!(timer.read_byte(0), 1);
    timer.tick(200);
    timer.tick(200);
    assert_eq!(timer.read_byte(0), 2);
    timer.write_byte(0, 0x77);
    assert_eq!(timer.read_byte(0), 0);
    timer.tick(255);
    assert_eq!(timer.read_byte(0), 0);
    timer.tick(1);
    assert_eq!(timer.read_byte(0), 1);
    timer.reset_div();
    assert_eq!(timer.read_byte(0), 0);
}

#[test]
fn divider_reset_can_increment_tima() {
    let mut timer = Timer::new();
    timer.write_byte(3, 0x05);
    // After 8 T-cycles bit 3 of the divider is set.
    timer.tick(8);
    assert_eq!(timer.read_byte(1), 0);
    // The reset makes the bit fall.
    timer.write_byte(0, 0);
    assert_eq!(timer.read_byte(1), 1);
    // With the bit clear the reset changes nothing.
    timer.tick(4);
    timer.write_byte(0, 0);
    assert_eq!(timer.read_byte(1), 1);
}

#[test]
fn switching_the_timer_off_can_increment_tima() {
    let mut timer = Timer::new();
    timer.write_byte(3, 0x05);
    timer.tick(8);
    timer.write_byte(3, 0x01);
    assert_eq!(timer.read_byte(1), 1);
    assert_eq!(timer.read_byte(3), 0x01);
    // Choosing a bit that is clear has the same effect.
    let mut other = Timer::new();
    other.write_byte(3, 0x05);
    other.tick(8);
    other.write_byte(3, 0x04);
    assert_eq!(other.read_byte(1), 1);
    // Choosing a bit that is set has none.
    let mut third = Timer::new();
    third.write_byte(3, 0x05);
    third.tick(40);
    assert_eq!(third.read_byte(1), 2);
    third.write_byte(3, 0x06);
    assert_eq!(third.read_byte(1), 2);
}

#[test]
fn writing_tima_during_the_delay_cancels_the_reload() {
    let mut timer = Timer::new();
    timer.write_byte(3, 0x05);
    timer.write_byte(1, 0xFF);
    timer.write_byte(2, 0xAB);
    timer.tick(16);
    timer.write_byte(1, 0x33);
    timer.tick(4);
    assert_eq!(timer.read_byte(1), 0x33);
    assert_eq!(timer.raise_interrupt, None);
}

#[test]
fn writing_tma_during_the_delay_supplies_the_new_value() {
    let mut timer = Timer::new();
    timer.write_byte(3, 0x05);
    timer.write_byte(1, 0xFF);
    timer.write_byte(2, 0xAB);
    timer.tick(18);
    timer.write_byte(2, 0x42);
    timer.tick(2);
    assert_eq!(timer.read_byte(1), 0x42);
    assert_eq!(timer.read_byte(2), 0x42);
    assert_eq!(timer.take_interrupt(), Some(Interrupt::Timer));
    assert_eq!(timer.raise_interrupt, None);
}
