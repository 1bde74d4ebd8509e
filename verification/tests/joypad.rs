use emulator::gameboy::interrupt::Interrupt;
use emulator::{Joypad, JoypadInputKey};

#[test]
fn joypad_lists_its_eight_keys() {
    let keys = JoypadInputKey::iter();
    assert_eq!(
        keys,
        vec![
            JoypadInputKey::Start,
            JoypadInputKey::Select,
            JoypadInputKey::B,
            JoypadInputKey::A,
            JoypadInputKey::Down,
            JoypadInputKey::Up,
            JoypadInputKey::Left,
            JoypadInputKey::Right,
        ]
    );
    let mut seen: u8 = 0;
    for key in keys {
        let bit = key.input_byte_pos();
        assert_eq!(bit.count_ones(), 1);
        assert_eq!(seen & bit, 0);
        seen |= bit;
    }
    assert_eq!(seen, 0xFF);
}

#[test]
fn joypad_reads_the_selected_bank() {
    let mut joypad = Joypad::new();
    joypad.press_key(JoypadInputKey::Right);
    joypad.press_key(JoypadInputKey::Start);

    // Neither bank selected: nothing shows.
    joypad.write_byte(0x30);
    assert_eq!(joypad.read_byte(), 0xFF);
    // Bit 4 low: the directions. Right is bit 0.
    joypad.write_byte(0x20);
    assert_eq!(joypad.read_byte(), 0xFE);
    // Bit 5 low: the buttons. Start is bit 3.
    joypad.write_byte(0x10);
    assert_eq!(joypad.read_byte(), 0xF7);
    // Both low: a bit is clear if either bank has a key down there.
    joypad.write_byte(0x00);
    assert_eq!(joypad.read_byte(), 0xF6);

    joypad.unpress_key(JoypadInputKey::Right);
    joypad.write_byte(0x20);
    assert_eq!(joypad.read_byte(), 0xFF);
}

#[test]
fn joypad_maps_each_key_to_its_bit() {
    let directions = [
        (JoypadInputKey::Right, 0x01u8),
        (JoypadInputKey::Left, 0x02),
        (JoypadInputKey::Up, 0x04),
        (JoypadInputKey::Down, 0x08),
    ];
    let buttons = [
        (JoypadInputKey::A, 0x01u8),
        (JoypadInputKey::B, 0x02),
        (JoypadInputKey::Select, 0x04),
        (JoypadInputKey::Start, 0x08),
    ];
    for (key, bit) in directions {
        let mut joypad = Joypad::new();
        joypad.write_byte(0x20);
        joypad.press_key(key);
        assert_eq!(joypad.read_byte(), 0xFF & !bit);
        joypad.write_byte(0x10);
        assert_eq!(joypad.read_byte(), 0xFF);
    }
    for (key, bit) in buttons {
        let mut joypad = Joypad::new();
        joypad.write_byte(0x10);
        joypad.press_key(key);
        assert_eq!(joypad.read_byte(), 0xFF & !bit);
        joypad.write_byte(0x20);
        assert_eq!(joypad.read_byte(), 0xFF);
    }
}

#[test]
fn joypad_requests_an_interrupt_when_a_selected_key_goes_down() {
    let mut joypad = Joypad::new();
    joypad.write_byte(0x20);
    assert_eq!(joypad.raise_interrupt, None);
    // A button while the directions are selected: no request.
    joypad.press_key(JoypadInputKey::A);
    assert_eq!(joypad.raise_interrupt, None);
    // A direction: a request.
    joypad.press_key(JoypadInputKey::Up);
    assert_eq!(joypad.raise_interrupt, Some(Interrupt::Joypad));
    assert_eq!(joypad.take_interrupt(), Some(Interrupt::Joypad));
    assert_eq!(joypad.raise_interrupt, None);
    // The key is down already: no new request.
    joypad.press_key(JoypadInputKey::Up);
    assert_eq!(joypad.raise_interrupt, None);
    // Up and down again: a new request.
    joypad.unpress_key(JoypadInputKey::Up);
    assert_eq!(joypad.raise_interrupt, None);
    joypad.press_key(JoypadInputKey::Up);
    assert_eq!(joypad.raise_interrupt, Some(Interrupt::Joypad));
}
