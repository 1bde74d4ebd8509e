//! The joypad register at 0xFF00: eight keys in two banks of four.

use vstd::prelude::*;
use crate::gameboy::bits::{lemma_mask_clear_set, lemma_nibbles, lemma_select_bits, lemma_bit_tests};
use crate::gameboy::interrupt::Interrupt;

verus! {

/// The eight keys of the console.
#[derive(Copy, Clone, Debug, PartialEq, Eq, Hash, Structural)]
pub enum JoypadInputKey {
    Start,
    Select,
    B,
    A,
    Down,
    Up,
    Left,
    Right,
}

impl JoypadInputKey {
    /// The bit that stands for this key in the joypad's state byte, which is
    /// laid out as Start, Select, B, A, Down, Up, Left, Right from bit 7 to
    /// bit 0.
    pub open spec fn mask(self) -> u8 {
        match self {
            JoypadInputKey::Start => 0x80,
            JoypadInputKey::Select => 0x40,
            JoypadInputKey::B => 0x20,
            JoypadInputKey::A => 0x10,
            JoypadInputKey::Down => 0x08,
            JoypadInputKey::Up => 0x04,
            JoypadInputKey::Left => 0x02,
            JoypadInputKey::Right => 0x01,
        }
    }

    /// Whether this key is one of the four directions; the others are the
    /// action buttons.
    pub open spec fn is_direction(self) -> bool {
        match self {
            JoypadInputKey::Down | JoypadInputKey::Up | JoypadInputKey::Left | JoypadInputKey::Right => true,
            _ => false,
        }
    }

    /// All eight keys, from the highest bit of the state byte to the lowest.
    pub open spec fn all() -> Seq<JoypadInputKey> {
        seq![
            JoypadInputKey::Start,
            JoypadInputKey::Select,
            JoypadInputKey::B,
            JoypadInputKey::A,
            JoypadInputKey::Down,
            JoypadInputKey::Up,
            JoypadInputKey::Left,
            JoypadInputKey::Right,
        ]
    }

    /// The eight keys in a fixed order.
    pub fn iter() -> (keys: Vec<JoypadInputKey>)
        ensures
            keys@ == JoypadInputKey::all(),
    {
        let mut keys: Vec<JoypadInputKey> = Vec::new();
        keys.push(JoypadInputKey::Start);
        keys.push(JoypadInputKey::Select);
        keys.push(JoypadInputKey::B);
        keys.push(JoypadInputKey::A);
        keys.push(JoypadInputKey::Down);
        keys.push(JoypadInputKey::Up);
        keys.push(JoypadInputKey::Left);
        keys.push(JoypadInputKey::Right);
        keys
    }

    /// The key's bit in the state byte.
    pub fn input_byte_pos(&self) -> (bit: u8)
        ensures
            bit == self.mask(),
            self.is_direction() <==> bit < 0x10,
    {
        match self {
            JoypadInputKey::Start => 0b1000_0000,
            JoypadInputKey::Select => 0b0100_0000,
            JoypadInputKey::B => 0b0010_0000,
            JoypadInputKey::A => 0b0001_0000,
            JoypadInputKey::Down => 0b0000_1000,
            JoypadInputKey::Up => 0b0000_0100,
            JoypadInputKey::Left => 0b0000_0010,
            JoypadInputKey::Right => 0b0000_0001,
        }
    }
}

/// The joypad: which keys are held, which banks the program has selected, and
/// an interrupt request that waits to be collected.
#[derive(Clone, Copy, Debug, PartialEq, Eq, Hash, Structural)]
pub struct Joypad {
    /// One bit per key, set while the key is released.
    pub input_byte: u8,
    /// Bits 5 and 4 of the last byte written to the register, in bits 1 and
    /// 0. A bank is selected while its bit is clear: bit 0 for the
    /// directions, bit 1 for the action buttons.
    pub selection_mask: u8,
    /// `Some(Interrupt::Joypad)` from the moment a selected key goes down
    /// until the bus has collected the request.
    pub raise_interrupt: Option<Interrupt>,
}

impl Joypad {
    /// Whether `key` is held down.
    pub open spec fn is_pressed(self, key: JoypadInputKey) -> bool {
        self.input_byte & key.mask() == 0
    }

    /// Whether the directions are selected for reading.
    pub open spec fn directions_selected(self) -> bool {
        self.selection_mask % 2 == 0
    }

    /// Whether the action buttons are selected for reading.
    pub open spec fn buttons_selected(self) -> bool {
        self.selection_mask / 2 % 2 == 0
    }

    /// Whether the bank of `key` is selected.
    pub open spec fn is_selected(self, key: JoypadInputKey) -> bool {
        if key.is_direction() {
            self.directions_selected()
        } else {
            self.buttons_selected()
        }
    }

    /// The four direction bits: Down, Up, Left, Right in bits 3 to 0.
    pub open spec fn direction_nibble(self) -> u8 {
        self.input_byte % 16
    }

    /// The four button bits: Start, Select, B, A in bits 3 to 0.
    pub open spec fn button_nibble(self) -> u8 {
        self.input_byte / 16
    }

    /// What a read of the register gives. The high nibble reads as ones. In
    /// the low nibble a bit is clear exactly when a key of a selected bank
    /// is held in that position.
    pub open spec fn read_spec(self) -> u8 {
        let directions: u8 = if self.directions_selected() {
            self.direction_nibble()
        } else {
            0x0F
        };
        let buttons: u8 = if self.buttons_selected() {
            self.button_nibble()
        } else {
            0x0F
        };
        0xF0u8 | (directions & buttons)
    }

    /// The joypad after `byte` is written to the register: only the two
    /// select bits are kept.
    pub open spec fn write_spec(self, byte: u8) -> Joypad {
        Joypad { selection_mask: byte / 16 % 4, ..self }
    }

    /// The joypad after `key` goes down.
    pub open spec fn press_spec(self, key: JoypadInputKey) -> Joypad {
        Joypad {
            input_byte: self.input_byte & !key.mask(),
            selection_mask: self.selection_mask,
            raise_interrupt: if !self.is_pressed(key) && self.is_selected(key) {
                Some(Interrupt::Joypad)
            } else {
                self.raise_interrupt
            },
        }
    }

    /// The joypad after `key` comes up.
    pub open spec fn release_spec(self, key: JoypadInputKey) -> Joypad {
        Joypad { input_byte: self.input_byte | key.mask(), ..self }
    }

    /// No key held, both banks selected, no request waiting.
    pub open spec fn initial() -> Joypad {
        Joypad { input_byte: 0xFF, selection_mask: 0, raise_interrupt: None }
    }

    pub fn new() -> (joypad: Self)
        ensures
            joypad == Joypad::initial(),
    {
        Joypad { input_byte: 0xFF, selection_mask: 0, raise_interrupt: None }
    }

    /// Read the register at 0xFF00.
    pub fn read_byte(&self) -> (byte: u8)
        ensures
            byte == self.read_spec(),
    {
        proof {
            lemma_nibbles(self.input_byte);
            lemma_bit_tests(self.selection_mask);
        }
        let mut low: u8 = 0x0F;
        if self.selection_mask & 0b01 == 0 {
            low = self.input_byte & 0x0F;
        }
        if self.selection_mask & 0b10 == 0 {
            low = low & (self.input_byte >> 4);
        }
        proof {
            lemma_read_composition(self.input_byte % 16, self.input_byte / 16);
        }
        0xF0 | low
    }

    /// Write the register at 0xFF00.
    pub fn write_byte(&mut self, byte: u8)
        ensures
            *final(self) == old(self).write_spec(byte),
    {
        proof {
            lemma_select_bits(byte);
        }
        self.selection_mask = (byte & 0x30) >> 4;
    }

    /// The host reports that `joypad_key` went down. If the key was up and
    /// its bank is selected, a joypad interrupt is requested.
    pub fn press_key(&mut self, joypad_key: JoypadInputKey)
        ensures
            *final(self) == old(self).press_spec(joypad_key),
            final(self).is_pressed(joypad_key),
    {
        let bit = joypad_key.input_byte_pos();
        let was_released = self.input_byte & bit != 0;
        proof {
            lemma_mask_clear_set(self.input_byte, bit, 0);
            lemma_bit_tests(self.selection_mask);
        }
        self.input_byte = self.input_byte & !bit;
        let selected = if bit < 0x10 {
            self.selection_mask & 0b01 == 0
        } else {
            self.selection_mask & 0b10 == 0
        };
        if was_released && selected {
            self.raise_interrupt = Some(Interrupt::Joypad);
        }
    }

    /// The host reports that `joypad_key` came up.
    pub fn unpress_key(&mut self, joypad_key: JoypadInputKey)
        ensures
            *final(self) == old(self).release_spec(joypad_key),
            !final(self).is_pressed(joypad_key),
    {
        let bit = joypad_key.input_byte_pos();
        proof {
            lemma_mask_clear_set(self.input_byte, bit, 0);
        }
        self.input_byte = self.input_byte | bit;
    }

    /// Hand the waiting interrupt request over, if there is one.
    pub fn take_interrupt(&mut self) -> (request: Option<Interrupt>)
        ensures
            request == old(self).raise_interrupt,
            *final(self) == (Joypad { raise_interrupt: None, ..*old(self) }),
    {
        let request = self.raise_interrupt;
        self.raise_interrupt = None;
        request
    }
}

/// Combining two nibbles with 0x0F in place of one of them gives the other.
proof fn lemma_read_composition(a: u8, b: u8)
    by (bit_vector)
    requires
        a < 16,
        b < 16,
    ensures
        0x0Fu8 & b == b,
        a & 0x0Fu8 == a,
        0x0Fu8 & 0x0Fu8 == 0x0Fu8,
{
}

/// Pressing or releasing one key leaves every other key as it was.
pub proof fn lemma_keys_independent(joypad: Joypad, key: JoypadInputKey, other: JoypadInputKey)
    requires
        key != other,
    ensures
        joypad.press_spec(key).is_pressed(key),
        !joypad.release_spec(key).is_pressed(key),
        joypad.press_spec(key).is_pressed(other) == joypad.is_pressed(other),
        joypad.release_spec(key).is_pressed(other) == joypad.is_pressed(other),
{
    lemma_disjoint_masks(key, other);
    lemma_mask_clear_set(joypad.input_byte, key.mask(), other.mask());
}

/// Two different keys have no bit in common.
proof fn lemma_disjoint_masks(key: JoypadInputKey, other: JoypadInputKey)
    requires
        key != other,
    ensures
        key.mask() & other.mask() == 0,
{
    let a = key.mask();
    let b = other.mask();
    assert(a != b);
    assert((a == 0x80 || a == 0x40 || a == 0x20 || a == 0x10 || a == 0x08 || a == 0x04 || a == 0x02
        || a == 0x01) && (b == 0x80 || b == 0x40 || b == 0x20 || b == 0x10 || b == 0x08 || b
        == 0x04 || b == 0x02 || b == 0x01));
    assert(a & b == 0) by (bit_vector)
        requires
            a != b,
            (a == 0x80 || a == 0x40 || a == 0x20 || a == 0x10 || a == 0x08 || a == 0x04 || a
                == 0x02 || a == 0x01),
            (b == 0x80 || b == 0x40 || b == 0x20 || b == 0x10 || b == 0x08 || b == 0x04 || b
                == 0x02 || b == 0x01),
    ;
}

} // verus!
