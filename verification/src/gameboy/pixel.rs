//! Colours, shades and the modes of the pixel-processing unit.

use vstd::prelude::*;
use crate::gameboy::bits::lemma_select_bits;

verus! {

/// The four modes that the pixel-processing unit goes through.
#[derive(Clone, Copy, Debug, PartialEq, Eq, Structural)]
pub enum Mode {
    /// Mode 0: the rest of a scanline after its pixels are drawn.
    HBlank,
    /// Mode 1: the ten lines after the last visible one.
    VBlank,
    /// Mode 2: the search for the sprites of the coming scanline.
    OAM,
    /// Mode 3: the drawing of the scanline's pixels.
    Drawing,
}

impl Mode {
    /// The mode's number, as it shows in bits 0 and 1 of STAT.
    pub open spec fn number(self) -> u8 {
        match self {
            Mode::HBlank => 0,
            Mode::VBlank => 1,
            Mode::OAM => 2,
            Mode::Drawing => 3,
        }
    }

    /// The mode with a given number; only the two low bits count.
    pub open spec fn of_number(byte: u8) -> Mode {
        if byte % 4 == 3 {
            Mode::Drawing
        } else if byte % 4 == 2 {
            Mode::OAM
        } else if byte % 4 == 1 {
            Mode::VBlank
        } else {
            Mode::HBlank
        }
    }
}

impl From<Mode> for u8 {
    fn from(mode: Mode) -> (byte: u8) {
        match mode {
            Mode::HBlank => 0b00,
            Mode::VBlank => 0b01,
            Mode::OAM => 0b10,
            Mode::Drawing => 0b11,
        }
    }
}

impl vstd::std_specs::convert::FromSpecImpl<Mode> for u8 {
    open spec fn obeys_from_spec() -> bool {
        true
    }

    open spec fn from_spec(mode: Mode) -> u8 {
        mode.number()
    }
}

/// A two-bit value of a pixel: a colour number in tile data, or a shade
/// after a palette has been applied.
#[derive(Copy, Clone, Debug, PartialEq, Eq, Structural)]
pub enum Pixel {
    /// 0b11: the darkest shade.
    Three,
    /// 0b10.
    Two,
    /// 0b01.
    One,
    /// 0b00: the lightest shade; as a sprite's colour, transparent.
    Zero,
}

/// The brightness that the host shows for a shade by default: 255 for shade
/// 0 down to 0 for shade 3.
pub open spec fn gray_of(shade: u8) -> u8 {
    if shade % 4 == 3 {
        0
    } else if shade % 4 == 2 {
        85
    } else if shade % 4 == 1 {
        170
    } else {
        255
    }
}

/// The shade that a palette gives to a colour number: the two bits of the
/// palette at twice the colour number.
pub open spec fn palette_shade(palette: u8, color: u8) -> u8 {
    if color % 4 == 0 {
        palette % 4
    } else if color % 4 == 1 {
        palette / 4 % 4
    } else if color % 4 == 2 {
        palette / 16 % 4
    } else {
        palette / 64 % 4
    }
}

impl Pixel {
    /// The pixel's two bits.
    pub open spec fn number(self) -> u8 {
        match self {
            Pixel::Three => 3,
            Pixel::Two => 2,
            Pixel::One => 1,
            Pixel::Zero => 0,
        }
    }

    /// The pixel with the given two low bits.
    pub open spec fn of_number(byte: u8) -> Pixel {
        if byte == 3 {
            Pixel::Three
        } else if byte == 2 {
            Pixel::Two
        } else if byte == 1 {
            Pixel::One
        } else {
            Pixel::Zero
        }
    }

    /// The brightness of the shade: 0 is black, 255 is white.
    pub fn rgb_value(&self) -> (gray: u8)
        ensures
            gray == gray_of(self.number()),
    {
        match self {
            Pixel::Three => 0,
            Pixel::Two => 85,
            Pixel::One => 170,
            Pixel::Zero => 255,
        }
    }
}

impl From<Pixel> for u8 {
    fn from(pixel: Pixel) -> (byte: u8) {
        match pixel {
            Pixel::Three => 0b11,
            Pixel::Two => 0b10,
            Pixel::One => 0b01,
            Pixel::Zero => 0b00,
        }
    }
}

impl vstd::std_specs::convert::FromSpecImpl<Pixel> for u8 {
    open spec fn obeys_from_spec() -> bool {
        true
    }

    open spec fn from_spec(pixel: Pixel) -> u8 {
        pixel.number()
    }
}

impl From<u8> for Pixel {
    fn from(byte: u8) -> (pixel: Pixel) {
        match byte {
            0b11 => Pixel::Three,
            0b10 => Pixel::Two,
            0b01 => Pixel::One,
            _ => Pixel::Zero,
        }
    }
}

impl vstd::std_specs::convert::FromSpecImpl<u8> for Pixel {
    open spec fn obeys_from_spec() -> bool {
        true
    }

    open spec fn from_spec(byte: u8) -> Pixel {
        Pixel::of_number(byte)
    }
}

impl From<u8> for Mode {
    fn from(byte: u8) -> (mode: Mode) {
        proof {
            lemma_select_bits(byte);
        }
        match byte & 0b11 {
            0b11 => Mode::Drawing,
            0b10 => Mode::OAM,
            0b01 => Mode::VBlank,
            _ => Mode::HBlank,
        }
    }
}

impl vstd::std_specs::convert::FromSpecImpl<u8> for Mode {
    open spec fn obeys_from_spec() -> bool {
        true
    }

    open spec fn from_spec(byte: u8) -> Mode {
        Mode::of_number(byte)
    }
}

/// The two bits of a palette that belong to a colour number.
proof fn lemma_palette_bits(palette: u8)
    by (bit_vector)
    ensures
        palette & 0x3 == palette % 4,
        (palette >> 2) & 0x3 == palette / 4 % 4,
        (palette >> 4) & 0x3 == palette / 16 % 4,
        (palette >> 6) & 0x3 == palette / 64 % 4,
{
}

/// Look a colour number up in a palette.
pub fn shade_of(palette: u8, color: u8) -> (shade: u8)
    requires
        color < 4,
    ensures
        shade == palette_shade(palette, color),
        shade < 4,
{
    proof {
        lemma_palette_bits(palette);
    }
    match color {
        0 => palette & 0x3,
        1 => (palette >> 2) & 0x3,
        2 => (palette >> 4) & 0x3,
        _ => (palette >> 6) & 0x3,
    }
}

/// The brightness of a shade.
pub fn gray_value(shade: u8) -> (gray: u8)
    requires
        shade < 4,
    ensures
        gray == gray_of(shade),
{
    match shade {
        3 => 0,
        2 => 85,
        1 => 170,
        _ => 255,
    }
}

/// A colour of the host's palette: red, green, blue.
pub type PixelColor = [u8; 3];

/// The gray colour of a given brightness.
pub fn pc_from_gray_value(value: u8) -> (color: PixelColor)
    ensures
        color[0] == value,
        color[1] == value,
        color[2] == value,
{
    [value, value, value]
}

/// The shade that a brightness of the frame buffer stands for: 255 for
/// shade 0, 170 for shade 1, 85 for shade 2 and anything else for shade 3.
pub open spec fn shade_for(gray: u8) -> int {
    if gray == 255 {
        0
    } else if gray == 170 {
        1
    } else if gray == 85 {
        2
    } else {
        3
    }
}

/// The byte `i` of a frame whose shades are shown in the colours of a
/// palette: for each pixel the palette's red, green and blue for the
/// pixel's shade, and 0xFF.
pub open spec fn colored_byte(display: Seq<u8>, palette: [PixelColor; 4], i: int) -> u8 {
    if i % 4 == 3 {
        0xFF
    } else {
        palette[shade_for(display[i - i % 4])][i % 4]
    }
}

/// Show a gray RGBA frame in the colours of a palette of four entries, one
/// for each shade from the lightest to the darkest.
pub fn apply_palette(display: &[u8], palette: &[PixelColor; 4]) -> (colored: Vec<u8>)
    requires
        display@.len() % 4 == 0,
    ensures
        colored@.len() == display@.len(),
        forall|i: int|
            0 <= i < display@.len() ==> #[trigger] colored@[i] == colored_byte(
                display@,
                *palette,
                i,
            ),
{
    let mut colored: Vec<u8> = Vec::with_capacity(display.len());
    let mut at: usize = 0;
    while at < display.len()
        invariant
            at <= display@.len(),
            at % 4 == 0,
            display@.len() % 4 == 0,
            colored@.len() == at,
            forall|i: int|
                0 <= i < at ==> #[trigger] colored@[i] == colored_byte(display@, *palette, i),
        decreases display@.len() - at,
    {
        let gray = display[at];
        let shade: usize = if gray == 255 {
            0
        } else if gray == 170 {
            1
        } else if gray == 85 {
            2
        } else {
            3
        };
        let color: PixelColor = palette[shade];
        colored.push(color[0]);
        colored.push(color[1]);
        colored.push(color[2]);
        colored.push(0xFF);
        at = at + 4;
    }
    colored
}

} // verus!
