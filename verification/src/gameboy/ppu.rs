//! The pixel-processing unit: video RAM, the sprite table, the LCD
//! registers, and the scanline renderer.

use vstd::prelude::*;
use crate::gameboy::bits::{bit, lemma_bit_tests};
use crate::gameboy::interrupt::Interrupt;
use crate::gameboy::pixel::{gray_of, gray_value, palette_shade, shade_of, Mode, Pixel};
use crate::gameboy::ppu_state::{
    insert_sprite, lemma_scan_sprites, scan_sprites, tile_pixel, PpuOutcome, PpuState, Sprite,
    SpritePixel, DRAWING_START, FRAME_LINES, HBLANK_START, LINE_CYCLES, SCREEN_BYTES,
    SCREEN_HEIGHT,
};

verus! {

/// A tile, decoded: eight rows of eight colour numbers.
pub type Tile = [[Pixel; 8]; 8];

/// The pixel-processing unit.
pub struct PPU {
    /// Tile data as the program wrote it, 0x8000 to 0x97FF.
    pub raw_tile_vram: [u8; 0x1800],
    /// Tile data decoded into colour numbers: 384 tiles.
    pub tile_set: [Tile; 384],
    /// The first tile map, 0x9800 to 0x9BFF.
    pub tile_map_1: [u8; 0x400],
    /// The second tile map, 0x9C00 to 0x9FFF.
    pub tile_map_2: [u8; 0x400],
    /// The sprite table, 0xFE00 to 0xFE9F: 40 entries of four bytes.
    pub raw_oam: [u8; 0xA0],
    /// LCD control, 0xFF40.
    pub lcdc: u8,
    /// The interrupt-select bits of LCD status, 0xFF41.
    pub stat: u8,
    /// Vertical scroll, 0xFF42.
    pub scy: u8,
    /// Horizontal scroll, 0xFF43.
    pub scx: u8,
    /// The current scanline, 0xFF44.
    pub ly: u8,
    /// The scanline to compare with, 0xFF45.
    pub lyc: u8,
    /// Background palette, 0xFF47.
    pub bg_palette: u8,
    /// First sprite palette, 0xFF48.
    pub ob_palette_1: u8,
    /// Second sprite palette, 0xFF49.
    pub ob_palette_2: u8,
    /// Window top, 0xFF4A.
    pub wy: u8,
    /// Window left plus seven, 0xFF4B.
    pub wx: u8,
    /// The T-cycle within the scanline.
    pub mode_cycles: u16,
    /// The sprites of the current scanline, in drawing order.
    pub scanline_sprite_cache: Vec<Sprite>,
    /// The window's line counter.
    pub window_lc: u8,
    /// The level of the STAT interrupt line after the last T-cycle.
    pub stat_line: bool,
    /// The frame buffer, RGBA.
    pub screen_buffer: [u8; 92160],
}

impl View for PPU {
    type V = PpuState;

    open spec fn view(&self) -> PpuState {
        PpuState {
            vram: self.raw_tile_vram@ + self.tile_map_1@ + self.tile_map_2@,
            oam: self.raw_oam@,
            lcdc: self.lcdc,
            stat: self.stat,
            scy: self.scy,
            scx: self.scx,
            ly: self.ly,
            lyc: self.lyc,
            bgp: self.bg_palette,
            obp0: self.ob_palette_1,
            obp1: self.ob_palette_2,
            wy: self.wy,
            wx: self.wx,
            dot: self.mode_cycles,
            sprites: self.scanline_sprite_cache@,
            window_line: self.window_lc,
            stat_line: self.stat_line,
            screen: self.screen_buffer@,
        }
    }
}

/// The interrupts that a stretch of time requested: the vertical-blanking
/// interrupt first, then the LCD interrupt, each at most once.
pub open spec fn interrupts_of(outcome: PpuOutcome) -> Seq<Interrupt> {
    (if outcome.vblanks > 0 {
        seq![Interrupt::VBlank]
    } else {
        Seq::<Interrupt>::empty()
    }) + (if outcome.lcds > 0 {
        seq![Interrupt::LCD]
    } else {
        Seq::<Interrupt>::empty()
    })
}

/// The mask for the pixel `col` of a tile row: bit 7 is the leftmost pixel.
fn pixel_mask(col: usize) -> (mask: u8)
    requires
        col < 8,
    ensures
        forall|byte: u8| (byte & mask != 0) == bit(byte, 7 - col),
{
    let mask: u8 = match col {
        0 => 0x80,
        1 => 0x40,
        2 => 0x20,
        3 => 0x10,
        4 => 0x08,
        5 => 0x04,
        6 => 0x02,
        _ => 0x01,
    };
    assert forall|byte: u8| (byte & mask != 0) == bit(byte, 7 - col) by {
        lemma_bit_tests(byte);
    }
    mask
}

/// Decode one row of a tile from its two bytes.
fn decode_row(low: u8, high: u8) -> (row: [Pixel; 8])
    ensures
        forall|col: int|
            0 <= col < 8 ==> (#[trigger] row[col]).number() == (if bit(high, 7 - col) {
                2int
            } else {
                0
            }) + (if bit(low, 7 - col) {
                1int
            } else {
                0
            }),
{
    let mut row: [Pixel; 8] = [Pixel::Zero; 8];
    let mut col: usize = 0;
    while col < 8
        invariant
            col <= 8,
            forall|c: int|
                0 <= c < col ==> (#[trigger] row[c]).number() == (if bit(high, 7 - c) {
                    2int
                } else {
                    0
                }) + (if bit(low, 7 - c) {
                    1int
                } else {
                    0
                }),
        decreases 8 - col,
    {
        let mask = pixel_mask(col);
        let lsb = low & mask != 0;
        let msb = high & mask != 0;
        let value = match (lsb, msb) {
            (true, true) => Pixel::Three,
            (false, true) => Pixel::Two,
            (true, false) => Pixel::One,
            (false, false) => Pixel::Zero,
        };
        row[col] = value;
        col = col + 1;
    }
    row
}

impl PPU {
    /// The decoded tiles agree with the tile data.
    pub open spec fn tiles_decoded(&self) -> bool {
        forall|tile: int, row: int, col: int|
            0 <= tile < 384 && 0 <= row < 8 && 0 <= col < 8 ==> (
            #[trigger] self.tile_set[tile][row][col]).number() == tile_pixel(
                self.raw_tile_vram@,
                tile,
                row,
                col,
            )
    }

    /// The unit's invariant: the counters are in range, the decoded tiles
    /// agree with the tile data, and the sprites of the scanline are in
    /// drawing order.
    pub open spec fn wf(&self) -> bool {
        &&& self@.wf()
        &&& self.tiles_decoded()
    }

    /// The state at power-on: the display off, every memory and register
    /// zero, the screen white.
    pub open spec fn initial() -> PpuState {
        PpuState {
            vram: Seq::new(0x2000, |i: int| 0u8),
            oam: Seq::new(0xA0, |i: int| 0u8),
            lcdc: 0,
            stat: 0,
            scy: 0,
            scx: 0,
            ly: 0,
            lyc: 0,
            bgp: 0,
            obp0: 0,
            obp1: 0,
            wy: 0,
            wx: 0,
            dot: 0,
            sprites: Seq::empty(),
            window_line: 0,
            stat_line: false,
            screen: Seq::new(SCREEN_BYTES as nat, |i: int| 0xFFu8),
        }
    }

    pub fn new() -> (ppu: Self)
        ensures
            ppu.wf(),
            ppu@ == PPU::initial(),
    {
        let blank_row: [Pixel; 8] = [Pixel::Zero; 8];
        let blank_tile: Tile = [blank_row; 8];
        let ppu = PPU {
            raw_tile_vram: [0u8; 0x1800],
            tile_set: [blank_tile; 384],
            tile_map_1: [0u8; 0x400],
            tile_map_2: [0u8; 0x400],
            raw_oam: [0u8; 0xA0],
            lcdc: 0,
            stat: 0,
            scy: 0,
            scx: 0,
            ly: 0,
            lyc: 0,
            bg_palette: 0,
            ob_palette_1: 0,
            ob_palette_2: 0,
            wy: 0,
            wx: 0,
            mode_cycles: 0,
            scanline_sprite_cache: Vec::new(),
            window_lc: 0,
            stat_line: false,
            screen_buffer: [0xFFu8; 92160],
        };
        proof {
            assert(ppu@ =~= PPU::initial());
            assert forall|tile: int, row: int, col: int|
                0 <= tile < 384 && 0 <= row < 8 && 0 <= col < 8 implies (
            #[trigger] ppu.tile_set[tile][row][col]).number() == tile_pixel(
                ppu.raw_tile_vram@,
                tile,
                row,
                col,
            ) by {
                assert(ppu.tile_set[tile] == blank_tile);
                assert(blank_tile[row] == blank_row);
                assert(blank_row[col] == Pixel::Zero);
                assert(ppu.raw_tile_vram@[tile * 16 + row * 2] == 0);
                assert(ppu.raw_tile_vram@[tile * 16 + row * 2 + 1] == 0);
            }
            assert(!bit(0u8, 7));
        }
        ppu
    }

    /// The byte of video RAM at `offset` from 0x8000.
    fn vram_byte(&self, offset: usize) -> (byte: u8)
        requires
            offset < 0x2000,
        ensures
            byte == self@.vram[offset as int],
    {
        if offset < 0x1800 {
            self.read_tile_set_data_as_byte(offset)
        } else if offset < 0x1C00 {
            self.tile_map_1[offset - 0x1800]
        } else {
            self.tile_map_2[offset - 0x1C00]
        }
    }

    /// Read a byte at `real_addr`: video RAM, the sprite table, or one of
    /// the LCD registers. `index` is the address relative to the start of
    /// its region and is not looked at.
    pub fn read_byte(&self, index: usize, real_addr: usize) -> (byte: u8)
        requires
            self.wf(),
            PpuState::owns(real_addr as int),
        ensures
            byte == self@.read(real_addr as int),
    {
        if 0x8000 <= real_addr && real_addr <= 0x9FFF {
            if self.mode_bits() != 3 {
                self.vram_byte(real_addr - 0x8000)
            } else {
                0xFF
            }
        } else if 0xFE00 <= real_addr && real_addr <= 0xFE9F {
            if self.mode_bits() < 2 {
                self.raw_oam[real_addr - 0xFE00]
            } else {
                0xFF
            }
        } else if real_addr == 0xFF40 {
            self.lcdc
        } else if real_addr == 0xFF41 {
            let coincidence: u8 = if self.ly == self.lyc {
                4
            } else {
                0
            };
            self.stat + coincidence + self.mode_bits()
        } else if real_addr == 0xFF42 {
            self.scy
        } else if real_addr == 0xFF43 {
            self.scx
        } else if real_addr == 0xFF44 {
            self.ly
        } else if real_addr == 0xFF45 {
            self.lyc
        } else if real_addr == 0xFF47 {
            self.bg_palette
        } else if real_addr == 0xFF48 {
            self.ob_palette_1
        } else if real_addr == 0xFF49 {
            self.ob_palette_2
        } else if real_addr == 0xFF4A {
            self.wy
        } else {
            self.wx
        }
    }

    /// Write a byte at `real_addr`: video RAM, the sprite table, or one of
    /// the LCD registers. `index` is not looked at.
    pub fn write_byte(&mut self, index: usize, real_addr: usize, value: u8)
        requires
            old(self).wf(),
            PpuState::owns(real_addr as int),
        ensures
            final(self).wf(),
            final(self)@ == old(self)@.write(real_addr as int, value),
    {
        if 0x8000 <= real_addr && real_addr <= 0x9FFF {
            if self.mode_bits() != 3 {
                if real_addr <= 0x97FF {
                    self.write_tile_set_data(real_addr - 0x8000, value);
                } else if real_addr <= 0x9BFF {
                    self.tile_map_1[real_addr - 0x9800] = value;
                    assert(self@.vram =~= old(self)@.vram.update(real_addr - 0x8000, value));
                } else {
                    self.tile_map_2[real_addr - 0x9C00] = value;
                    assert(self@.vram =~= old(self)@.vram.update(real_addr - 0x8000, value));
                }
            }
        } else if 0xFE00 <= real_addr && real_addr <= 0xFE9F {
            if self.mode_bits() < 2 {
                self.write_oam_data(real_addr - 0xFE00, value);
            }
        } else if real_addr == 0xFF40 {
            self.write_lcdc(value);
        } else if real_addr == 0xFF41 {
            proof {
                lemma_stat_select(value);
            }
            self.stat = value & 0x78;
        } else if real_addr == 0xFF42 {
            self.scy = value;
        } else if real_addr == 0xFF43 {
            self.scx = value;
        } else if real_addr == 0xFF44 {
        } else if real_addr == 0xFF45 {
            self.lyc = value;
        } else if real_addr == 0xFF47 {
            self.bg_palette = value;
        } else if real_addr == 0xFF48 {
            self.ob_palette_1 = value;
        } else if real_addr == 0xFF49 {
            self.ob_palette_2 = value;
        } else if real_addr == 0xFF4A {
            self.wy = value;
        } else {
            self.wx = value;
        }
    }

    /// Write LCDC, starting or stopping the display if bit 7 changes.
    fn write_lcdc(&mut self, value: u8)
        requires
            old(self).wf(),
        ensures
            final(self).wf(),
            final(self)@ == old(self)@.write_lcdc(value),
    {
        proof {
            lemma_bit_tests(value);
            lemma_bit_tests(self.lcdc);
        }
        let was_on = self.is_lcd_enabled();
        let on = value & 0x80 != 0;
        self.lcdc = value;
        if was_on && !on {
            self.ly = 0;
            self.mode_cycles = 0;
            self.window_lc = 0;
            self.scanline_sprite_cache = Vec::new();
            self.stat_line = false;
            self.screen_buffer = [0xFFu8; 92160];
            assert(self@ =~= old(self)@.write_lcdc(value));
        } else if !was_on && on {
            self.ly = 0;
            self.mode_cycles = 0;
            self.window_lc = 0;
            self.stat_line = false;
            self.build_sprite_cache();
            assert(self@ =~= old(self)@.write_lcdc(value));
        }
    }

    /// Write a byte of tile data and decode the row that it belongs to.
    fn write_tile_set_data(&mut self, index: usize, byte: u8)
        requires
            old(self).wf(),
            index < 0x1800,
        ensures
            final(self).wf(),
            final(self)@ == (PpuState {
                vram: old(self)@.vram.update(index as int, byte),
                ..old(self)@
            }),
    {
        self.raw_tile_vram[index] = byte;
        let first_index = index - index % 2;
        let byte1 = self.raw_tile_vram[first_index];
        let byte2 = self.raw_tile_vram[first_index + 1];
        let tile_index = index / 16;
        let row_index = (index % 16) / 2;
        let row = decode_row(byte1, byte2);
        let mut tile = self.tile_set[tile_index];
        tile[row_index] = row;
        self.tile_set[tile_index] = tile;
        proof {
            assert(self@.vram =~= old(self)@.vram.update(index as int, byte));
            assert forall|t: int, r: int, c: int|
                0 <= t < 384 && 0 <= r < 8 && 0 <= c < 8 implies (
            #[trigger] self.tile_set[t][r][c]).number() == tile_pixel(
                self.raw_tile_vram@,
                t,
                r,
                c,
            ) by {
                if t == tile_index && r == row_index {
                    assert(self.tile_set[t][r] == row);
                    assert(t * 16 + r * 2 == first_index);
                } else {
                    assert(self.tile_set[t][r] == old(self).tile_set[t][r]);
                    assert(t * 16 + r * 2 != index && t * 16 + r * 2 + 1 != index);
                    assert(old(self).tile_set[t][r][c].number() == tile_pixel(
                        old(self).raw_tile_vram@,
                        t,
                        r,
                        c,
                    ));
                }
            }
        }
    }

    fn read_tile_set_data_as_byte(&self, index: usize) -> (byte: u8)
        requires
            index < 0x1800,
        ensures
            byte == self.raw_tile_vram@[index as int],
    {
        self.raw_tile_vram[index]
    }

    /// Write a byte of the sprite table.
    fn write_oam_data(&mut self, index: usize, byte: u8)
        requires
            old(self).wf(),
            index < 0xA0,
        ensures
            final(self).wf(),
            final(self)@ == (PpuState {
                oam: old(self)@.oam.update(index as int, byte),
                ..old(self)@
            }),
    {
        self.raw_oam[index] = byte;
    }

    /// Fill the sprite table from a transfer, whatever the mode.
    pub fn load_oam(&mut self, data: &[u8; 0xA0])
        requires
            old(self).wf(),
        ensures
            final(self).wf(),
            final(self)@ == old(self)@.with_oam(data@),
    {
        self.raw_oam = *data;
    }

    /// The number of the current mode.
    fn mode_bits(&self) -> (mode: u8)
        requires
            self.wf(),
        ensures
            mode == self@.mode_number(),
            mode < 4,
    {
        if !self.is_lcd_enabled() {
            0
        } else if self.ly >= 144 {
            1
        } else if self.mode_cycles < DRAWING_START {
            2
        } else if self.mode_cycles < HBLANK_START {
            3
        } else {
            0
        }
    }

    /// The current mode.
    pub fn get_mode(&self) -> (mode: Mode)
        requires
            self.wf(),
        ensures
            mode == Mode::of_number(self@.mode_number()),
            mode.number() == self@.mode_number(),
    {
        Mode::from(self.mode_bits())
    }

    /// LCDC bit 7.
    pub fn is_lcd_enabled(&self) -> (on: bool)
        ensures
            on == self@.lcd_enabled(),
    {
        proof {
            lemma_bit_tests(self.lcdc);
        }
        !(self.lcdc & 0b1000_0000 == 0)
    }

    /// LCDC bit 5.
    pub fn is_window_enabled(&self) -> (on: bool)
        ensures
            on == bit(self.lcdc, 5),
    {
        proof {
            lemma_bit_tests(self.lcdc);
        }
        !(self.lcdc & 0b0010_0000 == 0)
    }

    /// LCDC bit 1.
    pub fn is_obj_enabled(&self) -> (on: bool)
        ensures
            on == bit(self.lcdc, 1),
    {
        proof {
            lemma_bit_tests(self.lcdc);
        }
        !(self.lcdc & 0b0000_0010 == 0)
    }

    /// The base address of the tiles that tile map entries count from:
    /// 0x8000 with LCDC bit 4 set, 0x8800 otherwise.
    fn get_address_mode(&self) -> (base: u16)
        ensures
            base == (if bit(self.lcdc, 4) {
                0x8000int
            } else {
                0x8800
            }),
    {
        proof {
            lemma_bit_tests(self.lcdc);
        }
        match self.lcdc & 0x10 {
            0 => 0x8800,
            _ => 0x8000,
        }
    }

    /// The height of sprites: 8, or 16 with LCDC bit 2 set.
    pub fn get_sprite_height(&self) -> (height: u8)
        ensures
            height == self@.sprite_height(),
    {
        proof {
            lemma_bit_tests(self.lcdc);
        }
        match self.lcdc & 0b100 {
            0 => 8,
            _ => 16,
        }
    }

    /// The frame buffer: 160 by 144 pixels of four bytes, row by row.
    pub fn get_display(&self) -> (display: &[u8; 92160])
        ensures
            display@ == self@.screen,
    {
        &self.screen_buffer
    }

    /// Find the sprites of the current scanline.
    fn build_sprite_cache(&mut self)
        requires
            old(self).raw_oam@.len() == 0xA0,
        ensures
            final(self)@ == (PpuState {
                sprites: scan_sprites(old(self)@.oam, old(self).ly, old(self)@.sprite_height(), 40),
                ..old(self)@
            }),
            final(self).tile_set == old(self).tile_set,
            final(self).raw_tile_vram == old(self).raw_tile_vram,
            final(self)@.sprites.len() <= 10,
            crate::gameboy::ppu_state::in_drawing_order(final(self)@.sprites),
    {
        proof {
            lemma_scan_sprites(self@.oam, self.ly, self@.sprite_height(), 40);
        }
        let sprite_height = self.get_sprite_height();
        let mut cache: Vec<Sprite> = Vec::new();
        let mut i: usize = 0;
        while i < 40
            invariant
                i <= 40,
                self.raw_oam@.len() == 0xA0,
                sprite_height == self@.sprite_height(),
                cache@ == scan_sprites(self@.oam, self.ly, sprite_height as int, i as int),
                cache@.len() <= 10,
            decreases 40 - i,
        {
            let sprite = Sprite {
                y: self.raw_oam[4 * i],
                x: self.raw_oam[4 * i + 1],
                tile_index: self.raw_oam[4 * i + 2],
                attributes: self.raw_oam[4 * i + 3],
                oam_index: i as u8,
            };
            proof {
                lemma_scan_sprites(self@.oam, self.ly, sprite_height as int, i as int + 1);
            }
            if sprite.x > 0 && self.ly as u16 + 16 >= sprite.y as u16 && (self.ly as u16 + 16)
                < sprite.y as u16 + sprite_height as u16 && cache.len() < 10 {
                insert_in_order(&mut cache, sprite);
            }
            i = i + 1;
        }
        self.scanline_sprite_cache = cache;
    }
}

/// The select bits of STAT: bits 3 to 6 of the byte written.
proof fn lemma_stat_select(value: u8)
    by (bit_vector)
    ensures
        value & 0x78 == (value / 8 % 16 * 8) as u8,
        (value & 0x78) % 8 == 0,
        value & 0x78 < 0x80,
{
}

/// The place at which `insert_sprite` puts a sprite.
pub open spec fn insert_index(sprites: Seq<Sprite>, sprite: Sprite) -> int
    decreases sprites.len(),
{
    if sprites.len() == 0 || sprites.last().x <= sprite.x {
        sprites.len() as int
    } else {
        insert_index(sprites.drop_last(), sprite)
    }
}

/// `insert_sprite` puts the sprite at `insert_index` and moves the rest up.
proof fn lemma_insert_at_index(sprites: Seq<Sprite>, sprite: Sprite)
    ensures
        0 <= insert_index(sprites, sprite) <= sprites.len(),
        insert_sprite(sprites, sprite) == sprites.insert(insert_index(sprites, sprite), sprite),
    decreases sprites.len(),
{
    if sprites.len() == 0 || sprites.last().x <= sprite.x {
        assert(sprites.push(sprite) =~= sprites.insert(sprites.len() as int, sprite));
    } else {
        lemma_insert_at_index(sprites.drop_last(), sprite);
        let at = insert_index(sprites.drop_last(), sprite);
        assert(sprites.drop_last().insert(at, sprite).push(sprites.last()) =~= sprites.insert(
            at,
            sprite,
        ));
    }
}

/// Put a sprite into sprites that are in drawing order.
fn insert_in_order(cache: &mut Vec<Sprite>, sprite: Sprite)
    ensures
        final(cache)@ == insert_sprite(old(cache)@, sprite),
{
    let mut at: usize = cache.len();
    assert(cache@.subrange(0, at as int) =~= cache@);
    while at > 0 && cache[at - 1].x > sprite.x
        invariant
            at <= cache@.len(),
            cache@ == old(cache)@,
            insert_index(cache@.subrange(0, at as int), sprite) == insert_index(cache@, sprite),
        decreases at,
    {
        proof {
            let head = cache@.subrange(0, at as int);
            assert(head.last() == cache@[at - 1]);
            assert(head.drop_last() =~= cache@.subrange(0, at - 1));
        }
        at = at - 1;
    }
    proof {
        let head = cache@.subrange(0, at as int);
        if at > 0 {
            assert(head.last() == cache@[at - 1]);
        }
        assert(insert_index(head, sprite) == at);
        lemma_insert_at_index(cache@, sprite);
    }
    cache.insert(at, sprite);
}

/// The even tile of a pair: a tile number with its low bit cleared.
proof fn lemma_even_tile(tile: u8)
    by (bit_vector)
    ensures
        tile & 0xFE == tile / 2 * 2,
{
}

/// Write one scanline of shades into a frame buffer, as gray RGBA.
fn write_line(buffer: &mut [u8; 92160], line: usize, shades: &[u8; 160])
    requires
        line < SCREEN_HEIGHT,
        forall|x: int| 0 <= x < 160 ==> (#[trigger] shades[x]) < 4,
    ensures
        forall|i: int|
            line * 640 <= i < line * 640 + 640 ==> (#[trigger] final(buffer)[i]) == (if (i
                - line * 640) % 4 == 3 {
                0xFFu8
            } else {
                gray_of(shades[(i - line * 640) / 4])
            }),
        forall|i: int|
            0 <= i < 92160 && !(line * 640 <= i < line * 640 + 640) ==> (#[trigger] final(buffer)[i]) == old(buffer)[i],
{
    let start = line * 640;
    let mut x: usize = 0;
    while x < 160
        invariant
            x <= 160,
            start == line * 640,
            line < SCREEN_HEIGHT,
            forall|k: int| 0 <= k < 160 ==> (#[trigger] shades[k]) < 4,
            forall|i: int|
                start <= i < start + 4 * x ==> (#[trigger] buffer[i]) == (if (i - start) % 4
                    == 3 {
                    0xFFu8
                } else {
                    gray_of(shades[(i - start) / 4])
                }),
            forall|i: int|
                0 <= i < 92160 && !(start <= i < start + 4 * x) ==> (#[trigger] buffer[i])
                    == old(buffer)[i],
        decreases 160 - x,
    {
        assert(shades[x as int] < 4);
        let gray = gray_value(shades[x]);
        buffer[start + 4 * x] = gray;
        buffer[start + 4 * x + 1] = gray;
        buffer[start + 4 * x + 2] = gray;
        buffer[start + 4 * x + 3] = 0xFF;
        x = x + 1;
    }
}

impl PPU {
    /// The colour number of one pixel of a tile, from the decoded tiles.
    fn tile_color(&self, tile: usize, row: usize, col: usize) -> (color: u8)
        requires
            self.wf(),
            tile < 384,
            row < 8,
            col < 8,
        ensures
            color == tile_pixel(self@.vram, tile as int, row as int, col as int),
            color < 4,
    {
        proof {
            assert(self@.vram[tile * 16 + row * 2] == self.raw_tile_vram@[tile * 16 + row * 2]);
            assert(self@.vram[tile * 16 + row * 2 + 1] == self.raw_tile_vram@[tile * 16 + row
                * 2 + 1]);
            assert(self.tile_set[tile as int][row as int][col as int].number() == tile_pixel(
                self.raw_tile_vram@,
                tile as int,
                row as int,
                col as int,
            ));
        }
        u8::from(self.tile_set[tile][row][col])
    }

    /// The number of the tile that a tile map entry stands for.
    fn map_tile_index(&self, entry: u8) -> (tile: usize)
        ensures
            tile == self@.map_tile(entry),
            tile < 384,
    {
        if self.get_address_mode() == 0x8000 || entry >= 128 {
            entry as usize
        } else {
            256 + entry as usize
        }
    }

    /// The tile map that LCDC bit 3 selects for the background.
    fn get_background_map(&self) -> (map: &[u8; 0x400])
        ensures
            forall|i: int|
                0 <= i < 0x400 ==> (#[trigger] map[i]) == self@.vram[self@.background_map() + i],
    {
        proof {
            lemma_bit_tests(self.lcdc);
        }
        match self.lcdc & 0x8 {
            0 => &self.tile_map_1,
            _ => &self.tile_map_2,
        }
    }

    /// The tile map that LCDC bit 6 selects for the window.
    fn get_window_map(&self) -> (map: &[u8; 0x400])
        ensures
            forall|i: int|
                0 <= i < 0x400 ==> (#[trigger] map[i]) == self@.vram[self@.window_map() + i],
    {
        proof {
            lemma_bit_tests(self.lcdc);
        }
        match self.lcdc & 0b100_0000 {
            0 => &self.tile_map_1,
            _ => &self.tile_map_2,
        }
    }

    /// The background's colour numbers for the current scanline; colour 0
    /// throughout while LCDC bit 0 is clear.
    fn scanline_background(&self, row_buffer: &mut [u8; 160])
        requires
            self.wf(),
        ensures
            forall|x: int|
                0 <= x < 160 ==> (#[trigger] final(row_buffer)[x]) == (if bit(self.lcdc, 0) {
                    self@.background_color(x)
                } else {
                    0
                }),
            forall|x: int| 0 <= x < 160 ==> (#[trigger] final(row_buffer)[x]) < 4,
    {
        proof {
            lemma_bit_tests(self.lcdc);
        }
        let enabled = self.lcdc & 0x1 != 0;
        let bg_map = self.get_background_map();
        let bg_y: usize = (self.scy as usize + self.ly as usize) % 256;
        let mut x: usize = 0;
        while x < 160
            invariant
                x <= 160,
                self.wf(),
                enabled == bit(self.lcdc, 0),
                bg_y == (self.scy + self.ly) % 256,
                forall|i: int|
                    0 <= i < 0x400 ==> (#[trigger] bg_map[i]) == self@.vram[
                        self@.background_map() + i],
                forall|k: int|
                    0 <= k < x ==> (#[trigger] row_buffer[k]) == (if bit(self.lcdc, 0) {
                        self@.background_color(k)
                    } else {
                        0
                    }),
                forall|k: int| 0 <= k < x ==> (#[trigger] row_buffer[k]) < 4,
            decreases 160 - x,
        {
            if enabled {
                let bg_x: usize = (self.scx as usize + x) % 256;
                let entry = bg_map[bg_y / 8 * 32 + bg_x / 8];
                let tile = self.map_tile_index(entry);
                row_buffer[x] = self.tile_color(tile, bg_y % 8, bg_x % 8);
            } else {
                row_buffer[x] = 0;
            }
            x = x + 1;
        }
    }

    /// The window's colour numbers for the current scanline, where the
    /// window covers it.
    fn scanline_window(&self, row_buffer: &mut [Option<u8>; 160])
        requires
            self.wf(),
        ensures
            forall|x: int|
                0 <= x < 160 ==> (#[trigger] final(row_buffer)[x]) == (if self@.window_covers(x) {
                    Some(self@.window_color(x))
                } else {
                    None
                }),
            forall|x: int|
                0 <= x < 160 ==> ((#[trigger] final(row_buffer)[x]) matches Some(color)
                    ==> color < 4),
    {
        proof {
            lemma_bit_tests(self.lcdc);
        }
        let on_line = self.lcdc & 0x1 != 0 && self.is_window_enabled() && self.wx <= 166
            && self.wy <= self.ly;
        let window_map = self.get_window_map();
        let window_y = self.window_lc as usize;
        let mut x: usize = 0;
        while x < 160
            invariant
                x <= 160,
                self.wf(),
                on_line == self@.window_on_line(),
                window_y == self.window_lc,
                forall|i: int|
                    0 <= i < 0x400 ==> (#[trigger] window_map[i]) == self@.vram[
                        self@.window_map() + i],
                forall|k: int|
                    0 <= k < x ==> (#[trigger] row_buffer[k]) == (if self@.window_covers(k) {
                        Some(self@.window_color(k))
                    } else {
                        None
                    }),
                forall|k: int|
                    0 <= k < x ==> ((#[trigger] row_buffer[k]) matches Some(color) ==> color
                        < 4),
            decreases 160 - x,
        {
            if on_line && x + 7 >= self.wx as usize {
                let window_x = x + 7 - self.wx as usize;
                let entry = window_map[window_y / 8 * 32 + window_x / 8];
                let tile = self.map_tile_index(entry);
                row_buffer[x] = Some(self.tile_color(tile, window_y % 8, window_x % 8));
            } else {
                row_buffer[x] = None;
            }
            x = x + 1;
        }
    }

    /// The colour number that a sprite has at column `x` of the current
    /// scanline.
    fn sprite_color_at(&self, sprite: &Sprite, x: usize) -> (color: u8)
        requires
            self.wf(),
            x < 160,
        ensures
            color == self@.sprite_color(*sprite, x as int),
            color < 4,
    {
        proof {
            lemma_bit_tests(sprite.attributes);
            lemma_even_tile(sprite.tile_index);
        }
        let height = self.get_sprite_height() as usize;
        let line = self.ly as usize + 16;
        let top = sprite.y as usize;
        let left = sprite.x as usize;
        let on_line = left > 0 && line >= top && line < top + height;
        if !on_line || !(x < left && left <= x + 8) {
            return 0;
        }
        let col = x + 8 - left;
        let row = line - top;
        let tile_col = if sprite.attributes & 0b0010_0000 != 0 {
            7 - col
        } else {
            col
        };
        let tile_row = if sprite.attributes & 0b0100_0000 != 0 {
            height - 1 - row
        } else {
            row
        };
        let tile = if height == 16 {
            (sprite.tile_index & 0xFE) as usize + tile_row / 8
        } else {
            sprite.tile_index as usize
        };
        self.tile_color(tile, tile_row % 8, tile_col)
    }

    /// What a sprite puts on column `x` of the current scanline.
    fn sprite_pixel_at(&self, sprite: &Sprite, x: usize) -> (pixel: Option<SpritePixel>)
        requires
            self.wf(),
            x < 160,
        ensures
            pixel == self@.sprite_pixel(*sprite, x as int),
            pixel matches Some(p) ==> p.shade < 4,
    {
        proof {
            lemma_bit_tests(sprite.attributes);
        }
        let color = self.sprite_color_at(sprite, x);
        if color == 0 {
            None
        } else {
            let palette = match sprite.attributes & 0b0001_0000 == 0 {
                true => self.ob_palette_1,
                false => self.ob_palette_2,
            };
            let priority = sprite.attributes & 0b1000_0000 != 0;
            Some(SpritePixel { shade: self.decode_pixel(color, palette, true), behind: priority })
        }
    }

    /// Draw one sprite into the sprite row where no earlier sprite has put
    /// a pixel.
    fn draw_scanline_sprite(&self, row_buffer: &mut [Option<SpritePixel>; 160], sprite: &Sprite)
        requires
            self.wf(),
            forall|x: int|
                0 <= x < 160 ==> ((#[trigger] old(row_buffer)[x]) matches Some(p) ==> p.shade
                    < 4),
        ensures
            forall|x: int|
                0 <= x < 160 ==> (#[trigger] final(row_buffer)[x]) == (if old(row_buffer)[x].is_some() {
                    old(row_buffer)[x]
                } else {
                    self@.sprite_pixel(*sprite, x)
                }),
            forall|x: int|
                0 <= x < 160 ==> ((#[trigger] final(row_buffer)[x]) matches Some(p)
                    ==> p.shade < 4),
    {
        let mut x: usize = 0;
        while x < 160
            invariant
                x <= 160,
                self.wf(),
                forall|k: int|
                    0 <= k < x ==> (#[trigger] row_buffer[k]) == (if old(row_buffer)[k].is_some() {
                        old(row_buffer)[k]
                    } else {
                        self@.sprite_pixel(*sprite, k)
                    }),
                forall|k: int| x <= k < 160 ==> (#[trigger] row_buffer[k]) == old(row_buffer)[k],
                forall|k: int|
                    0 <= k < 160 ==> ((#[trigger] row_buffer[k]) matches Some(p) ==> p.shade
                        < 4),
            decreases 160 - x,
        {
            if row_buffer[x].is_none() {
                row_buffer[x] = self.sprite_pixel_at(sprite, x);
            }
            x = x + 1;
        }
    }

    /// What the sprites put on the current scanline; nothing while LCDC bit
    /// 1 is clear.
    fn scanline_sprites(&self, row_buffer: &mut [Option<SpritePixel>; 160])
        requires
            self.wf(),
        ensures
            forall|x: int|
                0 <= x < 160 ==> (#[trigger] final(row_buffer)[x]) == self@.sprites_at(x),
            forall|x: int|
                0 <= x < 160 ==> ((#[trigger] final(row_buffer)[x]) matches Some(p)
                    ==> p.shade < 4),
    {
        *row_buffer = [None; 160];
        if !self.is_obj_enabled() {
            return ;
        }
        let mut k: usize = 0;
        assert(self.scanline_sprite_cache@.subrange(0, 0) =~= Seq::<Sprite>::empty());
        while k < self.scanline_sprite_cache.len()
            invariant
                k <= self.scanline_sprite_cache@.len(),
                self.wf(),
                forall|x: int|
                    0 <= x < 160 ==> (#[trigger] row_buffer[x]) == self@.sprite_layer(
                        self.scanline_sprite_cache@.subrange(0, k as int),
                        x,
                    ),
                forall|x: int|
                    0 <= x < 160 ==> ((#[trigger] row_buffer[x]) matches Some(p) ==> p.shade
                        < 4),
            decreases self.scanline_sprite_cache@.len() - k,
        {
            let sprite = self.scanline_sprite_cache[k];
            proof {
                let longer = self.scanline_sprite_cache@.subrange(0, k as int + 1);
                assert(longer.drop_last() =~= self.scanline_sprite_cache@.subrange(0, k as int));
                assert(longer.last() == sprite);
            }
            self.draw_scanline_sprite(row_buffer, &sprite);
            k = k + 1;
        }
        assert(self.scanline_sprite_cache@.subrange(0, k as int) =~= self.scanline_sprite_cache@);
    }

    /// The shades of the current scanline: background, window and sprites
    /// merged.
    fn scanline_pixels(&self) -> (shades: [u8; 160])
        requires
            self.wf(),
        ensures
            forall|x: int| 0 <= x < 160 ==> (#[trigger] shades[x]) == self@.pixel_shade(x),
            forall|x: int| 0 <= x < 160 ==> (#[trigger] shades[x]) < 4,
    {
        let mut bg_buffer: [u8; 160] = [0u8; 160];
        self.scanline_background(&mut bg_buffer);
        let mut sprite_buffer: [Option<SpritePixel>; 160] = [None; 160];
        self.scanline_sprites(&mut sprite_buffer);
        let mut window_buffer: [Option<u8>; 160] = [None; 160];
        self.scanline_window(&mut window_buffer);

        let mut shades: [u8; 160] = [0u8; 160];
        let mut x: usize = 0;
        while x < 160
            invariant
                x <= 160,
                self.wf(),
                forall|k: int|
                    0 <= k < 160 ==> (#[trigger] bg_buffer[k]) == (if bit(self.lcdc, 0) {
                        self@.background_color(k)
                    } else {
                        0
                    }),
                forall|k: int| 0 <= k < 160 ==> (#[trigger] bg_buffer[k]) < 4,
                forall|k: int|
                    0 <= k < 160 ==> (#[trigger] window_buffer[k]) == (if self@.window_covers(
                        k,
                    ) {
                        Some(self@.window_color(k))
                    } else {
                        None
                    }),
                forall|k: int|
                    0 <= k < 160 ==> ((#[trigger] window_buffer[k]) matches Some(color)
                        ==> color < 4),
                forall|k: int|
                    0 <= k < 160 ==> (#[trigger] sprite_buffer[k]) == self@.sprites_at(k),
                forall|k: int|
                    0 <= k < 160 ==> ((#[trigger] sprite_buffer[k]) matches Some(p)
                        ==> p.shade < 4),
                forall|k: int| 0 <= k < x ==> (#[trigger] shades[k]) == self@.pixel_shade(k),
                forall|k: int| 0 <= k < x ==> (#[trigger] shades[k]) < 4,
            decreases 160 - x,
        {
            let field: u8 = match window_buffer[x] {
                Some(color) => color,
                None => bg_buffer[x],
            };
            assert(field == self@.field_color(x as int));
            let shade = match sprite_buffer[x] {
                Some(pixel) => {
                    if !pixel.behind || field == 0 {
                        pixel.shade
                    } else {
                        self.decode_pixel(field, self.bg_palette, false)
                    }
                },
                None => self.decode_pixel(field, self.bg_palette, false),
            };
            shades[x] = shade;
            x = x + 1;
        }
        shades
    }

    /// Draw the current scanline into the frame buffer.
    fn scanline_render(&mut self)
        requires
            old(self).wf(),
            old(self).ly < SCREEN_HEIGHT,
        ensures
            final(self).wf(),
            final(self)@ == old(self)@.render_line(),
    {
        proof {
            lemma_bit_tests(self.lcdc);
        }
        let shades = self.scanline_pixels();
        let drawn = self.lcdc & 0x1 != 0 && self.is_window_enabled() && self.wx <= 166 && self.wy
            <= self.ly;
        write_line(&mut self.screen_buffer, self.ly as usize, &shades);
        if drawn {
            self.window_lc = self.window_lc.wrapping_add(1);
        }
        proof {
            let start = old(self).ly as int * 640;
            assert forall|i: int| 0 <= i < 92160 implies self@.screen[i] == old(self)@.render_line().screen[i] by {
                if start <= i < start + 640 {
                    assert(self.screen_buffer[i] == (if (i - start) % 4 == 3 {
                        0xFFu8
                    } else {
                        gray_of(shades[(i - start) / 4])
                    }));
                } else {
                    assert(self.screen_buffer[i] == old(self).screen_buffer[i]);
                }
            }
            assert(self@ =~= old(self)@.render_line());
        }
    }

    /// The level of the STAT interrupt line.
    fn stat_level(&self) -> (level: bool)
        requires
            self.wf(),
        ensures
            level == self@.stat_signal(),
    {
        proof {
            lemma_bit_tests(self.stat);
        }
        let mode = self.mode_bits();
        self.is_lcd_enabled() && ((self.stat & 0b1000 != 0 && mode == 0) || (self.stat
            & 0b1_0000 != 0 && mode == 1) || (self.stat & 0b10_0000 != 0 && mode == 2)
            || self.check_lyc_interrupt())
    }

    /// Whether LY equals LYC and that coincidence is selected as a source
    /// of the LCD interrupt.
    fn check_lyc_interrupt(&self) -> (selected: bool)
        ensures
            selected == (self@.coincidence() && bit(self.stat, 6)),
    {
        proof {
            lemma_bit_tests(self.stat);
        }
        self.ly == self.lyc && self.stat & 0b100_0000 != 0
    }

    /// Let one T-cycle pass. The results say whether the vertical-blanking
    /// interrupt and the LCD interrupt were requested.
    fn step(&mut self) -> (raised: (bool, bool))
        requires
            old(self).wf(),
        ensures
            final(self).wf(),
            final(self)@ == old(self)@.step().ppu,
            raised.0 == (old(self)@.step().vblanks == 1),
            raised.1 == (old(self)@.step().lcds == 1),
            old(self)@.step().vblanks <= 1,
            old(self)@.step().lcds <= 1,
    {
        if !self.is_lcd_enabled() {
            return (false, false);
        }
        let mut vblank = false;
        if self.mode_cycles + 1 == LINE_CYCLES {
            vblank = self.ly == 143;
            self.ly = if self.ly == FRAME_LINES - 1 {
                0
            } else {
                self.ly + 1
            };
            self.mode_cycles = 0;
            if self.ly == 0 {
                self.window_lc = 0;
            }
            if self.ly < 144 {
                self.build_sprite_cache();
            }
        } else if self.mode_cycles + 1 == HBLANK_START && self.ly < 144 {
            self.scanline_render();
            self.mode_cycles = self.mode_cycles + 1;
        } else {
            self.mode_cycles = self.mode_cycles + 1;
        }
        assert(self@ =~= old(self)@.advance());
        let level = self.stat_level();
        let lcd = level && !self.stat_line;
        self.stat_line = level;
        assert(self@ =~= old(self)@.step().ppu);
        (vblank, lcd)
    }

    /// Let `_cycles` T-cycles pass and report the interrupts that were
    /// requested meanwhile.
    pub fn tick(&mut self, _cycles: u16) -> (raised_interrupts: Vec<Interrupt>)
        requires
            old(self).wf(),
        ensures
            final(self).wf(),
            final(self)@ == old(self)@.tick(_cycles as nat).ppu,
            raised_interrupts@ == interrupts_of(old(self)@.tick(_cycles as nat)),
    {
        let mut raised_interrupts: Vec<Interrupt> = Vec::new();
        let mut vblank = false;
        let mut lcd = false;
        let mut done: u16 = 0;
        while done < _cycles
            invariant
                done <= _cycles,
                self.wf(),
                self@ == old(self)@.tick(done as nat).ppu,
                vblank == (old(self)@.tick(done as nat).vblanks > 0),
                lcd == (old(self)@.tick(done as nat).lcds > 0),
            decreases _cycles - done,
        {
            let (v, l) = self.step();
            vblank = vblank || v;
            lcd = lcd || l;
            done = done + 1;
        }
        if vblank {
            raised_interrupts.push(Interrupt::VBlank);
        }
        if lcd {
            raised_interrupts.push(Interrupt::LCD);
        }
        assert(raised_interrupts@ =~= interrupts_of(old(self)@.tick(_cycles as nat)));
        raised_interrupts
    }

    /// The shade that a palette gives to a colour number. For a sprite,
    /// whose colour 0 is transparent, colour 0 is left as it is.
    pub fn decode_pixel(&self, color: u8, pallete: u8, transparent: bool) -> (shade: u8)
        requires
            color < 4,
        ensures
            shade == (if transparent && color == 0 {
                0
            } else {
                palette_shade(pallete, color)
            }),
            shade < 4,
    {
        if transparent && color == 0 {
            0
        } else {
            shade_of(pallete, color)
        }
    }

    /// The gray RGB value that a palette gives to a pixel of a tile.
    pub fn decode_pixel_color(&self, pixel: Pixel, pallete: u8, transparent: bool) -> (rgb: (
        u8,
        u8,
        u8,
    ))
        ensures
            rgb.0 == gray_of(
                if transparent && pixel == Pixel::Zero {
                    0
                } else {
                    palette_shade(pallete, pixel.number())
                },
            ),
            rgb.1 == rgb.0,
            rgb.2 == rgb.0,
    {
        let shade = self.decode_pixel(u8::from(pixel), pallete, transparent);
        let gray_value = gray_value(shade);
        (gray_value, gray_value, gray_value)
    }

    /// The gray RGB value of a background pixel.
    pub fn decode_bg_pixel(&self, pixel: Pixel) -> (rgb: (u8, u8, u8))
        ensures
            rgb.0 == gray_of(palette_shade(self.bg_palette, pixel.number())),
            rgb.1 == rgb.0,
            rgb.2 == rgb.0,
    {
        self.decode_pixel_color(pixel, self.bg_palette, false)
    }

    /// Lay the 384 decoded tiles out as a picture of 128 by 192 pixels, 16
    /// tiles to a row, in the first 192 rows of `buffer`.
    pub fn get_debug_display(&self, buffer: &mut [[Pixel; 128]; 256])
        ensures
            forall|y: int, x: int|
                0 <= y < 192 && 0 <= x < 128 ==> (#[trigger] final(buffer)[y][x])
                    == self.tile_set[y / 8 * 16 + x / 8][y % 8][x % 8],
            forall|y: int| 192 <= y < 256 ==> (#[trigger] final(buffer)[y]) == old(buffer)[y],
    {
        let mut y: usize = 0;
        while y < 192
            invariant
                y <= 192,
                forall|j: int, x: int|
                    0 <= j < y && 0 <= x < 128 ==> (#[trigger] buffer[j][x])
                        == self.tile_set[j / 8 * 16 + x / 8][j % 8][x % 8],
                forall|j: int| y <= j < 256 ==> (#[trigger] buffer[j]) == old(buffer)[j],
            decreases 192 - y,
        {
            let mut row: [Pixel; 128] = buffer[y];
            let mut x: usize = 0;
            while x < 128
                invariant
                    x <= 128,
                    y < 192,
                    forall|k: int|
                        0 <= k < x ==> (#[trigger] row[k]) == self.tile_set[y as int / 8 * 16
                            + k / 8][y as int % 8][k % 8],
                decreases 128 - x,
            {
                let tile: Tile = self.tile_set[y / 8 * 16 + x / 8];
                row[x] = tile[y % 8][x % 8];
                x = x + 1;
            }
            buffer[y] = row;
            y = y + 1;
        }
    }

    /// A decoded tile as 64 gray RGBA pixels, row by row.
    pub fn tile_to_vec(tile: &Tile) -> (vec: Vec<u8>)
        ensures
            vec@.len() == 256,
            forall|i: int|
                0 <= i < 256 ==> (#[trigger] vec@[i]) == (if i % 4 == 3 {
                    0xFFu8
                } else {
                    gray_of(tile[i / 32][i / 4 % 8].number())
                }),
    {
        let mut vec: Vec<u8> = Vec::with_capacity(64 * 4);
        let mut n: usize = 0;
        while n < 64
            invariant
                n <= 64,
                vec@.len() == 4 * n,
                forall|i: int|
                    0 <= i < 4 * n ==> (#[trigger] vec@[i]) == (if i % 4 == 3 {
                        0xFFu8
                    } else {
                        gray_of(tile[i / 32][i / 4 % 8].number())
                    }),
            decreases 64 - n,
        {
            let pixel = tile[n / 8][n % 8];
            let gray_value = pixel.rgb_value();
            vec.push(gray_value);
            vec.push(gray_value);
            vec.push(gray_value);
            vec.push(0xFF);
            n = n + 1;
        }
        vec
    }
}

} // verus!
