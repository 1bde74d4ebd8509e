//! The pixel-processing unit as a mathematical object: its state, what
//! reads and writes of its addresses do, how it moves from one T-cycle to
//! the next, and which colour every pixel of a scanline gets.

use vstd::prelude::*;
use crate::gameboy::bits::bit;
use crate::gameboy::pixel::{gray_of, palette_shade};

verus! {

/// The width of the screen in pixels.
pub const SCREEN_WIDTH: usize = 160;

/// The height of the screen in pixels.
pub const SCREEN_HEIGHT: usize = 144;

/// The number of bytes in the frame buffer: four for each pixel.
pub const SCREEN_BYTES: usize = 92160;

/// The number of T-cycles in a scanline.
pub const LINE_CYCLES: u16 = 456;

/// The number of scanlines in a frame: 144 visible ones and 10 of vertical
/// blanking.
pub const FRAME_LINES: u8 = 154;

/// The number of T-cycles in a frame.
pub const FRAME_CYCLES: u32 = 70224;

/// The T-cycle of a visible scanline at which the sprite search ends and
/// drawing begins.
pub const DRAWING_START: u16 = 80;

/// The T-cycle of a visible scanline at which drawing ends and horizontal
/// blanking begins.
pub const HBLANK_START: u16 = 252;

/// An entry of the sprite table, together with its place in the table.
#[derive(Clone, Copy, Debug, PartialEq, Eq, Structural)]
pub struct Sprite {
    /// The sprite's top edge is at screen line `y - 16`.
    pub y: u8,
    /// The sprite's left edge is at screen column `x - 8`.
    pub x: u8,
    /// The number of the sprite's tile.
    pub tile_index: u8,
    /// Bit 7: behind the background; bit 6: flipped top to bottom; bit 5:
    /// flipped left to right; bit 4: second sprite palette.
    pub attributes: u8,
    /// The number of the entry in the sprite table, 0 to 39.
    pub oam_index: u8,
}

/// What a sprite puts on one pixel.
#[derive(Clone, Copy, Debug, PartialEq, Eq, Structural)]
pub struct SpritePixel {
    /// The shade, after the sprite's palette.
    pub shade: u8,
    /// Whether the sprite gives way to a background that is not colour 0.
    pub behind: bool,
}

/// The state of the pixel-processing unit.
#[verifier::ext_equal]
pub struct PpuState {
    /// Video RAM, 0x8000 to 0x9FFF: tile data in the first 0x1800 bytes,
    /// then the two tile maps of 0x400 bytes each.
    pub vram: Seq<u8>,
    /// The sprite table, 0xFE00 to 0xFE9F.
    pub oam: Seq<u8>,
    pub lcdc: u8,
    /// The four interrupt-select bits of STAT, in bits 3 to 6.
    pub stat: u8,
    pub scy: u8,
    pub scx: u8,
    pub ly: u8,
    pub lyc: u8,
    pub bgp: u8,
    pub obp0: u8,
    pub obp1: u8,
    pub wy: u8,
    pub wx: u8,
    /// The T-cycle within the scanline, 0 to 455.
    pub dot: u16,
    /// The sprites found for the current scanline, in drawing order.
    pub sprites: Seq<Sprite>,
    /// The number of scanlines of this frame on which the window was drawn.
    pub window_line: u8,
    /// The level of the STAT interrupt line after the last T-cycle.
    pub stat_line: bool,
    /// The frame buffer: for each pixel, row by row, red, green, blue and
    /// 0xFF.
    pub screen: Seq<u8>,
}

/// What one T-cycle, or a number of them, does: the new state and how often
/// each of the two interrupts was requested.
pub struct PpuOutcome {
    pub ppu: PpuState,
    pub vblanks: nat,
    pub lcds: nat,
}

/// The colour number of one pixel of a tile: the low bit comes from the
/// first byte of the row, the high bit from the second; the leftmost pixel
/// is bit 7.
pub open spec fn tile_pixel(vram: Seq<u8>, tile: int, row: int, col: int) -> u8 {
    let lo = vram[tile * 16 + row * 2];
    let hi = vram[tile * 16 + row * 2 + 1];
    ((if bit(hi, 7 - col) { 2int } else { 0 }) + (if bit(lo, 7 - col) { 1int } else { 0 })) as u8
}

/// The entry `index` of the sprite table.
pub open spec fn sprite_at(oam: Seq<u8>, index: int) -> Sprite {
    Sprite {
        y: oam[4 * index],
        x: oam[4 * index + 1],
        tile_index: oam[4 * index + 2],
        attributes: oam[4 * index + 3],
        oam_index: index as u8,
    }
}

/// Whether a sprite of the given height shows on scanline `ly`. A sprite at
/// column 0 never shows.
pub open spec fn sprite_on_line(sprite: Sprite, ly: u8, height: int) -> bool {
    sprite.x > 0 && ly + 16 >= sprite.y && ly + 16 < sprite.y + height
}

/// Whether `a` is drawn before `b`: it is further left, or at the same
/// column and earlier in the sprite table.
pub open spec fn draws_before(a: Sprite, b: Sprite) -> bool {
    a.x < b.x || (a.x == b.x && a.oam_index < b.oam_index)
}

/// Whether the sprites are in drawing order.
pub open spec fn in_drawing_order(sprites: Seq<Sprite>) -> bool {
    forall|i: int, j: int| 0 <= i < j < sprites.len() ==> draws_before(sprites[i], sprites[j])
}

/// `sprites` with `sprite` put after the last entry that is not further
/// right than it.
pub open spec fn insert_sprite(sprites: Seq<Sprite>, sprite: Sprite) -> Seq<Sprite>
    decreases sprites.len(),
{
    if sprites.len() == 0 || sprites.last().x <= sprite.x {
        sprites.push(sprite)
    } else {
        insert_sprite(sprites.drop_last(), sprite).push(sprites.last())
    }
}

/// The sprites for scanline `ly` among the first `count` entries of the
/// table: the first ten that show on the line, in drawing order.
pub open spec fn scan_sprites(oam: Seq<u8>, ly: u8, height: int, count: int) -> Seq<Sprite>
    decreases count,
{
    if count <= 0 {
        Seq::empty()
    } else {
        let found = scan_sprites(oam, ly, height, count - 1);
        let sprite = sprite_at(oam, count - 1);
        if found.len() < 10 && sprite_on_line(sprite, ly, height) {
            insert_sprite(found, sprite)
        } else {
            found
        }
    }
}

/// The height of sprites in pixels that LCDC selects: 8 or 16.
pub open spec fn sprite_height_of(lcdc: u8) -> int {
    if bit(lcdc, 2) {
        16
    } else {
        8
    }
}

impl PpuState {
    /// The sizes of the memories, the ranges of the counters, and the order
    /// of the sprites that were found for the scanline: at most ten, those
    /// further left first, and of two at the same column the one that comes
    /// first in the sprite table.
    pub open spec fn wf(self) -> bool {
        &&& self.vram.len() == 0x2000
        &&& self.oam.len() == 0xA0
        &&& self.screen.len() == SCREEN_BYTES
        &&& self.ly < FRAME_LINES
        &&& self.dot < LINE_CYCLES
        &&& self.sprites.len() <= 10
        &&& in_drawing_order(self.sprites)
        &&& self.stat % 8 == 0
        &&& self.stat < 0x80
        &&& !self.lcd_enabled() ==> self.ly == 0 && self.dot == 0
    }

    /// LCDC bit 7: the display is on.
    pub open spec fn lcd_enabled(self) -> bool {
        bit(self.lcdc, 7)
    }

    /// The height of sprites in pixels: 8, or 16 when LCDC bit 2 is set.
    pub open spec fn sprite_height(self) -> int {
        sprite_height_of(self.lcdc)
    }

    /// The number of the current mode. While the display is off it is 0.
    pub open spec fn mode_number(self) -> u8 {
        if !self.lcd_enabled() {
            0
        } else if self.ly >= SCREEN_HEIGHT {
            1
        } else if self.dot < DRAWING_START {
            2
        } else if self.dot < HBLANK_START {
            3
        } else {
            0
        }
    }

    /// Whether LY equals LYC.
    pub open spec fn coincidence(self) -> bool {
        self.ly == self.lyc
    }

    /// What a read of STAT gives: the mode in bits 0 and 1, the coincidence
    /// of LY and LYC in bit 2, the select bits in bits 3 to 6.
    pub open spec fn stat_byte(self) -> u8 {
        (self.stat + (if self.coincidence() { 4int } else { 0 }) + self.mode_number()) as u8
    }

    /// The level of the STAT interrupt line: whether one of the selected
    /// sources is active. The select bits are bit 3 for mode 0, bit 4 for
    /// mode 1, bit 5 for mode 2 and bit 6 for the coincidence.
    pub open spec fn stat_signal(self) -> bool {
        self.lcd_enabled() && ((bit(self.stat, 3) && self.mode_number() == 0) || (bit(
            self.stat,
            4,
        ) && self.mode_number() == 1) || (bit(self.stat, 5) && self.mode_number() == 2) || (bit(
            self.stat,
            6,
        ) && self.coincidence()))
    }

    /// The processor can reach video RAM except while pixels are drawn.
    pub open spec fn vram_accessible(self) -> bool {
        self.mode_number() != 3
    }

    /// The processor can reach the sprite table during the two blanking
    /// modes.
    pub open spec fn oam_accessible(self) -> bool {
        self.mode_number() == 0 || self.mode_number() == 1
    }

    /// Whether the unit answers at `addr`.
    pub open spec fn owns(addr: int) -> bool {
        (0x8000 <= addr <= 0x9FFF) || (0xFE00 <= addr <= 0xFE9F) || (0xFF40 <= addr <= 0xFF45)
            || (0xFF47 <= addr <= 0xFF4B)
    }

    /// The byte that a read of `addr` gives. Memory that cannot be reached
    /// in the current mode reads as 0xFF.
    pub open spec fn read(self, addr: int) -> u8 {
        if 0x8000 <= addr <= 0x9FFF {
            if self.vram_accessible() {
                self.vram[addr - 0x8000]
            } else {
                0xFF
            }
        } else if 0xFE00 <= addr <= 0xFE9F {
            if self.oam_accessible() {
                self.oam[addr - 0xFE00]
            } else {
                0xFF
            }
        } else if addr == 0xFF40 {
            self.lcdc
        } else if addr == 0xFF41 {
            self.stat_byte()
        } else if addr == 0xFF42 {
            self.scy
        } else if addr == 0xFF43 {
            self.scx
        } else if addr == 0xFF44 {
            self.ly
        } else if addr == 0xFF45 {
            self.lyc
        } else if addr == 0xFF47 {
            self.bgp
        } else if addr == 0xFF48 {
            self.obp0
        } else if addr == 0xFF49 {
            self.obp1
        } else if addr == 0xFF4A {
            self.wy
        } else if addr == 0xFF4B {
            self.wx
        } else {
            0xFF
        }
    }

    /// The state after `value` is written to LCDC. Switching the display
    /// off puts the unit at the start of line 0 and leaves a white screen;
    /// switching it on starts the sprite search of line 0.
    pub open spec fn write_lcdc(self, value: u8) -> PpuState {
        if self.lcd_enabled() && !bit(value, 7) {
            PpuState {
                lcdc: value,
                ly: 0,
                dot: 0,
                window_line: 0,
                sprites: Seq::empty(),
                stat_line: false,
                screen: Seq::new(SCREEN_BYTES as nat, |i: int| 0xFFu8),
                ..self
            }
        } else if !self.lcd_enabled() && bit(value, 7) {
            PpuState {
                lcdc: value,
                ly: 0,
                dot: 0,
                window_line: 0,
                sprites: scan_sprites(self.oam, 0, sprite_height_of(value), 40),
                stat_line: false,
                ..self
            }
        } else {
            PpuState { lcdc: value, ..self }
        }
    }

    /// The state after `value` is written to `addr`. Writes to memory that
    /// cannot be reached in the current mode are dropped, and so are writes
    /// to LY and to the low three bits of STAT.
    pub open spec fn write(self, addr: int, value: u8) -> PpuState {
        if 0x8000 <= addr <= 0x9FFF {
            if self.vram_accessible() {
                PpuState { vram: self.vram.update(addr - 0x8000, value), ..self }
            } else {
                self
            }
        } else if 0xFE00 <= addr <= 0xFE9F {
            if self.oam_accessible() {
                PpuState { oam: self.oam.update(addr - 0xFE00, value), ..self }
            } else {
                self
            }
        } else if addr == 0xFF40 {
            self.write_lcdc(value)
        } else if addr == 0xFF41 {
            PpuState { stat: (value / 8 % 16 * 8) as u8, ..self }
        } else if addr == 0xFF42 {
            PpuState { scy: value, ..self }
        } else if addr == 0xFF43 {
            PpuState { scx: value, ..self }
        } else if addr == 0xFF45 {
            PpuState { lyc: value, ..self }
        } else if addr == 0xFF47 {
            PpuState { bgp: value, ..self }
        } else if addr == 0xFF48 {
            PpuState { obp0: value, ..self }
        } else if addr == 0xFF49 {
            PpuState { obp1: value, ..self }
        } else if addr == 0xFF4A {
            PpuState { wy: value, ..self }
        } else if addr == 0xFF4B {
            PpuState { wx: value, ..self }
        } else {
            self
        }
    }

    /// The state after a transfer has filled the sprite table with `data`.
    /// The transfer does not wait for a mode in which the processor could
    /// write.
    pub open spec fn with_oam(self, data: Seq<u8>) -> PpuState {
        PpuState { oam: data, ..self }
    }

    /// The tile that a tile map entry stands for: with LCDC bit 4 set the
    /// entry counts from tile 0, otherwise it is a signed offset from tile
    /// 256.
    pub open spec fn map_tile(self, entry: u8) -> int {
        if bit(self.lcdc, 4) || entry >= 128 {
            entry as int
        } else {
            256 + entry
        }
    }

    /// Where the background's tile map starts in video RAM.
    pub open spec fn background_map(self) -> int {
        if bit(self.lcdc, 3) {
            0x1C00
        } else {
            0x1800
        }
    }

    /// Where the window's tile map starts in video RAM.
    pub open spec fn window_map(self) -> int {
        if bit(self.lcdc, 6) {
            0x1C00
        } else {
            0x1800
        }
    }

    /// The colour number of the background at column `x` of the current
    /// scanline.
    pub open spec fn background_color(self, x: int) -> u8 {
        let bg_x = (self.scx + x) % 256;
        let bg_y = (self.scy + self.ly) % 256;
        let entry = self.vram[self.background_map() + bg_y / 8 * 32 + bg_x / 8];
        tile_pixel(self.vram, self.map_tile(entry), bg_y % 8, bg_x % 8)
    }

    /// Whether the window shows on the current scanline.
    pub open spec fn window_on_line(self) -> bool {
        bit(self.lcdc, 0) && bit(self.lcdc, 5) && self.wx <= 166 && self.wy <= self.ly
    }

    /// Whether the window covers column `x` of the current scanline.
    pub open spec fn window_covers(self, x: int) -> bool {
        self.window_on_line() && x + 7 >= self.wx
    }

    /// The colour number of the window at column `x` of the current
    /// scanline.
    pub open spec fn window_color(self, x: int) -> u8 {
        let win_x = x + 7 - self.wx;
        let win_y = self.window_line as int;
        let entry = self.vram[self.window_map() + win_y / 8 * 32 + win_x / 8];
        tile_pixel(self.vram, self.map_tile(entry), win_y % 8, win_x % 8)
    }

    /// The colour number of the background or the window at column `x`: the
    /// window where it covers the column, the background elsewhere, and
    /// colour 0 while LCDC bit 0 is clear.
    pub open spec fn field_color(self, x: int) -> u8 {
        if !bit(self.lcdc, 0) {
            0
        } else if self.window_covers(x) {
            self.window_color(x)
        } else {
            self.background_color(x)
        }
    }

    /// The colour number that `sprite` has at column `x` of the current
    /// scanline; 0, which is transparent, where the sprite is not.
    pub open spec fn sprite_color(self, sprite: Sprite, x: int) -> u8 {
        let height = self.sprite_height();
        if !sprite_on_line(sprite, self.ly, height) || !(x < sprite.x <= x + 8) {
            0
        } else {
            let col = x + 8 - sprite.x;
            let row = self.ly + 16 - sprite.y;
            let tile_col = if bit(sprite.attributes, 5) {
                7 - col
            } else {
                col
            };
            let tile_row = if bit(sprite.attributes, 6) {
                height - 1 - row
            } else {
                row
            };
            let tile = if height == 16 {
                sprite.tile_index / 2 * 2 + tile_row / 8
            } else {
                sprite.tile_index as int
            };
            tile_pixel(self.vram, tile, tile_row % 8, tile_col)
        }
    }

    /// What `sprite` puts on column `x`, if anything.
    pub open spec fn sprite_pixel(self, sprite: Sprite, x: int) -> Option<SpritePixel> {
        let color = self.sprite_color(sprite, x);
        if color == 0 {
            None
        } else {
            let palette = if bit(sprite.attributes, 4) {
                self.obp1
            } else {
                self.obp0
            };
            Some(SpritePixel { shade: palette_shade(palette, color), behind: bit(sprite.attributes, 7) })
        }
    }

    /// What the first of `sprites` that is not transparent at column `x`
    /// puts there.
    pub open spec fn sprite_layer(self, sprites: Seq<Sprite>, x: int) -> Option<SpritePixel>
        decreases sprites.len(),
    {
        if sprites.len() == 0 {
            None
        } else {
            let earlier = self.sprite_layer(sprites.drop_last(), x);
            if earlier.is_some() {
                earlier
            } else {
                self.sprite_pixel(sprites.last(), x)
            }
        }
    }

    /// What the sprites of the scanline put on column `x`; nothing while
    /// LCDC bit 1 is clear.
    pub open spec fn sprites_at(self, x: int) -> Option<SpritePixel> {
        if bit(self.lcdc, 1) {
            self.sprite_layer(self.sprites, x)
        } else {
            None
        }
    }

    /// The shade of column `x` of the current scanline: the sprite's, if
    /// there is one and it is in front or the field is colour 0; otherwise
    /// the field's colour through the background palette.
    pub open spec fn pixel_shade(self, x: int) -> u8 {
        let field = self.field_color(x);
        match self.sprites_at(x) {
            Some(pixel) => if !pixel.behind || field == 0 {
                pixel.shade
            } else {
                palette_shade(self.bgp, field)
            },
            None => palette_shade(self.bgp, field),
        }
    }

    /// The byte `k` of the current scanline in the frame buffer.
    pub open spec fn line_byte(self, k: int) -> u8 {
        if k % 4 == 3 {
            0xFF
        } else {
            gray_of(self.pixel_shade(k / 4))
        }
    }

    /// The state after the current scanline is drawn into the frame buffer.
    /// The window's line counter goes up if the window showed.
    pub open spec fn render_line(self) -> PpuState {
        let start = self.ly as int * 640;
        PpuState {
            screen: Seq::new(
                SCREEN_BYTES as nat,
                |i: int|
                    if start <= i < start + 640 {
                        self.line_byte(i - start)
                    } else {
                        self.screen[i]
                    },
            ),
            window_line: if self.window_on_line() {
                ((self.window_line + 1) % 256) as u8
            } else {
                self.window_line
            },
            ..self
        }
    }

    /// The state at the start of the next scanline.
    pub open spec fn next_line(self) -> PpuState {
        let ly: u8 = if self.ly == FRAME_LINES - 1 {
            0
        } else {
            (self.ly + 1) as u8
        };
        PpuState {
            ly,
            dot: 0,
            window_line: if ly == 0 {
                0
            } else {
                self.window_line
            },
            sprites: if ly < SCREEN_HEIGHT {
                scan_sprites(self.oam, ly, self.sprite_height(), 40)
            } else {
                self.sprites
            },
            ..self
        }
    }

    /// The state after one T-cycle, before the interrupt line is looked at.
    pub open spec fn advance(self) -> PpuState {
        if self.dot + 1 == LINE_CYCLES {
            self.next_line()
        } else if self.dot + 1 == HBLANK_START && self.ly < SCREEN_HEIGHT {
            PpuState { dot: (self.dot + 1) as u16, ..self.render_line() }
        } else {
            PpuState { dot: (self.dot + 1) as u16, ..self }
        }
    }

    /// What one T-cycle does. While the display is off, nothing. Otherwise
    /// the unit advances; the vertical-blanking interrupt is requested when
    /// line 144 begins, and the LCD interrupt when the STAT line rises.
    pub open spec fn step(self) -> PpuOutcome {
        if !self.lcd_enabled() {
            PpuOutcome { ppu: self, vblanks: 0, lcds: 0 }
        } else {
            let moved = self.advance();
            let level = moved.stat_signal();
            PpuOutcome {
                ppu: PpuState { stat_line: level, ..moved },
                vblanks: if self.dot + 1 == LINE_CYCLES && self.ly == SCREEN_HEIGHT - 1 {
                    1
                } else {
                    0
                },
                lcds: if level && !self.stat_line {
                    1
                } else {
                    0
                },
            }
        }
    }

    /// What `cycles` T-cycles do.
    pub open spec fn tick(self, cycles: nat) -> PpuOutcome
        decreases cycles,
    {
        if cycles == 0 {
            PpuOutcome { ppu: self, vblanks: 0, lcds: 0 }
        } else {
            let before = self.tick((cycles - 1) as nat);
            let last = before.ppu.step();
            PpuOutcome {
                ppu: last.ppu,
                vblanks: before.vblanks + last.vblanks,
                lcds: before.lcds + last.lcds,
            }
        }
    }

    /// How far into the frame the unit is, in T-cycles.
    pub open spec fn position(self) -> int {
        self.ly * 456 + self.dot
    }
}

/// Putting a sprite that comes later in the table into sprites that are in
/// drawing order leaves them in drawing order, one longer, and holding what
/// they held and the new sprite.
pub proof fn lemma_insert_sprite(sprites: Seq<Sprite>, sprite: Sprite)
    requires
        in_drawing_order(sprites),
        forall|i: int| 0 <= i < sprites.len() ==> sprites[i].oam_index < sprite.oam_index,
    ensures
        in_drawing_order(insert_sprite(sprites, sprite)),
        insert_sprite(sprites, sprite).len() == sprites.len() + 1,
        forall|k: int|
            0 <= k < sprites.len() + 1 ==> (#[trigger] insert_sprite(sprites, sprite)[k] == sprite
                || exists|i: int| 0 <= i < sprites.len() && sprites[i] == insert_sprite(
                    sprites,
                    sprite,
                )[k]),
        exists|k: int|
            0 <= k < sprites.len() + 1 && insert_sprite(sprites, sprite)[k] == sprite,
    decreases sprites.len(),
{
    let result = insert_sprite(sprites, sprite);
    if sprites.len() == 0 || sprites.last().x <= sprite.x {
        assert(result == sprites.push(sprite));
        assert forall|i: int, j: int| 0 <= i < j < result.len() implies draws_before(
            result[i],
            result[j],
        ) by {
            if j == sprites.len() {
                if i < sprites.len() - 1 {
                    assert(draws_before(sprites[i], sprites[sprites.len() - 1]));
                }
            }
        }
        assert(result[sprites.len() as int] == sprite);
    } else {
        let rest = sprites.drop_last();
        let last = sprites.last();
        assert forall|i: int, j: int| 0 <= i < j < rest.len() implies draws_before(
            rest[i],
            rest[j],
        ) by {
            assert(rest[i] == sprites[i] && rest[j] == sprites[j]);
        }
        assert forall|i: int| 0 <= i < rest.len() implies rest[i].oam_index
            < sprite.oam_index by {
            assert(rest[i] == sprites[i]);
        }
        lemma_insert_sprite(rest, sprite);
        let inner = insert_sprite(rest, sprite);
        assert(result == inner.push(last));
        assert forall|i: int, j: int| 0 <= i < j < result.len() implies draws_before(
            result[i],
            result[j],
        ) by {
            if j == inner.len() {
                assert(result[j] == last);
                assert(result[i] == inner[i]);
                if inner[i] == sprite {
                } else {
                    let w = choose|w: int| 0 <= w < rest.len() && rest[w] == inner[i];
                    assert(rest[w] == sprites[w]);
                    assert(draws_before(sprites[w], sprites[sprites.len() - 1]));
                }
            } else {
                assert(result[i] == inner[i] && result[j] == inner[j]);
            }
        }
        assert forall|k: int| 0 <= k < sprites.len() + 1 implies (#[trigger] result[k] == sprite
            || exists|i: int| 0 <= i < sprites.len() && sprites[i] == result[k]) by {
            if k == inner.len() {
                assert(sprites[sprites.len() - 1] == result[k]);
            } else {
                assert(result[k] == inner[k]);
                if inner[k] != sprite {
                    let w = choose|w: int| 0 <= w < rest.len() && rest[w] == inner[k];
                    assert(sprites[w] == result[k]);
                }
            }
        }
        let at = choose|k: int| 0 <= k < rest.len() + 1 && inner[k] == sprite;
        assert(result[at] == sprite);
    }
}

/// The sprites found for a scanline are at most ten, they are in drawing
/// order, each of them shows on the line, and each is an entry of the
/// table.
pub proof fn lemma_scan_sprites(oam: Seq<u8>, ly: u8, height: int, count: int)
    requires
        0 <= count <= 40,
    ensures
        scan_sprites(oam, ly, height, count).len() <= 10,
        scan_sprites(oam, ly, height, count).len() <= count,
        in_drawing_order(scan_sprites(oam, ly, height, count)),
        forall|k: int|
            0 <= k < scan_sprites(oam, ly, height, count).len() ==> {
                let sprite = #[trigger] scan_sprites(oam, ly, height, count)[k];
                &&& sprite.oam_index < count
                &&& sprite == sprite_at(oam, sprite.oam_index as int)
                &&& sprite_on_line(sprite, ly, height)
            },
    decreases count,
{
    if count > 0 {
        lemma_scan_sprites(oam, ly, height, count - 1);
        let found = scan_sprites(oam, ly, height, count - 1);
        let sprite = sprite_at(oam, count - 1);
        if found.len() < 10 && sprite_on_line(sprite, ly, height) {
            lemma_insert_sprite(found, sprite);
        }
    }
}

/// Time moves the unit through the frame and changes nothing that the
/// program has set: after `cycles` T-cycles with the display on, the
/// position has advanced by `cycles`, wrapping at the end of the frame.
pub proof fn lemma_tick_position(ppu: PpuState, cycles: nat)
    requires
        ppu.wf(),
        ppu.lcd_enabled(),
    ensures
        ppu.tick(cycles).ppu.wf(),
        ppu.tick(cycles).ppu.lcdc == ppu.lcdc,
        ppu.tick(cycles).ppu.position() == (ppu.position() + cycles) % (FRAME_CYCLES as int),
        ppu.tick(cycles).vblanks == (ppu.position() + cycles + 4560) / (FRAME_CYCLES as int) - (
        ppu.position() + 4560) / (FRAME_CYCLES as int),
    decreases cycles,
{
    if cycles > 0 {
        lemma_tick_position(ppu, (cycles - 1) as nat);
        let earlier = ppu.tick((cycles - 1) as nat);
        let before = earlier.ppu;
        lemma_step_position(before);
        assert(ppu.tick(cycles).ppu == before.step().ppu);
        assert(ppu.tick(cycles).vblanks == earlier.vblanks + before.step().vblanks);
        lemma_frame_arithmetic(ppu.position(), cycles as int);
    }
}

/// Counting T-cycles modulo the length of a frame, and counting how often
/// line 144 is reached.
proof fn lemma_frame_arithmetic(start: int, cycles: int)
    requires
        0 <= start < 70224,
        cycles >= 1,
    ensures
        ({
            let before = (start + cycles - 1) % 70224;
            &&& (if before + 1 == 70224 {
                0
            } else {
                before + 1
            }) == (start + cycles) % 70224
            &&& (start + cycles - 1 + 4560) / 70224 - (start + 4560) / 70224 + (if before + 1
                == 65664 {
                1int
            } else {
                0int
            }) == (start + cycles + 4560) / 70224 - (start + 4560) / 70224
        }),
{
}

/// One T-cycle with the display on moves the position by one and requests
/// the vertical-blanking interrupt exactly when line 144 is reached.
pub proof fn lemma_step_position(ppu: PpuState)
    requires
        ppu.wf(),
        ppu.lcd_enabled(),
    ensures
        ppu.step().ppu.wf(),
        ppu.step().ppu.lcdc == ppu.lcdc,
        ppu.step().ppu.oam == ppu.oam,
        ppu.step().ppu.vram == ppu.vram,
        ppu.step().ppu.position() == (if ppu.position() + 1 == FRAME_CYCLES {
            0
        } else {
            ppu.position() + 1
        }),
        ppu.step().vblanks == (if ppu.position() + 1 == 65664 {
            1nat
        } else {
            0nat
        }),
{
    if ppu.dot + 1 == LINE_CYCLES {
        let next = ppu.next_line();
        lemma_scan_sprites(ppu.oam, next.ly, ppu.sprite_height(), 40);
    }
}

/// While the display is off, time does nothing.
pub proof fn lemma_tick_display_off(ppu: PpuState, cycles: nat)
    requires
        !ppu.lcd_enabled(),
    ensures
        ppu.tick(cycles) == (PpuOutcome { ppu, vblanks: 0, lcds: 0 }),
    decreases cycles,
{
    if cycles > 0 {
        lemma_tick_display_off(ppu, (cycles - 1) as nat);
    }
}

/// Letting `a` T-cycles pass and then `b` more is letting `a + b` pass, and
/// the interrupt requests add up.
pub proof fn lemma_ppu_tick_additive(ppu: PpuState, a: nat, b: nat)
    ensures
        ppu.tick(a).ppu.tick(b).ppu == ppu.tick(a + b).ppu,
        ppu.tick(a).vblanks + ppu.tick(a).ppu.tick(b).vblanks == ppu.tick(a + b).vblanks,
        ppu.tick(a).lcds + ppu.tick(a).ppu.tick(b).lcds == ppu.tick(a + b).lcds,
    decreases b,
{
    if b > 0 {
        lemma_ppu_tick_additive(ppu, a, (b - 1) as nat);
    }
}

} // verus!
