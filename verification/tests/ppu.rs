use emulator::gameboy::interrupt::Interrupt;
use emulator::gameboy::pixel::{gray_value, shade_of, Mode, Pixel};
use emulator::gameboy::ppu::Tile;
use emulator::{Bus, PPU};

fn write(ppu: &mut PPU, addr: usize, value: u8) {
    ppu.write_byte(0, addr, value);
}

fn read(ppu: &PPU, addr: usize) -> u8 {
    ppu.read_byte(0, addr)
}

fn pixel(ppu: &PPU, x: usize, y: usize) -> [u8; 4] {
    let display = ppu.get_display();
    let at = (y * 160 + x) * 4;
    [display[at], display[at + 1], display[at + 2], display[at + 3]]
}

fn gray(shade: u8) -> [u8; 4] {
    let value = [255u8, 170, 85, 0][shade as usize];
    [value, value, value, 0xFF]
}

fn fill_tile(ppu: &mut PPU, tile: usize, low: u8, high: u8) {
    for row in 0..8 {
        write(ppu, 0x8000 + tile * 16 + row * 2, low);
        write(ppu, 0x8000 + tile * 16 + row * 2 + 1, high);
    }
}

fn run(ppu: &mut PPU, mut cycles: u32) -> Vec<Interrupt> {
    let mut raised = Vec::new();
    while cycles > 0 {
        let now = if cycles > 60000 { 60000 } else { cycles };
        for interrupt in ppu.tick(now as u16) {
            raised.push(interrupt);
        }
        cycles -= now;
    }
    raised
}

#[test]
fn ppu_ly_reaches_144_after_65664_cycles() {
    let mut bus = Bus::new();
    bus.ram_write_byte(0xFF40, 0x80);
    let mut elapsed: u32 = 0;
    while elapsed < 65660 {
        bus.tick(4);
        elapsed += 4;
    }
    assert_eq!(bus.ram_read_byte(0xFF44), 143);
    assert_eq!(bus.ram_read_byte(0xFF0F) & 0x01, 0x00);
    bus.tick(4);
    assert_eq!(bus.ram_read_byte(0xFF44), 144);
    assert_eq!(bus.ram_read_byte(0xFF0F) & 0x01, 0x01);
}

#[test]
fn ppu_starts_switched_off_with_a_white_screen() {
    let mut ppu = PPU::new();
    assert!(!ppu.is_lcd_enabled());
    assert!(ppu.get_display().iter().all(|byte| *byte == 0xFF));
    assert_eq!(ppu.get_display().len(), 160 * 144 * 4);
    assert_eq!(read(&ppu, 0xFF44), 0);
    // Time does nothing while the display is off.
    assert_eq!(run(&mut ppu, 100_000), vec![]);
    assert_eq!(read(&ppu, 0xFF44), 0);
    assert_eq!(read(&ppu, 0xFF41) & 0x03, 0);
}

#[test]
fn ppu_goes_through_the_modes_of_a_line() {
    let mut ppu = PPU::new();
    write(&mut ppu, 0xFF40, 0x80);
    assert_eq!(ppu.get_mode(), Mode::OAM);
    ppu.tick(79);
    assert_eq!(ppu.get_mode(), Mode::OAM);
    assert_eq!(read(&ppu, 0xFF41) & 0x03, 2);
    ppu.tick(1);
    assert_eq!(ppu.get_mode(), Mode::Drawing);
    assert_eq!(read(&ppu, 0xFF41) & 0x03, 3);
    ppu.tick(171);
    assert_eq!(ppu.get_mode(), Mode::Drawing);
    ppu.tick(1);
    assert_eq!(ppu.get_mode(), Mode::HBlank);
    assert_eq!(read(&ppu, 0xFF41) & 0x03, 0);
    ppu.tick(203);
    assert_eq!(ppu.get_mode(), Mode::HBlank);
    assert_eq!(read(&ppu, 0xFF44), 0);
    ppu.tick(1);
    assert_eq!(ppu.get_mode(), Mode::OAM);
    assert_eq!(read(&ppu, 0xFF44), 1);
}

#[test]
fn ppu_line_counter_runs_from_0_to_153() {
    let mut ppu = PPU::new();
    write(&mut ppu, 0xFF40, 0x80);
    for line in 0..154u32 {
        assert_eq!(read(&ppu, 0xFF44) as u32, line);
        let mode = read(&ppu, 0xFF41) & 0x03;
        assert_eq!(mode, if line < 144 { 2 } else { 1 });
        ppu.tick(456);
    }
    assert_eq!(read(&ppu, 0xFF44), 0);
    assert_eq!(ppu.get_mode(), Mode::OAM);
    // Writes to LY are dropped.
    ppu.tick(456 * 5);
    write(&mut ppu, 0xFF44, 0x77);
    assert_eq!(read(&ppu, 0xFF44), 5);
}

#[test]
fn ppu_requests_one_vblank_in_every_frame() {
    for offset in [0u32, 1, 455, 456, 65663, 65664, 65665, 70223, 12345] {
        let mut ppu = PPU::new();
        write(&mut ppu, 0xFF40, 0x80);
        run(&mut ppu, offset);
        let mut vblanks = 0;
        let mut elapsed = 0;
        while elapsed < 70224 {
            for interrupt in ppu.tick(1) {
                if interrupt == Interrupt::VBlank {
                    vblanks += 1;
                }
            }
            elapsed += 1;
        }
        assert_eq!(vblanks, 1, "offset {}", offset);
        let in_one_go = run(&mut ppu, 70224);
        assert_eq!(in_one_go.iter().filter(|i| **i == Interrupt::VBlank).count(), 1);
    }
}

#[test]
fn ppu_tick_reports_vblank_before_lcd() {
    let mut ppu = PPU::new();
    write(&mut ppu, 0xFF40, 0x80);
    // The select bit for mode 1.
    write(&mut ppu, 0xFF41, 0x10);
    run(&mut ppu, 65663);
    assert_eq!(ppu.tick(1), vec![Interrupt::VBlank, Interrupt::LCD]);
    assert_eq!(ppu.tick(1), vec![]);
}

#[test]
fn stat_interrupt_comes_on_a_rising_edge_of_the_selected_sources() {
    // Mode 0 selected.
    let mut ppu = PPU::new();
    write(&mut ppu, 0xFF40, 0x80);
    write(&mut ppu, 0xFF41, 0x08);
    assert_eq!(run(&mut ppu, 251), vec![]);
    assert_eq!(ppu.tick(1), vec![Interrupt::LCD]);
    assert_eq!(run(&mut ppu, 203), vec![]);
    // The next line's mode 0 gives the next one.
    assert_eq!(run(&mut ppu, 456), vec![Interrupt::LCD]);

    // Mode 2 selected: once for each visible line.
    let mut oam = PPU::new();
    write(&mut oam, 0xFF40, 0x80);
    write(&mut oam, 0xFF41, 0x20);
    assert_eq!(oam.tick(1), vec![Interrupt::LCD]);
    assert_eq!(run(&mut oam, 454), vec![]);
    assert_eq!(oam.tick(1), vec![Interrupt::LCD]);

    // Coincidence selected.
    let mut lyc = PPU::new();
    write(&mut lyc, 0xFF40, 0x80);
    write(&mut lyc, 0xFF41, 0x40);
    write(&mut lyc, 0xFF45, 3);
    assert_eq!(read(&lyc, 0xFF41) & 0x04, 0x00);
    assert_eq!(run(&mut lyc, 3 * 456 - 1), vec![]);
    assert_eq!(lyc.tick(1), vec![Interrupt::LCD]);
    assert_eq!(read(&lyc, 0xFF41) & 0x04, 0x04);
    assert_eq!(run(&mut lyc, 455), vec![]);
    lyc.tick(1);
    assert_eq!(read(&lyc, 0xFF41) & 0x04, 0x00);
}

#[test]
fn stat_keeps_only_its_select_bits() {
    let mut ppu = PPU::new();
    write(&mut ppu, 0xFF41, 0xFF);
    // LY = LYC = 0, mode 0.
    assert_eq!(read(&ppu, 0xFF41), 0x7C);
    write(&mut ppu, 0xFF41, 0x00);
    assert_eq!(read(&ppu, 0xFF41), 0x04);
    write(&mut ppu, 0xFF45, 9);
    assert_eq!(read(&ppu, 0xFF41), 0x00);
}

#[test]
fn lcd_registers_hold_what_is_written() {
    let mut ppu = PPU::new();
    let registers = [0xFF42usize, 0xFF43, 0xFF45, 0xFF47, 0xFF48, 0xFF49, 0xFF4A, 0xFF4B];
    for (i, addr) in registers.iter().enumerate() {
        write(&mut ppu, *addr, 0x11 * (i as u8 + 1));
    }
    for (i, addr) in registers.iter().enumerate() {
        assert_eq!(read(&ppu, *addr), 0x11 * (i as u8 + 1));
    }
    write(&mut ppu, 0xFF40, 0x13);
    assert_eq!(read(&ppu, 0xFF40), 0x13);
    assert!(ppu.is_obj_enabled());
    assert!(!ppu.is_window_enabled());
    assert_eq!(ppu.get_sprite_height(), 8);
    write(&mut ppu, 0xFF40, 0x24);
    assert!(!ppu.is_obj_enabled());
    assert!(ppu.is_window_enabled());
    assert_eq!(ppu.get_sprite_height(), 16);
}

#[test]
fn vram_and_oam_keep_bytes_during_hblank() {
    let mut ppu = PPU::new();
    write(&mut ppu, 0xFF40, 0x80);
    ppu.tick(252);
    assert_eq!(ppu.get_mode(), Mode::HBlank);
    for (addr, value) in [(0x8000usize, 0x12u8), (0x97FF, 0x34), (0x9800, 0x56), (0x9BFF, 0x78), (0x9C00, 0x9A), (0x9FFF, 0xBC), (0xFE00, 0xDE), (0xFE9F, 0xF0)] {
        write(&mut ppu, addr, value);
        assert_eq!(read(&ppu, addr), value);
    }
    // The same holds during the vertical blanking.
    run(&mut ppu, 456 * 144);
    assert_eq!(ppu.get_mode(), Mode::VBlank);
    write(&mut ppu, 0x8123, 0x42);
    write(&mut ppu, 0xFE10, 0x24);
    assert_eq!(read(&ppu, 0x8123), 0x42);
    assert_eq!(read(&ppu, 0xFE10), 0x24);
    assert_eq!(read(&ppu, 0x8000), 0x12);
    assert_eq!(read(&ppu, 0xFE9F), 0xF0);
}

#[test]
fn vram_and_oam_are_closed_while_the_unit_uses_them() {
    let mut ppu = PPU::new();
    write(&mut ppu, 0x8000, 0x11);
    write(&mut ppu, 0xFE00, 0x22);
    write(&mut ppu, 0xFF40, 0x80);
    // Mode 2: the sprite table is closed, video RAM is open.
    assert_eq!(read(&ppu, 0xFE00), 0xFF);
    write(&mut ppu, 0xFE00, 0x33);
    assert_eq!(read(&ppu, 0x8000), 0x11);
    write(&mut ppu, 0x8001, 0x44);
    ppu.tick(80);
    // Mode 3: both are closed.
    assert_eq!(read(&ppu, 0x8000), 0xFF);
    assert_eq!(read(&ppu, 0xFE00), 0xFF);
    write(&mut ppu, 0x8000, 0x55);
    write(&mut ppu, 0xFE00, 0x66);
    ppu.tick(172);
    // Mode 0: both are open, and the dropped writes have left no trace.
    assert_eq!(read(&ppu, 0x8000), 0x11);
    assert_eq!(read(&ppu, 0x8001), 0x44);
    assert_eq!(read(&ppu, 0xFE00), 0x22);
}

#[test]
fn tile_data_is_decoded_with_bit_seven_leftmost() {
    let mut ppu = PPU::new();
    // Row 2 of tile 5: low byte 0x3C, high byte 0x7E give 0 2 3 3 3 3 2 0.
    write(&mut ppu, 0x8000 + 5 * 16 + 4, 0x3C);
    write(&mut ppu, 0x8000 + 5 * 16 + 5, 0x7E);
    let row = ppu.tile_set[5][2];
    assert_eq!(
        row,
        [
            Pixel::Zero,
            Pixel::Two,
            Pixel::Three,
            Pixel::Three,
            Pixel::Three,
            Pixel::Three,
            Pixel::Two,
            Pixel::Zero
        ]
    );
    assert_eq!(ppu.tile_set[5][1], [Pixel::Zero; 8]);
    write(&mut ppu, 0x8000 + 5 * 16 + 4, 0x80);
    assert_eq!(ppu.tile_set[5][2][0], Pixel::One);
    assert_eq!(ppu.tile_set[5][2][1], Pixel::Two);
    assert_eq!(read(&ppu, 0x8000 + 5 * 16 + 4), 0x80);
    // The last tile.
    write(&mut ppu, 0x97FF, 0x01);
    assert_eq!(ppu.tile_set[383][7][7], Pixel::Two);
}

#[test]
fn pixels_and_palettes_map_to_shades() {
    assert_eq!(Pixel::Zero.rgb_value(), 255);
    assert_eq!(Pixel::One.rgb_value(), 170);
    assert_eq!(Pixel::Two.rgb_value(), 85);
    assert_eq!(Pixel::Three.rgb_value(), 0);
    for number in 0..4u8 {
        assert_eq!(u8::from(Pixel::from(number)), number);
        assert_eq!(u8::from(Mode::from(number)), number);
        assert_eq!(gray_value(number), [255, 170, 85, 0][number as usize]);
    }
    assert_eq!(Pixel::from(7), Pixel::Zero);
    assert_eq!(Mode::from(0xFE), Mode::OAM);
    // 0x1B is 00 01 10 11: it turns the colours around.
    for color in 0..4u8 {
        assert_eq!(shade_of(0xE4, color), color);
        assert_eq!(shade_of(0x1B, color), 3 - color);
    }
    let ppu = PPU::new();
    assert_eq!(ppu.decode_pixel(0, 0xFF, true), 0);
    assert_eq!(ppu.decode_pixel(0, 0xFF, false), 3);
    assert_eq!(ppu.decode_pixel(2, 0x1B, true), 1);
    assert_eq!(ppu.decode_pixel_color(Pixel::Two, 0xE4, false), (85, 85, 85));
    assert_eq!(ppu.decode_pixel_color(Pixel::Zero, 0xFF, true), (255, 255, 255));
}

fn background_scene() -> PPU {
    let mut ppu = PPU::new();
    // Tile 1 is all colour 3, tile 2 all colour 1, tile 3 has colour 2 in
    // its leftmost column only.
    fill_tile(&mut ppu, 1, 0xFF, 0xFF);
    fill_tile(&mut ppu, 2, 0xFF, 0x00);
    fill_tile(&mut ppu, 3, 0x00, 0x80);
    write(&mut ppu, 0x9800, 1);
    write(&mut ppu, 0x9801, 2);
    write(&mut ppu, 0x9802, 3);
    write(&mut ppu, 0x9800 + 32, 2);
    write(&mut ppu, 0xFF47, 0xE4);
    ppu
}

#[test]
fn background_is_drawn_from_the_tile_map() {
    let mut ppu = background_scene();
    write(&mut ppu, 0xFF40, 0x91);
    run(&mut ppu, 70224);
    for x in 0..8 {
        assert_eq!(pixel(&ppu, x, 0), gray(3));
        assert_eq!(pixel(&ppu, x, 7), gray(3));
        assert_eq!(pixel(&ppu, x, 8), gray(1));
        assert_eq!(pixel(&ppu, x + 8, 0), gray(1));
        assert_eq!(pixel(&ppu, x + 8, 8), gray(0));
    }
    assert_eq!(pixel(&ppu, 16, 3), gray(2));
    assert_eq!(pixel(&ppu, 17, 3), gray(0));
    assert_eq!(pixel(&ppu, 159, 143), gray(0));
}

#[test]
fn background_palette_chooses_the_shades() {
    let mut ppu = background_scene();
    write(&mut ppu, 0xFF47, 0x1B);
    write(&mut ppu, 0xFF40, 0x91);
    run(&mut ppu, 70224);
    assert_eq!(pixel(&ppu, 0, 0), gray(0));
    assert_eq!(pixel(&ppu, 8, 0), gray(2));
    assert_eq!(pixel(&ppu, 16, 0), gray(1));
    assert_eq!(pixel(&ppu, 24, 0), gray(3));
}

#[test]
fn background_scrolls_and_wraps() {
    let mut ppu = background_scene();
    write(&mut ppu, 0xFF43, 4);
    write(&mut ppu, 0xFF42, 6);
    write(&mut ppu, 0xFF40, 0x91);
    run(&mut ppu, 70224);
    // Screen (0,0) shows background (4,6): tile 1.
    assert_eq!(pixel(&ppu, 3, 1), gray(3));
    // Screen (4,0) shows background (8,6): tile 2.
    assert_eq!(pixel(&ppu, 4, 1), gray(1));
    // Screen (0,2) shows background (4,8): the second row of tiles.
    assert_eq!(pixel(&ppu, 3, 2), gray(1));
    assert_eq!(pixel(&ppu, 4, 2), gray(0));

    let mut wrapped = background_scene();
    write(&mut wrapped, 0xFF43, 250);
    write(&mut wrapped, 0xFF42, 255);
    write(&mut wrapped, 0xFF40, 0x91);
    run(&mut wrapped, 70224);
    // Screen (6,1) shows background (0,0).
    assert_eq!(pixel(&wrapped, 5, 1), gray(0));
    assert_eq!(pixel(&wrapped, 6, 1), gray(3));
    assert_eq!(pixel(&wrapped, 6, 0), gray(0));
}

#[test]
fn tile_numbers_are_signed_without_lcdc_bit_four() {
    let mut ppu = PPU::new();
    fill_tile(&mut ppu, 256, 0xFF, 0xFF);
    fill_tile(&mut ppu, 128, 0xFF, 0x00);
    fill_tile(&mut ppu, 0, 0x00, 0xFF);
    write(&mut ppu, 0x9800, 0);
    write(&mut ppu, 0x9801, 0x80);
    write(&mut ppu, 0xFF47, 0xE4);
    write(&mut ppu, 0xFF40, 0x81);
    run(&mut ppu, 456);
    assert_eq!(pixel(&ppu, 0, 0), gray(3));
    assert_eq!(pixel(&ppu, 8, 0), gray(1));
    // The other map entries are 0 as well: tile 256.
    assert_eq!(pixel(&ppu, 16, 0), gray(3));

    let mut unsigned = PPU::new();
    fill_tile(&mut unsigned, 256, 0xFF, 0xFF);
    fill_tile(&mut unsigned, 0, 0x00, 0xFF);
    write(&mut unsigned, 0xFF47, 0xE4);
    write(&mut unsigned, 0xFF40, 0x91);
    run(&mut unsigned, 456);
    assert_eq!(pixel(&unsigned, 0, 0), gray(2));
}

#[test]
fn second_tile_map_is_used_with_lcdc_bit_three() {
    let mut ppu = background_scene();
    write(&mut ppu, 0x9C00, 3);
    write(&mut ppu, 0xFF40, 0x99);
    run(&mut ppu, 456);
    assert_eq!(pixel(&ppu, 0, 0), gray(2));
    assert_eq!(pixel(&ppu, 1, 0), gray(0));
}

#[test]
fn background_is_colour_zero_without_lcdc_bit_zero() {
    let mut ppu = background_scene();
    write(&mut ppu, 0xFF47, 0xE7);
    write(&mut ppu, 0xFF40, 0x90);
    run(&mut ppu, 456);
    for x in 0..160 {
        assert_eq!(pixel(&ppu, x, 0), gray(3));
    }
}

fn sprite(ppu: &mut PPU, index: usize, y: u8, x: u8, tile: u8, attributes: u8) {
    write(ppu, 0xFE00 + index * 4, y);
    write(ppu, 0xFE00 + index * 4 + 1, x);
    write(ppu, 0xFE00 + index * 4 + 2, tile);
    write(ppu, 0xFE00 + index * 4 + 3, attributes);
}

fn sprite_scene() -> PPU {
    let mut ppu = PPU::new();
    // Tile 1: colour 3 throughout. Tile 2: colour 1 in the left half of
    // its top row and nothing else. Tile 4 and 5: colour 1 and colour 2.
    fill_tile(&mut ppu, 1, 0xFF, 0xFF);
    write(&mut ppu, 0x8000 + 2 * 16, 0xF0);
    fill_tile(&mut ppu, 4, 0xFF, 0x00);
    fill_tile(&mut ppu, 5, 0x00, 0xFF);
    write(&mut ppu, 0xFF47, 0xE4);
    write(&mut ppu, 0xFF48, 0xE4);
    write(&mut ppu, 0xFF49, 0x1B);
    ppu
}

#[test]
fn sprites_are_drawn_at_x_minus_8_and_y_minus_16() {
    let mut ppu = sprite_scene();
    sprite(&mut ppu, 0, 16 + 10, 8 + 20, 2, 0);
    write(&mut ppu, 0xFF40, 0x93);
    run(&mut ppu, 70224);
    for x in 20..24 {
        assert_eq!(pixel(&ppu, x, 10), gray(1));
    }
    // Colour 0 of a sprite is transparent.
    for x in 24..28 {
        assert_eq!(pixel(&ppu, x, 10), gray(0));
    }
    assert_eq!(pixel(&ppu, 19, 10), gray(0));
    assert_eq!(pixel(&ppu, 20, 9), gray(0));
    assert_eq!(pixel(&ppu, 20, 11), gray(0));
}

#[test]
fn sprites_flip_and_choose_their_palette() {
    let mut ppu = sprite_scene();
    // Flipped left to right.
    sprite(&mut ppu, 0, 16, 8, 2, 0x20);
    // Flipped top to bottom.
    sprite(&mut ppu, 1, 16, 48, 2, 0x40);
    // Second palette: colour 1 becomes shade 2.
    sprite(&mut ppu, 2, 16, 88, 2, 0x10);
    write(&mut ppu, 0xFF40, 0x93);
    run(&mut ppu, 70224);
    for x in 0..4 {
        assert_eq!(pixel(&ppu, x, 0), gray(0));
        assert_eq!(pixel(&ppu, x + 4, 0), gray(1));
        assert_eq!(pixel(&ppu, x + 40, 0), gray(0));
        assert_eq!(pixel(&ppu, x + 40, 7), gray(1));
        assert_eq!(pixel(&ppu, x + 80, 0), gray(2));
    }
}

#[test]
fn sprites_give_way_to_the_background_when_they_are_behind() {
    let mut ppu = sprite_scene();
    // The background: tile 1 (colour 3) at the first map entry, tile 0
    // (colour 0) elsewhere.
    write(&mut ppu, 0x9800, 1);
    sprite(&mut ppu, 0, 16, 8, 4, 0x80);
    sprite(&mut ppu, 1, 16, 16, 4, 0x80);
    sprite(&mut ppu, 2, 24, 8, 4, 0x00);
    write(&mut ppu, 0xFF40, 0x93);
    run(&mut ppu, 70224);
    // Behind a background of colour 3: hidden.
    assert_eq!(pixel(&ppu, 0, 0), gray(3));
    // Behind a background of colour 0: shown.
    assert_eq!(pixel(&ppu, 8, 0), gray(1));
    // In front: shown.
    assert_eq!(pixel(&ppu, 0, 8), gray(1));
}

#[test]
fn sprites_further_left_win_and_ties_go_to_the_earlier_entry() {
    let mut ppu = sprite_scene();
    sprite(&mut ppu, 0, 16, 12, 5, 0);
    sprite(&mut ppu, 1, 16, 8, 4, 0);
    sprite(&mut ppu, 2, 16, 40, 4, 0);
    sprite(&mut ppu, 3, 16, 40, 5, 0);
    write(&mut ppu, 0xFF40, 0x93);
    run(&mut ppu, 253);
    let cached: Vec<(u8, u8)> =
        ppu.scanline_sprite_cache.iter().map(|s| (s.x, s.oam_index)).collect();
    assert_eq!(cached, vec![(8, 1), (12, 0), (40, 2), (40, 3)]);
    // Columns 0 to 7 belong to the sprite at x = 8, columns 8 to 11 to the
    // one at x = 12.
    assert_eq!(pixel(&ppu, 4, 0), gray(1));
    assert_eq!(pixel(&ppu, 7, 0), gray(1));
    assert_eq!(pixel(&ppu, 8, 0), gray(2));
    assert_eq!(pixel(&ppu, 11, 0), gray(2));
    // Two sprites at the same place: the earlier entry shows.
    assert_eq!(pixel(&ppu, 32, 0), gray(1));
}

#[test]
fn at_most_ten_sprites_show_on_a_line() {
    let mut ppu = sprite_scene();
    for index in 0..12 {
        sprite(&mut ppu, index, 16, 8 + 8 * index as u8, 4, 0);
    }
    // One at column 0 is on the line but never shows and takes no place.
    sprite(&mut ppu, 12, 16, 0, 4, 0);
    write(&mut ppu, 0xFF40, 0x93);
    run(&mut ppu, 253);
    assert_eq!(ppu.scanline_sprite_cache.len(), 10);
    for index in 0..10 {
        assert_eq!(pixel(&ppu, 8 * index, 0), gray(1));
    }
    assert_eq!(pixel(&ppu, 80, 0), gray(0));
    assert_eq!(pixel(&ppu, 88, 0), gray(0));
}

#[test]
fn tall_sprites_use_a_pair_of_tiles() {
    let mut ppu = sprite_scene();
    // Tile number 5 with its low bit ignored: tiles 4 and 5.
    sprite(&mut ppu, 0, 16, 8, 5, 0);
    sprite(&mut ppu, 1, 16, 24, 4, 0x40);
    write(&mut ppu, 0xFF40, 0x97);
    run(&mut ppu, 70224);
    assert_eq!(pixel(&ppu, 0, 0), gray(1));
    assert_eq!(pixel(&ppu, 0, 7), gray(1));
    assert_eq!(pixel(&ppu, 0, 8), gray(2));
    assert_eq!(pixel(&ppu, 0, 15), gray(2));
    assert_eq!(pixel(&ppu, 0, 16), gray(0));
    // Flipped top to bottom the second tile comes first.
    assert_eq!(pixel(&ppu, 16, 0), gray(2));
    assert_eq!(pixel(&ppu, 16, 8), gray(1));
}

#[test]
fn sprites_need_lcdc_bit_one() {
    let mut ppu = sprite_scene();
    sprite(&mut ppu, 0, 16, 8, 4, 0);
    write(&mut ppu, 0xFF40, 0x91);
    run(&mut ppu, 456);
    assert_eq!(pixel(&ppu, 0, 0), gray(0));
}

#[test]
fn sprites_partly_off_the_screen_are_cut() {
    let mut ppu = sprite_scene();
    sprite(&mut ppu, 0, 16, 4, 4, 0);
    sprite(&mut ppu, 1, 16, 164, 5, 0);
    sprite(&mut ppu, 2, 12, 100, 4, 0);
    write(&mut ppu, 0xFF40, 0x93);
    run(&mut ppu, 70224);
    assert_eq!(pixel(&ppu, 0, 0), gray(1));
    assert_eq!(pixel(&ppu, 3, 0), gray(1));
    assert_eq!(pixel(&ppu, 4, 0), gray(0));
    assert_eq!(pixel(&ppu, 155, 0), gray(0));
    assert_eq!(pixel(&ppu, 156, 0), gray(2));
    assert_eq!(pixel(&ppu, 159, 0), gray(2));
    // Four lines of the third sprite are above the screen.
    assert_eq!(pixel(&ppu, 92, 3), gray(1));
    assert_eq!(pixel(&ppu, 92, 4), gray(0));
}

#[test]
fn window_covers_the_background_from_wx_minus_7() {
    let mut ppu = background_scene();
    // The window's map is the second one; it shows tile 2 at its first
    // entry and tile 1 elsewhere in its first row of tiles.
    for entry in 0..32 {
        write(&mut ppu, 0x9C00 + entry, 1);
    }
    write(&mut ppu, 0x9C00, 2);
    write(&mut ppu, 0xFF4B, 87);
    write(&mut ppu, 0xFF4A, 10);
    write(&mut ppu, 0xFF40, 0xF1);
    run(&mut ppu, 70224);
    assert_eq!(pixel(&ppu, 79, 10), gray(0));
    assert_eq!(pixel(&ppu, 80, 10), gray(1));
    assert_eq!(pixel(&ppu, 87, 10), gray(1));
    assert_eq!(pixel(&ppu, 88, 10), gray(3));
    assert_eq!(pixel(&ppu, 159, 17), gray(3));
    // Above the window the background shows.
    assert_eq!(pixel(&ppu, 80, 9), gray(0));
    // The window's second row of tiles is tile 0.
    assert_eq!(pixel(&ppu, 80, 18), gray(0));
    assert_eq!(pixel(&ppu, 0, 0), gray(3));
}

#[test]
fn window_line_counter_counts_only_the_lines_that_show_the_window() {
    let mut ppu = background_scene();
    write(&mut ppu, 0xFF4B, 7);
    write(&mut ppu, 0xFF4A, 10);
    write(&mut ppu, 0xFF40, 0xF1);
    run(&mut ppu, 456 * 10);
    assert_eq!(ppu.window_lc, 0);
    run(&mut ppu, 456 * 5);
    assert_eq!(ppu.window_lc, 5);
    // Five lines without the window.
    write(&mut ppu, 0xFF40, 0xD1);
    run(&mut ppu, 456 * 5);
    assert_eq!(ppu.window_lc, 5);
    write(&mut ppu, 0xFF40, 0xF1);
    run(&mut ppu, 456 * 5);
    assert_eq!(ppu.window_lc, 10);
    // A window that is too far right does not show.
    write(&mut ppu, 0xFF4B, 167);
    run(&mut ppu, 456 * 5);
    assert_eq!(ppu.window_lc, 10);
    // The counter starts again with the frame.
    run(&mut ppu, 456 * 124);
    assert_eq!(read(&ppu, 0xFF44), 0);
    assert_eq!(ppu.window_lc, 0);
}

#[test]
fn switching_the_display_off_clears_the_screen() {
    let mut ppu = background_scene();
    write(&mut ppu, 0xFF40, 0x91);
    run(&mut ppu, 456 * 150);
    assert_eq!(pixel(&ppu, 0, 0), gray(3));
    assert_eq!(read(&ppu, 0xFF44), 150);
    write(&mut ppu, 0xFF40, 0x11);
    assert_eq!(read(&ppu, 0xFF44), 0);
    assert_eq!(read(&ppu, 0xFF41) & 0x03, 0);
    assert!(ppu.get_display().iter().all(|byte| *byte == 0xFF));
    // Switched on again it starts with line 0.
    write(&mut ppu, 0xFF40, 0x91);
    assert_eq!(ppu.get_mode(), Mode::OAM);
    run(&mut ppu, 456);
    assert_eq!(read(&ppu, 0xFF44), 1);
    assert_eq!(pixel(&ppu, 0, 0), gray(3));
}

#[test]
fn tiles_can_be_exported() {
    let mut ppu = PPU::new();
    write(&mut ppu, 0x8000, 0x80);
    write(&mut ppu, 0x8001, 0x40);
    let tile: Tile = ppu.tile_set[0];
    let bytes = PPU::tile_to_vec(&tile);
    assert_eq!(bytes.len(), 256);
    assert_eq!(&bytes[0..4], &[170, 170, 170, 255]);
    assert_eq!(&bytes[4..8], &[85, 85, 85, 255]);
    assert_eq!(&bytes[8..12], &[255, 255, 255, 255]);
    assert_eq!(&bytes[252..256], &[255, 255, 255, 255]);

    write(&mut ppu, 0x8000 + 17 * 16 + 6, 0x01);
    write(&mut ppu, 0x8000 + 17 * 16 + 7, 0x01);
    let mut picture = [[Pixel::One; 128]; 256];
    ppu.get_debug_display(&mut picture);
    assert_eq!(picture[0][0], Pixel::One);
    assert_eq!(picture[0][1], Pixel::Two);
    assert_eq!(picture[0][2], Pixel::Zero);
    // Tile 17 is the second tile of the second row of tiles; its row 3,
    // column 7 is colour 3.
    assert_eq!(picture[8 + 3][8 + 7], Pixel::Three);
    assert_eq!(picture[8 + 3][8 + 6], Pixel::Zero);
    assert_eq!(picture[191][127], Pixel::Zero);
    // The rows below the tiles are left alone.
    assert_eq!(picture[192][0], Pixel::One);
    assert_eq!(picture[255][127], Pixel::One);
}

#[test]
fn every_combination_of_sprite_attributes() {
    for background in [0u8, 3] {
        for attributes in 0..16u8 {
            let attributes = attributes << 4;
            let mut ppu = PPU::new();
            // The background tile is of one colour throughout.
            if background == 3 {
                fill_tile(&mut ppu, 0, 0xFF, 0xFF);
            }
            // The sprite's tile has colour 1 at its top left corner and
            // colour 2 at its bottom right corner.
            write(&mut ppu, 0x8000 + 6 * 16, 0x80);
            write(&mut ppu, 0x8000 + 6 * 16 + 15, 0x01);
            write(&mut ppu, 0xFF47, 0xE4);
            write(&mut ppu, 0xFF48, 0xE4);
            write(&mut ppu, 0xFF49, 0x1B);
            sprite(&mut ppu, 0, 16, 8, 6, attributes);
            write(&mut ppu, 0xFF40, 0x93);
            run(&mut ppu, 70224);

            let behind = attributes & 0x80 != 0;
            let flip_y = attributes & 0x40 != 0;
            let flip_x = attributes & 0x20 != 0;
            let second_palette = attributes & 0x10 != 0;
            let hidden = behind && background != 0;
            let (first_x, second_x) = if flip_x { (7, 0) } else { (0, 7) };
            let (first_y, second_y) = if flip_y { (7, 0) } else { (0, 7) };
            let first = if hidden {
                background
            } else if second_palette {
                2
            } else {
                1
            };
            let second = if hidden {
                background
            } else if second_palette {
                1
            } else {
                2
            };
            assert_eq!(pixel(&ppu, first_x, first_y), gray(first), "attributes {:#04X}", attributes);
            assert_eq!(pixel(&ppu, second_x, second_y), gray(second), "attributes {:#04X}", attributes);
            // Where the sprite is transparent the background shows.
            assert_eq!(pixel(&ppu, first_x, second_y), gray(background));
            assert_eq!(pixel(&ppu, 3, 4), gray(background));
        }
    }
}
