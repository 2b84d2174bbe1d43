use chip8::display::{clear, draw_sprite};
use chip8::{Chip8, Chip8Error, DISPLAY_HEIGHT, DISPLAY_SIZE, DISPLAY_WIDTH};

fn lit_pixels(chip: &Chip8) -> Vec<(usize, usize)> {
    let mut lit = Vec::new();
    for y in 0..DISPLAY_HEIGHT {
        for x in 0..DISPLAY_WIDTH {
            if chip.get_pixel(x, y) {
                lit.push((x, y));
            }
        }
    }
    lit
}

fn run(chip: &mut Chip8, steps: usize) {
    for _ in 0..steps {
        assert_eq!(chip.tick_at(0, 0), Ok(()));
    }
}

#[test]
fn draw_at_column_60_wraps_four_columns() {
    // V0 = 60, V1 = 0, I = 0x20A, draw one row; the sprite byte is 0xFF
    let rom = [0x60, 60, 0x61, 0, 0xA2, 0x0A, 0xD0, 0x11, 0x00, 0x00, 0xFF];
    let mut chip = Chip8::with_rom_data(&rom).unwrap();
    run(&mut chip, 4);
    assert_eq!(
        lit_pixels(&chip),
        vec![(0, 0), (1, 0), (2, 0), (3, 0), (60, 0), (61, 0), (62, 0), (63, 0)]
    );
    assert_eq!(chip.get_v(0xF), 0);
    assert!(chip.get_render_flag());
}

#[test]
fn draw_wraps_rows_at_the_bottom() {
    // V0 = 0, V1 = 31, two rows of 0x80
    let rom = [0x60, 0, 0x61, 31, 0xA2, 0x0A, 0xD0, 0x12, 0x00, 0x00, 0x80, 0x80];
    let mut chip = Chip8::with_rom_data(&rom).unwrap();
    run(&mut chip, 4);
    assert_eq!(lit_pixels(&chip), vec![(0, 0), (0, 31)]);
}

#[test]
fn draw_origin_is_taken_modulo_the_display() {
    // V0 = 64 + 2, V1 = 32 + 3
    let rom = [0x60, 66, 0x61, 35, 0xA2, 0x0A, 0xD0, 0x11, 0x00, 0x00, 0xC0];
    let mut chip = Chip8::with_rom_data(&rom).unwrap();
    run(&mut chip, 4);
    assert_eq!(lit_pixels(&chip), vec![(2, 3), (3, 3)]);
}

#[test]
fn draw_font_glyph() {
    // V0 = 1 (digit), I = glyph, draw five rows at (V1, V1) = (0, 0)
    let rom = [0x60, 1, 0xF0, 0x29, 0xD1, 0x15];
    let mut chip = Chip8::with_rom_data(&rom).unwrap();
    run(&mut chip, 3);
    // glyph "1": 0x20, 0x60, 0x20, 0x20, 0x70
    assert_eq!(
        lit_pixels(&chip),
        vec![(2, 0), (1, 1), (2, 1), (2, 2), (2, 3), (1, 4), (2, 4), (3, 4)]
    );
}

#[test]
fn draw_twice_restores_the_display() {
    let rom = [
        0x60, 10, 0x61, 5, 0xA2, 0x10, // V0, V1, I
        0xD0, 0x13, // first draw
        0xD0, 0x13, // second draw
        0x00, 0x00, 0x00, 0x00, 0x00, 0x00, 0xA5, 0x5A, 0xFF,
    ];
    let mut chip = Chip8::with_rom_data(&rom).unwrap();
    run(&mut chip, 4);
    assert_eq!(lit_pixels(&chip).len(), 4 + 4 + 8);
    assert_eq!(chip.get_v(0xF), 0);
    run(&mut chip, 1);
    assert_eq!(lit_pixels(&chip), vec![]);
    assert_eq!(chip.get_v(0xF), 1);
}

#[test]
fn collision_in_any_row_sets_the_flag() {
    // a pixel at (0, 0); then a two-row sprite whose first row hits it and
    // whose second row hits nothing
    let rom = [
        0x60, 0, 0x61, 0, 0xA2, 0x10, 0xD0, 0x11, // one pixel
        0xA2, 0x11, 0xD0, 0x12, // two rows
        0x00, 0x00, 0x00, 0x00, 0x80, 0x80, 0x40,
    ];
    let mut chip = Chip8::with_rom_data(&rom).unwrap();
    run(&mut chip, 4);
    assert_eq!(lit_pixels(&chip), vec![(0, 0)]);
    run(&mut chip, 2);
    assert_eq!(lit_pixels(&chip), vec![(1, 1)]);
    assert_eq!(chip.get_v(0xF), 1);
}

#[test]
fn draw_without_collision_clears_the_flag() {
    // VF = 1, then a sprite over a blank display
    let rom = [0x6F, 1, 0xA2, 0x08, 0xD0, 0x01, 0x00, 0x00, 0xFF];
    let mut chip = Chip8::with_rom_data(&rom).unwrap();
    run(&mut chip, 2);
    assert_eq!(chip.get_v(0xF), 1);
    run(&mut chip, 1);
    assert_eq!(chip.get_v(0xF), 0);
    assert_eq!(lit_pixels(&chip).len(), 8);
}

#[test]
fn draw_of_no_rows_recomputes_the_flag() {
    let rom = [0x6F, 1, 0xD0, 0x00];
    let mut chip = Chip8::with_rom_data(&rom).unwrap();
    run(&mut chip, 1);
    assert_eq!(chip.get_v(0xF), 1);
    run(&mut chip, 1);
    assert_eq!(chip.get_v(0xF), 0);
    assert_eq!(lit_pixels(&chip), vec![]);
    assert!(chip.get_render_flag());
}

#[test]
fn render_flag_drops_on_the_next_step() {
    let rom = [0xA2, 0x06, 0xD0, 0x01, 0x60, 0x00, 0x80];
    let mut chip = Chip8::with_rom_data(&rom).unwrap();
    run(&mut chip, 1);
    assert!(!chip.get_render_flag());
    run(&mut chip, 1);
    assert!(chip.get_render_flag());
    run(&mut chip, 1);
    assert!(!chip.get_render_flag());
}

#[test]
fn clear_display_switches_every_pixel_off() {
    let rom = [0xA2, 0x06, 0xD0, 0x05, 0x00, 0xE0, 0xFF, 0xFF, 0xFF, 0xFF, 0xFF];
    let mut chip = Chip8::with_rom_data(&rom).unwrap();
    run(&mut chip, 2);
    assert_eq!(lit_pixels(&chip).len(), 40);
    run(&mut chip, 1);
    for y in 0..DISPLAY_HEIGHT {
        for x in 0..DISPLAY_WIDTH {
            assert!(!chip.get_pixel(x, y));
        }
    }
}

#[test]
fn sprite_past_the_end_of_memory_is_out_of_range() {
    // I = 0xFFF, two rows
    let rom = [0xAF, 0xFF, 0xD0, 0x02, 0xD0, 0x01];
    let mut chip = Chip8::with_rom_data(&rom).unwrap();
    run(&mut chip, 1);
    assert_eq!(chip.tick_at(0, 0), Err(Chip8Error::OutOfRange { pc: 0x204 }));
    assert!(!chip.get_render_flag());
    assert_eq!(chip.tick_at(0, 0), Ok(()));
}

#[test]
fn draw_sprite_on_a_framebuffer() {
    let mut pixels = [false; DISPLAY_SIZE];
    let mut mem = [0u8; 4096];
    mem[100] = 0b1010_0000;
    mem[101] = 0b0000_0001;
    let hit = draw_sprite(&mut pixels, &mem, 100, 2, 62, 31);
    assert!(!hit);
    let lit: Vec<usize> = (0..DISPLAY_SIZE).filter(|k| pixels[*k]).collect();
    // row 31: columns 62 and 0; row 0: column 62 + 7 - 64 = 5
    assert_eq!(lit, vec![5, 31 * 64, 31 * 64 + 62]);
    let hit = draw_sprite(&mut pixels, &mem, 100, 1, 62, 31);
    assert!(hit);
    let lit: Vec<usize> = (0..DISPLAY_SIZE).filter(|k| pixels[*k]).collect();
    assert_eq!(lit, vec![5]);
    clear(&mut pixels);
    assert!(pixels.iter().all(|p| !*p));
}
