use chip8::display_buffer::{bytes_to_pixels, DisplayBuffer, BG_COLOR, HEIGHT, PIXEL_COLOR, WIDTH};

fn blank() -> DisplayBuffer {
    DisplayBuffer(vec![BG_COLOR; WIDTH * HEIGHT])
}

fn cell(buffer: &DisplayBuffer, col: usize, row: usize) -> u32 {
    buffer.0[row * WIDTH + col]
}

#[test]
fn bytes_to_pixels_most_significant_bit_first() {
    let rows = bytes_to_pixels(vec![0b1010_0001, 0x00, 0xFF]);
    assert_eq!(rows.len(), 3);
    assert_eq!(
        rows[0],
        [PIXEL_COLOR, BG_COLOR, PIXEL_COLOR, BG_COLOR, BG_COLOR, BG_COLOR, BG_COLOR, PIXEL_COLOR]
    );
    assert_eq!(rows[1], [BG_COLOR; 8]);
    assert_eq!(rows[2], [PIXEL_COLOR; 8]);
}

#[test]
fn bytes_to_pixels_empty() {
    assert!(bytes_to_pixels(vec![]).is_empty());
}

#[test]
fn clear_blanks_every_cell() {
    let mut buffer = DisplayBuffer(vec![PIXEL_COLOR; 10]);
    buffer.clear();
    assert_eq!(buffer.0.len(), 2048);
    assert!(buffer.0.iter().all(|&c| c == BG_COLOR));
}

#[test]
fn xor_write_lights_sprite_without_collision() {
    let mut buffer = blank();
    let collision = buffer.xor_write(vec![0b1100_0000, 0b0100_0000], 10, 5);
    assert!(!collision);
    assert_eq!(cell(&buffer, 10, 5), PIXEL_COLOR);
    assert_eq!(cell(&buffer, 11, 5), PIXEL_COLOR);
    assert_eq!(cell(&buffer, 12, 5), BG_COLOR);
    assert_eq!(cell(&buffer, 10, 6), BG_COLOR);
    assert_eq!(cell(&buffer, 11, 6), PIXEL_COLOR);
    let lit = buffer.0.iter().filter(|&&c| c == PIXEL_COLOR).count();
    assert_eq!(lit, 3);
}

#[test]
fn xor_write_twice_restores_and_collides() {
    let mut buffer = blank();
    let sprite = vec![0xF0, 0x90, 0x90, 0x90, 0xF0];
    assert!(!buffer.xor_write(sprite.clone(), 3, 4));
    assert!(buffer.xor_write(sprite, 3, 4));
    assert!(buffer.0.iter().all(|&c| c == BG_COLOR));
}

#[test]
fn xor_write_empty_row_does_not_collide_twice() {
    let mut buffer = blank();
    assert!(!buffer.xor_write(vec![0x00], 0, 0));
    assert!(!buffer.xor_write(vec![0x00], 0, 0));
    assert!(buffer.0.iter().all(|&c| c == BG_COLOR));
}

#[test]
fn xor_write_clips_at_right_edge() {
    let mut buffer = blank();
    let zero_sprite: [u8; 5] = [0b11110000, 0b10010000, 0b10010000, 0b10010000, 0b11110000];
    assert!(!buffer.xor_write(zero_sprite.to_vec(), 61, 0));
    assert_eq!(cell(&buffer, 61, 0), PIXEL_COLOR);
    assert_eq!(cell(&buffer, 62, 0), PIXEL_COLOR);
    assert_eq!(cell(&buffer, 63, 0), PIXEL_COLOR);
    // nothing wraps to the next row
    assert_eq!(cell(&buffer, 0, 1), BG_COLOR);
    assert_eq!(cell(&buffer, 61, 1), PIXEL_COLOR);
    assert_eq!(cell(&buffer, 62, 1), BG_COLOR);
    let lit = buffer.0.iter().filter(|&&c| c == PIXEL_COLOR).count();
    assert_eq!(lit, 3 + 1 + 1 + 1 + 3);
}

#[test]
fn xor_write_clips_at_bottom_edge() {
    let mut buffer = blank();
    assert!(!buffer.xor_write(vec![0x80; 5], 0, 30));
    assert_eq!(cell(&buffer, 0, 30), PIXEL_COLOR);
    assert_eq!(cell(&buffer, 0, 31), PIXEL_COLOR);
    assert_eq!(cell(&buffer, 0, 0), BG_COLOR);
    let lit = buffer.0.iter().filter(|&&c| c == PIXEL_COLOR).count();
    assert_eq!(lit, 2);
}

#[test]
fn xor_write_off_screen_draws_nothing() {
    let mut buffer = blank();
    assert!(!buffer.xor_write(vec![0xFF], 64, 0));
    assert!(!buffer.xor_write(vec![0xFF], 0, 32));
    assert!(buffer.0.iter().all(|&c| c == BG_COLOR));
}

#[test]
fn xor_write_collision_only_on_set_bits() {
    let mut buffer = blank();
    buffer.xor_write(vec![0b1000_0000], 0, 0);
    // the set bit falls on an unlit cell, the lit cell is under a clear bit
    assert!(!buffer.xor_write(vec![0b0100_0000], 0, 0));
    assert_eq!(cell(&buffer, 0, 0), PIXEL_COLOR);
    assert_eq!(cell(&buffer, 1, 0), PIXEL_COLOR);
    assert!(buffer.xor_write(vec![0b1000_0000], 0, 0));
    assert_eq!(cell(&buffer, 0, 0), BG_COLOR);
}

#[test]
fn xor_write_on_other_colours() {
    let mut buffer = blank();
    buffer.0[0] = 7;
    buffer.0[1] = 7;
    // a clear bit over a foreign colour lights the cell, a set bit too
    assert!(!buffer.xor_write(vec![0b0100_0000], 0, 0));
    assert_eq!(cell(&buffer, 0, 0), PIXEL_COLOR);
    assert_eq!(cell(&buffer, 1, 0), PIXEL_COLOR);
}

#[test]
fn sprite_in_bounds_checks_buffer_size() {
    let small = DisplayBuffer(vec![BG_COLOR; 64]);
    assert!(small.sprite_in_bounds(1, 0, 0));
    assert!(small.sprite_in_bounds(1, 60, 0));
    assert!(!small.sprite_in_bounds(3, 60, 0));
    assert!(!small.sprite_in_bounds(2, 0, 0));
    assert!(small.sprite_in_bounds(5, 0, 40));
    assert!(blank().sprite_in_bounds(15, 63, 31));
    assert!(!blank().sprite_in_bounds(1, usize::MAX, 0));
    assert!(blank().sprite_in_bounds(0, usize::MAX, 0));
}
