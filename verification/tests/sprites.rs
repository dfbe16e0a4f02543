use chip8::display::draw_sprite;

fn blank() -> Vec<u8> {
    vec![0u8; 2048]
}

#[test]
fn one_row_on_a_blank_buffer() {
    let mut gfx = blank();
    let ram = vec![0xA5u8];
    assert!(!draw_sprite(&mut gfx, &ram, 0, 1, 8, 1));
    let lit: Vec<usize> = (0..2048).filter(|&k| gfx[k] == 1).collect();
    assert_eq!(lit, vec![64 + 8, 64 + 10, 64 + 13, 64 + 15]);
}

#[test]
fn rows_are_read_from_the_start_address() {
    let mut gfx = blank();
    let ram = vec![0xFF, 0x80, 0x01, 0xFF];
    assert!(!draw_sprite(&mut gfx, &ram, 1, 2, 0, 0));
    let lit: Vec<usize> = (0..2048).filter(|&k| gfx[k] == 1).collect();
    assert_eq!(lit, vec![0, 64 + 7]);
}

#[test]
fn drawing_twice_restores_the_buffer() {
    let mut gfx = blank();
    gfx[5] = 1;
    gfx[70] = 1;
    let before = gfx.clone();
    let ram = vec![0x3C, 0x42, 0x81];
    assert!(draw_sprite(&mut gfx, &ram, 0, 3, 2, 0));
    assert_ne!(gfx, before);
    assert!(draw_sprite(&mut gfx, &ram, 0, 3, 2, 0));
    assert_eq!(gfx, before);
}

#[test]
fn the_last_row_that_fits_is_not_clamped() {
    let mut gfx = blank();
    let ram = vec![0xFF];
    assert!(!draw_sprite(&mut gfx, &ram, 0, 1, 56, 31));
    let lit: Vec<usize> = (0..2048).filter(|&k| gfx[k] == 1).collect();
    assert_eq!(lit, (2040..2048).collect::<Vec<usize>>());
}

#[test]
fn clamped_pixels_share_the_last_cell() {
    let mut gfx = blank();
    let ram = vec![0xC0];
    // Both pixels are clamped to cell 2047: on, then off with a collision.
    assert!(draw_sprite(&mut gfx, &ram, 0, 1, 0, 32));
    assert!(gfx.iter().all(|&c| c == 0));
}

#[test]
fn coordinates_are_bytes() {
    let mut gfx = blank();
    let ram = vec![0x80];
    assert!(!draw_sprite(&mut gfx, &ram, 0, 1, 255, 255));
    let lit: Vec<usize> = (0..2048).filter(|&k| gfx[k] == 1).collect();
    assert_eq!(lit, vec![2047]);
}
