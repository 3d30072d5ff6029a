use chip8::{Display, DISPLAY_HEIGHT, DISPLAY_PIXELS, DISPLAY_WIDTH};

/// The lit pixels as `(column, row)`, row by row.
fn lit(display: &Display) -> Vec<(usize, usize)> {
    let pixels = display.pixels();
    (0..DISPLAY_PIXELS).filter(|&i| pixels[i]).map(|i| (i % DISPLAY_WIDTH, i / DISPLAY_WIDTH)).collect()
}

#[test]
fn display_is_64_by_32() {
    assert_eq!(DISPLAY_WIDTH, 64);
    assert_eq!(DISPLAY_HEIGHT, 32);
    assert_eq!(DISPLAY_PIXELS, 2048);
    assert_eq!(Display::new().pixels().len(), 2048);
}

#[test]
fn new_display_is_dark() {
    assert_eq!(lit(&Display::new()), vec![]);
}

#[test]
fn draw_lights_the_bits_of_the_sprite() {
    let mut display = Display::new();
    assert!(!display.draw(3, 5, &[0b1010_0001, 0b0100_0000]));
    assert_eq!(lit(&display), vec![(3, 5), (5, 5), (10, 5), (4, 6)]);
}

#[test]
fn draw_of_the_highest_bit_is_the_leftmost_pixel() {
    let mut display = Display::new();
    display.draw(0, 0, &[0x80]);
    assert_eq!(lit(&display), vec![(0, 0)]);
    let mut display = Display::new();
    display.draw(0, 0, &[0x01]);
    assert_eq!(lit(&display), vec![(7, 0)]);
    let mut display = Display::new();
    display.draw(0, 0, &[0xFF]);
    assert_eq!(lit(&display), (0..8).map(|c| (c, 0)).collect::<Vec<_>>());
}

#[test]
fn drawing_twice_puts_the_pixels_out_and_reports_it() {
    let mut display = Display::new();
    let sprite = [0xF0, 0x90, 0x90, 0x90, 0xF0];
    assert!(!display.draw(10, 10, &sprite));
    assert_eq!(lit(&display).len(), 14);
    assert!(display.draw(10, 10, &sprite));
    assert_eq!(display, Display::new());
}

#[test]
fn draw_reports_only_pixels_that_were_put_out() {
    let mut display = Display::new();
    assert!(!display.draw(0, 0, &[0b1100_0000]));
    // Next to the lit pixels: nothing is put out.
    assert!(!display.draw(0, 0, &[0b0011_0000]));
    assert_eq!(lit(&display), vec![(0, 0), (1, 0), (2, 0), (3, 0)]);
    // One pixel overlaps.
    assert!(display.draw(3, 0, &[0b1100_0000]));
    assert_eq!(lit(&display), vec![(0, 0), (1, 0), (2, 0), (4, 0)]);
    // An empty sprite row puts nothing out.
    assert!(!display.draw(0, 0, &[0x00]));
    assert_eq!(lit(&display), vec![(0, 0), (1, 0), (2, 0), (4, 0)]);
}

#[test]
fn draw_of_no_rows_changes_nothing() {
    let mut display = Display::new();
    display.draw(1, 1, &[0xFF]);
    assert!(!display.draw(1, 1, &[]));
    assert_eq!(lit(&display).len(), 8);
}

#[test]
fn draw_wraps_the_corner_onto_the_display() {
    let mut wrapped = Display::new();
    wrapped.draw(64 + 3, 32 + 5, &[0xA5, 0x5A]);
    let mut plain = Display::new();
    plain.draw(3, 5, &[0xA5, 0x5A]);
    assert_eq!(wrapped, plain);
    let mut wrapped = Display::new();
    wrapped.draw(255, 255, &[0x80]);
    assert_eq!(lit(&wrapped), vec![(63, 31)]);
}

#[test]
fn draw_cuts_off_at_the_right_edge() {
    let mut display = Display::new();
    assert!(!display.draw(60, 0, &[0xFF, 0xFF]));
    assert_eq!(
        lit(&display),
        vec![(60, 0), (61, 0), (62, 0), (63, 0), (60, 1), (61, 1), (62, 1), (63, 1)]
    );
}

#[test]
fn draw_cuts_off_at_the_lower_edge() {
    let mut display = Display::new();
    assert!(!display.draw(0, 30, &[0x80, 0x80, 0x80, 0x80]));
    assert_eq!(lit(&display), vec![(0, 30), (0, 31)]);
}

#[test]
fn what_is_cut_off_puts_nothing_out() {
    let mut display = Display::new();
    display.draw(0, 1, &[0xFF]);
    // The last four pixels of this sprite would wrap onto the lit ones if
    // they were not cut off.
    assert!(!display.draw(60, 0, &[0x0F]));
    assert!(!display.draw(60, 1, &[0x0F]));
    assert_eq!(lit(&display).len(), 8);
}

#[test]
fn clear_puts_every_pixel_out() {
    let mut display = Display::new();
    display.draw(7, 7, &[0xFF; 15]);
    display.draw(40, 20, &[0xFF; 15]);
    assert_eq!(lit(&display).len(), 8 * 15 + 8 * 12);
    display.clear();
    assert_eq!(display, Display::new());
    assert_eq!(lit(&display), vec![]);
}

#[test]
fn a_sprite_longer_than_the_display_is_cut_off() {
    let mut display = Display::new();
    assert!(!display.draw(0, 0, &[0x80; 40]));
    assert_eq!(lit(&display), (0..32).map(|r| (0, r)).collect::<Vec<_>>());
}
