use chip8::display::{Display, DISPLAY_HEIGHT, DISPLAY_WIDTH};

fn lit_pixels(display: &Display) -> Vec<(usize, usize)> {
    let mut lit = Vec::new();
    for y in 0..DISPLAY_HEIGHT {
        for x in 0..DISPLAY_WIDTH {
            if display.get(x, y) {
                lit.push((x, y));
            }
        }
    }
    lit
}

#[test]
fn display_has_64_by_32_pixels() {
    assert_eq!(DISPLAY_WIDTH, 64);
    assert_eq!(DISPLAY_HEIGHT, 32);
}

#[test]
fn new_display_is_dark() {
    let display = Display::new();
    assert!(lit_pixels(&display).is_empty());
}

#[test]
fn clear_false_gives_false_everywhere() {
    let mut display = Display::new();
    display.flip(3, 4);
    display.flip(63, 31);
    display.clear(false);
    for _ in 0..3 {
        assert!(lit_pixels(&display).is_empty());
    }
}

#[test]
fn clear_true_lights_every_pixel() {
    let mut display = Display::new();
    display.clear(true);
    assert_eq!(lit_pixels(&display).len(), DISPLAY_WIDTH * DISPLAY_HEIGHT);
}

#[test]
fn flip_toggles_one_pixel() {
    let mut display = Display::new();
    display.flip(10, 20);
    assert_eq!(lit_pixels(&display), vec![(10, 20)]);
}

#[test]
fn flip_twice_restores_the_pixel() {
    let mut display = Display::new();
    display.flip(0, 0);
    display.flip(5, 6);
    display.flip(5, 6);
    assert_eq!(lit_pixels(&display), vec![(0, 0)]);
    display.flip(0, 0);
    display.flip(0, 0);
    assert_eq!(lit_pixels(&display), vec![(0, 0)]);
}

#[test]
fn sprite_bits_run_from_the_most_significant() {
    let mut display = Display::new();
    let memory = [0b1100_0001u8];
    let hit = display.draw_sprite(&memory, 0, 1, 4, 2);
    assert!(!hit);
    assert_eq!(lit_pixels(&display), vec![(4, 2), (5, 2), (11, 2)]);
}

#[test]
fn sprite_rows_go_down() {
    let mut display = Display::new();
    let memory = [0x00u8, 0x80, 0x40, 0x20];
    let hit = display.draw_sprite(&memory, 1, 3, 0, 0);
    assert!(!hit);
    assert_eq!(lit_pixels(&display), vec![(0, 0), (1, 1), (2, 2)]);
}

#[test]
fn sprite_wraps_each_pixel_at_both_edges() {
    let mut display = Display::new();
    let memory = [0b1010_0000u8, 0b0100_0000];
    let hit = display.draw_sprite(&memory, 0, 2, 62, 31);
    assert!(!hit);
    assert_eq!(lit_pixels(&display), vec![(63, 0), (0, 31), (62, 31)]);
}

#[test]
fn drawing_over_lit_pixels_collides_and_erases() {
    let mut display = Display::new();
    let memory = [0xF0u8];
    assert!(!display.draw_sprite(&memory, 0, 1, 8, 8));
    assert!(display.draw_sprite(&memory, 0, 1, 10, 8));
    assert_eq!(lit_pixels(&display), vec![(8, 8), (9, 8), (12, 8), (13, 8)]);
}

#[test]
fn drawing_twice_erases_with_collision() {
    let mut display = Display::new();
    let memory = [0xFFu8, 0x81, 0xFF];
    assert!(!display.draw_sprite(&memory, 0, 3, 20, 10));
    assert!(display.draw_sprite(&memory, 0, 3, 20, 10));
    assert!(lit_pixels(&display).is_empty());
}

#[test]
fn drawing_beside_lit_pixels_does_not_collide() {
    let mut display = Display::new();
    display.flip(0, 0);
    let memory = [0x7Fu8];
    assert!(!display.draw_sprite(&memory, 0, 1, 0, 0));
    assert_eq!(lit_pixels(&display).len(), 8);
}

#[test]
fn clear_bits_over_lit_pixels_do_not_collide() {
    let mut display = Display::new();
    display.clear(true);
    let memory = [0x00u8, 0x00];
    assert!(!display.draw_sprite(&memory, 0, 2, 5, 5));
    assert_eq!(lit_pixels(&display).len(), DISPLAY_WIDTH * DISPLAY_HEIGHT);
}

#[test]
fn sprite_of_no_rows_draws_nothing() {
    let mut display = Display::new();
    let memory = [0xFFu8];
    assert!(!display.draw_sprite(&memory, 0, 0, 0, 0));
    assert!(lit_pixels(&display).is_empty());
}
