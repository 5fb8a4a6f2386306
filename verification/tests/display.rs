use chip8::display::{Rect, HEIGHT, WIDTH};
use chip8::Display;

fn lit(display: &Display) -> Vec<(usize, usize)> {
    let mut cells = Vec::new();
    for y in 0..HEIGHT {
        for x in 0..WIDTH {
            if display.pixel(x, y) {
                cells.push((x, y));
            }
        }
    }
    cells
}

#[test]
fn new_display_is_dark() {
    let display = Display::new();
    assert_eq!(lit(&display), vec![]);
    assert_eq!(display.draw(), vec![]);
}

#[test]
fn no_pixel_outside_the_grid_is_lit() {
    let mut display = Display::new();
    display.draw_sprite(0, 0, &[0xFF; 15]);
    assert!(display.pixel(0, 0));
    assert!(!display.pixel(64, 0));
    assert!(!display.pixel(0, 32));
    assert!(!display.pixel(usize::MAX, usize::MAX));
}

#[test]
fn full_row_sprite_lights_eight_pixels_without_collision() {
    let mut display = Display::new();
    let collision = display.draw_sprite(0, 0, &[0xFF]);
    assert!(!collision);
    let expected: Vec<(usize, usize)> = (0..8).map(|x| (x, 0)).collect();
    assert_eq!(lit(&display), expected);
}

#[test]
fn drawing_the_same_sprite_again_clears_it_with_collision() {
    let mut display = Display::new();
    display.draw_sprite(0, 0, &[0xFF]);
    let collision = display.draw_sprite(0, 0, &[0xFF]);
    assert!(collision);
    assert_eq!(lit(&display), vec![]);
}

#[test]
fn the_most_significant_bit_is_the_leftmost_pixel() {
    let mut display = Display::new();
    display.draw_sprite(10, 5, &[0b1000_0001, 0b0100_0000]);
    assert_eq!(lit(&display), vec![(10, 5), (17, 5), (11, 6)]);
}

#[test]
fn collision_is_remembered_for_the_whole_sprite() {
    let mut display = Display::new();
    display.draw_sprite(0, 0, &[0b1000_0000]);
    // The first row collides, the second does not.
    let collision = display.draw_sprite(0, 0, &[0b1000_0000, 0b1000_0000]);
    assert!(collision);
    assert_eq!(lit(&display), vec![(0, 1)]);
}

#[test]
fn overlap_without_a_lit_pixel_under_a_set_bit_is_no_collision() {
    let mut display = Display::new();
    display.draw_sprite(0, 0, &[0b1010_0000]);
    let collision = display.draw_sprite(0, 0, &[0b0101_0000]);
    assert!(!collision);
    assert_eq!(lit(&display), vec![(0, 0), (1, 0), (2, 0), (3, 0)]);
}

#[test]
fn sprite_is_cut_off_at_the_right_edge() {
    let mut display = Display::new();
    display.draw_sprite(60, 0, &[0xFF]);
    assert_eq!(lit(&display), vec![(60, 0), (61, 0), (62, 0), (63, 0)]);
}

#[test]
fn sprite_is_cut_off_at_the_bottom_edge() {
    let mut display = Display::new();
    display.draw_sprite(0, 30, &[0x80, 0x80, 0x80, 0x80]);
    assert_eq!(lit(&display), vec![(0, 30), (0, 31)]);
}

#[test]
fn sprite_below_the_grid_draws_nothing() {
    let mut display = Display::new();
    let collision = display.draw_sprite(0, 32, &[0xFF, 0xFF]);
    assert!(!collision);
    assert_eq!(lit(&display), vec![]);
    display.draw_sprite(0, 255, &[0xFF; 15]);
    assert_eq!(lit(&display), vec![]);
}

#[test]
fn start_right_of_the_grid_moves_to_column_zero() {
    let mut display = Display::new();
    display.draw_sprite(64, 3, &[0xC0]);
    assert_eq!(lit(&display), vec![(0, 3), (1, 3)]);
    let mut display = Display::new();
    display.draw_sprite(255, 3, &[0xC0]);
    assert_eq!(lit(&display), vec![(0, 3), (1, 3)]);
    let mut display = Display::new();
    display.draw_sprite(63, 3, &[0xC0]);
    assert_eq!(lit(&display), vec![(63, 3)]);
}

#[test]
fn empty_sprite_draws_nothing() {
    let mut display = Display::new();
    display.draw_sprite(0, 0, &[0xFF]);
    let collision = display.draw_sprite(0, 0, &[]);
    assert!(!collision);
    assert_eq!(lit(&display).len(), 8);
}

#[test]
fn clear_turns_every_pixel_dark() {
    let mut display = Display::new();
    display.draw_sprite(3, 4, &[0xFF, 0xFF, 0xFF]);
    display.clear();
    assert_eq!(lit(&display), vec![]);
}

#[test]
fn draw_lists_one_square_per_lit_pixel_in_row_order() {
    let mut display = Display::new();
    display.draw_sprite(62, 1, &[0xC0, 0x80]);
    display.draw_sprite(0, 0, &[0x80]);
    assert_eq!(
        display.draw(),
        vec![
            Rect { x: 0, y: 0, width: 10, height: 10 },
            Rect { x: 620, y: 10, width: 10, height: 10 },
            Rect { x: 630, y: 10, width: 10, height: 10 },
            Rect { x: 620, y: 20, width: 10, height: 10 },
        ]
    );
}

#[test]
fn draw_of_a_full_grid_lists_every_cell() {
    let mut display = Display::new();
    for y in 0..32u8 {
        for x in 0..8u8 {
            display.draw_sprite(x * 8, y, &[0xFF]);
        }
    }
    let rects = display.draw();
    assert_eq!(rects.len(), 64 * 32);
    assert_eq!(rects[0], Rect { x: 0, y: 0, width: 10, height: 10 });
    assert_eq!(rects[64 * 32 - 1], Rect { x: 630, y: 310, width: 10, height: 10 });
}
