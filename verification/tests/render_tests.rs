use pong_wars_core::convert::rgb565_to_argb;
use pong_wars_core::render::{
    expand_to_window, fill_cells, led_cell_mask, BACKGROUND, LED_COUNT, LED_SIZE, WINDOW_LEN,
    WINDOW_W,
};
use pong_wars_core::{Grid, Palette, Team, PIXEL_SIZE};

#[test]
fn led_mask_has_about_the_right_lit_count() {
    let mask = led_cell_mask();
    let lit = mask.iter().filter(|&&b| b).count();
    // Area of a 10-wide circle is ~78.5; a discrete rasterisation in a
    // 12×12 cell should land within a handful of pixels of that.
    assert!(
        (70..=90).contains(&lit),
        "LED dot mask had {lit} lit pixels, expected ~78"
    );
}

#[test]
fn led_mask_is_a_centered_disc() {
    let mask = led_cell_mask();
    assert_eq!(mask.len(), LED_SIZE * LED_SIZE);
    assert_eq!(mask.iter().filter(|&&b| b).count(), 80);
    assert!(!mask[0]);
    assert!(mask[5 * LED_SIZE + 5]);
    assert!(!mask[LED_SIZE * LED_SIZE - 1]);
    for y in 0..LED_SIZE {
        for x in 0..LED_SIZE {
            assert_eq!(mask[y * LED_SIZE + x], mask[x * LED_SIZE + y]);
            assert_eq!(mask[y * LED_SIZE + x], mask[y * LED_SIZE + (LED_SIZE - 1 - x)]);
        }
    }
}

#[test]
fn fill_cells_paints_two_by_two_blocks() {
    let mut game = Grid::new();
    game.claim(20, 3, Team::Day);
    let palette = Palette::classic();
    let mut led = [BACKGROUND; LED_COUNT];
    fill_cells(&mut led, &game, &palette);
    let day = rgb565_to_argb(palette.cell_color(Team::Day));
    let night = rgb565_to_argb(palette.cell_color(Team::Night));
    assert_eq!(led[0], day);
    assert_eq!(led[PIXEL_SIZE - 1], night);
    for (dx, dy) in [(0, 0), (1, 0), (0, 1), (1, 1)] {
        assert_eq!(led[(3 * 2 + dy) * PIXEL_SIZE + 20 * 2 + dx], day);
        assert_eq!(led[(4 * 2 + dy) * PIXEL_SIZE + 20 * 2 + dx], night);
    }
    assert!(led.iter().all(|&c| c == day || c == night));
}

#[test]
fn expand_to_window_draws_dots_on_background() {
    let mut led = [0xFF12_3456u32; LED_COUNT];
    led[PIXEL_SIZE + 2] = 0xFFAB_CDEF;
    let mut buffer = vec![0u32; WINDOW_LEN];
    expand_to_window(&mut buffer, &led);
    let mask = led_cell_mask();
    // Corner of every LED square is background, its center is lit.
    assert_eq!(buffer[0], BACKGROUND);
    assert_eq!(buffer[6 * WINDOW_W + 6], 0xFF12_3456);
    // LED (2, 1) occupies window rows 12..24 and columns 24..36.
    for py in 0..LED_SIZE {
        for px in 0..LED_SIZE {
            let pixel = buffer[(LED_SIZE + py) * WINDOW_W + 2 * LED_SIZE + px];
            let expected = if mask[py * LED_SIZE + px] { 0xFFAB_CDEF } else { BACKGROUND };
            assert_eq!(pixel, expected);
        }
    }
    assert_eq!(buffer[WINDOW_LEN - 1], BACKGROUND);
}
