use embedded_graphics::pixelcolor::{Rgb888, RgbColor};
use pong_wars_core::color::{rgb565, COLOR_MYSTIC_MINT, COLOR_NOCTURNAL_EXPEDITION};
use pong_wars_core::convert::{rgb565_to_argb, rgb565_to_rgb888, to_eg};
use pong_wars_core::{Palette, Team};

#[test]
fn rgb565_white_round_trips_close_to_white() {
    // 0xFFFF in RGB565 is pure white; our converter should hit 0xFF,0xFF,0xFF.
    let argb = rgb565_to_argb(0xFFFF);
    assert_eq!(argb, 0xFFFF_FFFF);
}

#[test]
fn rgb565_black_is_black() {
    assert_eq!(rgb565_to_argb(0x0000), 0xFF00_0000);
}

#[test]
fn rgb565_packs_named_colors() {
    assert_eq!(rgb565(0xD9, 0xE8, 0xE3), COLOR_MYSTIC_MINT);
    assert_eq!(rgb565(0x11, 0x4C, 0x5A), COLOR_NOCTURNAL_EXPEDITION);
    assert_eq!(rgb565(0xFF, 0xFF, 0xFF), 0xFFFF);
    assert_eq!(rgb565(0, 0, 0), 0);
    assert_eq!(rgb565(0xFF, 0, 0), 0xF800);
    assert_eq!(rgb565(0, 0xFF, 0), 0x07E0);
    assert_eq!(rgb565(0, 0, 0xFF), 0x001F);
}

#[test]
fn widening_replicates_high_bits() {
    assert_eq!(rgb565_to_rgb888(0x126B), (0x10, 0x4D, 0x5A));
    assert_eq!(rgb565_to_rgb888(0xDF5C), (0xDE, 0xEB, 0xE7));
    assert_eq!(rgb565_to_argb(0xF800), 0xFFFF_0000);
    assert_eq!(rgb565_to_argb(0x07E0), 0xFF00_FF00);
    assert_eq!(rgb565_to_argb(0x001F), 0xFF00_00FF);
}

#[test]
fn widen_then_pack_round_trips_every_word() {
    for c in 0..=u16::MAX {
        let (r, g, b) = rgb565_to_rgb888(c);
        assert_eq!(rgb565(r, g, b), c);
    }
}

#[test]
fn to_eg_carries_widened_channels() {
    let c: Rgb888 = to_eg(0x126B);
    assert_eq!((c.r(), c.g(), c.b()), (0x10, 0x4D, 0x5A));
    assert_eq!(to_eg(0xFFFF), Rgb888::WHITE);
    assert_eq!(to_eg(0x0000), Rgb888::BLACK);
}

#[test]
fn opposite_team_swaps_and_is_involutive() {
    assert_eq!(Team::Day.opposite(), Team::Night);
    assert_eq!(Team::Night.opposite(), Team::Day);
    assert_eq!(Team::Day.opposite().opposite(), Team::Day);
}

#[test]
fn classic_palette_mirrors_ball_and_cell_colors() {
    let p = Palette::classic();
    assert_eq!(p.cell_color(Team::Day), COLOR_MYSTIC_MINT);
    assert_eq!(p.cell_color(Team::Night), COLOR_NOCTURNAL_EXPEDITION);
    assert_eq!(p.ball_color(Team::Day), COLOR_NOCTURNAL_EXPEDITION);
    assert_eq!(p.ball_color(Team::Night), COLOR_MYSTIC_MINT);
    for t in [Team::Day, Team::Night] {
        assert_eq!(p.ball_color(t), p.cell_color(t.opposite()));
    }
    let d = Palette::default();
    assert_eq!(d.day_cell, p.day_cell);
    assert_eq!(d.night_ball, p.night_ball);
}
