//! The 16-bit RGB565 palette of Pong Wars.
//!
//! Day team:   fill = mystic-mint,          ball = nocturnal-expedition
//! Night team: fill = nocturnal-expedition, ball = mystic-mint
use vstd::prelude::*;

verus! {

/// 16-bit RGB565 color word (RRRRRGGG GGGBBBBB).
pub type Rgb565 = u16;

/// The RGB565 word of a 24-bit color: the top five bits of red, the top six
/// bits of green and the top five bits of blue, packed from high to low.
pub open spec fn rgb565_value(r: u8, g: u8, b: u8) -> int {
    (r / 8) * 2048 + (g / 4) * 32 + b / 8
}

/// Convert 24-bit RGB to RGB565.
pub fn rgb565(r: u8, g: u8, b: u8) -> (c: Rgb565)
    ensures
        c == rgb565_value(r, g, b),
{
    let c: u16 = ((r as u16 & 0xF8) << 8) | ((g as u16 & 0xFC) << 3) | ((b as u16 & 0xF8) >> 3);
    let r16: u16 = r as u16;
    let g16: u16 = g as u16;
    let b16: u16 = b as u16;
    assert(((r16 & 0xF8) << 8) | ((g16 & 0xFC) << 3) | ((b16 & 0xF8) >> 3) == (r16 / 8) * 2048
        + (g16 / 4) * 32 + b16 / 8) by (bit_vector)
        requires
            r16 < 256,
            g16 < 256,
            b16 < 256,
    ;
    c
}

/// The RGB565 word keeps the top five bits of red in its top five bits, the
/// top six bits of green in the middle six and the top five bits of blue in
/// the low five, for every 24-bit color.
pub proof fn lemma_rgb565_fields(r: u8, g: u8, b: u8)
    ensures
        0 <= rgb565_value(r, g, b) < 0x1_0000,
        rgb565_value(r, g, b) / 2048 == r / 8,
        (rgb565_value(r, g, b) / 32) % 64 == g / 4,
        rgb565_value(r, g, b) % 32 == b / 8,
{
    let v = rgb565_value(r, g, b);
    vstd::arithmetic::div_mod::lemma_fundamental_div_mod_converse(v, 2048, r as int / 8, (g as int
        / 4) * 32 + b as int / 8);
    vstd::arithmetic::div_mod::lemma_fundamental_div_mod_converse(v, 32, (r as int / 8) * 64 + g
        as int / 4, b as int / 8);
    vstd::arithmetic::div_mod::lemma_fundamental_div_mod_converse(v / 32, 64, r as int / 8, g as int
        / 4);
}

/// `#D9E8E3` — the day team's filled-cell color.
pub const COLOR_MYSTIC_MINT: Rgb565 = 0xDF5C;

/// `#114C5A` — the night team's filled-cell color and the day team's ball.
pub const COLOR_NOCTURNAL_EXPEDITION: Rgb565 = 0x126B;

/// The two named palette constants are the RGB565 words of their hex
/// colors `#D9E8E3` and `#114C5A`.
pub proof fn lemma_named_colors()
    ensures
        COLOR_MYSTIC_MINT == rgb565_value(0xD9, 0xE8, 0xE3),
        COLOR_NOCTURNAL_EXPEDITION == rgb565_value(0x11, 0x4C, 0x5A),
{
}

/// Identifier of one of the two teams playing the game.
#[derive(Clone, Copy, Debug, PartialEq, Eq, Structural)]
pub enum Team {
    /// The bright "day" team — starts on the left half of the grid.
    Day,
    /// The dark "night" team — starts on the right half of the grid.
    Night,
}

impl Team {
    /// The opposing team, as a spec value.
    pub open spec fn spec_opposite(self) -> Team {
        match self {
            Team::Day => Team::Night,
            Team::Night => Team::Day,
        }
    }

    /// The opposing team.
    pub fn opposite(self) -> (t: Team)
        ensures
            t == self.spec_opposite(),
            t != self,
    {
        match self {
            Team::Day => Team::Night,
            Team::Night => Team::Day,
        }
    }
}

/// Taking the opposite team twice gives back the team, and a team is never
/// its own opposite.
pub proof fn lemma_opposite_involution(t: Team)
    ensures
        t.spec_opposite().spec_opposite() == t,
        t.spec_opposite() != t,
{
}

/// Colors used to paint the simulation.  All fields are RGB565.
#[derive(Clone, Copy, Debug)]
pub struct Palette {
    /// Color of cells owned by the day team.
    pub day_cell: Rgb565,
    /// Color of cells owned by the night team.
    pub night_cell: Rgb565,
    /// Color of the day team's ball (mirrors `night_cell` by tradition).
    pub day_ball: Rgb565,
    /// Color of the night team's ball (mirrors `day_cell`).
    pub night_ball: Rgb565,
}

impl Palette {
    /// The classic palette as a spec value.
    pub open spec fn spec_classic() -> Palette {
        Palette {
            day_cell: COLOR_MYSTIC_MINT,
            night_cell: COLOR_NOCTURNAL_EXPEDITION,
            day_ball: COLOR_NOCTURNAL_EXPEDITION,
            night_ball: COLOR_MYSTIC_MINT,
        }
    }

    /// The fill color of a team's cells, as a spec value.
    pub open spec fn spec_cell_color(self, team: Team) -> Rgb565 {
        match team {
            Team::Day => self.day_cell,
            Team::Night => self.night_cell,
        }
    }

    /// The color of a team's ball, as a spec value.
    pub open spec fn spec_ball_color(self, team: Team) -> Rgb565 {
        match team {
            Team::Day => self.day_ball,
            Team::Night => self.night_ball,
        }
    }

    /// The classic Pong Wars palette.
    pub fn classic() -> (p: Self)
        ensures
            p == Self::spec_classic(),
    {
        Palette {
            day_cell: COLOR_MYSTIC_MINT,
            night_cell: COLOR_NOCTURNAL_EXPEDITION,
            day_ball: COLOR_NOCTURNAL_EXPEDITION,
            night_ball: COLOR_MYSTIC_MINT,
        }
    }

    /// The cell fill color for a given team.
    pub fn cell_color(&self, team: Team) -> (c: Rgb565)
        ensures
            c == self.spec_cell_color(team),
            team == Team::Day ==> c == self.day_cell,
            team == Team::Night ==> c == self.night_cell,
    {
        match team {
            Team::Day => self.day_cell,
            Team::Night => self.night_cell,
        }
    }

    /// The ball color for a given team.
    pub fn ball_color(&self, team: Team) -> (c: Rgb565)
        ensures
            c == self.spec_ball_color(team),
            team == Team::Day ==> c == self.day_ball,
            team == Team::Night ==> c == self.night_ball,
    {
        match team {
            Team::Day => self.day_ball,
            Team::Night => self.night_ball,
        }
    }
}

impl Default for Palette {
    fn default() -> (p: Self)
        ensures
            p == Palette::spec_classic(),
    {
        Self::classic()
    }
}

/// In the classic palette each team's ball wears the opposing team's cell
/// color, and the two teams' cells differ in color.
pub proof fn lemma_classic_ball_mirrors_opponent_cell(team: Team)
    ensures
        Palette::spec_classic().spec_ball_color(team) == Palette::spec_classic().spec_cell_color(
            team.spec_opposite(),
        ),
        Palette::spec_classic().spec_cell_color(team) != Palette::spec_classic().spec_cell_color(
            team.spec_opposite(),
        ),
{
}

/// Any palette, not only the classic one, colors a team's cells with that
/// team's own cell field and its ball with that team's own ball field.
pub proof fn lemma_palette_fields(p: Palette)
    ensures
        p.spec_cell_color(Team::Day) == p.day_cell,
        p.spec_cell_color(Team::Night) == p.night_cell,
        p.spec_ball_color(Team::Day) == p.day_ball,
        p.spec_ball_color(Team::Night) == p.night_ball,
{
}

} // verus!
