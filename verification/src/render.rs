//! Rendering the grid onto a simulated LED panel and expanding the panel
//! into a window's pixel buffer.
//!
//! The panel is `PIXEL_SIZE` × `PIXEL_SIZE` LEDs, each cell of the grid
//! lighting a `SQUARE_SIZE` × `SQUARE_SIZE` block of them.  In the window,
//! every LED becomes a `LED_SIZE` × `LED_SIZE` square holding a lit round
//! dot of diameter `LED_DIAMETER` on the `BACKGROUND` color, so the result
//! reads like discrete LEDs on a dark mask.
use vstd::prelude::*;
use crate::color::Palette;
use crate::convert::{argb_value, rgb565_to_argb};
use crate::grid::{Grid, CELL_COUNT, GRID_SIZE, PIXEL_SIZE, SQUARE_SIZE};

verus! {

/// Pixels per simulated LED in the output window.
pub const LED_SIZE: usize = 12;

/// Diameter of the lit dot inside each LED cell.
pub const LED_DIAMETER: usize = 10;

/// Width of the rendered window in pixels (`PIXEL_SIZE * LED_SIZE`).
pub const WINDOW_W: usize = 768;

/// Height of the rendered window in pixels (`PIXEL_SIZE * LED_SIZE`).
pub const WINDOW_H: usize = 768;

/// Number of pixels in the window buffer.
pub const WINDOW_LEN: usize = 589_824;

/// Number of LEDs on the panel (`PIXEL_SIZE * PIXEL_SIZE`).
pub const LED_COUNT: usize = 4096;

/// Number of pixels in one LED's square (`LED_SIZE * LED_SIZE`).
pub const MASK_LEN: usize = 144;

/// Background color of each LED square — ARGB, a near-black grey.
pub const BACKGROUND: u32 = 0xFF_08_08_08;

/// Whether pixel `(x, y)` of an LED square lies in the lit dot: its center
/// `(x + 1/2, y + 1/2)` is within `LED_DIAMETER / 2` of the square's center
/// `(LED_SIZE / 2, LED_SIZE / 2)`.  Doubling every length keeps the test in
/// integers.
pub open spec fn led_dot_lit(x: int, y: int) -> bool {
    let dx = 2 * x + 1 - LED_SIZE as int;
    let dy = 2 * y + 1 - LED_SIZE as int;
    dx * dx + dy * dy <= (LED_DIAMETER * LED_DIAMETER) as int
}

/// Index into the grid of the cell that lights LED `k` of the panel.
pub open spec fn led_cell(k: int) -> int {
    (k / PIXEL_SIZE as int / SQUARE_SIZE as int) * GRID_SIZE as int + (k % PIXEL_SIZE as int)
        / SQUARE_SIZE as int
}

/// The color of window pixel `i` for the LED colors `led`.
pub open spec fn window_pixel(led: Seq<u32>, i: int) -> u32 {
    let row = i / WINDOW_W as int;
    let col = i % WINDOW_W as int;
    if led_dot_lit(col % LED_SIZE as int, row % LED_SIZE as int) {
        led[(row / LED_SIZE as int) * PIXEL_SIZE as int + col / LED_SIZE as int]
    } else {
        BACKGROUND
    }
}

/// Build the `LED_SIZE` × `LED_SIZE` mask of which pixels in one LED's
/// square belong to the lit dot, row-major.
pub fn led_cell_mask() -> (m: Vec<bool>)
    ensures
        m@.len() == MASK_LEN,
        forall|x: int, y: int|
            0 <= x < LED_SIZE && 0 <= y < LED_SIZE ==> #[trigger] m@[y * LED_SIZE as int + x]
                == led_dot_lit(x, y),
{
    let mut m: Vec<bool> = Vec::new();
    let mut y: usize = 0;
    while y < LED_SIZE
        invariant
            y <= LED_SIZE,
            m@.len() == y * LED_SIZE,
            forall|yy: int, xx: int|
                0 <= yy < y && 0 <= xx < LED_SIZE ==> #[trigger] m@[yy * LED_SIZE as int + xx]
                    == led_dot_lit(xx, yy),
        decreases LED_SIZE - y,
    {
        let mut x: usize = 0;
        while x < LED_SIZE
            invariant
                y < LED_SIZE,
                x <= LED_SIZE,
                m@.len() == y * LED_SIZE + x,
                forall|yy: int, xx: int|
                    0 <= yy < y && 0 <= xx < LED_SIZE ==> #[trigger] m@[yy * LED_SIZE as int + xx]
                        == led_dot_lit(xx, yy),
                forall|xx: int|
                    0 <= xx < x ==> #[trigger] m@[y * LED_SIZE as int + xx] == led_dot_lit(
                        xx,
                        y as int,
                    ),
            decreases LED_SIZE - x,
        {
            let dx: i32 = 2 * (x as i32) + 1 - LED_SIZE as i32;
            let dy: i32 = 2 * (y as i32) + 1 - LED_SIZE as i32;
            assert(0 <= dx * dx <= 144 && 0 <= dy * dy <= 144) by (nonlinear_arith)
                requires
                    -12 <= dx <= 12,
                    -12 <= dy <= 12,
            ;
            let lit: bool = dx * dx + dy * dy <= (LED_DIAMETER * LED_DIAMETER) as i32;
            let ghost before = m@;
            m.push(lit);
            proof {
                assert forall|yy: int, xx: int|
                    0 <= yy < y && 0 <= xx < LED_SIZE implies #[trigger] m@[yy * LED_SIZE as int
                    + xx] == led_dot_lit(xx, yy) by {
                    assert(yy * LED_SIZE as int + xx < y * LED_SIZE as int) by (nonlinear_arith)
                        requires
                            0 <= yy < y,
                            0 <= xx < LED_SIZE,
                    ;
                    assert(m@[yy * LED_SIZE as int + xx] == before[yy * LED_SIZE as int + xx]);
                }
            }
            x = x + 1;
        }
        proof {
            assert forall|yy: int, xx: int|
                0 <= yy < y + 1 && 0 <= xx < LED_SIZE implies #[trigger] m@[yy * LED_SIZE as int
                + xx] == led_dot_lit(xx, yy) by {
                if yy == y {
                } else {
                }
            }
        }
        y = y + 1;
    }
    m
}

/// Paint every cell as a `SQUARE_SIZE` × `SQUARE_SIZE` block of LEDs in its
/// team's cell color, converted to ARGB.
pub fn fill_cells(led: &mut [u32; LED_COUNT], grid: &Grid, palette: &Palette)
    ensures
        final(led)@.len() == LED_COUNT,
        forall|k: int|
            0 <= k < LED_COUNT ==> #[trigger] final(led)@[k] == argb_value(
                palette.spec_cell_color(grid.view()[led_cell(k)]),
            ),
        forall|x: int, y: int|
            0 <= x < PIXEL_SIZE && 0 <= y < PIXEL_SIZE ==> #[trigger] final(led)@[y * 64 + x]
                == argb_value(palette.spec_cell_color(grid.view()[(y / 2) * 32 + x / 2])),
{
    let cells = grid.cells();
    let mut k: usize = 0;
    while k < LED_COUNT
        invariant
            k <= LED_COUNT,
            led@.len() == LED_COUNT,
            cells@ == grid.view(),
            cells@.len() == CELL_COUNT,
            forall|kk: int|
                0 <= kk < k ==> #[trigger] led@[kk] == argb_value(
                    palette.spec_cell_color(grid.view()[led_cell(kk)]),
                ),
        decreases LED_COUNT - k,
    {
        let cx: usize = (k % PIXEL_SIZE) / SQUARE_SIZE;
        let cy: usize = (k / PIXEL_SIZE) / SQUARE_SIZE;
        assert(cy * GRID_SIZE + cx == led_cell(k as int));
        assert(cy < GRID_SIZE && cx < GRID_SIZE);
        let team = cells[cy * GRID_SIZE + cx];
        led[k] = rgb565_to_argb(palette.cell_color(team));
        k = k + 1;
    }
    assert forall|x: int, y: int|
        0 <= x < PIXEL_SIZE && 0 <= y < PIXEL_SIZE implies #[trigger] led@[y * 64 + x]
        == argb_value(palette.spec_cell_color(grid.view()[(y / 2) * 32 + x / 2])) by {
        lemma_led_cell(x, y);
    }
}

/// Expand the LED color map into the window buffer.  Each LED becomes a
/// `LED_SIZE` × `LED_SIZE` square whose lit-dot pixels take the LED's
/// color; the rest of the square is `BACKGROUND`.
pub fn expand_to_window(buffer: &mut [u32], led: &[u32; LED_COUNT])
    requires
        old(buffer)@.len() == WINDOW_LEN,
    ensures
        final(buffer)@.len() == WINDOW_LEN,
        forall|i: int| 0 <= i < WINDOW_LEN ==> #[trigger] final(buffer)@[i] == window_pixel(led@, i),
        forall|lx: int, ly: int, px: int, py: int|
            0 <= lx < PIXEL_SIZE && 0 <= ly < PIXEL_SIZE && 0 <= px < LED_SIZE && 0 <= py
                < LED_SIZE ==> #[trigger] final(buffer)@[(ly * 12 + py) * 768 + lx * 12 + px] == (
            if led_dot_lit(px, py) {
                led@[ly * 64 + lx]
            } else {
                BACKGROUND
            }),
{
    let mask = led_cell_mask();
    let mut i: usize = 0;
    while i < WINDOW_LEN
        invariant
            i <= WINDOW_LEN,
            buffer@.len() == WINDOW_LEN,
            led@.len() == LED_COUNT,
            mask@.len() == MASK_LEN,
            forall|x: int, y: int|
                0 <= x < LED_SIZE && 0 <= y < LED_SIZE ==> #[trigger] mask@[y * LED_SIZE as int + x]
                    == led_dot_lit(x, y),
            forall|ii: int| 0 <= ii < i ==> #[trigger] buffer@[ii] == window_pixel(led@, ii),
        decreases WINDOW_LEN - i,
    {
        let row: usize = i / WINDOW_W;
        let col: usize = i % WINDOW_W;
        assert(row < WINDOW_H);
        let px: usize = col % LED_SIZE;
        let py: usize = row % LED_SIZE;
        let lx: usize = col / LED_SIZE;
        let ly: usize = row / LED_SIZE;
        assert(lx < PIXEL_SIZE && ly < PIXEL_SIZE);
        let lit: bool = mask[py * LED_SIZE + px];
        let color: u32 = if lit {
            led[ly * PIXEL_SIZE + lx]
        } else {
            BACKGROUND
        };
        buffer[i] = color;
        i = i + 1;
    }
    assert forall|lx: int, ly: int, px: int, py: int|
        0 <= lx < PIXEL_SIZE && 0 <= ly < PIXEL_SIZE && 0 <= px < LED_SIZE && 0 <= py
            < LED_SIZE implies #[trigger] buffer@[(ly * 12 + py) * 768 + lx * 12 + px] == (
    if led_dot_lit(px, py) {
        led@[ly * 64 + lx]
    } else {
        BACKGROUND
    }) by {
        lemma_window_square(led@, lx, ly, px, py);
    }
}

/// LED `(x, y)` of the panel shows the cell at column `x / 2`, row `y / 2`
/// of the grid, for every LED of the panel.
pub proof fn lemma_led_cell(x: int, y: int)
    requires
        0 <= x < 64,
        0 <= y < 64,
    ensures
        led_cell(y * 64 + x) == (y / 2) * 32 + x / 2,
        0 <= led_cell(y * 64 + x) < CELL_COUNT,
{
    vstd::arithmetic::div_mod::lemma_fundamental_div_mod_converse(y * 64 + x, 64, y, x);
}

/// Pixel `(px, py)` of the window square of LED `(lx, ly)` shows that LED's
/// color where the dot is lit and the background elsewhere, for every LED of
/// the panel.
pub proof fn lemma_window_square(led: Seq<u32>, lx: int, ly: int, px: int, py: int)
    requires
        0 <= lx < 64,
        0 <= ly < 64,
        0 <= px < 12,
        0 <= py < 12,
    ensures
        0 <= (ly * 12 + py) * 768 + lx * 12 + px < WINDOW_LEN,
        window_pixel(led, (ly * 12 + py) * 768 + lx * 12 + px) == (if led_dot_lit(px, py) {
            led[ly * 64 + lx]
        } else {
            BACKGROUND
        }),
{
    let row = ly * 12 + py;
    let col = lx * 12 + px;
    assert(0 <= row < 768 && 0 <= col < 768);
    assert(0 <= row * 768 + col < WINDOW_LEN) by (nonlinear_arith)
        requires
            0 <= row < 768,
            0 <= col < 768,
    ;
    vstd::arithmetic::div_mod::lemma_fundamental_div_mod_converse(row * 768 + col, 768, row, col);
    vstd::arithmetic::div_mod::lemma_fundamental_div_mod_converse(row, 12, ly, py);
    vstd::arithmetic::div_mod::lemma_fundamental_div_mod_converse(col, 12, lx, px);
}

/// The lit dot is a disc centered in the LED square: symmetric under
/// mirroring either axis and under swapping the axes, never touching the
/// square's outer rows and columns, and covering the whole central 8 × 8
/// block.
pub proof fn lemma_led_dot_shape(x: int, y: int)
    requires
        0 <= x < 12,
        0 <= y < 12,
    ensures
        led_dot_lit(x, y) == led_dot_lit(11 - x, y),
        led_dot_lit(x, y) == led_dot_lit(x, 11 - y),
        led_dot_lit(x, y) == led_dot_lit(y, x),
        (x == 0 || x == 11 || y == 0 || y == 11) ==> !led_dot_lit(x, y),
        (2 <= x <= 9 && 2 <= y <= 9) ==> led_dot_lit(x, y),
{
    let dx = 2 * x + 1 - 12;
    let dy = 2 * y + 1 - 12;
    assert(dx * dx >= 0 && dy * dy >= 0) by (nonlinear_arith);
    assert((x == 0 || x == 11) ==> dx * dx == 121) by (nonlinear_arith)
        requires
            dx == 2 * x + 1 - 12,
    ;
    assert((y == 0 || y == 11) ==> dy * dy == 121) by (nonlinear_arith)
        requires
            dy == 2 * y + 1 - 12,
    ;
    assert((2 <= x <= 9 && 2 <= y <= 9) ==> dx * dx + dy * dy <= 98) by (nonlinear_arith)
        requires
            dx == 2 * x + 1 - 12,
            dy == 2 * y + 1 - 12,
    ;
    assert((2 * (11 - x) + 1 - 12) * (2 * (11 - x) + 1 - 12) == dx * dx) by (nonlinear_arith)
        requires
            dx == 2 * x + 1 - 12,
    ;
    assert((2 * (11 - y) + 1 - 12) * (2 * (11 - y) + 1 - 12) == dy * dy) by (nonlinear_arith)
        requires
            dy == 2 * y + 1 - 12,
    ;
}

} // verus!
