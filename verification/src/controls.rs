//! Decisions of the two front ends' main loops.
//!
//! The desktop simulator turns key presses into a pause toggle, a reset
//! request and a speed in ticks per frame (1, 2, 4, 8 or 16).  The firmware
//! refreshes the panel on every frame but advances the game only on every
//! `TICK_DIVISOR`-th frame.
use vstd::prelude::*;

verus! {

/// Highest speed of the simulator, in game ticks per rendered frame.
pub const MAX_TICKS_PER_FRAME: u32 = 16;

/// The firmware advances the game on every `TICK_DIVISOR`-th frame.
pub const TICK_DIVISOR: u32 = 4;

/// The keys pressed (not held) since the previous frame.
#[derive(Clone, Copy, Debug, PartialEq, Eq, Structural)]
pub struct KeyPresses {
    /// `Space`: pause or resume.
    pub toggle_pause: bool,
    /// `R`: restart the game with a fresh seed.
    pub reset: bool,
    /// `+`: double the speed.
    pub speed_up: bool,
    /// `-`: halve the speed.
    pub slow_down: bool,
}

/// The speed after `+`: doubled, capped at `MAX_TICKS_PER_FRAME`.
pub open spec fn faster(t: u32) -> u32 {
    if 2 * t < MAX_TICKS_PER_FRAME {
        (2 * t) as u32
    } else {
        MAX_TICKS_PER_FRAME
    }
}

/// The speed after `-`: halved, but at least one tick per frame.
pub open spec fn slower(t: u32) -> u32 {
    if t / 2 > 1 {
        t / 2
    } else {
        1
    }
}

/// The speed after this frame's key presses (`+` is handled before `-`).
pub open spec fn next_speed(t: u32, keys: KeyPresses) -> u32 {
    let t1 = if keys.speed_up {
        faster(t)
    } else {
        t
    };
    if keys.slow_down {
        slower(t1)
    } else {
        t1
    }
}

/// The speeds the simulator offers: 1, 2, 4, 8 or 16 ticks per frame.
pub open spec fn offered_speed(t: u32) -> bool {
    t == 1 || t == 2 || t == 4 || t == 8 || t == 16
}

/// Apply one frame's key presses to the simulator's pause flag and speed.
/// Returns whether the game is to be restarted with a fresh seed.
pub fn handle_input(paused: &mut bool, ticks_per_frame: &mut u32, keys: KeyPresses) -> (reset: bool)
    requires
        keys.speed_up ==> *old(ticks_per_frame) <= u32::MAX / 2,
    ensures
        *final(paused) == (*old(paused) != keys.toggle_pause),
        *final(ticks_per_frame) == next_speed(*old(ticks_per_frame), keys),
        reset == keys.reset,
{
    if keys.toggle_pause {
        *paused = !*paused;
    }
    if keys.speed_up {
        let doubled: u32 = *ticks_per_frame * 2;
        *ticks_per_frame = if doubled < MAX_TICKS_PER_FRAME {
            doubled
        } else {
            MAX_TICKS_PER_FRAME
        };
    }
    if keys.slow_down {
        let halved: u32 = *ticks_per_frame / 2;
        *ticks_per_frame = if halved > 1 {
            halved
        } else {
            1
        };
    }
    keys.reset
}

/// Starting from an offered speed, every frame's key presses leave the
/// speed at an offered speed.
pub proof fn lemma_speed_stays_offered(t: u32, keys: KeyPresses)
    requires
        offered_speed(t),
    ensures
        offered_speed(next_speed(t, keys)),
{
}

/// `+` doubles the speed until it reaches the top speed and never goes past
/// it; `-` halves the speed but never drops below one tick per frame; and
/// neither key changes a speed it cannot move.
pub proof fn lemma_speed_keys(t: u32)
    requires
        1 <= t <= 0x7FFF_FFFF,
    ensures
        faster(t) <= MAX_TICKS_PER_FRAME,
        2 * t <= MAX_TICKS_PER_FRAME ==> faster(t) == 2 * t,
        t <= MAX_TICKS_PER_FRAME ==> t <= faster(t) <= MAX_TICKS_PER_FRAME,
        1 <= slower(t) <= t,
        t >= 2 ==> 2 * slower(t) <= t && t < 2 * slower(t) + 2,
        slower(1) == 1,
        faster(MAX_TICKS_PER_FRAME) == MAX_TICKS_PER_FRAME,
{
}

/// Below the top speed, `-` undoes `+`.
pub proof fn lemma_slow_down_undoes_speed_up(t: u32)
    requires
        offered_speed(t),
        t < MAX_TICKS_PER_FRAME,
    ensures
        slower(faster(t)) == t,
{
}

/// The frame count that follows `f`.
pub open spec fn next_frame(f: u32) -> u32 {
    if f == u32::MAX {
        0
    } else {
        (f + 1) as u32
    }
}

/// Whether the firmware advances the game on frame `frame_count`, and the
/// next frame's count (wrapping around after `u32::MAX`).
pub fn frame_step(frame_count: u32) -> (r: (bool, u32))
    ensures
        r.0 == (frame_count % TICK_DIVISOR == 0),
        r.1 == next_frame(frame_count),
{
    let tick = frame_count % TICK_DIVISOR == 0;
    (tick, frame_count.wrapping_add(1))
}

/// Of any `TICK_DIVISOR` consecutive frames the firmware advances the game
/// on exactly one, also where the frame counter wraps around.
pub proof fn lemma_one_tick_per_divisor(f: u32)
    ensures
        ({
            let f1 = next_frame(f);
            let f2 = next_frame(f1);
            let f3 = next_frame(f2);
            let ticks = (if f % TICK_DIVISOR == 0 {
                1int
            } else {
                0
            }) + (if f1 % TICK_DIVISOR == 0 {
                1int
            } else {
                0
            }) + (if f2 % TICK_DIVISOR == 0 {
                1int
            } else {
                0
            }) + (if f3 % TICK_DIVISOR == 0 {
                1int
            } else {
                0
            });
            ticks == 1
        }),
{
}

} // verus!
