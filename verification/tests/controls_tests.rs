use pong_wars_core::controls::{frame_step, handle_input, KeyPresses, TICK_DIVISOR};

fn keys(toggle_pause: bool, reset: bool, speed_up: bool, slow_down: bool) -> KeyPresses {
    KeyPresses { toggle_pause, reset, speed_up, slow_down }
}

#[test]
fn space_toggles_pause_and_r_requests_reset() {
    let mut paused = false;
    let mut speed: u32 = 1;
    assert!(!handle_input(&mut paused, &mut speed, keys(true, false, false, false)));
    assert!(paused);
    assert!(handle_input(&mut paused, &mut speed, keys(true, true, false, false)));
    assert!(!paused);
    assert_eq!(speed, 1);
}

#[test]
fn speed_doubles_up_to_sixteen_and_halves_down_to_one() {
    let mut paused = false;
    let mut speed: u32 = 1;
    let mut seen = vec![];
    for _ in 0..6 {
        handle_input(&mut paused, &mut speed, keys(false, false, true, false));
        seen.push(speed);
    }
    assert_eq!(seen, vec![2, 4, 8, 16, 16, 16]);
    seen.clear();
    for _ in 0..6 {
        handle_input(&mut paused, &mut speed, keys(false, false, false, true));
        seen.push(speed);
    }
    assert_eq!(seen, vec![8, 4, 2, 1, 1, 1]);
    // Both keys in one frame: `+` first, then `-`.
    speed = 16;
    handle_input(&mut paused, &mut speed, keys(false, false, true, true));
    assert_eq!(speed, 8);
    assert!(!paused);
}

#[test]
fn firmware_ticks_on_every_fourth_frame() {
    let mut frame: u32 = 0;
    let mut ticks = 0;
    for _ in 0..40 {
        let (tick, next) = frame_step(frame);
        if tick {
            ticks += 1;
        }
        assert_eq!(tick, frame % TICK_DIVISOR == 0);
        frame = next;
    }
    assert_eq!(ticks, 10);
    assert_eq!(frame_step(u32::MAX), (false, 0));
    assert_eq!(frame_step(0), (true, 1));
}
