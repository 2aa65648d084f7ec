use rogue_core::easing::{cubic_ease_in_out, EASE_SCALE};
use rogue_core::movement::MoveAnimation;

#[test]
fn progress_starts_at_zero_and_ends_at_full() {
    assert_eq!(cubic_ease_in_out(0, 200), 0);
    assert_eq!(cubic_ease_in_out(200, 200), EASE_SCALE);
    assert_eq!(cubic_ease_in_out(0, 1), 0);
    assert_eq!(cubic_ease_in_out(1, 1), EASE_SCALE);
}

#[test]
fn progress_hits_exactly_half_at_midtime() {
    // 4 * 100^3 * 1024 / 200^3 == 512.
    assert_eq!(cubic_ease_in_out(100, 200), 512);
}

#[test]
fn progress_is_cubic_in_the_first_half() {
    // 4 * 50^3 * 1024 / 200^3 == 64.
    assert_eq!(cubic_ease_in_out(50, 200), 64);
    // 4 * 25^3 * 1024 / 200^3 == 8.
    assert_eq!(cubic_ease_in_out(25, 200), 8);
}

#[test]
fn progress_mirrors_in_the_second_half() {
    assert_eq!(cubic_ease_in_out(150, 200), 1024 - 64);
    assert_eq!(cubic_ease_in_out(175, 200), 1024 - 8);
}

#[test]
fn progress_never_decreases_over_a_move() {
    let mut last: u32 = 0;
    for t in 0..=200 {
        let e = cubic_ease_in_out(t, 200);
        assert!(e >= last, "progress dropped at t = {t}");
        assert!(e <= EASE_SCALE);
        last = e;
    }
}

fn anim(from: (u64, u64), to: (u64, u64), elapsed_ms: u32) -> MoveAnimation {
    MoveAnimation {
        from_x: from.0,
        from_y: from.1,
        to_x: to.0,
        to_y: to.1,
        elapsed_ms,
        duration_ms: 200,
    }
}

#[test]
fn sample_starts_at_the_old_position() {
    assert_eq!(anim((32, 32), (48, 32), 0).sample(), (32, 32));
}

#[test]
fn sample_ends_exactly_on_the_new_position() {
    assert_eq!(anim((32, 32), (48, 32), 200).sample(), (48, 32));
    assert_eq!(anim((80, 96), (80, 80), 200).sample(), (80, 80));
}

#[test]
fn sample_interpolates_between_the_tiles() {
    // At midtime the eased progress is 512/1024: exactly halfway.
    assert_eq!(anim((32, 32), (48, 32), 100).sample(), (40, 32));
    // At a quarter of the time the progress is 64/1024: one pixel of 16.
    assert_eq!(anim((32, 32), (48, 32), 50).sample(), (33, 32));
    // Interpolation also runs backward, toward smaller coordinates.
    assert_eq!(anim((48, 32), (32, 32), 100).sample(), (40, 32));
}

#[test]
fn begin_runs_for_the_fixed_duration() {
    let a = MoveAnimation::begin((32, 32), (32, 48));
    assert_eq!(a.elapsed_ms, 0);
    assert_eq!(a.duration_ms, 200);
    assert_eq!(a.from_x, 32);
    assert_eq!(a.to_y, 48);
}
