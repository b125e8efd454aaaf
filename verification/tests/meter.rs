use lanmic::meter::{level_milli, update_peak_meter, METER_CEILING, METER_FULL_SCALE};

/// A linear level as milli-units; nothing that is not a positive number gets through.
fn milli(level: f32) -> u32 {
    if level > 0.0 {
        (level * METER_FULL_SCALE as f32) as u32
    } else {
        0
    }
}

#[test]
fn attack_is_instant_and_decay_is_gradual() {
    let mut m = 0u32;
    update_peak_meter(&mut m, milli(0.8));
    assert_eq!(m, 800);
    update_peak_meter(&mut m, milli(0.9));
    assert_eq!(m, 900);

    update_peak_meter(&mut m, milli(0.1));
    assert!((100..900).contains(&m), "decayed rather than snapped: {m}");
}

#[test]
fn silence_actually_reaches_zero() {
    // A bare `cur >> 4` decay stalls at 15 and parks every meter at
    // -36 dBFS - 39% of a -60..0 dB bar - forever.
    let mut m = METER_CEILING;
    for _ in 0..100_000 {
        update_peak_meter(&mut m, milli(0.0));
    }
    assert_eq!(m, 0);
}

#[test]
fn overs_are_reported_up_to_the_ceiling() {
    let mut m = 0u32;
    update_peak_meter(&mut m, milli(1.5));
    assert_eq!(m, 1500);
    update_peak_meter(&mut m, milli(99.0));
    assert_eq!(m, METER_CEILING);
}

#[test]
fn nan_and_negative_levels_do_not_wrap() {
    let mut m = 500u32;
    update_peak_meter(&mut m, milli(f32::NAN));
    assert!(m < 500);
    update_peak_meter(&mut m, milli(-3.0));
    assert!(m < 500);
}

#[test]
fn a_fall_is_a_sixteenth_and_never_less_than_one() {
    for (from, to) in [(1600u32, 1500u32), (32, 30), (31, 30), (16, 15), (15, 14), (1, 0), (0, 0)] {
        let mut m = from;
        update_peak_meter(&mut m, 0);
        assert_eq!(m, to, "from {from}");
    }
}

#[test]
fn the_level_of_a_block_is_its_largest_magnitude() {
    assert_eq!(level_milli(&[]), 0);
    assert_eq!(level_milli(&[0, 0]), 0);
    assert_eq!(level_milli(&[1, -16384, 5]), 500);
    assert_eq!(level_milli(&[i16::MIN]), 1000);
    assert_eq!(level_milli(&[i16::MAX]), 999);
    assert_eq!(level_milli(&[33]), 1);
    assert_eq!(level_milli(&[32]), 0);
}

#[test]
fn the_level_of_a_block_is_what_a_float_meter_would_show() {
    for peak in 0..=32767i32 {
        let want = (peak as f32 / 32768.0 * 1000.0) as u32;
        assert_eq!(level_milli(&[peak as i16]), want, "{peak}");
    }
}
