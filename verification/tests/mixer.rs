use lanmic::meter::METER_CEILING;
use lanmic::mixer::{
    build, sort_sources, Mixer, SourceSnapshot, SourceWriter, Table, DEFAULT_FEEDBACK_SHIFT_HZ,
    MAX_CALLBACK_FRAMES, MAX_SOURCES,
};

const TARGET: usize = 480; // 10 ms

/// Feeds `packets` packets of `frames` frames into a slot.
fn feed(t: &mut Table, w: &mut SourceWriter, slot: usize, value: i16, packets: u32, frames: usize) {
    let pcm = vec![value; frames];
    for i in 0..packets {
        w.on_packet(t, slot, i, i * frames as u32, Some(&pcm), frames, false);
    }
}

/// One pass of the mixer, summed as the output stream sums it.
fn render(t: &mut Table, m: &mut Mixer, frames: usize) -> Vec<f32> {
    let n = m.render(t, frames);
    let mut mix = vec![0.0f32; n];
    for slot in 0..MAX_SOURCES {
        if let Some((pcm, gain)) = m.source(slot) {
            for (out, &s) in mix.iter_mut().zip(pcm) {
                *out += s as f32 * (1.0 / 32768.0) * (gain as f32 / 1000.0);
            }
        }
    }
    mix
}

/// A gain from the UI as milli-units.
fn milli(gain: f32) -> u32 {
    if gain.is_nan() || gain <= 0.0 {
        0
    } else {
        (gain * 1000.0) as u32
    }
}

#[test]
fn sources_sum_and_respond_to_gain_and_mute() {
    let (mut table, mut w, mut m) = build(TARGET);
    let a = w.acquire(&mut table, 0xAAAA, 0).unwrap();
    let b = w.acquire(&mut table, 0xBBBB, 0).unwrap();
    assert_eq!(w.acquire(&mut table, 0xAAAA, 0), Some(a), "same ssrc, same slot");

    feed(&mut table, &mut w, a, 8000, 5, 240);
    feed(&mut table, &mut w, b, 8000, 5, 240);

    // Two blocks of priming silence, then the audio.
    assert_eq!(render(&mut table, &mut m, 240).len(), 240);
    assert_eq!(table.active_sources(), 2);
    assert!(render(&mut table, &mut m, 240)[0].abs() < 1e-6);

    let expect = 2.0 * 8000.0 / 32768.0;
    assert!((render(&mut table, &mut m, 240)[0] - expect).abs() < 1e-3);

    table.set_source_muted(0xBBBB, true);
    assert!((render(&mut table, &mut m, 240)[0] - expect / 2.0).abs() < 1e-3);

    table.set_source_muted(0xBBBB, false);
    table.set_source_gain(0xAAAA, milli(0.5));
    assert!((render(&mut table, &mut m, 240)[0] - expect * 0.75).abs() < 1e-3);
}

#[test]
fn retiring_and_reaping_free_the_slot() {
    let (mut table, mut w, mut m) = build(TARGET);
    w.acquire(&mut table, 0xAAAA, 0).unwrap();
    w.acquire(&mut table, 0xBBBB, 0).unwrap();
    m.render(&mut table, 240);
    assert_eq!(table.active_sources(), 2);

    w.retire(&mut table, 0xBBBB);
    m.render(&mut table, 240);
    assert_eq!(table.active_sources(), 1);

    let mut snaps = Vec::new();
    table.snapshot(10, &mut snaps);
    assert_eq!(snaps.len(), 1);
    assert_eq!(snaps[0].ssrc, 0xAAAA);
    assert_eq!(snaps[0].age_ms, 10);

    w.reap_stale(&mut table, 5000, 2000);
    table.snapshot(5000, &mut snaps);
    assert!(snaps.is_empty());
}

#[test]
fn a_ninth_microphone_is_refused_rather_than_accommodated() {
    let (mut table, mut w, _m) = build(240);
    for i in 0..MAX_SOURCES {
        assert!(w.acquire(&mut table, 1000 + i as u32, 0).is_some());
    }
    assert_eq!(w.acquire(&mut table, 9999, 0), None);
}

#[test]
fn a_rejoining_source_does_not_play_the_previous_session() {
    let (mut table, mut w, mut m) = build(240);
    let slot = w.acquire(&mut table, 0xC0DE, 0).unwrap();
    feed(&mut table, &mut w, slot, 9000, 6, 240);
    m.render(&mut table, 240); // the mixer is live on this slot

    w.retire(&mut table, 0xC0DE);
    let again = w.acquire(&mut table, 0xC0DE, 0).unwrap();
    assert_eq!(again, slot, "the same slot is reused");

    let pcm = [1234i16; 240];
    w.on_packet(&mut table, again, 0, 0, Some(&pcm), 240, false);
    assert!(
        render(&mut table, &mut m, 240)[0].abs() < 1e-6,
        "priming silence, not the old 9000s"
    );
    assert!((render(&mut table, &mut m, 240)[0] - 1234.0 / 32768.0).abs() < 1e-4);
}

#[test]
fn gains_from_across_the_boundary_are_clamped() {
    let (mut table, mut w, mut m) = build(240);
    w.acquire(&mut table, 0xAAAA, 0).unwrap();

    table.set_source_gain(0xAAAA, milli(-5.0));
    table.snapshot(0, &mut Vec::new());
    table.set_source_gain(0xAAAA, milli(1e9));
    let mut snaps = Vec::new();
    table.snapshot(0, &mut snaps);
    assert_eq!(snaps[0].gain_milli, METER_CEILING);

    table.set_source_gain(0xAAAA, milli(f32::NAN));
    table.snapshot(0, &mut snaps);
    assert_eq!(snaps[0].gain_milli, 0);

    // Master gain follows the same rule, and nothing panics on the way.
    table.set_master_gain(milli(f32::NAN));
    table.set_master_gain(milli(-1.0));
    assert_eq!(table.master_gain(), 0);
    table.set_master_gain(milli(1e9));
    assert_eq!(table.master_gain(), METER_CEILING);
    m.render(&mut table, 240);
}

#[test]
fn render_is_clamped_rather_than_allocating_for_an_absurd_block() {
    let (mut table, mut w, mut m) = build(240);
    w.acquire(&mut table, 1, 0).unwrap();
    assert_eq!(
        m.render(&mut table, MAX_CALLBACK_FRAMES + 1),
        MAX_CALLBACK_FRAMES
    );
}

#[test]
fn a_source_running_ahead_is_trimmed_rather_than_allowed_to_lag() {
    // Feeding faster than the reader drains is how clock drift shows up, and it
    // is shed by dropping the oldest audio, capped at four times the target.
    let (mut table, mut w, mut m) = build(240);
    let slot = w.acquire(&mut table, 1, 0).unwrap();
    feed(&mut table, &mut w, slot, 1000, 20, 240);

    let mut snaps = Vec::new();
    table.snapshot(0, &mut snaps);
    assert!(snaps[0].buffer_frames > 240 * 4);

    m.render(&mut table, 240);
    table.snapshot(0, &mut snaps);
    assert!(snaps[0].buffer_frames <= 240, "trimmed back to target");
}

#[test]
fn a_muted_source_is_drained_like_the_others() {
    let (mut table, mut w, mut m) = build(240);
    let slot = w.acquire(&mut table, 5, 0).unwrap();
    feed(&mut table, &mut w, slot, 100, 2, 240);
    table.set_source_muted(5, true);
    for _ in 0..2 {
        m.render(&mut table, 240);
    }
    assert_eq!(m.source(slot), Some((&[100i16; 240][..], 0)));
    table.set_source_muted(5, false);
    m.render(&mut table, 240);
    assert_eq!(m.source(slot), Some((&[100i16; 240][..], 1000)));
    assert_eq!(m.source(slot + 1), None);
}

#[test]
fn an_age_is_pinned_rather_than_wrapped() {
    let (mut table, mut w, _m) = build(240);
    w.acquire(&mut table, 1, 1000).unwrap();
    let mut snaps = Vec::new();
    table.snapshot(0, &mut snaps);
    assert_eq!(snaps[0].age_ms, 0, "the clock has gone back");
    table.snapshot(i64::MAX, &mut snaps);
    assert_eq!(snaps[0].age_ms, u32::MAX);
    // A source exactly at the timeout stays.
    w.reap_stale(&mut table, 3000, 2000);
    table.snapshot(3000, &mut snaps);
    assert_eq!(snaps.len(), 1);
    w.reap_stale(&mut table, 3001, 2000);
    table.snapshot(3001, &mut snaps);
    assert!(snaps.is_empty());
}

#[test]
fn the_first_free_slot_is_the_one_that_is_claimed() {
    let (mut table, mut w, _m) = build(240);
    for i in 0..4u32 {
        assert_eq!(w.acquire(&mut table, i, 0), Some(i as usize));
    }
    w.retire(&mut table, 1);
    w.retire(&mut table, 2);
    assert_eq!(w.acquire(&mut table, 77, 5), Some(1));
    assert_eq!(w.acquire(&mut table, 3, 5), Some(3), "everybody else keeps their own");
}

#[test]
fn a_new_session_starts_at_unity_and_unmuted() {
    let (mut table, mut w, _m) = build(240);
    w.acquire(&mut table, 9, 0).unwrap();
    table.set_source_gain(9, 100);
    table.set_source_muted(9, true);
    table.publish_source_peak(0, 700);
    w.retire(&mut table, 9);
    w.acquire(&mut table, 9, 50).unwrap();
    let mut snaps = Vec::new();
    table.snapshot(50, &mut snaps);
    assert_eq!(
        snaps[0],
        SourceSnapshot {
            ssrc: 9,
            gain_milli: 1000,
            ..Default::default()
        }
    );
}

#[test]
fn settings_for_a_source_nobody_holds_change_nothing() {
    let (mut table, mut w, _m) = build(240);
    w.acquire(&mut table, 1, 0).unwrap();
    table.set_source_gain(2, 5);
    table.set_source_muted(2, true);
    w.retire(&mut table, 2);
    let mut snaps = Vec::new();
    table.snapshot(0, &mut snaps);
    assert_eq!(snaps.len(), 1);
    assert_eq!((snaps[0].gain_milli, snaps[0].muted), (1000, false));
}

#[test]
fn the_feedback_shift_is_on_by_default_and_clamped() {
    let (mut table, _w, _m) = build(240);
    assert_eq!(table.feedback_shift(), DEFAULT_FEEDBACK_SHIFT_HZ * 1000);
    table.set_feedback_shift(0);
    assert_eq!(table.feedback_shift(), 0);
    table.set_feedback_shift(7_500);
    assert_eq!(table.feedback_shift(), 7_500);
    table.set_feedback_shift(u32::MAX);
    assert_eq!(table.feedback_shift(), 30_000);
}

#[test]
fn meters_are_published_through_the_table() {
    let (mut table, mut w, _m) = build(240);
    let slot = w.acquire(&mut table, 1, 0).unwrap();
    table.publish_source_peak(slot, 800);
    table.publish_source_peak(slot, 0);
    let mut snaps = Vec::new();
    table.snapshot(0, &mut snaps);
    assert_eq!(snaps[0].peak_milli, 750);
    table.publish_master(5000, 400);
    assert_eq!((table.master_peak(), table.limiter_gain()), (METER_CEILING, 400));
    assert!(table.has_headroom());
}

#[test]
fn strips_with_one_ssrc_keep_their_order() {
    let of = |ssrc: u32, packets: u32| SourceSnapshot {
        ssrc,
        packets,
        ..Default::default()
    };
    let mut sources = vec![of(2, 1), of(1, 1), of(2, 2), of(1, 2)];
    sort_sources(&mut sources);
    assert_eq!(sources, [of(1, 1), of(1, 2), of(2, 1), of(2, 2)]);
}

#[test]
fn strips_are_put_in_a_stable_order() {
    let of = |ssrc: u32| SourceSnapshot {
        ssrc,
        packets: ssrc * 10,
        ..Default::default()
    };
    let mut sources = vec![of(5), of(1), of(9), of(3)];
    sort_sources(&mut sources);
    assert_eq!(sources, [of(1), of(3), of(5), of(9)]);
    let mut none: Vec<SourceSnapshot> = Vec::new();
    sort_sources(&mut none);
    assert!(none.is_empty());
}

#[test]
fn a_rejoining_source_is_never_heard_from_before_whatever_else_goes_on() {
    let (mut table, mut w, mut m) = build(240);
    let slot = w.acquire(&mut table, 0xC0DE, 0).unwrap();
    let other = w.acquire(&mut table, 0xBEEF, 0).unwrap();
    // Nobody reads, so the ring of the first session fills up.
    feed(&mut table, &mut w, slot, 9000, 40, 240);
    w.retire(&mut table, 0xC0DE);
    let again = w.acquire(&mut table, 0xC0DE, 0).unwrap();
    assert_eq!(again, slot);

    let mut seen = false;
    for i in 0..40u32 {
        w.on_packet(&mut table, again, i, i * 240, Some(&[12; 240]), 240, false);
        w.on_packet(&mut table, other, i, i * 240, Some(&[77; 240]), 240, false);
        table.set_source_gain(0xBEEF, 500);
        let n = m.render(&mut table, 240);
        assert_eq!(n, 240);
        let (pcm, gain) = m.source(again).unwrap();
        assert_eq!(gain, 1000);
        assert!(pcm.iter().all(|&s| s == 0 || s == 12));
        seen |= pcm.contains(&12);
    }
    assert!(seen);
}
