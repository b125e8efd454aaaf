use lanmic::jitter::{pair, JitterReader, JitterShared, JitterWriter};

const TARGET: usize = 240; // 5 ms at 48 kHz

struct Buf {
    shared: JitterShared,
    w: JitterWriter,
    r: JitterReader,
}

impl Buf {
    fn new(target: usize) -> Self {
        let shared = JitterShared::new(target);
        let (w, r) = pair(&shared);
        Buf { shared, w, r }
    }

    fn feed(&mut self, seq: u32, ts: u32, value: i16, frames: usize) {
        let pcm = vec![value; frames];
        self.w
            .on_packet(&mut self.shared, seq, ts, Some(&pcm), frames, false);
    }

    fn read(&mut self, frames: usize) -> Vec<i16> {
        let mut out = vec![0i16; frames];
        self.r.read(&mut self.shared, &mut out);
        out
    }

    fn fill(&self) -> usize {
        self.shared.fill()
    }
}

#[test]
fn first_packet_primes_with_target_of_silence() {
    let mut b = Buf::new(TARGET);
    b.feed(0, 0, 1000, 120);
    assert_eq!(b.fill(), TARGET + 120);

    assert!(b.read(120).iter().all(|&s| s == 0));
    assert!(b.read(120).iter().all(|&s| s == 0));
    assert_eq!(b.fill(), 120);
    assert!(b.read(120).iter().all(|&s| s == 1000));
}

#[test]
fn an_in_order_stream_keeps_its_depth() {
    let mut b = Buf::new(TARGET);
    for i in 0..20u32 {
        b.feed(i, i * 120, (i + 1) as i16, 120);
    }
    assert_eq!(b.fill(), TARGET + 20 * 120);
}

#[test]
fn a_missing_packet_becomes_exactly_one_packet_of_silence() {
    let mut b = Buf::new(TARGET);
    b.feed(0, 0, 5, 120);
    b.feed(2, 240, 7, 120); // packet 1 (ts=120) never arrived

    b.read(120);
    b.read(120); // priming silence
    assert_eq!(b.read(120)[0], 5);
    assert_eq!(b.read(120)[0], 0, "the gap is concealed");
    assert_eq!(b.read(120)[0], 7);

    let s = b.shared.stats();
    assert_eq!(s.lost, 1);
    assert_eq!(s.concealed, 120);
}

#[test]
fn a_late_duplicate_is_dropped_not_played() {
    let mut b = Buf::new(TARGET);
    b.feed(0, 0, 5, 120);
    b.feed(1, 120, 6, 120);
    let before = b.fill();
    b.feed(2, 0, 9, 120); // arrives after its slot was written
    assert_eq!(b.fill(), before);
    assert_eq!(b.shared.stats().late, 1);
}

#[test]
fn a_runaway_buffer_is_trimmed_back_to_target() {
    let mut b = Buf::new(TARGET);
    for i in 0..40u32 {
        b.feed(i, i * 120, (100 + i) as i16, 120);
    }
    assert!(b.fill() > TARGET * 4);
    b.read(120);
    assert!(b.fill() <= TARGET);
    assert_eq!(b.shared.stats().trims, 1);
}

#[test]
fn underrun_conceals_then_re_primes_on_the_next_packet() {
    let mut b = Buf::new(TARGET);
    b.feed(0, 0, 3, 120);
    let mut last = Vec::new();
    for _ in 0..10 {
        last = b.read(120);
    }
    assert!(b.shared.stats().underruns > 0);
    assert!(last.iter().all(|&s| s == 0));

    b.feed(1, 120, 4, 120);
    assert_eq!(b.fill(), TARGET + 120, "re-primed");
}

#[test]
fn a_re_prime_tops_up_rather_than_stacking() {
    // A restart-sized timestamp jump primes back up to target. Appending a
    // whole target onto a buffer that is already deep would leave that
    // latency sitting there until the trim ceiling was crossed.
    let mut b = Buf::new(TARGET);
    for i in 0..8u32 {
        b.feed(i, i * 120, 3, 120);
    }
    assert_eq!(b.fill(), TARGET + 8 * 120);
    b.feed(8, 5_000_000, 4, 120); // far beyond max_gap: sender restarted
    assert_eq!(b.fill(), TARGET + 9 * 120);
}

#[test]
fn reset_drops_the_previous_session_but_not_the_next_one() {
    let mut b = Buf::new(TARGET);
    for i in 0..6u32 {
        b.feed(i, i * 240, 9000, 240);
    }
    b.read(240); // the reader is live on this buffer

    b.w.reset(&mut b.shared);
    assert_eq!(b.fill(), 0, "none of the old session is ours");

    b.feed(0, 0, 1234, 240);
    assert_eq!(b.fill(), TARGET + 240);
    assert!(b.read(240).iter().all(|&s| s == 0), "priming silence");
    assert!(b.read(240).iter().all(|&s| s == 1234), "then the new audio");
}

#[test]
fn a_full_ring_drops_the_packet_and_leaves_the_cursor_alone() {
    let mut b = Buf::new(TARGET);
    b.feed(0, 0, 1, 120);
    // Fill the ring without ever reading.
    let mut seq = 1u32;
    let mut ts = 120u32;
    while b.shared.capacity() - b.fill() >= 120 {
        b.feed(seq, ts, 2, 120);
        seq += 1;
        ts += 120;
    }
    let (before_fill, before_ts) = (b.fill(), b.w.write_ts());
    b.feed(seq, ts, 3, 120);
    assert_eq!(b.fill(), before_fill, "the payload is dropped whole");
    assert_eq!(b.w.write_ts(), before_ts, "so the next packet reads as a gap");
}

/// The writer resets while the reader is live. Crossed cursors are not a transient
/// glitch: they make the buffer report a depth larger than it can physically hold,
/// permanently.
#[test]
fn reset_under_a_live_reader_never_reports_an_impossible_depth() {
    let mut shared = JitterShared::new(240);
    let (mut w, mut r) = pair(&shared);
    let capacity = shared.capacity();
    let pcm = [777i16; 120];
    let mut out = [0i16; 120];
    let mut ts = 0u32;
    let mut bogus = 0;
    for i in 0..5000u32 {
        w.on_packet(&mut shared, i, ts, Some(&pcm), 120, false);
        ts = ts.wrapping_add(120);
        if i % 50 == 0 {
            // The same microphone leaving and rejoining.
            w.reset(&mut shared);
            ts = 0;
        }
        if i % 3 != 0 {
            r.read(&mut shared, &mut out);
        }
        if shared.fill() > capacity || shared.stats().fill_frames as usize > capacity {
            bogus += 1;
        }
    }
    assert_eq!(bogus, 0);
}

#[test]
fn muted_packets_write_silence_and_still_hold_the_timeline() {
    let mut b = Buf::new(TARGET);
    let pcm = [9999i16; 120];
    b.w.on_packet(&mut b.shared, 0, 0, Some(&pcm), 120, true);
    b.w.on_packet(&mut b.shared, 1, 120, Some(&pcm), 120, true);
    assert_eq!(b.fill(), TARGET + 240);
    for _ in 0..4 {
        assert!(b.read(120).iter().all(|&s| s == 0));
    }
    assert_eq!(b.shared.stats().concealed, 0, "muted is not a gap");
}

#[test]
fn a_short_payload_is_padded_rather_than_shifting_the_timeline() {
    // The router never does this, but the timeline invariant should not
    // depend on that: `frames` is what the header promised, and exactly
    // that much has to go in.
    let mut b = Buf::new(TARGET);
    let short = [5i16; 60];
    b.w.on_packet(&mut b.shared, 0, 0, Some(&short), 120, false);
    b.w.on_packet(&mut b.shared, 1, 120, Some(&short), 120, false);
    assert_eq!(b.fill(), TARGET + 240);
    assert_eq!(b.shared.stats().concealed, 0, "not a gap, a short packet");
}

#[test]
fn sequence_and_timestamp_wraparound_are_not_treated_as_loss() {
    let mut b = Buf::new(TARGET);
    let base_ts = u32::MAX - 119;
    b.feed(u32::MAX - 1, base_ts, 1, 120);
    b.feed(u32::MAX, base_ts.wrapping_add(120), 2, 120);
    b.feed(0, base_ts.wrapping_add(240), 3, 120);
    let s = b.shared.stats();
    assert_eq!(s.lost, 0);
    assert_eq!(s.late, 0);
    assert_eq!(b.fill(), TARGET + 360);
}

#[test]
fn a_buffer_is_sized_from_its_target() {
    let small = JitterShared::new(0);
    assert_eq!(small.target(), 1);
    assert_eq!(small.capacity(), 4096);
    let large = JitterShared::new(9600);
    assert_eq!(large.target(), 9600);
    assert_eq!(large.capacity(), 76800);
    assert!(large.has_headroom());
}

#[test]
fn a_short_payload_is_heard_and_then_silence() {
    let mut b = Buf::new(2);
    let short = [5i16; 3];
    b.w.on_packet(&mut b.shared, 7, 100, Some(&short), 5, false);
    assert_eq!(b.w.write_ts(), 105);
    assert_eq!(b.read(5), [0, 0, 5, 5, 5]);
    assert_eq!(b.read(2), [0, 0]);
    assert_eq!(b.fill(), 0);
}

#[test]
fn a_trim_keeps_the_newest_frames() {
    let mut b = Buf::new(4);
    let ramp: Vec<i16> = (1..=40).collect();
    b.w.on_packet(&mut b.shared, 0, 0, Some(&ramp), 40, false);
    // Four of priming silence and forty of audio: more than four targets.
    assert_eq!(b.fill(), 44);
    assert_eq!(b.read(3), [37, 38, 39]);
    assert_eq!(b.fill(), 1);
    assert_eq!(b.shared.stats().trims, 1);
    assert_eq!(b.read(1), [40]);
}

#[test]
fn two_reads_hear_what_one_would_have() {
    let ramp: Vec<i16> = (1..=30).collect();
    let mut one = Buf::new(10);
    one.w.on_packet(&mut one.shared, 0, 0, Some(&ramp), 30, false);
    let mut two = Buf::new(10);
    two.w.on_packet(&mut two.shared, 0, 0, Some(&ramp), 30, false);
    let whole = one.read(25);
    let mut parts = two.read(11);
    parts.extend(two.read(14));
    assert_eq!(whole, parts);
    assert_eq!(one.shared.stats(), two.shared.stats());
}

#[test]
fn an_empty_packet_still_primes_and_counts() {
    let mut b = Buf::new(TARGET);
    b.w.on_packet(&mut b.shared, 3, 50, None, 0, false);
    let s = b.shared.stats();
    assert_eq!((s.packets, s.resyncs, s.lost), (1, 1, 0));
    assert_eq!(b.fill(), TARGET);
    assert_eq!(b.w.write_ts(), 50);
}

#[test]
fn timestamps_place_audio_whatever_the_packets_are_numbered() {
    let mut b = Buf::new(TARGET);
    b.feed(9, 1000, 1, 10);
    // Five frames missing, then two that carry on from there.
    b.feed(3, 1015, 2, 5);
    b.feed(3, 1020, 3, 1);
    assert_eq!(b.w.write_ts(), 1021);
    b.read(TARGET);
    assert_eq!(
        b.read(21),
        [1, 1, 1, 1, 1, 1, 1, 1, 1, 1, 0, 0, 0, 0, 0, 2, 2, 2, 2, 2, 3]
    );
}

#[test]
fn only_silence_that_went_in_counts_as_concealed() {
    let mut b = Buf::new(TARGET);
    // Nobody reads. Packet 32 finds 16 free frames and is dropped whole, and the gap
    // in front of packet 33 has room for those 16 only.
    for i in 0..34u32 {
        b.feed(i, i * 120, 1, 120);
    }
    assert_eq!(b.fill(), 4096);
    assert_eq!(b.fill(), b.shared.capacity());
    let s = b.shared.stats();
    assert_eq!(s.concealed, 16);
    assert_eq!((s.packets, s.lost, s.late, s.resyncs), (34, 0, 0, 1));
    // With no room left nothing more is concealed.
    b.feed(34, 34 * 120, 1, 120);
    assert_eq!(b.shared.stats().concealed, 16);
}

#[test]
fn sequence_numbers_decide_nothing_but_the_losses() {
    let mut plain = Buf::new(TARGET);
    let mut odd = Buf::new(TARGET);
    // In order, a gap, a duplicate, a restart; reads in between.
    let stamps = [0u32, 120, 360, 360, 480, 90_000, 90_120];
    for (i, &ts) in stamps.iter().enumerate() {
        plain.feed(i as u32, ts, i as i16 + 1, 120);
        odd.feed((i as u32).wrapping_mul(7), ts, i as i16 + 1, 120);
        assert_eq!(plain.read(100), odd.read(100));
        assert_eq!(plain.fill(), odd.fill());
    }
    for _ in 0..12 {
        assert_eq!(plain.read(100), odd.read(100));
    }
    let mut a = plain.shared.stats();
    let b = odd.shared.stats();
    assert_eq!(a.lost, 0);
    assert_eq!(b.lost, 36);
    a.lost = b.lost;
    assert_eq!(a, b);
}

#[test]
fn nothing_from_before_a_reset_is_heard_however_full_the_ring_was() {
    let mut b = Buf::new(TARGET);
    // As full as it gets, with nobody reading.
    for i in 0..40u32 {
        b.feed(i, i * 120, 9, 120);
    }
    b.w.reset(&mut b.shared);
    assert_eq!(b.fill(), 0);
    // No room for the first packets of the new session; the reads make some.
    let mut heard = Vec::new();
    for i in 0..60u32 {
        b.feed(i, 5000 + i * 120, 3, 120);
        heard.extend(b.read(120));
    }
    assert!(heard.iter().all(|&s| s == 0 || s == 3));
    assert!(heard.iter().any(|&s| s == 3));
}
