//! Microphone to loudspeaker, datagram by datagram.
//!
//! Everything here is the code the app runs, minus the sockets and the audio
//! streams: the capture encoder stands in for the input callback and
//! `Mixer::render` for the output one.
use lanmic::mixer::{Mixer, Table, MAX_SOURCES};
use lanmic::protocol::{Header, PacketType};
use lanmic::receiver::{self, PacketRouter, Polled, RxShared};
use lanmic::ring::SampleRing;
use lanmic::transmitter::{self, CaptureEncoder, Packetiser, SendOutcome, TxShared};

const JITTER_MS: i32 = 25;
const TARGET_FRAMES: usize = 48_000 * JITTER_MS as usize / 1000; // 1200
const BLOCK: usize = 240;

struct Rig {
    router: PacketRouter,
    mixer: Mixer,
    table: Table,
    rx_shared: RxShared,
}

fn rig() -> Rig {
    let (router, mixer, table) = receiver::build(JITTER_MS);
    Rig {
        router,
        mixer,
        table,
        rx_shared: RxShared::default(),
    }
}

impl Rig {
    fn deliver(&mut self, datagram: &[u8], now_ms: i64) -> Polled {
        self.router
            .poll(&mut self.table, &mut self.rx_shared, now_ms, Some(datagram))
    }

    fn idle(&mut self, now_ms: i64) -> Polled {
        self.router
            .poll(&mut self.table, &mut self.rx_shared, now_ms, None)
    }

    /// One pass of the mixer, summed as the output stream sums it.
    fn render(&mut self, frames: usize) -> Vec<f32> {
        let n = self.mixer.render(&mut self.table, frames);
        let mut mix = vec![0.0f32; n];
        for slot in 0..MAX_SOURCES {
            if let Some((pcm, gain)) = self.mixer.source(slot) {
                for (out, &s) in mix.iter_mut().zip(pcm) {
                    *out += s as f32 * (1.0 / 32768.0) * (gain as f32 / 1000.0);
                }
            }
        }
        mix
    }
}

struct Mic {
    shared: TxShared,
    ring: SampleRing,
    enc: CaptureEncoder,
    tx: Packetiser,
}

fn microphone(frames_per_packet: usize, entropy: u64) -> Mic {
    let mut shared = TxShared::default();
    shared.reset_for_session();
    let (ring, enc, tx) = transmitter::build(frames_per_packet, entropy);
    Mic {
        shared,
        ring,
        enc,
        tx,
    }
}

impl Mic {
    /// One burst through the capture path, scaled as the input stream scales it.
    fn push(&mut self, input: &[i16], channels: usize) -> usize {
        let Some(gain) = self.enc.downmix(&mut self.shared, input, channels) else {
            return 0;
        };
        let gain = gain as f32 / 1000.0;
        let mono: Vec<i16> = self
            .enc
            .sums()
            .iter()
            .map(|&sum| (sum as f32 / channels.max(1) as f32 * gain).clamp(-32768.0, 32767.0) as i16)
            .collect();
        self.enc.push(&mut self.shared, &mut self.ring, &mono)
    }

    fn pump(&mut self) -> Vec<Vec<u8>> {
        self.tx.pump(&mut self.shared, &mut self.ring)
    }
}

#[test]
fn a_ramp_survives_capture_wire_and_mix_sample_accurate() {
    let mut r = rig();
    let mut mic = microphone(120, 1);

    // 20 packets of a ramp, pushed through the capture path a burst at a time.
    const PACKETS: usize = 20;
    const FRAMES: usize = 120;
    let ramp: Vec<i16> = (0..PACKETS * FRAMES).map(|i| (i % 20_000) as i16).collect();
    for burst in ramp.chunks(FRAMES) {
        assert_eq!(mic.push(burst, 1), burst.len());
    }
    let packets = mic.pump();
    assert_eq!(packets.len(), PACKETS);

    let audio: Vec<Polled> = packets.iter().map(|p| r.deliver(p, 0)).collect();
    assert_eq!(audio.len(), PACKETS, "every packet arrived: {audio:?}");
    assert!(audio
        .iter()
        .all(|p| matches!(p, Polled::Audio { frames: 120, .. })));

    // The priming silence comes out first, then the ramp, in order.
    for _ in 0..TARGET_FRAMES / BLOCK {
        assert!(r.render(BLOCK).iter().all(|s| s.abs() < 1e-6));
    }

    let mut index = 0usize;
    for _ in 0..PACKETS * FRAMES / BLOCK {
        for s in r.render(BLOCK) {
            let want = (index % 20_000) as f32 / 32768.0;
            assert!(
                (s - want).abs() < 1e-4,
                "sample {index}: got {s}, want {want}"
            );
            index += 1;
        }
    }
    assert_eq!(index, PACKETS * FRAMES);
    assert_eq!(r.table.active_sources(), 1);
}

#[test]
fn stereo_capture_is_downmixed_to_the_mono_wire_format() {
    let mut r = rig();
    let mut mic = microphone(120, 1);

    // Left and right average to a known value, and the two do not simply sum
    // into clipping.
    let interleaved: Vec<i16> = (0..120).flat_map(|_| [30_000i16, 10_000i16]).collect();
    mic.push(&interleaved, 2);
    let packets = mic.pump();
    assert_eq!(packets.len(), 1);
    r.deliver(&packets[0], 0);

    for _ in 0..TARGET_FRAMES / BLOCK {
        r.render(BLOCK);
    }
    let want = 20_000.0 / 32768.0;
    for &s in &r.render(120)[..120] {
        assert!((s - want).abs() < 1e-3, "got {s}, want {want}");
    }
}

#[test]
fn two_microphones_land_on_separate_strips_and_sum() {
    let mut r = rig();
    let mut a = microphone(240, 11);
    let mut b = microphone(240, 22);
    assert_ne!(a.tx.ssrc(), b.tx.ssrc(), "each session picks its own ssrc");

    for _ in 0..6 {
        a.push(&[8000i16; 240], 1);
        b.push(&[8000i16; 240], 1);
    }
    for p in a.pump() {
        r.deliver(&p, 0);
    }
    for p in b.pump() {
        r.deliver(&p, 0);
    }

    for _ in 0..TARGET_FRAMES / BLOCK {
        r.render(BLOCK);
    }
    assert_eq!(r.table.active_sources(), 2);
    let want = 2.0 * 8000.0 / 32768.0;
    assert!((r.render(BLOCK)[0] - want).abs() < 1e-3);

    // Muting one strip halves the bus without disturbing the other.
    r.table.set_source_muted(a.tx.ssrc(), true);
    assert!((r.render(BLOCK)[0] - want / 2.0).abs() < 1e-3);
}

#[test]
fn hello_lights_a_strip_up_and_bye_drops_it() {
    let mut r = rig();
    let mic = microphone(240, 3);

    let hello = mic.tx.control_packet(PacketType::Hello);
    let seen: Vec<Polled> = (0..3).map(|_| r.deliver(&hello, 0)).collect();
    assert!(seen.iter().any(|p| *p == Polled::Hello(mic.tx.ssrc())));
    r.render(BLOCK);
    assert_eq!(r.table.active_sources(), 1);

    let bye = mic.tx.control_packet(PacketType::Bye);
    let seen: Vec<Polled> = (0..3).map(|_| r.deliver(&bye, 0)).collect();
    assert!(seen.iter().any(|p| *p == Polled::Bye(mic.tx.ssrc())));
    r.render(BLOCK);
    assert_eq!(r.table.active_sources(), 0);
}

#[test]
fn a_source_that_stops_talking_is_reaped() {
    let mut r = rig();
    let mic = microphone(240, 3);
    let hello = mic.tx.control_packet(PacketType::Hello);
    r.deliver(&hello, 1_000);
    r.render(BLOCK);
    assert_eq!(r.table.active_sources(), 1);

    // Nothing arrives, and the clock moves past the timeout.
    assert_eq!(
        r.idle(1_000 + receiver::SOURCE_TIMEOUT_MS + 600),
        Polled::Idle
    );
    r.render(BLOCK);
    assert_eq!(r.table.active_sources(), 0);
}

#[test]
fn a_muted_microphone_holds_its_strip_but_sends_silence() {
    let mut r = rig();
    let mut mic = microphone(240, 3);
    mic.shared.set_muted(true);

    for _ in 0..6 {
        mic.push(&[20_000i16; 240], 1);
    }
    for p in mic.pump() {
        r.deliver(&p, 0);
    }

    for _ in 0..TARGET_FRAMES / BLOCK + 4 {
        assert!(r.render(BLOCK).iter().all(|s| s.abs() < 1e-6));
    }
    assert_eq!(r.table.active_sources(), 1, "the strip stays lit");
}

#[test]
fn rubbish_on_the_audio_port_is_counted_and_ignored() {
    let mut r = rig();
    let mut seen = Vec::new();
    seen.push(r.deliver(b"hello?", 0));
    seen.push(r.deliver(&[0u8; 64], 0));
    // LAU1 with a payload of zero frames.
    seen.push(r.deliver(&Header::new(PacketType::Audio).to_bytes(), 0));
    // LAU1 claiming a channel count this version does not speak.
    let mut stereo = Header::new(PacketType::Audio);
    stereo.channels = 2;
    let mut pkt = stereo.to_bytes().to_vec();
    pkt.extend_from_slice(&[0u8; 480]);
    seen.push(r.deliver(&pkt, 0));
    // A packet type from some future version.
    let mut future = Header::new(PacketType::Audio);
    future.packet_type = 200;
    seen.push(r.deliver(&future.to_bytes(), 0));

    assert_eq!(seen.len(), 5);
    assert_eq!(
        seen.iter().filter(|p| **p == Polled::Malformed).count(),
        4,
        "{seen:?}"
    );
    assert_eq!(seen.iter().filter(|p| **p == Polled::Ignored).count(), 1);

    let stats = r.rx_shared.stats(&r.table);
    assert_eq!(stats.bad_packets, 4);
    assert_eq!(stats.packets, 3);
    assert_eq!(r.table.active_sources(), 0);
    r.render(BLOCK);
    assert_eq!(r.table.active_sources(), 0);
}

#[test]
fn a_ninth_microphone_is_refused_and_the_other_eight_carry_on() {
    let mut r = rig();
    let mics: Vec<Mic> = (0..MAX_SOURCES as u64 + 1)
        .map(|i| microphone(240, 100 + 2 * i))
        .collect();
    let seen: Vec<Polled> = mics
        .iter()
        .map(|m| r.deliver(&m.tx.control_packet(PacketType::Hello), 0))
        .collect();
    assert_eq!(
        seen.iter()
            .filter(|p| matches!(p, Polled::Hello(_)))
            .count(),
        MAX_SOURCES
    );
    assert_eq!(
        seen.iter()
            .filter(|p| matches!(p, Polled::TableFull(_)))
            .count(),
        1
    );
    r.render(BLOCK);
    assert_eq!(r.table.active_sources(), MAX_SOURCES as u32);
}

#[test]
fn frames_the_capture_ring_could_not_take_become_a_gap_not_a_splice() {
    let mut mic = microphone(240, 3);

    // Push far more than the half-second capture ring holds without ever
    // draining it: the only way frames are ever lost on this side.
    let burst = vec![1000i16; 4800];
    let (mut offered, mut accepted) = (0usize, 0usize);
    for _ in 0..8 {
        offered += burst.len();
        accepted += mic.push(&burst, 1);
    }
    let dropped = offered - accepted;
    assert!(dropped > 0, "the ring should have overflowed");
    assert_eq!(mic.shared.stats().frames_dropped, dropped as u64);

    let headers: Vec<Header> = mic
        .pump()
        .iter()
        .map(|p| Header::decode(p).unwrap())
        .collect();
    assert!(headers.len() > 1, "got {} packets", headers.len());

    // The invariant that matters: the timeline the receiver reconstructs is as
    // long as the audio that was captured, hole included. If the drop were
    // simply skipped, the stream would be short by exactly `dropped` frames and
    // would run that much early for the rest of the session.
    const FPP: u32 = 240;
    let timeline = headers.last().unwrap().timestamp.wrapping_add(FPP);
    assert_eq!(timeline, headers.len() as u32 * FPP + dropped as u32);

    // Every step but the one carrying the hole is exactly one packet.
    let steps: Vec<u32> = headers
        .windows(2)
        .map(|w| w[1].timestamp.wrapping_sub(w[0].timestamp))
        .collect();
    assert!(steps.iter().all(|&s| s == FPP), "{steps:?}");
    assert_eq!(headers[0].timestamp, dropped as u32);
}

#[test]
fn a_gap_in_capture_is_heard_as_silence_of_the_same_length() {
    let mut r = rig();
    let mut mic = microphone(240, 3);
    mic.push(&[100i16; 240], 1);
    for p in mic.pump() {
        r.deliver(&p, 0);
    }
    // A burst too large to take at all.
    assert_eq!(mic.push(&[7i16; 8193], 1), 0);
    assert_eq!(mic.shared.stats().frames_dropped, 8193);
    assert_eq!(mic.shared.pending_gap, 8193);
    // More than the receiver conceals: it starts over, topped up to its target.
    mic.push(&[200i16; 240], 1);
    for p in mic.pump() {
        assert_eq!(Header::decode(&p).unwrap().timestamp, 240 + 8193);
        r.deliver(&p, 0);
    }
    let mut snaps = Vec::new();
    r.table.snapshot(0, &mut snaps);
    assert_eq!(snaps[0].buffer_frames as usize, TARGET_FRAMES + 480);
    // A gap it can conceal goes in frame for frame.
    mic.shared.pending_gap = 1000;
    mic.push(&[300i16; 240], 1);
    for p in mic.pump() {
        r.deliver(&p, 0);
    }
    r.table.snapshot(0, &mut snaps);
    assert_eq!(snaps[0].buffer_frames as usize, TARGET_FRAMES + 480 + 1240);
}

#[test]
fn a_microphone_that_fell_silent_mid_packet_waits_for_a_whole_one() {
    let mut mic = microphone(100, 9);
    mic.push(&[5i16; 250], 1);
    let packets = mic.pump();
    assert_eq!(packets.len(), 2);
    assert_eq!(packets[0].len(), 20 + 200);
    assert_eq!(mic.ring.len(), 50);
    mic.push(&[6i16; 50], 1);
    let packets = mic.pump();
    assert_eq!(packets.len(), 1);
    let h = Header::decode(&packets[0]).unwrap();
    assert_eq!((h.seq, h.timestamp), (2, 200));
    assert_eq!(&packets[0][20..24], &[5, 0, 5, 0]);
    assert_eq!(&packets[0][218..], &[6, 0]);
    assert!(mic.pump().is_empty());
}

#[test]
fn a_muted_packet_says_so_on_the_wire() {
    let mut mic = microphone(60, 9);
    mic.shared.set_muted(true);
    mic.push(&[5i16; 60], 1);
    let packets = mic.pump();
    assert!(Header::decode(&packets[0]).unwrap().muted());
    assert!(packets[0][20..].iter().all(|&b| b == 0));
}

#[test]
fn packet_sizes_are_brought_into_range() {
    assert_eq!(microphone(0, 1).tx.frames_per_packet(), 60);
    assert_eq!(microphone(61, 1).tx.frames_per_packet(), 61);
    assert_eq!(microphone(100_000, 1).tx.frames_per_packet(), 960);
}

#[test]
fn an_ssrc_is_never_zero() {
    assert_eq!(transmitter::random_ssrc(0), 1);
    assert_eq!(transmitter::random_ssrc(0xFFFF_FFFF_0000_0000), 1);
    assert_eq!(transmitter::random_ssrc(0x1_2345_6788), 0x2345_6789);
    assert_eq!(transmitter::random_ssrc(0x1_2345_6789), 0x2345_6789);
}

#[test]
fn channels_are_summed_frame_by_frame() {
    let mut mic = microphone(60, 1);
    let gain = mic
        .enc
        .downmix(&mut mic.shared, &[1, 2, 3, 4, 5, 6, 7], 3);
    assert_eq!(gain, Some(1000));
    assert_eq!(mic.enc.sums(), &[6, 15]);
    // No channels at all counts as one.
    assert_eq!(mic.enc.downmix(&mut mic.shared, &[-5, 9], 0), Some(1000));
    assert_eq!(mic.enc.sums(), &[-5, 9]);
    assert_eq!(mic.enc.downmix(&mut mic.shared, &[1], 2), None);
    assert_eq!(mic.shared.stats().frames_dropped, 0);
}

#[test]
fn sends_are_counted_by_how_they_ended() {
    let mut shared = TxShared::default();
    shared.record_send(SendOutcome::Sent);
    shared.record_send(SendOutcome::Busy);
    shared.record_send(SendOutcome::Failed);
    shared.record_send(SendOutcome::Sent);
    let stats = shared.stats();
    assert_eq!((stats.packets_sent, stats.send_errors), (2, 1));
}

#[test]
fn a_session_starts_clean() {
    let mut shared = TxShared::default();
    shared.running = true;
    shared.set_muted(true);
    shared.set_gain(99_999);
    assert_eq!(shared.gain_milli, 8000);
    shared.set_xruns(4);
    shared.set_latency(1500);
    shared.restart_requested = true;
    shared.reset_for_session();
    assert!(!shared.muted());
    assert!(shared.running);
    assert_eq!(
        shared,
        TxShared {
            running: true,
            ..TxShared::default()
        }
    );

    let mut rx = RxShared::default();
    rx.running = true;
    rx.set_xruns(3);
    rx.set_latency(9);
    rx.packets = 5;
    rx.reset_for_session();
    assert_eq!(
        rx,
        RxShared {
            running: true,
            ..RxShared::default()
        }
    );
}

#[test]
fn the_meter_follows_what_was_captured() {
    let mut mic = microphone(60, 1);
    mic.push(&[-16384i16; 60], 1);
    assert_eq!(mic.shared.stats().peak, 500);
    mic.push(&[0i16; 60], 1);
    assert_eq!(mic.shared.stats().peak, 469);
}

#[test]
fn the_jitter_target_is_brought_into_range() {
    for (ms, frames) in [(1, 240u32), (5, 240), (25, 1200), (200, 9600), (9999, 9600)] {
        let (mut router, _mixer, mut table) = receiver::build(ms);
        let mut shared = RxShared::default();
        let mut mic = microphone(60, 5);
        mic.push(&[1i16; 60], 1);
        for p in mic.pump() {
            router.poll(&mut table, &mut shared, 0, Some(&p));
        }
        let mut snaps = Vec::new();
        table.snapshot(0, &mut snaps);
        assert_eq!(snaps[0].buffer_frames, frames + 60, "{ms} ms");
    }
}

#[test]
fn an_oversized_packet_is_malformed() {
    let mut r = rig();
    let mut pkt = Header::new(PacketType::Audio).to_bytes().to_vec();
    pkt.extend_from_slice(&[0u8; 1922]);
    assert_eq!(r.deliver(&pkt, 0), Polled::Malformed);
    // An odd byte at the end is not a frame.
    pkt.truncate(20 + 1921);
    assert_eq!(
        r.deliver(&pkt, 0),
        Polled::Audio {
            ssrc: 0,
            frames: 960
        }
    );
}

#[test]
fn suppression_is_on_by_default_where_the_table_comes_from() {
    let (_router, _mixer, table) = receiver::build(JITTER_MS);
    assert_eq!(
        table.feedback_shift(),
        lanmic::mixer::DEFAULT_FEEDBACK_SHIFT_HZ * 1000
    );
}

#[test]
fn a_packet_for_a_full_desk_changes_nothing_but_the_count() {
    let mut r = rig();
    for i in 0..MAX_SOURCES as u64 {
        let mic = microphone(240, 2 * i);
        r.deliver(&mic.tx.control_packet(PacketType::Hello), 0);
    }
    let mut before = Vec::new();
    r.table.snapshot(5, &mut before);
    let mut ninth = microphone(240, 99);
    ninth.push(&[1i16; 240], 1);
    for p in ninth.pump() {
        assert_eq!(r.deliver(&p, 5), Polled::TableFull(ninth.tx.ssrc()));
    }
    let mut after = Vec::new();
    r.table.snapshot(5, &mut after);
    assert_eq!(before, after);
    assert_eq!(r.rx_shared.packets, MAX_SOURCES as u64 + 1);
    assert_eq!(r.rx_shared.bad_packets, 0);
}

#[test]
fn quiet_sources_are_looked_for_once_in_an_interval() {
    let mut r = rig();
    let a = microphone(240, 2);
    let b = microphone(240, 4);
    r.deliver(&a.tx.control_packet(PacketType::Hello), 1_000);
    r.deliver(&b.tx.control_packet(PacketType::Hello), 2_600);
    let mut snaps = Vec::new();
    r.idle(3_001);
    r.table.snapshot(3_001, &mut snaps);
    assert_eq!(snaps.len(), 2, "looked for a moment ago");
    r.idle(3_101);
    r.table.snapshot(3_101, &mut snaps);
    assert_eq!(snaps.len(), 1);
    assert_eq!(snaps[0].ssrc, b.tx.ssrc());
}
