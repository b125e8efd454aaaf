use lanmic::audio::DeviceInfo;
use lanmic::console::{bar, device_line, join, mic_line, mixer_line, strip, BAR_WIDTH};
use lanmic::mixer::SourceSnapshot;
use lanmic::receiver::RxStats;
use lanmic::transmitter::TxStats;

/// A linear level as milli-units; nothing that is not a positive number gets through.
fn milli(level: f32) -> u32 {
    if level > 0.0 {
        (level * 1000.0) as u32
    } else {
        0
    }
}

#[test]
fn the_meter_bar_fills_and_never_overruns_its_width() {
    assert_eq!(bar(milli(0.0)), ".".repeat(BAR_WIDTH));
    assert_eq!(bar(milli(1.0)), "#".repeat(BAR_WIDTH));
    assert_eq!(bar(milli(0.5)).chars().filter(|&c| c == '#').count(), 10);
    // Gains reach 2x, so the meter reports above full scale.
    assert_eq!(bar(milli(2.0)).len(), BAR_WIDTH);
    assert_eq!(bar(milli(f32::NAN)).len(), BAR_WIDTH);
    assert_eq!(bar(milli(-1.0)), ".".repeat(BAR_WIDTH));
}

#[test]
fn a_strip_reports_the_buffer_in_milliseconds_not_frames() {
    let source = SourceSnapshot {
        ssrc: 0xDEAD_BEEF,
        peak_milli: 500,
        // 15 ms at 48 kHz.
        buffer_frames: 720,
        lost: 3,
        underruns: 1,
        ..Default::default()
    };
    let line = strip(&source);
    assert!(line.contains("MIC-BEEF"), "{line}");
    assert!(line.contains("15ms"), "{line}");
    assert!(line.contains("lost:3"), "{line}");
    assert!(line.contains("und:1"), "{line}");
    assert_eq!(
        line,
        "MIC-BEEF [##########..........]   15ms lost:3 und:1"
    );
}

#[test]
fn milliseconds_are_rounded_to_the_nearest_even() {
    for (frames, text) in [
        (0u32, "   0ms"),
        (24, "   0ms"),
        (25, "   1ms"),
        (72, "   2ms"),
        (120, "   2ms"),
        (48_000, "1000ms"),
        (76_800, "1600ms"),
    ] {
        let line = strip(&SourceSnapshot {
            buffer_frames: frames,
            ..Default::default()
        });
        assert!(line.contains(text), "{frames}: {line}");
        assert!(
            line.contains(&format!("{:4.0}ms", frames as f32 * 1000.0 / 48000.0)),
            "{frames}: {line}"
        );
    }
}

#[test]
fn a_bar_is_what_a_float_meter_would_draw() {
    for level in 0..=2000u32 {
        let lit = ((level as f32 / 1000.0).clamp(0.0, 1.0) * BAR_WIDTH as f32) as usize;
        assert_eq!(bar(level).chars().filter(|&c| c == '#').count(), lit, "{level}");
    }
}

#[test]
fn a_short_ssrc_is_padded() {
    let line = strip(&SourceSnapshot {
        ssrc: 0x1234_00AB,
        ..Default::default()
    });
    assert!(line.contains("MIC-00AB"), "{line}");
}

#[test]
fn the_device_list_marks_the_default_and_the_useless() {
    let mut device = DeviceInfo {
        name: "USB".to_string(),
        is_default: true,
        usable: true,
    };
    assert_eq!(device_line(&device), "  * USB");
    device.is_default = false;
    device.usable = false;
    assert_eq!(
        device_line(&device),
        "    USB   [no 48 kHz 16-bit or float config]"
    );
}

#[test]
fn parts_are_joined_by_what_stands_between_them() {
    let parts: Vec<String> = ["a", "b", "c"].iter().map(|s| s.to_string()).collect();
    assert_eq!(join(&parts, ", "), "a, b, c");
    assert_eq!(join(&parts[..1].to_vec(), ", "), "a");
    assert_eq!(join(&Vec::new(), ", "), "");
}

#[test]
fn a_depth_is_what_a_float_would_be_formatted_as() {
    let mut seed: u32 = 1;
    for i in 0..20_000u32 {
        seed = seed.wrapping_mul(1664525).wrapping_add(1013904223);
        let frames = if i < 3000 { i } else { seed >> (i % 12) };
        let line = strip(&SourceSnapshot {
            buffer_frames: frames,
            ..Default::default()
        });
        let shown = format!("] {:>4.0}ms lost", frames as f32 * 1000.0 / 48000.0);
        assert!(line.contains(&shown), "{frames}: {line}, not {shown}");
    }
    for frames in [u32::MAX, u32::MAX - 1, 1_073_741_825, 1 << 24, (1 << 24) + 1] {
        let line = strip(&SourceSnapshot {
            buffer_frames: frames,
            ..Default::default()
        });
        let shown = format!("] {:>4.0}ms lost", frames as f32 * 1000.0 / 48000.0);
        assert!(line.contains(&shown), "{frames}: {line}, not {shown}");
    }
}

#[test]
fn the_mixer_line_shows_its_counters_and_its_sources() {
    let stats = RxStats {
        packets: 1234,
        bad_packets: 5,
        active_sources: 2,
        xruns: 1,
        limiter_gain: 875,
        latency_micros: 12_345,
        ..Default::default()
    };
    assert_eq!(
        mixer_line(&stats, &vec![]),
        " sources:2 pkts:1234 bad:5 lim:0.88 xrun:1 out:12.3ms"
    );
    let sources = vec![
        SourceSnapshot {
            ssrc: 1,
            ..Default::default()
        },
        SourceSnapshot {
            ssrc: 2,
            peak_milli: 1000,
            ..Default::default()
        },
    ];
    assert_eq!(
        mixer_line(&stats, &sources),
        format!(
            " sources:2 pkts:1234 bad:5 lim:0.88 xrun:1 out:12.3ms  |  {}  |  {}",
            strip(&sources[0]),
            strip(&sources[1])
        )
    );
}

#[test]
fn the_microphone_line_shows_its_level_and_its_counters() {
    let stats = TxStats {
        packets_sent: 9,
        frames_dropped: 480,
        send_errors: 2,
        xruns: 3,
        peak: 500,
        latency_micros: 5_000,
        ..Default::default()
    };
    assert_eq!(
        mic_line(&stats),
        " [##########..........] sent:9 dropped:480 errs:2 xrun:3 in:5.0ms"
    );
}

#[test]
fn thousandths_are_what_a_float_would_be_formatted_as() {
    let mut seed: u32 = 1;
    for i in 0..20_000u32 {
        seed = seed.wrapping_mul(1664525).wrapping_add(1013904223);
        let milli = if i < 4000 { i } else { seed >> (i % 24) };
        let float = milli as f32 / 1000.0;
        let stats = RxStats {
            limiter_gain: milli,
            latency_micros: milli,
            ..Default::default()
        };
        assert_eq!(
            mixer_line(&stats, &vec![]),
            format!(" sources:0 pkts:0 bad:0 lim:{float:.2} xrun:0 out:{float:.1}ms")
        );
    }
}
