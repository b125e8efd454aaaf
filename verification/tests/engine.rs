use lanmic::engine::{
    classify, default_server_name, record_fault, Counter, Fault, MicConfig, ServerConfig,
    StreamErrorKind, DEFAULT_BLOCK_FRAMES,
};
use lanmic::net::{check_address, IoErrorKind, PortError};
use lanmic::phone::{
    frames_from, input_preset, on_start, ssrc_from, xruns_from, InputPreset, StartRequest,
};
use lanmic::startup::{Plan, Role, Stage, Startup};

#[test]
fn a_dropout_is_counted_and_a_dead_device_is_reopened() {
    let mut xruns = Counter::default();
    let mut restart = false;

    record_fault(StreamErrorKind::Xrun, &mut xruns, &mut restart);
    record_fault(StreamErrorKind::Xrun, &mut xruns, &mut restart);
    assert_eq!(xruns.get(), 2);
    assert!(!restart, "an xrun is not a restart");

    record_fault(StreamErrorKind::DeviceNotAvailable, &mut xruns, &mut restart);
    assert!(restart);
    assert_eq!(xruns.get(), 2);
}

#[test]
fn a_reroute_or_a_refused_promotion_leaves_the_stream_alone() {
    for kind in [StreamErrorKind::DeviceChanged, StreamErrorKind::RealtimeDenied] {
        let mut xruns = Counter::default();
        let mut restart = false;
        record_fault(kind, &mut xruns, &mut restart);
        assert!(!restart, "{kind:?} forced a reopen");
        assert_eq!(xruns.get(), 0, "{kind:?} was counted as a dropout");
    }
}

#[test]
fn every_other_failure_asks_for_a_new_stream() {
    for kind in [
        StreamErrorKind::StreamInvalidated,
        StreamErrorKind::DeviceBusy,
        StreamErrorKind::BackendError,
        StreamErrorKind::Other,
    ] {
        assert_eq!(classify(kind), Fault::Reopen, "{kind:?}");
    }
}

#[test]
fn a_microphone_with_no_server_address_fails_before_touching_the_device() {
    let config = MicConfig {
        host: String::new(),
        ..Default::default()
    };
    let mut startup = Startup::new(Plan {
        role: Role::Microphone,
        choose_device: true,
        discovery: false,
    });
    assert_eq!(startup.stage, Stage::Socket);
    let Err(kind) = check_address(&config.host) else {
        panic!("a microphone with no address should not have started");
    };
    startup.advance(false);
    assert_eq!(kind, IoErrorKind::InvalidInput);
    assert_eq!(startup.stage, Stage::Failed);
    assert!(!startup.running());
}

/// Every stage a start goes through when all goes well.
fn stages(plan: Plan) -> Vec<Stage> {
    let mut startup = Startup::new(plan);
    let mut seen = vec![startup.stage];
    while startup.stage != Stage::Up {
        startup.advance(true);
        seen.push(startup.stage);
    }
    assert!(startup.running());
    seen
}

#[test]
fn a_microphone_says_hello_before_its_stream_opens() {
    let stages = stages(Plan {
        role: Role::Microphone,
        choose_device: true,
        discovery: false,
    });
    assert_eq!(
        stages,
        [
            Stage::Socket,
            Stage::Device,
            Stage::Hello,
            Stage::Thread,
            Stage::Stream,
            Stage::Up
        ]
    );
}

#[test]
fn a_mixer_answers_probes_before_its_stream_opens() {
    let stages = stages(Plan {
        role: Role::Mixer,
        choose_device: true,
        discovery: true,
    });
    assert_eq!(
        stages,
        [
            Stage::Socket,
            Stage::Device,
            Stage::Thread,
            Stage::Discovery,
            Stage::Stream,
            Stage::Up
        ]
    );
}

#[test]
fn a_mixer_nobody_can_find_still_starts() {
    let mut startup = Startup::new(Plan {
        role: Role::Mixer,
        choose_device: false,
        discovery: true,
    });
    while startup.stage != Stage::Discovery {
        startup.advance(true);
    }
    startup.advance(false);
    assert_eq!(startup.stage, Stage::Stream);
    startup.advance(false);
    assert_eq!(startup.stage, Stage::Failed);
    assert!(!startup.running());
    startup.advance(true);
    assert_eq!(startup.stage, Stage::Failed);
}

#[test]
fn a_counter_comes_round() {
    let mut c = Counter(u32::MAX);
    c.bump();
    assert_eq!(c.get(), 0);
    assert_eq!(
        record_fault(StreamErrorKind::Xrun, &mut c, &mut false),
        Fault::Xrun
    );
    assert_eq!(
        record_fault(StreamErrorKind::DeviceChanged, &mut c, &mut false),
        Fault::Note
    );
}

#[test]
fn the_first_name_that_is_one_is_the_servers() {
    let some = |s: &str| Some(s.to_string());
    assert_eq!(default_server_name(&some("a"), &some("b"), &some("c")), "a");
    assert_eq!(default_server_name(&None, &some(" b \n"), &some("c")), "b");
    assert_eq!(default_server_name(&some("  "), &None, &some("c\n")), "c");
    assert_eq!(default_server_name(&None, &None, &None), "LAN Mic desktop");
}

#[test]
fn defaults_are_the_documented_ones() {
    let s = ServerConfig::new("x".to_string());
    assert_eq!(
        (s.port, s.discovery_port, s.jitter_ms, s.block_frames, s.discovery),
        (45678, 45679, 15, DEFAULT_BLOCK_FRAMES, true)
    );
    let m = MicConfig::default();
    assert_eq!((m.port, m.frames_per_packet, m.host.as_str()), (45678, 240, ""));
    assert_eq!((s.device, m.device), (None, None));
}

#[test]
fn a_start_from_the_phone_is_checked_before_anything_is_touched() {
    assert_eq!(
        on_start(0, false),
        StartRequest::Refused(PortError { port: 0 })
    );
    assert_eq!(
        on_start(70000, true),
        StartRequest::Refused(PortError { port: 70000 })
    );
    assert_eq!(on_start(45678, true), StartRequest::AlreadyRunning);
    assert_eq!(on_start(45678, false), StartRequest::Start(45678));
}

#[test]
fn numbers_from_the_phone_are_brought_into_range() {
    assert_eq!(frames_from(-5), 0);
    assert_eq!(frames_from(240), 240);
    assert_eq!(xruns_from(-1), 0);
    assert_eq!(xruns_from(7), 7);
    assert_eq!(ssrc_from(0xDEAD_BEEF), 0xDEAD_BEEF);
    assert_eq!(ssrc_from(-1), 0xFFFF_FFFF);
    assert_eq!(ssrc_from(0x1_0000_0002), 2);
}

#[test]
fn an_unknown_preset_is_a_performance() {
    assert_eq!(input_preset(1), InputPreset::Unprocessed);
    assert_eq!(input_preset(2), InputPreset::VoiceRecognition);
    assert_eq!(input_preset(0), InputPreset::VoicePerformance);
    assert_eq!(input_preset(-6), InputPreset::VoicePerformance);
}
