use lanmic::args::{parse, ArgError, Mode, Options, USAGE};
use lanmic::engine::{default_server_name, DEFAULT_BLOCK_FRAMES};
use lanmic::protocol::{DEFAULT_AUDIO_PORT, DISCOVERY_PORT};

fn words(argv: &[&str]) -> Vec<String> {
    argv.iter().map(|s| s.to_string()).collect()
}

fn parse_words(argv: &[&str]) -> Result<Options, ArgError> {
    let name = default_server_name(&Some("desk".to_string()), &None, &None);
    parse(&words(argv), &name)
}

fn parse_str(s: &str) -> Result<Options, ArgError> {
    let argv: Vec<&str> = s.split_whitespace().collect();
    parse_words(&argv)
}

#[test]
fn no_arguments_opens_the_window_with_the_documented_defaults() {
    let o = parse_str("").unwrap();
    assert_eq!(o.mode, Mode::Window);
    assert_eq!(o.server.port, DEFAULT_AUDIO_PORT);
    assert_eq!(o.server.discovery_port, DISCOVERY_PORT);
    assert_eq!(o.server.jitter_ms, 15);
    assert_eq!(o.server.block_frames, DEFAULT_BLOCK_FRAMES);
    assert!(o.server.discovery);
    assert!(!o.server.name.trim().is_empty());
}

#[test]
fn the_audio_port_moves_both_ends_together() {
    // One flag, because a microphone and a mixer on one machine talking to
    // each other on different ports is never what was meant.
    let o = parse_str("--port 40000").unwrap();
    assert_eq!(o.server.port, 40000);
    assert_eq!(o.mic.port, 40000);
}

#[test]
fn headless_picks_the_mixer_unless_a_server_address_was_given() {
    assert_eq!(parse_str("--headless").unwrap().mode, Mode::HeadlessServer);
    let o = parse_str("--headless --mic 192.168.1.50").unwrap();
    assert_eq!(o.mode, Mode::HeadlessMic);
    assert_eq!(o.mic.host, "192.168.1.50");
}

#[test]
fn mic_without_headless_opens_the_window_with_the_address_filled_in() {
    let o = parse_str("--mic 10.0.0.4").unwrap();
    assert_eq!(o.mode, Mode::Window);
    assert_eq!(o.mic.host, "10.0.0.4");
}

#[test]
fn list_devices_and_help_beat_everything_else() {
    assert_eq!(
        parse_str("--headless --list-devices").unwrap().mode,
        Mode::ListDevices
    );
    assert_eq!(parse_str("--headless --help").unwrap().mode, Mode::Help);
    assert_eq!(parse_str("-h").unwrap().mode, Mode::Help);
}

#[test]
fn the_jitter_target_is_range_checked_where_it_is_typed() {
    assert_eq!(parse_str("--jitter 5").unwrap().server.jitter_ms, 5);
    assert_eq!(parse_str("--jitter 200").unwrap().server.jitter_ms, 200);
    for bad in ["--jitter 0", "--jitter 4", "--jitter 201", "--jitter -1"] {
        assert!(parse_str(bad).is_err(), "{bad} should be rejected");
    }
}

#[test]
fn nonsense_is_reported_rather_than_defaulted() {
    assert!(parse_str("--port").is_err());
    assert!(parse_str("--port 0").is_err());
    assert!(parse_str("--port 70000").is_err());
    assert!(parse_str("--port abc").is_err());
    assert!(parse_str("--blocksize 0").is_err());
    assert!(parse_str("--packet 0").is_err());
    assert!(parse_str("--wat").is_err());
    // A flag whose value was forgotten must not eat the next flag.
    assert!(parse_str("--name --no-discovery").is_err());
}

#[test]
fn device_names_survive_being_read_off_a_command_line() {
    let o = parse_words(&["--output", "USB Audio CODEC", "--input", "Scarlett 2i2"]).unwrap();
    assert_eq!(o.server.device.as_deref(), Some("USB Audio CODEC"));
    assert_eq!(o.mic.device.as_deref(), Some("Scarlett 2i2"));
}

#[test]
fn an_empty_name_falls_back_rather_than_advertising_nothing() {
    let o = parse_words(&["--name", "   "]).unwrap();
    assert!(!o.server.name.trim().is_empty());
}

#[test]
fn each_mistake_is_named() {
    for (line, message) in [
        ("--port", "--port needs a value"),
        ("--name --no-discovery", "--name needs a value"),
        ("--mic", "--mic needs a value"),
        ("--port abc", "--port: \"abc\" is not a number"),
        ("--port 70000", "--port: \"70000\" is not a number"),
        ("--port -1", "--port: \"-1\" is not a number"),
        ("--port 0", "--port: 0 is not a port"),
        ("--jitter 4", "--jitter: 4 ms is outside 5..=200"),
        ("--jitter -1", "--jitter: -1 ms is outside 5..=200"),
        ("--jitter 1.5", "--jitter: \"1.5\" is not a number"),
        ("--blocksize 0", "--blocksize: 0 is not a frame count"),
        ("--packet 0", "--packet: 0 is not a frame count"),
        ("--packet x", "--packet: \"x\" is not a number"),
        ("--wat", "unknown argument \"--wat\""),
        ("wat", "unknown argument \"wat\""),
    ] {
        assert_eq!(parse_str(line).unwrap_err().message(), message);
    }
    // What could garble a terminal is escaped.
    assert_eq!(
        parse_words(&["a\"b\n"]).unwrap_err().message(),
        "unknown argument \"a\\\"b\\n\""
    );
}

#[test]
fn the_first_mistake_is_the_one_reported() {
    assert_eq!(
        parse_str("--jitter 4 --port 0").unwrap_err().message(),
        "--jitter: 4 ms is outside 5..=200"
    );
    // Help ends the reading, so nothing behind it is looked at.
    assert_eq!(parse_str("--help --wat").unwrap().mode, Mode::Help);
}

#[test]
fn every_flag_lands_where_it_says() {
    let o = parse_str(
        "--port +7 --jitter 20 --blocksize 480 --discovery-port 9 --no-discovery --packet 120 --name FOH",
    )
    .unwrap();
    assert_eq!(o.server.port, 7);
    assert_eq!(o.mic.port, 7);
    assert_eq!(o.server.jitter_ms, 20);
    assert_eq!(o.server.block_frames, 480);
    assert_eq!(o.server.discovery_port, 9);
    assert!(!o.server.discovery);
    assert_eq!(o.mic.frames_per_packet, 120);
    assert_eq!(o.server.name, "FOH");
}

#[test]
fn the_usage_text_names_every_flag() {
    for flag in [
        "--headless",
        "--list-devices",
        "--port",
        "--jitter",
        "--output",
        "--blocksize",
        "--name",
        "--discovery-port",
        "--no-discovery",
        "--mic",
        "--input",
        "--packet",
        "--help",
    ] {
        assert!(USAGE.contains(flag), "{flag}");
    }
}

#[test]
fn a_mistake_can_be_shown_any_way() {
    let e = parse_words(&["--port", "x"]).unwrap_err();
    assert_eq!(e.message_showing("<x>"), "--port: <x> is not a number");
    let e = parse_words(&["--port"]).unwrap_err();
    assert_eq!(e.message_showing("<x>"), "--port needs a value");
}
