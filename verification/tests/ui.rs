use lanmic::args::{Mode, Options};
use lanmic::audio::{DeviceInfo, Direction};
use lanmic::discovery::Found;
use lanmic::engine::{MicConfig, ServerConfig};
use lanmic::mixer::{SourceSnapshot, MAX_SOURCES};
use lanmic::protocol::MAX_FRAMES_PER_PACKET;
use lanmic::transmitter::{TxShared, MIN_FRAMES_PER_PACKET};
use lanmic::ui::desk::{not_a_port, packet_sizes, Desk, Field, Panel, SliderId, Start};
use lanmic::ui::frame::{
    controls, cursor_for, resize_edge, round_corners, titlebar_press, Control, Corners,
    CursorStyle, ResizeEdge, Tiling, TitlebarPress,
};
use lanmic::ui::panels::{
    addresses_text, device_in_use, device_row, discovery_text, is_losing, live_label, mic_level,
    mic_server, mixer_master, mixer_transport, mute_button, no_strips, packet_label,
    session_button, session_text, strip, strips_heading, target_text,
};
use lanmic::ui::theme::{level_color, meter_fill, ACCENT, DANGER, LIVE, MUTED, PANEL_ALT, WARN};
use lanmic::ui::widgets::{
    button_colors, ButtonKind, DragPhase, FieldKey, Keystroke, TextField,
};

const MARGIN: i32 = 6;

fn edge_in(x: i32, y: i32, tiling: Tiling) -> Option<ResizeEdge> {
    resize_edge(x, y, MARGIN, 1000, 800, tiling)
}

fn edge_at(x: i32, y: i32) -> Option<ResizeEdge> {
    edge_in(x, y, Tiling::none())
}

#[test]
fn the_middle_of_the_window_is_not_an_edge() {
    assert_eq!(edge_at(500, 400), None);
    // Just inside the grab zone on every side.
    assert_eq!(edge_at(500, 7), None);
    assert_eq!(edge_at(500, 793), None);
    assert_eq!(edge_at(7, 400), None);
    assert_eq!(edge_at(993, 400), None);
}

#[test]
fn every_edge_and_corner_is_reachable() {
    assert_eq!(edge_at(500, 0), Some(ResizeEdge::Top));
    assert_eq!(edge_at(500, 800), Some(ResizeEdge::Bottom));
    assert_eq!(edge_at(0, 400), Some(ResizeEdge::Left));
    assert_eq!(edge_at(1000, 400), Some(ResizeEdge::Right));
    assert_eq!(edge_at(0, 0), Some(ResizeEdge::TopLeft));
    assert_eq!(edge_at(1000, 0), Some(ResizeEdge::TopRight));
    assert_eq!(edge_at(0, 800), Some(ResizeEdge::BottomLeft));
    assert_eq!(edge_at(1000, 800), Some(ResizeEdge::BottomRight));
}

#[test]
fn a_corner_beats_the_two_edges_that_meet_there() {
    // Inside both the top and the left zone: aiming at the corner.
    assert_eq!(edge_at(3, 3), Some(ResizeEdge::TopLeft));
    assert_eq!(edge_at(997, 797), Some(ResizeEdge::BottomRight));
}

#[test]
fn a_tiled_edge_cannot_be_grabbed() {
    // Snapped to the left half of the screen: its own left, top and bottom
    // are against the screen, and only the right edge is draggable.
    let snapped = Tiling {
        top: true,
        bottom: true,
        left: true,
        right: false,
    };
    assert_eq!(edge_in(0, 400, snapped), None);
    assert_eq!(edge_in(500, 0, snapped), None);
    assert_eq!(edge_in(500, 800, snapped), None);
    assert_eq!(edge_in(1000, 400, snapped), Some(ResizeEdge::Right));
    // And the corner where a tiled edge meets a free one degrades to the
    // free edge rather than disappearing.
    assert_eq!(edge_in(1000, 0, snapped), Some(ResizeEdge::Right));
}

#[test]
fn a_fully_tiled_window_has_nothing_to_grab() {
    for (x, y) in [(0, 0), (500, 0), (1000, 800), (0, 400)] {
        assert_eq!(
            edge_in(x, y, Tiling::tiled()),
            None,
            "({x}, {y}) should not be grabbable when fully tiled"
        );
    }
}

#[test]
fn each_edge_gets_the_cursor_that_describes_it() {
    assert_eq!(cursor_for(ResizeEdge::Top), CursorStyle::ResizeUpDown);
    assert_eq!(cursor_for(ResizeEdge::Bottom), CursorStyle::ResizeUpDown);
    assert_eq!(cursor_for(ResizeEdge::Left), CursorStyle::ResizeLeftRight);
    assert_eq!(cursor_for(ResizeEdge::Right), CursorStyle::ResizeLeftRight);
    assert_eq!(
        cursor_for(ResizeEdge::TopLeft),
        CursorStyle::ResizeUpLeftDownRight
    );
    assert_eq!(
        cursor_for(ResizeEdge::BottomRight),
        CursorStyle::ResizeUpLeftDownRight
    );
    assert_eq!(
        cursor_for(ResizeEdge::TopRight),
        CursorStyle::ResizeUpRightDownLeft
    );
    assert_eq!(
        cursor_for(ResizeEdge::BottomLeft),
        CursorStyle::ResizeUpRightDownLeft
    );
}

#[test]
fn a_narrow_window_still_resolves_its_edges() {
    // Narrower than two margins: the zones overlap and the left one wins,
    // which is at least deterministic rather than a panic or a gap.
    assert_eq!(
        resize_edge(4, 4, MARGIN, 8, 8, Tiling::none()),
        Some(ResizeEdge::TopLeft)
    );
}

#[test]
fn a_tiled_frame_lays_out_with_its_seams_squared_off() {
    for (top, bottom, left, right) in [
        (true, false, false, false),
        (false, true, false, false),
        (false, false, true, false),
        (false, false, false, true),
        (true, true, true, true),
    ] {
        let corners = round_corners(Tiling {
            top,
            bottom,
            left,
            right,
        });
        assert_eq!(
            corners,
            Corners {
                top_left: !top && !left,
                top_right: !top && !right,
                bottom_left: !bottom && !left,
                bottom_right: !bottom && !right,
            }
        );
    }
}

#[test]
fn a_server_side_titlebar_grows_no_controls_of_its_own() {
    // The platform draws them; drawing a second set would put two
    // close buttons on one window.
    assert!(controls(false, true, true, false).is_empty());
    // And where it does not, all three are there to be drawn.
    assert!(!controls(true, true, true, false).is_empty());
    assert_eq!(
        controls(true, true, true, false),
        [Control::Minimize, Control::Maximize, Control::Close]
    );
    assert_eq!(
        controls(true, false, true, true),
        [Control::Restore, Control::Close]
    );
    assert_eq!(controls(true, false, false, true), [Control::Close]);
}

#[test]
fn a_double_click_on_the_titlebar_zooms() {
    assert_eq!(titlebar_press(1), TitlebarPress::Move);
    assert_eq!(titlebar_press(2), TitlebarPress::Zoom);
    assert_eq!(titlebar_press(3), TitlebarPress::Zoom);
}

#[test]
fn packet_sizes_are_labelled_in_milliseconds() {
    assert_eq!(packet_label(120), "2.5 ms");
    assert_eq!(packet_label(240), "5.0 ms");
    assert_eq!(packet_label(480), "10.0 ms");
    assert_eq!(packet_label(960), "20.0 ms");
}

#[test]
fn a_packet_label_is_what_a_float_would_be_formatted_as() {
    assert_eq!(packet_label(4_000_000_000), "83333336.0 ms");
    let mut wide = Vec::new();
    let mut x: u64 = 1;
    for _ in 0..63 {
        // Around every power of two, and something without a pattern between them.
        wide.extend([x - 1, x, x + 1, x + x / 2, x + x / 3, x + x / 7 + 5]);
        x *= 2;
    }
    wide.extend([u64::MAX, u64::MAX - 1, u64::MAX / 3]);
    let mut seed: u64 = 1;
    for i in 0..20_000u64 {
        seed = seed.wrapping_mul(6364136223846793005).wrapping_add(1442695040888963407);
        wide.push(seed >> (i % 64));
    }
    for frames in (0..=2000usize).chain(wide.into_iter().map(|x| x as usize)) {
        assert_eq!(
            packet_label(frames),
            format!("{:.1} ms", frames as f32 * 1000.0 / 48000.0),
            "{frames}"
        );
    }
}

#[test]
fn every_field_has_its_own_slot() {
    let mut seen: Vec<usize> = [
        Field::ServerPort,
        Field::ServerName,
        Field::MicHost,
        Field::MicPort,
    ]
    .iter()
    .map(|f| f.index())
    .collect();
    seen.sort_unstable();
    assert_eq!(seen, [0, 1, 2, 3]);
}

#[test]
fn the_packet_sizes_offered_are_all_ones_the_engine_accepts() {
    for size in packet_sizes() {
        assert!(size >= MIN_FRAMES_PER_PACKET, "{size} is below the floor");
        assert!(size <= MAX_FRAMES_PER_PACKET, "{size} is above the ceiling");
    }
}

#[test]
fn the_meter_only_goes_red_where_the_limiter_is_working() {
    assert_eq!(level_color(0), LIVE);
    assert_eq!(level_color(690), LIVE);
    assert_eq!(level_color(700), WARN);
    assert_eq!(level_color(940), WARN);
    assert_eq!(level_color(1000), DANGER);
    assert_eq!(level_color(2000), DANGER);
    assert_eq!(level_color(949), WARN);
    assert_eq!(level_color(950), DANGER);
    assert_eq!((meter_fill(500), meter_fill(1500)), (500, 1000));
}

fn press(key: &str, ch: Option<&str>) -> Keystroke {
    Keystroke {
        control: false,
        platform: false,
        key: key.to_string(),
        key_char: ch.map(str::to_string),
    }
}

#[test]
fn typing_and_deleting_do_what_they_look_like() {
    let mut f = TextField::text("host", 32);
    assert_eq!(f.key(&press("1", Some("1"))), FieldKey::Edited);
    for c in ["9", "2", ".", "1"] {
        f.key(&press(c, Some(c)));
    }
    assert_eq!(f.value, "192.1");
    assert_eq!(f.key(&press("backspace", None)), FieldKey::Edited);
    assert_eq!(f.value, "192.");
}

#[test]
fn backspace_on_an_empty_field_is_not_an_edit() {
    let mut f = TextField::text("host", 32);
    assert_eq!(f.key(&press("backspace", None)), FieldKey::Ignored);
    assert!(f.value.is_empty());
}

#[test]
fn a_port_field_takes_digits_and_nothing_else() {
    let mut f = TextField::number("port", 5);
    for c in ["4", "5", "a", "-", "6", "7", "8"] {
        f.key(&press(c, Some(c)));
    }
    assert_eq!(f.value, "45678");
    // Full: the sixth digit is dropped rather than making an invalid port.
    f.key(&press("9", Some("9")));
    assert_eq!(f.value, "45678");
}

#[test]
fn control_characters_never_reach_the_value() {
    let mut f = TextField::text("name", 32);
    assert_eq!(f.key(&press("enter", Some("\r"))), FieldKey::Submitted);
    assert_eq!(f.key(&press("tab", Some("\t"))), FieldKey::Ignored);
    assert_eq!(f.key(&press("escape", None)), FieldKey::Ignored);
    assert!(f.value.is_empty());
}

#[test]
fn ctrl_u_clears_and_other_chords_are_left_alone() {
    let mut f = TextField::text("host", 32).with("192.168.1.50".to_string());
    let mut chord = press("x", Some("x"));
    chord.control = true;
    assert_eq!(f.key(&chord), FieldKey::Ignored);
    assert_eq!(f.value, "192.168.1.50");

    let mut clear = press("u", None);
    clear.control = true;
    assert_eq!(f.key(&clear), FieldKey::Edited);
    assert!(f.value.is_empty());
}

#[test]
fn a_field_never_grows_past_its_limit() {
    let mut f = TextField::text("name", 4);
    for c in ["a", "b", "c", "d", "e", "f"] {
        f.key(&press(c, Some(c)));
    }
    assert_eq!(f.value, "abcd");
}

#[test]
fn a_field_shows_what_it_is_for_until_something_is_typed() {
    let mut f = TextField::text("host", 4);
    assert_eq!(f.shown(), "host");
    f.key(&press("x", Some("x")));
    assert_eq!(f.shown(), "x");
    // One keystroke can carry more than one character; what does not fit stays out.
    f.key(&press("x", Some("y\u{7}zé!")));
    assert_eq!(f.value, "xyzé");
}

fn options() -> Options {
    Options::new("desk".to_string())
}

#[test]
fn both_panels_lay_out() {
    // The idle mixer is the first thing anybody sees: no strips, no
    // session, every control drawn but inert.
    let mut desk = Desk::new(options());
    assert_eq!(desk.panel, Panel::Mixer);
    assert!(!desk.is_live());

    desk.show(Panel::Microphone);
    assert_eq!(desk.panel, Panel::Microphone);
}

#[test]
fn a_full_deskful_of_strips_lays_out() {
    let mut desk = Desk::new(options());
    desk.server_started(options().server, None);
    let published: Vec<SourceSnapshot> = (0..MAX_SOURCES)
        .map(|i| SourceSnapshot {
            ssrc: 0x1000 + i as u32,
            peak_milli: 250 * i as u32,
            buffer_frames: 720,
            packets: 100,
            lost: i as u32,
            underruns: 0,
            age_ms: if i == 0 { 400 } else { 10 },
            muted: i % 3 == 0,
            gain_milli: 1000,
        })
        .collect();
    let backwards: Vec<SourceSnapshot> = published.iter().rev().copied().collect();
    desk.poll(backwards);
    assert_eq!(desk.sources.len(), MAX_SOURCES);
    assert_eq!(desk.sources, published);
    for (i, s) in desk.sources.iter().enumerate() {
        let drawn = strip(s);
        assert_eq!(drawn.name, format!("MIC-{:04X}", 0x1000 + i));
        assert_eq!(drawn.stale, i == 0);
        assert_eq!(drawn.level, if i % 3 == 0 { 0 } else { 250 * i as u32 });
        assert_eq!(drawn.buffer, "15 ms");
        assert_eq!(drawn.lost, i.to_string());
        assert_eq!((drawn.underruns.as_str(), drawn.packets.as_str()), ("0", "100"));
        assert_eq!(drawn.mute, mute_button(i % 3 == 0));
        assert_eq!(desk.toggle_source_mute(s.ssrc), i % 3 != 0);
    }

    // And the tick takes them away again when there is no session behind
    // them, which is the other state the strip list has to survive.
    desk.toggle_server();
    desk.poll(published);
    assert!(desk.sources.is_empty());
}

#[test]
fn an_empty_field_shows_what_belongs_in_it() {
    let mut desk = Desk::new(options());
    let hints = ["45678", "this machine", "192.168.1.50", "45678"];
    let fields = [
        Field::ServerPort,
        Field::ServerName,
        Field::MicHost,
        Field::MicPort,
    ];
    for (field, hint) in fields.iter().zip(hints) {
        desk.fields[field.index()].value.clear();
        assert_eq!(desk.fields[field.index()].shown(), hint);
    }
}

#[test]
fn typing_reaches_the_focused_field() {
    let mut desk = Desk::new(options());
    desk.show(Panel::Microphone);
    desk.focused = Some(Field::MicHost);
    desk.fields[Field::MicHost.index()].value.clear();
    for key in ["1", "0", ".", "1"] {
        desk.on_key(&press(key, Some(key)));
    }
    assert_eq!(desk.fields[Field::MicHost.index()].value, "10.1");
}

#[test]
fn escape_gives_up_the_field_and_enter_starts_the_session() {
    let mut desk = Desk::new(options());
    desk.show(Panel::Microphone);
    desk.focused = Some(Field::MicHost);
    desk.on_key(&press("escape", None));
    assert_eq!(desk.focused, None);

    // Enter on an empty address is a start attempt, and a start attempt
    // with no address is the error banner rather than a live session.
    desk.focused = Some(Field::MicHost);
    desk.fields[Field::MicHost.index()].value.clear();
    let outcome = desk.on_key(&press("enter", None));
    assert!(outcome.redraw);
    assert!(matches!(outcome.todo.start, Start::Nothing));
    assert_eq!(desk.focused, None);
    assert!(!desk.mic_live);
    assert!(desk.error.is_some(), "an empty address should say so");
}

#[test]
fn a_start_takes_what_the_fields_say() {
    let mut desk = Desk::new(options());
    desk.fields[Field::ServerPort.index()].value = " 1234 ".to_string();
    desk.fields[Field::ServerName.index()].value = "  FOH ".to_string();
    let todo = desk.toggle_server();
    let Start::Server(config) = todo.start else {
        panic!("nothing to start: {:?}", desk.error);
    };
    assert_eq!((config.port, config.name.as_str()), (1234, "FOH"));
    desk.server_started(config, None);
    assert!(desk.server_live);
    assert_eq!(desk.options.server.port, 1234);

    // The microphone's button stops the mixer first.
    desk.fields[Field::MicHost.index()].value = " 10.0.0.1".to_string();
    let todo = desk.toggle_mic();
    assert!(todo.stop_server);
    let Start::Mic(config) = todo.start else {
        panic!("nothing to start: {:?}", desk.error);
    };
    assert_eq!((config.host.as_str(), config.port), ("10.0.0.1", 45678));
    desk.mic_started(config, Some("no device".to_string()));
    assert!(!desk.is_live());
    assert_eq!(desk.error.as_deref(), Some("no device"));
}

#[test]
fn a_port_that_is_none_is_named() {
    for bad in ["", "0", "65536", "x"] {
        let mut desk = Desk::new(options());
        desk.fields[Field::ServerPort.index()].value = bad.to_string();
        let todo = desk.toggle_server();
        assert!(matches!(todo.start, Start::Nothing));
        assert_eq!(desk.error, Some(format!("port: {bad:?} is not a port")));
    }
    assert_eq!(not_a_port("<x>"), "port: <x> is not a port");
}

#[test]
fn leaving_a_panel_stops_what_it_started() {
    let mut desk = Desk::new(options());
    desk.server_started(options().server, None);
    let todo = desk.show(Panel::Mixer);
    assert!(!todo.stop_server && desk.server_live);
    let todo = desk.show(Panel::Microphone);
    assert!(todo.stop_server && !desk.server_live);
    desk.mic_started(MicConfig::default(), None);
    let todo = desk.show(Panel::Mixer);
    assert!(todo.stop_mic && !desk.mic_live);
}

#[test]
fn a_search_is_one_at_a_time_and_takes_the_only_answer() {
    let mut desk = Desk::new(options());
    assert_eq!(desk.find_servers(), Some(45679));
    assert_eq!(desk.find_servers(), None);
    desk.servers_found(vec![Found {
        addr: "10.0.0.7".to_string(),
        name: "FOH".to_string(),
    }]);
    assert_eq!(desk.fields[Field::MicHost.index()].value, "10.0.0.7");
    assert!(!desk.searching && desk.error.is_none());

    desk.find_servers();
    assert!(desk.found.is_empty());
    desk.servers_found(Vec::new());
    assert_eq!(
        desk.error.as_deref(),
        Some("no mixer answered; type the address in")
    );

    desk.find_servers();
    desk.search_failed("no route");
    assert_eq!(desk.error.as_deref(), Some("discovery failed: no route"));
}

#[test]
fn a_drag_belongs_to_the_slider_it_started_on() {
    let mut desk = Desk::new(options());
    assert_eq!(desk.slider_event(SliderId::MasterGain, DragPhase::Move, 5), None);
    assert_eq!(
        desk.slider_event(SliderId::MasterGain, DragPhase::Down, 500),
        Some(500)
    );
    assert_eq!(desk.slider_event(SliderId::MicGain, DragPhase::Move, 5), None);
    assert_eq!(desk.slider_event(SliderId::MicGain, DragPhase::Up, 5), None);
    assert_eq!(
        desk.slider_event(SliderId::MasterGain, DragPhase::Move, 9999),
        Some(2000)
    );
    assert_eq!((desk.master_gain, desk.mic_gain), (2000, 1000));
    desk.slider_event(SliderId::MasterGain, DragPhase::Up, 0);
    assert_eq!((desk.dragging, desk.master_gain), (None, 2000));
    assert_eq!(
        desk.slider_event(SliderId::FeedbackShift, DragPhase::Down, 99_999),
        Some(30_000)
    );
    assert_eq!(
        desk.slider_event(SliderId::Source(3), DragPhase::Down, 700),
        Some(700)
    );
}

#[test]
fn the_next_start_settings_step_within_their_range() {
    let mut desk = Desk::new(options());
    desk.nudge_jitter(-5);
    assert_eq!(desk.options.server.jitter_ms, 10);
    desk.nudge_jitter(i32::MIN);
    assert_eq!(desk.options.server.jitter_ms, 5);
    desk.nudge_jitter(i32::MAX);
    assert_eq!(desk.options.server.jitter_ms, 200);
    let mut sizes = Vec::new();
    for _ in 0..4 {
        desk.cycle_packet_size();
        sizes.push(desk.options.mic.frames_per_packet);
    }
    assert_eq!(sizes, [480, 960, 120, 240]);
    desk.options.mic.frames_per_packet = 300;
    desk.cycle_packet_size();
    assert_eq!(desk.options.mic.frames_per_packet, 480);
}

#[test]
fn a_chosen_device_lands_on_its_own_side() {
    let mut desk = Desk::new(options());
    desk.choose_device(Direction::Output, "A".to_string());
    desk.choose_device(Direction::Input, "B".to_string());
    assert_eq!(desk.options.server.device.as_deref(), Some("A"));
    assert_eq!(desk.options.mic.device.as_deref(), Some("B"));
    desk.toggle_mic_mute();
    assert!(desk.mic_muted);
}

#[test]
fn an_address_on_the_command_line_opens_its_panel() {
    let mut o = options();
    o.mode = Mode::Window;
    o.mic.host = "10.0.0.4".to_string();
    let desk = Desk::new(o);
    assert_eq!(desk.panel, Panel::Microphone);
    let values: Vec<&str> = desk.fields.iter().map(|f| f.value.as_str()).collect();
    assert_eq!(values, ["45678", "desk", "10.0.0.4", "45678"]);
    assert_eq!(desk.feedback_shift, 5000);
}

#[test]
fn the_panels_say_what_is_going_on() {
    assert_eq!(session_button(true, "GO").label, "STOP");
    assert_eq!(session_button(false, "GO").label, "GO");
    assert_eq!(session_button(true, "GO").kind, ButtonKind::Danger);
    let m = mic_server(true, true, 240);
    assert_eq!(
        (m.find_label, m.can_find, m.packet_caption.as_str(), m.packet_label.as_str(), m.toggle.label),
        ("searching...", false, "packet size (next start)", "5.0 ms", "STOP")
    );
    let t = mixer_transport(false, 15);
    assert_eq!(
        (t.jitter_caption.as_str(), t.jitter_text.as_str(), t.toggle.label),
        ("jitter buffer", "15 ms", "START MIXER")
    );
    assert!(mixer_master(998, 0).limiting && mixer_master(998, 0).shift_off);
    assert!(!mixer_master(999, 1).limiting && !mixer_master(999, 1).shift_off);
    assert_eq!(strips_heading(3), "Microphones 3 / 8");
    assert_ne!(no_strips(true), no_strips(false));
    let addresses = vec!["10.0.0.1".to_string(), "fd00::1".to_string()];
    assert_eq!(addresses_text(&addresses), "10.0.0.1   fd00::1");
    assert_eq!(
        addresses_text(&Vec::new()),
        "no non-loopback address - is Wi-Fi up?"
    );
    assert_ne!(discovery_text(true), discovery_text(false));
    assert_eq!(device_in_use("USB", 2), "USB (2 ch)");
    assert_eq!(target_text("10.0.0.1", 45678), "10.0.0.1:45678");
    assert_eq!(session_text("h:1", 0xABC), "h:1  ssrc 00000ABC");
    assert_eq!((live_label(true), live_label(false)), ("LIVE", "idle"));
    assert_eq!((mic_level(true, 7), mic_level(false, 7)), (0, 7));
    let mut stats = TxShared::default().stats();
    assert!(!is_losing(&stats));
    stats.send_errors = 1;
    assert!(is_losing(&stats));
}

#[test]
fn the_device_menu_shows_what_would_be_used() {
    let device = |name: &str, is_default: bool, usable: bool| DeviceInfo {
        name: name.to_string(),
        is_default,
        usable,
    };
    assert!(device_row(&device("A", true, true), &None, false).selected);
    assert!(!device_row(&device("A", true, true), &Some("B".to_string()), false).selected);
    assert!(device_row(&device("B", false, true), &Some("B".to_string()), false).selected);
    let row = device_row(&device("B", false, false), &None, true);
    assert!(!row.clickable && row.dimmed && row.warned);
    assert!(!device_row(&device("B", false, true), &None, true).clickable);
}

#[test]
fn a_toggle_is_lit_or_unlit() {
    assert_eq!(button_colors(ButtonKind::Toggle(true)).background, ACCENT);
    assert_eq!(button_colors(ButtonKind::Toggle(false)).background, PANEL_ALT);
    assert_eq!(button_colors(ButtonKind::Toggle(false)).text, MUTED);
    assert_eq!(button_colors(ButtonKind::Danger).background, DANGER);
}

#[test]
fn a_failed_mixer_start_is_the_banner() {
    let mut desk = Desk::new(options());
    desk.server_started(ServerConfig::new("x".to_string()), Some("port taken".to_string()));
    assert_eq!(desk.error.as_deref(), Some("port taken"));
    assert!(!desk.server_live);
}
