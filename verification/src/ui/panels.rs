//! What the two panels say and which of their controls are live, as functions of the
//! state. Whoever draws the window asks here and draws the answer.
use vstd::prelude::*;
use vstd::string::StringExecFns;

use crate::audio::DeviceInfo;
use crate::console::{join, push_hex};
use crate::mixer::SourceSnapshot;
use crate::single::{push_ms, whole_ms};
use crate::text::{push_decimal, push_signed, same};
use crate::transmitter::TxStats;

verus! {

use crate::console::{depth_ms, hex, joined};
use crate::engine::text_of;
use crate::single::{frames_in_ms, to_tenths};
use crate::text::{decimal, signed_decimal};
use crate::ui::widgets::ButtonKind;

/// A button: what it says and how it is drawn.
#[derive(Debug, Clone, Copy, PartialEq, Eq)]
pub struct Button {
    pub label: &'static str,
    pub kind: ButtonKind,
}

/// The button a panel is for: it starts the session, or stops the one that is live.
pub fn session_button(running: bool, start_label: &'static str) -> (r: Button)
    ensures
        r.label@ == if running {
            "STOP"@
        } else {
            start_label@
        },
        r.kind == if running {
            ButtonKind::Danger
        } else {
            ButtonKind::Primary
        },
{
    if running {
        Button { label: "STOP", kind: ButtonKind::Danger }
    } else {
        Button { label: start_label, kind: ButtonKind::Primary }
    }
}

/// A mute button: lit, and saying so, while muted.
pub fn mute_button(muted: bool) -> (r: Button)
    ensures
        r.label@ == if muted {
            "MUTED"@
        } else {
            "mute"@
        },
        r.kind == ButtonKind::Toggle(muted),
{
    Button {
        label: if muted {
            "MUTED"
        } else {
            "mute"
        },
        kind: ButtonKind::Toggle(muted),
    }
}

/// A setting that only takes effect on the next start says so while a session runs.
pub open spec fn caption_of(name: Seq<char>, running: bool) -> Seq<char> {
    if running {
        name + " (next start)"@
    } else {
        name
    }
}

fn caption(name: &str, running: bool) -> (r: String)
    ensures
        r@ == caption_of(name@, running),
{
    let mut r = String::from_str(name);
    if running {
        r.append(" (next start)");
    }
    r
}

/// A number of frames in milliseconds, to a tenth.
pub open spec fn packet_text(frames: usize) -> Seq<char> {
    to_tenths(frames_in_ms(frames as nat)) + " ms"@
}

/// Frames to the label someone thinks in.
pub fn packet_label(frames: usize) -> (r: String)
    ensures
        r@ == packet_text(frames),
{
    let mut r = String::new();
    push_ms(&mut r, frames);
    r.append(" ms");
    assert(r@ =~= packet_text(frames));
    r
}

/// The server box of the microphone panel.
#[derive(Debug)]
pub struct MicServer {
    pub find_label: &'static str,
    /// One search at a time.
    pub can_find: bool,
    pub packet_caption: String,
    pub packet_label: String,
    pub toggle: Button,
}

pub fn mic_server(running: bool, searching: bool, frames_per_packet: usize) -> (r: MicServer)
    ensures
        r.find_label@ == if searching {
            "searching..."@
        } else {
            "Find server"@
        },
        r.can_find == !searching,
        r.packet_caption@ == caption_of("packet size"@, running),
        r.packet_label@ == packet_text(frames_per_packet),
        r.toggle.label@ == if running {
            "STOP"@
        } else {
            "GO LIVE"@
        },
        r.toggle.kind == if running {
            ButtonKind::Danger
        } else {
            ButtonKind::Primary
        },
{
    MicServer {
        find_label: if searching {
            "searching..."
        } else {
            "Find server"
        },
        can_find: !searching,
        packet_caption: caption("packet size", running),
        packet_label: packet_label(frames_per_packet),
        toggle: session_button(running, "GO LIVE"),
    }
}

/// The transport box of the mixer panel.
#[derive(Debug)]
pub struct MixerTransport {
    pub jitter_caption: String,
    pub jitter_text: String,
    pub toggle: Button,
}

pub fn mixer_transport(running: bool, jitter_ms: i32) -> (r: MixerTransport)
    ensures
        r.jitter_caption@ == caption_of("jitter buffer"@, running),
        r.jitter_text@ == signed_decimal(jitter_ms as int) + " ms"@,
        r.toggle.label@ == if running {
            "STOP"@
        } else {
            "START MIXER"@
        },
        r.toggle.kind == if running {
            ButtonKind::Danger
        } else {
            ButtonKind::Primary
        },
{
    let mut jitter_text = String::new();
    push_signed(&mut jitter_text, jitter_ms as i64);
    jitter_text.append(" ms");
    assert(jitter_text@ =~= signed_decimal(jitter_ms as int) + " ms"@);
    MixerTransport {
        jitter_caption: caption("jitter buffer", running),
        jitter_text,
        toggle: session_button(running, "START MIXER"),
    }
}

/// What the master box has to point out.
#[derive(Debug, Clone, Copy, PartialEq, Eq, Structural)]
pub struct MixerMaster {
    /// The limiter is working: pull the master down.
    pub limiting: bool,
    /// The feedback shift is off.
    pub shift_off: bool,
}

pub fn mixer_master(limiter_gain_milli: u32, feedback_shift_milli_hz: u32) -> (r: MixerMaster)
    ensures
        r.limiting == (limiter_gain_milli < 999),
        r.shift_off == (feedback_shift_milli_hz == 0),
{
    MixerMaster {
        limiting: limiter_gain_milli < 999,
        shift_off: feedback_shift_milli_hz == 0,
    }
}

/// The name a source goes by.
pub open spec fn mic_name(ssrc: u32) -> Seq<char> {
    "MIC-"@ + hex((ssrc % 0x1_0000) as nat, 4)
}

/// One channel strip.
#[derive(Debug)]
pub struct Strip {
    pub name: String,
    /// Its packets stopped a moment ago. It is still on the desk for two seconds;
    /// saying so is better than a meter that has simply gone quiet.
    pub stale: bool,
    /// What its meter shows, in milli-units.
    pub level: u32,
    pub mute: Button,
    pub buffer: String,
    pub lost: String,
    pub underruns: String,
    pub packets: String,
}

fn number(n: u64) -> (r: String)
    ensures
        r@ == decimal(n as nat),
{
    let mut r = String::new();
    push_decimal(&mut r, n);
    assert(r@ =~= decimal(n as nat));
    r
}

pub fn strip(source: &SourceSnapshot) -> (r: Strip)
    ensures
        r.name@ == mic_name(source.ssrc),
        r.stale == (source.age_ms > 250),
        r.level == if source.muted {
            0
        } else {
            source.peak_milli
        },
        r.mute.label@ == if source.muted {
            "MUTED"@
        } else {
            "mute"@
        },
        r.mute.kind == ButtonKind::Toggle(source.muted),
        r.buffer@ == decimal(depth_ms(source.buffer_frames)) + " ms"@,
        r.lost@ == decimal(source.lost as nat),
        r.underruns@ == decimal(source.underruns as nat),
        r.packets@ == decimal(source.packets as nat),
{
    let mut name = String::from_str("MIC-");
    push_hex(&mut name, source.ssrc % 0x1_0000, 4);
    let mut buffer = number(whole_ms(source.buffer_frames) as u64);
    buffer.append(" ms");
    Strip {
        name,
        stale: source.age_ms > 250,
        level: if source.muted {
            0
        } else {
            source.peak_milli
        },
        mute: mute_button(source.muted),
        buffer,
        lost: number(source.lost as u64),
        underruns: number(source.underruns as u64),
        packets: number(source.packets as u64),
    }
}

/// The heading over the strips.
pub fn strips_heading(active: u32) -> (r: String)
    ensures
        r@ == "Microphones "@ + decimal(active as nat) + " / 8"@,
{
    let mut r = String::from_str("Microphones ");
    push_decimal(&mut r, active as u64);
    r.append(" / 8");
    r
}

/// What stands where there are no strips.
pub fn no_strips(running: bool) -> (r: &'static str)
    ensures
        r@ == if running {
            "listening - nothing has said hello yet"@
        } else {
            "start the mixer, then GO LIVE on a phone"@
        },
{
    if running {
        "listening - nothing has said hello yet"
    } else {
        "start the mixer, then GO LIVE on a phone"
    }
}

/// Where the phones are to be pointed.
pub fn addresses_text(addresses: &Vec<String>) -> (r: String)
    ensures
        r@ == if addresses@.len() == 0 {
            "no non-loopback address - is Wi-Fi up?"@
        } else {
            joined(addresses@.map_values(|s: String| s@), "   "@)
        },
{
    if addresses.len() == 0 {
        String::from_str("no non-loopback address - is Wi-Fi up?")
    } else {
        join(addresses, "   ")
    }
}

/// Whether a phone can find this by itself.
pub fn discovery_text(discovery: bool) -> (r: &'static str)
    ensures
        r@ == if discovery {
            "Find server on a phone will land here."@
        } else {
            "Discovery is off; the address has to be typed in."@
        },
{
    if discovery {
        "Find server on a phone will land here."
    } else {
        "Discovery is off; the address has to be typed in."
    }
}

/// A device that is in use, with its channels.
pub fn device_in_use(name: &str, channels: usize) -> (r: String)
    ensures
        r@ == name@ + " ("@ + decimal(channels as nat) + " ch)"@,
{
    let mut r = String::from_str(name);
    r.append(" (");
    push_decimal(&mut r, channels as u64);
    r.append(" ch)");
    r
}

/// Where a microphone sends to.
pub fn target_text(host: &str, port: u16) -> (r: String)
    ensures
        r@ == host@ + ":"@ + decimal(port as nat),
{
    let mut r = String::from_str(host);
    r.append(":");
    push_decimal(&mut r, port as u64);
    r
}

/// Where a microphone sends to, and as whom.
pub fn session_text(target: &str, ssrc: u32) -> (r: String)
    ensures
        r@ == target@ + "  ssrc "@ + hex(ssrc as nat, 8),
{
    let mut r = String::from_str(target);
    r.append("  ssrc ");
    push_hex(&mut r, ssrc, 8);
    r
}

/// Whether frames are not reaching the wire - the network, not the microphone.
pub fn is_losing(stats: &TxStats) -> (r: bool)
    ensures
        r == (stats.frames_dropped > 0 || stats.send_errors > 0),
{
    stats.frames_dropped > 0 || stats.send_errors > 0
}

/// What the level meter of the microphone shows.
pub fn mic_level(muted: bool, peak_milli: u32) -> (r: u32)
    ensures
        r == if muted {
            0
        } else {
            peak_milli
        },
{
    if muted {
        0
    } else {
        peak_milli
    }
}

/// One row of the device menu.
#[derive(Debug, Clone, Copy, PartialEq, Eq, Structural)]
pub struct DeviceRow {
    pub selected: bool,
    pub clickable: bool,
    /// A session is running, so the menu is drawn dimmed.
    pub dimmed: bool,
    /// Say that it cannot do 48 kHz.
    pub warned: bool,
}

/// A row of the menu. Nothing chosen yet means the host default, so that is the row
/// that looks selected.
pub fn device_row(device: &DeviceInfo, chosen: &Option<String>, locked: bool) -> (r: DeviceRow)
    ensures
        r.selected == match text_of(*chosen) {
            Some(name) => name == device.name@,
            None => device.is_default,
        },
        r.clickable == (!locked && device.usable),
        r.dimmed == locked,
        r.warned == !device.usable,
{
    let selected = match chosen {
        Some(name) => same(name.as_str(), device.name.as_str()),
        None => device.is_default,
    };
    DeviceRow { selected, clickable: !locked && device.usable, dimmed: locked, warned: !device.usable }
}

/// Whether anything is on the air.
pub fn live_label(live: bool) -> (r: &'static str)
    ensures
        r@ == if live {
            "LIVE"@
        } else {
            "idle"@
        },
{
    if live {
        "LIVE"
    } else {
        "idle"
    }
}

} // verus!
