//! The two sessions: what they are configured with, the order in which they come
//! up, and how they take a fault.
//!
//! Both ends share the lifecycle of [`crate::supervisor`]; what differs is only
//! what a desktop has and a phone does not - a device to choose, several output
//! channels, and no notion of an input preset.
use vstd::prelude::*;
use vstd::string::StringExecFns;

use crate::text::trim;
use crate::util::add32;

verus! {

use crate::protocol::{DEFAULT_AUDIO_PORT, DISCOVERY_PORT};
use crate::text::trimmed;
use crate::util::wrap32;

/// How long the sender sleeps if the audio callback never wakes it.
pub const SENDER_PARK_MS: u64 = 100;

/// How long a backend is given to bring a stream up before it is given up on, rather
/// than blocking a start forever on a wedged sound server.
pub const OPEN_TIMEOUT_MS: u64 = 2000;

/// 5 ms at 48 kHz: the packet size the whole system is tuned around.
pub const DEFAULT_BLOCK_FRAMES: u32 = 240;

/// How often a HELLO or a BYE is repeated: neither is required for correctness and
/// neither is worth retransmitting properly.
pub const CONTROL_REPEATS: usize = 3;

/// What is in an optional text.
pub open spec fn text_of(o: Option<String>) -> Option<Seq<char>> {
    match o {
        Some(s) => Some(s@),
        None => None,
    }
}

pub(crate) fn clone_text(o: &Option<String>) -> (r: Option<String>)
    ensures
        text_of(r) == text_of(*o),
{
    match o {
        Some(s) => Some(s.clone()),
        None => None,
    }
}

/// Why a live stream reported an error, as far as it is told apart here.
#[derive(Debug, Clone, Copy, PartialEq, Eq, Structural)]
pub enum StreamErrorKind {
    Xrun,
    DeviceChanged,
    RealtimeDenied,
    DeviceNotAvailable,
    DeviceBusy,
    StreamInvalidated,
    BackendError,
    Other,
}

/// How an error from a live stream should be treated: the glitch that is worth a
/// counter, or the failure that needs a new stream.
#[derive(Debug, PartialEq, Eq, Clone, Copy, Structural)]
pub enum Fault {
    /// A dropout. Count it and carry on; the stream is still good.
    Xrun,
    /// The stream is finished: reopen it.
    Reopen,
    /// Worth a line in the log and nothing else.
    Note,
}

/// What an error means.
pub open spec fn fault_of(kind: StreamErrorKind) -> Fault {
    match kind {
        StreamErrorKind::Xrun => Fault::Xrun,
        StreamErrorKind::DeviceChanged => Fault::Note,
        StreamErrorKind::RealtimeDenied => Fault::Note,
        _ => Fault::Reopen,
    }
}

pub fn classify(kind: StreamErrorKind) -> (r: Fault)
    ensures
        r == fault_of(kind),
{
    match kind {
        StreamErrorKind::Xrun => Fault::Xrun,
        // The backend followed the default device somewhere else and the stream
        // is still live; rebuilding it would be a dropout for no reason.
        StreamErrorKind::DeviceChanged => Fault::Note,
        // Audio still plays, it is just not promoted to a realtime thread.
        StreamErrorKind::RealtimeDenied => Fault::Note,
        _ => Fault::Reopen,
    }
}

/// Applies a stream error to the counters both sessions publish: a dropout is
/// counted, a dead stream asks for a restart.
pub fn record_fault(kind: StreamErrorKind, xruns: &mut Counter, restart: &mut bool) -> (r: Fault)
    ensures
        r == fault_of(kind),
        final(xruns).0 == if fault_of(kind) is Xrun {
            wrap32(old(xruns).0 + 1) as u32
        } else {
            old(xruns).0
        },
        *final(restart) == (*old(restart) || fault_of(kind) is Reopen),
{
    let fault = classify(kind);
    match fault {
        Fault::Xrun => {
            xruns.bump();
        },
        Fault::Note => {},
        Fault::Reopen => {
            *restart = true;
        },
    }
    fault
}

/// A running total the error callback owns. The sessions hold xruns as a value to
/// be set rather than incremented, so the count is kept here and pushed through
/// `set_xruns`.
#[derive(Debug, Clone, Copy, PartialEq, Eq, Structural)]
pub struct Counter(pub u32);

impl Counter {
    pub fn bump(&mut self)
        ensures
            final(self).0 == wrap32(old(self).0 + 1),
    {
        self.0 = add32(self.0, 1);
    }

    pub fn get(&self) -> (r: u32)
        ensures
            r == self.0,
    {
        self.0
    }
}

impl Default for Counter {
    fn default() -> (r: Counter)
        ensures
            r.0 == 0,
    {
        Counter(0)
    }
}

#[derive(Debug)]
pub struct ServerConfig {
    pub port: u16,
    pub discovery_port: u16,
    pub jitter_ms: i32,
    pub name: String,
    /// `None` means the host's default output.
    pub device: Option<String>,
    pub block_frames: u32,
    pub discovery: bool,
}

pub struct ServerConfigView {
    pub port: u16,
    pub discovery_port: u16,
    pub jitter_ms: i32,
    pub name: Seq<char>,
    pub device: Option<Seq<char>>,
    pub block_frames: u32,
    pub discovery: bool,
}

impl View for ServerConfig {
    type V = ServerConfigView;

    open spec fn view(&self) -> ServerConfigView {
        ServerConfigView {
            port: self.port,
            discovery_port: self.discovery_port,
            jitter_ms: self.jitter_ms,
            name: self.name@,
            device: text_of(self.device),
            block_frames: self.block_frames,
            discovery: self.discovery,
        }
    }
}

impl ServerConfigView {
    /// A mixer nobody has configured, under the name it is to be known by.
    pub open spec fn plain(name: Seq<char>) -> ServerConfigView {
        ServerConfigView {
            port: DEFAULT_AUDIO_PORT,
            discovery_port: DISCOVERY_PORT,
            jitter_ms: 15,
            name,
            device: None,
            block_frames: DEFAULT_BLOCK_FRAMES,
            discovery: true,
        }
    }
}

impl ServerConfig {
    pub fn new(name: String) -> (r: ServerConfig)
        ensures
            r@ == ServerConfigView::plain(name@),
    {
        ServerConfig {
            port: DEFAULT_AUDIO_PORT,
            discovery_port: DISCOVERY_PORT,
            jitter_ms: 15,
            name,
            device: None,
            block_frames: DEFAULT_BLOCK_FRAMES,
            discovery: true,
        }
    }
}

impl Clone for ServerConfig {
    fn clone(&self) -> (r: ServerConfig)
        ensures
            r@ == self@,
    {
        ServerConfig {
            port: self.port,
            discovery_port: self.discovery_port,
            jitter_ms: self.jitter_ms,
            name: self.name.clone(),
            device: clone_text(&self.device),
            block_frames: self.block_frames,
            discovery: self.discovery,
        }
    }
}

#[derive(Debug)]
pub struct MicConfig {
    pub host: String,
    pub port: u16,
    pub frames_per_packet: usize,
    /// `None` means the host's default input.
    pub device: Option<String>,
}

pub struct MicConfigView {
    pub host: Seq<char>,
    pub port: u16,
    pub frames_per_packet: usize,
    pub device: Option<Seq<char>>,
}

impl View for MicConfig {
    type V = MicConfigView;

    open spec fn view(&self) -> MicConfigView {
        MicConfigView {
            host: self.host@,
            port: self.port,
            frames_per_packet: self.frames_per_packet,
            device: text_of(self.device),
        }
    }
}

impl MicConfigView {
    /// A microphone nobody has configured.
    pub open spec fn plain() -> MicConfigView {
        MicConfigView {
            host: Seq::empty(),
            port: DEFAULT_AUDIO_PORT,
            frames_per_packet: 240,
            device: None,
        }
    }
}

impl Default for MicConfig {
    fn default() -> (r: MicConfig)
        ensures
            r@ == MicConfigView::plain(),
    {
        let host = String::new();
        assert(host@ =~= Seq::empty());
        MicConfig {
            host,
            port: DEFAULT_AUDIO_PORT,
            frames_per_packet: DEFAULT_BLOCK_FRAMES as usize,
            device: None,
        }
    }
}

impl Clone for MicConfig {
    fn clone(&self) -> (r: MicConfig)
        ensures
            r@ == self@,
    {
        MicConfig {
            host: self.host.clone(),
            port: self.port,
            frames_per_packet: self.frames_per_packet,
            device: clone_text(&self.device),
        }
    }
}

/// A name worth showing: there is one, and it is not blank.
pub open spec fn worth_showing(name: Option<Seq<char>>) -> bool {
    name is Some && trimmed(name->0).len() > 0
}

/// The first of three names worth showing, or a fixed one.
pub open spec fn chosen_name(
    hostname: Option<Seq<char>>,
    computer_name: Option<Seq<char>>,
    etc_hostname: Option<Seq<char>>,
) -> Seq<char> {
    if worth_showing(hostname) {
        trimmed(hostname->0)
    } else if worth_showing(computer_name) {
        trimmed(computer_name->0)
    } else if worth_showing(etc_hostname) {
        trimmed(etc_hostname->0)
    } else {
        "LAN Mic desktop"@
    }
}

fn clean(name: &Option<String>) -> (r: Option<String>)
    ensures
        match r {
            Some(s) => worth_showing(text_of(*name)) && s@ == trimmed(text_of(*name)->0),
            None => !worth_showing(text_of(*name)),
        },
{
    match name {
        Some(s) => {
            let t = trim(s.as_str());
            if t.as_str().is_empty() {
                None
            } else {
                Some(t)
            }
        },
        None => None,
    }
}

/// The hostname, so a phone's server list says something a human recognises
/// rather than one more identical entry.
///
/// `HOSTNAME` is not exported by every shell, so `/etc/hostname` is the last try;
/// `COMPUTERNAME` is the Windows spelling. Failing all three, a fixed name still
/// works, it is just less helpful when two of these are on one LAN.
pub fn default_server_name(
    hostname: &Option<String>,
    computer_name: &Option<String>,
    etc_hostname: &Option<String>,
) -> (r: String)
    ensures
        r@ == chosen_name(text_of(*hostname), text_of(*computer_name), text_of(*etc_hostname)),
{
    if let Some(s) = clean(hostname) {
        return s;
    }
    if let Some(s) = clean(computer_name) {
        return s;
    }
    if let Some(s) = clean(etc_hostname) {
        return s;
    }
    String::from_str("LAN Mic desktop")
}

/// A dropout is counted and a changed route or a refused priority is noted; everything
/// else that goes wrong with a stream means that it is finished and has to be reopened.
pub proof fn law_a_dead_stream_is_reopened(kind: StreamErrorKind)
    ensures
        fault_of(kind) is Xrun <==> kind is Xrun,
        fault_of(kind) is Note <==> kind is DeviceChanged || kind is RealtimeDenied,
        fault_of(kind) is Reopen <==> kind is DeviceNotAvailable || kind is DeviceBusy
            || kind is StreamInvalidated || kind is BackendError || kind is Other,
{
}

/// The documented defaults: audio on 45678 at both ends, discovery on 45679 and on, 15 ms
/// of jitter buffer, blocks and packets of 240 frames, and the host's own devices.
pub proof fn law_the_documented_defaults(name: Seq<char>)
    ensures
        ({
            let s = ServerConfigView::plain(name);
            &&& s.port == 45678
            &&& s.discovery_port == 45679
            &&& s.jitter_ms == 15
            &&& s.name == name
            &&& s.device is None
            &&& s.block_frames == 240
            &&& s.discovery
        }),
        ({
            let m = MicConfigView::plain();
            &&& m.host.len() == 0
            &&& m.port == 45678
            &&& m.frames_per_packet == 240
            &&& m.device is None
        }),
{
}

/// A machine goes by the first name it has that is not blank, in order of asking, without
/// the white space around it.
pub proof fn law_the_first_name_that_says_something(
    hostname: Option<Seq<char>>,
    computer_name: Option<Seq<char>>,
    etc_hostname: Option<Seq<char>>,
)
    ensures
        ({
            let name = chosen_name(hostname, computer_name, etc_hostname);
            let first = hostname is Some && trimmed(hostname->0).len() > 0;
            let second = computer_name is Some && trimmed(computer_name->0).len() > 0;
            let third = etc_hostname is Some && trimmed(etc_hostname->0).len() > 0;
            &&& first ==> name == trimmed(hostname->0)
            &&& !first && second ==> name == trimmed(computer_name->0)
            &&& !first && !second && third ==> name == trimmed(etc_hostname->0)
            &&& !first && !second && !third ==> name == "LAN Mic desktop"@
        }),
{
}

/// Nothing of a configuration is hidden from what is said of it.
pub proof fn law_a_configuration_is_shown_whole(s: ServerConfig, m: MicConfig, text: String)
    ensures
        s@.port == s.port,
        s@.discovery_port == s.discovery_port,
        s@.jitter_ms == s.jitter_ms,
        s@.name == s.name@,
        s@.device == text_of(s.device),
        s@.block_frames == s.block_frames,
        s@.discovery == s.discovery,
        m@.host == m.host@,
        m@.port == m.port,
        m@.frames_per_packet == m.frames_per_packet,
        m@.device == text_of(m.device),
        text_of(Some(text)) == Some(text@),
        text_of(None) is None,
{
}

/// The numbers sessions are run by: a sender looks up from its wait ten times a second, a
/// stream has two seconds to open, and a greeting is said three times.
pub proof fn law_the_numbers_sessions_are_run_by()
    ensures
        SENDER_PARK_MS == 100,
        OPEN_TIMEOUT_MS == 2000,
        CONTROL_REPEATS == 3,
        DEFAULT_BLOCK_FRAMES == 240,
{
}

} // verus!
