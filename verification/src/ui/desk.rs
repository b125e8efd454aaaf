//! The desk: what the window holds, and everything that starts or stops.
//!
//! Nothing here opens a stream or a socket. Where something has to be started or
//! stopped, the answer says so, and whoever runs the window reports back how it
//! went.
use vstd::prelude::*;
use vstd::string::StringExecFns;

use crate::args::Options;
use crate::discovery::Found;
use crate::engine::{MicConfig, ServerConfig};
use crate::mixer::{sort_sources, SourceSnapshot};
use crate::text::{debug_quoted, parse_within, push_decimal, same, trim};
use crate::ui::widgets::{Keystroke, TextField};

verus! {

use crate::args::OptionsView;
use crate::audio::Direction;
use crate::discovery::{list_of, FoundView};
use crate::engine::{text_of, MicConfigView, ServerConfigView};
use crate::meter::{METER_CEILING, METER_FULL_SCALE};
use crate::mixer::{is_in_order, keeps_equals_in_order, DEFAULT_FEEDBACK_SHIFT_HZ, MAX_FEEDBACK_SHIFT_HZ};
use crate::protocol::MAX_FRAMES_PER_PACKET;
use crate::receiver::{MAX_JITTER_MS, MIN_JITTER_MS};
use crate::text::{decimal, number_within, quoted, trimmed};
use crate::transmitter::MIN_FRAMES_PER_PACKET;
use crate::ui::widgets::{law_typing_only_adds, pressed, DragPhase, FieldKey};

/// How often the window rereads what the audio side publishes: under the peak
/// meter's decay, over anything an eye resolves.
pub const REFRESH_MS: u64 = 80;

/// Long enough for every mixer on a quiet LAN to answer, short enough that the
/// button does not feel broken.
pub const DISCOVERY_WAIT_MS: u64 = 1200;

#[derive(Debug, Clone, Copy, PartialEq, Eq, Structural)]
pub enum Panel {
    Mixer,
    Microphone,
}

/// The editable fields.
#[derive(Debug, Clone, Copy, PartialEq, Eq, Structural)]
pub enum Field {
    ServerPort,
    ServerName,
    MicHost,
    MicPort,
}

impl Field {
    /// Where the field is kept.
    pub open spec fn place(self) -> int {
        match self {
            Field::ServerPort => 0,
            Field::ServerName => 1,
            Field::MicHost => 2,
            Field::MicPort => 3,
        }
    }

    /// Whether only digits go in.
    pub open spec fn numeric(self) -> bool {
        self is ServerPort || self is MicPort
    }

    /// How much goes in.
    pub open spec fn limit(self) -> nat {
        match self {
            Field::ServerPort => 5,
            Field::ServerName => 32,
            Field::MicHost => 64,
            Field::MicPort => 5,
        }
    }

    /// What stands in the field while it is empty.
    pub open spec fn hint(self) -> Seq<char> {
        match self {
            Field::ServerPort => "45678"@,
            Field::ServerName => "this machine"@,
            Field::MicHost => "192.168.1.50"@,
            Field::MicPort => "45678"@,
        }
    }

    pub fn index(self) -> (r: usize)
        ensures
            r == self.place(),
            r < 4,
    {
        match self {
            Field::ServerPort => 0,
            Field::ServerName => 1,
            Field::MicHost => 2,
            Field::MicPort => 3,
        }
    }
}

/// Which slider a drag belongs to. A drag that starts on a slider keeps it
/// until the button comes up, wherever the pointer goes.
#[derive(Debug, Clone, Copy, PartialEq, Eq, Structural)]
pub enum SliderId {
    MasterGain,
    FeedbackShift,
    MicGain,
    /// Per-source, keyed by ssrc rather than by strip position - strips move
    /// when a microphone leaves and a drag must not follow them.
    Source(u32),
}

impl SliderId {
    /// The far end of the slider: gains run to twice unity, in milli-units; the shift
    /// in thousandths of a hertz.
    pub open spec fn most(self) -> u32 {
        match self {
            SliderId::FeedbackShift => (MAX_FEEDBACK_SHIFT_HZ * 1000) as u32,
            _ => METER_CEILING,
        }
    }

    pub fn range(self) -> (r: u32)
        ensures
            r == self.most(),
    {
        match self {
            SliderId::FeedbackShift => MAX_FEEDBACK_SHIFT_HZ * 1000,
            _ => METER_CEILING,
        }
    }
}

/// What has to be started.
#[derive(Debug)]
pub enum Start {
    Nothing,
    Server(ServerConfig),
    Mic(MicConfig),
}

pub enum StartView {
    Nothing,
    Server(ServerConfigView),
    Mic(MicConfigView),
}

/// What has to be done, in this order.
#[derive(Debug)]
pub struct Todo {
    pub stop_server: bool,
    pub stop_mic: bool,
    pub start: Start,
}

pub struct TodoView {
    pub stop_server: bool,
    pub stop_mic: bool,
    pub start: StartView,
}

impl View for Todo {
    type V = TodoView;

    open spec fn view(&self) -> TodoView {
        TodoView {
            stop_server: self.stop_server,
            stop_mic: self.stop_mic,
            start: match self.start {
                Start::Nothing => StartView::Nothing,
                Start::Server(c) => StartView::Server(c@),
                Start::Mic(c) => StartView::Mic(c@),
            },
        }
    }
}

impl TodoView {
    pub open spec fn nothing() -> TodoView {
        TodoView { stop_server: false, stop_mic: false, start: StartView::Nothing }
    }
}

fn nothing_to_do() -> (r: Todo)
    ensures
        r@ == TodoView::nothing(),
{
    Todo { stop_server: false, stop_mic: false, start: Start::Nothing }
}

/// The port a field holds, if what it holds is one.
pub open spec fn port_in(raw: Seq<char>) -> Option<u16> {
    match number_within(trimmed(raw), true, i32::MIN as int, i32::MAX as int) {
        Some(p) => if 1 <= p <= 65535 {
            Some(p as u16)
        } else {
            None
        },
        None => None,
    }
}

/// What is said about a field that holds no port.
pub open spec fn port_complaint(raw: Seq<char>) -> Seq<char> {
    "port: "@ + quoted(trimmed(raw)) + " is not a port"@
}

/// What is said about a field that holds no port, with what it holds put as `shown`.
pub fn not_a_port(shown: &str) -> (r: String)
    ensures
        r@ == "port: "@ + shown@ + " is not a port"@,
{
    let mut r = String::from_str("port: ");
    r.append(shown);
    r.append(" is not a port");
    r
}

/// A field is of its kind.
pub open spec fn kept_to(fields: Seq<TextField>, which: Field) -> bool {
    let f = fields[which.place()];
    f.numeric == which.numeric() && f.max_len == which.limit() && f.placeholder@ == which.hint()
}

/// What the fields of the desk hold.
pub open spec fn values_of(fields: Seq<TextField>) -> Seq<Seq<char>> {
    fields.map_values(|f: TextField| f.value@)
}

pub struct Desk {
    pub options: Options,
    pub panel: Panel,
    pub server_live: bool,
    pub mic_live: bool,
    /// The last thing that went wrong, shown until the next attempt.
    pub error: Option<String>,
    pub fields: Vec<TextField>,
    pub focused: Option<Field>,
    pub found: Vec<Found>,
    pub searching: bool,
    /// Held here as well as in the engine so a stop and a start do not lose
    /// the desk settings - and so the sliders have somewhere to read from
    /// when nothing is running.
    pub master_gain: u32,
    pub feedback_shift: u32,
    pub mic_gain: u32,
    pub mic_muted: bool,
    pub dragging: Option<SliderId>,
    /// Refilled from the source table on every tick.
    pub sources: Vec<SourceSnapshot>,
}

#[verifier::ext_equal]
pub struct DeskView {
    pub options: OptionsView,
    pub panel: Panel,
    pub server_live: bool,
    pub mic_live: bool,
    pub error: Option<Seq<char>>,
    pub values: Seq<Seq<char>>,
    pub focused: Option<Field>,
    pub found: Seq<FoundView>,
    pub searching: bool,
    pub master_gain: u32,
    pub feedback_shift: u32,
    pub mic_gain: u32,
    pub mic_muted: bool,
    pub dragging: Option<SliderId>,
    pub sources: Seq<SourceSnapshot>,
}

impl View for Desk {
    type V = DeskView;

    open spec fn view(&self) -> DeskView {
        DeskView {
            options: self.options@,
            panel: self.panel,
            server_live: self.server_live,
            mic_live: self.mic_live,
            error: text_of(self.error),
            values: values_of(self.fields@),
            focused: self.focused,
            found: list_of(self.found@),
            searching: self.searching,
            master_gain: self.master_gain,
            feedback_shift: self.feedback_shift,
            mic_gain: self.mic_gain,
            mic_muted: self.mic_muted,
            dragging: self.dragging,
            sources: self.sources@,
        }
    }
}

impl DeskView {
    /// The window as it opens: on the mixer, or, started with an address to send to,
    /// on the panel that address is for, with it filled in.
    pub open spec fn opened(options: OptionsView) -> DeskView {
        DeskView {
            options,
            panel: if options.mic.host.len() == 0 {
                Panel::Mixer
            } else {
                Panel::Microphone
            },
            server_live: false,
            mic_live: false,
            error: None,
            values: seq![
                decimal(options.server.port as nat),
                options.server.name,
                options.mic.host,
                decimal(options.mic.port as nat),
            ],
            focused: None,
            found: Seq::empty(),
            searching: false,
            master_gain: METER_FULL_SCALE,
            feedback_shift: (DEFAULT_FEEDBACK_SHIFT_HZ * 1000) as u32,
            mic_gain: METER_FULL_SCALE,
            mic_muted: false,
            dragging: None,
            sources: Seq::empty(),
        }
    }

    /// Four fields, and never a microphone and a mixer at once: being both would mix
    /// this machine into its own speakers.
    pub open spec fn wf(self) -> bool {
        &&& self.values.len() == 4
        &&& !(self.server_live && self.mic_live)
        &&& self.master_gain <= METER_CEILING
        &&& self.mic_gain <= METER_CEILING
        &&& self.feedback_shift <= MAX_FEEDBACK_SHIFT_HZ * 1000
    }

    pub open spec fn value(self, which: Field) -> Seq<char> {
        self.values[which.place()]
    }

    /// What the mixer is started with: what the fields say, where they say something.
    pub open spec fn server_config(self) -> ServerConfigView {
        let name = trimmed(self.value(Field::ServerName));
        let server = self.options.server;
        ServerConfigView {
            port: port_in(self.value(Field::ServerPort))->0,
            name: if name.len() > 0 {
                name
            } else {
                server.name
            },
            ..server
        }
    }

    /// What the microphone is started with.
    pub open spec fn mic_config(self) -> MicConfigView {
        MicConfigView {
            host: trimmed(self.value(Field::MicHost)),
            port: port_in(self.value(Field::MicPort))->0,
            ..self.options.mic
        }
    }

    /// The mixer's button: stop it, or start it. One at a time, as on the phone: a
    /// machine is a microphone or a mixer.
    pub open spec fn toggle_server(self) -> (TodoView, DeskView) {
        if self.server_live {
            (
                TodoView { stop_server: true, ..TodoView::nothing() },
                DeskView { server_live: false, ..self },
            )
        } else {
            let alone = DeskView { mic_live: false, error: None, ..self };
            let todo = TodoView { stop_mic: self.mic_live, ..TodoView::nothing() };
            let raw = self.value(Field::ServerPort);
            if port_in(raw) is None {
                (todo, DeskView { error: Some(port_complaint(raw)), ..alone })
            } else {
                (
                    TodoView { start: StartView::Server(self.server_config()), ..todo },
                    alone,
                )
            }
        }
    }

    /// The microphone's button: stop it, or start it.
    pub open spec fn toggle_mic(self) -> (TodoView, DeskView) {
        if self.mic_live {
            (
                TodoView { stop_mic: true, ..TodoView::nothing() },
                DeskView { mic_live: false, ..self },
            )
        } else {
            let alone = DeskView { server_live: false, error: None, ..self };
            let todo = TodoView { stop_server: self.server_live, ..TodoView::nothing() };
            let raw = self.value(Field::MicPort);
            if trimmed(self.value(Field::MicHost)).len() == 0 {
                (
                    todo,
                    DeskView {
                        error: Some("no server address: find one, or type it in"@),
                        ..alone
                    },
                )
            } else if port_in(raw) is None {
                (todo, DeskView { error: Some(port_complaint(raw)), ..alone })
            } else {
                (TodoView { start: StartView::Mic(self.mic_config()), ..todo }, alone)
            }
        }
    }

    /// The desk once a mixer has come up, or has not.
    pub open spec fn server_started(self, config: ServerConfigView, failure: Option<Seq<char>>) -> DeskView {
        match failure {
            None => DeskView {
                options: OptionsView { server: config, ..self.options },
                server_live: true,
                ..self
            },
            Some(message) => DeskView { error: Some(message), ..self },
        }
    }

    /// The desk once a microphone has come up, or has not.
    pub open spec fn mic_started(self, config: MicConfigView, failure: Option<Seq<char>>) -> DeskView {
        match failure {
            None => DeskView {
                options: OptionsView { mic: config, ..self.options },
                mic_live: true,
                ..self
            },
            Some(message) => DeskView { error: Some(message), ..self },
        }
    }

    /// A tab. Leaving a panel stops what it started: an invisible live microphone is
    /// how a room gets fed back into itself. Whatever went wrong was about the panel
    /// being left.
    pub open spec fn show(self, panel: Panel) -> (TodoView, DeskView) {
        if self.panel == panel {
            (TodoView::nothing(), self)
        } else {
            (
                TodoView {
                    stop_server: panel is Microphone && self.server_live,
                    stop_mic: panel is Mixer && self.mic_live,
                    start: StartView::Nothing,
                },
                DeskView {
                    server_live: self.server_live && panel is Mixer,
                    mic_live: self.mic_live && panel is Microphone,
                    panel,
                    focused: None,
                    error: None,
                    ..self
                },
            )
        }
    }

    /// Find server: one search at a time.
    pub open spec fn search(self) -> (Option<u16>, DeskView) {
        if self.searching {
            (None, self)
        } else {
            (
                Some(self.options.server.discovery_port),
                DeskView { searching: true, error: None, found: Seq::empty(), ..self },
            )
        }
    }

    /// The desk once a search has ended. One answer is not a choice: it is taken.
    pub open spec fn searched(self, found: Seq<FoundView>) -> DeskView {
        DeskView {
            searching: false,
            error: if found.len() == 0 {
                Some("no mixer answered; type the address in"@)
            } else {
                self.error
            },
            values: if found.len() == 1 {
                self.values.update(Field::MicHost.place(), found[0].addr)
            } else {
                self.values
            },
            found,
            ..self
        }
    }

    /// The desk once a search has failed.
    pub open spec fn search_failed(self, why: Seq<char>) -> DeskView {
        DeskView { searching: false, error: Some("discovery failed: "@ + why), ..self }
    }

    /// The desk once a device has been picked from the menu.
    pub open spec fn chosen(self, direction: Direction, name: Seq<char>) -> DeskView {
        DeskView {
            options: match direction {
                Direction::Output => OptionsView {
                    server: ServerConfigView { device: Some(name), ..self.options.server },
                    ..self.options
                },
                Direction::Input => OptionsView {
                    mic: MicConfigView { device: Some(name), ..self.options.mic },
                    ..self.options
                },
            },
            ..self
        }
    }

    /// The desk once the jitter target has been moved by `delta` milliseconds.
    pub open spec fn nudged(self, delta: int) -> DeskView {
        let wanted = self.options.server.jitter_ms + delta;
        let ms = if wanted < MIN_JITTER_MS {
            MIN_JITTER_MS
        } else if wanted > MAX_JITTER_MS {
            MAX_JITTER_MS
        } else {
            wanted as i32
        };
        DeskView {
            options: OptionsView {
                server: ServerConfigView { jitter_ms: ms, ..self.options.server },
                ..self.options
            },
            ..self
        }
    }

    /// The desk once the packet size has been moved on.
    pub open spec fn repacketed(self) -> DeskView {
        DeskView {
            options: OptionsView {
                mic: MicConfigView {
                    frames_per_packet: next_packet_size(self.options.mic.frames_per_packet),
                    ..self.options.mic
                },
                ..self.options
            },
            ..self
        }
    }

    /// A slider moved to `at`, in its own units.
    pub open spec fn slid(self, id: SliderId, at: u32) -> DeskView {
        let to = if at < id.most() {
            at
        } else {
            id.most()
        };
        match id {
            SliderId::MasterGain => DeskView { master_gain: to, ..self },
            SliderId::FeedbackShift => DeskView { feedback_shift: to, ..self },
            SliderId::MicGain => DeskView { mic_gain: to, ..self },
            SliderId::Source(_) => self,
        }
    }

    /// The desk once a key has gone to the field in focus.
    pub open spec fn typed(
        self,
        which: Field,
        control: bool,
        platform: bool,
        key: Seq<char>,
        key_char: Option<Seq<char>>,
    ) -> (FieldKey, DeskView) {
        let (what, value) = pressed(
            self.value(which),
            control,
            platform,
            key,
            key_char,
            which.numeric(),
            which.limit(),
        );
        (what, DeskView { values: self.values.update(which.place(), value), ..self })
    }

    /// A key: escape gives up the field, enter on an address or a port is "go", which
    /// is what someone who just typed one means by it, and the rest is typing. The
    /// answer is whether anything is to be redrawn, and what is to be done.
    pub open spec fn on_key(
        self,
        control: bool,
        platform: bool,
        key: Seq<char>,
        key_char: Option<Seq<char>>,
    ) -> (bool, TodoView, DeskView) {
        match self.focused {
            None => (false, TodoView::nothing(), self),
            Some(which) => if key == "escape"@ {
                (true, TodoView::nothing(), DeskView { focused: None, ..self })
            } else {
                let (what, after) = self.typed(which, control, platform, key, key_char);
                match what {
                    FieldKey::Edited => (true, TodoView::nothing(), after),
                    FieldKey::Ignored => (false, TodoView::nothing(), self),
                    FieldKey::Submitted => {
                        let left = DeskView { focused: None, ..self };
                        if self.panel is Mixer && !self.server_live {
                            let (todo, desk) = left.toggle_server();
                            (true, todo, desk)
                        } else if self.panel is Microphone && !self.mic_live {
                            let (todo, desk) = left.toggle_mic();
                            (true, todo, desk)
                        } else {
                            (true, TodoView::nothing(), left)
                        }
                    },
                }
            },
        }
    }

    /// Routes a drag to whichever slider owns it. Going down claims the slider,
    /// moving only moves the claimed one, letting go releases it. The answer is what
    /// the slider was set to, if it was.
    pub open spec fn slider_event(self, id: SliderId, phase: DragPhase, at: u32) -> (
        Option<u32>,
        DeskView,
    ) {
        let to = if at < id.most() {
            at
        } else {
            id.most()
        };
        match phase {
            DragPhase::Down => (Some(to), DeskView { dragging: Some(id), ..self.slid(id, at) }),
            DragPhase::Move => if self.dragging == Some(id) {
                (Some(to), self.slid(id, at))
            } else {
                (None, self)
            },
            DragPhase::Up => if self.dragging == Some(id) {
                (None, DeskView { dragging: None, ..self })
            } else {
                (None, self)
            },
        }
    }
}

/// What a keystroke comes to.
#[derive(Debug)]
pub struct KeyOutcome {
    pub redraw: bool,
    pub todo: Todo,
}

impl Desk {
    pub open spec fn wf(&self) -> bool {
        &&& self@.wf()
        &&& kept_to(self.fields@, Field::ServerPort)
        &&& kept_to(self.fields@, Field::ServerName)
        &&& kept_to(self.fields@, Field::MicHost)
        &&& kept_to(self.fields@, Field::MicPort)
    }

    pub fn new(options: Options) -> (r: Desk)
        ensures
            r.wf(),
            r@ == DeskView::opened(options@),
    {
        let mut server_port = String::new();
        push_decimal(&mut server_port, options.server.port as u64);
        let mut mic_port = String::new();
        push_decimal(&mut mic_port, options.mic.port as u64);
        let mut fields: Vec<TextField> = Vec::new();
        fields.push(TextField::number("45678", 5).with(server_port));
        fields.push(TextField::text("this machine", 32).with(options.server.name.clone()));
        fields.push(TextField::text("192.168.1.50", 64).with(options.mic.host.clone()));
        fields.push(TextField::number("45678", 5).with(mic_port));
        let panel = if options.mic.host.as_str().is_empty() {
            Panel::Mixer
        } else {
            Panel::Microphone
        };
        let found: Vec<Found> = Vec::new();
        let sources: Vec<SourceSnapshot> = Vec::new();
        let ghost asked = options@;
        let r = Desk {
            options,
            panel,
            server_live: false,
            mic_live: false,
            error: None,
            fields,
            focused: None,
            found,
            searching: false,
            master_gain: METER_FULL_SCALE,
            feedback_shift: DEFAULT_FEEDBACK_SHIFT_HZ * 1000,
            mic_gain: METER_FULL_SCALE,
            mic_muted: false,
            dragging: None,
            sources,
        };
        assert(r@.values =~= DeskView::opened(asked).values);
        assert(r@.found =~= DeskView::opened(asked).found);
        r
    }

    pub fn is_live(&self) -> (r: bool)
        ensures
            r == (self.server_live || self.mic_live),
    {
        self.server_live || self.mic_live
    }

    fn port_from(&self, which: Field) -> (r: Option<u16>)
        requires
            self.wf(),
        ensures
            r == port_in(self@.value(which)),
    {
        let i: usize = which.index();
        assert(self@.values[i as int] == self.fields@[i as int].value@);
        let raw = trim(self.fields[i].value.as_str());
        match parse_within(raw.as_str(), true, i32::MIN as i64, i32::MAX as i64) {
            Some(p) => if 1 <= p && p <= 65535 {
                Some(p as u16)
            } else {
                None
            },
            None => None,
        }
    }

    fn complain_about_port(&mut self, which: Field)
        requires
            old(self).wf(),
        ensures
            final(self).wf(),
            final(self)@ == (DeskView {
                error: Some(port_complaint(old(self)@.value(which))),
                ..old(self)@
            }),
    {
        let i: usize = which.index();
        assert(self@.values[i as int] == self.fields@[i as int].value@);
        let raw = trim(self.fields[i].value.as_str());
        self.error = Some(not_a_port(debug_quoted(raw.as_str()).as_str()));
    }

    pub fn toggle_server(&mut self) -> (r: Todo)
        requires
            old(self).wf(),
        ensures
            final(self).wf(),
            (r@, final(self)@) == old(self)@.toggle_server(),
    {
        if self.server_live {
            self.server_live = false;
            return Todo { stop_server: true, stop_mic: false, start: Start::Nothing };
        }
        let stop_mic = self.mic_live;
        self.mic_live = false;
        self.error = None;
        match self.port_from(Field::ServerPort) {
            None => {
                self.complain_about_port(Field::ServerPort);
                Todo { stop_server: false, stop_mic, start: Start::Nothing }
            },
            Some(port) => {
                let mut config = self.options.server.clone();
                config.port = port;
                assert(self@.values[1] == self.fields@[1].value@);
                let name = trim(self.fields[1].value.as_str());
                if !name.as_str().is_empty() {
                    config.name = name;
                }
                Todo { stop_server: false, stop_mic, start: Start::Server(config) }
            },
        }
    }

    /// Reports how a start of the mixer went; `failure` says what went wrong.
    pub fn server_started(&mut self, config: ServerConfig, failure: Option<String>)
        requires
            old(self).wf(),
            !old(self).mic_live,
        ensures
            final(self).wf(),
            final(self)@ == old(self)@.server_started(config@, text_of(failure)),
    {
        match failure {
            None => {
                self.options.server = config;
                self.server_live = true;
            },
            Some(message) => {
                self.error = Some(message);
            },
        }
    }

    pub fn toggle_mic(&mut self) -> (r: Todo)
        requires
            old(self).wf(),
        ensures
            final(self).wf(),
            (r@, final(self)@) == old(self)@.toggle_mic(),
    {
        if self.mic_live {
            self.mic_live = false;
            return Todo { stop_server: false, stop_mic: true, start: Start::Nothing };
        }
        let stop_server = self.server_live;
        self.server_live = false;
        self.error = None;
        assert(self@.values[2] == self.fields@[2].value@);
        let host = trim(self.fields[2].value.as_str());
        if host.as_str().is_empty() {
            self.error = Some(String::from_str("no server address: find one, or type it in"));
            return Todo { stop_server, stop_mic: false, start: Start::Nothing };
        }
        match self.port_from(Field::MicPort) {
            None => {
                self.complain_about_port(Field::MicPort);
                Todo { stop_server, stop_mic: false, start: Start::Nothing }
            },
            Some(port) => {
                let mut config = self.options.mic.clone();
                config.host = host;
                config.port = port;
                Todo { stop_server, stop_mic: false, start: Start::Mic(config) }
            },
        }
    }

    /// Reports how a start of the microphone went; `failure` says what went wrong.
    pub fn mic_started(&mut self, config: MicConfig, failure: Option<String>)
        requires
            old(self).wf(),
            !old(self).server_live,
        ensures
            final(self).wf(),
            final(self)@ == old(self)@.mic_started(config@, text_of(failure)),
    {
        match failure {
            None => {
                self.options.mic = config;
                self.mic_live = true;
            },
            Some(message) => {
                self.error = Some(message);
            },
        }
    }

    pub fn show(&mut self, panel: Panel) -> (r: Todo)
        requires
            old(self).wf(),
        ensures
            final(self).wf(),
            (r@, final(self)@) == old(self)@.show(panel),
    {
        if self.panel == panel {
            return nothing_to_do();
        }
        let mut todo = nothing_to_do();
        match panel {
            Panel::Mixer => {
                todo.stop_mic = self.mic_live;
                self.mic_live = false;
            },
            Panel::Microphone => {
                todo.stop_server = self.server_live;
                self.server_live = false;
            },
        }
        self.panel = panel;
        self.focused = None;
        self.error = None;
        todo
    }

    /// Starts a search for servers on the port this answers, if none is under way.
    pub fn find_servers(&mut self) -> (r: Option<u16>)
        requires
            old(self).wf(),
        ensures
            final(self).wf(),
            (r, final(self)@) == old(self)@.search(),
    {
        if self.searching {
            return None;
        }
        self.searching = true;
        self.error = None;
        self.found.clear();
        assert(self@.found =~= Seq::empty());
        Some(self.options.server.discovery_port)
    }

    pub fn servers_found(&mut self, found: Vec<Found>)
        requires
            old(self).wf(),
        ensures
            final(self).wf(),
            final(self)@ == old(self)@.searched(list_of(found@)),
    {
        let ghost before = self@;
        let ghost seen = list_of(found@);
        self.searching = false;
        if found.len() == 0 {
            self.error = Some(String::from_str("no mixer answered; type the address in"));
        }
        if found.len() == 1 {
            assert(seen[0] == found@[0]@);
            self.fields[2].value = found[0].host();
            assert(self@.values =~= before.values.update(2, seen[0].addr));
        }
        self.found = found;
    }

    pub fn search_failed(&mut self, why: &str)
        requires
            old(self).wf(),
        ensures
            final(self).wf(),
            final(self)@ == old(self)@.search_failed(why@),
    {
        self.searching = false;
        let mut message = String::from_str("discovery failed: ");
        message.append(why);
        self.error = Some(message);
    }

    pub fn toggle_mic_mute(&mut self)
        requires
            old(self).wf(),
        ensures
            final(self).wf(),
            final(self)@ == (DeskView { mic_muted: !old(self)@.mic_muted, ..old(self)@ }),
    {
        self.mic_muted = !self.mic_muted;
    }

    /// Whether a press of a strip's mute button mutes the source or unmutes it.
    pub fn toggle_source_mute(&self, ssrc: u32) -> (r: bool)
        ensures
            r == !(exists|i: int|
                0 <= i < self.sources@.len() && (#[trigger] self.sources@[i]).ssrc == ssrc
                    && self.sources@[i].muted),
    {
        let mut i: usize = 0;
        while i < self.sources.len()
            invariant
                i <= self.sources@.len(),
                forall|k: int|
                    0 <= k < i ==> !((#[trigger] self.sources@[k]).ssrc == ssrc
                        && self.sources@[k].muted),
            decreases self.sources@.len() - i,
        {
            if self.sources[i].ssrc == ssrc && self.sources[i].muted {
                assert(self.sources@[i as int].ssrc == ssrc);
                return false;
            }
            i = i + 1;
        }
        true
    }

    /// Nudges the jitter target. It only takes effect on the next start - the
    /// buffers are sized when the session is built - which the panel says.
    pub fn nudge_jitter(&mut self, delta: i32)
        requires
            old(self).wf(),
        ensures
            final(self).wf(),
            ({
                let wanted = old(self)@.options.server.jitter_ms + delta;
                let ms = if wanted < MIN_JITTER_MS {
                    MIN_JITTER_MS
                } else if wanted > MAX_JITTER_MS {
                    MAX_JITTER_MS
                } else {
                    wanted as i32
                };
                final(self)@ == (DeskView {
                    options: OptionsView {
                        server: ServerConfigView {
                            jitter_ms: ms,
                            ..old(self)@.options.server
                        },
                        ..old(self)@.options
                    },
                    ..old(self)@
                })
            }),
            final(self)@ == old(self)@.nudged(delta as int),
    {
        let wanted: i64 = self.options.server.jitter_ms as i64 + delta as i64;
        self.options.server.jitter_ms = if wanted < MIN_JITTER_MS as i64 {
            MIN_JITTER_MS
        } else if wanted > MAX_JITTER_MS as i64 {
            MAX_JITTER_MS
        } else {
            wanted as i32
        };
    }

    /// Steps through the offered packet sizes. Also a next-start setting.
    pub fn cycle_packet_size(&mut self)
        requires
            old(self).wf(),
        ensures
            final(self).wf(),
            final(self)@ == (DeskView {
                options: OptionsView {
                    mic: MicConfigView {
                        frames_per_packet: next_packet_size(
                            old(self)@.options.mic.frames_per_packet,
                        ),
                        ..old(self)@.options.mic
                    },
                    ..old(self)@.options
                },
                ..old(self)@
            }),
            final(self)@ == old(self)@.repacketed(),
    {
        let current: usize = self.options.mic.frames_per_packet;
        self.options.mic.frames_per_packet = if current < 120 {
            120
        } else if current < 240 {
            240
        } else if current < 480 {
            480
        } else if current < 960 {
            960
        } else {
            120
        };
    }

    pub fn choose_device(&mut self, direction: Direction, name: String)
        requires
            old(self).wf(),
        ensures
            final(self).wf(),
            final(self)@ == (DeskView {
                options: match direction {
                    Direction::Output => OptionsView {
                        server: ServerConfigView {
                            device: Some(name@),
                            ..old(self)@.options.server
                        },
                        ..old(self)@.options
                    },
                    Direction::Input => OptionsView {
                        mic: MicConfigView { device: Some(name@), ..old(self)@.options.mic },
                        ..old(self)@.options
                    },
                },
                ..old(self)@
            }),
            final(self)@ == old(self)@.chosen(direction, name@),
    {
        match direction {
            Direction::Output => {
                self.options.server.device = Some(name);
            },
            Direction::Input => {
                self.options.mic.device = Some(name);
            },
        }
    }

    /// Sets what a slider controls, as far as its range goes.
    fn apply_slider(&mut self, id: SliderId, at: u32) -> (to: u32)
        requires
            old(self).wf(),
        ensures
            final(self).wf(),
            final(self)@ == old(self)@.slid(id, at),
            to == if at < id.most() {
                at
            } else {
                id.most()
            },
    {
        let to: u32 = if at < id.range() {
            at
        } else {
            id.range()
        };
        match id {
            SliderId::MasterGain => {
                self.master_gain = to;
            },
            SliderId::FeedbackShift => {
                self.feedback_shift = to;
            },
            SliderId::MicGain => {
                self.mic_gain = to;
            },
            SliderId::Source(_) => {},
        }
        to
    }

    /// Takes in what the pointer does over a slider; `at` is in the slider's own
    /// units. The answer is what the slider was set to, if it was, to be passed on to
    /// the session that is live.
    pub fn slider_event(&mut self, id: SliderId, phase: DragPhase, at: u32) -> (r: Option<u32>)
        requires
            old(self).wf(),
        ensures
            final(self).wf(),
            (r, final(self)@) == old(self)@.slider_event(id, phase, at),
    {
        let mine = match self.dragging {
            Some(d) => d == id,
            None => false,
        };
        match phase {
            DragPhase::Down => {
                self.dragging = Some(id);
                Some(self.apply_slider(id, at))
            },
            DragPhase::Move => if mine {
                Some(self.apply_slider(id, at))
            } else {
                None
            },
            DragPhase::Up => {
                if mine {
                    self.dragging = None;
                }
                None
            },
        }
    }

    pub fn on_key(&mut self, keystroke: &Keystroke) -> (r: KeyOutcome)
        requires
            old(self).wf(),
        ensures
            final(self).wf(),
            (r.redraw, r.todo@, final(self)@) == old(self)@.on_key(
                keystroke.control,
                keystroke.platform,
                keystroke.key@,
                text_of(keystroke.key_char),
            ),
    {
        let ghost before = self@;
        let which = match self.focused {
            Some(which) => which,
            None => {
                return KeyOutcome { redraw: false, todo: nothing_to_do() };
            },
        };
        if same(keystroke.key.as_str(), "escape") {
            self.focused = None;
            return KeyOutcome { redraw: true, todo: nothing_to_do() };
        }
        let i: usize = which.index();
        assert(before.values[i as int] == self.fields@[i as int].value@);
        let what = self.fields[i].key(keystroke);
        assert(self@.values =~= before.values.update(i as int, self.fields@[i as int].value@));
        match what {
            FieldKey::Edited => KeyOutcome { redraw: true, todo: nothing_to_do() },
            FieldKey::Ignored => {
                proof {
                    if keystroke.key_char is Some {
                        law_typing_only_adds(
                            before.values[i as int],
                            keystroke.key_char->0@,
                            which.numeric(),
                            which.limit(),
                        );
                    }
                    assert(self@.values =~= before.values);
                }
                KeyOutcome { redraw: false, todo: nothing_to_do() }
            },
            FieldKey::Submitted => {
                assert(self@.values =~= before.values);
                self.focused = None;
                let todo = match self.panel {
                    Panel::Mixer => if !self.server_live {
                        self.toggle_server()
                    } else {
                        nothing_to_do()
                    },
                    Panel::Microphone => if !self.mic_live {
                        self.toggle_mic()
                    } else {
                        nothing_to_do()
                    },
                };
                KeyOutcome { redraw: true, todo }
            },
        }
    }

    /// Takes in what the source table published since the last tick, in a stable
    /// order: without that the strips would reshuffle whenever a slot was reused. With
    /// no mixer behind them there are no strips.
    pub fn poll(&mut self, published: Vec<SourceSnapshot>)
        requires
            old(self).wf(),
        ensures
            final(self).wf(),
            final(self)@ == (DeskView { sources: final(self)@.sources, ..old(self)@ }),
            old(self).server_live ==> is_in_order(final(self)@.sources)
                && final(self)@.sources.to_multiset() == published@.to_multiset()
                && keeps_equals_in_order(published@, final(self)@.sources),
            !old(self).server_live ==> final(self)@.sources.len() == 0,
    {
        if self.server_live {
            let mut sources = published;
            sort_sources(&mut sources);
            self.sources = sources;
        } else {
            self.sources.clear();
        }
    }
}

/// The packet size after this one: the sizes worth offering are 2.5, 5, 10 and 20 ms.
pub open spec fn next_packet_size(current: usize) -> usize {
    if current < 120 {
        120
    } else if current < 240 {
        240
    } else if current < 480 {
        480
    } else if current < 960 {
        960
    } else {
        120
    }
}

/// The packet sizes offered, in frames.
pub fn packet_sizes() -> (r: [usize; 4])
    ensures
        r@ == seq![120usize, 240usize, 480usize, 960usize],
{
    let r: [usize; 4] = [120, 240, 480, 960];
    assert(r@ =~= seq![120usize, 240usize, 480usize, 960usize]);
    r
}

/// Whatever is pressed, a machine is never a microphone and a mixer at once, and what
/// is to be started is only started once the other has been stopped.
pub proof fn law_never_both_at_once(
    d: DeskView,
    panel: Panel,
    control: bool,
    platform: bool,
    key: Seq<char>,
    key_char: Option<Seq<char>>,
)
    requires
        d.wf(),
    ensures
        d.toggle_server().1.wf(),
        d.toggle_server().0.start is Server ==> !d.toggle_server().1.mic_live
            && !d.toggle_server().1.server_live && (d.mic_live ==> d.toggle_server().0.stop_mic),
        d.toggle_mic().1.wf(),
        d.toggle_mic().0.start is Mic ==> !d.toggle_mic().1.mic_live
            && !d.toggle_mic().1.server_live && (d.server_live ==> d.toggle_mic().0.stop_server),
        d.show(panel).1.wf(),
        d.on_key(control, platform, key, key_char).2.wf(),
{
}

/// Leaving a panel stops what it started, and showing the one that is up changes
/// nothing.
pub proof fn law_leaving_a_panel_stops_its_session(d: DeskView, panel: Panel)
    requires
        d.wf(),
    ensures
        panel == d.panel ==> d.show(panel).1 == d,
        panel != d.panel ==> {
            let after = d.show(panel).1;
            &&& after.panel == panel
            &&& panel is Mixer ==> !after.mic_live
            &&& panel is Microphone ==> !after.server_live
            &&& after.error is None
        },
{
}

/// A drag keeps the slider it started on: until it is let go, moving over another
/// slider changes nothing, and letting go of another does not release it.
pub proof fn law_a_drag_keeps_its_slider(d: DeskView, id: SliderId, other: SliderId, at: u32)
    requires
        d.dragging == Some(id),
        other != id,
    ensures
        d.slider_event(other, DragPhase::Move, at) == (None::<u32>, d),
        d.slider_event(other, DragPhase::Up, at) == (None::<u32>, d),
        d.slider_event(id, DragPhase::Up, at).1.dragging is None,
{
}

/// Every packet size that is offered is one the engine accepts, and stepping through
/// them comes round.
pub proof fn law_packet_sizes_come_round(current: usize)
    ensures
        MIN_FRAMES_PER_PACKET <= next_packet_size(current) <= MAX_FRAMES_PER_PACKET,
        next_packet_size(120) == 240,
        next_packet_size(240) == 480,
        next_packet_size(480) == 960,
        next_packet_size(960) == 120,
{
}

} // verus!
