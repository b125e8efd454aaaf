//! Command line, parsed by hand.
//!
//! The flags deliberately match the other mixer this one is an alternative to,
//! because nobody should have to remember which one spells it `--blocksize`.
use vstd::prelude::*;
use vstd::string::StringExecFns;

use crate::engine::{MicConfig, ServerConfig};
use crate::text::{
    chars_of,
    debug_quoted,
    is_blank,
    parse_within,
    push_signed,
    same,
};

verus! {

use crate::engine::{MicConfigView, ServerConfigView};
use crate::receiver::{MAX_JITTER_MS, MIN_JITTER_MS};
use crate::text::{number_within, quoted, signed_decimal, trimmed};

pub const USAGE: &'static str =
    "LAN Mic - wireless microphones over your own Wi-Fi\n\n    lanmic                          open the window (mixer and microphone in one)\n    lanmic --headless               run the mixer on this terminal\n    lanmic --headless --mic HOST    run this machine as a microphone\n    lanmic --list-devices           show the audio devices and exit\n\nMixer:\n    --port N          audio port to bind (default 45678)\n    --jitter MS       jitter buffer target, 5..200 (default 15)\n    --output NAME     output device; a substring is enough (default: system)\n    --blocksize N     output block in frames; 240 = 5 ms (default 240)\n    --name NAME       what to answer discovery probes with (default: hostname)\n    --discovery-port N                                     (default 45679)\n    --no-discovery    do not answer discovery probes\n\nMicrophone:\n    --mic HOST        server address; the mixer's IP\n    --input NAME      input device; a substring is enough (default: system)\n    --packet N        frames per packet; 240 = 5 ms (default 240)\n\n    -h, --help        this text\n";

#[derive(Debug, PartialEq, Eq, Clone, Copy, Structural)]
pub enum Mode {
    /// The window, which does both jobs.
    Window,
    /// The mixer, on a terminal.
    HeadlessServer,
    /// This machine as a microphone, on a terminal.
    HeadlessMic,
    ListDevices,
    Help,
}

#[derive(Debug)]
pub struct Options {
    pub mode: Mode,
    pub server: ServerConfig,
    pub mic: MicConfig,
}

pub struct OptionsView {
    pub mode: Mode,
    pub server: ServerConfigView,
    pub mic: MicConfigView,
}

impl View for Options {
    type V = OptionsView;

    open spec fn view(&self) -> OptionsView {
        OptionsView { mode: self.mode, server: self.server@, mic: self.mic@ }
    }
}

impl OptionsView {
    /// Nothing on the command line: the window, with the documented defaults.
    pub open spec fn plain(name: Seq<char>) -> OptionsView {
        OptionsView {
            mode: Mode::Window,
            server: ServerConfigView::plain(name),
            mic: MicConfigView::plain(),
        }
    }
}

impl Options {
    pub fn new(name: String) -> (r: Options)
        ensures
            r@ == OptionsView::plain(name@),
    {
        Options { mode: Mode::Window, server: ServerConfig::new(name), mic: MicConfig::default() }
    }
}

impl Clone for Options {
    fn clone(&self) -> (r: Options)
        ensures
            r@ == self@,
    {
        Options { mode: self.mode, server: self.server.clone(), mic: self.mic.clone() }
    }
}

/// What an argument is.
#[derive(Debug, PartialEq, Eq, Clone, Copy, Structural)]
pub enum Word {
    Help,
    ListDevices,
    Headless,
    NoDiscovery,
    Port,
    DiscoveryPort,
    Jitter,
    Name,
    Output,
    Input,
    BlockSize,
    Packet,
    Mic,
    Unknown,
}

/// What an argument is.
pub open spec fn word_of(arg: Seq<char>) -> Word {
    if arg == "-h"@ || arg == "--help"@ {
        Word::Help
    } else if arg == "--list-devices"@ {
        Word::ListDevices
    } else if arg == "--headless"@ {
        Word::Headless
    } else if arg == "--port"@ {
        Word::Port
    } else if arg == "--discovery-port"@ {
        Word::DiscoveryPort
    } else if arg == "--jitter"@ {
        Word::Jitter
    } else if arg == "--name"@ {
        Word::Name
    } else if arg == "--no-discovery"@ {
        Word::NoDiscovery
    } else if arg == "--output"@ {
        Word::Output
    } else if arg == "--input"@ {
        Word::Input
    } else if arg == "--blocksize"@ {
        Word::BlockSize
    } else if arg == "--packet"@ {
        Word::Packet
    } else if arg == "--mic"@ {
        Word::Mic
    } else {
        Word::Unknown
    }
}

fn read_word(arg: &str) -> (r: Word)
    ensures
        r == word_of(arg@),
{
    if same(arg, "-h") || same(arg, "--help") {
        Word::Help
    } else if same(arg, "--list-devices") {
        Word::ListDevices
    } else if same(arg, "--headless") {
        Word::Headless
    } else if same(arg, "--port") {
        Word::Port
    } else if same(arg, "--discovery-port") {
        Word::DiscoveryPort
    } else if same(arg, "--jitter") {
        Word::Jitter
    } else if same(arg, "--name") {
        Word::Name
    } else if same(arg, "--no-discovery") {
        Word::NoDiscovery
    } else if same(arg, "--output") {
        Word::Output
    } else if same(arg, "--input") {
        Word::Input
    } else if same(arg, "--blocksize") {
        Word::BlockSize
    } else if same(arg, "--packet") {
        Word::Packet
    } else if same(arg, "--mic") {
        Word::Mic
    } else {
        Word::Unknown
    }
}

impl Word {
    /// Whether this flag is followed by a value.
    pub open spec fn takes_value(self) -> bool {
        match self {
            Word::Help => false,
            Word::ListDevices => false,
            Word::Headless => false,
            Word::NoDiscovery => false,
            Word::Unknown => false,
            _ => true,
        }
    }

    /// The flag as it is spelt.
    pub open spec fn spelling(self) -> Seq<char> {
        match self {
            Word::Port => "--port"@,
            Word::DiscoveryPort => "--discovery-port"@,
            Word::Jitter => "--jitter"@,
            Word::Name => "--name"@,
            Word::Output => "--output"@,
            Word::Input => "--input"@,
            Word::BlockSize => "--blocksize"@,
            Word::Packet => "--packet"@,
            Word::Mic => "--mic"@,
            _ => ""@,
        }
    }

    fn has_value(self) -> (r: bool)
        ensures
            r == self.takes_value(),
    {
        match self {
            Word::Help
            | Word::ListDevices
            | Word::Headless
            | Word::NoDiscovery
            | Word::Unknown => false,
            _ => true,
        }
    }

    fn text(self) -> (r: &'static str)
        ensures
            r@ == self.spelling(),
    {
        match self {
            Word::Port => "--port",
            Word::DiscoveryPort => "--discovery-port",
            Word::Jitter => "--jitter",
            Word::Name => "--name",
            Word::Output => "--output",
            Word::Input => "--input",
            Word::BlockSize => "--blocksize",
            Word::Packet => "--packet",
            Word::Mic => "--mic",
            _ => "",
        }
    }
}

/// What is wrong with a command line.
#[derive(Debug)]
pub enum ArgError {
    /// A flag whose value was forgotten.
    NeedsValue(Word),
    /// A value that is not a number the flag can take.
    NotANumber(Word, String),
    /// A jitter target out of range.
    Jitter(i32),
    /// A size of zero.
    NotAFrameCount(Word),
    /// The audio port is zero.
    PortZero,
    /// An argument that is none of the flags.
    Unknown(String),
}

pub enum ArgErrorView {
    NeedsValue(Word),
    NotANumber(Word, Seq<char>),
    Jitter(i32),
    NotAFrameCount(Word),
    PortZero,
    Unknown(Seq<char>),
}

impl View for ArgError {
    type V = ArgErrorView;

    open spec fn view(&self) -> ArgErrorView {
        match *self {
            ArgError::NeedsValue(w) => ArgErrorView::NeedsValue(w),
            ArgError::NotANumber(w, s) => ArgErrorView::NotANumber(w, s@),
            ArgError::Jitter(ms) => ArgErrorView::Jitter(ms),
            ArgError::NotAFrameCount(w) => ArgErrorView::NotAFrameCount(w),
            ArgError::PortZero => ArgErrorView::PortZero,
            ArgError::Unknown(s) => ArgErrorView::Unknown(s@),
        }
    }
}

impl ArgErrorView {
    /// The text it is about, where it is about one.
    pub open spec fn about(self) -> Seq<char> {
        match self {
            ArgErrorView::NotANumber(_, raw) => raw,
            ArgErrorView::Unknown(arg) => arg,
            _ => Seq::empty(),
        }
    }

    /// What is said about it: the flag, and what was wrong with it. The text it is
    /// about, if any, is put as `shown`.
    pub open spec fn message_showing(self, shown: Seq<char>) -> Seq<char> {
        match self {
            ArgErrorView::NeedsValue(w) => w.spelling() + " needs a value"@,
            ArgErrorView::NotANumber(w, _) => w.spelling() + ": "@ + shown + " is not a number"@,
            ArgErrorView::Jitter(ms) => "--jitter: "@ + signed_decimal(ms as int)
                + " ms is outside 5..=200"@,
            ArgErrorView::NotAFrameCount(w) => w.spelling() + ": 0 is not a frame count"@,
            ArgErrorView::PortZero => "--port: 0 is not a port"@,
            ArgErrorView::Unknown(_) => "unknown argument "@ + shown,
        }
    }

    /// What is said about it, with the text it is about in quotes.
    pub open spec fn message(self) -> Seq<char> {
        self.message_showing(quoted(self.about()))
    }
}

impl ArgError {
    /// What is said about it, with the text it is about put as `shown`.
    pub fn message_showing(&self, shown: &str) -> (r: String)
        ensures
            r@ == self@.message_showing(shown@),
    {
        match self {
            ArgError::NeedsValue(w) => {
                let mut r = String::from_str(w.text());
                r.append(" needs a value");
                r
            },
            ArgError::NotANumber(w, _) => {
                let mut r = String::from_str(w.text());
                r.append(": ");
                r.append(shown);
                r.append(" is not a number");
                r
            },
            ArgError::Jitter(ms) => {
                let mut r = String::from_str("--jitter: ");
                push_signed(&mut r, *ms as i64);
                r.append(" ms is outside 5..=200");
                r
            },
            ArgError::NotAFrameCount(w) => {
                let mut r = String::from_str(w.text());
                r.append(": 0 is not a frame count");
                r
            },
            ArgError::PortZero => String::from_str("--port: 0 is not a port"),
            ArgError::Unknown(_) => {
                let mut r = String::from_str("unknown argument ");
                r.append(shown);
                r
            },
        }
    }

    /// For a human on a terminal.
    pub fn message(&self) -> (r: String)
        ensures
            r@ == self@.message(),
    {
        match self {
            ArgError::NotANumber(_, raw) => self.message_showing(
                debug_quoted(raw.as_str()).as_str(),
            ),
            ArgError::Unknown(arg) => self.message_showing(debug_quoted(arg.as_str()).as_str()),
            _ => self.message_showing(""),
        }
    }
}

/// Whether an argument starts like a long flag.
pub open spec fn looks_like_a_flag(arg: Seq<char>) -> bool {
    arg.len() >= 2 && arg[0] == '-' && arg[1] == '-'
}

fn is_flag_like(arg: &str) -> (r: bool)
    ensures
        r == looks_like_a_flag(arg@),
{
    let cs = chars_of(arg);
    cs.len() >= 2 && cs[0] == '-' && cs[1] == '-'
}

/// The value that stands at `i`. Only flags take values, so one that looks like a
/// flag is a missing argument rather than a value.
pub open spec fn value_at(argv: Seq<Seq<char>>, i: int) -> Option<Seq<char>> {
    if 0 <= i < argv.len() && !looks_like_a_flag(argv[i]) {
        Some(argv[i])
    } else {
        None
    }
}

/// A number that has to be there and lie in a range.
pub open spec fn number(word: Word, value: Option<Seq<char>>, signed: bool, min: int, max: int) -> Result<
    int,
    ArgErrorView,
> {
    match value {
        None => Err(ArgErrorView::NeedsValue(word)),
        Some(raw) => match number_within(raw, signed, min, max) {
            None => Err(ArgErrorView::NotANumber(word, raw)),
            Some(n) => Ok(n),
        },
    }
}

/// A size that has to be there and not be zero.
pub open spec fn positive(word: Word, value: Option<Seq<char>>) -> Result<int, ArgErrorView> {
    match number(word, value, false, 0, u32::MAX as int) {
        Err(e) => Err(e),
        Ok(n) => if n <= 0 {
            Err(ArgErrorView::NotAFrameCount(word))
        } else {
            Ok(n)
        },
    }
}

/// A text that has to be there.
pub open spec fn text(word: Word, value: Option<Seq<char>>) -> Result<Seq<char>, ArgErrorView> {
    match value {
        None => Err(ArgErrorView::NeedsValue(word)),
        Some(raw) => Ok(raw),
    }
}

/// What the command line has said so far.
pub struct SoFar {
    pub options: OptionsView,
    pub headless: bool,
}

impl SoFar {
    pub open spec fn with_server(self, server: ServerConfigView) -> SoFar {
        SoFar { options: OptionsView { server, ..self.options }, ..self }
    }

    pub open spec fn with_mic(self, mic: MicConfigView) -> SoFar {
        SoFar { options: OptionsView { mic, ..self.options }, ..self }
    }

    pub open spec fn with_mode(self, mode: Mode) -> SoFar {
        SoFar { options: OptionsView { mode, ..self.options }, ..self }
    }

    /// What one flag adds.
    pub open spec fn after(self, word: Word, arg: Seq<char>, value: Option<Seq<char>>) -> Result<
        SoFar,
        ArgErrorView,
    > {
        let server = self.options.server;
        let mic = self.options.mic;
        match word {
            Word::Help => Ok(self.with_mode(Mode::Help)),
            Word::ListDevices => Ok(self.with_mode(Mode::ListDevices)),
            Word::Headless => Ok(SoFar { headless: true, ..self }),
            Word::NoDiscovery => Ok(
                self.with_server(ServerConfigView { discovery: false, ..server }),
            ),
            Word::Port => match number(word, value, false, 0, u16::MAX as int) {
                Err(e) => Err(e),
                // One flag for both ends: a microphone and a mixer on one machine
                // talking to each other on different ports is never what was meant.
                Ok(n) => Ok(
                    self.with_server(ServerConfigView { port: n as u16, ..server }).with_mic(
                        MicConfigView { port: n as u16, ..mic },
                    ),
                ),
            },
            Word::DiscoveryPort => match number(word, value, false, 0, u16::MAX as int) {
                Err(e) => Err(e),
                Ok(n) => Ok(
                    self.with_server(ServerConfigView { discovery_port: n as u16, ..server }),
                ),
            },
            Word::Jitter => match number(word, value, true, i32::MIN as int, i32::MAX as int) {
                Err(e) => Err(e),
                Ok(ms) => if MIN_JITTER_MS <= ms <= MAX_JITTER_MS {
                    Ok(self.with_server(ServerConfigView { jitter_ms: ms as i32, ..server }))
                } else {
                    Err(ArgErrorView::Jitter(ms as i32))
                },
            },
            Word::Name => match text(word, value) {
                Err(e) => Err(e),
                Ok(name) => Ok(self.with_server(ServerConfigView { name, ..server })),
            },
            Word::Output => match text(word, value) {
                Err(e) => Err(e),
                Ok(name) => Ok(
                    self.with_server(ServerConfigView { device: Some(name), ..server }),
                ),
            },
            Word::Input => match text(word, value) {
                Err(e) => Err(e),
                Ok(name) => Ok(self.with_mic(MicConfigView { device: Some(name), ..mic })),
            },
            Word::BlockSize => match positive(word, value) {
                Err(e) => Err(e),
                Ok(n) => Ok(
                    self.with_server(ServerConfigView { block_frames: n as u32, ..server }),
                ),
            },
            Word::Packet => match positive(word, value) {
                Err(e) => Err(e),
                Ok(n) => Ok(
                    self.with_mic(MicConfigView { frames_per_packet: n as usize, ..mic }),
                ),
            },
            Word::Mic => match text(word, value) {
                Err(e) => Err(e),
                Ok(host) => {
                    let named = self.with_mic(MicConfigView { host, ..mic });
                    if self.options.mode is Window {
                        Ok(named.with_mode(Mode::HeadlessMic))
                    } else {
                        Ok(named)
                    }
                },
            },
            Word::Unknown => Err(ArgErrorView::Unknown(arg)),
        }
    }

    /// What is meant once everything has been said. `--mic` on its own opens the
    /// window with the address filled in; it takes a terminal only when asked for
    /// one.
    pub open spec fn mode(self) -> Mode {
        match self.options.mode {
            Mode::ListDevices => Mode::ListDevices,
            Mode::Help => Mode::Help,
            _ => if !self.headless {
                Mode::Window
            } else if self.options.mic.host.len() == 0 {
                Mode::HeadlessServer
            } else {
                Mode::HeadlessMic
            },
        }
    }

    /// The options once everything has been said.
    pub open spec fn settled(self, fallback_name: Seq<char>) -> Result<OptionsView, ArgErrorView> {
        if self.options.server.port == 0 {
            Err(ArgErrorView::PortZero)
        } else {
            let named = if trimmed(self.options.server.name).len() == 0 {
                self.with_server(
                    ServerConfigView { name: fallback_name, ..self.options.server },
                )
            } else {
                self
            };
            Ok(named.with_mode(self.mode()).options)
        }
    }
}

/// What the arguments from `i` on make of what has been said so far. The first
/// mistake is the answer, and a call for help ends the reading.
pub open spec fn read_from(argv: Seq<Seq<char>>, i: int, so_far: SoFar, fallback_name: Seq<char>) -> Result<
    OptionsView,
    ArgErrorView,
>
    decreases argv.len() - i,
{
    if i < 0 || i >= argv.len() {
        so_far.settled(fallback_name)
    } else {
        let word = word_of(argv[i]);
        let value = if word.takes_value() {
            value_at(argv, i + 1)
        } else {
            None
        };
        match so_far.after(word, argv[i], value) {
            Err(e) => Err(e),
            Ok(next) => if word is Help {
                Ok(next.options)
            } else if value is Some {
                read_from(argv, i + 2, next, fallback_name)
            } else {
                read_from(argv, i + 1, next, fallback_name)
            },
        }
    }
}

/// What a command line asks for.
pub open spec fn parsed(argv: Seq<Seq<char>>, fallback_name: Seq<char>) -> Result<
    OptionsView,
    ArgErrorView,
> {
    read_from(
        argv,
        0,
        SoFar { options: OptionsView::plain(fallback_name), headless: false },
        fallback_name,
    )
}

fn read_number(word: Word, value: &Option<&String>, signed: bool, min: i64, max: i64) -> (r: Result<
    i64,
    ArgError,
>)
    requires
        -0x8000_0000 <= min <= max <= 0xffff_ffff,
    ensures
        ({
            let seen = match *value {
                Some(s) => Some(s@),
                None => None,
            };
            match r {
                Ok(n) => number(word, seen, signed, min as int, max as int) == Ok::<
                    int,
                    ArgErrorView,
                >(n as int),
                Err(e) => number(word, seen, signed, min as int, max as int) == Err::<
                    int,
                    ArgErrorView,
                >(e@),
            }
        }),
{
    match value {
        None => Err(ArgError::NeedsValue(word)),
        Some(raw) => match parse_within(raw.as_str(), signed, min, max) {
            Some(n) => Ok(n),
            None => Err(ArgError::NotANumber(word, (*raw).clone())),
        },
    }
}

fn read_positive(word: Word, value: &Option<&String>) -> (r: Result<u32, ArgError>)
    ensures
        ({
            let seen = match *value {
                Some(s) => Some(s@),
                None => None,
            };
            match r {
                Ok(n) => positive(word, seen) == Ok::<int, ArgErrorView>(n as int),
                Err(e) => positive(word, seen) == Err::<int, ArgErrorView>(e@),
            }
        }),
{
    match read_number(word, value, false, 0, u32::MAX as i64) {
        Err(e) => Err(e),
        Ok(n) => if n <= 0 {
            Err(ArgError::NotAFrameCount(word))
        } else {
            Ok(n as u32)
        },
    }
}

fn read_text(word: Word, value: &Option<&String>) -> (r: Result<String, ArgError>)
    ensures
        ({
            let seen = match *value {
                Some(s) => Some(s@),
                None => None,
            };
            match r {
                Ok(s) => text(word, seen) == Ok::<Seq<char>, ArgErrorView>(s@),
                Err(e) => text(word, seen) == Err::<Seq<char>, ArgErrorView>(e@),
            }
        }),
{
    match value {
        None => Err(ArgError::NeedsValue(word)),
        Some(raw) => Ok((*raw).clone()),
    }
}

/// Takes in one flag.
fn apply(
    options: &mut Options,
    headless: &mut bool,
    word: Word,
    arg: &String,
    value: Option<&String>,
) -> (r: Result<(), ArgError>)
    ensures
        ({
            let seen = match value {
                Some(s) => Some(s@),
                None => None,
            };
            let before = SoFar { options: old(options)@, headless: *old(headless) };
            match r {
                Ok(_) => before.after(word, arg@, seen) == Ok::<SoFar, ArgErrorView>(
                    SoFar { options: final(options)@, headless: *final(headless) },
                ),
                Err(e) => before.after(word, arg@, seen) == Err::<SoFar, ArgErrorView>(e@),
            }
        }),
{
    match word {
        Word::Help => {
            options.mode = Mode::Help;
        },
        Word::ListDevices => {
            options.mode = Mode::ListDevices;
        },
        Word::Headless => {
            *headless = true;
        },
        Word::NoDiscovery => {
            options.server.discovery = false;
        },
        Word::Port => match read_number(word, &value, false, 0, u16::MAX as i64) {
            Err(e) => {
                return Err(e);
            },
            Ok(n) => {
                options.server.port = n as u16;
                options.mic.port = n as u16;
            },
        },
        Word::DiscoveryPort => match read_number(word, &value, false, 0, u16::MAX as i64) {
            Err(e) => {
                return Err(e);
            },
            Ok(n) => {
                options.server.discovery_port = n as u16;
            },
        },
        Word::Jitter => match read_number(word, &value, true, i32::MIN as i64, i32::MAX as i64) {
            Err(e) => {
                return Err(e);
            },
            Ok(ms) => {
                if ms < MIN_JITTER_MS as i64 || ms > MAX_JITTER_MS as i64 {
                    return Err(ArgError::Jitter(ms as i32));
                }
                options.server.jitter_ms = ms as i32;
            },
        },
        Word::Name => match read_text(word, &value) {
            Err(e) => {
                return Err(e);
            },
            Ok(name) => {
                options.server.name = name;
            },
        },
        Word::Output => match read_text(word, &value) {
            Err(e) => {
                return Err(e);
            },
            Ok(name) => {
                options.server.device = Some(name);
            },
        },
        Word::Input => match read_text(word, &value) {
            Err(e) => {
                return Err(e);
            },
            Ok(name) => {
                options.mic.device = Some(name);
            },
        },
        Word::BlockSize => match read_positive(word, &value) {
            Err(e) => {
                return Err(e);
            },
            Ok(n) => {
                options.server.block_frames = n;
            },
        },
        Word::Packet => match read_positive(word, &value) {
            Err(e) => {
                return Err(e);
            },
            Ok(n) => {
                options.mic.frames_per_packet = n as usize;
            },
        },
        Word::Mic => match read_text(word, &value) {
            Err(e) => {
                return Err(e);
            },
            Ok(host) => {
                options.mic.host = host;
                if options.mode == Mode::Window {
                    // Only meaningful with --headless, which may not have been
                    // seen yet; what is meant is settled at the end.
                    options.mode = Mode::HeadlessMic;
                }
            },
        },
        Word::Unknown => {
            return Err(ArgError::Unknown(arg.clone()));
        },
    }
    Ok(())
}

/// Parses everything after the program name. `fallback_name` is what the server is
/// called when nobody says.
pub fn parse(argv: &Vec<String>, fallback_name: &String) -> (r: Result<Options, ArgError>)
    ensures
        match r {
            Ok(o) => parsed(argv@.map_values(|s: String| s@), fallback_name@) == Ok::<
                OptionsView,
                ArgErrorView,
            >(o@),
            Err(e) => parsed(argv@.map_values(|s: String| s@), fallback_name@) == Err::<
                OptionsView,
                ArgErrorView,
            >(e@),
        },
{
    let ghost args = argv@.map_values(|s: String| s@);
    let ghost fallback = fallback_name@;
    let mut options = Options::new(fallback_name.clone());
    let mut headless = false;
    let mut i: usize = 0;
    while i < argv.len()
        invariant
            i <= argv@.len(),
            args == argv@.map_values(|s: String| s@),
            fallback == fallback_name@,
            read_from(args, i as int, SoFar { options: options@, headless }, fallback) == parsed(
                args,
                fallback,
            ),
        decreases argv@.len() - i,
    {
        let arg = &argv[i];
        assert(args[i as int] == arg@);
        let word = read_word(arg.as_str());
        let mut value: Option<&String> = None;
        if word.has_value() && i + 1 < argv.len() {
            assert(args[i + 1] == argv@[i + 1]@);
            if !is_flag_like(argv[i + 1].as_str()) {
                value = Some(&argv[i + 1]);
            }
        }
        let has_value = value.is_some();
        match apply(&mut options, &mut headless, word, arg, value) {
            Err(e) => {
                return Err(e);
            },
            Ok(_) => {},
        }
        if word == Word::Help {
            return Ok(options);
        }
        if has_value {
            i = i + 2;
        } else {
            i = i + 1;
        }
    }

    if options.server.port == 0 {
        return Err(ArgError::PortZero);
    }
    let no_host = options.mic.host.as_str().is_empty();
    options.mode = match options.mode {
        Mode::ListDevices => Mode::ListDevices,
        Mode::Help => Mode::Help,
        _ => if !headless {
            Mode::Window
        } else if no_host {
            Mode::HeadlessServer
        } else {
            Mode::HeadlessMic
        },
    };
    if is_blank(options.server.name.as_str()) {
        options.server.name = fallback_name.clone();
    }
    Ok(options)
}

/// What every command line that is not refused keeps to: one audio port for both ends,
/// a jitter target in range, and sizes that are not zero.
pub open spec fn is_usable(o: OptionsView) -> bool {
    &&& o.server.port == o.mic.port
    &&& MIN_JITTER_MS <= o.server.jitter_ms <= MAX_JITTER_MS
    &&& o.server.block_frames > 0
    &&& o.mic.frames_per_packet > 0
}

proof fn lemma_usable_from(
    argv: Seq<Seq<char>>,
    i: int,
    so_far: SoFar,
    fallback_name: Seq<char>,
)
    requires
        is_usable(so_far.options),
        0 <= i,
    ensures
        read_from(argv, i, so_far, fallback_name) matches Ok(o) ==> {
            &&& is_usable(o)
            &&& !(o.mode is Help) ==> o.server.port != 0
            &&& !(o.mode is Help) && trimmed(fallback_name).len() > 0 ==> trimmed(
                o.server.name,
            ).len() > 0
        },
    decreases argv.len() - i,
{
    if i < argv.len() {
        let word = word_of(argv[i]);
        let value = if word.takes_value() {
            value_at(argv, i + 1)
        } else {
            None
        };
        match so_far.after(word, argv[i], value) {
            Ok(next) => {
                assert(is_usable(next.options));
                if value is Some {
                    lemma_usable_from(argv, i + 2, next, fallback_name);
                } else {
                    lemma_usable_from(argv, i + 1, next, fallback_name);
                }
            },
            Err(_) => {},
        }
    }
}

/// Whatever is typed, options that are not refused can be run: the audio port moves
/// both ends together, the jitter target is in range, no size is zero - and, short of
/// a call for help, the port is one and the name is not blank.
pub proof fn law_accepted_options_are_usable(argv: Seq<Seq<char>>, fallback_name: Seq<char>)
    ensures
        parsed(argv, fallback_name) matches Ok(o) ==> {
            &&& is_usable(o)
            &&& !(o.mode is Help) ==> o.server.port != 0
            &&& !(o.mode is Help) && trimmed(fallback_name).len() > 0 ==> trimmed(
                o.server.name,
            ).len() > 0
        },
{
    lemma_usable_from(
        argv,
        0,
        SoFar { options: OptionsView::plain(fallback_name), headless: false },
        fallback_name,
    );
}

/// Every flag that takes a value is named, in what is said about it, as it is typed.
pub proof fn law_a_flag_is_named_as_it_is_typed(w: Word)
    requires
        w is Port || w is DiscoveryPort || w is Jitter || w is Name || w is Output || w is Input
            || w is BlockSize || w is Packet || w is Mic,
    ensures
        word_of(w.spelling()) == w,
        w.takes_value(),
{
    reveal_strlit("-h");
    reveal_strlit("--help");
    reveal_strlit("--list-devices");
    reveal_strlit("--headless");
    reveal_strlit("--no-discovery");
    reveal_strlit("--port");
    reveal_strlit("--discovery-port");
    reveal_strlit("--jitter");
    reveal_strlit("--name");
    reveal_strlit("--output");
    reveal_strlit("--input");
    reveal_strlit("--blocksize");
    reveal_strlit("--packet");
    reveal_strlit("--mic");
    let x = w.spelling();
    assert(x.len() == if w is Port || w is Name {
        6int
    } else if w is DiscoveryPort {
        16
    } else if w is Input {
        7
    } else if w is BlockSize {
        11
    } else if w is Mic {
        5
    } else {
        8
    });
    assert(x[2] == if w is Port || w is Packet {
        'p'
    } else if w is Name {
        'n'
    } else if w is DiscoveryPort {
        'd'
    } else if w is Jitter {
        'j'
    } else if w is Output {
        'o'
    } else if w is Input {
        'i'
    } else if w is BlockSize {
        'b'
    } else {
        'm'
    });
    assert("--help"@[2] == 'h' && "--headless"@[2] == 'h' && "--list-devices"@[2] == 'l'
        && "--no-discovery"@[2] == 'n' && "-h"@.len() == 2);
}

/// No port at all is refused at the end, whatever else was said.
pub proof fn law_port_zero_is_refused(so_far: SoFar, fallback_name: Seq<char>)
    ensures
        so_far.options.server.port == 0 <==> so_far.settled(fallback_name) is Err,
        so_far.options.server.port == 0 ==> so_far.settled(fallback_name) == Err::<
            OptionsView,
            ArgErrorView,
        >(ArgErrorView::PortZero),
{
}

/// Nothing of the options is hidden from what is said of them.
pub proof fn law_the_options_are_shown_whole(o: Options, e: ArgError)
    ensures
        o@.mode == o.mode,
        o@.server == o.server@,
        o@.mic == o.mic@,
        e matches ArgError::NotANumber(w, s) ==> e@ == ArgErrorView::NotANumber(w, s@),
        e matches ArgError::Unknown(s) ==> e@ == ArgErrorView::Unknown(s@),
        e matches ArgError::NeedsValue(w) ==> e@ == ArgErrorView::NeedsValue(w),
        e matches ArgError::NotAFrameCount(w) ==> e@ == ArgErrorView::NotAFrameCount(w),
        e matches ArgError::Jitter(ms) ==> e@ == ArgErrorView::Jitter(ms),
        e is PortZero ==> e@ is PortZero,
{
}

} // verus!
