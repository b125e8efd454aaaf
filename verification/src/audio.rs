//! Which device, and in which of the configurations it offers.
//!
//! The engine asks for two things and no more: interleaved 16-bit capture, and a
//! mono bus written into whatever the device wants. A backend offers devices by
//! name, each with a list of configuration ranges; what is picked out of them is
//! decided here.
use vstd::prelude::*;
use vstd::string::StringExecFns;

use crate::text::{contains, debug_quoted, push_decimal, same, to_lowercase, trim};

verus! {

use crate::protocol::SAMPLE_RATE;
use crate::text::{decimal, lowercase, occurs_in, quoted, trimmed};

/// The engine is 48 kHz throughout - the wire format says so - and there is no
/// resampler anywhere in it. A device that will not run at 48 kHz is refused
/// rather than quietly rate-converted.
pub const REQUIRED_RATE: u32 = SAMPLE_RATE;

/// One device as the UI and `--list-devices` show it.
#[derive(Debug, PartialEq, Eq)]
pub struct DeviceInfo {
    pub name: String,
    /// The host's default for this direction, used when nothing was chosen.
    pub is_default: bool,
    /// False when the device cannot do 48 kHz in a format we can convert.
    pub usable: bool,
}

impl Clone for DeviceInfo {
    fn clone(&self) -> (r: DeviceInfo)
        ensures
            r.name@ == self.name@,
            r.is_default == self.is_default,
            r.usable == self.usable,
    {
        DeviceInfo {
            name: self.name.clone(),
            is_default: self.is_default,
            usable: self.usable,
        }
    }
}

#[derive(Debug, Clone, Copy, PartialEq, Eq, Structural)]
pub enum Direction {
    Input,
    Output,
}

/// How a backend represents a sample, as far as it is told apart here.
#[derive(Debug, Clone, Copy, PartialEq, Eq, Structural)]
pub enum SampleFormat {
    I16,
    F32,
    Other,
}

/// What a backend says about the buffer sizes it takes.
#[derive(Debug, Clone, Copy, PartialEq, Eq, Structural)]
pub enum BufferRange {
    Range { min: u32, max: u32 },
    Unknown,
}

/// One configuration range a device offers.
#[derive(Debug, Clone, Copy, PartialEq, Eq, Structural)]
pub struct ConfigRange {
    pub channels: u16,
    pub min_rate: u32,
    pub max_rate: u32,
    pub format: SampleFormat,
    pub buffer: BufferRange,
}

#[derive(Debug, Clone, Copy, PartialEq, Eq, Structural)]
pub enum BufferSize {
    /// The backend will not say what it takes, so let it choose.
    Default,
    Fixed(u32),
}

/// The config an open will use: 48 kHz, a channel count the device offers, and
/// the sample format we will convert through.
#[derive(Debug, Clone, Copy, PartialEq, Eq, Structural)]
pub struct Chosen {
    pub channels: u16,
    pub sample_rate: u32,
    pub buffer_size: BufferSize,
    pub format: SampleFormat,
}

impl Chosen {
    pub fn channels(&self) -> (r: usize)
        ensures
            r == self.channels,
    {
        self.channels as usize
    }
}

/// Formats worth converting, best first. 16-bit is what the wire and the capture
/// ring already speak; float is what most modern backends hand out. Anything
/// else is refused rather than converted through a third representation.
pub open spec fn rank_of(f: SampleFormat) -> Option<int> {
    match f {
        SampleFormat::I16 => Some(0),
        SampleFormat::F32 => Some(1),
        SampleFormat::Other => None,
    }
}

fn format_rank(f: SampleFormat) -> (r: Option<u8>)
    ensures
        match r {
            Some(n) => rank_of(f) == Some(n as int),
            None => rank_of(f) is None,
        },
{
    match f {
        SampleFormat::I16 => Some(0),
        SampleFormat::F32 => Some(1),
        SampleFormat::Other => None,
    }
}

/// A range the engine can run in.
pub open spec fn will_do(range: ConfigRange) -> bool {
    &&& range.min_rate <= REQUIRED_RATE <= range.max_rate
    &&& range.channels != 0
    &&& rank_of(range.format) is Some
}

/// How far apart two channel counts are.
pub open spec fn apart(a: u16, b: u16) -> int {
    if a < b {
        b - a
    } else {
        a - b
    }
}

/// One range is a better fit than another: first by channel count - a device that
/// offers float stereo and 16-bit 8-channel should give two channels, not eight -
/// then by being narrower, then by format.
pub open spec fn fits_better(a: ConfigRange, b: ConfigRange, prefer: u16) -> bool {
    let da = apart(a.channels, prefer);
    let db = apart(b.channels, prefer);
    let ra = rank_of(a.format)->0;
    let rb = rank_of(b.format)->0;
    da < db || (da == db && (a.channels < b.channels || (a.channels == b.channels && ra < rb)))
}

/// The range at `i` will do, none fits better, and the ones before it that will do
/// fit worse.
pub open spec fn is_pick(ranges: Seq<ConfigRange>, prefer: u16, i: int) -> bool {
    &&& 0 <= i < ranges.len()
    &&& will_do(ranges[i])
    &&& forall|j: int|
        0 <= j < ranges.len() && will_do(#[trigger] ranges[j]) ==> !fits_better(
            ranges[j],
            ranges[i],
            prefer,
        )
    &&& forall|j: int|
        0 <= j < i && will_do(#[trigger] ranges[j]) ==> fits_better(ranges[i], ranges[j], prefer)
}

/// The buffer size to ask for: the one wanted, brought into the device's range.
pub open spec fn buffer_for(range: BufferRange, block_frames: u32) -> BufferSize {
    match range {
        BufferRange::Range { min, max } => if min <= max && max > 0 {
            let low = if min < 1 {
                1
            } else {
                min
            };
            BufferSize::Fixed(
                if block_frames < low {
                    low
                } else if block_frames > max {
                    max
                } else {
                    block_frames
                },
            )
        } else {
            BufferSize::Default
        },
        BufferRange::Unknown => BufferSize::Default,
    }
}

/// What a range is opened as.
pub open spec fn opened_as(range: ConfigRange, block_frames: u32) -> Chosen {
    Chosen {
        channels: range.channels,
        sample_rate: REQUIRED_RATE,
        buffer_size: buffer_for(range.buffer, block_frames),
        format: range.format,
    }
}

fn usable(range: &ConfigRange) -> (r: bool)
    ensures
        r == will_do(*range),
{
    range.min_rate <= REQUIRED_RATE && REQUIRED_RATE <= range.max_rate && range.channels != 0
        && format_rank(range.format).is_some()
}

fn better(a: &ConfigRange, b: &ConfigRange, prefer: u16) -> (r: bool)
    requires
        will_do(*a),
        will_do(*b),
    ensures
        r == fits_better(*a, *b, prefer),
{
    let da: u16 = if a.channels < prefer {
        prefer - a.channels
    } else {
        a.channels - prefer
    };
    let db: u16 = if b.channels < prefer {
        prefer - b.channels
    } else {
        b.channels - prefer
    };
    let ra: u8 = match format_rank(a.format) {
        Some(r) => r,
        None => 2,
    };
    let rb: u8 = match format_rank(b.format) {
        Some(r) => r,
        None => 2,
    };
    da < db || (da == db && (a.channels < b.channels || (a.channels == b.channels && ra < rb)))
}

/// Picks a 48 kHz config out of what a device offers.
///
/// `prefer_channels` is what the direction would rather have - 1 for capture,
/// since the wire is mono and a downmix of a stereo capture is one more thing
/// to be wrong; 2 for playback, because a mono-only output device is rare and
/// a phone's mixer plays stereo. It is a preference, not a requirement: the
/// closest count wins, ties going to the narrower stream.
///
/// `block_frames` is the buffer size to ask for. Requesting one is the single
/// biggest latency lever a backend exposes, so it is clamped into the device's
/// range rather than dropped when it does not fit.
pub fn choose_config(ranges: &[ConfigRange], prefer_channels: u16, block_frames: u32) -> (r: Option<
    Chosen,
>)
    ensures
        match r {
            Some(c) => exists|i: int| #[trigger]
                is_pick(ranges@, prefer_channels, i) && c == opened_as(ranges@[i], block_frames),
            None => forall|i: int| 0 <= i < ranges@.len() ==> !will_do(#[trigger] ranges@[i]),
        },
{
    let mut best: Option<usize> = None;
    let mut i: usize = 0;
    while i < ranges.len()
        invariant
            i <= ranges@.len(),
            match best {
                None => forall|j: int| 0 <= j < i ==> !will_do(#[trigger] ranges@[j]),
                Some(b) => b < i && is_pick(ranges@.take(i as int), prefer_channels, b as int),
            },
        decreases ranges@.len() - i,
    {
        let ghost before = ranges@.take(i as int);
        let ghost after = ranges@.take(i + 1);
        assert(forall|j: int| 0 <= j < i ==> before[j] == after[j]);
        assert(after[i as int] == ranges@[i as int]);
        if usable(&ranges[i]) {
            match best {
                None => {
                    assert forall|j: int| 0 <= j < i implies !will_do(#[trigger] after[j]) by {
                        assert(after[j] == ranges@[j]);
                    }
                    best = Some(i);
                },
                Some(b) => {
                    assert(will_do(before[b as int]));
                    if better(&ranges[i], &ranges[b], prefer_channels) {
                        best = Some(i);
                    }
                },
            }
        }
        proof {
            match best {
                Some(b) => {
                    assert forall|j: int|
                        0 <= j < after.len() && will_do(#[trigger] after[j]) implies !fits_better(
                        after[j],
                        after[b as int],
                        prefer_channels,
                    ) by {
                        if j < i {
                            assert(will_do(before[j]));
                        }
                    }
                    assert forall|j: int| 0 <= j < b && will_do(#[trigger] after[j]) implies
                        fits_better(after[b as int], after[j], prefer_channels) by {
                        assert(will_do(before[j]));
                    }
                    assert(is_pick(after, prefer_channels, b as int));
                },
                None => {},
            }
        }
        i = i + 1;
    }
    assert(ranges@.take(i as int) =~= ranges@);
    match best {
        None => None,
        Some(b) => {
            assert(is_pick(ranges@, prefer_channels, b as int));
            let range = &ranges[b];
            let buffer_size = match range.buffer {
                BufferRange::Range { min, max } => if min <= max && max > 0 {
                    let low: u32 = if min < 1 {
                        1
                    } else {
                        min
                    };
                    BufferSize::Fixed(
                        if block_frames < low {
                            low
                        } else if block_frames > max {
                            max
                        } else {
                            block_frames
                        },
                    )
                } else {
                    BufferSize::Default
                },
                // PulseAudio and PipeWire land here and pick something reasonable
                // on their own.
                BufferRange::Unknown => BufferSize::Default,
            };
            Some(
                Chosen {
                    channels: range.channels,
                    sample_rate: REQUIRED_RATE,
                    buffer_size,
                    format: range.format,
                },
            )
        },
    }
}

/// How many channels a direction would rather have.
pub open spec fn preferred_channels(direction: Direction) -> u16 {
    match direction {
        Direction::Input => 1,
        Direction::Output => 2,
    }
}

/// The config a device will be opened with. An error says why it will not do. Asked
/// again on every reopen, so a device swapped for another model is re-examined
/// rather than reopened on stale assumptions.
pub fn config_for(name: &str, ranges: &[ConfigRange], direction: Direction, block_frames: u32) -> (r:
    Result<Chosen, String>)
    ensures
        match r {
            Ok(c) => exists|i: int| #[trigger]
                is_pick(ranges@, preferred_channels(direction), i) && c == opened_as(
                    ranges@[i],
                    block_frames,
                ),
            Err(message) => {
                &&& forall|i: int| 0 <= i < ranges@.len() ==> !will_do(#[trigger] ranges@[i])
                &&& message@ == name@ + " cannot do "@ + decimal(48000) + " Hz in 16-bit or float"@
            },
        },
{
    let prefer: u16 = match direction {
        Direction::Input => 1,
        Direction::Output => 2,
    };
    assert(prefer == preferred_channels(direction));
    match choose_config(ranges, prefer, block_frames) {
        Some(c) => Ok(c),
        None => {
            let mut message = String::from_str(name);
            message.append(" cannot do ");
            push_decimal(&mut message, REQUIRED_RATE as u64);
            message.append(" Hz in 16-bit or float");
            Err(message)
        },
    }
}

/// A device as it is listed. Unusable devices are listed rather than hidden: "my
/// interface is not in the menu" is a worse bug report than "my interface says
/// 48 kHz unsupported".
pub fn describe(name: String, default: &Option<String>, ranges: &[ConfigRange]) -> (r: DeviceInfo)
    ensures
        r.name == name,
        r.is_default == (*default matches Some(d) && d@ == name@),
        r.usable == (exists|i: int| 0 <= i < ranges@.len() && will_do(#[trigger] ranges@[i])),
{
    let is_default = match default {
        Some(d) => same(d.as_str(), name.as_str()),
        None => false,
    };
    let usable = choose_config(ranges, 1, 240).is_some();
    DeviceInfo { is_default, usable, name }
}

/// Which device a name picks.
#[derive(Debug, Clone, Copy, PartialEq, Eq, Structural)]
pub enum Picked {
    /// The host's default.
    Default,
    /// The device at this place in the list.
    At(usize),
    /// None that matches.
    Nothing,
}

/// The name that was asked for, if there is one.
pub open spec fn asked_for(name: Option<Seq<char>>) -> Option<Seq<char>> {
    match name {
        Some(n) => if trimmed(n).len() > 0 {
            Some(trimmed(n))
        } else {
            None
        },
        None => None,
    }
}

/// What a list of device names makes of a name, given all of them in lower case too.
/// Matching is exact first, then a case-insensitive substring, so a UI can pass the
/// full name and a command line can pass "usb". The first match wins either way.
pub open spec fn picks_among(
    devices: Seq<Seq<char>>,
    lowered: Seq<Seq<char>>,
    wanted: Seq<char>,
    lowered_wanted: Seq<char>,
    r: Picked,
) -> bool {
    match r {
        Picked::Default => false,
        Picked::At(i) => {
            &&& i < devices.len()
            &&& {
                ||| (devices[i as int] == wanted && forall|j: int|
                    0 <= j < i ==> #[trigger] devices[j] != wanted)
                ||| (occurs_in(lowered[i as int], lowered_wanted) && (forall|j: int|
                    0 <= j < devices.len() ==> #[trigger] devices[j] != wanted) && (forall|j: int|
                    0 <= j < i ==> !occurs_in(#[trigger] lowered[j], lowered_wanted)))
            }
        },
        Picked::Nothing => forall|j: int|
            0 <= j < devices.len() ==> #[trigger] devices[j] != wanted && !occurs_in(
                lowered[j],
                lowered_wanted,
            ),
    }
}

/// What a list of device names makes of a name.
pub open spec fn picks(devices: Seq<Seq<char>>, name: Option<Seq<char>>, r: Picked) -> bool {
    match asked_for(name) {
        None => r is Default,
        Some(wanted) => picks_among(
            devices,
            devices.map_values(|d: Seq<char>| lowercase(d)),
            wanted,
            lowercase(wanted),
            r,
        ),
    }
}

/// Resolves a device by name, given every name in lower case too.
pub fn pick_among(
    devices: &Vec<String>,
    lowered: &Vec<String>,
    wanted: &str,
    lowered_wanted: &str,
) -> (r: Picked)
    requires
        lowered@.len() == devices@.len(),
    ensures
        picks_among(
            devices@.map_values(|s: String| s@),
            lowered@.map_values(|s: String| s@),
            wanted@,
            lowered_wanted@,
            r,
        ),
{
    let ghost names = devices@.map_values(|s: String| s@);
    let ghost small = lowered@.map_values(|s: String| s@);
    let mut fuzzy: Option<usize> = None;
    let mut i: usize = 0;
    while i < devices.len()
        invariant
            i <= devices@.len(),
            lowered@.len() == devices@.len(),
            names == devices@.map_values(|s: String| s@),
            small == lowered@.map_values(|s: String| s@),
            forall|j: int| 0 <= j < i ==> #[trigger] names[j] != wanted@,
            match fuzzy {
                None => forall|j: int|
                    0 <= j < i ==> !occurs_in(#[trigger] small[j], lowered_wanted@),
                Some(f) => {
                    &&& f < i
                    &&& occurs_in(small[f as int], lowered_wanted@)
                    &&& forall|j: int|
                        0 <= j < f ==> !occurs_in(#[trigger] small[j], lowered_wanted@)
                },
            },
        decreases devices@.len() - i,
    {
        assert(names[i as int] == devices@[i as int]@);
        assert(small[i as int] == lowered@[i as int]@);
        if same(devices[i].as_str(), wanted) {
            return Picked::At(i);
        }
        if fuzzy.is_none() && contains(lowered[i].as_str(), lowered_wanted) {
            fuzzy = Some(i);
        }
        i = i + 1;
    }
    match fuzzy {
        Some(f) => Picked::At(f),
        None => Picked::Nothing,
    }
}

/// Resolves a device by name, or the host default when there is none.
pub fn pick_device(devices: &Vec<String>, name: Option<&str>) -> (r: Picked)
    ensures
        picks(
            devices@.map_values(|s: String| s@),
            match name {
                Some(n) => Some(n@),
                None => None,
            },
            r,
        ),
{
    let wanted = match name {
        Some(n) => trim(n),
        None => {
            return Picked::Default;
        },
    };
    if wanted.as_str().is_empty() {
        return Picked::Default;
    }
    let ghost names = devices@.map_values(|s: String| s@);
    let mut lowered: Vec<String> = Vec::new();
    let mut i: usize = 0;
    while i < devices.len()
        invariant
            i <= devices@.len(),
            lowered@.len() == i,
            forall|j: int| 0 <= j < i ==> (#[trigger] lowered@[j])@ == lowercase(devices@[j]@),
        decreases devices@.len() - i,
    {
        lowered.push(to_lowercase(devices[i].as_str()));
        i = i + 1;
    }
    assert(lowered@.map_values(|s: String| s@) =~= names.map_values(
        |d: Seq<char>| lowercase(d),
    ));
    let lowered_wanted = to_lowercase(wanted.as_str());
    pick_among(devices, &lowered, wanted.as_str(), lowered_wanted.as_str())
}

impl Direction {
    pub open spec fn label(self) -> Seq<char> {
        match self {
            Direction::Input => "Input"@,
            Direction::Output => "Output"@,
        }
    }

    fn text(self) -> (r: &'static str)
        ensures
            r@ == self.label(),
    {
        match self {
            Direction::Input => "Input",
            Direction::Output => "Output",
        }
    }
}

/// What is said when no device matches a name that is put as `shown`.
pub fn no_match_showing(direction: Direction, shown: &str) -> (r: String)
    ensures
        r@ == "no "@ + direction.label() + " device matching "@ + shown@,
{
    let mut r = String::from_str("no ");
    r.append(direction.text());
    r.append(" device matching ");
    r.append(shown);
    r
}

/// What is said when no device matches.
pub fn no_match_message(direction: Direction, wanted: &str) -> (r: String)
    ensures
        r@ == "no "@ + direction.label() + " device matching "@ + quoted(trimmed(wanted@)),
{
    let name = trim(wanted);
    no_match_showing(direction, debug_quoted(name.as_str()).as_str())
}

/// What is said when the host has no default.
pub fn no_default_message(direction: Direction) -> (r: String)
    ensures
        r@ == "no default "@ + direction.label() + " device"@,
{
    let mut r = String::from_str("no default ");
    r.append(direction.text());
    r.append(" device");
    r
}

/// A device that offers anything the engine can run in is not refused, and what is
/// picked is one of its ranges, at 48 kHz, with a buffer the device takes.
pub proof fn law_a_pick_is_something_the_device_offers(
    ranges: Seq<ConfigRange>,
    prefer: u16,
    block_frames: u32,
    i: int,
)
    requires
        is_pick(ranges, prefer, i),
    ensures
        ({
            let c = opened_as(ranges[i], block_frames);
            &&& c.sample_rate == 48000
            &&& ranges[i].min_rate <= 48000 <= ranges[i].max_rate
            &&& c.channels == ranges[i].channels && c.channels != 0
            &&& c.format is I16 || c.format is F32
            &&& ranges[i].buffer matches BufferRange::Range { min, max } ==> {
                min <= max && max > 0 ==> {
                    c.buffer_size matches BufferSize::Fixed(n) && min <= n <= max && n > 0
                }
            }
        }),
{
}

/// There is one pick at most: what a device offers decides what it is opened as.
pub proof fn law_there_is_one_pick(ranges: Seq<ConfigRange>, prefer: u16, i: int, j: int)
    requires
        is_pick(ranges, prefer, i),
        is_pick(ranges, prefer, j),
    ensures
        i == j,
{
}

/// The config that is picked, told by what devices offer: it does 48 kHz in 16 bits or in
/// float; of those that do, none is closer to the wanted number of channels; of those as
/// close, none is narrower; of those as wide, none is 16-bit where it is float; and of
/// those alike in all of that it comes first.
pub proof fn law_the_closest_count_wins(ranges: Seq<ConfigRange>, prefer: u16, i: int, j: int)
    requires
        is_pick(ranges, prefer, i),
        0 <= j < ranges.len(),
        ranges[j].min_rate <= 48000 <= ranges[j].max_rate,
        ranges[j].channels > 0,
        !(ranges[j].format is Other),
    ensures
        ({
            let a = ranges[i];
            let b = ranges[j];
            let da = if a.channels < prefer {
                prefer - a.channels
            } else {
                a.channels - prefer
            };
            let db = if b.channels < prefer {
                prefer - b.channels
            } else {
                b.channels - prefer
            };
            &&& a.min_rate <= 48000 <= a.max_rate
            &&& a.channels > 0
            &&& a.format is I16 || a.format is F32
            &&& da <= db
            &&& da == db ==> a.channels <= b.channels
            &&& a.channels == b.channels ==> a.format is I16 || b.format is F32
            &&& a.channels == b.channels && a.format == b.format ==> i <= j
        }),
{
}

/// A device is opened as it was picked: its channels, its format, 48 kHz, and the wanted
/// buffer brought into the range it gives; one that gives no sensible range chooses for
/// itself. Capture would rather have one channel, playback two.
pub proof fn law_a_device_is_opened_as_it_was_picked(range: ConfigRange, block_frames: u32)
    ensures
        ({
            let c = opened_as(range, block_frames);
            &&& c.channels == range.channels
            &&& c.format == range.format
            &&& c.sample_rate == 48000
            &&& range.buffer matches BufferRange::Range { min, max } ==> {
                &&& min > max || max == 0 ==> c.buffer_size is Default
                &&& min <= max && max > 0 && min <= block_frames <= max && block_frames > 0
                    ==> c.buffer_size == BufferSize::Fixed(block_frames)
                &&& min <= max && max > 0 && block_frames > max ==> c.buffer_size
                    == BufferSize::Fixed(max)
                &&& 0 < min <= max && block_frames < min ==> c.buffer_size == BufferSize::Fixed(min)
                &&& min == 0 && max > 0 && block_frames == 0 ==> c.buffer_size == BufferSize::Fixed(
                    1,
                )
            }
            &&& range.buffer is Unknown ==> c.buffer_size is Default
        }),
        will_do(range) <==> range.min_rate <= 48000 <= range.max_rate && range.channels > 0 && !(
        range.format is Other),
        preferred_channels(Direction::Input) == 1,
        preferred_channels(Direction::Output) == 2,
{
}

/// A device that was asked for is picked by its exact name before anything else, and
/// otherwise by the first that holds what was asked for, whatever the case of its letters;
/// nothing asked for, or nothing but white space, is the default.
pub proof fn law_a_device_is_picked_by_name(
    devices: Seq<Seq<char>>,
    name: Option<Seq<char>>,
    r: Picked,
    j: int,
)
    requires
        picks(devices, name, r),
    ensures
        (name is None || trimmed(name->0).len() == 0) <==> r is Default,
        0 <= j < devices.len() && name is Some && trimmed(name->0).len() > 0 && devices[j]
            == trimmed(name->0) ==> (r matches Picked::At(i) && devices[i as int] == devices[j] && i
            <= j),
        0 <= j < devices.len() && name is Some && trimmed(name->0).len() > 0 && occurs_in(
            lowercase(devices[j]),
            lowercase(trimmed(name->0)),
        ) ==> r is At,
        r matches Picked::At(i) ==> i < devices.len() && (devices[i as int] == trimmed(name->0)
            || occurs_in(lowercase(devices[i as int]), lowercase(trimmed(name->0)))),
{
    if name is Some && trimmed(name->0).len() > 0 && 0 <= j < devices.len() {
        let lowered = devices.map_values(|d: Seq<char>| lowercase(d));
        assert(lowered[j] == lowercase(devices[j]));
    }
    if let Picked::At(i) = r {
        let lowered = devices.map_values(|d: Seq<char>| lowercase(d));
        if i < devices.len() {
            assert(lowered[i as int] == lowercase(devices[i as int]));
        }
    }
}

} // verus!
