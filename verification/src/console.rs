//! The terminal front-end: what the status line of `--headless` is made of. Useful
//! over SSH, in a rack, and on a machine with no GPU for a window.
use vstd::prelude::*;
use vstd::string::StringExecFns;

use crate::audio::DeviceInfo;
use crate::mixer::SourceSnapshot;
use crate::receiver::RxStats;
use crate::single::{push_milli_hundredths, push_milli_tenths, whole_ms};
use crate::text::push_decimal;
use crate::transmitter::TxStats;

verus! {

use crate::single::{frames_in_ms, in_units, thousandths, to_hundredths, to_tenths};
use crate::text::decimal;

/// How often the status line is redrawn.
pub const REFRESH_MS: u64 = 250;

pub const BAR_WIDTH: usize = 20;

/// How many cells of a bar a level (milli-units) fills.
pub open spec fn filled(level_milli: u32) -> nat {
    if level_milli < 1000 {
        (level_milli / 50) as nat
    } else {
        BAR_WIDTH as nat
    }
}

/// `n` times the same character.
pub open spec fn repeated(c: char, n: nat) -> Seq<char> {
    Seq::new(n, |i: int| c)
}

/// `[####........]` at the width the status line has room for.
pub open spec fn bar_of(level_milli: u32) -> Seq<char> {
    repeated('#', filled(level_milli)) + repeated(
        '.',
        (BAR_WIDTH - filled(level_milli)) as nat,
    )
}

pub(crate) fn push_repeated(out: &mut String, c: char, n: usize)
    ensures
        final(out)@ == old(out)@ + repeated(c, n as nat),
{
    let mut i: usize = 0;
    assert(out@ =~= old(out)@ + repeated(c, 0));
    while i < n
        invariant
            i <= n,
            out@ == old(out)@ + repeated(c, i as nat),
        decreases n - i,
    {
        out.push(c);
        i = i + 1;
        assert(out@ =~= old(out)@ + repeated(c, i as nat));
    }
}

fn push_bar(out: &mut String, level_milli: u32)
    ensures
        final(out)@ == old(out)@ + bar_of(level_milli),
{
    let n: usize = if level_milli < 1000 {
        (level_milli / 50) as usize
    } else {
        BAR_WIDTH
    };
    push_repeated(out, '#', n);
    push_repeated(out, '.', BAR_WIDTH - n);
    assert(out@ =~= old(out)@ + bar_of(level_milli));
}

/// A level (milli-units) as a bar. Gains reach 2x, so the meter reports above full
/// scale, and the bar pins.
pub fn bar(level_milli: u32) -> (r: String)
    ensures
        r@ == bar_of(level_milli),
        r@.len() == BAR_WIDTH,
{
    let mut r = String::new();
    push_bar(&mut r, level_milli);
    assert(r@ =~= bar_of(level_milli));
    r
}

/// One hexadecimal digit.
pub open spec fn hex_digit(d: int) -> char {
    if d < 10 {
        (48 + d) as char
    } else {
        (55 + d) as char
    }
}

/// The low `digits` hexadecimal digits of a number.
pub open spec fn hex(n: nat, digits: nat) -> Seq<char>
    decreases digits,
{
    if digits == 0 {
        Seq::empty()
    } else {
        hex(n / 16, (digits - 1) as nat).push(hex_digit((n % 16) as int))
    }
}

fn hex_char(d: u32) -> (r: char)
    requires
        d < 16,
    ensures
        r == hex_digit(d as int),
{
    if d < 10 {
        (48u8 + d as u8) as char
    } else {
        (55u8 + d as u8) as char
    }
}

/// Puts the low `digits` hexadecimal digits of a number onto the end of a text.
pub(crate) fn push_hex(out: &mut String, n: u32, digits: usize)
    ensures
        final(out)@ == old(out)@ + hex(n as nat, digits as nat),
    decreases digits,
{
    if digits > 0 {
        push_hex(out, n / 16, digits - 1);
        out.push(hex_char(n % 16));
    }
    assert(out@ =~= old(out)@ + hex(n as nat, digits as nat));
}

/// A buffer depth in whole milliseconds.
pub open spec fn depth_ms(frames: u32) -> nat {
    in_units(frames_in_ms(frames as nat))
}

/// A number in decimal, brought to `width` with spaces on its left.
pub open spec fn padded(n: nat, width: nat) -> Seq<char> {
    let digits = decimal(n);
    if digits.len() < width {
        repeated(' ', (width - digits.len()) as nat) + digits
    } else {
        digits
    }
}

proof fn lemma_decimal_length(n: nat)
    ensures
        n < 10 ==> decimal(n).len() == 1,
        10 <= n < 100 ==> decimal(n).len() == 2,
        100 <= n < 1000 ==> decimal(n).len() == 3,
        n >= 1000 ==> decimal(n).len() >= 4,
{
    reveal_with_fuel(decimal, 5);
}

fn push_padded(out: &mut String, n: u32)
    ensures
        final(out)@ == old(out)@ + padded(n as nat, 4),
{
    let spaces: usize = if n < 10 {
        3
    } else if n < 100 {
        2
    } else if n < 1000 {
        1
    } else {
        0
    };
    push_repeated(out, ' ', spaces);
    push_decimal(out, n as u64);
    proof {
        lemma_decimal_length(n as nat);
        assert(out@ =~= old(out)@ + padded(n as nat, 4));
    }
}

/// One source on the status line: its name, its level, how deep its buffer is in
/// milliseconds, and what went wrong.
pub open spec fn strip_text(s: SourceSnapshot) -> Seq<char> {
    "MIC-"@ + hex((s.ssrc % 0x1_0000) as nat, 4) + " ["@ + bar_of(s.peak_milli) + "] "@ + padded(
        depth_ms(s.buffer_frames),
        4,
    ) + "ms lost:"@ + decimal(s.lost as nat) + " und:"@ + decimal(s.underruns as nat)
}

pub fn strip(source: &SourceSnapshot) -> (r: String)
    ensures
        r@ == strip_text(*source),
{
    let mut r = String::from_str("MIC-");
    push_hex(&mut r, source.ssrc % 0x1_0000, 4);
    r.append(" [");
    push_bar(&mut r, source.peak_milli);
    r.append("] ");
    push_padded(&mut r, whole_ms(source.buffer_frames));
    r.append("ms lost:");
    push_decimal(&mut r, source.lost as u64);
    r.append(" und:");
    push_decimal(&mut r, source.underruns as u64);
    assert(r@ =~= strip_text(*source));
    r
}

/// One line of the device list.
pub open spec fn device_text(name: Seq<char>, is_default: bool, usable: bool) -> Seq<char> {
    (if is_default {
        "  * "@
    } else {
        "    "@
    }) + name + (if usable {
        ""@
    } else {
        "   [no 48 kHz 16-bit or float config]"@
    })
}

pub fn device_line(device: &DeviceInfo) -> (r: String)
    ensures
        r@ == device_text(device.name@, device.is_default, device.usable),
{
    let mut r = String::from_str(
        if device.is_default {
            "  * "
        } else {
            "    "
        },
    );
    r.append(device.name.as_str());
    r.append(
        if device.usable {
            ""
        } else {
            "   [no 48 kHz 16-bit or float config]"
        },
    );
    r
}

/// Texts one after another, with something between them.
pub open spec fn joined(parts: Seq<Seq<char>>, between: Seq<char>) -> Seq<char>
    decreases parts.len(),
{
    if parts.len() == 0 {
        Seq::empty()
    } else if parts.len() == 1 {
        parts[0]
    } else {
        joined(parts.drop_last(), between) + between + parts.last()
    }
}

/// Puts texts one after another, with something between them.
pub fn join(parts: &Vec<String>, between: &str) -> (r: String)
    ensures
        r@ == joined(parts@.map_values(|s: String| s@), between@),
{
    let ghost texts = parts@.map_values(|s: String| s@);
    let mut r = String::new();
    let mut i: usize = 0;
    assert(r@ =~= joined(texts.take(0), between@));
    while i < parts.len()
        invariant
            i <= parts@.len(),
            texts == parts@.map_values(|s: String| s@),
            r@ == joined(texts.take(i as int), between@),
        decreases parts@.len() - i,
    {
        let ghost upto = texts.take(i + 1);
        assert(upto.drop_last() =~= texts.take(i as int));
        assert(upto.last() == parts@[i as int]@);
        let ghost before = r@;
        if i > 0 {
            r.append(between);
        }
        r.append(parts[i].as_str());
        assert(r@ =~= joined(upto, between@));
        i = i + 1;
    }
    assert(texts.take(i as int) =~= texts);
    r
}

/// A strip's bar never overruns its width, whatever the level.
pub proof fn law_a_bar_keeps_its_width(level_milli: u32)
    ensures
        bar_of(level_milli).len() == BAR_WIDTH,
        forall|i: int|
            0 <= i < BAR_WIDTH ==> #[trigger] bar_of(level_milli)[i] == (if i < filled(level_milli) {
                '#'
            } else {
                '.'
            }),
{
}

/// The status line of a mixer: its counters, and then its sources.
pub open spec fn mixer_text(stats: RxStats, sources: Seq<SourceSnapshot>) -> Seq<char> {
    " sources:"@ + decimal(stats.active_sources as nat) + " pkts:"@ + decimal(stats.packets as nat)
        + " bad:"@ + decimal(stats.bad_packets as nat) + " lim:"@ + to_hundredths(
        thousandths(stats.limiter_gain as nat),
    ) + " xrun:"@ + decimal(stats.xruns as nat) + " out:"@ + to_tenths(
        thousandths(stats.latency_micros as nat),
    ) + "ms"@ + (if sources.len() == 0 {
        ""@
    } else {
        "  |  "@
    }) + joined(sources.map_values(|s: SourceSnapshot| strip_text(s)), "  |  "@)
}

pub fn mixer_line(stats: &RxStats, sources: &Vec<SourceSnapshot>) -> (r: String)
    ensures
        r@ == mixer_text(*stats, sources@),
{
    let mut strips: Vec<String> = Vec::new();
    let ghost texts = sources@.map_values(|s: SourceSnapshot| strip_text(s));
    let mut i: usize = 0;
    while i < sources.len()
        invariant
            i <= sources@.len(),
            strips@.len() == i,
            texts == sources@.map_values(|s: SourceSnapshot| strip_text(s)),
            forall|k: int| 0 <= k < i ==> (#[trigger] strips@[k])@ == texts[k],
        decreases sources@.len() - i,
    {
        strips.push(strip(&sources[i]));
        i = i + 1;
    }
    assert(strips@.map_values(|s: String| s@) =~= texts);
    let mut r = String::from_str(" sources:");
    push_decimal(&mut r, stats.active_sources as u64);
    r.append(" pkts:");
    push_decimal(&mut r, stats.packets);
    r.append(" bad:");
    push_decimal(&mut r, stats.bad_packets);
    r.append(" lim:");
    push_milli_hundredths(&mut r, stats.limiter_gain);
    r.append(" xrun:");
    push_decimal(&mut r, stats.xruns as u64);
    r.append(" out:");
    push_milli_tenths(&mut r, stats.latency_micros);
    r.append("ms");
    r.append(
        if sources.len() == 0 {
            ""
        } else {
            "  |  "
        },
    );
    let strips = join(&strips, "  |  ");
    r.append(strips.as_str());
    assert(r@ =~= mixer_text(*stats, sources@));
    r
}

/// The status line of a microphone: its level and its counters.
pub open spec fn mic_text(stats: TxStats) -> Seq<char> {
    " ["@ + bar_of(stats.peak) + "] sent:"@ + decimal(stats.packets_sent as nat) + " dropped:"@
        + decimal(stats.frames_dropped as nat) + " errs:"@ + decimal(stats.send_errors as nat)
        + " xrun:"@ + decimal(stats.xruns as nat) + " in:"@ + to_tenths(
        thousandths(stats.latency_micros as nat),
    ) + "ms"@
}

pub fn mic_line(stats: &TxStats) -> (r: String)
    ensures
        r@ == mic_text(*stats),
{
    let mut r = String::from_str(" [");
    push_bar(&mut r, stats.peak);
    r.append("] sent:");
    push_decimal(&mut r, stats.packets_sent);
    r.append(" dropped:");
    push_decimal(&mut r, stats.frames_dropped);
    r.append(" errs:");
    push_decimal(&mut r, stats.send_errors as u64);
    r.append(" xrun:");
    push_decimal(&mut r, stats.xruns as u64);
    r.append(" in:");
    push_milli_tenths(&mut r, stats.latency_micros);
    r.append("ms");
    assert(r@ =~= mic_text(*stats));
    r
}

/// A bar is filled in proportion: a twentieth of it for every fifty thousandths of full
/// scale, all of it from full scale on.
pub proof fn law_a_bar_fills_in_proportion(level_milli: u32)
    ensures
        BAR_WIDTH == 20,
        level_milli <= 1000 ==> filled(level_milli) == level_milli as int * 20 / 1000,
        level_milli > 1000 ==> filled(level_milli) == 20,
{
}

/// Hexadecimal digits come to the number they are written for, the highest first, and
/// there are as many of them as were asked for.
pub proof fn law_hex_digits_come_to_the_number(n: nat, digits: nat)
    ensures
        hex(n, digits).len() == digits,
        hex(16 * n + 5, digits + 1) == hex(n, digits).push('5'),
        forall|d: int|
            0 <= d < 16 ==> #[trigger] hex_digit(d) as int == if d < 10 {
                0x30 + d
            } else {
                0x41 + d - 10
            },
        forall|d: nat|
            #![trigger hex(16 * n + d, digits + 1)]
            d < 16 ==> hex(16 * n + d, digits + 1) == hex(n, digits).push(hex_digit(d as int)),
    decreases digits,
{
    if digits > 0 {
        law_hex_digits_come_to_the_number(n / 16, (digits - 1) as nat);
    }
    assert forall|d: nat|
        #![trigger hex(16 * n + d, digits + 1)]
        d < 16 implies hex(16 * n + d, digits + 1) == hex(n, digits).push(hex_digit(d as int)) by {
        assert((16 * n + d) / 16 == n && (16 * n + d) % 16 == d);
    }
    assert(hex(16 * n + 5, digits + 1) == hex(n, digits).push(hex_digit(5)));
}

/// A number in a column stands at its right, behind blanks; one too wide stands as it is.
pub proof fn law_a_column_is_filled_from_the_right(n: nat, width: nat)
    ensures
        ({
            let p = padded(n, width);
            let d = decimal(n);
            &&& p.len() == if d.len() < width {
                width
            } else {
                d.len()
            }
            &&& p.skip(p.len() - d.len()) == d
            &&& forall|i: int| 0 <= i < p.len() - d.len() ==> #[trigger] p[i] == ' '
        }),
{
    let p = padded(n, width);
    let d = decimal(n);
    assert(p.skip(p.len() - d.len()) =~= d);
}

/// Texts are joined in order, with what goes between them between any two and nowhere else.
pub proof fn law_texts_are_joined_in_order(
    parts: Seq<Seq<char>>,
    next: Seq<char>,
    between: Seq<char>,
)
    ensures
        joined(Seq::empty(), between) == Seq::<char>::empty(),
        joined(seq![next], between) == next,
        parts.len() > 0 ==> joined(parts.push(next), between) == joined(parts, between) + between
            + next,
{
    assert(parts.push(next).drop_last() =~= parts);
}

/// Somewhere in a text, `label` stands with `said` right behind it.
#[verifier::opaque]
pub open spec fn says(text: Seq<char>, label: Seq<char>, said: Seq<char>) -> bool {
    exists|i: int|
        0 <= i && i + label.len() + said.len() <= text.len() && #[trigger] text.subrange(
            i,
            i + label.len() + said.len(),
        ) == label + said
}

proof fn lemma_says(before: Seq<char>, label: Seq<char>, said: Seq<char>)
    ensures
        says(before + label + said, label, said),
{
    reveal(says);
    let text = before + label + said;
    let i = before.len() as int;
    assert(text.subrange(i, i + label.len() + said.len()) =~= label + said);
}

proof fn lemma_still_says(text: Seq<char>, more: Seq<char>, label: Seq<char>, said: Seq<char>)
    requires
        says(text, label, said),
    ensures
        says(text + more, label, said),
{
    reveal(says);
    let i = choose|i: int|
        0 <= i && i + label.len() + said.len() <= text.len() && #[trigger] text.subrange(
            i,
            i + label.len() + said.len(),
        ) == label + said;
    assert((text + more).subrange(i, i + label.len() + said.len()) =~= text.subrange(
        i,
        i + label.len() + said.len(),
    ));
}

/// Each figure of a source stands behind its own label: its name, its level, the depth of
/// its buffer, and what went wrong.
pub proof fn law_a_strip_says_what_is_what(s: SourceSnapshot)
    ensures
        ({
            let text = strip_text(s);
            &&& says(text, "MIC-"@, hex((s.ssrc % 0x1_0000) as nat, 4))
            &&& says(text, " ["@, bar_of(s.peak_milli))
            &&& says(text, "] "@, padded(in_units(frames_in_ms(s.buffer_frames as nat)), 4))
            &&& says(text, "ms lost:"@, decimal(s.lost as nat))
            &&& says(text, " und:"@, decimal(s.underruns as nat))
        }),
{
    let name = hex((s.ssrc % 0x1_0000) as nat, 4);
    let bar = bar_of(s.peak_milli);
    let depth = padded(in_units(frames_in_ms(s.buffer_frames as nat)), 4);
    let lost = decimal(s.lost as nat);
    let und = decimal(s.underruns as nat);
    let t0 = "MIC-"@;
    let t1 = t0 + name;
    let t2 = t1 + " ["@;
    let t3 = t2 + bar;
    let t4 = t3 + "] "@;
    let t5 = t4 + depth;
    let t6 = t5 + "ms lost:"@;
    let t7 = t6 + lost;
    let t8 = t7 + " und:"@;
    let t9 = t8 + und;
    assert(Seq::<char>::empty() + "MIC-"@ =~= t0);
    lemma_says(Seq::<char>::empty(), "MIC-"@, name);
    lemma_still_says(t1, " ["@, "MIC-"@, name);
    lemma_still_says(t2, bar, "MIC-"@, name);
    lemma_still_says(t3, "] "@, "MIC-"@, name);
    lemma_still_says(t4, depth, "MIC-"@, name);
    lemma_still_says(t5, "ms lost:"@, "MIC-"@, name);
    lemma_still_says(t6, lost, "MIC-"@, name);
    lemma_still_says(t7, " und:"@, "MIC-"@, name);
    lemma_still_says(t8, und, "MIC-"@, name);
    lemma_says(t1, " ["@, bar);
    lemma_still_says(t3, "] "@, " ["@, bar);
    lemma_still_says(t4, depth, " ["@, bar);
    lemma_still_says(t5, "ms lost:"@, " ["@, bar);
    lemma_still_says(t6, lost, " ["@, bar);
    lemma_still_says(t7, " und:"@, " ["@, bar);
    lemma_still_says(t8, und, " ["@, bar);
    lemma_says(t3, "] "@, depth);
    lemma_still_says(t5, "ms lost:"@, "] "@, depth);
    lemma_still_says(t6, lost, "] "@, depth);
    lemma_still_says(t7, " und:"@, "] "@, depth);
    lemma_still_says(t8, und, "] "@, depth);
    lemma_says(t5, "ms lost:"@, lost);
    lemma_still_says(t7, " und:"@, "ms lost:"@, lost);
    lemma_still_says(t8, und, "ms lost:"@, lost);
    lemma_says(t7, " und:"@, und);
    assert(strip_text(s) == t9);
}

/// Each figure on a mixer's status line stands behind its own label, and the sources come
/// last.
#[verifier::spinoff_prover]
#[verifier::rlimit(40)]
pub proof fn law_a_mixer_line_says_what_is_what(stats: RxStats, sources: Seq<SourceSnapshot>)
    ensures
        ({
            let text = mixer_text(stats, sources);
            let strips = joined(sources.map_values(|s: SourceSnapshot| strip_text(s)), "  |  "@);
            &&& says(text, " sources:"@, decimal(stats.active_sources as nat))
            &&& says(text, " pkts:"@, decimal(stats.packets as nat))
            &&& says(text, " bad:"@, decimal(stats.bad_packets as nat))
            &&& says(text, " lim:"@, to_hundredths(thousandths(stats.limiter_gain as nat)))
            &&& says(text, " xrun:"@, decimal(stats.xruns as nat))
            &&& says(text, " out:"@, to_tenths(thousandths(stats.latency_micros as nat)))
            &&& sources.len() > 0 ==> says(text, "  |  "@, strips)
        }),
{
    let strips = joined(sources.map_values(|s: SourceSnapshot| strip_text(s)), "  |  "@);
    let gap = if sources.len() == 0 {
        ""@
    } else {
        "  |  "@
    };
    let sourced = decimal(stats.active_sources as nat);
    let pkts = decimal(stats.packets as nat);
    let bad = decimal(stats.bad_packets as nat);
    let lim = to_hundredths(thousandths(stats.limiter_gain as nat));
    let xrun = decimal(stats.xruns as nat);
    let late = to_tenths(thousandths(stats.latency_micros as nat));
    let t0 = " sources:"@;
    let t1 = t0 + sourced;
    let t2 = t1 + " pkts:"@;
    let t3 = t2 + pkts;
    let t4 = t3 + " bad:"@;
    let t5 = t4 + bad;
    let t6 = t5 + " lim:"@;
    let t7 = t6 + lim;
    let t8 = t7 + " xrun:"@;
    let t9 = t8 + xrun;
    let t10 = t9 + " out:"@;
    let t11 = t10 + late;
    let t12 = t11 + "ms"@;
    let t13 = t12 + gap;
    let t14 = t13 + strips;
    assert(Seq::<char>::empty() + " sources:"@ =~= t0);
    lemma_says(Seq::<char>::empty(), " sources:"@, sourced);
    lemma_still_says(t1, " pkts:"@, " sources:"@, sourced);
    lemma_still_says(t2, pkts, " sources:"@, sourced);
    lemma_still_says(t3, " bad:"@, " sources:"@, sourced);
    lemma_still_says(t4, bad, " sources:"@, sourced);
    lemma_still_says(t5, " lim:"@, " sources:"@, sourced);
    lemma_still_says(t6, lim, " sources:"@, sourced);
    lemma_still_says(t7, " xrun:"@, " sources:"@, sourced);
    lemma_still_says(t8, xrun, " sources:"@, sourced);
    lemma_still_says(t9, " out:"@, " sources:"@, sourced);
    lemma_still_says(t10, late, " sources:"@, sourced);
    lemma_still_says(t11, "ms"@, " sources:"@, sourced);
    lemma_still_says(t12, gap, " sources:"@, sourced);
    lemma_still_says(t13, strips, " sources:"@, sourced);
    lemma_says(t1, " pkts:"@, pkts);
    lemma_still_says(t3, " bad:"@, " pkts:"@, pkts);
    lemma_still_says(t4, bad, " pkts:"@, pkts);
    lemma_still_says(t5, " lim:"@, " pkts:"@, pkts);
    lemma_still_says(t6, lim, " pkts:"@, pkts);
    lemma_still_says(t7, " xrun:"@, " pkts:"@, pkts);
    lemma_still_says(t8, xrun, " pkts:"@, pkts);
    lemma_still_says(t9, " out:"@, " pkts:"@, pkts);
    lemma_still_says(t10, late, " pkts:"@, pkts);
    lemma_still_says(t11, "ms"@, " pkts:"@, pkts);
    lemma_still_says(t12, gap, " pkts:"@, pkts);
    lemma_still_says(t13, strips, " pkts:"@, pkts);
    lemma_says(t3, " bad:"@, bad);
    lemma_still_says(t5, " lim:"@, " bad:"@, bad);
    lemma_still_says(t6, lim, " bad:"@, bad);
    lemma_still_says(t7, " xrun:"@, " bad:"@, bad);
    lemma_still_says(t8, xrun, " bad:"@, bad);
    lemma_still_says(t9, " out:"@, " bad:"@, bad);
    lemma_still_says(t10, late, " bad:"@, bad);
    lemma_still_says(t11, "ms"@, " bad:"@, bad);
    lemma_still_says(t12, gap, " bad:"@, bad);
    lemma_still_says(t13, strips, " bad:"@, bad);
    lemma_says(t5, " lim:"@, lim);
    lemma_still_says(t7, " xrun:"@, " lim:"@, lim);
    lemma_still_says(t8, xrun, " lim:"@, lim);
    lemma_still_says(t9, " out:"@, " lim:"@, lim);
    lemma_still_says(t10, late, " lim:"@, lim);
    lemma_still_says(t11, "ms"@, " lim:"@, lim);
    lemma_still_says(t12, gap, " lim:"@, lim);
    lemma_still_says(t13, strips, " lim:"@, lim);
    lemma_says(t7, " xrun:"@, xrun);
    lemma_still_says(t9, " out:"@, " xrun:"@, xrun);
    lemma_still_says(t10, late, " xrun:"@, xrun);
    lemma_still_says(t11, "ms"@, " xrun:"@, xrun);
    lemma_still_says(t12, gap, " xrun:"@, xrun);
    lemma_still_says(t13, strips, " xrun:"@, xrun);
    lemma_says(t9, " out:"@, late);
    lemma_still_says(t11, "ms"@, " out:"@, late);
    lemma_still_says(t12, gap, " out:"@, late);
    lemma_still_says(t13, strips, " out:"@, late);
    lemma_says(t12, gap, strips);
    assert(mixer_text(stats, sources) == t14);
}

/// Each figure on a microphone's status line stands behind its own label.
pub proof fn law_a_microphone_line_says_what_is_what(stats: TxStats)
    ensures
        ({
            let text = mic_text(stats);
            &&& says(text, " ["@, bar_of(stats.peak))
            &&& says(text, "] sent:"@, decimal(stats.packets_sent as nat))
            &&& says(text, " dropped:"@, decimal(stats.frames_dropped as nat))
            &&& says(text, " errs:"@, decimal(stats.send_errors as nat))
            &&& says(text, " xrun:"@, decimal(stats.xruns as nat))
            &&& says(text, " in:"@, to_tenths(thousandths(stats.latency_micros as nat)))
        }),
{
    let bar = bar_of(stats.peak);
    let sent = decimal(stats.packets_sent as nat);
    let dropped = decimal(stats.frames_dropped as nat);
    let errs = decimal(stats.send_errors as nat);
    let xrun = decimal(stats.xruns as nat);
    let late = to_tenths(thousandths(stats.latency_micros as nat));
    let t0 = " ["@;
    let t1 = t0 + bar;
    let t2 = t1 + "] sent:"@;
    let t3 = t2 + sent;
    let t4 = t3 + " dropped:"@;
    let t5 = t4 + dropped;
    let t6 = t5 + " errs:"@;
    let t7 = t6 + errs;
    let t8 = t7 + " xrun:"@;
    let t9 = t8 + xrun;
    let t10 = t9 + " in:"@;
    let t11 = t10 + late;
    let t12 = t11 + "ms"@;
    assert(Seq::<char>::empty() + " ["@ =~= t0);
    lemma_says(Seq::<char>::empty(), " ["@, bar);
    lemma_still_says(t1, "] sent:"@, " ["@, bar);
    lemma_still_says(t2, sent, " ["@, bar);
    lemma_still_says(t3, " dropped:"@, " ["@, bar);
    lemma_still_says(t4, dropped, " ["@, bar);
    lemma_still_says(t5, " errs:"@, " ["@, bar);
    lemma_still_says(t6, errs, " ["@, bar);
    lemma_still_says(t7, " xrun:"@, " ["@, bar);
    lemma_still_says(t8, xrun, " ["@, bar);
    lemma_still_says(t9, " in:"@, " ["@, bar);
    lemma_still_says(t10, late, " ["@, bar);
    lemma_still_says(t11, "ms"@, " ["@, bar);
    lemma_says(t1, "] sent:"@, sent);
    lemma_still_says(t3, " dropped:"@, "] sent:"@, sent);
    lemma_still_says(t4, dropped, "] sent:"@, sent);
    lemma_still_says(t5, " errs:"@, "] sent:"@, sent);
    lemma_still_says(t6, errs, "] sent:"@, sent);
    lemma_still_says(t7, " xrun:"@, "] sent:"@, sent);
    lemma_still_says(t8, xrun, "] sent:"@, sent);
    lemma_still_says(t9, " in:"@, "] sent:"@, sent);
    lemma_still_says(t10, late, "] sent:"@, sent);
    lemma_still_says(t11, "ms"@, "] sent:"@, sent);
    lemma_says(t3, " dropped:"@, dropped);
    lemma_still_says(t5, " errs:"@, " dropped:"@, dropped);
    lemma_still_says(t6, errs, " dropped:"@, dropped);
    lemma_still_says(t7, " xrun:"@, " dropped:"@, dropped);
    lemma_still_says(t8, xrun, " dropped:"@, dropped);
    lemma_still_says(t9, " in:"@, " dropped:"@, dropped);
    lemma_still_says(t10, late, " dropped:"@, dropped);
    lemma_still_says(t11, "ms"@, " dropped:"@, dropped);
    lemma_says(t5, " errs:"@, errs);
    lemma_still_says(t7, " xrun:"@, " errs:"@, errs);
    lemma_still_says(t8, xrun, " errs:"@, errs);
    lemma_still_says(t9, " in:"@, " errs:"@, errs);
    lemma_still_says(t10, late, " errs:"@, errs);
    lemma_still_says(t11, "ms"@, " errs:"@, errs);
    lemma_says(t7, " xrun:"@, xrun);
    lemma_still_says(t9, " in:"@, " xrun:"@, xrun);
    lemma_still_says(t10, late, " xrun:"@, xrun);
    lemma_still_says(t11, "ms"@, " xrun:"@, xrun);
    lemma_says(t9, " in:"@, late);
    lemma_still_says(t11, "ms"@, " in:"@, late);
    assert(mic_text(stats) == t12);
}

} // verus!
