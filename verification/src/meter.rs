//! Peak meter ballistics, shared by the transmitter, the mix bus and every
//! source strip.
use vstd::prelude::*;

verus! {

/// Levels are published as milli-units of full scale: the audio side stores, the
/// UI polls.
pub const METER_FULL_SCALE: u32 = 1000;

/// Per-source and master gains reach 2x, so the meter has to be able to report
/// above full scale rather than pinning silently.
pub const METER_CEILING: u32 = 2000;

/// What a meter shows after a block at `level` (milli-units): a rise at once, up to
/// the ceiling; a fall by a sixteenth of the reading, but by no less than one.
pub open spec fn next_peak(cur: u32, level: u32) -> u32 {
    let next = if level < METER_CEILING {
        level
    } else {
        METER_CEILING
    };
    if next < cur {
        (cur - (if cur < 32 {
            1
        } else {
            cur / 16
        })) as u32
    } else {
        next
    }
}

/// Instant attack, ~1/16-per-block decay: slow enough to read on an 80 ms UI
/// poll, fast enough to follow speech. `level_milli` is linear, 1000 == full scale.
pub fn update_peak_meter(meter: &mut u32, level_milli: u32)
    ensures
        *final(meter) == next_peak(*old(meter), level_milli),
{
    let cur: u32 = *meter;
    let mut next: u32 = if level_milli < METER_CEILING {
        level_milli
    } else {
        METER_CEILING
    };
    if next < cur {
        // Decay by 1/16 but never by less than one step. A bare `cur / 16`
        // reaches zero only from above 16 and otherwise stalls, parking the
        // meter at -36 dBFS through dead silence.
        let step: u32 = if cur / 16 > 1 {
            cur / 16
        } else {
            1
        };
        next = cur - step;
    }
    *meter = next;
}

/// The magnitude of a sample.
pub open spec fn magnitude(s: i16) -> int {
    if s < 0 {
        -s
    } else {
        s as int
    }
}

/// `peak` is the largest magnitude in a block.
pub open spec fn is_peak(block: Seq<i16>, peak: int) -> bool {
    &&& forall|i: int| 0 <= i < block.len() ==> magnitude(#[trigger] block[i]) <= peak
    &&& peak == 0 || exists|i: int| 0 <= i < block.len() && magnitude(#[trigger] block[i]) == peak
}

/// The level of a block of samples in milli-units of full scale, rounded down.
pub fn level_milli(block: &[i16]) -> (r: u32)
    ensures
        exists|peak: int| #[trigger] is_peak(block@, peak) && r == peak * 1000 / 32768,
        r <= METER_FULL_SCALE,
{
    let mut peak: i32 = 0;
    let mut i: usize = 0;
    while i < block.len()
        invariant
            i <= block@.len(),
            0 <= peak <= 32768,
            is_peak(block@.take(i as int), peak as int),
        decreases block@.len() - i,
    {
        let s: i32 = block[i] as i32;
        let m: i32 = if s < 0 {
            -s
        } else {
            s
        };
        let ghost before = block@.take(i as int);
        let ghost after = block@.take(i + 1);
        assert(forall|k: int| 0 <= k < i ==> before[k] == after[k]);
        assert(after[i as int] == block@[i as int]);
        let ghost old_peak = peak;
        if peak < m {
            peak = m;
            assert(magnitude(after[i as int]) == peak);
        } else if peak > 0 {
            assert(is_peak(after, peak as int)) by {
                let k = choose|k: int|
                    0 <= k < before.len() && magnitude(#[trigger] before[k]) == peak;
                assert(magnitude(after[k]) == peak);
            }
        }
        i = i + 1;
    }
    assert(block@.take(i as int) =~= block@);
    (peak * 1000 / 32768) as u32
}

/// What a meter shows after `blocks` blocks of silence.
pub open spec fn after_silence(cur: u32, blocks: nat) -> u32
    decreases blocks,
{
    if blocks == 0 {
        cur
    } else {
        after_silence(next_peak(cur, 0), (blocks - 1) as nat)
    }
}

/// Silence brings a meter all the way down to zero: it never stalls on the way.
pub proof fn law_silence_reaches_zero(cur: u32, blocks: nat)
    requires
        blocks >= cur,
    ensures
        after_silence(cur, blocks) == 0,
    decreases blocks,
{
    if blocks > 0 {
        law_silence_reaches_zero(next_peak(cur, 0), (blocks - 1) as nat);
    }
}

/// A meter never shows more than the ceiling once it has been below it, and shows
/// a louder block at once.
pub proof fn law_meter_stays_below_the_ceiling(cur: u32, level: u32)
    requires
        cur <= METER_CEILING,
    ensures
        next_peak(cur, level) <= METER_CEILING,
        cur <= level <= METER_CEILING ==> next_peak(cur, level) == level,
        level < cur ==> next_peak(cur, level) < cur,
{
}

} // verus!
