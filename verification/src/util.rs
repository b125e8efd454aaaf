//! Small shared helpers: the clock, and counters that wrap at 32 and 64 bits.
use std::time::{Duration, Instant};

use vstd::prelude::*;

verus! {

/// A point on the monotonic clock.
#[verifier::external_type_specification]
#[verifier::external_body]
pub struct ExInstant(std::time::Instant);

/// `Instant::elapsed`: how long ago `start` was. Nothing is claimed of it: it is the
/// time.
pub assume_specification[ Instant::elapsed ](start: &Instant) -> Duration;

/// `Duration::as_millis`: whole milliseconds. Nothing is claimed of it, since nothing
/// is said of what a duration holds.
pub assume_specification[ Duration::as_millis ](d: &Duration) -> u128;

/// A number of milliseconds as the engine counts them, pinned at the last
/// representable one.
pub open spec fn pinned(ms: int) -> int {
    if ms <= i64::MAX {
        ms
    } else {
        i64::MAX as int
    }
}

/// A reading of a clock that shows `ms` and has shown `last`: it never goes back.
pub open spec fn reading(last: int, ms: int) -> int {
    if pinned(ms) >= last {
        pinned(ms)
    } else {
        last
    }
}

/// A number of milliseconds as the engine counts them, pinned at the last
/// representable one.
pub fn millis(ms: u128) -> (r: i64)
    ensures
        r == pinned(ms as int),
{
    if ms <= i64::MAX as u128 {
        ms as i64
    } else {
        i64::MAX
    }
}

/// Milliseconds on a monotonic clock since `start`. The zero point is arbitrary;
/// only differences are meaningful.
pub fn now_ms(start: &Instant) -> (r: i64)
    ensures
        r >= 0,
{
    millis(start.elapsed().as_millis())
}

/// A clock that remembers what it has shown.
pub struct Clock {
    start: Instant,
    last: i64,
}

impl Clock {
    /// What the clock last showed.
    pub closed spec fn last(&self) -> int {
        self.last as int
    }

    /// No clock has shown less than nothing.
    pub closed spec fn wf(&self) -> bool {
        self.last >= 0
    }

    /// A clock that counts from `start` and has shown nothing yet.
    pub fn new(start: Instant) -> (r: Clock)
        ensures
            r.wf(),
            r.last() == 0,
    {
        Clock { start, last: 0 }
    }

    /// The clock's next reading when `ms` milliseconds have gone by.
    pub fn show(&mut self, ms: u128) -> (r: i64)
        requires
            old(self).wf(),
        ensures
            final(self).wf(),
            r == reading(old(self).last(), ms as int),
            final(self).last() == r,
    {
        let now: i64 = millis(ms);
        if now > self.last {
            self.last = now;
        }
        self.last
    }

    /// Milliseconds since the start: no less than any reading before.
    pub fn now_ms(&mut self) -> (r: i64)
        requires
            old(self).wf(),
        ensures
            final(self).wf(),
            r >= old(self).last(),
            r >= 0,
            final(self).last() == r,
    {
        let ms: u128 = self.start.elapsed().as_millis();
        self.show(ms)
    }
}

/// What a clock shows for the times in `ms`, one after the other.
pub open spec fn readings(ms: Seq<nat>) -> Seq<int>
    decreases ms.len(),
{
    if ms.len() == 0 {
        Seq::empty()
    } else {
        let before = readings(ms.drop_last());
        let last = if before.len() == 0 {
            0
        } else {
            before.last()
        };
        before.push(reading(last, ms.last() as int))
    }
}

/// The clock moves forward only: whatever times it meets, no reading is below an
/// earlier one or below zero, and where the times themselves do not go back every
/// reading is the time.
pub proof fn law_the_clock_moves_forward_only(ms: Seq<nat>)
    ensures
        readings(ms).len() == ms.len(),
        forall|i: int, j: int|
            0 <= i <= j < ms.len() ==> 0 <= #[trigger] readings(ms)[i] <= #[trigger] readings(ms)[j],
        (forall|i: int, j: int| 0 <= i <= j < ms.len() ==> #[trigger] ms[i] <= #[trigger] ms[j])
            ==> forall|i: int|
            0 <= i < ms.len() ==> #[trigger] readings(ms)[i] == pinned(ms[i] as int),
    decreases ms.len(),
{
    if ms.len() > 0 {
        let init = ms.drop_last();
        law_the_clock_moves_forward_only(init);
        if forall|i: int, j: int| 0 <= i <= j < ms.len() ==> #[trigger] ms[i] <= #[trigger] ms[j] {
            assert forall|i: int, j: int| 0 <= i <= j < init.len() implies #[trigger] init[i]
                <= #[trigger] init[j] by {
                assert(ms[i] <= ms[j]);
            }
            if init.len() > 0 {
                assert(ms[init.len() - 1] <= ms[ms.len() - 1]);
                assert(init[init.len() - 1] == ms[init.len() - 1]);
            }
            assert forall|i: int| 0 <= i < ms.len() implies #[trigger] readings(ms)[i] == pinned(
                ms[i] as int,
            ) by {
                if i < init.len() {
                    assert(readings(ms)[i] == readings(init)[i]);
                    assert(init[i] == ms[i]);
                }
            }
        }
    }
}

/// What a 32-bit counter shows for a count of `x`.
pub open spec fn wrap32(x: int) -> int {
    x % 0x1_0000_0000
}

/// Wrapping on the way does not change where a counter ends up.
pub proof fn lemma_wrap32_sum(a: int, b: int, c: int)
    ensures
        wrap32(wrap32(a + b) + c) == wrap32(a + b + c),
{
}

/// What a 64-bit counter shows for a count of `x`.
pub open spec fn wrap64(x: int) -> int {
    x % 0x1_0000_0000_0000_0000
}

/// A 32-bit counter moved on by `b`.
pub(crate) fn add32(a: u32, b: u32) -> (r: u32)
    ensures
        r == wrap32(a + b),
{
    a.wrapping_add(b)
}

/// How far a 32-bit counter has to go from `from` to reach `to`.
pub(crate) fn distance32(to: u32, from: u32) -> (r: u32)
    ensures
        r == wrap32(to - from),
{
    to.wrapping_sub(from)
}

/// A 64-bit counter moved on by `b`.
pub(crate) fn add64(a: u64, b: u64) -> (r: u64)
    ensures
        r == wrap64(a + b),
{
    a.wrapping_add(b)
}

/// The low 32 bits of a count.
pub(crate) fn low32(x: usize) -> (r: u32)
    ensures
        r == wrap32(x as int),
{
    let wide: u64 = x as u64;
    assert(#[verifier::truncate] (wide as u32) == wide % 0x1_0000_0000) by (bit_vector);
    #[verifier::truncate]
    let r: u32 = wide as u32;
    r
}

/// Milliseconds are counted one for one, for as long as they can be.
pub proof fn law_milliseconds_are_counted_one_for_one(ms: nat, last: int)
    ensures
        ms <= 0x7fff_ffff_ffff_ffff ==> pinned(ms as int) == ms,
        ms > 0x7fff_ffff_ffff_ffff ==> pinned(ms as int) == 0x7fff_ffff_ffff_ffff,
        pinned(ms as int) >= last ==> reading(last, ms as int) == pinned(ms as int),
        pinned(ms as int) < last ==> reading(last, ms as int) == last,
{
}

} // verus!
