//! Fixed-slot source table and the reading side of the summing mixer.
//!
//! Slots are claimed and retired by the network side and read by the audio
//! side. As with the jitter buffer, the two roles are separate types:
//! [`SourceWriter`] holds every buffer's write half, [`Mixer`] every read half,
//! and what they share sits in [`Table`]. The table never grows - eight slots,
//! and a ninth microphone is refused rather than accommodated.
use vstd::prelude::*;

use crate::jitter::{pair, JitterReader, JitterShared, JitterWriter};
use crate::meter::update_peak_meter;

verus! {

use crate::jitter::{JitterView, WriterView};
use crate::meter::next_peak;
use crate::meter::{METER_CEILING, METER_FULL_SCALE};
use crate::ring::least;

pub const MAX_SOURCES: usize = 8;

/// Largest block the audio callback will be handed without falling back to
/// silence. 8192 frames is 170 ms at 48 kHz, far above any low-latency burst.
pub const MAX_CALLBACK_FRAMES: usize = 8192;

/// How far the mix is shifted against howlround when nobody has said otherwise.
pub const DEFAULT_FEEDBACK_SHIFT_HZ: u32 = 5;

/// The largest shift that is still inaudible on speech.
pub const MAX_FEEDBACK_SHIFT_HZ: u32 = 30;

#[derive(Debug, Default, Clone, Copy, PartialEq, Eq, Structural)]
pub struct SourceSnapshot {
    pub ssrc: u32,
    /// 0..=[`METER_CEILING`] in milli-units; 1000 is full scale.
    pub peak_milli: u32,
    pub buffer_frames: u32,
    pub packets: u32,
    pub lost: u32,
    pub underruns: u32,
    /// Milliseconds since the last packet.
    pub age_ms: u32,
    pub muted: bool,
    /// 0..=[`METER_CEILING`] in milli-units; 1000 is unity.
    pub gain_milli: u32,
}

/// What a slot of the table holds.
#[verifier::ext_equal]
pub struct SlotView {
    pub active: bool,
    pub ssrc: u32,
    pub last_seen_ms: int,
    pub peak_milli: u32,
    pub gain_milli: u32,
    pub muted: bool,
    pub jitter: JitterView,
}

impl SlotView {
    /// A slot nobody has claimed yet.
    pub open spec fn fresh(target_frames: nat) -> SlotView {
        SlotView {
            active: false,
            ssrc: 0,
            last_seen_ms: 0,
            peak_milli: 0,
            gain_milli: METER_FULL_SCALE,
            muted: false,
            jitter: JitterView::fresh(target_frames),
        }
    }

    /// This slot belongs to `ssrc`.
    pub open spec fn is(self, ssrc: u32) -> bool {
        self.active && self.ssrc == ssrc
    }

    /// The slot once `ssrc` has claimed it: a new session at unity, unmuted, with
    /// whatever the last occupant left in the buffer marked stale.
    pub open spec fn claimed(self, ssrc: u32, now_ms: int) -> SlotView {
        SlotView {
            active: true,
            ssrc,
            last_seen_ms: now_ms,
            peak_milli: 0,
            gain_milli: METER_FULL_SCALE,
            muted: false,
            jitter: self.jitter.after_reset(),
        }
    }

    /// The gain this source goes into the mix with.
    pub open spec fn effective_gain(self) -> u32 {
        if self.muted {
            0
        } else {
            self.gain_milli
        }
    }

    /// What this source contributes to a block of `n` frames, with its gain.
    pub open spec fn block(self, n: nat) -> Option<(Seq<i16>, u32)> {
        if self.active {
            Some((self.jitter.heard(n), self.effective_gain()))
        } else {
            None
        }
    }

    /// The slot once a block of `n` frames has been read. A muted source is still
    /// drained.
    pub open spec fn after_read(self, n: nat) -> SlotView {
        if self.active {
            SlotView { jitter: self.jitter.after_read(n), ..self }
        } else {
            self
        }
    }

    /// Whether this source has been quiet for longer than `timeout_ms`.
    pub open spec fn gone_quiet(self, now_ms: int, timeout_ms: int) -> bool {
        self.active && now_ms - self.last_seen_ms > timeout_ms
    }

    pub open spec fn snapshot(self, now_ms: int) -> SourceSnapshot {
        let age = now_ms - self.last_seen_ms;
        let stats = self.jitter.stats();
        SourceSnapshot {
            ssrc: self.ssrc,
            peak_milli: self.peak_milli,
            buffer_frames: stats.fill_frames,
            packets: stats.packets,
            lost: stats.lost,
            underruns: stats.underruns,
            age_ms: if age < 0 {
                0
            } else if age > u32::MAX {
                u32::MAX
            } else {
                age as u32
            },
            muted: self.muted,
            gain_milli: self.gain_milli,
        }
    }
}

/// A gain no higher than the ceiling.
pub open spec fn clamped_gain(gain_milli: u32) -> u32 {
    if gain_milli < METER_CEILING {
        gain_milli
    } else {
        METER_CEILING
    }
}

/// The first slot at or after `from` that meets `p`.
pub open spec fn first_slot(slots: Seq<SlotView>, p: spec_fn(SlotView) -> bool, from: int) -> Option<
    int,
>
    decreases slots.len() - from,
{
    if from < 0 || from >= slots.len() {
        None
    } else if p(slots[from]) {
        Some(from)
    } else {
        first_slot(slots, p, from + 1)
    }
}

/// What both sides and the UI can see.
#[verifier::ext_equal]
pub struct TableView {
    pub slots: Seq<SlotView>,
    pub master_gain_milli: u32,
    pub master_peak_milli: u32,
    pub limiter_gain_milli: u32,
    pub feedback_shift_milli_hz: u32,
    /// How many sources the last block was mixed from.
    pub active_sources: u32,
}

impl TableView {
    /// A table with every slot free.
    pub open spec fn fresh(target_frames: nat) -> TableView {
        TableView {
            slots: Seq::new(MAX_SOURCES as nat, |i: int| SlotView::fresh(target_frames)),
            master_gain_milli: METER_FULL_SCALE,
            master_peak_milli: 0,
            limiter_gain_milli: METER_FULL_SCALE,
            feedback_shift_milli_hz: (DEFAULT_FEEDBACK_SHIFT_HZ * 1000) as u32,
            active_sources: 0,
        }
    }

    /// Eight slots, each with a sound buffer and settings in range; no two of them
    /// for the same source.
    pub open spec fn wf(self) -> bool {
        &&& self.slots.len() == MAX_SOURCES
        &&& forall|i: int|
            0 <= i < self.slots.len() ==> {
                let s = #[trigger] self.slots[i];
                &&& s.jitter.wf()
                &&& s.gain_milli <= METER_CEILING
                &&& s.peak_milli <= METER_CEILING
            }
        &&& self.one_slot_each()
        &&& self.master_gain_milli <= METER_CEILING
        &&& self.master_peak_milli <= METER_CEILING
        &&& self.feedback_shift_milli_hz <= MAX_FEEDBACK_SHIFT_HZ * 1000
    }

    /// No source holds two slots.
    pub open spec fn one_slot_each(self) -> bool {
        forall|i: int, j: int|
            0 <= i < self.slots.len() && 0 <= j < self.slots.len() && (
            #[trigger] self.slots[i]).active && (#[trigger] self.slots[j]).active
                && self.slots[i].ssrc == self.slots[j].ssrc ==> i == j
    }

    /// Every buffer can take a packet.
    pub open spec fn has_headroom(self) -> bool {
        forall|i: int|
            0 <= i < self.slots.len() ==> (#[trigger] self.slots[i]).jitter.has_headroom()
    }

    /// The slot `ssrc` holds.
    pub open spec fn slot_of(self, ssrc: u32) -> Option<int> {
        first_slot(self.slots, |s: SlotView| s.is(ssrc), 0)
    }

    /// The slot a new source would get.
    pub open spec fn free_slot(self) -> Option<int> {
        first_slot(self.slots, |s: SlotView| !s.active, 0)
    }

    /// The slot that packets of `ssrc` go to: the one it holds, or else the first
    /// free one; none when all are taken.
    pub open spec fn seat(self, ssrc: u32) -> Option<int> {
        match self.slot_of(ssrc) {
            Some(i) => Some(i),
            None => self.free_slot(),
        }
    }

    /// The table once `ssrc` has been heard from.
    pub open spec fn after_acquire(self, ssrc: u32, now_ms: int) -> TableView {
        let slots = match self.slot_of(ssrc) {
            Some(i) => self.slots.update(i, SlotView { last_seen_ms: now_ms, ..self.slots[i] }),
            None => match self.free_slot() {
                Some(i) => self.slots.update(i, self.slots[i].claimed(ssrc, now_ms)),
                None => self.slots,
            },
        };
        TableView { slots, ..self }
    }

    /// The table once a packet has gone into a slot whose writer was `w`.
    pub open spec fn after_packet(
        self,
        slot: int,
        w: WriterView,
        seq: u32,
        timestamp: u32,
        pcm: Option<Seq<i16>>,
        frames: nat,
        muted: bool,
    ) -> TableView {
        let s = self.slots[slot];
        TableView {
            slots: self.slots.update(
                slot,
                SlotView {
                    jitter: s.jitter.after_packet(w, seq, timestamp, pcm, frames, muted),
                    ..s
                },
            ),
            ..self
        }
    }

    /// The table without `ssrc`.
    pub open spec fn after_retire(self, ssrc: u32) -> TableView {
        TableView {
            slots: self.slots.map_values(
                |s: SlotView| if s.is(ssrc) {
                    SlotView { active: false, ..s }
                } else {
                    s
                },
            ),
            ..self
        }
    }

    /// The table without the sources that have gone quiet.
    pub open spec fn after_reap(self, now_ms: int, timeout_ms: int) -> TableView {
        TableView {
            slots: self.slots.map_values(
                |s: SlotView| if s.gone_quiet(now_ms, timeout_ms) {
                    SlotView { active: false, ..s }
                } else {
                    s
                },
            ),
            ..self
        }
    }

    /// The table once the source `ssrc` has been given this gain, or as much of it
    /// as there is.
    pub open spec fn after_source_gain(self, ssrc: u32, gain_milli: u32) -> TableView {
        TableView {
            slots: self.slots.map_values(
                |s: SlotView| if s.is(ssrc) {
                    SlotView { gain_milli: clamped_gain(gain_milli), ..s }
                } else {
                    s
                },
            ),
            ..self
        }
    }

    /// The table once the source `ssrc` has been muted or unmuted.
    pub open spec fn after_source_muted(self, ssrc: u32, muted: bool) -> TableView {
        TableView {
            slots: self.slots.map_values(
                |s: SlotView| if s.is(ssrc) {
                    SlotView { muted, ..s }
                } else {
                    s
                },
            ),
            ..self
        }
    }

    /// The slots in use, in order.
    pub open spec fn active_slots(self) -> Seq<SlotView> {
        self.slots.filter(|s: SlotView| s.active)
    }

    /// The table once a block of `n` frames has been read from every source.
    pub open spec fn after_render(self, n: nat) -> TableView {
        TableView {
            slots: self.slots.map_values(|s: SlotView| s.after_read(n)),
            active_sources: self.active_slots().len() as u32,
            ..self
        }
    }
}

struct Slot {
    active: bool,
    ssrc: u32,
    last_seen_ms: i64,
    peak_milli: u32,
    gain_milli: u32,
    muted: bool,
    jitter: JitterShared,
}

impl Slot {
    spec fn view(&self) -> SlotView {
        SlotView {
            active: self.active,
            ssrc: self.ssrc,
            last_seen_ms: self.last_seen_ms as int,
            peak_milli: self.peak_milli,
            gain_milli: self.gain_milli,
            muted: self.muted,
            jitter: self.jitter@,
        }
    }

    fn new(target_frames: usize) -> (r: Slot)
        requires
            JitterShared::fits(target_frames),
        ensures
            r.jitter.wf(),
            r.view() == SlotView::fresh(target_frames as nat),
    {
        Slot {
            active: false,
            ssrc: 0,
            last_seen_ms: 0,
            peak_milli: 0,
            gain_milli: METER_FULL_SCALE,
            muted: false,
            jitter: JitterShared::new(target_frames),
        }
    }

    fn is(&self, ssrc: u32) -> (r: bool)
        ensures
            r == self.view().is(ssrc),
    {
        self.active && self.ssrc == ssrc
    }
}

/// Everything both sides and the UI can see.
pub struct Table {
    slots: Vec<Slot>,
    master_gain_milli: u32,
    master_peak_milli: u32,
    limiter_gain_milli: u32,
    feedback_shift_milli_hz: u32,
    active_sources: u32,
}

impl View for Table {
    type V = TableView;

    closed spec fn view(&self) -> TableView {
        TableView {
            slots: Seq::new(self.slots@.len(), |i: int| self.slots@[i].view()),
            master_gain_milli: self.master_gain_milli,
            master_peak_milli: self.master_peak_milli,
            limiter_gain_milli: self.limiter_gain_milli,
            feedback_shift_milli_hz: self.feedback_shift_milli_hz,
            active_sources: self.active_sources,
        }
    }
}

impl Table {
    /// Every slot's buffer is sound.
    pub closed spec fn buffers_wf(&self) -> bool {
        forall|i: int| 0 <= i < self.slots@.len() ==> (#[trigger] self.slots@[i]).jitter.wf()
    }

    pub open spec fn wf(&self) -> bool {
        &&& self@.wf()
        &&& self.buffers_wf()
    }

    fn new(target_frames: usize) -> (r: Table)
        requires
            JitterShared::fits(target_frames),
        ensures
            r.wf(),
            r@ == TableView::fresh(target_frames as nat),
    {
        let mut slots: Vec<Slot> = Vec::new();
        let mut i: usize = 0;
        while i < MAX_SOURCES
            invariant
                i <= MAX_SOURCES,
                JitterShared::fits(target_frames),
                slots@.len() == i,
                forall|k: int|
                    0 <= k < i ==> {
                        &&& (#[trigger] slots@[k]).jitter.wf()
                        &&& slots@[k].view() == SlotView::fresh(target_frames as nat)
                    },
            decreases MAX_SOURCES - i,
        {
            slots.push(Slot::new(target_frames));
            i = i + 1;
        }
        let r = Table {
            slots,
            master_gain_milli: METER_FULL_SCALE,
            master_peak_milli: 0,
            limiter_gain_milli: METER_FULL_SCALE,
            feedback_shift_milli_hz: DEFAULT_FEEDBACK_SHIFT_HZ * 1000,
            active_sources: 0,
        };
        assert(r@.slots =~= TableView::fresh(target_frames as nat).slots);
        assert forall|k: int| 0 <= k < r@.slots.len() implies (#[trigger] r@.slots[k]).jitter.wf()
        by {
            assert(r.slots@[k].jitter.wf());
        }
        r
    }

    /// Gains arrive from the UI across a language boundary, so they are clamped
    /// here rather than trusted.
    fn clamp_gain(gain_milli: u32) -> (r: u32)
        ensures
            r == clamped_gain(gain_milli),
    {
        if gain_milli < METER_CEILING {
            gain_milli
        } else {
            METER_CEILING
        }
    }

    /// Sets the master gain, in milli-units; 1000 is unity.
    pub fn set_master_gain(&mut self, gain_milli: u32)
        requires
            old(self).wf(),
        ensures
            final(self).wf(),
            final(self)@ == (TableView {
                master_gain_milli: clamped_gain(gain_milli),
                ..old(self)@
            }),
    {
        self.master_gain_milli = Self::clamp_gain(gain_milli);
        assert(self@.slots =~= old(self)@.slots);
    }

    /// Sets one source's gain, in milli-units; 1000 is unity.
    pub fn set_source_gain(&mut self, ssrc: u32, gain_milli: u32)
        requires
            old(self).wf(),
        ensures
            final(self).wf(),
            final(self)@ == old(self)@.after_source_gain(ssrc, gain_milli),
    {
        let g: u32 = Self::clamp_gain(gain_milli);
        let mut i: usize = 0;
        while i < self.slots.len()
            invariant
                i <= self.slots@.len(),
                g == clamped_gain(gain_milli),
                self.buffers_wf(),
                self@ == (TableView { slots: self@.slots, ..old(self)@ }),
                self@.slots.len() == old(self)@.slots.len(),
                forall|k: int|
                    0 <= k < self@.slots.len() ==> #[trigger] self@.slots[k] == if k < i {
                        old(self)@.after_source_gain(ssrc, gain_milli).slots[k]
                    } else {
                        old(self)@.slots[k]
                    },
            decreases self.slots@.len() - i,
        {
            let ghost before = self@.slots;
            assert(self.slots@[i as int].view() == before[i as int]);
            if self.slots[i].is(ssrc) {
                self.slots[i].gain_milli = g;
            }
            assert(self@.slots =~= before.update(i as int, self.slots@[i as int].view()));
            i = i + 1;
        }
        assert(self@.slots =~= old(self)@.after_source_gain(ssrc, gain_milli).slots);
    }

    pub fn set_source_muted(&mut self, ssrc: u32, muted: bool)
        requires
            old(self).wf(),
        ensures
            final(self).wf(),
            final(self)@ == old(self)@.after_source_muted(ssrc, muted),
    {
        let mut i: usize = 0;
        while i < self.slots.len()
            invariant
                i <= self.slots@.len(),
                self.buffers_wf(),
                self@ == (TableView { slots: self@.slots, ..old(self)@ }),
                self@.slots.len() == old(self)@.slots.len(),
                forall|k: int|
                    0 <= k < self@.slots.len() ==> #[trigger] self@.slots[k] == if k < i {
                        old(self)@.after_source_muted(ssrc, muted).slots[k]
                    } else {
                        old(self)@.slots[k]
                    },
            decreases self.slots@.len() - i,
        {
            let ghost before = self@.slots;
            assert(self.slots@[i as int].view() == before[i as int]);
            if self.slots[i].is(ssrc) {
                self.slots[i].muted = muted;
            }
            assert(self@.slots =~= before.update(i as int, self.slots@[i as int].view()));
            i = i + 1;
        }
        assert(self@.slots =~= old(self)@.after_source_muted(ssrc, muted).slots);
    }

    /// Sets how far the mix is shifted, in thousandths of a hertz; zero switches the
    /// shift off.
    pub fn set_feedback_shift(&mut self, milli_hz: u32)
        requires
            old(self).wf(),
        ensures
            final(self).wf(),
            final(self)@ == (TableView {
                feedback_shift_milli_hz: if milli_hz < MAX_FEEDBACK_SHIFT_HZ * 1000 {
                    milli_hz
                } else {
                    (MAX_FEEDBACK_SHIFT_HZ * 1000) as u32
                },
                ..old(self)@
            }),
    {
        self.feedback_shift_milli_hz = if milli_hz < MAX_FEEDBACK_SHIFT_HZ * 1000 {
            milli_hz
        } else {
            MAX_FEEDBACK_SHIFT_HZ * 1000
        };
        assert(self@.slots =~= old(self)@.slots);
    }

    pub fn feedback_shift(&self) -> (r: u32)
        ensures
            r == self@.feedback_shift_milli_hz,
    {
        self.feedback_shift_milli_hz
    }

    pub fn master_gain(&self) -> (r: u32)
        ensures
            r == self@.master_gain_milli,
    {
        self.master_gain_milli
    }

    pub fn master_peak(&self) -> (r: u32)
        ensures
            r == self@.master_peak_milli,
    {
        self.master_peak_milli
    }

    pub fn limiter_gain(&self) -> (r: u32)
        ensures
            r == self@.limiter_gain_milli,
    {
        self.limiter_gain_milli
    }

    pub fn active_sources(&self) -> (r: u32)
        ensures
            r == self@.active_sources,
    {
        self.active_sources
    }

    /// Whether every buffer can take a packet.
    pub fn has_headroom(&self) -> (r: bool)
        ensures
            r == self@.has_headroom(),
    {
        let mut i: usize = 0;
        while i < self.slots.len()
            invariant
                i <= self.slots@.len(),
                forall|k: int| 0 <= k < i ==> (#[trigger] self@.slots[k]).jitter.has_headroom(),
            decreases self.slots@.len() - i,
        {
            assert(self@.slots[i as int] == self.slots@[i as int].view());
            if !self.slots[i].jitter.has_headroom() {
                return false;
            }
            i = i + 1;
        }
        true
    }

    /// One entry per active source, for the UI to poll.
    pub fn snapshot(&self, now_ms: i64, out: &mut Vec<SourceSnapshot>)
        requires
            self.wf(),
        ensures
            final(out)@ == self@.active_slots().map_values(
                |s: SlotView| s.snapshot(now_ms as int),
            ),
    {
        out.clear();
        let ghost used = |s: SlotView| s.active;
        let ghost shown = |s: SlotView| s.snapshot(now_ms as int);
        let mut i: usize = 0;
        reveal(Seq::filter);
        assert(self@.slots.take(0).filter(used) =~= Seq::empty());
        assert(out@ =~= self@.slots.take(0).filter(used).map_values(shown));
        while i < self.slots.len()
            invariant
                i <= self.slots@.len(),
                self.wf(),
                used == (|s: SlotView| s.active),
                shown == (|s: SlotView| s.snapshot(now_ms as int)),
                out@ == self@.slots.take(i as int).filter(used).map_values(shown),
            decreases self.slots@.len() - i,
        {
            let ghost upto = self@.slots.take(i + 1);
            reveal(Seq::filter);
            assert(upto.drop_last() =~= self@.slots.take(i as int));
            assert(upto.last() == self.slots@[i as int].view());
            let slot = &self.slots[i];
            if slot.active {
                let js = slot.jitter.stats();
                let age: i128 = now_ms as i128 - slot.last_seen_ms as i128;
                out.push(
                    SourceSnapshot {
                        ssrc: slot.ssrc,
                        peak_milli: slot.peak_milli,
                        buffer_frames: js.fill_frames,
                        packets: js.packets,
                        lost: js.lost,
                        underruns: js.underruns,
                        age_ms: if age < 0 {
                            0
                        } else if age > u32::MAX as i128 {
                            u32::MAX
                        } else {
                            age as u32
                        },
                        muted: slot.muted,
                        gain_milli: slot.gain_milli,
                    },
                );
                assert(upto.filter(used) == upto.drop_last().filter(used).push(upto.last()));
                assert(out@ =~= upto.filter(used).map_values(shown));
            }
            i = i + 1;
        }
        assert(self@.slots.take(i as int) =~= self@.slots);
    }

    /// Publishes the level at which one source went into the last block.
    pub fn publish_source_peak(&mut self, slot: usize, level_milli: u32)
        requires
            old(self).wf(),
            slot < MAX_SOURCES,
        ensures
            final(self).wf(),
            final(self)@ == (TableView {
                slots: old(self)@.slots.update(
                    slot as int,
                    SlotView {
                        peak_milli: next_peak(
                            old(self)@.slots[slot as int].peak_milli,
                            level_milli,
                        ),
                        ..old(self)@.slots[slot as int]
                    },
                ),
                ..old(self)@
            }),
    {
        let ghost was = self.slots@[slot as int].view();
        let mut peak: u32 = self.slots[slot].peak_milli;
        update_peak_meter(&mut peak, level_milli);
        self.slots[slot].peak_milli = peak;
        assert(was == old(self)@.slots[slot as int]);
        assert(self@.slots =~= old(self)@.slots.update(
            slot as int,
            SlotView { peak_milli: peak, ..was },
        ));
    }

    /// Publishes the level of the finished bus and what the limiter did to it.
    pub fn publish_master(&mut self, level_milli: u32, limiter_gain_milli: u32)
        requires
            old(self).wf(),
        ensures
            final(self).wf(),
            final(self)@ == (TableView {
                master_peak_milli: next_peak(old(self)@.master_peak_milli, level_milli),
                limiter_gain_milli,
                ..old(self)@
            }),
    {
        self.limiter_gain_milli = limiter_gain_milli;
        let mut peak: u32 = self.master_peak_milli;
        update_peak_meter(&mut peak, level_milli);
        self.master_peak_milli = peak;
        assert(self@.slots =~= old(self)@.slots);
    }
}

/// Every write half has seen every write to its buffer in `table`.
pub open spec fn writers_bound(writers: Seq<WriterView>, table: TableView) -> bool {
    &&& writers.len() == table.slots.len()
    &&& forall|i: int|
        0 <= i < writers.len() ==> (#[trigger] writers[i]).written == table.slots[i].jitter.written
}

/// Every read half has made every read from its buffer in `table`.
pub open spec fn readers_bound(cursors: Seq<nat>, table: TableView) -> bool {
    &&& cursors.len() == table.slots.len()
    &&& forall|i: int|
        0 <= i < cursors.len() ==> #[trigger] cursors[i] == table.slots[i].jitter.read
}

/// Network-side half: claims slots and writes packets into them.
pub struct SourceWriter {
    writers: Vec<JitterWriter>,
}

impl SourceWriter {
    /// What each slot's writer remembers of its sender.
    pub closed spec fn view(&self) -> Seq<WriterView> {
        Seq::new(self.writers@.len(), |i: int| self.writers@[i]@)
    }

    /// The write halves belong to `table`.
    pub open spec fn bound_to(&self, table: TableView) -> bool {
        writers_bound(self.view(), table)
    }

    /// The slot this source's packets belong in, claiming a free one if the
    /// source is new. `None` when all eight are taken.
    pub fn acquire(&mut self, table: &mut Table, ssrc: u32, now_ms: i64) -> (r: Option<usize>)
        requires
            old(table).wf(),
            old(self).bound_to(old(table)@),
        ensures
            final(table).wf(),
            final(self).bound_to(final(table)@),
            final(table)@ == old(table)@.after_acquire(ssrc, now_ms as int),
            match r {
                Some(i) => i < MAX_SOURCES && old(table)@.seat(ssrc) == Some(i as int),
                None => old(table)@.seat(ssrc) is None,
            },
            forall|c: Seq<nat>|
                readers_bound(c, old(table)@) ==> #[trigger] readers_bound(c, final(table)@),
            final(self).view() == match old(table)@.slot_of(ssrc) {
                Some(_) => old(self).view(),
                None => match old(table)@.free_slot() {
                    Some(i) => old(self).view().update(
                        i,
                        WriterView::fresh(old(table)@.slots[i].jitter.written),
                    ),
                    None => old(self).view(),
                },
            },
    {
        let ghost holds = |s: SlotView| s.is(ssrc);
        let ghost free = |s: SlotView| !s.active;
        let mut i: usize = 0;
        while i < table.slots.len()
            invariant
                i <= table.slots@.len(),
                *table == *old(table),
                *self == *old(self),
                table.wf(),
                self.bound_to(table@),
                holds == (|s: SlotView| s.is(ssrc)),
                table@.slot_of(ssrc) == first_slot(table@.slots, holds, i as int),
                forall|k: int| 0 <= k < i ==> !(#[trigger] table@.slots[k]).is(ssrc),
            decreases table.slots@.len() - i,
        {
            assert(table@.slots[i as int] == table.slots@[i as int].view());
            if table.slots[i].is(ssrc) {
                table.slots[i].last_seen_ms = now_ms;
                assert(table@.slots =~= old(table)@.after_acquire(ssrc, now_ms as int).slots);
                return Some(i);
            }
            i = i + 1;
        }
        i = 0;
        while i < table.slots.len()
            invariant
                i <= table.slots@.len(),
                *table == *old(table),
                *self == *old(self),
                table.wf(),
                self.bound_to(table@),
                free == (|s: SlotView| !s.active),
                table@.slot_of(ssrc) is None,
                table@.free_slot() == first_slot(table@.slots, free, i as int),
                forall|k: int| 0 <= k < table@.slots.len() ==> !(#[trigger] table@.slots[k]).is(ssrc),
            decreases table.slots@.len() - i,
        {
            let ghost was = table.slots@[i as int].view();
            assert(table@.slots[i as int] == was);
            assert(self.view()[i as int] == self.writers@[i as int]@);
            if !table.slots[i].active {
                let slot = &mut table.slots[i];
                self.writers[i].reset(&mut slot.jitter);
                slot.ssrc = ssrc;
                slot.peak_milli = 0;
                slot.muted = false;
                slot.gain_milli = METER_FULL_SCALE;
                slot.last_seen_ms = now_ms;
                slot.active = true;
                assert(table@.slots =~= old(table)@.after_acquire(ssrc, now_ms as int).slots);
                assert(self.view() =~= old(self).view().update(
                    i as int,
                    WriterView::fresh(was.jitter.written),
                ));
                return Some(i);
            }
            i = i + 1;
        }
        assert(table@ == old(table)@.after_acquire(ssrc, now_ms as int));
        None
    }

    /// Takes one packet into the buffer of `slot`.
    pub fn on_packet(
        &mut self,
        table: &mut Table,
        slot: usize,
        seq: u32,
        timestamp: u32,
        pcm: Option<&[i16]>,
        frames: usize,
        muted: bool,
    )
        requires
            old(table).wf(),
            old(self).bound_to(old(table)@),
            slot < MAX_SOURCES,
            old(table)@.slots[slot as int].jitter.has_headroom(),
        ensures
            final(table).wf(),
            final(self).bound_to(final(table)@),
            final(table)@ == old(table)@.after_packet(
                slot as int,
                old(self).view()[slot as int],
                seq,
                timestamp,
                match pcm {
                    Some(p) => Some(p@),
                    None => None,
                },
                frames as nat,
                muted,
            ),
            final(self).view() == old(self).view().update(
                slot as int,
                old(table)@.slots[slot as int].jitter.writer_after(
                    old(self).view()[slot as int],
                    seq,
                    timestamp,
                    frames as nat,
                ),
            ),
            forall|c: Seq<nat>|
                readers_bound(c, old(table)@) ==> #[trigger] readers_bound(c, final(table)@),
    {
        let ghost was = table.slots@[slot as int].view();
        let ghost w = self.writers@[slot as int]@;
        assert(table@.slots[slot as int] == was);
        assert(self.view()[slot as int] == w);
        let s = &mut table.slots[slot];
        self.writers[slot].on_packet(&mut s.jitter, seq, timestamp, pcm, frames, muted);
        let ghost now = table.slots@[slot as int].view();
        assert(table@.slots =~= old(table)@.slots.update(slot as int, now));
        assert(self.view() =~= old(self).view().update(
            slot as int,
            self.writers@[slot as int]@,
        ));
    }

    pub fn retire(&mut self, table: &mut Table, ssrc: u32)
        requires
            old(table).wf(),
            old(self).bound_to(old(table)@),
        ensures
            final(table).wf(),
            final(self).bound_to(final(table)@),
            final(table)@ == old(table)@.after_retire(ssrc),
            final(self).view() == old(self).view(),
            forall|c: Seq<nat>|
                readers_bound(c, old(table)@) ==> #[trigger] readers_bound(c, final(table)@),
    {
        let mut i: usize = 0;
        while i < table.slots.len()
            invariant
                i <= table.slots@.len(),
                table.buffers_wf(),
                table@ == (TableView { slots: table@.slots, ..old(table)@ }),
                table@.slots.len() == old(table)@.slots.len(),
                forall|k: int|
                    0 <= k < table@.slots.len() ==> #[trigger] table@.slots[k] == if k < i {
                        old(table)@.after_retire(ssrc).slots[k]
                    } else {
                        old(table)@.slots[k]
                    },
            decreases table.slots@.len() - i,
        {
            let ghost before = table@.slots;
            assert(table.slots@[i as int].view() == before[i as int]);
            if table.slots[i].is(ssrc) {
                table.slots[i].active = false;
            }
            assert(table@.slots =~= before.update(i as int, table.slots@[i as int].view()));
            i = i + 1;
        }
        assert(table@.slots =~= old(table)@.after_retire(ssrc).slots);
    }

    /// Drops sources that have gone quiet. A microphone that leaves without a
    /// BYE - out of range, battery flat - is retired this way.
    pub fn reap_stale(&mut self, table: &mut Table, now_ms: i64, timeout_ms: i64)
        requires
            old(table).wf(),
            old(self).bound_to(old(table)@),
        ensures
            final(table).wf(),
            final(self).bound_to(final(table)@),
            final(table)@ == old(table)@.after_reap(now_ms as int, timeout_ms as int),
            final(self).view() == old(self).view(),
            forall|c: Seq<nat>|
                readers_bound(c, old(table)@) ==> #[trigger] readers_bound(c, final(table)@),
    {
        let mut i: usize = 0;
        while i < table.slots.len()
            invariant
                i <= table.slots@.len(),
                table.buffers_wf(),
                table@ == (TableView { slots: table@.slots, ..old(table)@ }),
                table@.slots.len() == old(table)@.slots.len(),
                forall|k: int|
                    0 <= k < table@.slots.len() ==> #[trigger] table@.slots[k] == if k < i {
                        old(table)@.after_reap(now_ms as int, timeout_ms as int).slots[k]
                    } else {
                        old(table)@.slots[k]
                    },
            decreases table.slots@.len() - i,
        {
            let ghost before = table@.slots;
            assert(table.slots@[i as int].view() == before[i as int]);
            if table.slots[i].active {
                let quiet: i128 = now_ms as i128 - table.slots[i].last_seen_ms as i128;
                if quiet > timeout_ms as i128 {
                    table.slots[i].active = false;
                }
            }
            assert(table@.slots =~= before.update(i as int, table.slots@[i as int].view()));
            i = i + 1;
        }
        assert(table@.slots =~= old(table)@.after_reap(now_ms as int, timeout_ms as int).slots);
    }
}

/// One source's share of a block.
struct SourceBlock {
    active: bool,
    gain_milli: u32,
    pcm: Vec<i16>,
}

impl SourceBlock {
    spec fn view(&self) -> Option<(Seq<i16>, u32)> {
        if self.active {
            Some((self.pcm@, self.gain_milli))
        } else {
            None
        }
    }
}

/// Audio-side half: reads a block from every active source.
pub struct Mixer {
    readers: Vec<JitterReader>,
    blocks: Vec<SourceBlock>,
}

impl Mixer {
    /// What each slot contributed to the last block, with its gain.
    pub closed spec fn view(&self) -> Seq<Option<(Seq<i16>, u32)>> {
        Seq::new(self.blocks@.len(), |i: int| self.blocks@[i].view())
    }

    /// Where each slot's reader has got to.
    pub closed spec fn cursors(&self) -> Seq<nat> {
        Seq::new(self.readers@.len(), |i: int| self.readers@[i]@)
    }

    /// Every read half has made every read from its buffer in `table`.
    pub open spec fn bound_to(&self, table: TableView) -> bool {
        &&& self.view().len() == table.slots.len()
        &&& readers_bound(self.cursors(), table)
    }

    /// One audio-callback pass over the sources. Returns the length of the block,
    /// which is shorter than `frames` only if asked for more than
    /// [`MAX_CALLBACK_FRAMES`] - the caller pads with silence rather than having
    /// this allocate. What each source contributed is read with [`Mixer::source`].
    pub fn render(&mut self, table: &mut Table, frames: usize) -> (n: usize)
        requires
            old(table).wf(),
            old(self).bound_to(old(table)@),
        ensures
            final(table).wf(),
            final(self).bound_to(final(table)@),
            n == least(frames as int, MAX_CALLBACK_FRAMES as int),
            final(table)@ == old(table)@.after_render(n as nat),
            final(self).view() == old(table)@.slots.map_values(|s: SlotView| s.block(n as nat)),
            forall|i: int|
                0 <= i < old(table)@.slots.len() ==> #[trigger] final(self).view()[i] == if old(
                    table,
                )@.slots[i].active {
                    Some(
                        (
                            old(table)@.slots[i].jitter.heard(n as nat),
                            if old(table)@.slots[i].muted {
                                0
                            } else {
                                old(table)@.slots[i].gain_milli
                            },
                        ),
                    )
                } else {
                    None
                },
            forall|w: Seq<WriterView>|
                writers_bound(w, old(table)@) ==> #[trigger] writers_bound(w, final(table)@),
    {
        let n: usize = if frames < MAX_CALLBACK_FRAMES {
            frames
        } else {
            MAX_CALLBACK_FRAMES
        };
        let ghost used = |s: SlotView| s.active;
        let ghost slots = table@.slots;
        let mut active: u32 = 0;
        let mut i: usize = 0;
        reveal(Seq::filter);
        assert(slots.take(0).filter(used) =~= Seq::empty());
        while i < table.slots.len()
            invariant
                i <= table.slots@.len(),
                table.slots@.len() == MAX_SOURCES,
                table.buffers_wf(),
                self.bound_to(table@),
                old(table).wf(),
                slots == old(table)@.slots,
                used == (|s: SlotView| s.active),
                table@ == (TableView { slots: table@.slots, ..old(table)@ }),
                table@.slots.len() == slots.len(),
                active <= i,
                active == slots.take(i as int).filter(used).len(),
                forall|k: int|
                    0 <= k < slots.len() ==> #[trigger] table@.slots[k] == if k < i {
                        slots[k].after_read(n as nat)
                    } else {
                        slots[k]
                    },
                forall|k: int|
                    0 <= k < i ==> #[trigger] self.view()[k] == slots[k].block(n as nat),
            decreases table.slots@.len() - i,
        {
            let ghost before = table@.slots;
            let ghost cursors = self.cursors();
            let ghost blocks = self.view();
            reveal(Seq::filter);
            assert(slots.take(i + 1).drop_last() =~= slots.take(i as int));
            assert(slots.take(i + 1).last() == slots[i as int]);
            assert(table.slots@[i as int].view() == before[i as int]);
            assert(self.cursors()[i as int] == self.readers@[i as int]@);
            let slot = &mut table.slots[i];
            let block = &mut self.blocks[i];
            block.active = slot.active;
            if slot.active {
                active = active + 1;
                // A muted source is still drained, so it does not build a backlog
                // that plays out when it is unmuted.
                block.gain_milli = if slot.muted {
                    0
                } else {
                    slot.gain_milli
                };
                block.pcm.resize(n, 0);
                self.readers[i].read(&mut slot.jitter, block.pcm.as_mut_slice());
            }
            assert(table@.slots =~= before.update(i as int, table.slots@[i as int].view()));
            assert(self.cursors() =~= cursors.update(i as int, self.readers@[i as int]@));
            assert(self.view() =~= blocks.update(i as int, self.blocks@[i as int].view()));
            i = i + 1;
        }
        assert(slots.take(i as int) =~= slots);
        table.active_sources = active;
        assert(table@.slots =~= old(table)@.after_render(n as nat).slots);
        assert(self.view() =~= slots.map_values(|s: SlotView| s.block(n as nat)));
        n
    }

    /// What a slot contributed to the last block, and the gain (milli-units) it goes
    /// into the mix with; `None` for a slot nobody held.
    pub fn source(&self, slot: usize) -> (r: Option<(&[i16], u32)>)
        requires
            slot < self.view().len(),
        ensures
            match r {
                Some((pcm, gain)) => self.view()[slot as int] == Some((pcm@, gain)),
                None => self.view()[slot as int] is None,
            },
    {
        let block = &self.blocks[slot];
        if block.active {
            Some((block.pcm.as_slice(), block.gain_milli))
        } else {
            None
        }
    }
}

/// Builds a table and its two halves. Every ring is allocated here, once:
/// claiming a slot later reuses one rather than making a new one, which is why
/// [`JitterWriter::reset`] exists.
pub fn build(target_frames: usize) -> (r: (Table, SourceWriter, Mixer))
    requires
        JitterShared::fits(target_frames),
    ensures
        r.0.wf(),
        r.1.bound_to(r.0@),
        r.2.bound_to(r.0@),
        r.0@ == TableView::fresh(target_frames as nat),
        r.1.view() == Seq::new(MAX_SOURCES as nat, |i: int| WriterView::fresh(0)),
        r.2.view() == Seq::new(MAX_SOURCES as nat, |i: int| None::<(Seq<i16>, u32)>),
{
    let table = Table::new(target_frames);
    let mut writers: Vec<JitterWriter> = Vec::new();
    let mut readers: Vec<JitterReader> = Vec::new();
    let mut blocks: Vec<SourceBlock> = Vec::new();
    let mut i: usize = 0;
    while i < MAX_SOURCES
        invariant
            i <= MAX_SOURCES,
            table.wf(),
            table@ == TableView::fresh(target_frames as nat),
            writers@.len() == i,
            readers@.len() == i,
            blocks@.len() == i,
            forall|k: int| 0 <= k < i ==> (#[trigger] writers@[k])@ == WriterView::fresh(0),
            forall|k: int| 0 <= k < i ==> (#[trigger] readers@[k])@ == 0,
            forall|k: int| 0 <= k < i ==> (#[trigger] blocks@[k]).view() is None,
        decreases MAX_SOURCES - i,
    {
        assert(table@.slots[i as int] == table.slots@[i as int].view());
        let (w, r) = pair(&table.slots[i].jitter);
        writers.push(w);
        readers.push(r);
        let pcm: Vec<i16> = Vec::with_capacity(MAX_CALLBACK_FRAMES);
        blocks.push(SourceBlock { active: false, gain_milli: 0, pcm });
        i = i + 1;
    }
    let writer = SourceWriter { writers };
    let mixer = Mixer { readers, blocks };
    assert(writer.view() =~= Seq::new(MAX_SOURCES as nat, |i: int| WriterView::fresh(0)));
    assert(mixer.view() =~= Seq::new(MAX_SOURCES as nat, |i: int| None::<(Seq<i16>, u32)>));
    (table, writer, mixer)
}

/// Sources by rising ssrc.
pub open spec fn is_in_order(sources: Seq<SourceSnapshot>) -> bool {
    forall|i: int, j: int|
        0 <= i <= j < sources.len() ==> (#[trigger] sources[i]).ssrc <= (#[trigger] sources[j]).ssrc
}

/// The sources with one ssrc.
pub open spec fn with_ssrc(sources: Seq<SourceSnapshot>, ssrc: u32) -> Seq<SourceSnapshot> {
    sources.filter(|s: SourceSnapshot| s.ssrc == ssrc)
}

/// Sources with the same ssrc stand in the same order in both.
pub open spec fn keeps_equals_in_order(a: Seq<SourceSnapshot>, b: Seq<SourceSnapshot>) -> bool {
    forall|ssrc: u32| #[trigger] with_ssrc(a, ssrc) == with_ssrc(b, ssrc)
}

/// Moving a source forward past others with another ssrc keeps those with the same
/// ssrc in order.
proof fn lemma_moving_forward_keeps_equals(before: Seq<SourceSnapshot>, n: int, at: int)
    requires
        0 <= at <= n < before.len(),
        forall|k: int| at <= k < n ==> (#[trigger] before[k]).ssrc != before[n].ssrc,
    ensures
        keeps_equals_in_order(before, before.remove(n).insert(at, before[n])),
{
    let head = before.take(at);
    let mid = before.subrange(at, n);
    let one = seq![before[n]];
    let rest = before.skip(n + 1);
    let after = before.remove(n).insert(at, before[n]);
    assert(before =~= head + mid + one + rest);
    assert(after =~= head + one + mid + rest);
    assert forall|ssrc: u32| #[trigger] with_ssrc(before, ssrc) == with_ssrc(after, ssrc) by {
        let same = |s: SourceSnapshot| s.ssrc == ssrc;
        Seq::filter_distributes_over_add(head, mid, same);
        Seq::filter_distributes_over_add(head + mid, one, same);
        Seq::filter_distributes_over_add(head + mid + one, rest, same);
        Seq::filter_distributes_over_add(head, one, same);
        Seq::filter_distributes_over_add(head + one, mid, same);
        Seq::filter_distributes_over_add(head + one + mid, rest, same);
        if ssrc == before[n].ssrc {
            assert forall|k: int| 0 <= k < mid.len() implies !same(#[trigger] mid[k]) by {
                assert(mid[k] == before[at + k]);
            }
            lemma_none_left(mid, same);
        } else {
            lemma_none_left(one, same);
        }
        assert(mid.filter(same) + one.filter(same) =~= one.filter(same) + mid.filter(same));
        assert(with_ssrc(before, ssrc) =~= head.filter(same) + (mid.filter(same) + one.filter(same))
            + rest.filter(same));
        assert(with_ssrc(after, ssrc) =~= head.filter(same) + (one.filter(same) + mid.filter(same))
            + rest.filter(same));
    }
}

/// Nothing is left of a sequence without what is looked for.
proof fn lemma_none_left(s: Seq<SourceSnapshot>, f: spec_fn(SourceSnapshot) -> bool)
    requires
        forall|k: int| 0 <= k < s.len() ==> !f(#[trigger] s[k]),
    ensures
        s.filter(f) == Seq::<SourceSnapshot>::empty(),
    decreases s.len(),
{
    reveal(Seq::filter);
    if s.len() > 0 {
        lemma_none_left(s.drop_last(), f);
    }
}

/// Puts sources in the order they are shown in: one strip per source, by rising ssrc.
pub fn sort_sources(sources: &mut Vec<SourceSnapshot>)
    ensures
        is_in_order(final(sources)@),
        final(sources)@.to_multiset() == old(sources)@.to_multiset(),
        keeps_equals_in_order(old(sources)@, final(sources)@),
{
    let mut n: usize = 0;
    while n < sources.len()
        invariant
            n <= sources@.len(),
            is_in_order(sources@.take(n as int)),
            sources@.to_multiset() == old(sources)@.to_multiset(),
            keeps_equals_in_order(old(sources)@, sources@),
        decreases sources@.len() - n,
    {
        let s = sources[n];
        let ghost before = sources@;
        let mut at: usize = 0;
        while at < n && sources[at].ssrc <= s.ssrc
            invariant
                at <= n < sources@.len(),
                sources@ == before,
                forall|k: int| 0 <= k < at ==> (#[trigger] before[k]).ssrc <= s.ssrc,
            decreases n - at,
        {
            at = at + 1;
        }
        let moved = sources.remove(n);
        sources.insert(at, moved);
        proof {
            let out = before.remove(n as int);
            assert(sources@ == out.insert(at as int, before[n as int]));
            vstd::seq_lib::to_multiset_remove(before, n as int);
            vstd::seq_lib::to_multiset_insert(out, at as int, before[n as int]);
            assert(before.to_multiset().remove(before[n as int]).insert(before[n as int])
                =~= before.to_multiset()) by {
                before.to_multiset_ensures();
            }
            let after = sources@;
            assert forall|k: int| at <= k < n implies (#[trigger] before[k]).ssrc != s.ssrc by {
                let head = before.take(n as int);
                assert(head[at as int].ssrc <= head[k].ssrc);
            }
            lemma_moving_forward_keeps_equals(before, n as int, at as int);
            assert(keeps_equals_in_order(before, after));
            assert(keeps_equals_in_order(old(sources)@, after)) by {
                assert forall|ssrc: u32| #[trigger]
                    with_ssrc(old(sources)@, ssrc) == with_ssrc(after, ssrc) by {
                    assert(with_ssrc(old(sources)@, ssrc) == with_ssrc(before, ssrc));
                    assert(with_ssrc(before, ssrc) == with_ssrc(after, ssrc));
                }
            }
            assert forall|i: int, j: int| 0 <= i <= j < n + 1 implies (#[trigger] after.take(
                n + 1,
            )[i]).ssrc <= (#[trigger] after.take(n + 1)[j]).ssrc by {
                let head = before.take(n as int);
                assert forall|k: int| 0 <= k < n implies #[trigger] before[k] == head[k] by {}
                if at < n {
                    assert(before[at as int] == head[at as int]);
                }
                if i < at {
                    assert(after[i] == head[i]);
                } else if i > at {
                    assert(after[i] == head[i - 1]);
                }
                if j < at {
                    assert(after[j] == head[j]);
                } else if j > at {
                    assert(after[j] == head[j - 1]);
                }
            }
        }
        n = n + 1;
    }
    assert(sources@.take(n as int) =~= sources@);
}

} // verus!
