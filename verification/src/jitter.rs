//! Per-source jitter buffer. Alignment is by packet timestamp, never by
//! arrival time.
//!
//! A [`JitterWriter`] is the network side's half and has no way to read; a
//! [`JitterReader`] is the audio side's half and has no way to write. What both
//! need to see - the ring, the counters, and the "drop everything before here"
//! mark a rejoining source leaves behind - lives in [`JitterShared`].
use vstd::prelude::*;
use vstd::slice::slice_subrange;

use crate::ring::SampleRing;
use crate::util::{add32, distance32, low32};

verus! {

use crate::ring::{least, silence};
use crate::util::wrap32;

#[derive(Debug, Default, Clone, Copy, PartialEq, Eq, Structural)]
pub struct JitterStats {
    pub packets: u32,
    /// Gaps in `seq`.
    pub lost: u32,
    /// Arrived after their slot had been written.
    pub late: u32,
    /// Frames of silence inserted for gaps.
    pub concealed: u32,
    /// Reads that found the buffer empty.
    pub underruns: u32,
    /// Times accumulated latency was shed.
    pub trims: u32,
    pub resyncs: u32,
    /// Current playable depth, in frames.
    pub fill_frames: u32,
}

/// The running totals of one session.
#[derive(Debug, Clone, Copy, PartialEq, Eq, Structural)]
pub struct Counters {
    pub packets: u32,
    pub lost: u32,
    pub late: u32,
    pub concealed: u32,
    pub underruns: u32,
    pub trims: u32,
    pub resyncs: u32,
}

impl Counters {
    /// All totals at zero.
    pub open spec fn zero() -> Counters {
        Counters {
            packets: 0,
            lost: 0,
            late: 0,
            concealed: 0,
            underruns: 0,
            trims: 0,
            resyncs: 0,
        }
    }
}

/// Where a packet's audio belongs relative to what has been written already.
pub enum Placement {
    /// The timeline starts over: top up to the target, then the packet.
    Prime,
    /// Behind the write cursor: a duplicate, or reordered. Dropped.
    Late,
    /// This many frames past the write cursor.
    After(nat),
}

/// What a buffer holds and counts.
#[verifier::ext_equal]
pub struct JitterView {
    /// Nominal depth in frames.
    pub target: nat,
    /// Depth above which the reader sheds latency.
    pub max_fill: nat,
    /// Timestamp jump beyond which a sender counts as restarted.
    pub max_gap: nat,
    /// Ring capacity in frames.
    pub capacity: nat,
    /// Frames written over the life of the buffer.
    pub written: nat,
    /// Frames read or dropped over the life of the buffer.
    pub read: nat,
    /// Everything written before this position is stale.
    pub drop_before: nat,
    /// An underrun asked for a re-prime.
    pub resync: bool,
    pub counters: Counters,
    /// The frames from `read` to `written`.
    pub queue: Seq<i16>,
}

/// What the network side remembers of its sender.
pub struct WriterView {
    pub written: nat,
    pub primed: bool,
    pub have_seq: bool,
    pub write_ts: u32,
    pub expected_seq: u32,
}

/// What exactly `frames` frames go in for a packet: its samples, padded with
/// silence where they run short; silence throughout for a muted packet.
pub open spec fn payload(pcm: Option<Seq<i16>>, frames: nat, muted: bool) -> Seq<i16> {
    match pcm {
        Some(p) => if muted {
            silence(frames)
        } else if p.len() >= frames {
            p.take(frames as int)
        } else {
            p + silence((frames - p.len()) as nat)
        },
        None => silence(frames),
    }
}

impl JitterView {
    /// A buffer nothing has been written to.
    pub open spec fn fresh(target_frames: nat) -> JitterView {
        let target = if target_frames < 1 {
            1
        } else {
            target_frames
        };
        JitterView {
            target,
            max_fill: 4 * target,
            max_gap: wrap32(4 * target as int) as nat,
            capacity: if 8 * target < 4096 {
                4096
            } else {
                8 * target
            },
            written: 0,
            read: 0,
            drop_before: 0,
            resync: false,
            counters: Counters::zero(),
            queue: Seq::empty(),
        }
    }

    /// The depths follow from the target, the queue is what lies between the two
    /// cursors, and nothing is marked stale that has not been written.
    pub open spec fn wf(self) -> bool {
        let plain = JitterView::fresh(self.target);
        &&& self.target >= 1
        &&& self.max_fill == plain.max_fill
        &&& self.max_gap == plain.max_gap
        &&& self.capacity == plain.capacity
        &&& self.read <= self.written
        &&& self.queue.len() == self.written - self.read
        &&& self.queue.len() <= self.capacity
        &&& self.drop_before <= self.written
        &&& self.written <= u64::MAX
    }

    /// The write position can move through a whole ring without overflowing.
    pub open spec fn has_headroom(self) -> bool {
        self.written + self.capacity <= u64::MAX
    }

    /// Frames at the front of the queue that a reset left behind.
    pub open spec fn stale(self) -> nat {
        if self.drop_before > self.read {
            (self.drop_before - self.read) as nat
        } else {
            0
        }
    }

    /// Playable depth in frames: what the reader will hand on, which excludes
    /// audio marked stale and not yet dropped.
    pub open spec fn depth(self) -> nat {
        (self.queue.len() - self.stale()) as nat
    }

    /// Frames that still fit.
    pub open spec fn free(self) -> nat {
        (self.capacity - self.queue.len()) as nat
    }

    pub open spec fn stats(self) -> JitterStats {
        JitterStats {
            packets: self.counters.packets,
            lost: self.counters.lost,
            late: self.counters.late,
            concealed: self.counters.concealed,
            underruns: self.counters.underruns,
            trims: self.counters.trims,
            resyncs: self.counters.resyncs,
            fill_frames: wrap32(self.depth() as int) as u32,
        }
    }

    /// Everything written so far is marked stale and the totals start over.
    pub open spec fn after_reset(self) -> JitterView {
        JitterView {
            drop_before: self.written,
            resync: false,
            counters: Counters::zero(),
            ..self
        }
    }

    /// Where a packet with this timestamp belongs.
    pub open spec fn placement(self, w: WriterView, timestamp: u32) -> Placement {
        if !w.primed || self.resync {
            Placement::Prime
        } else {
            let ahead = wrap32(timestamp - w.write_ts);
            if ahead >= 0x8000_0000 {
                Placement::Late
            } else if ahead > self.max_gap {
                Placement::Prime
            } else {
                Placement::After(ahead as nat)
            }
        }
    }

    /// Frames of silence wanted in front of a packet: the distance to the target
    /// when priming, the gap otherwise.
    pub open spec fn wanted(self, w: WriterView, timestamp: u32) -> nat {
        match self.placement(w, timestamp) {
            Placement::Prime => if self.depth() < self.target {
                (self.target - self.depth()) as nat
            } else {
                0
            },
            Placement::Late => 0,
            Placement::After(gap) => gap,
        }
    }

    /// Frames of silence that go in in front of a packet: what is wanted, as far
    /// as it fits.
    pub open spec fn filler(self, w: WriterView, timestamp: u32) -> nat {
        least(self.wanted(w, timestamp) as int, self.free() as int) as nat
    }

    /// Whether a packet's own audio goes in: it is not late, has some, and all of
    /// it fits behind the filler.
    pub open spec fn accepts(self, w: WriterView, timestamp: u32, frames: nat) -> bool {
        &&& !(self.placement(w, timestamp) is Late)
        &&& 0 < frames
        &&& self.filler(w, timestamp) + frames <= self.free()
    }

    /// Packets missing in front of this one.
    pub open spec fn missing(self, w: WriterView, seq: u32) -> int {
        let gap = wrap32(seq - w.expected_seq);
        if w.have_seq && gap < 0x8000_0000 {
            gap
        } else {
            0
        }
    }

    /// The totals after a packet.
    pub open spec fn counted(self, w: WriterView, seq: u32, timestamp: u32) -> Counters {
        let place = self.placement(w, timestamp);
        Counters {
            packets: wrap32(self.counters.packets + 1) as u32,
            lost: wrap32(self.counters.lost + self.missing(w, seq)) as u32,
            late: wrap32(
                self.counters.late + (if place is Late {
                    1int
                } else {
                    0
                }),
            ) as u32,
            concealed: wrap32(
                self.counters.concealed + (if place is After {
                    self.filler(w, timestamp) as int
                } else {
                    0
                }),
            ) as u32,
            resyncs: wrap32(
                self.counters.resyncs + (if place is Prime {
                    1int
                } else {
                    0
                }),
            ) as u32,
            ..self.counters
        }
    }

    /// The buffer after a packet: its filler and, where accepted, its audio behind
    /// what was there.
    pub open spec fn after_packet(
        self,
        w: WriterView,
        seq: u32,
        timestamp: u32,
        pcm: Option<Seq<i16>>,
        frames: nat,
        muted: bool,
    ) -> JitterView {
        let filler = self.filler(w, timestamp);
        let body = if self.accepts(w, timestamp, frames) {
            payload(pcm, frames, muted)
        } else {
            Seq::empty()
        };
        JitterView {
            queue: self.queue + silence(filler) + body,
            written: self.written + filler + body.len(),
            resync: false,
            counters: self.counted(w, seq, timestamp),
            ..self
        }
    }

    /// The writer after a packet. Its timestamp moves past audio that went in and
    /// to the packet that primed, and stays put otherwise.
    pub open spec fn writer_after(
        self,
        w: WriterView,
        seq: u32,
        timestamp: u32,
        frames: nat,
    ) -> WriterView {
        let accepted = self.accepts(w, timestamp, frames);
        WriterView {
            written: self.written + self.filler(w, timestamp) + (if accepted {
                frames
            } else {
                0
            }),
            primed: true,
            have_seq: true,
            write_ts: if accepted {
                wrap32(timestamp + frames) as u32
            } else if self.placement(w, timestamp) is Prime {
                timestamp
            } else {
                w.write_ts
            },
            expected_seq: wrap32(seq + 1) as u32,
        }
    }

    /// Frames dropped ahead of a read: the stale ones, then everything but the
    /// target where what is left runs too deep.
    pub open spec fn shed(self) -> nat {
        if self.depth() > self.max_fill {
            (self.queue.len() - self.target) as nat
        } else {
            self.stale()
        }
    }

    /// Frames a read of `n` finds waiting.
    pub open spec fn found(self, n: nat) -> nat {
        least(n as int, self.queue.len() - self.shed()) as nat
    }

    /// What a read of `n` frames hands on: the oldest audio kept, padded with
    /// silence.
    pub open spec fn heard(self, n: nat) -> Seq<i16> {
        self.queue.subrange(self.shed() as int, (self.shed() + self.found(n)) as int) + silence(
            (n - self.found(n)) as nat,
        )
    }

    /// The buffer after a read of `n` frames.
    pub open spec fn after_read(self, n: nat) -> JitterView {
        let gone = self.shed() + self.found(n);
        let short = self.found(n) < n;
        JitterView {
            queue: self.queue.skip(gone as int),
            read: self.read + gone,
            resync: self.resync || short,
            counters: Counters {
                trims: wrap32(
                    self.counters.trims + (if self.depth() > self.max_fill {
                        1int
                    } else {
                        0
                    }),
                ) as u32,
                underruns: wrap32(
                    self.counters.underruns + (if short {
                        1int
                    } else {
                        0
                    }),
                ) as u32,
                ..self.counters
            },
            ..self
        }
    }
}

impl WriterView {
    /// A writer that has not heard from its sender.
    pub open spec fn fresh(written: nat) -> WriterView {
        WriterView { written, primed: false, have_seq: false, write_ts: 0, expected_seq: 0 }
    }
}

/// Config, counters and audio both halves can see.
pub struct JitterShared {
    target: usize,
    max_fill: usize,
    max_gap: u32,
    capacity: usize,
    /// Absolute frame positions. Monotonic and 64-bit, so a position stays
    /// meaningful for the life of the buffer. `written` is published by the
    /// writer, `read` by the reader, `drop_before` by the writer for the reader
    /// to act on.
    written: u64,
    read: u64,
    drop_before: u64,
    resync: bool,
    counters: Counters,
    ring: SampleRing,
}

impl View for JitterShared {
    type V = JitterView;

    closed spec fn view(&self) -> JitterView {
        JitterView {
            target: self.target as nat,
            max_fill: self.max_fill as nat,
            max_gap: self.max_gap as nat,
            capacity: self.capacity as nat,
            written: self.written as nat,
            read: self.read as nat,
            drop_before: self.drop_before as nat,
            resync: self.resync,
            counters: self.counters,
            queue: self.ring@,
        }
    }
}

impl JitterShared {
    /// The ring is sound and as large as it should be.
    pub closed spec fn ring_wf(&self) -> bool {
        &&& self.ring.wf()
        &&& self.ring.limit() == self.capacity
    }

    pub open spec fn wf(&self) -> bool {
        &&& self@.wf()
        &&& self.ring_wf()
    }

    /// A buffer of this nominal depth whose ring fits in memory.
    pub open spec fn fits(target_frames: usize) -> bool {
        2 * JitterView::fresh(target_frames as nat).capacity <= isize::MAX
    }

    pub fn new(target_frames: usize) -> (r: JitterShared)
        requires
            JitterShared::fits(target_frames),
        ensures
            r.wf(),
            r@ == JitterView::fresh(target_frames as nat),
    {
        let target: usize = if target_frames < 1 {
            1
        } else {
            target_frames
        };
        let capacity: usize = if target * 8 < 4096 {
            4096
        } else {
            target * 8
        };
        let r = JitterShared {
            target,
            max_fill: target * 4,
            max_gap: low32(target * 4),
            capacity,
            written: 0,
            read: 0,
            drop_before: 0,
            resync: false,
            counters: Counters {
                packets: 0,
                lost: 0,
                late: 0,
                concealed: 0,
                underruns: 0,
                trims: 0,
                resyncs: 0,
            },
            ring: SampleRing::new(capacity),
        };
        assert(r@ =~= JitterView::fresh(target_frames as nat));
        r
    }

    pub fn target(&self) -> (r: usize)
        ensures
            r == self@.target,
    {
        self.target
    }

    pub fn capacity(&self) -> (r: usize)
        ensures
            r == self@.capacity,
    {
        self.capacity
    }

    /// Playable depth in frames: what the reader will hand to the mixer, which
    /// excludes audio already marked stale and not yet dropped.
    pub fn fill(&self) -> (r: usize)
        requires
            self.wf(),
        ensures
            r == self@.depth(),
    {
        let base: u64 = if self.read < self.drop_before {
            self.drop_before
        } else {
            self.read
        };
        self.written.saturating_sub(base) as usize
    }

    /// Whether the write position has room for another whole ring.
    pub fn has_headroom(&self) -> (r: bool)
        ensures
            r == self@.has_headroom(),
    {
        self.written <= u64::MAX - self.capacity as u64
    }

    pub fn stats(&self) -> (r: JitterStats)
        requires
            self.wf(),
        ensures
            r == self@.stats(),
    {
        JitterStats {
            packets: self.counters.packets,
            lost: self.counters.lost,
            late: self.counters.late,
            concealed: self.counters.concealed,
            underruns: self.counters.underruns,
            trims: self.counters.trims,
            resyncs: self.counters.resyncs,
            fill_frames: low32(self.fill()),
        }
    }

    fn clear_counters(&mut self)
        requires
            old(self).wf(),
        ensures
            final(self).wf(),
            final(self)@ == (JitterView { counters: Counters::zero(), ..old(self)@ }),
    {
        self.counters = Counters {
            packets: 0,
            lost: 0,
            late: 0,
            concealed: 0,
            underruns: 0,
            trims: 0,
            resyncs: 0,
        };
    }
}

/// Builds the two halves of one buffer, at the positions `shared` has got to.
pub fn pair(shared: &JitterShared) -> (r: (JitterWriter, JitterReader))
    ensures
        r.0@ == WriterView::fresh(shared@.written),
        r.1@ == shared@.read,
{
    (
        JitterWriter {
            written: shared.written,
            primed: false,
            have_seq: false,
            write_ts: 0,
            expected_seq: 0,
        },
        JitterReader { read: shared.read },
    )
}

/// Network-side half.
pub struct JitterWriter {
    /// Mirror of the shared write position, owned by this half.
    written: u64,
    primed: bool,
    have_seq: bool,
    write_ts: u32,
    expected_seq: u32,
}

impl View for JitterWriter {
    type V = WriterView;

    closed spec fn view(&self) -> WriterView {
        WriterView {
            written: self.written as nat,
            primed: self.primed,
            have_seq: self.have_seq,
            write_ts: self.write_ts,
            expected_seq: self.expected_seq,
        }
    }
}

impl JitterWriter {
    /// This half has seen every write to `shared`.
    pub open spec fn bound_to(&self, shared: &JitterShared) -> bool {
        self@.written == shared@.written
    }

    /// The timestamp the next frame in sequence would carry.
    pub fn write_ts(&self) -> (r: u32)
        ensures
            r == self@.write_ts,
    {
        self.write_ts
    }

    /// Retires whatever the previous occupant of this buffer left behind and
    /// starts a fresh session.
    ///
    /// The ring is not rewound - that would move the reader's cursor out from
    /// under it - the stale audio is marked instead, and the reader drops it on
    /// its next pass.
    pub fn reset(&mut self, shared: &mut JitterShared)
        requires
            old(shared).wf(),
            old(self).bound_to(old(shared)),
        ensures
            final(shared).wf(),
            final(self).bound_to(final(shared)),
            final(shared)@ == old(shared)@.after_reset(),
            final(self)@ == WriterView::fresh(old(shared)@.written),
    {
        shared.drop_before = self.written;
        shared.resync = false;
        shared.clear_counters();
        self.primed = false;
        self.have_seq = false;
        self.write_ts = 0;
        self.expected_seq = 0;
    }

    /// Takes in one packet: `frames` frames that start at `timestamp` on the
    /// sender's timeline. Exactly `frames` go in, or none.
    pub fn on_packet(
        &mut self,
        shared: &mut JitterShared,
        seq: u32,
        timestamp: u32,
        pcm: Option<&[i16]>,
        frames: usize,
        muted: bool,
    )
        requires
            old(shared).wf(),
            old(self).bound_to(old(shared)),
            old(shared)@.has_headroom(),
        ensures
            final(shared).wf(),
            final(self).bound_to(final(shared)),
            final(shared)@ == old(shared)@.after_packet(
                old(self)@,
                seq,
                timestamp,
                match pcm {
                    Some(p) => Some(p@),
                    None => None,
                },
                frames as nat,
                muted,
            ),
            final(self)@ == old(shared)@.writer_after(old(self)@, seq, timestamp, frames as nat),
    {
        let ghost v0 = shared@;
        let ghost w0 = self@;
        shared.counters.packets = add32(shared.counters.packets, 1);

        if self.have_seq {
            let gap: u32 = distance32(seq, self.expected_seq);
            if gap < 0x8000_0000 {
                shared.counters.lost = add32(shared.counters.lost, gap);
            }
        }
        self.expected_seq = add32(seq, 1);
        self.have_seq = true;
        let ghost v1 = shared@;
        let ghost w1 = self@;
        assert(v1 == (JitterView {
            counters: Counters {
                packets: v0.counted(w0, seq, timestamp).packets,
                lost: v0.counted(w0, seq, timestamp).lost,
                ..v0.counters
            },
            ..v0
        }));
        assert(v1.placement(w1, timestamp) == v0.placement(w0, timestamp));
        assert(v1.filler(w1, timestamp) == v0.filler(w0, timestamp));

        let late = self.place(shared, timestamp);
        let ghost v2 = shared@;
        assert(v2.counters == v0.counted(w0, seq, timestamp));
        assert(v2.queue =~= v2.queue + Seq::empty());
        if late {
            return;
        }
        self.append(shared, timestamp, pcm, frames, muted);
    }

    /// Makes room for a packet on the timeline: tops the buffer up or fills the gap
    /// in front of it. Says whether the packet is late, and so has no place.
    fn place(&mut self, shared: &mut JitterShared, timestamp: u32) -> (late: bool)
        requires
            old(shared).wf(),
            old(self).bound_to(old(shared)),
            old(shared)@.has_headroom(),
        ensures
            final(shared).wf(),
            final(self).bound_to(final(shared)),
            ({
                let v = old(shared)@;
                let w = old(self)@;
                let place = v.placement(w, timestamp);
                let n = v.filler(w, timestamp);
                let counted = v.counted(w, 0, timestamp);
                &&& late == (place is Late)
                &&& final(shared)@ == (JitterView {
                    queue: v.queue + silence(n),
                    written: v.written + n,
                    resync: false,
                    counters: Counters {
                        late: counted.late,
                        concealed: counted.concealed,
                        resyncs: counted.resyncs,
                        ..v.counters
                    },
                    ..v
                })
                &&& final(self)@ == (WriterView {
                    written: v.written + n,
                    primed: true,
                    write_ts: if place is Prime {
                        timestamp
                    } else {
                        w.write_ts
                    },
                    ..w
                })
            }),
    {
        assert(shared@.queue + silence(0) =~= shared@.queue);
        if shared.resync {
            shared.resync = false;
            self.primed = false;
        }
        if !self.primed {
            self.prime(shared, timestamp);
            return false;
        }
        let delta: u32 = distance32(timestamp, self.write_ts);
        if delta >= 0x8000_0000 {
            // Duplicate, or reordered behind the write cursor.
            shared.counters.late = add32(shared.counters.late, 1);
            return true;
        }
        if delta > shared.max_gap {
            // Sender restarted, or we were away too long.
            self.prime(shared, timestamp);
        } else if delta > 0 {
            // Only what fits goes in, so only that much is counted.
            let filled: usize = self.push_silence(shared, delta as usize);
            shared.counters.concealed = add32(shared.counters.concealed, low32(filled));
        }
        false
    }

    /// Puts a packet's audio behind what is there, exactly `frames` frames of it or
    /// none.
    #[verifier::spinoff_prover]
    fn append(
        &mut self,
        shared: &mut JitterShared,
        timestamp: u32,
        pcm: Option<&[i16]>,
        frames: usize,
        muted: bool,
    )
        requires
            old(shared).wf(),
            old(self).bound_to(old(shared)),
            old(shared)@.written + old(shared)@.free() <= u64::MAX,
        ensures
            final(shared).wf(),
            final(self).bound_to(final(shared)),
            ({
                let v = old(shared)@;
                let w = old(self)@;
                let fits = 0 < frames <= v.free();
                let body = if fits {
                    payload(
                        match pcm {
                            Some(p) => Some(p@),
                            None => None,
                        },
                        frames as nat,
                        muted,
                    )
                } else {
                    Seq::empty()
                };
                &&& final(shared)@ == (JitterView {
                    queue: v.queue + body,
                    written: v.written + body.len(),
                    ..v
                })
                &&& final(self)@ == (WriterView {
                    written: v.written + body.len(),
                    write_ts: if fits {
                        wrap32(timestamp + frames) as u32
                    } else {
                        w.write_ts
                    },
                    ..w
                })
            }),
    {
        let ghost before = shared@.queue;
        assert(before + Seq::empty() =~= before);
        if frames == 0 {
            return;
        }
        // A packet that will not fit is dropped whole and the write cursor
        // stays put, so the next one arrives as a timestamp gap and is
        // concealed rather than silently shortening the stream. This only
        // happens when the reader has stalled, at which point the audio
        // already in the ring is worthless anyway.
        if shared.ring.free() < frames {
            return;
        }
        self.put(shared, pcm, frames, muted);
        self.write_ts = add32(timestamp, low32(frames));
    }

    /// Pushes a packet's audio, short of `frames` frames padded with silence and a
    /// muted one nothing else. Exactly `frames` go in, whatever happens, or the write
    /// cursor would promise audio that is not there and every later packet would land
    /// in the wrong place.
    #[verifier::spinoff_prover]
    #[verifier::rlimit(40)]
    fn put(
        &mut self,
        shared: &mut JitterShared,
        pcm: Option<&[i16]>,
        frames: usize,
        muted: bool,
    )
        requires
            old(shared).wf(),
            old(self).bound_to(old(shared)),
            old(shared)@.written + old(shared)@.free() <= u64::MAX,
            0 < frames <= old(shared)@.free(),
        ensures
            final(shared).wf(),
            final(self).bound_to(final(shared)),
            final(shared)@ == (JitterView {
                queue: old(shared)@.queue + payload(
                    match pcm {
                        Some(p) => Some(p@),
                        None => None,
                    },
                    frames as nat,
                    muted,
                ),
                written: old(shared)@.written + frames as nat,
                ..old(shared)@
            }),
            final(self)@ == (WriterView {
                written: old(shared)@.written + frames as nat,
                ..old(self)@
            }),
    {
        let ghost before = shared@.queue;
        let mut done: usize = 0;
        if let Some(p) = pcm {
            if !muted {
                let k: usize = if frames < p.len() {
                    frames
                } else {
                    p.len()
                };
                done = self.push(shared, slice_subrange(p, 0, k));
                assert(shared@.queue =~= before + p@.take(k as int));
            }
        }
        if done < frames {
            self.push_silence(shared, frames - done);
        }
        assert(shared@.queue =~= before + payload(
            match pcm {
                Some(p) => Some(p@),
                None => None,
            },
            frames as nat,
            muted,
        ));
    }

    /// Brings the buffer up to `target` frames of depth. Only what the reader
    /// will actually play counts, so audio already marked stale is not depth.
    /// Topping up rather than always appending a full target keeps a re-prime
    /// from stacking more latency onto a buffer that is already deep.
    fn prime(&mut self, shared: &mut JitterShared, timestamp: u32)
        requires
            old(shared).wf(),
            old(self).bound_to(old(shared)),
            old(shared)@.has_headroom(),
        ensures
            final(shared).wf(),
            final(self).bound_to(final(shared)),
            ({
                let v = old(shared)@;
                let wanted = if v.depth() < v.target {
                    v.target - v.depth()
                } else {
                    0
                };
                let n = least(wanted, v.free() as int) as nat;
                &&& final(shared)@ == (JitterView {
                    queue: v.queue + silence(n),
                    written: v.written + n,
                    counters: Counters {
                        resyncs: wrap32(v.counters.resyncs + 1) as u32,
                        ..v.counters
                    },
                    ..v
                })
                &&& final(self)@ == (WriterView {
                    written: v.written + n,
                    write_ts: timestamp,
                    primed: true,
                    ..old(self)@
                })
            }),
    {
        let have: usize = shared.fill();
        if have < shared.target {
            let short: usize = shared.target - have;
            self.push_silence(shared, short);
        } else {
            assert(shared@.queue + silence(0) =~= shared@.queue);
        }
        self.write_ts = timestamp;
        self.primed = true;
        shared.counters.resyncs = add32(shared.counters.resyncs, 1);
    }

    fn push(&mut self, shared: &mut JitterShared, data: &[i16]) -> (n: usize)
        requires
            old(shared).wf(),
            old(self).bound_to(old(shared)),
            old(shared)@.written + old(shared)@.free() <= u64::MAX,
        ensures
            final(shared).wf(),
            final(self).bound_to(final(shared)),
            n == least(data@.len() as int, old(shared)@.free() as int),
            final(shared)@ == (JitterView {
                queue: old(shared)@.queue + data@.take(n as int),
                written: old(shared)@.written + n as nat,
                ..old(shared)@
            }),
            final(self)@ == (WriterView {
                written: old(shared)@.written + n as nat,
                ..old(self)@
            }),
    {
        let n: usize = shared.ring.push(data);
        self.written = self.written + n as u64;
        shared.written = self.written;
        n
    }

    fn push_silence(&mut self, shared: &mut JitterShared, frames: usize) -> (n: usize)
        requires
            old(shared).wf(),
            old(self).bound_to(old(shared)),
            old(shared)@.written + old(shared)@.free() <= u64::MAX,
        ensures
            final(shared).wf(),
            final(self).bound_to(final(shared)),
            n == least(frames as int, old(shared)@.free() as int),
            final(shared)@ == (JitterView {
                queue: old(shared)@.queue + silence(n as nat),
                written: old(shared)@.written + n as nat,
                ..old(shared)@
            }),
            final(self)@ == (WriterView {
                written: old(shared)@.written + n as nat,
                ..old(self)@
            }),
    {
        let n: usize = shared.ring.push_silence(frames);
        self.written = self.written + n as u64;
        shared.written = self.written;
        n
    }
}

/// Audio-side half.
pub struct JitterReader {
    /// Mirror of the shared read position, owned by this half.
    read: u64,
}

impl View for JitterReader {
    type V = nat;

    closed spec fn view(&self) -> nat {
        self.read as nat
    }
}

impl JitterReader {
    /// This half has made every read from `shared`.
    pub open spec fn bound_to(&self, shared: &JitterShared) -> bool {
        self@ == shared@.read
    }

    /// Fills `dst` completely, zero-padding on underrun.
    pub fn read(&mut self, shared: &mut JitterShared, dst: &mut [i16])
        requires
            old(shared).wf(),
            old(self).bound_to(old(shared)),
        ensures
            final(shared).wf(),
            final(self).bound_to(final(shared)),
            final(shared)@ == old(shared)@.after_read(old(dst)@.len()),
            final(dst)@ == old(shared)@.heard(old(dst)@.len()),
    {
        let ghost v0 = shared@;
        let ghost n = dst@.len();
        self.shed(shared);
        let ghost v1 = shared@;

        let wanted: usize = dst.len();
        let got: usize = shared.ring.pop(dst);
        self.read = self.read + got as u64;
        shared.read = self.read;
        assert(forall|k: int| 0 <= k < got ==> dst@[k] == v1.queue[k]);
        assert(got == v0.found(n));
        assert(shared@.queue =~= v0.queue.skip((v0.shed() + got) as int));
        if got < wanted {
            let mut i: usize = got;
            while i < wanted
                invariant
                    got <= i <= wanted,
                    dst@.len() == wanted,
                    got <= v1.queue.len(),
                    forall|k: int| 0 <= k < got ==> dst@[k] == v1.queue[k],
                    forall|k: int| got <= k < i ==> dst@[k] == 0,
                decreases wanted - i,
            {
                dst[i] = 0;
                i = i + 1;
            }
            shared.counters.underruns = add32(shared.counters.underruns, 1);
            // Ask the writer to re-prime, so the buffer returns to its target
            // depth instead of hovering at zero and clicking every callback.
            shared.resync = true;
        }
        assert(dst@ =~= v0.heard(n));
    }

    /// Drops what is not to be heard any more: first whatever a rejoining source
    /// marked stale, then, where what is left runs too deep, all but the target.
    fn shed(&mut self, shared: &mut JitterShared)
        requires
            old(shared).wf(),
            old(self).bound_to(old(shared)),
        ensures
            final(shared).wf(),
            final(self).bound_to(final(shared)),
            ({
                let v = old(shared)@;
                final(shared)@ == (JitterView {
                    queue: v.queue.skip(v.shed() as int),
                    read: v.read + v.shed(),
                    counters: Counters {
                        trims: v.after_read(0).counters.trims,
                        ..v.counters
                    },
                    ..v
                })
            }),
    {
        let ghost v0 = shared@;
        if shared.drop_before > self.read {
            let stale: usize = (shared.drop_before - self.read) as usize;
            self.skip(shared, stale);
        }
        assert(shared@.queue =~= v0.queue.skip(v0.stale() as int));

        // Shed accumulated latency - always by dropping the oldest audio.
        // This is where clock drift between the two ends goes.
        let avail: usize = shared.ring.len();
        if avail > shared.max_fill {
            let excess: usize = avail - shared.target;
            self.skip(shared, excess);
            shared.counters.trims = add32(shared.counters.trims, 1);
        }
        assert(shared@.queue =~= v0.queue.skip(v0.shed() as int));
    }

    fn skip(&mut self, shared: &mut JitterShared, frames: usize) -> (n: usize)
        requires
            old(shared).wf(),
            old(self).bound_to(old(shared)),
        ensures
            final(shared).wf(),
            final(self).bound_to(final(shared)),
            n == least(frames as int, old(shared)@.queue.len() as int),
            final(shared)@ == (JitterView {
                queue: old(shared)@.queue.skip(n as int),
                read: old(shared)@.read + n as nat,
                ..old(shared)@
            }),
    {
        let n: usize = shared.ring.skip(frames);
        self.read = self.read + n as u64;
        shared.read = self.read;
        n
    }
}

} // verus!
