//! Microphone end: downmix, account, packetise.
//!
//! The two halves meet in a ring of samples: the capture side writes to it and
//! never sees a packet, the sender side reads whole packets out of it. What the
//! ring could not take is not forgotten: it is carried as a gap in the next
//! packet's timestamp.
use vstd::prelude::*;
use vstd::slice::slice_subrange;

use crate::meter::{level_milli, update_peak_meter};
use crate::protocol::{pcm_to_wire, Header};
use crate::ring::SampleRing;
use crate::util::{add32, add64, low32};

verus! {

use crate::meter::{is_peak, next_peak};
use crate::protocol::{
    pcm_bytes,
    PacketType,
    FLAG_MUTED,
    HEADER_BYTES,
    MAX_FRAMES_PER_PACKET,
    MAX_PACKET_BYTES,
};
use crate::ring::least;
use crate::util::{wrap32, wrap64};

/// Half a second of capture headroom. If this ever fills, the network is gone
/// and stale audio is worthless anyway.
pub const RING_FRAMES: usize = 24_000;

/// Largest input burst the callback will handle without allocating.
pub const MAX_BURST_FRAMES: usize = 8192;

pub const MIN_FRAMES_PER_PACKET: usize = 60;

/// Eight times unity, the most a microphone is turned up.
pub const MAX_GAIN_MILLI: u32 = 8000;

/// The peak in milli-units, the latency in microseconds.
#[derive(Debug, Default, Clone, Copy, PartialEq, Eq, Structural)]
pub struct TxStats {
    pub packets_sent: u64,
    /// Frames the ring could not take: the sender side fell behind.
    pub frames_dropped: u64,
    pub send_errors: u32,
    pub xruns: u32,
    pub peak: u32,
    pub latency_micros: u32,
    pub running: bool,
}

/// How an attempt to send a packet ended.
#[derive(Debug, Clone, Copy, PartialEq, Eq, Structural)]
pub enum SendOutcome {
    Sent,
    /// The radio is busy. Dropping is the right answer here: the packet behind
    /// this one is worth more than this one.
    Busy,
    Failed,
}

/// State every side of the transmitter can see.
#[derive(Debug, Clone, Copy, PartialEq, Eq, Structural)]
pub struct TxShared {
    pub running: bool,
    pub muted: bool,
    pub gain_milli: u32,
    pub peak_milli: u32,
    pub packets_sent: u64,
    pub frames_dropped: u64,
    pub send_errors: u32,
    pub xruns: u32,
    /// Thousandths of a millisecond.
    pub latency_micros: u32,
    /// Frames the capture side could not fit in the ring. The sender side
    /// folds these into the next packet's timestamp, so the receiver conceals
    /// a hole instead of splicing two unrelated instants together and running
    /// permanently early from then on.
    pub pending_gap: u32,
    /// Set by the stream's error callback, acted on by the supervisor.
    pub restart_requested: bool,
}

impl TxShared {
    /// Unmuted, at unity, with clean counters, nothing running.
    pub open spec fn idle() -> TxShared {
        TxShared {
            running: false,
            muted: false,
            gain_milli: 1000,
            peak_milli: 0,
            packets_sent: 0,
            frames_dropped: 0,
            send_errors: 0,
            xruns: 0,
            latency_micros: 0,
            pending_gap: 0,
            restart_requested: false,
        }
    }

    /// The gain capture is scaled by.
    pub open spec fn effective_gain(self) -> u32 {
        if self.muted {
            0
        } else {
            self.gain_milli
        }
    }

    /// The state once a gain has been asked for, in milli-units.
    pub open spec fn after_gain(self, gain_milli: u32) -> TxShared {
        TxShared {
            gain_milli: if gain_milli < MAX_GAIN_MILLI {
                gain_milli
            } else {
                MAX_GAIN_MILLI
            },
            ..self
        }
    }

    /// The state once `frames` captured frames have been thrown away.
    pub open spec fn after_drop(self, frames: nat) -> TxShared {
        TxShared {
            frames_dropped: wrap64(self.frames_dropped + frames) as u64,
            pending_gap: wrap32(self.pending_gap + frames) as u32,
            ..self
        }
    }

    /// The state once an attempt to send has ended.
    pub open spec fn after_send(self, outcome: SendOutcome) -> TxShared {
        match outcome {
            SendOutcome::Sent => TxShared {
                packets_sent: wrap64(self.packets_sent + 1) as u64,
                ..self
            },
            SendOutcome::Busy => self,
            SendOutcome::Failed => TxShared {
                send_errors: wrap32(self.send_errors + 1) as u32,
                ..self
            },
        }
    }

    /// A session starts unmuted, at unity, with clean counters. Without this a
    /// mute left over from the previous session survives into the new one
    /// while the UI, whose own state did reset, shows the mic as live.
    pub fn reset_for_session(&mut self)
        ensures
            *final(self) == (TxShared { running: old(self).running, ..TxShared::idle() }),
    {
        self.muted = false;
        self.gain_milli = 1000;
        self.peak_milli = 0;
        self.packets_sent = 0;
        self.frames_dropped = 0;
        self.send_errors = 0;
        self.xruns = 0;
        self.latency_micros = 0;
        self.pending_gap = 0;
        self.restart_requested = false;
    }

    /// Sets the gain in milli-units. It arrives from the UI across a language
    /// boundary: clamp, do not trust.
    pub fn set_gain(&mut self, gain_milli: u32)
        ensures
            *final(self) == (TxShared {
                gain_milli: if gain_milli < MAX_GAIN_MILLI {
                    gain_milli
                } else {
                    MAX_GAIN_MILLI
                },
                ..*old(self)
            }),
            *final(self) == old(self).after_gain(gain_milli),
    {
        self.gain_milli = if gain_milli < MAX_GAIN_MILLI {
            gain_milli
        } else {
            MAX_GAIN_MILLI
        };
    }

    pub fn set_muted(&mut self, muted: bool)
        ensures
            *final(self) == (TxShared { muted, ..*old(self) }),
    {
        self.muted = muted;
    }

    pub fn muted(&self) -> (r: bool)
        ensures
            r == self.muted,
    {
        self.muted
    }

    pub fn stats(&self) -> (r: TxStats)
        ensures
            r == (TxStats {
                packets_sent: self.packets_sent,
                frames_dropped: self.frames_dropped,
                send_errors: self.send_errors,
                xruns: self.xruns,
                peak: self.peak_milli,
                latency_micros: self.latency_micros,
                running: self.running,
            }),
    {
        TxStats {
            packets_sent: self.packets_sent,
            frames_dropped: self.frames_dropped,
            send_errors: self.send_errors,
            xruns: self.xruns,
            peak: self.peak_milli,
            latency_micros: self.latency_micros,
            running: self.running,
        }
    }

    pub fn set_xruns(&mut self, xruns: u32)
        ensures
            *final(self) == (TxShared { xruns, ..*old(self) }),
    {
        self.xruns = xruns;
    }

    pub fn set_latency(&mut self, micros: u32)
        ensures
            *final(self) == (TxShared { latency_micros: micros, ..*old(self) }),
    {
        self.latency_micros = micros;
    }

    /// Counts one attempt to send.
    pub fn record_send(&mut self, outcome: SendOutcome)
        ensures
            *final(self) == old(self).after_send(outcome),
    {
        match outcome {
            SendOutcome::Sent => {
                self.packets_sent = add64(self.packets_sent, 1);
            },
            SendOutcome::Busy => {},
            SendOutcome::Failed => {
                self.send_errors = add32(self.send_errors, 1);
            },
        }
    }

    /// Accounts for captured frames that were thrown away: they are counted, and the
    /// stream skips as far ahead.
    fn drop_frames(&mut self, frames: usize)
        ensures
            *final(self) == old(self).after_drop(frames as nat),
    {
        self.frames_dropped = add64(self.frames_dropped, frames as u64);
        self.pending_gap = add32(self.pending_gap, low32(frames));
    }
}

impl Default for TxShared {
    fn default() -> (r: TxShared)
        ensures
            r == TxShared::idle(),
    {
        TxShared {
            running: false,
            muted: false,
            gain_milli: 1000,
            peak_milli: 0,
            packets_sent: 0,
            frames_dropped: 0,
            send_errors: 0,
            xruns: 0,
            latency_micros: 0,
            pending_gap: 0,
            restart_requested: false,
        }
    }
}

/// How many channels an input is taken to have.
pub open spec fn at_least_one(channels: int) -> int {
    if channels < 1 {
        1
    } else {
        channels
    }
}

/// What bursts a capture callback keeps for later hold, and how many frames it could
/// not keep.
#[verifier::ext_equal]
pub struct BacklogView {
    /// Channels of the stream, at least one.
    pub channels: nat,
    /// The frames kept, interleaved, oldest first.
    pub samples: Seq<i16>,
    /// Frames there was no room for. They came after the ones kept.
    pub missed: nat,
}

impl BacklogView {
    /// Nothing kept and nothing missed.
    pub open spec fn empty(channels: nat) -> BacklogView {
        BacklogView { channels, samples: Seq::empty(), missed: 0 }
    }

    /// The backlog once a burst has been put aside: kept whole, as far as it is whole
    /// frames, or missed whole. Nothing is kept behind a hole.
    pub open spec fn after_keep(self, input: Seq<i16>) -> BacklogView {
        let frames = input.len() / self.channels;
        let whole = frames * self.channels;
        if self.missed == 0 && self.samples.len() + whole <= MAX_BURST_FRAMES * self.channels {
            BacklogView { samples: self.samples + input.take(whole as int), ..self }
        } else {
            BacklogView {
                missed: if self.missed + frames <= usize::MAX {
                    self.missed + frames
                } else {
                    usize::MAX as nat
                },
                ..self
            }
        }
    }
}

/// Bursts a capture callback could not hand over yet. Room for one burst of the
/// largest kind is set aside once, so putting one aside never allocates.
pub struct Backlog {
    channels: usize,
    samples: Vec<i16>,
    missed: usize,
}

impl Backlog {
    pub closed spec fn view(&self) -> BacklogView {
        BacklogView {
            channels: self.channels as nat,
            samples: self.samples@,
            missed: self.missed as nat,
        }
    }

    /// What is kept can be taken in one burst.
    pub open spec fn wf(&self) -> bool {
        &&& 1 <= self@.channels <= u16::MAX
        &&& self@.samples.len() <= MAX_BURST_FRAMES * self@.channels
    }

    pub fn new(channels: u16) -> (r: Backlog)
        ensures
            r.wf(),
            r@ == BacklogView::empty(at_least_one(channels as int) as nat),
    {
        let channels: usize = if channels < 1 {
            1
        } else {
            channels as usize
        };
        let samples: Vec<i16> = Vec::with_capacity(MAX_BURST_FRAMES * channels);
        Backlog { channels, samples, missed: 0 }
    }

    /// Puts a burst aside for later.
    pub fn keep(&mut self, input: &[i16])
        requires
            old(self).wf(),
        ensures
            final(self).wf(),
            final(self)@ == old(self)@.after_keep(input@),
    {
        let frames: usize = input.len() / self.channels;
        assert(frames * self.channels <= input@.len()) by (nonlinear_arith)
            requires
                frames == input@.len() / self.channels as nat,
                1 <= self.channels,
        ;
        let whole: usize = frames * self.channels;
        let room: usize = MAX_BURST_FRAMES * self.channels - self.samples.len();
        if self.missed == 0 && whole <= room {
            self.samples.extend_from_slice(slice_subrange(input, 0, whole));
            assert(self.samples@ =~= old(self)@.samples + input@.take(whole as int));
        } else {
            self.missed = self.missed.saturating_add(frames);
        }
    }

    /// What is kept, to be taken in hand as one burst.
    pub fn samples(&self) -> (r: &[i16])
        ensures
            r@ == self@.samples,
    {
        self.samples.as_slice()
    }

    /// Lets go of what was kept, once it has been handed over, and accounts for what
    /// was missed behind it.
    pub fn settle(&mut self, shared: &mut TxShared)
        requires
            old(self).wf(),
        ensures
            final(self).wf(),
            final(self)@ == BacklogView::empty(old(self)@.channels),
            *final(shared) == old(shared).after_drop(old(self)@.missed),
    {
        self.samples.clear();
        shared.drop_frames(self.missed);
        self.missed = 0;
        assert(self@ =~= BacklogView::empty(old(self)@.channels));
    }
}

/// The sum of a run of samples.
pub open spec fn sum_of(s: Seq<i16>) -> int
    decreases s.len(),
{
    if s.len() == 0 {
        0
    } else {
        sum_of(s.drop_last()) + s.last()
    }
}

/// Each frame of an interleaved burst as the sum of its channels.
pub open spec fn frame_sums(input: Seq<i16>, channels: int) -> Seq<int> {
    Seq::new(
        (input.len() as int / channels) as nat,
        |i: int| sum_of(input.subrange(i * channels, (i + 1) * channels)),
    )
}

/// Capture-side half: downmix, meter, and into the ring.
pub struct CaptureEncoder {
    sums: Vec<i128>,
}

impl CaptureEncoder {
    /// The frame sums of the burst in hand.
    pub closed spec fn view(&self) -> Seq<int> {
        self.sums@.map_values(|x: i128| x as int)
    }

    /// Takes one interleaved burst in hand. With something in it to send, the frame
    /// sums are in [`CaptureEncoder::sums`], and the result is the gain (milli-units)
    /// that their averages are to be scaled by before [`CaptureEncoder::push`]. A burst
    /// larger than the scratch is dropped and accounted for, exactly as a ring overflow
    /// would be.
    pub fn downmix(&mut self, shared: &mut TxShared, input: &[i16], channels: usize) -> (r: Option<
        u32,
    >)
        ensures
            ({
                let frames = input@.len() as int / at_least_one(channels as int);
                match r {
                    Some(gain) => {
                        &&& 0 < frames <= MAX_BURST_FRAMES
                        &&& gain == old(shared).effective_gain()
                        &&& gain == if old(shared).muted {
                            0
                        } else {
                            old(shared).gain_milli
                        }
                        &&& *final(shared) == *old(shared)
                        &&& final(self).view() == frame_sums(
                            input@,
                            at_least_one(channels as int),
                        )
                    },
                    None => {
                        &&& frames == 0 || frames > MAX_BURST_FRAMES
                        &&& *final(shared) == if frames == 0 {
                            *old(shared)
                        } else {
                            old(shared).after_drop(frames as nat)
                        }
                        &&& final(self).view() == old(self).view()
                    },
                }
            }),
    {
        let channels: usize = if channels < 1 {
            1
        } else {
            channels
        };
        let len: usize = input.len();
        let frames: usize = len / channels;
        if frames == 0 {
            return None;
        }
        if frames > MAX_BURST_FRAMES {
            shared.drop_frames(frames);
            return None;
        }
        assert(frames * channels <= len) by (nonlinear_arith)
            requires
                frames == len / channels,
                channels > 0,
        ;
        self.sums.clear();
        let mut i: usize = 0;
        let mut at: usize = 0;
        assert(0 * channels == 0) by (nonlinear_arith);
        while i < frames
            invariant
                i <= frames,
                channels > 0,
                len == input@.len(),
                frames * channels <= len,
                frames == input@.len() as int / channels as int,
                at == i * channels,
                self.sums@.len() == i,
                forall|k: int|
                    0 <= k < i ==> #[trigger] self.sums@[k] == frame_sums(
                        input@,
                        channels as int,
                    )[k],
            decreases frames - i,
        {
            assert((i + 1) * channels <= frames * channels && (i + 1) * channels == i * channels
                + channels) by (nonlinear_arith)
                requires
                    i < frames,
                    channels > 0,
            ;
            let mut sum: i128 = 0;
            let mut c: usize = 0;
            let ghost frame = input@.subrange(i * channels, (i + 1) * channels);
            while c < channels
                invariant
                    c <= channels,
                    at + channels <= len,
                    len == input@.len(),
                    frame == input@.subrange(at as int, at + channels),
                    frame.len() == channels,
                    sum == sum_of(frame.take(c as int)),
                    -32768 * c <= sum <= 32767 * c,
                decreases channels - c,
            {
                assert(frame.take(c + 1).drop_last() =~= frame.take(c as int));
                assert(frame.take(c + 1).last() == input@[at + c]);
                sum = sum + input[at + c] as i128;
                c = c + 1;
            }
            assert(frame.take(c as int) =~= frame);
            self.sums.push(sum);
            at = at + channels;
            i = i + 1;
        }
        assert(self.view() =~= frame_sums(input@, channels as int));
        Some(
            if shared.muted {
                0
            } else {
                shared.gain_milli
            },
        )
    }

    /// The frame sums of the burst in hand.
    pub fn sums(&self) -> (r: &[i128])
        ensures
            r@.map_values(|x: i128| x as int) == self.view(),
    {
        self.sums.as_slice()
    }

    /// Takes the finished mono burst and returns how many frames reached the ring.
    /// What did not is dropped and accounted for.
    pub fn push(&mut self, shared: &mut TxShared, ring: &mut SampleRing, mono: &[i16]) -> (n: usize)
        requires
            old(ring).wf(),
        ensures
            final(ring).wf(),
            final(ring).limit() == old(ring).limit(),
            n == least(mono@.len() as int, old(ring).limit() - old(ring)@.len()),
            final(ring)@ == old(ring)@ + mono@.take(n as int),
            exists|peak: int| #[trigger]
                is_peak(mono@, peak) && *final(shared) == (TxShared {
                    peak_milli: next_peak(
                        old(shared).peak_milli,
                        (peak * 1000 / 32768) as u32,
                    ),
                    ..old(shared).after_drop((mono@.len() - n) as nat)
                }),
            final(self).view() == old(self).view(),
    {
        let level: u32 = level_milli(mono);
        let ghost peak = choose|peak: int| #[trigger]
            is_peak(mono@, peak) && level == peak * 1000 / 32768;
        let mut meter: u32 = shared.peak_milli;
        update_peak_meter(&mut meter, level);
        shared.peak_milli = meter;
        let n: usize = ring.push(mono);
        if n < mono.len() {
            shared.drop_frames(mono.len() - n);
        }
        assert(is_peak(mono@, peak));
        n
    }
}

/// What a sender remembers of its stream.
pub struct StreamView {
    pub frames_per_packet: nat,
    pub ssrc: u32,
    pub seq: u32,
    pub timestamp: u32,
}

impl StreamView {
    /// The header of the `j`th packet from here on, when `gap` frames were thrown
    /// away before it.
    pub open spec fn header(self, shared: TxShared, j: int) -> Header {
        Header {
            flags: if shared.muted {
                FLAG_MUTED
            } else {
                0
            },
            ssrc: self.ssrc,
            seq: wrap32(self.seq + j) as u32,
            timestamp: wrap32(
                self.timestamp + shared.pending_gap + j * self.frames_per_packet,
            ) as u32,
            ..Header::blank(PacketType::Audio)
        }
    }

    /// The `j`th whole packet waiting in `queue`, as it goes onto the wire.
    pub open spec fn packet(self, shared: TxShared, queue: Seq<i16>, j: int) -> Seq<u8> {
        self.header(shared, j).wire() + pcm_bytes(
            queue.subrange(j * self.frames_per_packet, (j + 1) * self.frames_per_packet),
        )
    }

    /// How many whole packets wait in `queue`.
    pub open spec fn whole_packets(self, queue: Seq<i16>) -> nat {
        (queue.len() as int / self.frames_per_packet as int) as nat
    }

    /// The stream once `k` packets have been taken out.
    pub open spec fn after(self, shared: TxShared, k: nat) -> StreamView {
        if k == 0 {
            self
        } else {
            StreamView {
                seq: wrap32(self.seq + k) as u32,
                timestamp: wrap32(
                    self.timestamp + shared.pending_gap + k * self.frames_per_packet,
                ) as u32,
                ..self
            }
        }
    }

    /// A HELLO or a BYE.
    pub open spec fn control(self, kind: PacketType) -> Header {
        Header {
            ssrc: self.ssrc,
            seq: self.seq,
            timestamp: self.timestamp,
            ..Header::blank(kind)
        }
    }
}

/// Sender-side half: whole packets out of the ring.
pub struct Packetiser {
    frames_per_packet: usize,
    ssrc: u32,
    seq: u32,
    timestamp: u32,
    pcm: Vec<i16>,
}

impl View for Packetiser {
    type V = StreamView;

    closed spec fn view(&self) -> StreamView {
        StreamView {
            frames_per_packet: self.frames_per_packet as nat,
            ssrc: self.ssrc,
            seq: self.seq,
            timestamp: self.timestamp,
        }
    }
}

impl Packetiser {
    pub open spec fn wf(&self) -> bool {
        MIN_FRAMES_PER_PACKET <= self@.frames_per_packet <= MAX_FRAMES_PER_PACKET
    }

    pub fn ssrc(&self) -> (r: u32)
        ensures
            r == self@.ssrc,
    {
        self.ssrc
    }

    pub fn frames_per_packet(&self) -> (r: usize)
        ensures
            r == self@.frames_per_packet,
    {
        self.frames_per_packet
    }

    /// Takes the next whole packet out of the ring, if it holds one.
    fn next_packet(&mut self, shared: &mut TxShared, ring: &mut SampleRing) -> (r: Option<Vec<u8>>)
        requires
            old(self).wf(),
            old(ring).wf(),
        ensures
            final(self).wf(),
            final(ring).wf(),
            final(ring).limit() == old(ring).limit(),
            r is None <==> old(ring)@.len() < old(self)@.frames_per_packet,
            match r {
                Some(bytes) => {
                    &&& bytes@ == old(self)@.header(*old(shared), 0).wire() + pcm_bytes(
                        old(ring)@.take(old(self)@.frames_per_packet as int),
                    )
                    &&& final(self)@ == old(self)@.after(*old(shared), 1)
                    &&& *final(shared) == (TxShared { pending_gap: 0, ..*old(shared) })
                    &&& final(ring)@ == old(ring)@.skip(old(self)@.frames_per_packet as int)
                },
                None => {
                    &&& final(self)@ == old(self)@
                    &&& *final(shared) == *old(shared)
                    &&& final(ring)@ == old(ring)@
                },
            },
    {
        let fpp: usize = self.frames_per_packet;
        if ring.len() < fpp {
            return None;
        }
        let ghost queue = ring@;
        let ghost start = self@;
        self.pcm.resize(fpp, 0);
        ring.pop(self.pcm.as_mut_slice());
        assert(self.pcm@ =~= queue.take(fpp as int));

        // Fold in anything the capture side had to throw away, so the
        // timeline stays honest about frames that were captured and lost.
        self.timestamp = add32(self.timestamp, shared.pending_gap);
        shared.pending_gap = 0;

        let mut header = Header::new(PacketType::Audio);
        header.flags = if shared.muted {
            FLAG_MUTED
        } else {
            0
        };
        header.ssrc = self.ssrc;
        header.seq = self.seq;
        header.timestamp = self.timestamp;
        self.seq = add32(self.seq, 1);
        self.timestamp = add32(self.timestamp, fpp as u32);
        assert(header == start.header(*old(shared), 0)) by {
            assert(0 * start.frames_per_packet == 0) by (nonlinear_arith);
        }
        assert(self@ == start.after(*old(shared), 1)) by {
            assert(1 * start.frames_per_packet == start.frames_per_packet) by (nonlinear_arith);
        }

        let mut packet: Vec<u8> = Vec::with_capacity(MAX_PACKET_BYTES);
        packet.resize(fpp * 2, 0);
        pcm_to_wire(packet.as_mut_slice(), self.pcm.as_slice());
        assert(packet@ =~= pcm_bytes(self.pcm@));
        let head = header.to_bytes();
        let mut bytes: Vec<u8> = Vec::with_capacity(MAX_PACKET_BYTES);
        bytes.extend_from_slice(head.as_slice());
        bytes.extend_from_slice(packet.as_slice());
        assert(bytes@ =~= header.wire() + pcm_bytes(queue.take(fpp as int)));
        Some(bytes)
    }

    /// Takes every whole packet the ring currently holds, ready to be sent in this
    /// order.
    pub fn pump(&mut self, shared: &mut TxShared, ring: &mut SampleRing) -> (r: Vec<Vec<u8>>)
        requires
            old(self).wf(),
            old(ring).wf(),
        ensures
            final(self).wf(),
            final(ring).wf(),
            final(ring).limit() == old(ring).limit(),
            r@.len() == old(self)@.whole_packets(old(ring)@),
            forall|j: int|
                0 <= j < r@.len() ==> (#[trigger] r@[j])@ == old(self)@.packet(
                    *old(shared),
                    old(ring)@,
                    j,
                ),
            final(self)@ == old(self)@.after(*old(shared), r@.len()),
            *final(shared) == if r@.len() == 0 {
                *old(shared)
            } else {
                TxShared { pending_gap: 0, ..*old(shared) }
            },
            final(ring)@ == old(ring)@.skip((r@.len() * old(self)@.frames_per_packet) as int),
    {
        let ghost start = self@;
        let ghost queue = ring@;
        let ghost sh = *shared;
        let ghost fpp = start.frames_per_packet as int;
        let mut out: Vec<Vec<u8>> = Vec::new();
        let mut more = true;
        assert(ring@ =~= queue.skip(0));
        proof {
            assert(0 * fpp == 0) by (nonlinear_arith);
        }
        while more
            invariant
                self.wf(),
                ring.wf(),
                ring.limit() == old(ring).limit(),
                fpp == start.frames_per_packet,
                MIN_FRAMES_PER_PACKET <= fpp <= MAX_FRAMES_PER_PACKET,
                self@ == start.after(sh, out@.len()),
                *shared == if out@.len() == 0 {
                    sh
                } else {
                    TxShared { pending_gap: 0, ..sh }
                },
                out@.len() * fpp <= queue.len(),
                ring@ == queue.skip(out@.len() * fpp),
                !more ==> ring@.len() < fpp,
                forall|j: int|
                    0 <= j < out@.len() ==> (#[trigger] out@[j])@ == start.packet(sh, queue, j),
            decreases
                ring@.len(),
                if more {
                    1int
                } else {
                    0
                },
        {
            let ghost k = out@.len();
            let ghost was = self@;
            let ghost now = *shared;
            match self.next_packet(shared, ring) {
                Some(bytes) => {
                    proof {
                        lemma_stream_step(start, sh, k);
                        assert((k + 1) * fpp == k * fpp + fpp) by (nonlinear_arith);
                        assert(queue.skip(k * fpp).take(fpp) =~= queue.subrange(
                            k * fpp,
                            (k + 1) * fpp,
                        ));
                        assert(ring@ =~= queue.skip((k + 1) * fpp));
                    }
                    out.push(bytes);
                },
                None => {
                    more = false;
                },
            }
        }
        proof {
            let k = out@.len() as int;
            assert(queue.len() as int / fpp == k) by (nonlinear_arith)
                requires
                    k * fpp <= queue.len() < k * fpp + fpp,
                    fpp > 0,
            ;
        }
        out
    }

    /// The bytes of a HELLO at start or a BYE at stop.
    pub fn control_packet(&self, kind: PacketType) -> (r: [u8; HEADER_BYTES])
        ensures
            r@ == self@.control(kind).wire(),
    {
        let mut header = Header::new(kind);
        header.ssrc = self.ssrc;
        header.seq = self.seq;
        header.timestamp = self.timestamp;
        header.to_bytes()
    }
}

/// One packet on from the `k`th is the `k + 1`st, the gap being folded in only once.
proof fn lemma_stream_step(s: StreamView, shared: TxShared, k: nat)
    ensures
        ({
            let then = s.after(shared, k);
            let sh = if k == 0 {
                shared
            } else {
                TxShared { pending_gap: 0, ..shared }
            };
            &&& then.header(sh, 0) == s.header(shared, k as int)
            &&& then.after(sh, 1) == s.after(shared, k + 1)
        }),
{
    let fpp = s.frames_per_packet as int;
    assert((k + 1) * fpp == k * fpp + fpp) by (nonlinear_arith);
    assert(0 * fpp == 0) by (nonlinear_arith);
    assert(1 * fpp == fpp) by (nonlinear_arith);
    let a = s.timestamp + shared.pending_gap + k * fpp;
    assert(wrap32(wrap32(a) + 0 + 0) == wrap32(a));
    assert(wrap32(wrap32(a) + 0 + fpp) == wrap32(a + fpp));
}

/// An id for one capture session, out of 64 unpredictable bits. It only has to be
/// unlikely to collide with the handful of other microphones on one LAN. The low bit
/// is forced so an ssrc is never zero.
pub fn random_ssrc(entropy: u64) -> (r: u32)
    ensures
        r == if entropy % 2 == 1 {
            wrap32(entropy as int)
        } else {
            wrap32(entropy as int) + 1
        },
        r != 0,
{
    let low: u32 = (entropy % 0x1_0000_0000) as u32;
    if low % 2 == 1 {
        low
    } else {
        low + 1
    }
}

/// Builds the ring and the capture and sender halves around it.
pub fn build(frames_per_packet: usize, entropy: u64) -> (r: (SampleRing, CaptureEncoder, Packetiser))
    ensures
        r.0.wf(),
        r.0@ == Seq::<i16>::empty(),
        r.0.limit() == RING_FRAMES,
        r.2.wf(),
        r.2@.frames_per_packet == if frames_per_packet < MIN_FRAMES_PER_PACKET {
            MIN_FRAMES_PER_PACKET
        } else if frames_per_packet > MAX_FRAMES_PER_PACKET {
            MAX_FRAMES_PER_PACKET
        } else {
            frames_per_packet
        },
        r.2@.ssrc == if entropy % 2 == 1 {
            wrap32(entropy as int)
        } else {
            wrap32(entropy as int) + 1
        },
        r.2@.seq == 0,
        r.2@.timestamp == 0,
{
    let fpp: usize = if frames_per_packet < MIN_FRAMES_PER_PACKET {
        MIN_FRAMES_PER_PACKET
    } else if frames_per_packet > MAX_FRAMES_PER_PACKET {
        MAX_FRAMES_PER_PACKET
    } else {
        frames_per_packet
    };
    (
        SampleRing::new(RING_FRAMES),
        CaptureEncoder { sums: Vec::with_capacity(MAX_BURST_FRAMES) },
        Packetiser {
            frames_per_packet: fpp,
            ssrc: random_ssrc(entropy),
            seq: 0,
            timestamp: 0,
            pcm: Vec::with_capacity(MAX_FRAMES_PER_PACKET),
        },
    )
}

} // verus!
