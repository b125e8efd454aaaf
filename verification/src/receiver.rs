//! Mixer end: parse what arrives on the audio port, keep one jitter buffer per
//! source, retire the sources that leave.
//!
//! The router takes one datagram at a time, wherever it came from, so the whole
//! network path - parse, route, conceal, mix - runs without a socket.
use vstd::prelude::*;
use vstd::slice::slice_subrange;

use crate::mixer::{Mixer, SourceWriter, Table};
use crate::protocol::{wire_to_pcm, Header};
use crate::util::add64;

verus! {

use crate::jitter::WriterView;
use crate::mixer::{readers_bound, writers_bound, SlotView, TableView, MAX_SOURCES};
use crate::mixer_laws::law_first_slot;
use crate::protocol::{
    wire_samples,
    PacketType,
    HEADER_BYTES,
    MAX_FRAMES_PER_PACKET,
    SAMPLE_RATE,
    WIRE_CHANNELS,
};
use crate::util::wrap64;

/// A source with nothing to say for this long is retired, whether or not it
/// managed a BYE.
pub const SOURCE_TIMEOUT_MS: i64 = 2000;

pub const REAP_INTERVAL_MS: i64 = 500;

/// Short enough that a stop is noticed promptly, long enough to stay asleep.
pub const RECV_TIMEOUT_MS: u64 = 200;

pub const MIN_JITTER_MS: i32 = 5;

pub const MAX_JITTER_MS: i32 = 200;

/// Levels and gains in milli-units, the latency in microseconds.
#[derive(Debug, Default, Clone, Copy, PartialEq, Eq, Structural)]
pub struct RxStats {
    pub packets: u64,
    pub bad_packets: u64,
    pub active_sources: u32,
    pub xruns: u32,
    pub master_peak: u32,
    pub limiter_gain: u32,
    pub latency_micros: u32,
    pub running: bool,
}

/// What every side of the receiver can see.
#[derive(Debug, Clone, Copy, PartialEq, Eq, Structural)]
pub struct RxShared {
    pub running: bool,
    pub packets: u64,
    pub bad_packets: u64,
    pub xruns: u32,
    /// Thousandths of a millisecond.
    pub latency_micros: u32,
    /// Set by the stream's error callback, acted on by the supervisor.
    pub restart_requested: bool,
}

impl RxShared {
    /// Clean counters, nothing running.
    pub open spec fn idle() -> RxShared {
        RxShared {
            running: false,
            packets: 0,
            bad_packets: 0,
            xruns: 0,
            latency_micros: 0,
            restart_requested: false,
        }
    }

    /// One more well-formed packet.
    pub open spec fn counted(self) -> RxShared {
        RxShared { packets: wrap64(self.packets + 1) as u64, ..self }
    }

    /// One more packet that makes no sense.
    pub open spec fn counted_bad(self) -> RxShared {
        RxShared { bad_packets: wrap64(self.bad_packets + 1) as u64, ..self }
    }

    /// A session starts with clean counters; whether it runs is not touched.
    pub fn reset_for_session(&mut self)
        ensures
            *final(self) == (RxShared { running: old(self).running, ..RxShared::idle() }),
    {
        self.packets = 0;
        self.bad_packets = 0;
        self.xruns = 0;
        self.latency_micros = 0;
        self.restart_requested = false;
    }

    pub fn set_xruns(&mut self, xruns: u32)
        ensures
            *final(self) == (RxShared { xruns, ..*old(self) }),
    {
        self.xruns = xruns;
    }

    pub fn set_latency(&mut self, micros: u32)
        ensures
            *final(self) == (RxShared { latency_micros: micros, ..*old(self) }),
    {
        self.latency_micros = micros;
    }

    pub fn stats(&self, table: &Table) -> (r: RxStats)
        ensures
            r == (RxStats {
                packets: self.packets,
                bad_packets: self.bad_packets,
                active_sources: table@.active_sources,
                xruns: self.xruns,
                master_peak: table@.master_peak_milli,
                limiter_gain: table@.limiter_gain_milli,
                latency_micros: self.latency_micros,
                running: self.running,
            }),
    {
        RxStats {
            packets: self.packets,
            bad_packets: self.bad_packets,
            active_sources: table.active_sources(),
            xruns: self.xruns,
            master_peak: table.master_peak(),
            limiter_gain: table.limiter_gain(),
            latency_micros: self.latency_micros,
            running: self.running,
        }
    }
}

impl Default for RxShared {
    fn default() -> (r: RxShared)
        ensures
            r == RxShared::idle(),
    {
        RxShared {
            running: false,
            packets: 0,
            bad_packets: 0,
            xruns: 0,
            latency_micros: 0,
            restart_requested: false,
        }
    }
}

/// What one call to [`PacketRouter::poll`] did, mostly so tests can assert on
/// it without reaching into counters.
#[derive(Debug, PartialEq, Eq, Clone, Copy, Structural)]
pub enum Polled {
    /// Nothing arrived before the read timeout.
    Idle,
    Audio { ssrc: u32, frames: usize },
    Hello(u32),
    Bye(u32),
    /// Not LAU1, or LAU1 that makes no sense.
    Malformed,
    /// A well-formed packet this version has no use for.
    Ignored,
    /// All eight slots are taken and this source is not one of them.
    TableFull(u32),
}

/// Everything a packet can change.
#[verifier::ext_equal]
pub struct RouteView {
    pub table: TableView,
    pub writers: Seq<WriterView>,
    pub shared: RxShared,
    pub last_reap_ms: int,
}

/// How many whole frames a datagram carries behind its header.
pub open spec fn frames_in(datagram: Seq<u8>) -> int {
    (datagram.len() - HEADER_BYTES) / 2
}

/// Whether an audio packet makes sense: some frames, not too many, and the one
/// channel count this version speaks.
pub open spec fn is_playable(header: Header, datagram: Seq<u8>) -> bool {
    0 < frames_in(datagram) <= MAX_FRAMES_PER_PACKET && header.channels == WIRE_CHANNELS
}

/// The samples an audio packet hands to its jitter buffer.
pub open spec fn audio_of(header: Header, datagram: Seq<u8>) -> Option<Seq<i16>> {
    if header.is_muted() {
        None
    } else {
        Some(wire_samples(datagram.skip(HEADER_BYTES as int)))
    }
}

impl RouteView {
    /// Quiet sources are looked for at most once in a reap interval.
    pub open spec fn after_reap(self, now_ms: int) -> RouteView {
        if now_ms - self.last_reap_ms > REAP_INTERVAL_MS {
            RouteView {
                table: self.table.after_reap(now_ms, SOURCE_TIMEOUT_MS as int),
                last_reap_ms: now_ms,
                ..self
            }
        } else {
            self
        }
    }

    /// The writers once `ssrc` has been heard from: that of a slot newly claimed
    /// starts over.
    pub open spec fn writers_after_acquire(self, ssrc: u32) -> Seq<WriterView> {
        match self.table.slot_of(ssrc) {
            Some(_) => self.writers,
            None => match self.table.free_slot() {
                Some(i) => self.writers.update(
                    i,
                    WriterView::fresh(self.table.slots[i].jitter.written),
                ),
                None => self.writers,
            },
        }
    }

    /// The state once `ssrc` has been heard from.
    pub open spec fn after_acquire(self, ssrc: u32, now_ms: int) -> RouteView {
        RouteView {
            table: self.table.after_acquire(ssrc, now_ms),
            writers: self.writers_after_acquire(ssrc),
            ..self
        }
    }

    /// The state after an audio packet for a source that has a seat.
    pub open spec fn after_audio(self, header: Header, datagram: Seq<u8>, now_ms: int) -> RouteView {
        let slot = self.table.seat(header.ssrc)->0;
        let seated = self.after_acquire(header.ssrc, now_ms);
        let w = seated.writers[slot];
        let frames = frames_in(datagram) as nat;
        RouteView {
            table: seated.table.after_packet(
                slot,
                w,
                header.seq,
                header.timestamp,
                audio_of(header, datagram),
                frames,
                header.is_muted(),
            ),
            writers: seated.writers.update(
                slot,
                seated.table.slots[slot].jitter.writer_after(
                    w,
                    header.seq,
                    header.timestamp,
                    frames,
                ),
            ),
            ..seated
        }
    }

    /// What a datagram does, past the reaping: the answer and the state after it.
    pub open spec fn routed(self, datagram: Seq<u8>, now_ms: int) -> (Polled, RouteView) {
        match Header::parsed(datagram) {
            None => (
                Polled::Malformed,
                RouteView { shared: self.shared.counted_bad(), ..self },
            ),
            Some(header) => {
                let known = RouteView { shared: self.shared.counted(), ..self };
                match PacketType::of_code(header.packet_type) {
                    Some(PacketType::Bye) => (
                        Polled::Bye(header.ssrc),
                        RouteView { table: self.table.after_retire(header.ssrc), ..known },
                    ),
                    Some(PacketType::Hello) => (
                        if self.table.seat(header.ssrc) is Some {
                            Polled::Hello(header.ssrc)
                        } else {
                            Polled::TableFull(header.ssrc)
                        },
                        known.after_acquire(header.ssrc, now_ms),
                    ),
                    Some(PacketType::Audio) => if !is_playable(header, datagram) {
                        (
                            Polled::Malformed,
                            RouteView { shared: known.shared.counted_bad(), ..self },
                        )
                    } else if self.table.seat(header.ssrc) is None {
                        (Polled::TableFull(header.ssrc), known)
                    } else {
                        (
                            Polled::Audio {
                                ssrc: header.ssrc,
                                frames: frames_in(datagram) as usize,
                            },
                            known.after_audio(header, datagram, now_ms),
                        )
                    },
                    _ => (Polled::Ignored, known),
                }
            },
        }
    }

    /// What one poll does.
    pub open spec fn polled(self, received: Option<Seq<u8>>, now_ms: int) -> (Polled, RouteView) {
        match received {
            None => (Polled::Idle, self.after_reap(now_ms)),
            Some(datagram) => self.after_reap(now_ms).routed(datagram, now_ms),
        }
    }
}

/// Network-side half: routes packets into one source table.
pub struct PacketRouter {
    sources: SourceWriter,
    pcm: Vec<i16>,
    last_reap_ms: i64,
}

impl PacketRouter {
    pub closed spec fn writers(&self) -> Seq<WriterView> {
        self.sources.view()
    }

    pub closed spec fn last_reap_ms(&self) -> int {
        self.last_reap_ms as int
    }

    /// The router's part of the state, along with the table and the counters it
    /// works on.
    pub open spec fn route(&self, table: TableView, shared: RxShared) -> RouteView {
        RouteView {
            table,
            writers: self.writers(),
            shared,
            last_reap_ms: self.last_reap_ms(),
        }
    }

    /// The write halves belong to `table`.
    pub open spec fn bound_to(&self, table: TableView) -> bool {
        writers_bound(self.writers(), table)
    }

    /// Acts on at most one packet: `received` is what arrived since the last call,
    /// or `None` if nothing did before the read timeout.
    pub fn poll(
        &mut self,
        table: &mut Table,
        shared: &mut RxShared,
        now_ms: i64,
        received: Option<&[u8]>,
    ) -> (r: Polled)
        requires
            old(table).wf(),
            old(table)@.has_headroom(),
            old(self).bound_to(old(table)@),
        ensures
            final(table).wf(),
            final(self).bound_to(final(table)@),
            (r, final(self).route(final(table)@, *final(shared))) == old(self).route(
                old(table)@,
                *old(shared),
            ).polled(
                match received {
                    Some(b) => Some(b@),
                    None => None,
                },
                now_ms as int,
            ),
            forall|c: Seq<nat>|
                readers_bound(c, old(table)@) ==> #[trigger] readers_bound(c, final(table)@),
    {
        let ghost start = self.route(table@, *shared);
        let since: i128 = now_ms as i128 - self.last_reap_ms as i128;
        if since > REAP_INTERVAL_MS as i128 {
            self.sources.reap_stale(table, now_ms, SOURCE_TIMEOUT_MS);
            self.last_reap_ms = now_ms;
        }
        let ghost s0 = start.after_reap(now_ms as int);
        assert(self.route(table@, *shared) == s0);
        assert(table@.has_headroom());

        let datagram = match received {
            Some(b) => b,
            None => {
                return Polled::Idle;
            },
        };
        let header = match Header::decode(datagram) {
            Some(h) => h,
            None => {
                shared.bad_packets = add64(shared.bad_packets, 1);
                return Polled::Malformed;
            },
        };
        shared.packets = add64(shared.packets, 1);

        match header.kind() {
            Some(PacketType::Bye) => {
                self.sources.retire(table, header.ssrc);
                return Polled::Bye(header.ssrc);
            },
            Some(PacketType::Hello) => {
                // Light the channel strip up now rather than on first audio.
                return match self.sources.acquire(table, header.ssrc, now_ms) {
                    Some(_) => Polled::Hello(header.ssrc),
                    None => Polled::TableFull(header.ssrc),
                };
            },
            Some(PacketType::Audio) => {},
            // Discovery lives on its own port, and an unknown type is a future
            // version's business, not ours.
            _ => {
                return Polled::Ignored;
            },
        }

        let frames: usize = (datagram.len() - HEADER_BYTES) / 2;
        if frames == 0 || frames > MAX_FRAMES_PER_PACKET || header.channels != WIRE_CHANNELS {
            shared.bad_packets = add64(shared.bad_packets, 1);
            return Polled::Malformed;
        }
        self.on_audio(table, now_ms, header, datagram, frames, Ghost(*shared))
    }

    /// Seats the source of a playable audio packet and hands its audio on.
    fn on_audio(
        &mut self,
        table: &mut Table,
        now_ms: i64,
        header: Header,
        datagram: &[u8],
        frames: usize,
        Ghost(shared): Ghost<RxShared>,
    ) -> (r: Polled)
        requires
            old(table).wf(),
            old(table)@.has_headroom(),
            old(self).bound_to(old(table)@),
            datagram@.len() >= HEADER_BYTES,
            frames == frames_in(datagram@),
            is_playable(header, datagram@),
        ensures
            final(table).wf(),
            final(self).bound_to(final(table)@),
            ({
                let start = old(self).route(old(table)@, shared);
                if start.table.seat(header.ssrc) is None {
                    &&& r == Polled::TableFull(header.ssrc)
                    &&& final(self).route(final(table)@, shared) == start
                } else {
                    &&& r == (Polled::Audio { ssrc: header.ssrc, frames })
                    &&& final(self).route(final(table)@, shared) == start.after_audio(
                        header,
                        datagram@,
                        now_ms as int,
                    )
                }
            }),
            forall|c: Seq<nat>|
                readers_bound(c, old(table)@) ==> #[trigger] readers_bound(c, final(table)@),
    {
        let ghost t0 = table@;
        proof {
            law_first_slot(
                t0.slots,
                |s: SlotView| s.is(header.ssrc),
                0,
            );
            law_first_slot(
                t0.slots,
                |s: SlotView| !s.active,
                0,
            );
        }
        let slot: usize = match self.sources.acquire(table, header.ssrc, now_ms) {
            Some(slot) => slot,
            None => {
                return Polled::TableFull(header.ssrc);
            },
        };
        assert(table@.slots[slot as int].jitter.has_headroom());

        let muted = header.muted();
        if muted {
            self.sources.on_packet(
                table,
                slot,
                header.seq,
                header.timestamp,
                None,
                frames,
                muted,
            );
        } else {
            let payload = slice_subrange(datagram, HEADER_BYTES, datagram.len());
            assert(payload@ =~= datagram@.skip(HEADER_BYTES as int));
            self.pcm.resize(frames, 0);
            wire_to_pcm(self.pcm.as_mut_slice(), payload);
            assert(self.pcm@ =~= wire_samples(payload@));
            self.sources.on_packet(
                table,
                slot,
                header.seq,
                header.timestamp,
                Some(self.pcm.as_slice()),
                frames,
                muted,
            );
        }
        Polled::Audio { ssrc: header.ssrc, frames }
    }
}

/// A jitter depth from outside, brought into range.
pub open spec fn clamped_jitter_ms(jitter_ms: i32) -> int {
    if jitter_ms < MIN_JITTER_MS {
        MIN_JITTER_MS as int
    } else if jitter_ms > MAX_JITTER_MS {
        MAX_JITTER_MS as int
    } else {
        jitter_ms as int
    }
}

/// Builds the router and the mixer around one table. `jitter_ms` is the nominal
/// buffer depth.
pub fn build(jitter_ms: i32) -> (r: (PacketRouter, Mixer, Table))
    ensures
        r.2.wf(),
        r.0.bound_to(r.2@),
        r.1.bound_to(r.2@),
        r.2@ == TableView::fresh((48 * clamped_jitter_ms(jitter_ms)) as nat),
        r.2@.has_headroom(),
        r.0.writers() == Seq::new(
            MAX_SOURCES as nat,
            |i: int| WriterView::fresh(0),
        ),
        r.0.last_reap_ms() == 0,
{
    let ms: i32 = if jitter_ms < MIN_JITTER_MS {
        MIN_JITTER_MS
    } else if jitter_ms > MAX_JITTER_MS {
        MAX_JITTER_MS
    } else {
        jitter_ms
    };
    let target_frames: usize = (SAMPLE_RATE as i32 * ms / 1000) as usize;
    assert(target_frames == 48 * ms);
    let (table, sources, mixer) = crate::mixer::build(target_frames);
    let pcm: Vec<i16> = Vec::with_capacity(MAX_FRAMES_PER_PACKET);
    (PacketRouter { sources, pcm, last_reap_ms: 0 }, mixer, table)
}

} // verus!
