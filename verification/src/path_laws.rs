//! What holds from the capture ring of a microphone to the jitter buffer of a
//! receiver: every sample arrives where it belongs on the timeline.
use vstd::prelude::*;

verus! {

use crate::jitter::{payload, JitterView, WriterView};
use crate::jitter_laws::{
    law_next_packet_after_a_gap,
    law_reads_come_out_in_order,
};
use crate::mixer::{SlotView, TableView};
use crate::mixer_laws::law_first_slot;
use crate::protocol::{
    law_header_round_trip,
    law_pcm_round_trip,
    pcm_bytes,
    Header,
    PacketType,
    HEADER_BYTES,
    MAX_FRAMES_PER_PACKET,
};
use crate::receiver::{audio_of, frames_in, is_playable, Polled, RouteView};
use crate::ring::silence;
use crate::transmitter::{StreamView, TxShared};
use crate::util::{lemma_wrap32_sum, wrap32};

/// A packet taken out of the capture ring reads back as the header and the samples
/// it was made from, and a receiver has a use for it.
pub proof fn law_packet_reads_back(s: StreamView, shared: TxShared, queue: Seq<i16>, j: int)
    requires
        0 < s.frames_per_packet <= MAX_FRAMES_PER_PACKET,
        0 <= j < s.whole_packets(queue),
    ensures
        ({
            let bytes = s.packet(shared, queue, j);
            let samples = queue.subrange(j * s.frames_per_packet, (j + 1) * s.frames_per_packet);
            let header = s.header(shared, j);
            &&& Header::parsed(bytes) == Some(header)
            &&& PacketType::of_code(header.packet_type) == Some(PacketType::Audio)
            &&& frames_in(bytes) == s.frames_per_packet
            &&& is_playable(header, bytes)
            &&& header.is_muted() == shared.muted
            &&& audio_of(header, bytes) == if shared.muted {
                None
            } else {
                Some(samples)
            }
        }),
{
    let fpp = s.frames_per_packet as int;
    let q = queue.len() as int;
    assert(0 <= j * fpp && (j + 1) * fpp == j * fpp + fpp && (j + 1) * fpp <= q)
        by (nonlinear_arith)
        requires
            0 <= j < q / fpp,
            fpp > 0,
    ;
    let samples = queue.subrange(j * fpp, (j + 1) * fpp);
    let header = s.header(shared, j);
    let bytes = s.packet(shared, queue, j);
    law_header_round_trip(header, pcm_bytes(samples));
    law_pcm_round_trip(samples);
    assert(bytes.skip(HEADER_BYTES as int) =~= pcm_bytes(samples));
}

/// The timeline a receiver reconstructs is as long as the audio that was captured,
/// holes included: frames thrown away before a run of packets move its first
/// timestamp on by as many, and each packet after that follows the one before it.
pub proof fn law_dropped_frames_become_a_gap(
    s: StreamView,
    shared: TxShared,
    dropped: nat,
    j: int,
)
    requires
        shared.pending_gap == 0,
        dropped <= u32::MAX,
        0 <= j,
    ensures
        ({
            let after = shared.after_drop(dropped);
            &&& s.header(after, 0).timestamp == wrap32(s.timestamp + dropped)
            &&& wrap32(s.header(after, j + 1).timestamp - s.header(after, j).timestamp) == wrap32(
                s.frames_per_packet as int,
            )
            &&& s.after(after, (j + 1) as nat).timestamp == wrap32(
                s.timestamp + dropped + (j + 1) * s.frames_per_packet,
            )
        }),
{
    let fpp = s.frames_per_packet as int;
    assert((j + 1) * fpp == j * fpp + fpp) by (nonlinear_arith);
    assert(0 * fpp == 0) by (nonlinear_arith);
    let a = s.timestamp + dropped + j * fpp;
    assert(wrap32(wrap32(a + fpp) - wrap32(a)) == wrap32(fpp));
}

/// The receiver is in step with a sender: the next packet the sender makes is the
/// one the slot expects.
pub open spec fn in_step(r: RouteView, slot: int, s: StreamView) -> bool {
    &&& 0 <= slot < r.table.slots.len()
    &&& r.writers.len() == r.table.slots.len()
    &&& r.table.slot_of(s.ssrc) == Some(slot)
    &&& !r.table.slots[slot].jitter.resync
    &&& r.writers[slot].primed
    &&& r.writers[slot].have_seq
    &&& r.writers[slot].expected_seq == s.seq
    &&& r.writers[slot].write_ts == s.timestamp
}

/// Who holds which slot depends on nothing but who the slots are held by.
proof fn lemma_slot_of_depends_on_holders(a: TableView, b: TableView, ssrc: u32)
    requires
        a.slots.len() == b.slots.len(),
        forall|i: int|
            0 <= i < a.slots.len() ==> {
                &&& (#[trigger] a.slots[i]).active == b.slots[i].active
                &&& a.slots[i].ssrc == b.slots[i].ssrc
            },
    ensures
        a.slot_of(ssrc) == b.slot_of(ssrc),
{
    let holds = |s: SlotView| s.is(ssrc);
    law_first_slot(a.slots, holds, 0);
    law_first_slot(b.slots, holds, 0);
    assert forall|i: int| 0 <= i < a.slots.len() implies holds(#[trigger] a.slots[i]) == holds(
        b.slots[i],
    ) by {}
    match (a.slot_of(ssrc), b.slot_of(ssrc)) {
        (Some(i), Some(j)) => {
            assert(holds(b.slots[i]) && holds(a.slots[j]));
        },
        (Some(i), None) => {
            assert(holds(b.slots[i]));
        },
        (None, Some(j)) => {
            assert(holds(a.slots[j]));
        },
        (None, None) => {},
    }
}

/// A datagram is an audio packet with this header and these samples, none of them
/// muted.
#[verifier::opaque]
pub open spec fn carries(datagram: Seq<u8>, header: Header, pcm: Seq<i16>) -> bool {
    &&& Header::parsed(datagram) == Some(header)
    &&& PacketType::of_code(header.packet_type) == Some(PacketType::Audio)
    &&& is_playable(header, datagram)
    &&& frames_in(datagram) == pcm.len()
    &&& !header.is_muted()
    &&& audio_of(header, datagram) == Some(pcm)
}

/// The samples of the `j`th packet.
pub open spec fn samples_of(s: StreamView, queue: Seq<i16>, j: int) -> Seq<i16> {
    queue.subrange(j * s.frames_per_packet, (j + 1) * s.frames_per_packet)
}

/// Every datagram is the packet the stream makes at that point.
spec fn all_carry(s: StreamView, shared: TxShared, queue: Seq<i16>, datagrams: Seq<Seq<u8>>) -> bool {
    &&& forall|j: int|
        0 <= j < datagrams.len() ==> carries(
            #[trigger] datagrams[j],
            s.header(shared, j),
            samples_of(s, queue, j),
        )
    &&& datagrams.len() * s.frames_per_packet <= queue.len()
    &&& 0 < s.frames_per_packet <= MAX_FRAMES_PER_PACKET
}

proof fn lemma_all_carry(
    s: StreamView,
    shared: TxShared,
    queue: Seq<i16>,
    datagrams: Seq<Seq<u8>>,
)
    requires
        0 < s.frames_per_packet <= MAX_FRAMES_PER_PACKET,
        datagrams.len() <= s.whole_packets(queue),
        !shared.muted,
        forall|j: int|
            0 <= j < datagrams.len() ==> #[trigger] datagrams[j] == s.packet(shared, queue, j),
    ensures
        all_carry(s, shared, queue, datagrams),
{
    let fpp = s.frames_per_packet as int;
    let q = queue.len() as int;
    let k = datagrams.len() as int;
    assert(k * fpp <= q) by (nonlinear_arith)
        requires
            0 <= k <= q / fpp,
            fpp > 0,
    ;
    assert forall|j: int| 0 <= j < datagrams.len() implies carries(
        #[trigger] datagrams[j],
        s.header(shared, j),
        samples_of(s, queue, j),
    ) by {
        law_packet_reads_back(s, shared, queue, j);
        assert((j + 1) * fpp == j * fpp + fpp && 0 <= j * fpp && (j + 1) * fpp <= q)
            by (nonlinear_arith)
            requires
                0 <= j < q / fpp,
                fpp > 0,
        ;
        reveal(carries);
    }
}

/// What a playable audio packet does at a receiver whose slot expects it after a gap
/// of `gap` frames.
proof fn lemma_expected_packet(
    r: RouteView,
    slot: int,
    datagram: Seq<u8>,
    header: Header,
    pcm: Seq<i16>,
    gap: nat,
    now_ms: int,
)
    requires
        carries(datagram, header, pcm),
        0 <= slot < r.table.slots.len(),
        r.writers.len() == r.table.slots.len(),
        r.table.slot_of(header.ssrc) == Some(slot),
        !r.table.slots[slot].jitter.resync,
        r.writers[slot].primed,
        r.writers[slot].have_seq,
        r.writers[slot].expected_seq == header.seq,
        header.timestamp == wrap32(r.writers[slot].write_ts + gap),
        r.table.slots[slot].jitter.wf(),
        gap <= r.table.slots[slot].jitter.max_gap,
        gap < 0x8000_0000,
        r.table.slots[slot].jitter.queue.len() + gap + pcm.len()
            <= r.table.slots[slot].jitter.capacity,
    ensures
        ({
            let (answer, after) = r.routed(datagram, now_ms);
            let before = r.table.slots[slot].jitter;
            let now = after.table.slots[slot].jitter;
            let w = after.writers[slot];
            &&& answer == (Polled::Audio { ssrc: header.ssrc, frames: pcm.len() as usize })
            &&& now.queue == before.queue + silence(gap) + pcm
            &&& now.counters.lost == before.counters.lost
            &&& now.counters.late == before.counters.late
            &&& now.counters.resyncs == before.counters.resyncs
            &&& now == (JitterView {
                queue: now.queue,
                counters: now.counters,
                written: before.written + gap + pcm.len(),
                ..before
            })
            &&& after.table.slots.len() == r.table.slots.len()
            &&& forall|k: int|
                0 <= k < r.table.slots.len() && k != slot ==> #[trigger] after.table.slots[k]
                    == r.table.slots[k]
            &&& after.writers.len() == r.writers.len()
            &&& after.table.slot_of(header.ssrc) == Some(slot)
            &&& w.primed
            &&& w.have_seq
            &&& w.expected_seq == wrap32(header.seq + 1)
            &&& w.write_ts == wrap32(header.timestamp + pcm.len())
        }),
{
    reveal(carries);
    let known = RouteView { shared: r.shared.counted(), ..r };
    let after = r.routed(datagram, now_ms).1;
    assert(after == known.after_audio(header, datagram, now_ms));
    let seated = known.after_acquire(header.ssrc, now_ms);
    let before = r.table.slots[slot].jitter;
    let w = r.writers[slot];
    law_first_slot(r.table.slots, |x: SlotView| x.is(header.ssrc), 0);
    assert(seated.table.slots[slot].jitter == before);
    assert(seated.writers[slot] == w);
    assert(after.table.slots[slot].jitter == before.after_packet(
        w,
        header.seq,
        header.timestamp,
        Some(pcm),
        pcm.len(),
        false,
    ));
    law_next_packet_after_a_gap(before, w, gap, Some(pcm), pcm.len(), false);
    assert(payload(Some(pcm), pcm.len(), false) =~= pcm);
    assert forall|k: int| 0 <= k < r.table.slots.len() implies {
        &&& (#[trigger] after.table.slots[k]).active == r.table.slots[k].active
        &&& after.table.slots[k].ssrc == r.table.slots[k].ssrc
        &&& (k != slot ==> after.table.slots[k] == r.table.slots[k])
    } by {}
    lemma_slot_of_depends_on_holders(after.table, r.table, header.ssrc);
    assert(after.writers[slot] == before.writer_after(
        w,
        header.seq,
        header.timestamp,
        pcm.len(),
    ));
}

/// What a playable audio packet does at a receiver that has not met its sender.
proof fn lemma_first_packet(
    r: RouteView,
    datagram: Seq<u8>,
    header: Header,
    pcm: Seq<i16>,
    now_ms: int,
)
    requires
        carries(datagram, header, pcm),
        r.table.wf(),
        r.writers.len() == r.table.slots.len(),
        r.table.slot_of(header.ssrc) is None,
        r.table.free_slot() is Some,
        ({
            let v = r.table.slots[r.table.free_slot()->0].jitter;
            v.queue.len() == 0 && v.target + pcm.len() <= v.capacity
        }),
    ensures
        ({
            let slot = r.table.free_slot()->0;
            let (answer, after) = r.routed(datagram, now_ms);
            let v = r.table.slots[slot].jitter;
            let now = after.table.slots[slot].jitter;
            let w = after.writers[slot];
            &&& 0 <= slot < r.table.slots.len()
            &&& answer == (Polled::Audio { ssrc: header.ssrc, frames: pcm.len() as usize })
            &&& now == (JitterView {
                queue: silence(v.target) + pcm,
                counters: now.counters,
                written: v.written + v.target + pcm.len(),
                drop_before: v.written,
                resync: false,
                ..v
            })
            &&& after.table.slots.len() == r.table.slots.len()
            &&& after.writers.len() == r.writers.len()
            &&& after.table.slot_of(header.ssrc) == Some(slot)
            &&& w.primed
            &&& w.have_seq
            &&& w.expected_seq == wrap32(header.seq + 1)
            &&& w.write_ts == wrap32(header.timestamp + pcm.len())
        }),
{
    reveal(carries);
    let slot = r.table.free_slot()->0;
    let after = r.routed(datagram, now_ms).1;
    let holds = |x: SlotView| x.is(header.ssrc);
    law_first_slot(r.table.slots, holds, 0);
    law_first_slot(r.table.slots, |x: SlotView| !x.active, 0);
    let v = r.table.slots[slot].jitter;
    let w = WriterView::fresh(v.written);
    let fresh = v.after_reset();
    assert(after.table.slots[slot].jitter == fresh.after_packet(
        w,
        header.seq,
        header.timestamp,
        Some(pcm),
        pcm.len(),
        false,
    ));
    assert(payload(Some(pcm), pcm.len(), false) =~= pcm);
    assert(fresh.filler(w, header.timestamp) == v.target);
    assert(after.table.slots[slot].jitter.queue =~= silence(v.target) + pcm);
    law_first_slot(after.table.slots, holds, 0);
    assert(holds(after.table.slots[slot]));
    match after.table.slot_of(header.ssrc) {
        Some(i) => {
            assert(i != slot ==> after.table.slots[i] == r.table.slots[i]);
            assert(i != slot ==> !holds(r.table.slots[i]));
        },
        None => {},
    }
    assert(after.writers[slot] == fresh.writer_after(
        w,
        header.seq,
        header.timestamp,
        pcm.len(),
    ));
}

/// The receiver once these datagrams have come in, in this order.
pub open spec fn delivered(r: RouteView, datagrams: Seq<Seq<u8>>, now_ms: int) -> RouteView
    decreases datagrams.len(),
{
    if datagrams.len() == 0 {
        r
    } else {
        delivered(r, datagrams.drop_last(), now_ms).routed(datagrams.last(), now_ms).1
    }
}

/// Where the stream has got to after `j` packets, and what the next one's header
/// says.
proof fn lemma_header_follows(s: StreamView, shared: TxShared, j: nat)
    ensures
        s.header(shared, j as int).ssrc == s.ssrc,
        s.after(shared, j).ssrc == s.ssrc,
        s.header(shared, j as int).seq == s.after(shared, j).seq,
        j > 0 ==> s.header(shared, j as int).timestamp == s.after(shared, j).timestamp,
        s.header(shared, 0).timestamp == wrap32(s.timestamp + shared.pending_gap),
        s.after(shared, j + 1).seq == wrap32(s.header(shared, j as int).seq + 1),
        s.after(shared, j + 1).timestamp == wrap32(
            s.header(shared, j as int).timestamp + s.frames_per_packet,
        ),
{
    let fpp = s.frames_per_packet as int;
    assert((j + 1) * fpp == j * fpp + fpp && 0 * fpp == 0) by (nonlinear_arith);
    let a = s.timestamp + shared.pending_gap;
    lemma_wrap32_sum(a, j * fpp, fpp);
    lemma_wrap32_sum(s.seq as int, j as int, 1);
}

/// What `k` packets leave in the slot of a receiver that was in step with its sender.
spec fn all_arrived(
    before: JitterView,
    slot: int,
    s: StreamView,
    shared: TxShared,
    queue: Seq<i16>,
    k: nat,
    after: RouteView,
) -> bool {
    let n = k * s.frames_per_packet;
    let now = after.table.slots[slot].jitter;
    let gap = if k == 0 {
        0
    } else {
        shared.pending_gap as nat
    };
    &&& now.queue == before.queue + silence(gap) + queue.take(n as int)
    &&& now.counters.lost == before.counters.lost
    &&& now.counters.late == before.counters.late
    &&& now.counters.resyncs == before.counters.resyncs
    &&& now == (JitterView {
        queue: now.queue,
        counters: now.counters,
        written: before.written + gap + n,
        ..before
    })
    &&& in_step(after, slot, s.after(shared, k))
}

/// One packet more.
proof fn lemma_arrives_next(
    before: JitterView,
    slot: int,
    s: StreamView,
    shared: TxShared,
    queue: Seq<i16>,
    j: nat,
    mid: RouteView,
    datagram: Seq<u8>,
    now_ms: int,
)
    requires
        before.wf(),
        0 < s.frames_per_packet <= MAX_FRAMES_PER_PACKET,
        all_arrived(before, slot, s, shared, queue, j, mid),
        carries(datagram, s.header(shared, j as int), samples_of(s, queue, j as int)),
        (j + 1) * s.frames_per_packet <= queue.len(),
        shared.pending_gap <= before.max_gap,
        shared.pending_gap < 0x8000_0000,
        before.written + shared.pending_gap + (j + 1) * s.frames_per_packet <= u64::MAX,
        before.queue.len() + shared.pending_gap + (j + 1) * s.frames_per_packet
            <= before.capacity,
    ensures
        all_arrived(before, slot, s, shared, queue, j + 1, mid.routed(datagram, now_ms).1),
{
    let fpp = s.frames_per_packet as int;
    assert((j + 1) * fpp == j * fpp + fpp && j * fpp >= 0 && 0 * fpp == 0) by (nonlinear_arith)
        requires
            fpp >= 0,
    ;
    lemma_header_follows(s, shared, j);
    let pcm = samples_of(s, queue, j as int);
    assert(pcm.len() == fpp);
    let gap = if j == 0 {
        shared.pending_gap as nat
    } else {
        0
    };
    let held = mid.table.slots[slot].jitter;
    assert(held.queue.len() + gap == before.queue.len() + shared.pending_gap + j * fpp);
    lemma_expected_packet(mid, slot, datagram, s.header(shared, j as int), pcm, gap, now_ms);
    let now = mid.routed(datagram, now_ms).1.table.slots[slot].jitter;
    assert(now.queue =~= before.queue + silence(shared.pending_gap as nat) + queue.take(
        (j + 1) * fpp,
    ));
}

proof fn lemma_stream_arrives(
    r: RouteView,
    slot: int,
    s: StreamView,
    shared: TxShared,
    queue: Seq<i16>,
    datagrams: Seq<Seq<u8>>,
    now_ms: int,
)
    requires
        in_step(r, slot, s),
        all_carry(s, shared, queue, datagrams),
        r.table.slots[slot].jitter.wf(),
        shared.pending_gap <= r.table.slots[slot].jitter.max_gap,
        shared.pending_gap < 0x8000_0000,
        r.table.slots[slot].jitter.written + shared.pending_gap + datagrams.len()
            * s.frames_per_packet <= u64::MAX,
        r.table.slots[slot].jitter.queue.len() + shared.pending_gap + datagrams.len()
            * s.frames_per_packet <= r.table.slots[slot].jitter.capacity,
    ensures
        all_arrived(
            r.table.slots[slot].jitter,
            slot,
            s,
            shared,
            queue,
            datagrams.len(),
            delivered(r, datagrams, now_ms),
        ),
    decreases datagrams.len(),
{
    let fpp = s.frames_per_packet as int;
    let k = datagrams.len() as int;
    let before = r.table.slots[slot].jitter;
    if k == 0 {
        assert(0 * s.frames_per_packet == 0) by (nonlinear_arith);
        assert(before.queue + silence(0) + queue.take(0) =~= before.queue);
    } else {
        let rest = datagrams.drop_last();
        let j = (k - 1) as nat;
        assert(j * s.frames_per_packet == k * fpp - fpp && (j + 1) * fpp == k * fpp && j
            * s.frames_per_packet >= 0) by (nonlinear_arith)
            requires
                j == k - 1,
                k > 0,
                fpp == s.frames_per_packet,
        ;
        assert forall|i: int| 0 <= i < rest.len() implies carries(
            #[trigger] rest[i],
            s.header(shared, i),
            samples_of(s, queue, i),
        ) by {
            assert(rest[i] == datagrams[i]);
        }
        lemma_stream_arrives(r, slot, s, shared, queue, rest, now_ms);
        assert(carries(
            datagrams[j as int],
            s.header(shared, j as int),
            samples_of(s, queue, j as int),
        ));
        lemma_arrives_next(
            before,
            slot,
            s,
            shared,
            queue,
            j,
            delivered(r, rest, now_ms),
            datagrams.last(),
            now_ms,
        );
    }
}

/// A stream, capture ring to jitter buffer: a receiver in step with a sender ends up
/// with every captured sample, in order and with nothing between them, behind as much
/// silence as frames were thrown away before the first of them; and it is in step for
/// what comes next. The datagrams are those the sender makes of its ring.
pub proof fn law_a_stream_arrives_sample_for_sample(
    r: RouteView,
    slot: int,
    s: StreamView,
    shared: TxShared,
    queue: Seq<i16>,
    datagrams: Seq<Seq<u8>>,
    now_ms: int,
)
    requires
        in_step(r, slot, s),
        0 < s.frames_per_packet <= MAX_FRAMES_PER_PACKET,
        0 < datagrams.len() <= s.whole_packets(queue),
        forall|j: int|
            0 <= j < datagrams.len() ==> #[trigger] datagrams[j] == s.packet(shared, queue, j),
        !shared.muted,
        r.table.slots[slot].jitter.wf(),
        shared.pending_gap <= r.table.slots[slot].jitter.max_gap,
        shared.pending_gap < 0x8000_0000,
        r.table.slots[slot].jitter.written + shared.pending_gap + datagrams.len()
            * s.frames_per_packet <= u64::MAX,
        r.table.slots[slot].jitter.queue.len() + shared.pending_gap + datagrams.len()
            * s.frames_per_packet <= r.table.slots[slot].jitter.capacity,
    ensures
        ({
            let n = datagrams.len() * s.frames_per_packet;
            let after = delivered(r, datagrams, now_ms);
            let before = r.table.slots[slot].jitter;
            let now = after.table.slots[slot].jitter;
            &&& now.queue == before.queue + silence(shared.pending_gap as nat) + queue.take(
                n as int,
            )
            &&& now.counters.lost == before.counters.lost
            &&& now.counters.late == before.counters.late
            &&& now.counters.resyncs == before.counters.resyncs
            &&& in_step(after, slot, s.after(shared, datagrams.len()))
        }),
{
    lemma_all_carry(s, shared, queue, datagrams);
    lemma_stream_arrives(r, slot, s, shared, queue, datagrams, now_ms);
}

/// A microphone's capture, heard at the receiver: at a receiver that has not met it,
/// it gets the first free slot, and the mixer hears a full target of silence and then
/// every captured sample, in order. The buffer is taken to be below its trim ceiling.
pub proof fn law_what_is_captured_is_what_is_heard(
    r: RouteView,
    s: StreamView,
    shared: TxShared,
    queue: Seq<i16>,
    datagrams: Seq<Seq<u8>>,
    now_ms: int,
)
    requires
        r.table.wf(),
        r.writers.len() == r.table.slots.len(),
        r.table.slot_of(s.ssrc) is None,
        r.table.free_slot() is Some,
        0 < s.frames_per_packet <= MAX_FRAMES_PER_PACKET,
        0 < datagrams.len() <= s.whole_packets(queue),
        forall|j: int|
            0 <= j < datagrams.len() ==> #[trigger] datagrams[j] == s.packet(shared, queue, j),
        !shared.muted,
        ({
            let v = r.table.slots[r.table.free_slot()->0].jitter;
            &&& v.queue.len() == 0
            &&& v.target + datagrams.len() * s.frames_per_packet <= v.max_fill
            &&& v.has_headroom()
        }),
    ensures
        ({
            let slot = r.table.free_slot()->0;
            let n = datagrams.len() * s.frames_per_packet;
            let target = r.table.slots[slot].jitter.target;
            let after = delivered(r, datagrams, now_ms);
            after.table.slots[slot].jitter.heard(target + n) == silence(target) + queue.take(
                n as int,
            )
        }),
{
    lemma_all_carry(s, shared, queue, datagrams);
    lemma_heard(r, s, shared, queue, datagrams, now_ms);
    let slot = r.table.free_slot()->0;
    let n = datagrams.len() * s.frames_per_packet;
    let target = r.table.slots[slot].jitter.target;
    let now = delivered(r, datagrams, now_ms).table.slots[slot].jitter;
    law_reads_come_out_in_order(now, target + n);
    assert(now.queue.take((target + n) as int) =~= now.queue);
}

/// What a run of packets leaves in the slot of a receiver that had not met their
/// sender.
spec fn heard_from_the_start(
    v: JitterView,
    slot: int,
    s: StreamView,
    shared: TxShared,
    queue: Seq<i16>,
    k: nat,
    after: RouteView,
) -> bool {
    let n = k * s.frames_per_packet;
    let now = after.table.slots[slot].jitter;
    &&& now == (JitterView {
        queue: silence(v.target) + queue.take(n as int),
        counters: now.counters,
        written: v.written + v.target + n,
        drop_before: v.written,
        resync: false,
        ..v
    })
    &&& in_step(after, slot, s.after(shared, k))
}

/// One packet more.
proof fn lemma_heard_next(
    v: JitterView,
    slot: int,
    s: StreamView,
    shared: TxShared,
    queue: Seq<i16>,
    j: nat,
    mid: RouteView,
    datagram: Seq<u8>,
    now_ms: int,
)
    requires
        v.wf(),
        v.queue.len() == 0,
        v.has_headroom(),
        j > 0,
        0 < s.frames_per_packet <= MAX_FRAMES_PER_PACKET,
        heard_from_the_start(v, slot, s, shared, queue, j, mid),
        carries(datagram, s.header(shared, j as int), samples_of(s, queue, j as int)),
        (j + 1) * s.frames_per_packet <= queue.len(),
        v.target + (j + 1) * s.frames_per_packet <= v.max_fill,
    ensures
        heard_from_the_start(
            v,
            slot,
            s,
            shared,
            queue,
            j + 1,
            mid.routed(datagram, now_ms).1,
        ),
{
    let fpp = s.frames_per_packet as int;
    assert((j + 1) * fpp == j * fpp + fpp && j * fpp >= 0) by (nonlinear_arith)
        requires
            fpp >= 0,
    ;
    lemma_header_follows(s, shared, j);
    let pcm = samples_of(s, queue, j as int);
    let before = mid.table.slots[slot].jitter;
    assert(before.queue.len() == v.target + j * fpp);
    assert(pcm.len() == fpp);
    lemma_expected_packet(mid, slot, datagram, s.header(shared, j as int), pcm, 0, now_ms);
    let now = mid.routed(datagram, now_ms).1.table.slots[slot].jitter;
    assert(now.queue =~= silence(v.target) + queue.take((j + 1) * fpp));
}

/// The first packet.
proof fn lemma_heard_first(
    r: RouteView,
    s: StreamView,
    shared: TxShared,
    queue: Seq<i16>,
    datagram: Seq<u8>,
    now_ms: int,
)
    requires
        r.table.wf(),
        r.writers.len() == r.table.slots.len(),
        r.table.slot_of(s.ssrc) is None,
        r.table.free_slot() is Some,
        0 < s.frames_per_packet <= MAX_FRAMES_PER_PACKET,
        carries(datagram, s.header(shared, 0), samples_of(s, queue, 0)),
        s.frames_per_packet <= queue.len(),
        ({
            let v = r.table.slots[r.table.free_slot()->0].jitter;
            v.queue.len() == 0 && v.target + s.frames_per_packet <= v.max_fill
        }),
    ensures
        0 <= r.table.free_slot()->0 < r.table.slots.len(),
        heard_from_the_start(
            r.table.slots[r.table.free_slot()->0].jitter,
            r.table.free_slot()->0,
            s,
            shared,
            queue,
            1,
            r.routed(datagram, now_ms).1,
        ),
{
    let fpp = s.frames_per_packet;
    assert(0 * fpp == 0 && (0 + 1) * fpp == fpp && 1 * fpp == fpp) by (nonlinear_arith);
    law_first_slot(r.table.slots, |x: SlotView| !x.active, 0);
    lemma_header_follows(s, shared, 0);
    let pcm = samples_of(s, queue, 0);
    assert(pcm =~= queue.take(fpp as int));
    lemma_first_packet(r, datagram, s.header(shared, 0), pcm, now_ms);
}

proof fn lemma_heard(
    r: RouteView,
    s: StreamView,
    shared: TxShared,
    queue: Seq<i16>,
    datagrams: Seq<Seq<u8>>,
    now_ms: int,
)
    requires
        r.table.wf(),
        r.writers.len() == r.table.slots.len(),
        r.table.slot_of(s.ssrc) is None,
        r.table.free_slot() is Some,
        datagrams.len() > 0,
        all_carry(s, shared, queue, datagrams),
        ({
            let v = r.table.slots[r.table.free_slot()->0].jitter;
            &&& v.queue.len() == 0
            &&& v.target + datagrams.len() * s.frames_per_packet <= v.max_fill
            &&& v.has_headroom()
        }),
    ensures
        0 <= r.table.free_slot()->0 < r.table.slots.len(),
        heard_from_the_start(
            r.table.slots[r.table.free_slot()->0].jitter,
            r.table.free_slot()->0,
            s,
            shared,
            queue,
            datagrams.len(),
            delivered(r, datagrams, now_ms),
        ),
    decreases datagrams.len(),
{
    let fpp = s.frames_per_packet as int;
    let k = datagrams.len() as int;
    let slot = r.table.free_slot()->0;
    law_first_slot(r.table.slots, |x: SlotView| !x.active, 0);
    let v = r.table.slots[slot].jitter;
    let rest = datagrams.drop_last();
    let j = (k - 1) as nat;
    assert(j * s.frames_per_packet == k * fpp - fpp && (j + 1) * fpp == k * fpp && fpp <= k * fpp)
        by (nonlinear_arith)
        requires
            j == k - 1,
            k > 0,
            fpp == s.frames_per_packet,
    ;
    assert(carries(datagrams[j as int], s.header(shared, j as int), samples_of(s, queue, j as int)));
    if j == 0 {
        assert(delivered(r, rest, now_ms) == r);
        lemma_heard_first(r, s, shared, queue, datagrams.last(), now_ms);
    } else {
        assert forall|i: int| 0 <= i < rest.len() implies carries(
            #[trigger] rest[i],
            s.header(shared, i),
            samples_of(s, queue, i),
        ) by {
            assert(rest[i] == datagrams[i]);
        }
        lemma_heard(r, s, shared, queue, rest, now_ms);
        lemma_heard_next(
            v,
            slot,
            s,
            shared,
            queue,
            j,
            delivered(r, rest, now_ms),
            datagrams.last(),
            now_ms,
        );
    }
}

} // verus!
