//! What holds of a jitter buffer over packets, reads and resets.
use vstd::prelude::*;

verus! {

use crate::jitter::{payload, Counters, JitterStats, JitterView, Placement, WriterView};
use crate::ring::{least, silence};
use crate::util::{lemma_wrap32_sum, wrap32};

/// Exactly as many frames go in for a packet as it was said to carry, whatever it
/// carries: a short payload is padded, a long one cut, a muted one silent.
pub proof fn law_payload_is_exactly_as_long_as_promised(
    pcm: Option<Seq<i16>>,
    frames: nat,
    muted: bool,
)
    ensures
        payload(pcm, frames, muted).len() == frames,
        forall|i: int|
            0 <= i < frames ==> #[trigger] payload(pcm, frames, muted)[i] == (if !muted
                && pcm is Some && i < pcm->0.len() {
                pcm->0[i]
            } else {
                0i16
            }),
{
}

/// No operation makes the buffer report a depth larger than it can hold.
pub proof fn law_depth_never_exceeds_capacity(
    v: JitterView,
    w: WriterView,
    seq: u32,
    timestamp: u32,
    pcm: Option<Seq<i16>>,
    frames: nat,
    muted: bool,
    n: nat,
)
    requires
        v.wf(),
    ensures
        v.depth() <= v.capacity,
        v.after_reset().wf(),
        v.after_reset().depth() == 0,
        v.after_read(n).wf(),
        v.has_headroom() ==> v.after_packet(w, seq, timestamp, pcm, frames, muted).wf(),
{
    law_payload_is_exactly_as_long_as_promised(pcm, frames, muted);
}

/// Neither a packet nor a reset touches what the reader works on: the read position
/// and the audio already waiting stay as they are.
pub proof fn law_writer_leaves_the_reader_alone(
    v: JitterView,
    w: WriterView,
    seq: u32,
    timestamp: u32,
    pcm: Option<Seq<i16>>,
    frames: nat,
    muted: bool,
)
    requires
        v.wf(),
    ensures
        ({
            let p = v.after_packet(w, seq, timestamp, pcm, frames, muted);
            &&& p.read == v.read
            &&& p.queue.take(v.queue.len() as int) == v.queue
        }),
        v.after_reset().read == v.read,
        v.after_reset().queue == v.queue,
{
}

/// A read leaves everything that is the writer's alone.
pub proof fn law_reader_leaves_the_writer_alone(v: JitterView, n: nat)
    requires
        v.wf(),
    ensures
        v.after_read(n).written == v.written,
        v.after_read(n).drop_before == v.drop_before,
        v.after_read(n).counters.packets == v.counters.packets,
        v.after_read(n).counters.lost == v.counters.lost,
        v.after_read(n).counters.late == v.counters.late,
        v.after_read(n).counters.concealed == v.counters.concealed,
        v.after_read(n).counters.resyncs == v.counters.resyncs,
{
}

/// The first packet of a session is played behind a full target of silence.
pub proof fn law_first_packet_primes(
    target_frames: nat,
    seq: u32,
    timestamp: u32,
    pcm: Option<Seq<i16>>,
    frames: nat,
    muted: bool,
)
    requires
        0 < frames,
        JitterView::fresh(target_frames).target + frames <= JitterView::fresh(
            target_frames,
        ).capacity,
    ensures
        ({
            let v = JitterView::fresh(target_frames);
            let p = v.after_packet(WriterView::fresh(0), seq, timestamp, pcm, frames, muted);
            &&& p.queue == silence(v.target) + payload(pcm, frames, muted)
            &&& p.depth() == v.target + frames
            &&& p.counters.packets == 1
            &&& p.counters.resyncs == 1
            &&& p.counters.lost == 0
            &&& p.counters.late == 0
            &&& p.counters.concealed == 0
        }),
{
    law_payload_is_exactly_as_long_as_promised(pcm, frames, muted);
}

/// What is left of a buffer and its writer once a run of packets has come in, each
/// taking up where the one before it ended.
pub open spec fn in_order(
    v: JitterView,
    w: WriterView,
    seq: u32,
    timestamp: u32,
    packets: Seq<Seq<i16>>,
) -> (JitterView, WriterView)
    decreases packets.len(),
{
    if packets.len() == 0 {
        (v, w)
    } else {
        let first = packets[0];
        in_order(
            v.after_packet(w, seq, timestamp, Some(first), first.len(), false),
            v.writer_after(w, seq, timestamp, first.len()),
            wrap32(seq + 1) as u32,
            wrap32(timestamp + first.len()) as u32,
            packets.drop_first(),
        )
    }
}

/// A packet that takes up where the stream has got to goes in whole behind what is
/// there, with nothing lost, late, concealed or re-primed.
pub proof fn law_in_order_packet_is_appended(
    v: JitterView,
    w: WriterView,
    pcm: Option<Seq<i16>>,
    frames: nat,
    muted: bool,
)
    requires
        w.primed,
        w.have_seq,
        !v.resync,
        0 < frames,
        v.queue.len() + frames <= v.capacity,
    ensures
        v.after_packet(w, w.expected_seq, w.write_ts, pcm, frames, muted) == (JitterView {
            queue: v.queue + payload(pcm, frames, muted),
            written: v.written + frames,
            counters: Counters {
                packets: wrap32(v.counters.packets + 1) as u32,
                ..v.counters
            },
            ..v
        }),
        v.writer_after(w, w.expected_seq, w.write_ts, frames) == (WriterView {
            written: v.written + frames,
            write_ts: wrap32(w.write_ts + frames) as u32,
            expected_seq: wrap32(w.expected_seq + 1) as u32,
            ..w
        }),
{
    law_payload_is_exactly_as_long_as_promised(pcm, frames, muted);
    assert(v.placement(w, w.write_ts) == Placement::After(0));
    assert(v.missing(w, w.expected_seq) == 0);
    let p = v.after_packet(w, w.expected_seq, w.write_ts, pcm, frames, muted);
    assert(p.queue =~= v.queue + payload(pcm, frames, muted));
}

/// What an in-order run of packets leaves behind.
spec fn kept_whole(v: JitterView, w: WriterView, packets: Seq<Seq<i16>>) -> bool {
    let after = in_order(v, w, w.expected_seq, w.write_ts, packets);
    &&& after.0 == (JitterView {
        queue: v.queue + packets.flatten(),
        written: v.written + packets.flatten().len(),
        counters: Counters {
            packets: wrap32(v.counters.packets + packets.len()) as u32,
            ..v.counters
        },
        ..v
    })
    &&& after.1 == (WriterView {
        written: if packets.len() == 0 {
            w.written
        } else {
            v.written + packets.flatten().len()
        },
        write_ts: wrap32(w.write_ts + packets.flatten().len()) as u32,
        expected_seq: wrap32(w.expected_seq + packets.len()) as u32,
        ..w
    })
}

proof fn lemma_in_order(v: JitterView, w: WriterView, packets: Seq<Seq<i16>>)
    requires
        w.primed,
        w.have_seq,
        !v.resync,
        forall|i: int| 0 <= i < packets.len() ==> (#[trigger] packets[i]).len() > 0,
        v.queue.len() + packets.flatten().len() <= v.capacity,
    ensures
        kept_whole(v, w, packets),
    decreases packets.len(),
{
    if packets.len() == 0 {
        assert(packets.flatten() =~= Seq::<i16>::empty());
        assert(v.queue + packets.flatten() =~= v.queue);
    } else {
        let first = packets[0];
        let rest = packets.drop_first();
        let p = JitterView {
            queue: v.queue + first,
            written: v.written + first.len(),
            counters: Counters {
                packets: wrap32(v.counters.packets + 1) as u32,
                ..v.counters
            },
            ..v
        };
        let pw = WriterView {
            written: v.written + first.len(),
            write_ts: wrap32(w.write_ts + first.len()) as u32,
            expected_seq: wrap32(w.expected_seq + 1) as u32,
            ..w
        };
        assert(packets.flatten() == first + rest.flatten()) by {
            assert(packets.first() == first);
        }
        assert(in_order(v, w, w.expected_seq, w.write_ts, packets) == in_order(
            p,
            pw,
            pw.expected_seq,
            pw.write_ts,
            rest,
        )) by {
            law_in_order_packet_is_appended(v, w, Some(first), first.len(), false);
            assert(payload(Some(first), first.len(), false) =~= first);
        }
        assert forall|i: int| 0 <= i < rest.len() implies (#[trigger] rest[i]).len() > 0 by {
            assert(rest[i] == packets[i + 1]);
        }
        lemma_in_order(p, pw, rest);
        assert(v.queue + packets.flatten() =~= p.queue + rest.flatten());
        if rest.len() == 0 {
            assert(rest.flatten() =~= Seq::<i16>::empty());
        }
        lemma_wrap32_sum(v.counters.packets as int, 1, rest.len() as int);
        lemma_wrap32_sum(w.expected_seq as int, 1, rest.len() as int);
        lemma_wrap32_sum(w.write_ts as int, first.len() as int, rest.flatten().len() as int);
    }
}

/// An in-order stream lands back to back behind what is there, with nothing lost,
/// late, concealed or re-primed - also where sequence numbers and timestamps wrap.
pub proof fn law_in_order_stream_is_kept_whole(
    v: JitterView,
    w: WriterView,
    packets: Seq<Seq<i16>>,
)
    requires
        v.wf(),
        w.primed,
        w.have_seq,
        !v.resync,
        forall|i: int| 0 <= i < packets.len() ==> (#[trigger] packets[i]).len() > 0,
        v.queue.len() + packets.flatten().len() <= v.capacity,
    ensures
        ({
            let after = in_order(v, w, w.expected_seq, w.write_ts, packets);
            &&& after.0.queue == v.queue + packets.flatten()
            &&& after.0.depth() == v.depth() + packets.flatten().len()
            &&& after.0.counters.packets == wrap32(v.counters.packets + packets.len())
            &&& after.0.counters.lost == v.counters.lost
            &&& after.0.counters.late == v.counters.late
            &&& after.0.counters.concealed == v.counters.concealed
            &&& after.0.counters.resyncs == v.counters.resyncs
            &&& after.1.write_ts == wrap32(w.write_ts + packets.flatten().len())
            &&& after.1.expected_seq == wrap32(w.expected_seq + packets.len())
        }),
{
    lemma_in_order(v, w, packets);
}

/// A gap on the timeline becomes exactly as many frames of silence as are missing,
/// so what comes after it still lands where its timestamp says.
pub proof fn law_gap_is_concealed_exactly(
    v: JitterView,
    w: WriterView,
    seq: u32,
    gap: nat,
    pcm: Option<Seq<i16>>,
    frames: nat,
    muted: bool,
)
    requires
        v.wf(),
        w.primed,
        !v.resync,
        gap <= v.max_gap,
        gap < 0x8000_0000,
        0 < frames,
        v.queue.len() + gap + frames <= v.capacity,
    ensures
        ({
            let timestamp = wrap32(w.write_ts + gap) as u32;
            let p = v.after_packet(w, seq, timestamp, pcm, frames, muted);
            &&& p.queue == v.queue + silence(gap) + payload(pcm, frames, muted)
            &&& p.counters.concealed == wrap32(v.counters.concealed + gap)
            &&& v.writer_after(w, seq, timestamp, frames).write_ts == wrap32(
                w.write_ts + gap + frames,
            )
        }),
{
    let timestamp = wrap32(w.write_ts + gap) as u32;
    assert(v.placement(w, timestamp) == Placement::After(gap));
}

/// The next packet in sequence, after a gap on the timeline: silence for the gap, then
/// its audio, and nothing else changes but the counts of packets and concealed frames.
pub proof fn law_next_packet_after_a_gap(
    v: JitterView,
    w: WriterView,
    gap: nat,
    pcm: Option<Seq<i16>>,
    frames: nat,
    muted: bool,
)
    requires
        w.primed,
        w.have_seq,
        !v.resync,
        gap <= v.max_gap,
        gap < 0x8000_0000,
        0 < frames,
        v.queue.len() + gap + frames <= v.capacity,
    ensures
        ({
            let timestamp = wrap32(w.write_ts + gap) as u32;
            &&& v.after_packet(w, w.expected_seq, timestamp, pcm, frames, muted) == (JitterView {
                queue: v.queue + silence(gap) + payload(pcm, frames, muted),
                written: v.written + gap + frames,
                counters: Counters {
                    packets: wrap32(v.counters.packets + 1) as u32,
                    concealed: wrap32(v.counters.concealed + gap) as u32,
                    ..v.counters
                },
                ..v
            })
            &&& v.writer_after(w, w.expected_seq, timestamp, frames) == (WriterView {
                written: v.written + gap + frames,
                write_ts: wrap32(timestamp + frames) as u32,
                expected_seq: wrap32(w.expected_seq + 1) as u32,
                ..w
            })
        }),
{
    law_payload_is_exactly_as_long_as_promised(pcm, frames, muted);
    let timestamp = wrap32(w.write_ts + gap) as u32;
    assert(v.placement(w, timestamp) == Placement::After(gap));
    assert(v.missing(w, w.expected_seq) == 0);
}

/// Where a run of packets ends, each of them some audio and how far into the run it
/// belongs.
pub open spec fn run_end(run: Seq<(nat, Seq<i16>)>) -> nat {
    if run.len() == 0 {
        0
    } else {
        run.last().0 + run.last().1.len()
    }
}

/// What is heard at `t` of a run of packets: the packet that belongs there, or
/// silence.
pub open spec fn heard_at(run: Seq<(nat, Seq<i16>)>, t: int) -> i16
    decreases run.len(),
{
    if run.len() == 0 {
        0
    } else {
        let (at, pcm) = run.last();
        if at <= t < at + pcm.len() {
            pcm[t - at]
        } else {
            heard_at(run.drop_last(), t)
        }
    }
}

/// No packet of a run is empty, none overlaps the one before it, and what is missing
/// between two of them is short enough to be concealed.
pub open spec fn is_run(run: Seq<(nat, Seq<i16>)>, max_gap: nat) -> bool
    decreases run.len(),
{
    run.len() > 0 ==> {
        let before = run_end(run.drop_last());
        &&& is_run(run.drop_last(), max_gap)
        &&& run.last().1.len() > 0
        &&& before <= run.last().0 <= before + max_gap
        &&& run.last().0 - before < 0x8000_0000
    }
}

/// The buffer and its writer once a run of packets has come in, numbered anyhow.
pub open spec fn after_run(
    v: JitterView,
    w: WriterView,
    run: Seq<(nat, Seq<i16>)>,
    seqs: spec_fn(int) -> u32,
) -> (JitterView, WriterView)
    decreases run.len(),
{
    if run.len() == 0 {
        (v, w)
    } else {
        let (p, pw) = after_run(v, w, run.drop_last(), seqs);
        let (at, pcm) = run.last();
        let seq = seqs(run.len() - 1);
        let timestamp = wrap32(w.write_ts + at) as u32;
        (
            p.after_packet(pw, seq, timestamp, Some(pcm), pcm.len(), false),
            p.writer_after(pw, seq, timestamp, pcm.len()),
        )
    }
}

/// Timestamps place audio: each packet of a run lands exactly as far into it as its
/// timestamp says, with silence where nothing came, whatever the packets are numbered
/// and whenever they arrive.
pub proof fn law_timestamps_place_audio(
    v: JitterView,
    w: WriterView,
    run: Seq<(nat, Seq<i16>)>,
    seqs: spec_fn(int) -> u32,
)
    requires
        w.primed,
        !v.resync,
        is_run(run, v.max_gap),
        v.queue.len() + run_end(run) <= v.capacity,
    ensures
        ({
            let (after, writer) = after_run(v, w, run, seqs);
            &&& after.queue == v.queue + Seq::new(run_end(run), |t: int| heard_at(run, t))
            &&& writer.write_ts == wrap32(w.write_ts + run_end(run))
            &&& writer.primed
            &&& !after.resync
            &&& after.capacity == v.capacity
            &&& after.max_gap == v.max_gap
        }),
    decreases run.len(),
{
    if run.len() == 0 {
        let (after, writer) = after_run(v, w, run, seqs);
        assert(after.queue =~= v.queue + Seq::new(0, |t: int| heard_at(run, t)));
    } else {
        let most = run.drop_last();
        law_timestamps_place_audio(v, w, most, seqs);
        let (p, pw) = after_run(v, w, most, seqs);
        let (at, pcm) = run.last();
        let so_far = run_end(most);
        let gap = (at - so_far) as nat;
        let timestamp = wrap32(w.write_ts + at) as u32;
        lemma_wrap32_sum(w.write_ts as int, so_far as int, gap as int);
        assert(timestamp == wrap32(pw.write_ts + gap) as u32);
        lemma_lands_after_a_gap(p, pw, seqs(run.len() - 1), gap, pcm);
        lemma_wrap32_sum(w.write_ts as int, so_far as int, (gap + pcm.len()) as int);
        lemma_run_goes_on(v.queue, run, v.max_gap);
    }
}

/// A packet lands behind the gap in front of it.
proof fn lemma_lands_after_a_gap(p: JitterView, pw: WriterView, seq: u32, gap: nat, pcm: Seq<i16>)
    requires
        pw.primed,
        !p.resync,
        gap <= p.max_gap,
        gap < 0x8000_0000,
        0 < pcm.len(),
        p.queue.len() + gap + pcm.len() <= p.capacity,
    ensures
        ({
            let timestamp = wrap32(pw.write_ts + gap) as u32;
            let after = p.after_packet(pw, seq, timestamp, Some(pcm), pcm.len(), false);
            let writer = p.writer_after(pw, seq, timestamp, pcm.len());
            &&& after.queue == p.queue + silence(gap) + pcm
            &&& writer.write_ts == wrap32(pw.write_ts + (gap + pcm.len()))
            &&& writer.primed
            &&& !after.resync
            &&& after.capacity == p.capacity
            &&& after.max_gap == p.max_gap
        }),
{
    let timestamp = wrap32(pw.write_ts + gap) as u32;
    assert(p.placement(pw, timestamp) == Placement::After(gap));
    assert(payload(Some(pcm), pcm.len(), false) =~= pcm);
    lemma_wrap32_sum(pw.write_ts as int, gap as int, pcm.len() as int);
}

/// A run goes on with the silence in front of its last packet, and the packet.
proof fn lemma_run_goes_on(queue: Seq<i16>, run: Seq<(nat, Seq<i16>)>, max_gap: nat)
    requires
        run.len() > 0,
        is_run(run, max_gap),
    ensures
        ({
            let most = run.drop_last();
            let gap = (run.last().0 - run_end(most)) as nat;
            queue + Seq::new(run_end(run), |t: int| heard_at(run, t)) == queue + Seq::new(
                run_end(most),
                |t: int| heard_at(most, t),
            ) + silence(gap) + run.last().1
        }),
{
    let most = run.drop_last();
    let (at, pcm) = run.last();
    let gap = (at - run_end(most)) as nat;
    let whole = Seq::new(run_end(run), |t: int| heard_at(run, t));
    let parts = Seq::new(run_end(most), |t: int| heard_at(most, t)) + silence(gap) + pcm;
    assert(whole.len() == parts.len());
    assert forall|t: int| 0 <= t < whole.len() implies whole[t] == parts[t] by {
        if t < at {
            assert(heard_at(run, t) == heard_at(most, t));
            if t >= run_end(most) {
                lemma_nothing_beyond_the_end(most, max_gap, t);
            }
        }
    }
    assert(whole =~= parts);
    assert(queue + whole =~= queue + Seq::new(run_end(most), |t: int| heard_at(most, t)) + silence(
        gap,
    ) + pcm);
}

/// A run is silent past its end.
proof fn lemma_nothing_beyond_the_end(run: Seq<(nat, Seq<i16>)>, max_gap: nat, t: int)
    requires
        is_run(run, max_gap),
        t >= run_end(run),
    ensures
        heard_at(run, t) == 0,
    decreases run.len(),
{
    if run.len() > 0 {
        lemma_nothing_beyond_the_end(run.drop_last(), max_gap, t);
    }
}

/// One call on a buffer, from either side.
pub enum Step {
    Packet { seq: u32, timestamp: u32, pcm: Option<Seq<i16>>, frames: nat, muted: bool },
    Read(nat),
}

/// Two calls that differ in a sequence number at most.
pub open spec fn same_but_for_seq(a: Step, b: Step) -> bool {
    match (a, b) {
        (
            Step::Packet { seq: _, timestamp, pcm, frames, muted },
            Step::Packet { seq: _, timestamp: t, pcm: p, frames: f, muted: m },
        ) => timestamp == t && pcm == p && frames == f && muted == m,
        (Step::Read(n), Step::Read(m)) => n == m,
        _ => false,
    }
}

/// Two buffers, each with its writer, that differ in what only sequence numbers
/// decide: the count of lost packets, and what the writers expect next.
pub open spec fn agree_but_for_seq(
    v1: JitterView,
    w1: WriterView,
    v2: JitterView,
    w2: WriterView,
) -> bool {
    &&& v1 == (JitterView {
        counters: Counters { lost: v1.counters.lost, ..v2.counters },
        ..v2
    })
    &&& w1 == (WriterView { have_seq: w1.have_seq, expected_seq: w1.expected_seq, ..w2 })
}

/// A buffer, its writer and everything the reads have handed on, after `steps` in
/// order.
pub open spec fn after_steps(v: JitterView, w: WriterView, steps: Seq<Step>) -> (
    JitterView,
    WriterView,
    Seq<Seq<i16>>,
)
    decreases steps.len(),
{
    if steps.len() == 0 {
        (v, w, Seq::empty())
    } else {
        let (v1, w1, heard) = after_steps(v, w, steps.drop_last());
        match steps.last() {
            Step::Packet { seq, timestamp, pcm, frames, muted } => (
                v1.after_packet(w1, seq, timestamp, pcm, frames, muted),
                v1.writer_after(w1, seq, timestamp, frames),
                heard,
            ),
            Step::Read(n) => (v1.after_read(n), w1, heard.push(v1.heard(n))),
        }
    }
}

/// A sequence number decides nothing but the count of lost packets: buffers that
/// agree on the rest still do after packets that differ in their sequence numbers
/// only, and after a read, which hands on the same samples in both.
pub proof fn law_a_sequence_number_only_counts_losses(
    v1: JitterView,
    w1: WriterView,
    v2: JitterView,
    w2: WriterView,
    seq1: u32,
    seq2: u32,
    timestamp: u32,
    pcm: Option<Seq<i16>>,
    frames: nat,
    muted: bool,
    n: nat,
)
    requires
        agree_but_for_seq(v1, w1, v2, w2),
    ensures
        agree_but_for_seq(
            v1.after_packet(w1, seq1, timestamp, pcm, frames, muted),
            v1.writer_after(w1, seq1, timestamp, frames),
            v2.after_packet(w2, seq2, timestamp, pcm, frames, muted),
            v2.writer_after(w2, seq2, timestamp, frames),
        ),
        agree_but_for_seq(v1.after_read(n), w1, v2.after_read(n), w2),
        v1.heard(n) == v2.heard(n),
        v1.depth() == v2.depth(),
        v1.stats() == (JitterStats { lost: v1.counters.lost, ..v2.stats() }),
{
    assert(v1.placement(w1, timestamp) == v2.placement(w2, timestamp));
    assert(v1.filler(w1, timestamp) == v2.filler(w2, timestamp));
}

/// Timestamps alone place audio, over any history: two fresh buffers of one target
/// that see the same packets and reads in the same order, but for the sequence
/// numbers, hand on the same samples in every read, and agree in depth and in every
/// statistic but the count of lost packets.
pub proof fn law_sequence_numbers_place_nothing(target: nat, a: Seq<Step>, b: Seq<Step>)
    requires
        a.len() == b.len(),
        forall|i: int| 0 <= i < a.len() ==> same_but_for_seq(#[trigger] a[i], b[i]),
    ensures
        ({
            let v = JitterView::fresh(target);
            let w = WriterView::fresh(0);
            let (v1, w1, heard1) = after_steps(v, w, a);
            let (v2, w2, heard2) = after_steps(v, w, b);
            &&& heard1 == heard2
            &&& v1.depth() == v2.depth()
            &&& v1.stats() == (JitterStats { lost: v1.stats().lost, ..v2.stats() })
            &&& agree_but_for_seq(v1, w1, v2, w2)
        }),
    decreases a.len(),
{
    let v = JitterView::fresh(target);
    let w = WriterView::fresh(0);
    if a.len() > 0 {
        assert forall|i: int| 0 <= i < a.len() - 1 implies same_but_for_seq(
            #[trigger] a.drop_last()[i],
            b.drop_last()[i],
        ) by {
            assert(same_but_for_seq(a[i], b[i]));
        }
        law_sequence_numbers_place_nothing(target, a.drop_last(), b.drop_last());
        assert(same_but_for_seq(a[a.len() - 1], b[b.len() - 1]));
        let (v1, w1, heard1) = after_steps(v, w, a.drop_last());
        let (v2, w2, heard2) = after_steps(v, w, b.drop_last());
        match (a.last(), b.last()) {
            (
                Step::Packet { seq: seq1, timestamp, pcm, frames, muted },
                Step::Packet { seq: seq2, timestamp: _, pcm: _, frames: _, muted: _ },
            ) => {
                law_a_sequence_number_only_counts_losses(
                    v1,
                    w1,
                    v2,
                    w2,
                    seq1,
                    seq2,
                    timestamp,
                    pcm,
                    frames,
                    muted,
                    0,
                );
            },
            (Step::Read(n), Step::Read(_)) => {
                law_a_sequence_number_only_counts_losses(
                    v1,
                    w1,
                    v2,
                    w2,
                    0,
                    0,
                    0,
                    None,
                    0,
                    false,
                    n,
                );
            },
            _ => {},
        }
    }
}

/// A packet whose slot has been written already changes nothing but the counters.
pub proof fn law_late_packet_is_dropped(
    v: JitterView,
    w: WriterView,
    seq: u32,
    timestamp: u32,
    pcm: Option<Seq<i16>>,
    frames: nat,
    muted: bool,
)
    requires
        v.wf(),
        w.primed,
        !v.resync,
        wrap32(timestamp - w.write_ts) >= 0x8000_0000,
    ensures
        ({
            let p = v.after_packet(w, seq, timestamp, pcm, frames, muted);
            &&& p.queue == v.queue
            &&& p.depth() == v.depth()
            &&& p.counters.late == wrap32(v.counters.late + 1)
            &&& v.writer_after(w, seq, timestamp, frames).write_ts == w.write_ts
        }),
{
    assert(v.placement(w, timestamp) is Late);
}

/// A packet that arrives in order but does not fit is dropped whole, and the write
/// cursor stays where it is, so the next packet reads as a gap.
pub proof fn law_full_ring_drops_the_packet_whole(
    v: JitterView,
    w: WriterView,
    seq: u32,
    pcm: Option<Seq<i16>>,
    frames: nat,
    muted: bool,
)
    requires
        v.wf(),
        w.primed,
        !v.resync,
        v.free() < frames,
    ensures
        ({
            let p = v.after_packet(w, seq, w.write_ts, pcm, frames, muted);
            &&& p.queue == v.queue
            &&& p.depth() == v.depth()
            &&& v.writer_after(w, seq, w.write_ts, frames).write_ts == w.write_ts
        }),
{
    assert(v.placement(w, w.write_ts) == Placement::After(0));
    assert(v.after_packet(w, seq, w.write_ts, pcm, frames, muted).queue =~= v.queue);
}

/// A packet that restarts the timeline brings the buffer up to its target and adds
/// no latency to one that is deeper already.
pub proof fn law_re_prime_tops_up(
    v: JitterView,
    w: WriterView,
    seq: u32,
    timestamp: u32,
    pcm: Option<Seq<i16>>,
    frames: nat,
    muted: bool,
)
    requires
        v.wf(),
        v.placement(w, timestamp) is Prime,
        v.accepts(w, timestamp, frames),
    ensures
        v.after_packet(w, seq, timestamp, pcm, frames, muted).depth() == frames + (if v.depth()
            < v.target {
            v.target
        } else {
            v.depth()
        }),
        v.after_packet(w, seq, timestamp, pcm, frames, muted).counters.resyncs == wrap32(
            v.counters.resyncs + 1,
        ),
{
    law_payload_is_exactly_as_long_as_promised(pcm, frames, muted);
}

/// Muted packets put silence in and hold the timeline as their audio would have.
pub proof fn law_muted_packet_holds_the_timeline(
    v: JitterView,
    w: WriterView,
    seq: u32,
    timestamp: u32,
    pcm: Option<Seq<i16>>,
    frames: nat,
)
    requires
        v.wf(),
    ensures
        ({
            let quiet = v.after_packet(w, seq, timestamp, pcm, frames, true);
            let loud = v.after_packet(w, seq, timestamp, pcm, frames, false);
            &&& quiet.queue.len() == loud.queue.len()
            &&& quiet.counters == loud.counters
            &&& quiet.written == loud.written
            &&& forall|i: int|
                v.queue.len() <= i < quiet.queue.len() ==> #[trigger] quiet.queue[i] == 0
        }),
{
}

/// Short of a trim, a read hands on exactly the oldest frames waiting, in order, and
/// leaves the rest.
pub proof fn law_reads_come_out_in_order(v: JitterView, n: nat)
    requires
        v.wf(),
        v.stale() == 0,
        v.depth() <= v.max_fill,
        n <= v.depth(),
    ensures
        v.heard(n) == v.queue.take(n as int),
        v.after_read(n).queue == v.queue.skip(n as int),
        v.after_read(n).counters == v.counters,
        v.after_read(n).resync == v.resync,
{
    assert(v.heard(n) =~= v.queue.take(n as int));
}

/// Two reads in a row hear what one read of both lengths would have.
pub proof fn law_reads_compose(v: JitterView, a: nat, b: nat)
    requires
        v.wf(),
        v.depth() <= v.max_fill,
        a + b <= v.depth(),
    ensures
        v.heard(a + b) == v.heard(a) + v.after_read(a).heard(b),
        v.after_read(a + b).queue == v.after_read(a).after_read(b).queue,
{
    assert(v.after_read(a).stale() == 0);
    assert(v.heard(a + b) =~= v.heard(a) + v.after_read(a).heard(b));
    assert(v.after_read(a + b).queue =~= v.after_read(a).after_read(b).queue);
}

/// A buffer grown too deep is brought back to its target by dropping the oldest
/// audio: what is heard and what is left are its newest frames.
pub proof fn law_runaway_buffer_is_trimmed_to_target(v: JitterView, n: nat)
    requires
        v.wf(),
        v.depth() > v.max_fill,
    ensures
        ({
            let kept = v.queue.skip(v.queue.len() - v.target);
            let got = least(n as int, v.target as int);
            &&& v.heard(n) == kept.take(got) + silence((n - got) as nat)
            &&& v.after_read(n).queue == kept.skip(got)
            &&& v.after_read(n).depth() <= v.target
            &&& v.after_read(n).counters.trims == wrap32(v.counters.trims + 1)
        }),
{
    let kept = v.queue.skip(v.queue.len() - v.target);
    let got = least(n as int, v.target as int);
    assert(v.heard(n) =~= kept.take(got) + silence((n - got) as nat));
    assert(v.after_read(n).queue =~= kept.skip(got));
}

/// A read that runs dry is padded with silence and leaves an empty buffer, and the
/// next packet, whatever its timestamp, is played behind a full target again.
pub proof fn law_underrun_re_primes(
    v: JitterView,
    w: WriterView,
    n: nat,
    seq: u32,
    timestamp: u32,
    pcm: Option<Seq<i16>>,
    frames: nat,
    muted: bool,
)
    requires
        v.wf(),
        v.found(n) < n,
        0 < frames,
        v.target + frames <= v.capacity,
    ensures
        v.heard(n).len() == n,
        forall|i: int| v.found(n) <= i < n ==> #[trigger] v.heard(n)[i] == 0,
        v.after_read(n).depth() == 0,
        v.after_read(n).counters.underruns == wrap32(v.counters.underruns + 1),
        v.after_read(n).after_packet(w, seq, timestamp, pcm, frames, muted).queue == silence(
            v.target,
        ) + payload(pcm, frames, muted),
{
    let dry = v.after_read(n);
    assert(dry.queue =~= Seq::<i16>::empty());
    assert(dry.placement(w, timestamp) is Prime);
    assert(dry.after_packet(w, seq, timestamp, pcm, frames, muted).queue =~= silence(v.target)
        + payload(pcm, frames, muted));
}

/// Everything that the packets among `steps` have put into a buffer, in order: their
/// filler and their audio.
pub open spec fn laid(v: JitterView, w: WriterView, steps: Seq<Step>) -> Seq<i16>
    decreases steps.len(),
{
    if steps.len() == 0 {
        Seq::empty()
    } else {
        let (v1, w1, _) = after_steps(v, w, steps.drop_last());
        laid(v, w, steps.drop_last()) + match steps.last() {
            Step::Packet { seq, timestamp, pcm, frames, muted } => v1.after_packet(
                w1,
                seq,
                timestamp,
                pcm,
                frames,
                muted,
            ).queue.skip(v1.queue.len() as int),
            Step::Read(_) => Seq::empty(),
        }
    }
}

/// What lies in `u` at or behind `mark` is what `laid` says has been put there.
spec fn holds_only(u: JitterView, mark: nat, laid: Seq<i16>) -> bool {
    forall|k: int|
        mark <= k < u.written && u.read <= k ==> u.queue[k - u.read] == #[trigger] laid[k - mark]
}

/// What stays of a buffer over any packets and reads after a reset.
proof fn lemma_after_a_reset(v: JitterView, steps: Seq<Step>)
    requires
        v.wf(),
    ensures
        ({
            let r = v.after_reset();
            let w = WriterView::fresh(v.written);
            let u = after_steps(r, w, steps).0;
            &&& u.drop_before == v.written
            &&& u.written == v.written + laid(r, w, steps).len()
            &&& u.read <= u.written
            &&& u.queue.len() == u.written - u.read
            &&& u.queue.len() <= u.capacity
            &&& u.capacity == v.capacity
            &&& u.target == v.target
            &&& u.max_fill == v.max_fill
            &&& holds_only(u, v.written, laid(r, w, steps))
        }),
    decreases steps.len(),
{
    let r = v.after_reset();
    let w = WriterView::fresh(v.written);
    let mark = v.written;
    if steps.len() > 0 {
        lemma_after_a_reset(v, steps.drop_last());
        let (u1, w1, _) = after_steps(r, w, steps.drop_last());
        let before = laid(r, w, steps.drop_last());
        let u = after_steps(r, w, steps).0;
        let after = laid(r, w, steps);
        match steps.last() {
            Step::Packet { seq, timestamp, pcm, frames, muted } => {
                law_payload_is_exactly_as_long_as_promised(pcm, frames, muted);
                assert(after =~= before + u.queue.skip(u1.queue.len() as int));
                assert forall|k: int| mark <= k < u.written && u.read <= k implies u.queue[k
                    - u.read] == #[trigger] after[k - mark] by {
                    if k < u1.written {
                        assert(after[k - mark] == before[k - mark]);
                        assert(u.queue[k - u.read] == u1.queue[k - u.read]);
                    } else {
                        assert(after[k - mark] == u.queue.skip(u1.queue.len() as int)[k - mark
                            - before.len()]);
                    }
                }
            },
            Step::Read(n) => {
                assert(after =~= before);
                let gone = u1.shed() + u1.found(n);
                assert forall|k: int| mark <= k < u.written && u.read <= k implies u.queue[k
                    - u.read] == #[trigger] after[k - mark] by {
                    assert(before[k - mark] == u1.queue[k - u1.read]);
                    assert(u.queue[k - u.read] == u1.queue[k - u.read + gone]);
                }
            },
        }
    }
}

/// None of the old session is heard after a reset, over any history: whatever packets
/// and reads come later, the mark stays where the reset put it, and a read hands on an
/// unbroken piece of what packets have put in since, and then silence.
pub proof fn law_reset_drops_the_old_session_only(v: JitterView, steps: Seq<Step>, n: nat)
    requires
        v.wf(),
    ensures
        ({
            let r = v.after_reset();
            let w = WriterView::fresh(v.written);
            let u = after_steps(r, w, steps).0;
            let since = laid(r, w, steps);
            let from = u.read + u.shed() - v.written;
            &&& r.depth() == 0
            &&& u.drop_before == v.written
            &&& 0 <= from
            &&& from + u.found(n) <= since.len()
            &&& u.heard(n) == since.subrange(from, from + u.found(n)) + silence(
                (n - u.found(n)) as nat,
            )
        }),
{
    let r = v.after_reset();
    let w = WriterView::fresh(v.written);
    let u = after_steps(r, w, steps).0;
    let since = laid(r, w, steps);
    let from = u.read + u.shed() - v.written;
    lemma_after_a_reset(v, steps);
    let piece = u.queue.subrange(u.shed() as int, (u.shed() + u.found(n)) as int);
    assert forall|i: int| 0 <= i < u.found(n) implies piece[i] == since[from + i] by {
        let k = u.read + u.shed() + i;
        assert(since[k - v.written] == u.queue[k - u.read]);
    }
    assert(piece =~= since.subrange(from, from + u.found(n)));
}

/// The first packet after a reset is played behind a full target of silence, as on a
/// fresh buffer, where there is room for it and the buffer does not run too deep.
pub proof fn law_first_packet_after_a_reset(
    v: JitterView,
    seq: u32,
    timestamp: u32,
    pcm: Option<Seq<i16>>,
    frames: nat,
    muted: bool,
)
    requires
        v.wf(),
        0 < frames,
        v.queue.len() + v.target + frames <= v.capacity,
        v.target + frames <= v.max_fill,
    ensures
        ({
            let p = v.after_reset().after_packet(
                WriterView::fresh(v.written),
                seq,
                timestamp,
                pcm,
                frames,
                muted,
            );
            &&& v.after_reset().depth() == 0
            &&& p.depth() == v.target + frames
            &&& p.heard(v.target + frames) == silence(v.target) + payload(pcm, frames, muted)
        }),
{
    let w = WriterView::fresh(v.written);
    let p = v.after_reset().after_packet(w, seq, timestamp, pcm, frames, muted);
    law_payload_is_exactly_as_long_as_promised(pcm, frames, muted);
    assert(v.after_reset().filler(w, timestamp) == v.target);
    assert(p.queue =~= v.queue + (silence(v.target) + payload(pcm, frames, muted)));
    assert(p.heard(v.target + frames) =~= silence(v.target) + payload(pcm, frames, muted));
}

/// The depths of a buffer in numbers: four targets and more are too deep, a jump of more
/// than four targets is a restart, and the ring holds eight targets, or 4096 frames where
/// that is more. So there is always room above the depth at which audio is shed.
pub proof fn law_the_depths_follow_from_the_target(target: nat, v: JitterView)
    ensures
        target >= 1 ==> {
            let made = JitterView::fresh(target);
            &&& made.target == target
            &&& made.max_fill == 4 * target
            &&& made.max_gap == (4 * target) % 0x1_0000_0000
            &&& made.capacity >= 4096
            &&& made.capacity >= 8 * target
            &&& made.capacity == 4096 || made.capacity == 8 * target
            &&& made.written == 0
            &&& made.read == 0
            &&& made.drop_before == 0
            &&& !made.resync
            &&& made.queue.len() == 0
        },
        JitterView::fresh(0) == JitterView::fresh(1),
        v.wf() ==> {
            &&& v.target >= 1
            &&& v.max_fill == 4 * v.target
            &&& v.max_gap == (4 * v.target) % 0x1_0000_0000
            &&& v.max_fill < v.capacity
            &&& v.capacity >= 4096
            &&& v.capacity >= 8 * v.target
        },
{
}

/// What a read of a buffer sheds, told by how much waits.
proof fn lemma_a_read_sheds(u: JitterView, target: nat, n: nat)
    requires
        u.target == target,
        u.max_fill == 4 * target,
        u.drop_before == 0,
        u.read <= u.written,
        u.queue.len() == u.written - u.read,
    ensures
        ({
            let after = u.after_read(n);
            let waiting = u.written - u.read;
            &&& u.heard(n).len() == n
            &&& waiting > 4 * target ==> {
                &&& n <= target ==> after.written - after.read == target - n
                &&& n >= target ==> after.written == after.read
                &&& forall|i: int|
                    0 <= i < n && i < target ==> #[trigger] u.heard(n)[i] == u.queue[waiting
                        - target + i]
                &&& after.counters.trims == (u.counters.trims + 1) % 0x1_0000_0000
            }
            &&& waiting <= 4 * target ==> {
                &&& n <= waiting ==> after.read == u.read + n
                &&& n >= waiting ==> after.read == u.written
                &&& forall|i: int|
                    0 <= i < n && i < waiting ==> #[trigger] u.heard(n)[i] == u.queue[i]
                &&& after.counters.trims == u.counters.trims
            }
        }),
{
}

/// Latency that has piled up is shed: over any history of a buffer made for `target`
/// frames, a read that finds more than four targets waiting drops the oldest audio until
/// one target is left, hands on the front of that and counts one trim; a read that finds
/// no more than four targets drops nothing.
#[verifier::spinoff_prover]
#[verifier::rlimit(40)]
pub proof fn law_latency_beyond_four_targets_is_shed(target: nat, steps: Seq<Step>, n: nat)
    requires
        target >= 1,
    ensures
        ({
            let u = after_steps(JitterView::fresh(target), WriterView::fresh(0), steps).0;
            let after = u.after_read(n);
            let waiting = u.written - u.read;
            &&& u.queue.len() == waiting
            &&& u.heard(n).len() == n
            &&& waiting > 4 * target ==> {
                &&& n <= target ==> after.written - after.read == target - n
                &&& n >= target ==> after.written == after.read
                &&& forall|i: int|
                    0 <= i < n && i < target ==> #[trigger] u.heard(n)[i] == u.queue[waiting
                        - target + i]
                &&& after.counters.trims == (u.counters.trims + 1) % 0x1_0000_0000
            }
            &&& waiting <= 4 * target ==> {
                &&& n <= waiting ==> after.read == u.read + n
                &&& n >= waiting ==> after.read == u.written
                &&& forall|i: int|
                    0 <= i < n && i < waiting ==> #[trigger] u.heard(n)[i] == u.queue[i]
                &&& after.counters.trims == u.counters.trims
            }
        }),
{
    let v = JitterView::fresh(target);
    assert(v.after_reset() == v);
    lemma_after_a_reset(v, steps);
    let u = after_steps(v, WriterView::fresh(0), steps).0;
    lemma_a_read_sheds(u, target, n);
}

/// What a packet does to a buffer, frame by frame and count by count. One that is behind
/// the write cursor leaves the audio alone. Otherwise silence goes in first - what the
/// buffer is short of its target where the timeline starts over, the frames that are
/// missing where it does not, never more than fits - and then exactly `frames` frames, or
/// none where they do not all fit.
#[verifier::spinoff_prover]
#[verifier::rlimit(40)]
pub proof fn law_a_packet_goes_where_its_timestamp_says(
    v: JitterView,
    w: WriterView,
    seq: u32,
    timestamp: u32,
    pcm: Option<Seq<i16>>,
    frames: nat,
    muted: bool,
)
    requires
        v.wf(),
        4 * v.target < 0x8000_0000,
    ensures
        ({
            let p = v.after_packet(w, seq, timestamp, pcm, frames, muted);
            let pw = v.writer_after(w, seq, timestamp, frames);
            let len = v.queue.len() as int;
            let waiting = if v.drop_before > v.read {
                v.written - v.drop_before
            } else {
                len
            };
            let room = v.capacity - len;
            let ahead = (timestamp - w.write_ts) % 0x1_0000_0000;
            let over = !w.primed || v.resync || 4 * v.target < ahead < 0x8000_0000;
            let late = !over && ahead >= 0x8000_0000;
            let wanted = if late {
                0
            } else if !over {
                ahead
            } else if waiting < v.target {
                v.target - waiting
            } else {
                0
            };
            let quiet = if wanted < room {
                wanted
            } else {
                room
            };
            let fits = !late && 0 < frames && quiet + frames <= room;
            &&& p.queue.len() == len + quiet + if fits {
                frames as int
            } else {
                0
            }
            &&& forall|i: int| 0 <= i < len ==> #[trigger] p.queue[i] == v.queue[i]
            &&& forall|i: int| len <= i < len + quiet ==> #[trigger] p.queue[i] == 0
            &&& fits ==> forall|i: int|
                len + quiet <= i < len + quiet + frames ==> #[trigger] p.queue[i] == (if !muted
                    && pcm is Some && i - len - quiet < pcm->0.len() {
                    pcm->0[i - len - quiet]
                } else {
                    0i16
                })
            &&& p.written == v.written + (p.queue.len() - len)
            &&& p.read == v.read
            &&& p.drop_before == v.drop_before
            &&& !p.resync
            &&& (p.target, p.max_fill, p.max_gap, p.capacity) == (
                v.target,
                v.max_fill,
                v.max_gap,
                v.capacity,
            )
            &&& p.counters.packets == (v.counters.packets + 1) % 0x1_0000_0000
            &&& p.counters.lost == (v.counters.lost + if w.have_seq && (seq - w.expected_seq)
                % 0x1_0000_0000 < 0x8000_0000 {
                (seq - w.expected_seq) % 0x1_0000_0000
            } else {
                0
            }) % 0x1_0000_0000
            &&& p.counters.late == (v.counters.late + if late {
                1int
            } else {
                0
            }) % 0x1_0000_0000
            &&& p.counters.concealed == (v.counters.concealed + if over {
                0
            } else {
                quiet
            }) % 0x1_0000_0000
            &&& p.counters.resyncs == (v.counters.resyncs + if over {
                1int
            } else {
                0
            }) % 0x1_0000_0000
            &&& p.counters.underruns == v.counters.underruns
            &&& p.counters.trims == v.counters.trims
            &&& pw.written == p.written
            &&& pw.primed
            &&& pw.have_seq
            &&& pw.expected_seq == (seq + 1) % 0x1_0000_0000
            &&& pw.write_ts == if fits {
                (timestamp + frames) % 0x1_0000_0000
            } else if over {
                timestamp as int
            } else {
                w.write_ts as int
            }
        }),
{
    law_payload_is_exactly_as_long_as_promised(pcm, frames, muted);
}

/// What a read does to a buffer, frame by frame and count by count: what a reset left
/// behind goes first, then, from more than four targets, everything but one target; what
/// is left comes out oldest first; and what is missing is silence, which counts as an
/// underrun and asks for a new start.
#[verifier::spinoff_prover]
#[verifier::rlimit(40)]
pub proof fn law_a_read_hands_on_the_oldest_audio(v: JitterView, n: nat)
    requires
        v.wf(),
    ensures
        ({
            let after = v.after_read(n);
            let len = v.queue.len() as int;
            let old = if v.drop_before > v.read {
                v.drop_before - v.read
            } else {
                0
            };
            let deep = len - old > 4 * v.target;
            let gone = if deep {
                len - v.target
            } else {
                old
            };
            let got = if n < len - gone {
                n as int
            } else {
                len - gone
            };
            &&& v.heard(n).len() == n
            &&& forall|i: int| 0 <= i < got ==> #[trigger] v.heard(n)[i] == v.queue[gone + i]
            &&& forall|i: int| got <= i < n ==> #[trigger] v.heard(n)[i] == 0
            &&& after.queue.len() == len - gone - got
            &&& forall|i: int|
                0 <= i < after.queue.len() ==> #[trigger] after.queue[i] == v.queue[gone + got + i]
            &&& after.read == v.read + gone + got
            &&& after.written == v.written
            &&& after.drop_before == v.drop_before
            &&& after.resync == (v.resync || got < n)
            &&& (after.target, after.max_fill, after.max_gap, after.capacity) == (
                v.target,
                v.max_fill,
                v.max_gap,
                v.capacity,
            )
            &&& after.counters.underruns == (v.counters.underruns + if got < n {
                1int
            } else {
                0
            }) % 0x1_0000_0000
            &&& after.counters.trims == (v.counters.trims + if deep {
                1int
            } else {
                0
            }) % 0x1_0000_0000
            &&& after.counters.packets == v.counters.packets
            &&& after.counters.lost == v.counters.lost
            &&& after.counters.late == v.counters.late
            &&& after.counters.concealed == v.counters.concealed
            &&& after.counters.resyncs == v.counters.resyncs
        }),
{
}

/// A reset marks everything written so far as stale and puts every count back to zero; it
/// moves no audio, and the writer that goes with it has heard from nobody.
pub proof fn law_a_reset_starts_the_counts_over(v: JitterView)
    ensures
        ({
            let r = v.after_reset();
            let w = WriterView::fresh(v.written);
            &&& r.drop_before == v.written
            &&& !r.resync
            &&& r.counters.packets == 0
            &&& r.counters.lost == 0
            &&& r.counters.late == 0
            &&& r.counters.concealed == 0
            &&& r.counters.underruns == 0
            &&& r.counters.trims == 0
            &&& r.counters.resyncs == 0
            &&& r.queue == v.queue
            &&& r.read == v.read
            &&& r.written == v.written
            &&& (r.target, r.max_fill, r.max_gap, r.capacity) == (
                v.target,
                v.max_fill,
                v.max_gap,
                v.capacity,
            )
            &&& w.written == v.written
            &&& !w.primed
            &&& !w.have_seq
        }),
{
}

/// The published figures are the counts as they stand, and as many frames as the next
/// read could hand on: none of them stale.
pub proof fn law_the_figures_are_the_counts(v: JitterView)
    requires
        v.wf(),
    ensures
        v.depth() == if v.drop_before > v.read {
            v.written - v.drop_before
        } else {
            v.written - v.read
        },
        v.stats().fill_frames == v.depth() % 0x1_0000_0000,
        v.stats().packets == v.counters.packets,
        v.stats().lost == v.counters.lost,
        v.stats().late == v.counters.late,
        v.stats().concealed == v.counters.concealed,
        v.stats().underruns == v.counters.underruns,
        v.stats().trims == v.counters.trims,
        v.stats().resyncs == v.counters.resyncs,
{
}

/// A buffer takes packets for as long as its write position can move through a whole ring,
/// which a buffer that is fresh always can.
pub proof fn law_a_buffer_takes_packets_for_ages(v: JitterView, target: nat)
    ensures
        v.has_headroom() <==> v.written + v.capacity <= 0xffff_ffff_ffff_ffff,
        target < 0x1000_0000_0000_0000 ==> JitterView::fresh(target).has_headroom(),
{
}

} // verus!
