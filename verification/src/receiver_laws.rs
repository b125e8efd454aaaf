//! What holds of a mixer over the packets that reach it.
use vstd::prelude::*;

verus! {

use crate::mixer::{SlotView, TableView};
use crate::mixer_laws::{
    law_first_slot,
    law_reaping_frees_exactly_the_quiet,
    law_retiring_frees_one_slot,
    law_same_source_same_slot,
};
use crate::jitter::WriterView;
use crate::protocol::{wire_samples, Header, PacketType};
use crate::receiver::{
    clamped_jitter_ms, is_playable, Polled, RouteView, RxShared, REAP_INTERVAL_MS,
    SOURCE_TIMEOUT_MS,
};

/// What type of packet a header announces.
pub open spec fn kind_of(header: Header) -> Option<PacketType> {
    PacketType::of_code(header.packet_type)
}

/// Whoever says hello, or sends audio that makes sense, is on the desk at once: in the
/// slot it holds, or else in the first free one, and heard from just now. Nobody
/// else's slot is touched.
pub proof fn law_a_source_appears_on_its_first_packet(
    s: RouteView,
    header: Header,
    datagram: Seq<u8>,
    now_ms: int,
)
    requires
        s.table.wf(),
        Header::parsed(datagram) == Some(header),
        kind_of(header) == Some(PacketType::Hello) || (kind_of(header) == Some(PacketType::Audio)
            && is_playable(header, datagram)),
        s.table.seat(header.ssrc) is Some,
    ensures
        ({
            let seat = s.table.seat(header.ssrc)->0;
            let (answer, after) = s.routed(datagram, now_ms);
            &&& answer is Hello || answer is Audio
            &&& after.table.slots[seat].is(header.ssrc)
            &&& after.table.slot_of(header.ssrc) == Some(seat)
            &&& after.table.slots[seat].last_seen_ms == now_ms
            &&& forall|k: int|
                0 <= k < s.table.slots.len() && k != seat ==> #[trigger] after.table.slots[k]
                    == s.table.slots[k]
        }),
{
    let ssrc = header.ssrc;
    let seat = s.table.seat(ssrc)->0;
    law_same_source_same_slot(s.table, ssrc, now_ms, now_ms);
    let holds = |x: SlotView| x.is(ssrc);
    let seated = s.table.after_acquire(ssrc, now_ms);
    law_first_slot(seated.slots, holds, 0);
    let (answer, after) = s.routed(datagram, now_ms);
    law_first_slot(after.table.slots, holds, 0);
    assert forall|k: int| 0 <= k < seated.slots.len() implies holds(#[trigger] seated.slots[k])
        == holds(after.table.slots[k]) by {}
    assert(holds(after.table.slots[seat]));
    let found = after.table.slot_of(ssrc)->0;
    assert(holds(seated.slots[found]));
}

/// Whoever says goodbye is off the desk at once, and every other source keeps its
/// slot.
pub proof fn law_bye_drops_the_source(
    s: RouteView,
    header: Header,
    datagram: Seq<u8>,
    now_ms: int,
    other: u32,
)
    requires
        s.table.wf(),
        Header::parsed(datagram) == Some(header),
        kind_of(header) == Some(PacketType::Bye),
    ensures
        s.routed(datagram, now_ms).0 == Polled::Bye(header.ssrc),
        s.routed(datagram, now_ms).1.table.slot_of(header.ssrc) is None,
        other != header.ssrc ==> s.routed(datagram, now_ms).1.table.slot_of(other)
            == s.table.slot_of(other),
{
    law_retiring_frees_one_slot(s.table, header.ssrc);
    assert(other != header.ssrc ==> s.table.after_retire(header.ssrc).slot_of(other)
        == s.table.slot_of(other));
}

/// A source that stops talking without a goodbye goes by itself: the first poll more
/// than a reap interval after the last look frees exactly the slots of those not heard
/// from for longer than the timeout.
pub proof fn law_a_silent_source_is_reaped(s: RouteView, now_ms: int, i: int)
    requires
        s.table.wf(),
        0 <= i < s.table.slots.len(),
        now_ms - s.last_reap_ms > REAP_INTERVAL_MS,
    ensures
        s.polled(None, now_ms).0 == Polled::Idle,
        s.polled(None, now_ms).1.table.slots[i].active <==> s.table.slots[i].active && now_ms
            - s.table.slots[i].last_seen_ms <= SOURCE_TIMEOUT_MS,
{
    law_reaping_frees_exactly_the_quiet(s.table, now_ms, SOURCE_TIMEOUT_MS as int, i);
}

/// What makes no sense, what this version has no use for, and what there is no room
/// for is counted and otherwise ignored: no source and no buffer changes.
pub proof fn law_rubbish_is_counted_and_ignored(s: RouteView, datagram: Seq<u8>, now_ms: int)
    requires
        s.table.wf(),
        ({
            let answer = s.routed(datagram, now_ms).0;
            answer is Malformed || answer is Ignored || answer is TableFull
        }),
    ensures
        ({
            let (answer, after) = s.routed(datagram, now_ms);
            let parsed = Header::parsed(datagram) is Some;
            &&& after.table == s.table
            &&& after.writers == s.writers
            &&& after.shared == {
                let seen = if parsed {
                    s.shared.counted()
                } else {
                    s.shared
                };
                if answer is Malformed {
                    seen.counted_bad()
                } else {
                    seen
                }
            }
        }),
{
}

/// What a header is read as, byte by byte: anything of twenty bytes or more that starts
/// with "LAU1" is one, and nothing else is.
pub proof fn law_a_header_is_read_byte_by_byte(b: Seq<u8>)
    ensures
        Header::parsed(b) is Some <==> b.len() >= 20 && b[0] == 0x4c && b[1] == 0x41 && b[2] == 0x55
            && b[3] == 0x31,
        Header::parsed(b) matches Some(h) ==> {
            &&& h.packet_type == b[4]
            &&& h.channels == b[5]
            &&& h.flags == b[6]
            &&& h.ssrc == b[8] + 0x100 * b[9] + 0x1_0000 * b[10] + 0x100_0000 * b[11]
            &&& h.seq == b[12] + 0x100 * b[13] + 0x1_0000 * b[14] + 0x100_0000 * b[15]
            &&& h.timestamp == b[16] + 0x100 * b[17] + 0x1_0000 * b[18] + 0x100_0000 * b[19]
            &&& h.is_muted() <==> b[6] % 2 == 1
        },
{
    if b.len() >= 20 {
        let m = seq![0x4cu8, 0x41u8, 0x55u8, 0x31u8];
        let head = b.subrange(0, 4);
        assert(head[0] == b[0] && head[1] == b[1] && head[2] == b[2] && head[3] == b[3]);
        if b[0] == 0x4c && b[1] == 0x41 && b[2] == 0x55 && b[3] == 0x31 {
            assert(head =~= m);
        }
    }
}

/// Two bytes are a sample, the lower one first; a byte left over is nothing.
pub proof fn law_two_bytes_are_a_sample(wire: Seq<u8>, k: int)
    requires
        0 <= k,
        2 * k + 1 < wire.len(),
    ensures
        wire_samples(wire).len() == wire.len() / 2,
        wire_samples(wire)[k] as int % 0x1_0000 == wire[2 * k] + 0x100 * wire[2 * k + 1],
{
}

/// What every datagram comes to, told by its bytes. What is no header is counted as bad;
/// everything else is counted as a packet first. A goodbye gives up the sender's slot, a
/// hello takes one, and audio - one channel, one to 960 frames - takes one and goes into
/// its buffer at its own number and time, as silence if it is muted. Audio of another
/// shape is bad, a sender there is no slot for is turned away, and any other type is
/// let pass.
#[verifier::spinoff_prover]
#[verifier::rlimit(40)]
pub proof fn law_what_a_datagram_comes_to(s: RouteView, b: Seq<u8>, now_ms: int)
    requires
        s.table.wf(),
        s.writers.len() == s.table.slots.len(),
    ensures
        ({
            let (answer, after) = s.routed(b, now_ms);
            let is_header = b.len() >= 20 && b[0] == 0x4c && b[1] == 0x41 && b[2] == 0x55 && b[3]
                == 0x31;
            let h = Header::parsed(b)->0;
            let frames = (b.len() - 20) / 2;
            let plays = 1 <= frames <= 960 && b[5] == 1;
            let seat = s.table.seat(h.ssrc);
            let bad = !is_header || (b[4] == 0 && !plays);
            &&& after.last_reap_ms == s.last_reap_ms
            &&& after.shared == (RxShared {
                packets: after.shared.packets,
                bad_packets: after.shared.bad_packets,
                ..s.shared
            })
            &&& after.shared.packets == (s.shared.packets + if is_header {
                1int
            } else {
                0
            }) % 0x1_0000_0000_0000_0000
            &&& after.shared.bad_packets == (s.shared.bad_packets + if bad {
                1int
            } else {
                0
            }) % 0x1_0000_0000_0000_0000
            &&& bad ==> answer is Malformed && after.table == s.table && after.writers == s.writers
            &&& is_header && b[4] == 2 ==> answer == Polled::Bye(h.ssrc) && after.table
                == s.table.after_retire(h.ssrc) && after.writers == s.writers
            &&& is_header && b[4] == 1 ==> after.table == s.table.after_acquire(h.ssrc, now_ms)
                && answer == if seat is Some {
                Polled::Hello(h.ssrc)
            } else {
                Polled::TableFull(h.ssrc)
            }
            &&& is_header && b[4] == 1 && seat is None ==> after.writers == s.writers
            &&& is_header && b[4] == 1 && seat is Some ==> {
                let i = seat->0;
                &&& after.writers.len() == s.writers.len()
                &&& after.writers[i] == if s.table.slots[i].active {
                    s.writers[i]
                } else {
                    WriterView::fresh(s.table.slots[i].jitter.written)
                }
                &&& forall|k: int|
                    0 <= k < s.writers.len() && k != i ==> #[trigger] after.writers[k]
                        == s.writers[k]
            }
            &&& is_header && b[4] == 0 && plays && seat is None ==> answer == Polled::TableFull(
                h.ssrc,
            ) && after.table == s.table && after.writers == s.writers
            &&& is_header && b[4] == 0 && plays && seat is Some ==> {
                let i = seat->0;
                let seated = s.table.after_acquire(h.ssrc, now_ms);
                let w = if s.table.slots[i].active {
                    s.writers[i]
                } else {
                    WriterView::fresh(s.table.slots[i].jitter.written)
                };
                let pcm = if b[6] % 2 == 1 {
                    None
                } else {
                    Some(wire_samples(b.skip(20)))
                };
                &&& answer == Polled::Audio { ssrc: h.ssrc, frames: frames as usize }
                &&& after.table.slots[i].jitter == seated.slots[i].jitter.after_packet(
                    w,
                    h.seq,
                    h.timestamp,
                    pcm,
                    frames as nat,
                    b[6] % 2 == 1,
                )
                &&& after.writers[i] == seated.slots[i].jitter.writer_after(
                    w,
                    h.seq,
                    h.timestamp,
                    frames as nat,
                )
                &&& after.table.slots[i].is(h.ssrc)
                &&& after.table.slots[i].last_seen_ms == now_ms
                &&& forall|k: int|
                    0 <= k < s.table.slots.len() && k != i ==> #[trigger] after.table.slots[k]
                        == s.table.slots[k]
                &&& forall|k: int|
                    0 <= k < s.writers.len() && k != i ==> #[trigger] after.writers[k]
                        == s.writers[k]
            }
            &&& is_header && b[4] > 2 ==> answer is Ignored && after.table == s.table
                && after.writers == s.writers
        }),
{
    law_a_header_is_read_byte_by_byte(b);
    if let Some(h) = Header::parsed(b) {
        law_first_slot(s.table.slots, |x: SlotView| x.is(h.ssrc), 0);
        law_first_slot(s.table.slots, |x: SlotView| !x.active, 0);
        if s.table.seat(h.ssrc) is Some {
            law_same_source_same_slot(s.table, h.ssrc, now_ms, now_ms);
        }
        if let Some(i) = s.table.slot_of(h.ssrc) {
            assert(s.table.slots[i].is(h.ssrc));
        }
    }
}

/// The quiet are looked for every half second, before anything else is done, and go after
/// two seconds: a poll within half a second of the last look drops nobody, and one after
/// that drops exactly those not heard from for more than two seconds.
pub proof fn law_two_seconds_of_silence_end_a_source(
    s: RouteView,
    received: Option<Seq<u8>>,
    now_ms: int,
    i: int,
)
    requires
        s.table.wf(),
        0 <= i < s.table.slots.len(),
    ensures
        ({
            let looked = s.after_reap(now_ms);
            let due = now_ms - s.last_reap_ms > 500;
            &&& !due ==> looked == s
            &&& due ==> looked.last_reap_ms == now_ms
            &&& due ==> looked.table.slots[i] == if s.table.slots[i].active && now_ms
                - s.table.slots[i].last_seen_ms > 2000 {
                SlotView { active: false, ..s.table.slots[i] }
            } else {
                s.table.slots[i]
            }
            &&& looked.writers == s.writers
            &&& looked.shared == s.shared
            &&& received is None ==> s.polled(received, now_ms) == (Polled::Idle, looked)
            &&& received matches Some(b) ==> s.polled(received, now_ms) == looked.routed(b, now_ms)
        }),
{
}

/// A mixer is made with buffers of the asked-for depth, within five and two hundred
/// milliseconds, and starts with every count at zero.
pub proof fn law_a_jitter_target_is_kept_in_range(jitter_ms: i32)
    ensures
        5 <= jitter_ms <= 200 ==> clamped_jitter_ms(jitter_ms) == jitter_ms,
        jitter_ms < 5 ==> clamped_jitter_ms(jitter_ms) == 5,
        jitter_ms > 200 ==> clamped_jitter_ms(jitter_ms) == 200,
        ({
            let s = RxShared::idle();
            &&& !s.running
            &&& s.packets == 0
            &&& s.bad_packets == 0
            &&& s.xruns == 0
            &&& s.latency_micros == 0
            &&& !s.restart_requested
        }),
{
}

} // verus!
