//! What holds of a microphone: the gain its bursts are scaled by, how channels become
//! one, what its meter shows, and what stands in its packets, byte by byte.
use vstd::prelude::*;

verus! {

use crate::meter::{is_peak, magnitude, next_peak};
use crate::protocol::{le_bytes, pcm_bytes, Header, PacketType};
use crate::transmitter::{
    at_least_one, frame_sums, sum_of, BacklogView, SendOutcome, StreamView, TxShared,
    MAX_BURST_FRAMES, MIN_FRAMES_PER_PACKET, RING_FRAMES,
};

/// The gain slider works: a gain of up to eight times unity, in thousandths, is what
/// every later burst of an unmuted microphone is scaled by, a larger one counts as eight
/// times unity, and a muted microphone sends nothing whatever its gain. Setting the gain
/// touches nothing else.
pub proof fn law_a_burst_is_scaled_by_the_gain(s: TxShared, gain_milli: u32)
    ensures
        ({
            let set = s.after_gain(gain_milli);
            &&& gain_milli <= 8000 ==> set.gain_milli == gain_milli
            &&& gain_milli > 8000 ==> set.gain_milli == 8000
            &&& !s.muted && gain_milli <= 8000 ==> set.effective_gain() == gain_milli
            &&& !s.muted ==> set.effective_gain() == set.gain_milli
            &&& s.muted ==> set.effective_gain() == 0
            &&& set == (TxShared { gain_milli: set.gain_milli, ..s })
        }),
        !s.muted ==> s.effective_gain() == s.gain_milli,
        s.muted ==> s.effective_gain() == 0,
        (TxShared { muted: false, ..(TxShared { muted: true, ..s }) }).effective_gain()
            == s.gain_milli,
{
}

/// A session starts unmuted and at unity, with every count at zero and no gap owed.
pub proof fn law_a_microphone_starts_clean()
    ensures
        ({
            let s = TxShared::idle();
            &&& !s.running
            &&& !s.muted
            &&& s.gain_milli == 1000
            &&& s.peak_milli == 0
            &&& s.packets_sent == 0
            &&& s.frames_dropped == 0
            &&& s.send_errors == 0
            &&& s.xruns == 0
            &&& s.latency_micros == 0
            &&& s.pending_gap == 0
            &&& !s.restart_requested
        }),
        RING_FRAMES == 24000,
        MAX_BURST_FRAMES == 8192,
        MIN_FRAMES_PER_PACKET == 60,
{
}

/// Channels become one by adding up: the sums of two runs of samples add, the sum of one
/// sample is that sample, and nothing adds up to nothing.
pub proof fn law_sums_add(a: Seq<i16>, b: Seq<i16>, x: i16)
    ensures
        sum_of(a + b) == sum_of(a) + sum_of(b),
        sum_of(seq![x]) == x,
        sum_of(Seq::<i16>::empty()) == 0,
    decreases b.len(),
{
    assert(seq![x].drop_last() =~= Seq::<i16>::empty());
    assert(sum_of(seq![x].drop_last()) == 0);
    if b.len() == 0 {
        assert(a + b =~= a);
    } else {
        law_sums_add(a, b.drop_last(), x);
        assert((a + b).drop_last() =~= a + b.drop_last());
    }
}

/// A burst has a sum for every whole frame, in order: a mono burst is its own sums, a
/// stereo frame comes to left and right together, and in general a frame comes to the
/// sum of its own samples and no others.
pub proof fn law_each_frame_comes_to_its_samples(input: Seq<i16>, channels: int, i: int)
    requires
        1 <= channels,
        0 <= i,
        (i + 1) * channels <= input.len(),
    ensures
        frame_sums(input, channels).len() == input.len() as int / channels,
        i < frame_sums(input, channels).len(),
        frame_sums(input, channels)[i] == sum_of(
            input.subrange(i * channels, i * channels + channels),
        ),
        channels == 1 ==> frame_sums(input, channels)[i] == input[i],
        channels == 2 ==> frame_sums(input, channels)[i] == input[2 * i] + input[2 * i + 1],
        at_least_one(channels) == channels,
        at_least_one(0) == 1,
{
    let len = input.len() as int;
    assert(i < len / channels && 0 <= i * channels && (i + 1) * channels == i * channels
        + channels) by (nonlinear_arith)
        requires
            1 <= channels,
            0 <= i,
            (i + 1) * channels <= len,
    ;
    let frame = input.subrange(i * channels, i * channels + channels);
    if channels == 1 {
        law_sums_add(Seq::empty(), Seq::empty(), input[i]);
        assert(frame =~= seq![input[i]]);
    }
    if channels == 2 {
        law_sums_add(seq![input[2 * i]], seq![input[2 * i + 1]], input[2 * i]);
        law_sums_add(Seq::empty(), Seq::empty(), input[2 * i + 1]);
        assert(frame =~= seq![input[2 * i]] + seq![input[2 * i + 1]]);
    }
}

/// A meter jumps up at once and comes down slowly: it shows a level at or above its own
/// as it is, up to twice full scale, and otherwise falls by a sixteenth of what it shows,
/// and by one at least.
pub proof fn law_a_meter_jumps_up_and_falls_slowly(cur: u32, level: u32)
    requires
        cur <= 2000,
    ensures
        level >= cur && level <= 2000 ==> next_peak(cur, level) == level,
        level > 2000 ==> next_peak(cur, level) == 2000,
        level < cur ==> {
            let fall = if cur / 16 > 1 {
                (cur / 16) as int
            } else {
                1
            };
            next_peak(cur, level) == cur - fall
        },
{
}

/// The peak of a block is as large as its largest sample, up or down, and there is one
/// peak only.
pub proof fn law_a_block_has_one_peak(block: Seq<i16>, a: int, b: int)
    requires
        is_peak(block, a),
        is_peak(block, b),
        0 <= a,
        0 <= b,
    ensures
        a == b,
        forall|i: int| 0 <= i < block.len() ==> -a <= #[trigger] block[i] <= a,
        a > 0 ==> exists|i: int|
            0 <= i < block.len() && (#[trigger] block[i] == a || block[i] == -a),
        block.len() == 0 ==> a == 0,
{
    assert forall|i: int| 0 <= i < block.len() implies -a <= #[trigger] block[i] <= a by {
        assert(magnitude(block[i]) <= a);
    }
    if a > 0 {
        let i = choose|i: int| 0 <= i < block.len() && magnitude(#[trigger] block[i]) == a;
        assert(magnitude(block[i]) <= b);
        assert(block[i] == a || block[i] == -a);
    }
    if b > 0 {
        let i = choose|i: int| 0 <= i < block.len() && magnitude(#[trigger] block[i]) == b;
        assert(magnitude(block[i]) <= a);
    }
}

/// Frames that are thrown away are counted, and owed as a gap; sends are counted by how
/// they end, and a busy radio counts as nothing. Neither touches anything else.
pub proof fn law_what_is_lost_is_accounted_for(s: TxShared, frames: nat)
    ensures
        ({
            let less = s.after_drop(frames);
            &&& less.frames_dropped == (s.frames_dropped + frames) % 0x1_0000_0000_0000_0000
            &&& less.pending_gap == (s.pending_gap + frames) % 0x1_0000_0000
            &&& less == (TxShared {
                frames_dropped: less.frames_dropped,
                pending_gap: less.pending_gap,
                ..s
            })
        }),
        ({
            let sent = s.after_send(SendOutcome::Sent);
            &&& sent.packets_sent == (s.packets_sent + 1) % 0x1_0000_0000_0000_0000
            &&& sent == (TxShared { packets_sent: sent.packets_sent, ..s })
        }),
        ({
            let failed = s.after_send(SendOutcome::Failed);
            &&& failed.send_errors == (s.send_errors + 1) % 0x1_0000_0000
            &&& failed == (TxShared { send_errors: failed.send_errors, ..s })
        }),
        s.after_send(SendOutcome::Busy) == s,
{
}

/// A burst that has to wait is kept whole behind the ones before it, or missed whole
/// where there is no room for it or one before it was missed. Only whole frames are
/// kept, and a burst of the largest kind always fits an empty backlog.
pub proof fn law_a_waiting_burst_is_kept_or_missed_whole(b: BacklogView, input: Seq<i16>)
    requires
        b.channels >= 1,
        b.missed < 0x8000_0000,
        input.len() < 0x8000_0000,
    ensures
        ({
            let after = b.after_keep(input);
            let frames = input.len() / b.channels;
            let room = 8192 * b.channels - b.samples.len();
            let kept = b.missed == 0 && frames * b.channels <= room;
            &&& after.channels == b.channels
            &&& kept ==> after.missed == 0 && after.samples == b.samples + input.take(
                (frames * b.channels) as int,
            )
            &&& !kept ==> after.samples == b.samples && after.missed == b.missed + frames
        }),
        BacklogView::empty(b.channels).samples.len() == 0,
        BacklogView::empty(b.channels).missed == 0,
        BacklogView::empty(b.channels).channels == b.channels,
{
    let n = input.len() as int;
    let c = b.channels as int;
    assert(0 <= n / c <= n) by (nonlinear_arith)
        requires
            0 <= n,
            1 <= c,
    ;
}

/// The four bytes of a number, lowest first, come to the number.
proof fn lemma_bytes_come_to(x: u32)
    ensures
        le_bytes(x).len() == 4,
        le_bytes(x)[0] + 0x100 * le_bytes(x)[1] + 0x1_0000 * le_bytes(x)[2] + 0x100_0000
            * le_bytes(x)[3] == x,
{
    let n = x as int;
    assert(n == n % 256 + 256 * (n / 256 % 256) + 65536 * (n / 65536 % 256) + 16777216 * (n
        / 16777216 % 256));
}

/// What stands in a header, byte by byte: "LAU1", the type, the channels, the flags and a
/// zero, and then, lowest byte first, who sent it, its number and its time.
#[verifier::spinoff_prover]
#[verifier::rlimit(40)]
pub proof fn law_a_header_byte_by_byte(h: Header)
    ensures
        ({
            let b = h.wire();
            &&& b.len() == 20
            &&& b[0] == 0x4c && b[1] == 0x41 && b[2] == 0x55 && b[3] == 0x31
            &&& b[4] == h.packet_type
            &&& b[5] == h.channels
            &&& b[6] == h.flags
            &&& b[7] == 0
            &&& b[8] + 0x100 * b[9] + 0x1_0000 * b[10] + 0x100_0000 * b[11] == h.ssrc
            &&& b[12] + 0x100 * b[13] + 0x1_0000 * b[14] + 0x100_0000 * b[15] == h.seq
            &&& b[16] + 0x100 * b[17] + 0x1_0000 * b[18] + 0x100_0000 * b[19] == h.timestamp
        }),
{
    lemma_bytes_come_to(h.ssrc);
    lemma_bytes_come_to(h.seq);
    lemma_bytes_come_to(h.timestamp);
    let b = h.wire();
    assert(b[8] == le_bytes(h.ssrc)[0] && b[9] == le_bytes(h.ssrc)[1] && b[10] == le_bytes(
        h.ssrc,
    )[2] && b[11] == le_bytes(h.ssrc)[3]);
    assert(b[12] == le_bytes(h.seq)[0] && b[13] == le_bytes(h.seq)[1] && b[14] == le_bytes(
        h.seq,
    )[2] && b[15] == le_bytes(h.seq)[3]);
    assert(b[16] == le_bytes(h.timestamp)[0] && b[17] == le_bytes(h.timestamp)[1] && b[18]
        == le_bytes(h.timestamp)[2] && b[19] == le_bytes(h.timestamp)[3]);
}

/// A sample on the wire is two bytes, the lower one first.
pub proof fn law_a_sample_is_two_bytes(pcm: Seq<i16>, k: int)
    requires
        0 <= k < pcm.len(),
    ensures
        pcm_bytes(pcm).len() == 2 * pcm.len(),
        pcm_bytes(pcm)[2 * k] + 0x100 * pcm_bytes(pcm)[2 * k + 1] == pcm[k] as int % 0x1_0000,
{
    assert((2 * k + 1) / 2 == k && (2 * k) / 2 == k);
}

/// A packet of a type that is not audio carries nothing but what it is.
pub proof fn law_a_plain_header_is_blank(kind: PacketType)
    ensures
        ({
            let h = Header::blank(kind);
            &&& kind is Audio ==> h.packet_type == 0
            &&& kind is Hello ==> h.packet_type == 1
            &&& kind is Bye ==> h.packet_type == 2
            &&& kind is Discover ==> h.packet_type == 3
            &&& kind is Announce ==> h.packet_type == 4
            &&& PacketType::of_code(h.packet_type) == Some(kind)
            &&& h.channels == 1
            &&& h.flags == 0
            &&& h.ssrc == 0
            &&& h.seq == 0
            &&& h.timestamp == 0
        }),
        forall|v: u8| v > 4 ==> #[trigger] PacketType::of_code(v) is None,
{
}

/// What stands in a packet, byte by byte: the magic, the type, one channel, whether the
/// microphone is muted; then, lowest byte first, who sent it, its number and when its
/// first frame was captured; then the frames, each two bytes, lowest first. Numbers go up
/// by one from packet to packet and times by the frames in one, and frames that were
/// thrown away before the first move all of them on.
#[verifier::spinoff_prover]
#[verifier::rlimit(40)]
pub proof fn law_a_packet_byte_by_byte(
    s: StreamView,
    shared: TxShared,
    queue: Seq<i16>,
    j: int,
    k: int,
)
    requires
        0 < s.frames_per_packet,
        0 <= j,
        (j + 1) * s.frames_per_packet <= queue.len(),
        0 <= k < s.frames_per_packet,
    ensures
        ({
            let b = s.packet(shared, queue, j);
            let fpp = s.frames_per_packet as int;
            &&& b.len() == 20 + 2 * fpp
            &&& b[0] == 0x4c && b[1] == 0x41 && b[2] == 0x55 && b[3] == 0x31
            &&& b[4] == 0
            &&& b[5] == 1
            &&& b[6] == if shared.muted {
                1int
            } else {
                0
            }
            &&& b[7] == 0
            &&& b[8] + 0x100 * b[9] + 0x1_0000 * b[10] + 0x100_0000 * b[11] == s.ssrc
            &&& b[12] + 0x100 * b[13] + 0x1_0000 * b[14] + 0x100_0000 * b[15] == (s.seq + j)
                % 0x1_0000_0000
            &&& b[16] + 0x100 * b[17] + 0x1_0000 * b[18] + 0x100_0000 * b[19] == (s.timestamp
                + shared.pending_gap + j * fpp) % 0x1_0000_0000
            &&& b[20 + 2 * k] + 0x100 * b[21 + 2 * k] == queue[j * fpp + k] as int % 0x1_0000
        }),
        s.whole_packets(queue) > j,
        s.whole_packets(queue) == queue.len() as int / s.frames_per_packet as int,
{
    let fpp = s.frames_per_packet as int;
    let len = queue.len() as int;
    assert(0 <= j * fpp && (j + 1) * fpp == j * fpp + fpp && j < len / fpp) by (nonlinear_arith)
        requires
            0 <= j,
            0 < fpp,
            (j + 1) * fpp <= len,
    ;
    let samples = queue.subrange(j * fpp, (j + 1) * fpp);
    let h = s.header(shared, j);
    let b = s.packet(shared, queue, j);
    law_a_header_byte_by_byte(h);
    law_a_sample_is_two_bytes(samples, k);
    assert(forall|i: int| 0 <= i < 20 ==> #[trigger] b[i] == h.wire()[i]);
    assert(forall|i: int| 0 <= i < 2 * fpp ==> b[20 + i] == #[trigger] pcm_bytes(samples)[i]);
    assert(b[20 + 2 * k] == pcm_bytes(samples)[2 * k]);
    assert(b[21 + 2 * k] == pcm_bytes(samples)[2 * k + 1]);
}

/// A sender that has made `k` packets goes on from there: the next number, the next
/// frame, the same name; one that has made none is where it was. HELLO and BYE carry
/// where it stands and move nothing.
pub proof fn law_a_sender_goes_on_where_it_stopped(s: StreamView, shared: TxShared, k: nat)
    ensures
        ({
            let after = s.after(shared, k);
            &&& after.ssrc == s.ssrc
            &&& after.frames_per_packet == s.frames_per_packet
            &&& k == 0 ==> after == s
            &&& k > 0 ==> after.seq == (s.seq + k) % 0x1_0000_0000
            &&& k > 0 ==> after.timestamp == (s.timestamp + shared.pending_gap + k
                * s.frames_per_packet) % 0x1_0000_0000
        }),
        ({
            let hello = s.control(PacketType::Hello);
            let bye = s.control(PacketType::Bye);
            &&& hello.packet_type == 1
            &&& bye.packet_type == 2
            &&& (hello.ssrc, hello.seq, hello.timestamp) == (s.ssrc, s.seq, s.timestamp)
            &&& (bye.ssrc, bye.seq, bye.timestamp) == (s.ssrc, s.seq, s.timestamp)
            &&& hello.channels == 1 && bye.channels == 1
            &&& hello.flags == 0 && bye.flags == 0
        }),
{
}

} // verus!
