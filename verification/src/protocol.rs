//! LAU1 wire format: the encoder and the decoder for it.
use vstd::prelude::*;

verus! {

pub const SAMPLE_RATE: u32 = 48_000;

pub const WIRE_CHANNELS: u8 = 1;

pub const HEADER_BYTES: usize = 20;

/// 20 ms at 48 kHz. Keeps a full packet inside one Ethernet/Wi-Fi frame.
pub const MAX_FRAMES_PER_PACKET: usize = 960;

/// A header and the largest payload.
pub const MAX_PACKET_BYTES: usize = 1940;

pub const DEFAULT_AUDIO_PORT: u16 = 45678;

pub const DISCOVERY_PORT: u16 = 45679;

/// Bit 0: the payload is silence, still sent to keep the jitter buffer primed
/// and the ARP path warm.
pub const FLAG_MUTED: u8 = 1;

/// The four bytes every packet starts with: `LAU1`.
pub open spec fn magic() -> Seq<u8> {
    seq![0x4cu8, 0x41u8, 0x55u8, 0x31u8]
}

/// Byte `i` (least significant first) of a 32-bit number.
pub open spec fn byte_of(x: u32, i: int) -> u8 {
    if i == 0 {
        (x % 256) as u8
    } else if i == 1 {
        (x / 256 % 256) as u8
    } else if i == 2 {
        (x / 65536 % 256) as u8
    } else {
        (x / 16777216 % 256) as u8
    }
}

/// A 32-bit number in little-endian order.
pub open spec fn le_bytes(x: u32) -> Seq<u8> {
    seq![byte_of(x, 0), byte_of(x, 1), byte_of(x, 2), byte_of(x, 3)]
}

/// The 32-bit number that starts at `at`, little-endian.
pub open spec fn le_u32(b: Seq<u8>, at: int) -> u32 {
    (b[at] + 256 * b[at + 1] + 65536 * b[at + 2] + 16777216 * b[at + 3]) as u32
}

/// A sample as the 16-bit two's complement word it travels as.
pub open spec fn sample_word(s: i16) -> int {
    if s < 0 {
        s + 65536
    } else {
        s as int
    }
}

/// The sample two wire bytes stand for, low byte first.
pub open spec fn word_sample(lo: u8, hi: u8) -> i16 {
    let word = lo + 256 * hi;
    if word >= 32768 {
        (word - 65536) as i16
    } else {
        word as i16
    }
}

/// What a run of samples looks like on the wire.
pub open spec fn pcm_bytes(pcm: Seq<i16>) -> Seq<u8> {
    Seq::new(
        2 * pcm.len(),
        |i: int|
            if i % 2 == 0 {
                (sample_word(pcm[i / 2]) % 256) as u8
            } else {
                (sample_word(pcm[i / 2]) / 256) as u8
            },
    )
}

/// The samples that a run of wire bytes holds; an odd byte at the end is not one.
pub open spec fn wire_samples(wire: Seq<u8>) -> Seq<i16> {
    Seq::new(wire.len() / 2, |i: int| word_sample(wire[2 * i], wire[2 * i + 1]))
}

#[derive(Debug, Clone, Copy, PartialEq, Eq, Structural)]
pub enum PacketType {
    Audio,
    Hello,
    Bye,
    Discover,
    Announce,
}

impl PacketType {
    /// The number a packet type has on the wire.
    pub open spec fn spec_code(self) -> u8 {
        match self {
            PacketType::Audio => 0,
            PacketType::Hello => 1,
            PacketType::Bye => 2,
            PacketType::Discover => 3,
            PacketType::Announce => 4,
        }
    }

    /// The packet type a wire number stands for.
    pub open spec fn of_code(v: u8) -> Option<PacketType> {
        if v == 0 {
            Some(PacketType::Audio)
        } else if v == 1 {
            Some(PacketType::Hello)
        } else if v == 2 {
            Some(PacketType::Bye)
        } else if v == 3 {
            Some(PacketType::Discover)
        } else if v == 4 {
            Some(PacketType::Announce)
        } else {
            None
        }
    }

    /// Unknown types decode to `None` rather than erroring: a v2 sender adding
    /// a type must not make its audio undecodable to a v1 receiver.
    pub fn from_u8(v: u8) -> (r: Option<PacketType>)
        ensures
            r == PacketType::of_code(v),
    {
        match v {
            0 => Some(PacketType::Audio),
            1 => Some(PacketType::Hello),
            2 => Some(PacketType::Bye),
            3 => Some(PacketType::Discover),
            4 => Some(PacketType::Announce),
            _ => None,
        }
    }

    /// The number this type has on the wire.
    pub fn code(self) -> (r: u8)
        ensures
            r == self.spec_code(),
    {
        match self {
            PacketType::Audio => 0,
            PacketType::Hello => 1,
            PacketType::Bye => 2,
            PacketType::Discover => 3,
            PacketType::Announce => 4,
        }
    }
}

#[derive(Debug, Clone, Copy, PartialEq, Eq, Structural)]
pub struct Header {
    pub packet_type: u8,
    pub channels: u8,
    pub flags: u8,
    pub ssrc: u32,
    pub seq: u32,
    /// Index of this packet's first frame within the sender's capture stream.
    /// This, not arrival time, is what the jitter buffer aligns on.
    pub timestamp: u32,
}

impl Header {
    /// The twenty bytes of this header.
    pub open spec fn wire(self) -> Seq<u8> {
        magic() + seq![self.packet_type, self.channels, self.flags, 0u8] + le_bytes(self.ssrc)
            + le_bytes(self.seq) + le_bytes(self.timestamp)
    }

    /// What a datagram's header says; `None` for anything too short or not
    /// carrying the magic.
    pub open spec fn parsed(b: Seq<u8>) -> Option<Header> {
        if b.len() >= HEADER_BYTES && b.subrange(0, 4) == magic() {
            Some(
                Header {
                    packet_type: b[4],
                    channels: b[5],
                    flags: b[6],
                    ssrc: le_u32(b, 8),
                    seq: le_u32(b, 12),
                    timestamp: le_u32(b, 16),
                },
            )
        } else {
            None
        }
    }

    /// Whether the MUTED bit is set.
    pub open spec fn is_muted(self) -> bool {
        self.flags % 2 == 1
    }

    /// A header of this type with everything else at its resting value.
    pub open spec fn blank(packet_type: PacketType) -> Header {
        Header {
            packet_type: packet_type.spec_code(),
            channels: WIRE_CHANNELS,
            flags: 0,
            ssrc: 0,
            seq: 0,
            timestamp: 0,
        }
    }

    pub fn new(packet_type: PacketType) -> (r: Header)
        ensures
            r == Header::blank(packet_type),
    {
        Header {
            packet_type: packet_type.code(),
            channels: WIRE_CHANNELS,
            flags: 0,
            ssrc: 0,
            seq: 0,
            timestamp: 0,
        }
    }

    pub fn kind(&self) -> (r: Option<PacketType>)
        ensures
            r == PacketType::of_code(self.packet_type),
    {
        PacketType::from_u8(self.packet_type)
    }

    pub fn muted(&self) -> (r: bool)
        ensures
            r == self.is_muted(),
    {
        let flags: u8 = self.flags;
        assert((flags & 1 != 0) == (flags % 2 == 1)) by (bit_vector);
        flags & FLAG_MUTED != 0
    }

    pub fn encode(&self, buf: &mut [u8; HEADER_BYTES])
        ensures
            final(buf)@ == self.wire(),
    {
        buf[0] = 0x4c;
        buf[1] = 0x41;
        buf[2] = 0x55;
        buf[3] = 0x31;
        buf[4] = self.packet_type;
        buf[5] = self.channels;
        buf[6] = self.flags;
        buf[7] = 0;  // reserved
        buf[8] = (self.ssrc % 256) as u8;
        buf[9] = (self.ssrc / 256 % 256) as u8;
        buf[10] = (self.ssrc / 65536 % 256) as u8;
        buf[11] = (self.ssrc / 16777216 % 256) as u8;
        buf[12] = (self.seq % 256) as u8;
        buf[13] = (self.seq / 256 % 256) as u8;
        buf[14] = (self.seq / 65536 % 256) as u8;
        buf[15] = (self.seq / 16777216 % 256) as u8;
        buf[16] = (self.timestamp % 256) as u8;
        buf[17] = (self.timestamp / 256 % 256) as u8;
        buf[18] = (self.timestamp / 65536 % 256) as u8;
        buf[19] = (self.timestamp / 16777216 % 256) as u8;
        assert(buf@ =~= self.wire());
    }

    pub fn to_bytes(&self) -> (r: [u8; HEADER_BYTES])
        ensures
            r@ == self.wire(),
    {
        let mut buf: [u8; HEADER_BYTES] = [0u8; HEADER_BYTES];
        self.encode(&mut buf);
        buf
    }

    /// `None` for anything too short or not carrying the magic.
    pub fn decode(buf: &[u8]) -> (r: Option<Header>)
        ensures
            r == Header::parsed(buf@),
    {
        if buf.len() < HEADER_BYTES {
            return None;
        }
        let is_lau1: bool = buf[0] == 0x4c && buf[1] == 0x41 && buf[2] == 0x55 && buf[3] == 0x31;
        proof {
            let head = buf@.subrange(0, 4);
            assert(head.len() == 4);
            if is_lau1 {
                assert(head =~= magic());
            } else {
                assert(head[0] == buf@[0] && head[1] == buf@[1] && head[2] == buf@[2] && head[3]
                    == buf@[3]);
                assert(head != magic());
            }
        }
        if !is_lau1 {
            return None;
        }
        Some(
            Header {
                packet_type: buf[4],
                channels: buf[5],
                flags: buf[6],
                ssrc: read_le_u32(buf, 8),
                seq: read_le_u32(buf, 12),
                timestamp: read_le_u32(buf, 16),
            },
        )
    }
}

fn read_le_u32(buf: &[u8], at: usize) -> (r: u32)
    requires
        at + 4 <= buf@.len(),
    ensures
        r == le_u32(buf@, at as int),
{
    buf[at] as u32 + 256 * (buf[at + 1] as u32) + 65536 * (buf[at + 2] as u32) + 16777216 * (buf[at
        + 3] as u32)
}

/// Little-endian int16 samples to bytes. `dst` must hold `2 * src.len()`.
pub fn pcm_to_wire(dst: &mut [u8], src: &[i16])
    requires
        old(dst)@.len() >= 2 * src@.len(),
    ensures
        final(dst)@ == pcm_bytes(src@) + old(dst)@.skip(2 * src@.len() as int),
{
    let n: usize = src.len();
    let room: usize = dst.len();
    let ghost rest = dst@;
    let mut i: usize = 0;
    while i < n
        invariant
            i <= n,
            n == src@.len(),
            dst@.len() == rest.len(),
            room == rest.len(),
            2 * n <= rest.len(),
            forall|k: int| 0 <= k < 2 * i ==> dst@[k] == pcm_bytes(src@)[k],
            forall|k: int| 2 * n <= k < rest.len() ==> dst@[k] == rest[k],
        decreases n - i,
    {
        let s: i16 = src[i];
        let word: u16 = if s < 0 {
            (s as i32 + 65536) as u16
        } else {
            s as u16
        };
        assert(word == sample_word(s));
        dst[2 * i] = (word % 256) as u8;
        dst[2 * i + 1] = (word / 256) as u8;
        assert((2 * i + 1) / 2 == i && (2 * i) / 2 == i);
        i = i + 1;
    }
    assert(dst@ =~= pcm_bytes(src@) + rest.skip(2 * n as int));
}

/// Bytes to little-endian int16 samples. Decodes `min(dst.len(), src.len()/2)`
/// frames and returns how many.
pub fn wire_to_pcm(dst: &mut [i16], src: &[u8]) -> (n: usize)
    ensures
        n as int == if old(dst)@.len() <= src@.len() / 2 {
            old(dst)@.len() as int
        } else {
            (src@.len() / 2) as int
        },
        final(dst)@ == wire_samples(src@).take(n as int) + old(dst)@.skip(n as int),
{
    let bytes: usize = src.len();
    let have: usize = bytes / 2;
    let n: usize = if dst.len() < have {
        dst.len()
    } else {
        have
    };
    let ghost rest = dst@;
    let mut i: usize = 0;
    while i < n
        invariant
            i <= n,
            n <= rest.len(),
            bytes == src@.len(),
            n <= bytes / 2,
            dst@.len() == rest.len(),
            forall|k: int| 0 <= k < i ==> dst@[k] == wire_samples(src@)[k],
            forall|k: int| n <= k < rest.len() ==> dst@[k] == rest[k],
        decreases n - i,
    {
        let word: i32 = src[2 * i] as i32 + 256 * (src[2 * i + 1] as i32);
        dst[i] = if word >= 32768 {
            (word - 65536) as i16
        } else {
            word as i16
        };
        i = i + 1;
    }
    assert(dst@ =~= wire_samples(src@).take(n as int) + rest.skip(n as int));
    n
}

// ---------------------------------------------------------------------------
// Laws
// ---------------------------------------------------------------------------

proof fn lemma_le_round_trip(x: u32)
    ensures
        le_u32(le_bytes(x), 0) == x,
{
}

/// A header survives the wire: decoding what was encoded gives it back, whatever
/// payload follows it.
pub proof fn law_header_round_trip(h: Header, payload: Seq<u8>)
    ensures
        h.wire().len() == HEADER_BYTES,
        Header::parsed(h.wire() + payload) == Some(h),
{
    let b = h.wire() + payload;
    assert(b.subrange(0, 4) =~= magic());
    lemma_le_round_trip(h.ssrc);
    lemma_le_round_trip(h.seq);
    lemma_le_round_trip(h.timestamp);
    assert(le_bytes(h.ssrc)[0] == b[8] && le_bytes(h.ssrc)[1] == b[9] && le_bytes(h.ssrc)[2] == b[10]
        && le_bytes(h.ssrc)[3] == b[11]);
    assert(le_bytes(h.seq)[0] == b[12] && le_bytes(h.seq)[1] == b[13] && le_bytes(h.seq)[2] == b[14]
        && le_bytes(h.seq)[3] == b[15]);
    assert(le_bytes(h.timestamp)[0] == b[16] && le_bytes(h.timestamp)[1] == b[17] && le_bytes(
        h.timestamp,
    )[2] == b[18] && le_bytes(h.timestamp)[3] == b[19]);
}

/// Two headers that differ differ on the wire too.
pub proof fn law_wire_is_injective(a: Header, b: Header)
    requires
        a.wire() == b.wire(),
    ensures
        a == b,
{
    law_header_round_trip(a, Seq::empty());
    law_header_round_trip(b, Seq::empty());
}

/// A known packet type survives its wire number, and every number beyond the
/// known ones classifies as nothing.
pub proof fn law_packet_type_codes(t: PacketType, v: u8)
    ensures
        PacketType::of_code(t.spec_code()) == Some(t),
        PacketType::of_code(v) matches Some(k) ==> k.spec_code() == v,
        PacketType::of_code(v) is None <==> v >= 5,
{
}

/// Samples survive the wire, the rails included.
pub proof fn law_pcm_round_trip(pcm: Seq<i16>)
    ensures
        pcm_bytes(pcm).len() == 2 * pcm.len(),
        wire_samples(pcm_bytes(pcm)) == pcm,
{
    let wire = pcm_bytes(pcm);
    assert forall|i: int| 0 <= i < pcm.len() implies wire_samples(wire)[i] == pcm[i] by {
        assert((2 * i) / 2 == i && (2 * i + 1) / 2 == i);
        assert((2 * i) % 2 == 0 && (2 * i + 1) % 2 == 1);
    }
    assert(wire_samples(wire) =~= pcm);
}

/// The sizes on the wire: 48 kHz, one channel, twenty bytes of header, up to 960 frames of
/// two bytes, and a packet is exactly as long as both.
pub proof fn law_the_sizes_on_the_wire()
    ensures
        SAMPLE_RATE == 48000,
        WIRE_CHANNELS == 1,
        HEADER_BYTES == 20,
        MAX_FRAMES_PER_PACKET == 960,
        MAX_PACKET_BYTES == HEADER_BYTES + 2 * MAX_FRAMES_PER_PACKET,
        DEFAULT_AUDIO_PORT == 45678,
        DISCOVERY_PORT == 45679,
        FLAG_MUTED == 1,
{
}

} // verus!
