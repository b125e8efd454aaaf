use lanmic::protocol::{
    pcm_to_wire, wire_to_pcm, Header, PacketType, FLAG_MUTED, HEADER_BYTES,
};

#[test]
fn header_round_trip() {
    let h = Header {
        packet_type: PacketType::Audio as u8,
        channels: 1,
        flags: FLAG_MUTED,
        ssrc: 0xDEAD_BEEF,
        seq: 123_456,
        timestamp: 0xFFFF_FF00,
    };
    let bytes = h.to_bytes();
    assert_eq!(bytes.len(), HEADER_BYTES);
    assert_eq!(Header::decode(&bytes), Some(h));
    assert!(Header::decode(&bytes).unwrap().muted());
}

#[test]
fn bad_magic_and_short_packets_are_rejected() {
    let mut bytes = Header::new(PacketType::Audio).to_bytes();
    bytes[1] = b'X';
    assert_eq!(Header::decode(&bytes), None);
    bytes[1] = b'A';
    assert!(Header::decode(&bytes).is_some());
    assert_eq!(Header::decode(&bytes[..HEADER_BYTES - 1]), None);
    assert_eq!(Header::decode(&[]), None);
}

#[test]
fn unknown_types_decode_but_do_not_classify() {
    let mut h = Header::new(PacketType::Audio);
    h.packet_type = 99;
    let back = Header::decode(&h.to_bytes()).unwrap();
    assert_eq!(back.packet_type, 99);
    assert_eq!(back.kind(), None);
}

#[test]
fn pcm_survives_the_wire_including_the_rails() {
    let pcm = [0i16, 32767, -32768, -1];
    let mut wire = [0u8; 8];
    pcm_to_wire(&mut wire, &pcm);
    assert_eq!(wire[2], 0xFF);
    assert_eq!(wire[3], 0x7F);
    let mut back = [0i16; 4];
    assert_eq!(wire_to_pcm(&mut back, &wire), 4);
    assert_eq!(back, pcm);
}

#[test]
fn wire_to_pcm_clamps_to_the_shorter_side() {
    let mut back = [7i16; 4];
    assert_eq!(wire_to_pcm(&mut back, &[1, 0, 2, 0]), 2);
    assert_eq!(back, [1, 2, 7, 7]);
}

#[test]
fn a_header_is_little_endian_behind_its_magic() {
    let h = Header {
        packet_type: 2,
        channels: 3,
        flags: 4,
        ssrc: 0x0403_0201,
        seq: 0x0807_0605,
        timestamp: 0x0C0B_0A09,
    };
    assert_eq!(
        h.to_bytes(),
        [
            b'L', b'A', b'U', b'1', 2, 3, 4, 0, 1, 2, 3, 4, 5, 6, 7, 8, 9, 10, 11, 12
        ]
    );
}

#[test]
fn every_packet_type_survives_its_number() {
    let all = [
        PacketType::Audio,
        PacketType::Hello,
        PacketType::Bye,
        PacketType::Discover,
        PacketType::Announce,
    ];
    for (i, t) in all.iter().enumerate() {
        assert_eq!(t.code(), i as u8);
        assert_eq!(PacketType::from_u8(i as u8), Some(*t));
    }
    assert_eq!(PacketType::from_u8(5), None);
    assert_eq!(PacketType::from_u8(255), None);
}

#[test]
fn two_headers_that_differ_differ_on_the_wire() {
    let a = Header::new(PacketType::Hello);
    let mut b = a;
    b.seq = 1;
    assert_ne!(a.to_bytes(), b.to_bytes());
}
