use lanmic::discovery::{
    announcement, clean_name, is_probe, local_addresses, on_reply,
    on_reply_reading, probe_packet, read_timeout_ms, strip_name,
    AddressKind, Found, Interface, MAX_DATAGRAM, MAX_NAME_BYTES,
};
use lanmic::protocol::{Header, PacketType};

/// What a mixer called `name` answers a datagram with, if it does.
fn respond(name: &str, datagram: &[u8]) -> Option<Vec<u8>> {
    if is_probe(datagram) {
        Some(announcement(name))
    } else {
        None
    }
}

#[test]
fn a_probe_finds_a_server_and_learns_its_name() {
    let mut found: Vec<Found> = Vec::new();
    let reply = respond("Front of house", &probe_packet()).unwrap();
    on_reply(&mut found, "127.0.0.1", &reply);

    assert_eq!(found.len(), 1, "expected exactly one server: {found:?}");
    assert_eq!(found[0].name, "Front of house");
    assert_eq!(found[0].host(), "127.0.0.1");
}

#[test]
fn the_responder_ignores_everything_that_is_not_a_probe() {
    // Audio on the discovery port, and rubbish, neither of which is ours.
    let answered = respond("quiet", &Header::new(PacketType::Audio).to_bytes()).is_some()
        || respond("quiet", b"not LAU1 at all").is_some();
    assert!(!answered, "the responder answered something it should not");
}

#[test]
fn an_advertised_name_is_trimmed_and_stripped_of_control_characters() {
    assert_eq!(clean_name(b"  Stage left \n"), "Stage left");
    assert_eq!(clean_name(b"a\x1b[2Jb"), "a[2Jb");
    assert_eq!(clean_name(&[0xff, 0xfe]), "\u{fffd}\u{fffd}");
    let long = vec![b'x'; 500];
    assert_eq!(clean_name(&long).len(), MAX_NAME_BYTES);
}

#[test]
fn a_reply_without_a_name_still_becomes_a_usable_entry() {
    let mut found: Vec<Found> = Vec::new();
    let reply = respond("", &probe_packet()).unwrap();
    on_reply(&mut found, "127.0.0.1", &reply);

    assert_eq!(found.len(), 1);
    assert_eq!(found[0].name, "LAN Mic server");
    assert!(!found[0].host().is_empty());
}

#[test]
fn a_server_that_answers_twice_is_listed_once() {
    let mut found: Vec<Found> = Vec::new();
    on_reply(&mut found, "10.0.0.1", &announcement("one"));
    on_reply(&mut found, "10.0.0.1", &announcement("other"));
    on_reply(&mut found, "10.0.0.2", &announcement("two"));
    let seen: Vec<(&str, &str)> = found
        .iter()
        .map(|f| (f.addr.as_str(), f.name.as_str()))
        .collect();
    assert_eq!(seen, [("10.0.0.1", "one"), ("10.0.0.2", "two")]);
}

#[test]
fn what_is_not_an_announcement_is_not_listed() {
    let mut found: Vec<Found> = Vec::new();
    on_reply(&mut found, "10.0.0.1", b"rubbish");
    on_reply(&mut found, "10.0.0.1", &probe_packet());
    on_reply(&mut found, "10.0.0.1", &Header::new(PacketType::Audio).to_bytes());
    assert!(found.is_empty());
}

#[test]
fn a_name_in_any_script_crosses_the_wire() {
    let name = "Bühne \u{1F3A4} 左";
    let mut found: Vec<Found> = Vec::new();
    let packet = announcement(name);
    assert!(packet.len() <= MAX_DATAGRAM);
    on_reply(&mut found, "10.0.0.1", &packet);
    assert_eq!(found[0].name, name);
}

#[test]
fn the_wait_for_an_answer_is_never_zero() {
    for (timeout, read) in [(0u64, 1u64), (1, 1), (499, 499), (500, 500), (1200, 500)] {
        assert_eq!(read_timeout_ms(timeout), read, "{timeout}");
    }
}

#[test]
fn the_addresses_to_type_in_leave_loopback_and_link_local_out() {
    let of = |address: &str, loopback: bool, kind: AddressKind| Interface {
        address: address.to_string(),
        loopback,
        kind,
    };
    let interfaces = vec![
        of("fd00::1", false, AddressKind::V6(0xfd00)),
        of("127.0.0.1", true, AddressKind::V4),
        of("fe80::1", false, AddressKind::V6(0xfe80)),
        of("febf::1", false, AddressKind::V6(0xfebf)),
        of("192.168.1.4", false, AddressKind::V4),
        of("10.0.0.9", false, AddressKind::V4),
    ];
    assert_eq!(
        local_addresses(&interfaces),
        ["192.168.1.4", "10.0.0.9", "fd00::1"]
    );
}

#[test]
fn a_name_is_listed_as_it_reads() {
    let mut found: Vec<Found> = Vec::new();
    let reply = announcement("ignored");
    on_reply_reading(&mut found, "10.0.0.1", &reply, " Stage\u{7} left ");
    on_reply_reading(&mut found, "10.0.0.2", &reply, "\t");
    let names: Vec<&str> = found.iter().map(|f| f.name.as_str()).collect();
    assert_eq!(names, ["Stage left", "LAN Mic server"]);
    assert_eq!(strip_name("\u{a0}a\u{85}b\u{2003}"), "ab");
}

#[test]
fn a_long_name_is_cut_where_nothing_more_is_looked_at() {
    let mut found: Vec<Found> = Vec::new();
    on_reply(&mut found, "10.0.0.1", &announcement(&"n".repeat(100)));
    assert_eq!(found[0].name, "n".repeat(MAX_NAME_BYTES));
}
