//! The DISCOVER/ANNOUNCE exchange, both halves.
//!
//! The mixer answers probes so a phone's **Find server** button lands on this
//! machine; the microphone side sends them so the desktop does not have to be
//! told an address by hand either. Neither half ever carries audio, and a
//! network that drops broadcast simply means typing the address in.
//!
//! Header encoding is [`crate::protocol`] - the same encoder the audio path
//! uses, so the two cannot drift.
use vstd::prelude::*;
use vstd::slice::slice_subrange;
use vstd::string::StringExecFns;

use crate::protocol::Header;
use crate::text::{chars_of, from_utf8_lossy, is_control_char, push_chars, same, trim_chars};

verus! {

use crate::protocol::{law_header_round_trip, PacketType, HEADER_BYTES};
use crate::text::{is_control, lossy_text, trimmed};

/// Long enough that a probe is answered promptly, short enough that a stopped
/// server's responder notices and exits.
pub const POLL_MS: u64 = 500;

/// Names are advertised, not trusted: a reply is a stranger on the LAN.
pub const MAX_NAME_BYTES: usize = 64;

pub const MAX_DATAGRAM: usize = 276;

/// A server that answered a probe.
#[derive(Debug, PartialEq, Eq)]
pub struct Found {
    pub addr: String,
    pub name: String,
}

pub struct FoundView {
    pub addr: Seq<char>,
    pub name: Seq<char>,
}

impl View for Found {
    type V = FoundView;

    open spec fn view(&self) -> FoundView {
        FoundView { addr: self.addr@, name: self.name@ }
    }
}

impl Clone for Found {
    fn clone(&self) -> (r: Found)
        ensures
            r@ == self@,
    {
        Found { addr: self.addr.clone(), name: self.name.clone() }
    }
}

impl Found {
    /// What the microphone side puts in the host field.
    pub fn host(&self) -> (r: String)
        ensures
            r@ == self.addr@,
    {
        self.addr.clone()
    }
}

/// A list of servers, as what they are.
pub open spec fn list_of(found: Seq<Found>) -> Seq<FoundView> {
    found.map_values(|f: Found| f@)
}

/// A text without its control characters and the white space around the rest.
pub open spec fn stripped(s: Seq<char>) -> Seq<char> {
    trimmed(s.filter(|c: char| !is_control(c)))
}

/// As much of an advertised name as is looked at.
pub open spec fn name_part(bytes: Seq<u8>) -> Seq<u8> {
    if bytes.len() < MAX_NAME_BYTES {
        bytes
    } else {
        bytes.take(MAX_NAME_BYTES as int)
    }
}

/// Sanitises an advertised name. Control characters would otherwise reach a
/// terminal status line intact.
pub fn strip_name(text: &str) -> (r: String)
    ensures
        r@ == stripped(text@),
{
    let cs = chars_of(text);
    let ghost keep = |c: char| !is_control(c);
    let mut kept: Vec<char> = Vec::new();
    let mut i: usize = 0;
    reveal(Seq::filter);
    assert(cs@.take(0).filter(keep) =~= Seq::empty());
    while i < cs.len()
        invariant
            i <= cs@.len(),
            keep == (|c: char| !is_control(c)),
            kept@ == cs@.take(i as int).filter(keep),
        decreases cs@.len() - i,
    {
        reveal(Seq::filter);
        let ghost upto = cs@.take(i + 1);
        assert(upto.drop_last() =~= cs@.take(i as int));
        assert(upto.last() == cs@[i as int]);
        if !is_control_char(cs[i]) {
            kept.push(cs[i]);
        }
        assert(kept@ =~= upto.filter(keep));
        i = i + 1;
    }
    assert(cs@.take(i as int) =~= cs@);
    let inner = trim_chars(&kept);
    let mut r = String::new();
    push_chars(&mut r, inner.as_slice());
    assert(r@ =~= stripped(text@));
    r
}

/// Reads as much of an advertised name as is looked at. What is not UTF-8 in it is
/// read as well as can be.
fn read_name(bytes: &[u8]) -> (r: String)
    ensures
        r@ == lossy_text(name_part(bytes@)),
        vstd::utf8::valid_utf8(name_part(bytes@)) ==> r@ == vstd::utf8::decode_utf8(
            name_part(bytes@),
        ),
{
    let end: usize = if bytes.len() < MAX_NAME_BYTES {
        bytes.len()
    } else {
        MAX_NAME_BYTES
    };
    let part = slice_subrange(bytes, 0, end);
    assert(part@ =~= name_part(bytes@));
    from_utf8_lossy(part)
}

/// Truncates and sanitises an advertised name.
pub fn clean_name(bytes: &[u8]) -> (r: String)
    ensures
        r@ == stripped(lossy_text(name_part(bytes@))),
        vstd::utf8::valid_utf8(name_part(bytes@)) ==> r@ == stripped(
            vstd::utf8::decode_utf8(name_part(bytes@)),
        ),
{
    let text = read_name(bytes);
    strip_name(text.as_str())
}

/// The datagram a server answers a probe with: an ANNOUNCE and its name.
pub fn announcement(name: &str) -> (r: Vec<u8>)
    ensures
        r@ == Header::blank(PacketType::Announce).wire() + vstd::utf8::encode_utf8(name@),
{
    let head = Header::new(PacketType::Announce).to_bytes();
    let mut r: Vec<u8> = Vec::new();
    r.extend_from_slice(head.as_slice());
    r.extend_from_slice(name.as_bytes());
    assert(r@ =~= Header::blank(PacketType::Announce).wire() + vstd::utf8::encode_utf8(name@));
    r
}

/// The datagram that asks who is there.
pub fn probe_packet() -> (r: [u8; HEADER_BYTES])
    ensures
        r@ == Header::blank(PacketType::Discover).wire(),
{
    Header::new(PacketType::Discover).to_bytes()
}

/// What type of packet a datagram is, if it is one.
pub open spec fn type_of(datagram: Seq<u8>) -> Option<PacketType> {
    match Header::parsed(datagram) {
        Some(h) => PacketType::of_code(h.packet_type),
        None => None,
    }
}

/// Whether a datagram on the discovery port is to be answered.
pub fn is_probe(datagram: &[u8]) -> (r: bool)
    ensures
        r == (type_of(datagram@) == Some(PacketType::Discover)),
{
    match Header::decode(datagram) {
        Some(h) => match h.kind() {
            Some(PacketType::Discover) => true,
            _ => false,
        },
        None => false,
    }
}

/// The name an entry is listed under.
pub open spec fn listed_name(name: Seq<char>) -> Seq<char> {
    if name.len() == 0 {
        "LAN Mic server"@
    } else {
        name
    }
}

/// Somebody at this address is in the list.
pub open spec fn has_host(found: Seq<FoundView>, addr: Seq<char>) -> bool {
    exists|i: int| 0 <= i < found.len() && (#[trigger] found[i]).addr == addr
}

/// The bytes of a datagram that hold a name.
pub open spec fn advertised(datagram: Seq<u8>) -> Seq<u8> {
    name_part(datagram.skip(HEADER_BYTES as int))
}

/// The list once a datagram from `addr` has come in whose name reads as `text`.
pub open spec fn after_reading(
    found: Seq<FoundView>,
    addr: Seq<char>,
    datagram: Seq<u8>,
    text: Seq<char>,
) -> Seq<FoundView> {
    if type_of(datagram) == Some(PacketType::Announce) && !has_host(found, addr) {
        found.push(FoundView { addr, name: listed_name(stripped(text)) })
    } else {
        found
    }
}

/// The list once a datagram from `addr` has come in.
pub open spec fn after_reply(found: Seq<FoundView>, addr: Seq<char>, datagram: Seq<u8>) -> Seq<
    FoundView,
> {
    after_reading(found, addr, datagram, lossy_text(advertised(datagram)))
}

/// Takes in what came back on a probe, given what the name in it reads as. One entry
/// per host: a server with two interfaces on this subnet answers twice and would
/// otherwise fill the list with itself.
pub fn on_reply_reading(found: &mut Vec<Found>, addr: &str, datagram: &[u8], text: &str)
    ensures
        list_of(final(found)@) == after_reading(list_of(old(found)@), addr@, datagram@, text@),
{
    let ghost before = list_of(found@);
    match Header::decode(datagram) {
        Some(h) => match h.kind() {
            Some(PacketType::Announce) => {},
            _ => {
                return;
            },
        },
        None => {
            return;
        },
    }
    let mut i: usize = 0;
    while i < found.len()
        invariant
            i <= found@.len(),
            *found == *old(found),
            before == list_of(found@),
            forall|k: int| 0 <= k < i ==> (#[trigger] before[k]).addr != addr@,
        decreases found@.len() - i,
    {
        assert(before[i as int] == found@[i as int]@);
        if same(found[i].addr.as_str(), addr) {
            return;
        }
        i = i + 1;
    }
    let name = strip_name(text);
    let shown = if name.as_str().is_empty() {
        String::from_str("LAN Mic server")
    } else {
        name
    };
    found.push(Found { addr: String::from_str(addr), name: shown });
    assert(list_of(found@) =~= after_reading(before, addr@, datagram@, text@));
}

/// Takes in what came back on a probe.
pub fn on_reply(found: &mut Vec<Found>, addr: &str, datagram: &[u8])
    ensures
        list_of(final(found)@) == after_reply(list_of(old(found)@), addr@, datagram@),
        vstd::utf8::valid_utf8(advertised(datagram@)) ==> list_of(final(found)@) == after_reading(
            list_of(old(found)@),
            addr@,
            datagram@,
            vstd::utf8::decode_utf8(advertised(datagram@)),
        ),
{
    if datagram.len() < HEADER_BYTES {
        return;
    }
    let payload = slice_subrange(datagram, HEADER_BYTES, datagram.len());
    assert(payload@ =~= datagram@.skip(HEADER_BYTES as int));
    let text = read_name(payload);
    on_reply_reading(found, addr, datagram, text.as_str());
}

/// How long one read waits while a probe is out. A zero read timeout means "block
/// forever" to the OS, so never pass one on.
pub fn read_timeout_ms(timeout_ms: u64) -> (r: u64)
    ensures
        r == if timeout_ms == 0 {
            1
        } else if timeout_ms < POLL_MS {
            timeout_ms
        } else {
            POLL_MS
        },
{
    if timeout_ms == 0 {
        1
    } else if timeout_ms < POLL_MS {
        timeout_ms
    } else {
        POLL_MS
    }
}

#[derive(Debug, Clone, Copy, PartialEq, Eq, Structural)]
pub enum AddressKind {
    V4,
    /// With the first sixteen bits of the address.
    V6(u16),
}

/// One address of this machine.
#[derive(Debug)]
pub struct Interface {
    pub address: String,
    pub loopback: bool,
    pub kind: AddressKind,
}

/// An address of this family worth reading out. A loopback one is not, and a
/// link-local IPv6 one (`fe80::/10`) needs a scope id to be useful and is only noise
/// in a list someone is going to read off a screen.
pub open spec fn worth_reading_out(i: Interface, v4: bool) -> bool {
    !i.loopback && match i.kind {
        AddressKind::V4 => v4,
        AddressKind::V6(first) => !v4 && !(0xfe80 <= first <= 0xfebf),
    }
}

/// The addresses of one family worth reading out, in order.
pub open spec fn addresses_of(interfaces: Seq<Interface>, v4: bool) -> Seq<Seq<char>> {
    interfaces.filter(|i: Interface| worth_reading_out(i, v4)).map_values(
        |i: Interface| i.address@,
    )
}

fn collect(interfaces: &Vec<Interface>, v4: bool, out: &mut Vec<String>)
    ensures
        final(out)@.map_values(|s: String| s@) == old(out)@.map_values(|s: String| s@)
            + addresses_of(interfaces@, v4),
{
    let ghost text = |s: String| s@;
    let ghost start = out@.map_values(text);
    let mut i: usize = 0;
    reveal(Seq::filter);
    assert(addresses_of(interfaces@.take(0), v4) =~= Seq::empty());
    assert(start =~= start + addresses_of(interfaces@.take(0), v4));
    while i < interfaces.len()
        invariant
            i <= interfaces@.len(),
            text == (|s: String| s@),
            out@.map_values(text) == start + addresses_of(interfaces@.take(i as int), v4),
        decreases interfaces@.len() - i,
    {
        reveal(Seq::filter);
        let ghost before = out@;
        let ghost upto = interfaces@.take(i + 1);
        assert(upto.drop_last() =~= interfaces@.take(i as int));
        assert(upto.last() == interfaces@[i as int]);
        let interface = &interfaces[i];
        let wanted = if interface.loopback {
            false
        } else {
            match interface.kind {
                AddressKind::V4 => v4,
                AddressKind::V6(first) => !v4 && !(0xfe80 <= first && first <= 0xfebf),
            }
        };
        if wanted {
            out.push(interface.address.clone());
            assert(addresses_of(upto, v4) =~= addresses_of(upto.drop_last(), v4).push(
                interface.address@,
            ));
            assert(out@.map_values(text) =~= before.map_values(text).push(interface.address@));
        }
        assert(out@.map_values(text) =~= start + addresses_of(upto, v4));
        i = i + 1;
    }
    assert(interfaces@.take(i as int) =~= interfaces@);
}

/// Every non-loopback address of this machine, for the "tell the phones this"
/// line. IPv4 first: that is what someone types into a phone.
pub fn local_addresses(interfaces: &Vec<Interface>) -> (r: Vec<String>)
    ensures
        r@.map_values(|s: String| s@) == addresses_of(interfaces@, true) + addresses_of(
            interfaces@,
            false,
        ),
{
    let mut r: Vec<String> = Vec::new();
    assert(r@.map_values(|s: String| s@) =~= Seq::empty());
    collect(interfaces, true, &mut r);
    assert(r@.map_values(|s: String| s@) =~= addresses_of(interfaces@, true));
    collect(interfaces, false, &mut r);
    r
}

/// No two entries for one host.
pub open spec fn one_entry_each(found: Seq<FoundView>) -> bool {
    forall|i: int, j: int|
        0 <= i < found.len() && 0 <= j < found.len() && (#[trigger] found[i]).addr == (
        #[trigger] found[j]).addr ==> i == j
}

/// However often a server answers, it is listed once; every entry has a name; and what
/// is in the list stays where it is.
pub proof fn law_one_entry_per_host(found: Seq<FoundView>, addr: Seq<char>, datagram: Seq<u8>)
    requires
        one_entry_each(found),
    ensures
        one_entry_each(after_reply(found, addr, datagram)),
        after_reply(after_reply(found, addr, datagram), addr, datagram) == after_reply(
            found,
            addr,
            datagram,
        ),
        after_reply(found, addr, datagram).take(found.len() as int) == found,
        after_reply(found, addr, datagram).len() > found.len() ==> after_reply(
            found,
            addr,
            datagram,
        ).last().name.len() > 0,
{
    reveal_strlit("LAN Mic server");
    let after = after_reply(found, addr, datagram);
    if after.len() > found.len() {
        assert(after[found.len() as int].addr == addr);
        assert(has_host(after, addr));
    }
    assert(after.take(found.len() as int) =~= found);
}

/// A name is fit to be shown as it is: no control characters, no white space around
/// it, and not empty.
pub open spec fn is_clean(name: Seq<char>) -> bool {
    &&& name.len() > 0
    &&& trimmed(name) == name
    &&& forall|i: int| 0 <= i < name.len() ==> !is_control(#[trigger] name[i])
}

proof fn lemma_nothing_to_filter(s: Seq<char>)
    requires
        forall|i: int| 0 <= i < s.len() ==> !is_control(#[trigger] s[i]),
    ensures
        s.filter(|c: char| !is_control(c)) == s,
    decreases s.len(),
{
    reveal(Seq::filter);
    if s.len() > 0 {
        lemma_nothing_to_filter(s.drop_last());
        assert(s.drop_last().push(s.last()) =~= s);
    }
    assert(s.filter(|c: char| !is_control(c)) =~= s);
}

/// Whoever probes learns the name of whoever answers: what a server announces itself
/// with, in as many bytes as are looked at, is what it is listed under - as it is, if
/// it is fit to be shown.
pub proof fn law_a_probe_learns_the_name(found: Seq<FoundView>, addr: Seq<char>, name: Seq<char>)
    requires
        vstd::utf8::encode_utf8(name).len() <= MAX_NAME_BYTES,
        !has_host(found, addr),
    ensures
        ({
            let answer = Header::blank(PacketType::Announce).wire() + vstd::utf8::encode_utf8(name);
            &&& vstd::utf8::valid_utf8(advertised(answer))
            &&& after_reading(
                found,
                addr,
                answer,
                vstd::utf8::decode_utf8(advertised(answer)),
            ) == found.push(FoundView { addr, name: listed_name(stripped(name)) })
        }),
        is_clean(name) ==> listed_name(stripped(name)) == name,
{
    let bytes = vstd::utf8::encode_utf8(name);
    let answer = Header::blank(PacketType::Announce).wire() + bytes;
    law_each_end_recognises_the_other(bytes);
    assert(advertised(answer) =~= bytes) by {
        assert(bytes.take(MAX_NAME_BYTES as int) =~= bytes || bytes.len() < MAX_NAME_BYTES);
    }
    vstd::utf8::encode_utf8_valid_utf8(name);
    vstd::utf8::encode_utf8_decode_utf8(name);
    if is_clean(name) {
        lemma_nothing_to_filter(name);
    }
}

/// A probe is recognised as one, and an announcement as one that carries the name it
/// was made with.
pub proof fn law_each_end_recognises_the_other(name: Seq<u8>)
    ensures
        type_of(Header::blank(PacketType::Discover).wire()) == Some(PacketType::Discover),
        type_of(Header::blank(PacketType::Announce).wire() + name) == Some(PacketType::Announce),
        (Header::blank(PacketType::Announce).wire() + name).skip(HEADER_BYTES as int) == name,
{
    let probe = Header::blank(PacketType::Discover);
    let answer = Header::blank(PacketType::Announce);
    law_header_round_trip(probe, Seq::empty());
    assert(probe.wire() + Seq::empty() =~= probe.wire());
    law_header_round_trip(answer, name);
    assert((answer.wire() + name).skip(HEADER_BYTES as int) =~= name);
}

/// What an answer comes to, told by its bytes: a host that is not listed yet is put at the
/// end of the list, under the name it gives or, where it gives none, a stand-in; anything
/// that is no announcement, and a host that is listed, changes nothing.
pub proof fn law_an_answer_is_listed(
    found: Seq<FoundView>,
    addr: Seq<char>,
    b: Seq<u8>,
    text: Seq<char>,
)
    ensures
        ({
            let after = after_reading(found, addr, b, text);
            let announces = b.len() >= 20 && b[0] == 0x4c && b[1] == 0x41 && b[2] == 0x55 && b[3]
                == 0x31 && b[4] == 4;
            let known = exists|i: int| 0 <= i < found.len() && (#[trigger] found[i]).addr == addr;
            let name = stripped(text);
            &&& !announces || known ==> after == found
            &&& announces && !known ==> {
                &&& after.len() == found.len() + 1
                &&& forall|i: int| 0 <= i < found.len() ==> #[trigger] after[i] == found[i]
                &&& after.last().addr == addr
                &&& name.len() > 0 ==> after.last().name == name
                &&& name.len() == 0 ==> after.last().name == "LAN Mic server"@
            }
        }),
        type_of(b) == Some(PacketType::Discover) <==> b.len() >= 20 && b[0] == 0x4c && b[1] == 0x41
            && b[2] == 0x55 && b[3] == 0x31 && b[4] == 3,
{
    crate::receiver_laws::law_a_header_is_read_byte_by_byte(b);
}

/// Of what an answer carries behind its header, at most 64 bytes are looked at, and of a
/// name no control character is kept.
pub proof fn law_a_name_is_cut_and_cleaned(b: Seq<u8>, text: Seq<char>)
    ensures
        name_part(b).len() == if b.len() < 64 {
            b.len()
        } else {
            64
        },
        forall|i: int| 0 <= i < name_part(b).len() ==> #[trigger] name_part(b)[i] == b[i],
        b.len() >= 20 ==> advertised(b) == name_part(b.skip(20)),
        forall|i: int|
            0 <= i < stripped(text).len() ==> !is_control(#[trigger] stripped(text)[i]),
        stripped(text).len() > 0 ==> !crate::text::is_space(stripped(text)[0])
            && !crate::text::is_space(stripped(text).last()),
{
    let kept = text.filter(|c: char| !is_control(c));
    lemma_filtered(text);
    crate::text::law_trimmed_has_no_white_space_around_it(kept);
    crate::text::lemma_trimmed_is_a_piece(kept);
    assert forall|i: int| 0 <= i < stripped(text).len() implies !is_control(
        #[trigger] stripped(text)[i],
    ) by {
        assert(kept.contains(stripped(text)[i]));
        let k = choose|k: int| 0 <= k < kept.len() && kept[k] == stripped(text)[i];
        assert(!is_control(kept[k]));
    }
}

spec fn without_controls(s: Seq<char>) -> bool {
    forall|i: int| 0 <= i < s.len() ==> !is_control(#[trigger] s[i])
}

proof fn lemma_filtered(s: Seq<char>)
    ensures
        without_controls(s.filter(|c: char| !is_control(c))),
    decreases s.len(),
{
    reveal(Seq::filter);
    if s.len() > 0 {
        lemma_filtered(s.drop_last());
    }
}

/// An address is read out unless it only reaches this machine or this link: loopback is
/// left out, and so are the version six addresses from fe80 to febf.
pub proof fn law_an_address_worth_reading_out(i: Interface)
    ensures
        worth_reading_out(i, true) <==> !i.loopback && i.kind is V4,
        worth_reading_out(i, false) <==> !i.loopback && (i.kind matches AddressKind::V6(first) && (
        first < 0xfe80 || first > 0xfebf)),
{
}

/// Nothing of an entry is hidden from what is said of it.
pub proof fn law_an_entry_is_shown_whole(f: Found, found: Seq<Found>, i: int)
    ensures
        f@.addr == f.addr@,
        f@.name == f.name@,
        list_of(found).len() == found.len(),
        0 <= i < found.len() ==> list_of(found)[i] == found[i]@,
{
}

/// An address is that of an interface worth reading out.
pub open spec fn is_worth_reading_out(
    address: Seq<char>,
    interfaces: Seq<Interface>,
    v4: bool,
) -> bool {
    exists|i: int|
        0 <= i < interfaces.len() && worth_reading_out(interfaces[i], v4) && address == (
        #[trigger] interfaces[i]).address@
}

/// Every address worth reading out is read out, and no other is.
pub proof fn law_addresses_worth_reading_out_are_read_out(interfaces: Seq<Interface>, v4: bool)
    ensures
        forall|i: int|
            0 <= i < interfaces.len() && worth_reading_out(#[trigger] interfaces[i], v4)
                ==> addresses_of(interfaces, v4).contains(interfaces[i].address@),
        forall|k: int|
            0 <= k < addresses_of(interfaces, v4).len() ==> is_worth_reading_out(
                #[trigger] addresses_of(interfaces, v4)[k],
                interfaces,
                v4,
            ),
    decreases interfaces.len(),
{
    reveal(Seq::filter);
    let all = addresses_of(interfaces, v4);
    if interfaces.len() > 0 {
        let init = interfaces.drop_last();
        let last = interfaces.last();
        let before = addresses_of(init, v4);
        law_addresses_worth_reading_out_are_read_out(init, v4);
        let worth = worth_reading_out(last, v4);
        assert(all =~= if worth {
            before.push(last.address@)
        } else {
            before
        });
        assert forall|i: int|
            0 <= i < interfaces.len() && worth_reading_out(
                #[trigger] interfaces[i],
                v4,
            ) implies all.contains(interfaces[i].address@) by {
            if i < init.len() {
                assert(init[i] == interfaces[i]);
                assert(before.contains(init[i].address@));
                let k = choose|k: int| 0 <= k < before.len() && before[k] == init[i].address@;
                assert(all[k] == before[k]);
            } else {
                assert(all[before.len() as int] == last.address@);
            }
        }
        assert forall|k: int| 0 <= k < all.len() implies is_worth_reading_out(
            #[trigger] all[k],
            interfaces,
            v4,
        ) by {
            if k < before.len() {
                assert(all[k] == before[k]);
                assert(is_worth_reading_out(before[k], init, v4));
                let i = choose|i: int|
                    0 <= i < init.len() && worth_reading_out(init[i], v4) && before[k] == (
                    #[trigger] init[i]).address@;
                assert(interfaces[i] == init[i]);
            } else {
                assert(interfaces[interfaces.len() - 1] == last);
            }
        }
    } else {
        assert(all =~= Seq::empty());
    }
}

} // verus!
