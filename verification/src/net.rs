//! What there is to decide about sockets: which ports, which errors, which
//! addresses. The sockets themselves are opened by whoever runs the session.
use vstd::prelude::*;

use crate::text::{is_blank, push_signed};

verus! {

use crate::text::{signed_decimal, trimmed};
use vstd::string::StringExecFns;

/// DSCP EF (46) shifted into the TOS byte. Android and Linux map this to WMM
/// Voice on Wi-Fi. The IPv6 traffic class carries the same value in its own field.
pub const TOS_VOICE: u32 = 0xB8;

pub const SEND_BUFFER_BYTES: usize = 262_144;

pub const RECV_BUFFER_BYTES: usize = 524_288;

/// Why an I/O call failed, as far as it is told apart here.
#[derive(Debug, Clone, Copy, PartialEq, Eq, Structural)]
pub enum IoErrorKind {
    WouldBlock,
    TimedOut,
    Interrupted,
    InvalidInput,
    Other,
}

/// A port that is not one.
#[derive(Debug, Clone, Copy, PartialEq, Eq, Structural)]
pub struct PortError {
    pub port: i32,
}

impl PortError {
    pub fn message(&self) -> (r: String)
        ensures
            r@ == "port "@ + signed_decimal(self.port as int) + " is outside 1..=65535"@,
    {
        let mut r = String::from_str("port ");
        push_signed(&mut r, self.port as i64);
        r.append(" is outside 1..=65535");
        r
    }
}

/// Validates a port that came from outside - the UI, across a language
/// boundary. Anything outside 1..=65535 must not reach the socket layer, where
/// the cast to 16 bits would silently turn 70000 into 4464.
pub fn validate_port(port: i32) -> (r: Result<u16, PortError>)
    ensures
        match r {
            Ok(p) => 1 <= port <= 65535 && p == port,
            Err(e) => !(1 <= port <= 65535) && e == (PortError { port }),
        },
{
    if 1 <= port && port <= 65535 {
        Ok(port as u16)
    } else {
        Err(PortError { port })
    }
}

/// True for the errors that mean "nothing to read right now" rather than
/// "this socket is finished".
pub fn is_would_block(kind: IoErrorKind) -> (r: bool)
    ensures
        r == (kind is WouldBlock || kind is TimedOut || kind is Interrupted),
{
    match kind {
        IoErrorKind::WouldBlock | IoErrorKind::TimedOut | IoErrorKind::Interrupted => true,
        _ => false,
    }
}

/// Refuses to send to nowhere: an address has to be there before anything is
/// resolved or opened.
pub fn check_address(host: &str) -> (r: Result<(), IoErrorKind>)
    ensures
        match r {
            Ok(_) => trimmed(host@).len() > 0,
            Err(e) => trimmed(host@).len() == 0 && e is InvalidInput,
        },
{
    if is_blank(host) {
        Err(IoErrorKind::InvalidInput)
    } else {
        Ok(())
    }
}

} // verus!
