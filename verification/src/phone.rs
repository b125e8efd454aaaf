//! What a phone's side of the engine decides about the values that reach it
//! across the language boundary.
use vstd::prelude::*;

use crate::net::validate_port;

verus! {

use crate::net::PortError;

/// What the microphone of a phone is to be opened as.
#[derive(Debug, Clone, Copy, PartialEq, Eq, Structural)]
pub enum InputPreset {
    Unprocessed,
    VoiceRecognition,
    VoicePerformance,
}

/// The preset a number from outside stands for; anything unknown is a performance.
pub fn input_preset(n: i32) -> (r: InputPreset)
    ensures
        r == if n == 1 {
            InputPreset::Unprocessed
        } else if n == 2 {
            InputPreset::VoiceRecognition
        } else {
            InputPreset::VoicePerformance
        },
{
    match n {
        1 => InputPreset::Unprocessed,
        2 => InputPreset::VoiceRecognition,
        _ => InputPreset::VoicePerformance,
    }
}

/// What a request to start a session comes to.
#[derive(Debug, Clone, Copy, PartialEq, Eq, Structural)]
pub enum StartRequest {
    /// The port is not one.
    Refused(PortError),
    /// A session is up already; it is left alone.
    AlreadyRunning,
    /// Retire whatever is left of the previous session first - it may still hold the
    /// port or the microphone - then start on this port.
    Start(u16),
}

/// Decides on a request to start a session.
pub fn on_start(port: i32, running: bool) -> (r: StartRequest)
    ensures
        r == if !(1 <= port <= 65535) {
            StartRequest::Refused(PortError { port })
        } else if running {
            StartRequest::AlreadyRunning
        } else {
            StartRequest::Start(port as u16)
        },
{
    match validate_port(port) {
        Err(e) => StartRequest::Refused(e),
        Ok(p) => if running {
            StartRequest::AlreadyRunning
        } else {
            StartRequest::Start(p)
        },
    }
}

/// A packet size from outside; a negative one asks for the smallest there is.
pub fn frames_from(n: i32) -> (r: usize)
    ensures
        r == if n < 0 {
            0
        } else {
            n as int
        },
{
    if n < 0 {
        0
    } else {
        n as usize
    }
}

/// A dropout count from a stream, which may not have one.
pub fn xruns_from(n: i32) -> (r: u32)
    ensures
        r == if n < 0 {
            0
        } else {
            n as int
        },
{
    if n < 0 {
        0
    } else {
        n as u32
    }
}

/// The source a number from outside stands for: its low 32 bits.
pub fn ssrc_from(n: i64) -> (r: u32)
    ensures
        r == n as int % 0x1_0000_0000,
{
    let wide: u64 = if n < 0 {
        (n as i128 + 0x1_0000_0000_0000_0000) as u64
    } else {
        n as u64
    };
    (wide % 0x1_0000_0000) as u32
}

} // verus!
