//! Low-latency LAN audio: microphones in, one mix out.
//!
//! One crate contains both ends. A machine is either a **microphone** (capture,
//! packetise, ship) or a **mixer** (receive, align, sum, play), never both at
//! once. Everything here is plain state and plain values: sockets, sound devices,
//! threads and windows belong to the program around it.
//!
//! ```text
//!   protocol      the packet header and the samples on the wire
//!   ring          the sample ring both ends buffer through
//!   jitter        one jitter buffer: late, lost and early packets put in their place
//!   mixer         the table of sources, and the halves that fill and drain it
//!   receiver      what a mixer does with each datagram
//!   transmitter   from captured bursts to packets
//!   discovery     finding a mixer without being told its address
//!   supervisor    keeping one audio stream alive
//!   startup       the order in which a session comes up
//!   single        the arithmetic behind the numbers on a screen
//!   args, audio, console, engine, phone, ui
//!                 the two programs around it: what they read, choose and show
//!   *_laws        what holds across several of these
//! ```
pub mod args;
pub mod args_laws;
pub mod audio;
pub mod capture_laws;
pub mod console;
pub mod discovery;
pub mod engine;
pub mod jitter;
pub mod jitter_laws;
pub mod meter;
pub mod mixer;
pub mod mixer_laws;
pub mod net;
pub mod path_laws;
pub mod phone;
pub mod protocol;
pub mod receiver;
pub mod receiver_laws;
pub mod ring;
pub mod single;
pub mod startup;
pub mod supervisor;
pub mod text;
pub mod transmitter;
pub mod ui;
pub mod util;
