//! The window: its state and what it decides, without anything that draws.
//!
//! ```text
//!   desk.rs       the state, and everything that starts or stops
//!   desk_laws.rs  what holds of it
//!   panels.rs     what the mixer and microphone panels say
//!   frame.rs      the window frame, where the platform does not draw one
//!   widgets.rs    buttons and the one-line text field
//!   theme.rs      colours
//! ```
pub mod desk;
pub mod desk_laws;
pub mod frame;
pub mod panels;
pub mod theme;
pub mod widgets;
