//! One place for the colours.
//!
//! Dark, because this is a thing to glance at from a metre away in a dim room
//! while something else has your attention. Levels are the only saturated
//! colour on the screen, so a red meter is the thing your eye lands on.
use vstd::prelude::*;

verus! {

pub const BG: u32 = 0x14161a;

pub const PANEL: u32 = 0x1c1f26;

pub const PANEL_ALT: u32 = 0x232732;

pub const BORDER: u32 = 0x2e3440;

/// Used where a line has to separate two areas rather than outline one:
/// the titlebar from the panels below it.
pub const BORDER_STRONG: u32 = 0x3d4658;

pub const TEXT: u32 = 0xe6e9ef;

pub const MUTED: u32 = 0x8b93a7;

pub const ACCENT: u32 = 0x4c9aff;

pub const LIVE: u32 = 0x35c46b;

pub const WARN: u32 = 0xffb020;

pub const DANGER: u32 = 0xff5c5c;

pub const TRACK: u32 = 0x11131a;

/// Green up to a comfortable level, amber where a limiter starts to work, red
/// where it is working hard. The thresholds are the ones the meter ballistics
/// in [`crate::meter`] were written for: 1000 is full scale, and the engine
/// reports up to 2000.
pub fn level_color(level_milli: u32) -> (r: u32)
    ensures
        r == if level_milli >= 950 {
            DANGER
        } else if level_milli >= 700 {
            WARN
        } else {
            LIVE
        },
{
    if level_milli >= 950 {
        DANGER
    } else if level_milli >= 700 {
        WARN
    } else {
        LIVE
    }
}

/// How much of a meter is lit, in thousandths of its width: the bar pins at full
/// while the colour keeps saying "over".
pub fn meter_fill(level_milli: u32) -> (r: u32)
    ensures
        r == if level_milli < 1000 {
            level_milli
        } else {
            1000
        },
{
    if level_milli < 1000 {
        level_milli
    } else {
        1000
    }
}

} // verus!
