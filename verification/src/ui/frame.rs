//! The window frame, for the platforms that do not draw one.
//!
//! A window needs three things a program cannot do without help: something to
//! drag to move it, edges to drag to resize it, and a button to close it. Where
//! the platform does not provide them they are the application's to draw:
//!
//! * a titlebar that moves the window, maximises it on a double click, and
//!   raises the compositor's own menu on a right click,
//! * minimise, maximise/restore and close buttons at its right,
//! * a grab zone around the whole window, with the cursor for whichever edge or
//!   corner the pointer is over.
//!
//! The window's content is inset by that zone rather than drawn under it, so a
//! fader that reaches the edge of the window cannot swallow a resize - and a
//! resize cannot swallow the fader.
use vstd::prelude::*;

verus! {

/// How far in from an edge counts as a grab, in pixels. Six is the width of a
/// window border people have been aiming at for thirty years; wider starts
/// eating clicks meant for the content.
pub const RESIZE_MARGIN: i32 = 6;

/// Corner radius of the frame we draw ourselves, in pixels.
pub const ROUNDING: i32 = 8;

/// Which sides of the window are flush against something.
#[derive(Debug, Clone, Copy, PartialEq, Eq, Structural)]
pub struct Tiling {
    pub top: bool,
    pub bottom: bool,
    pub left: bool,
    pub right: bool,
}

impl Tiling {
    /// A window that stands free on every side.
    pub fn none() -> (r: Tiling)
        ensures
            r == (Tiling { top: false, bottom: false, left: false, right: false }),
    {
        Tiling { top: false, bottom: false, left: false, right: false }
    }

    /// A window with no free side.
    pub fn tiled() -> (r: Tiling)
        ensures
            r == (Tiling { top: true, bottom: true, left: true, right: true }),
    {
        Tiling { top: true, bottom: true, left: true, right: true }
    }
}

#[derive(Debug, Clone, Copy, PartialEq, Eq, Structural)]
pub enum ResizeEdge {
    Top,
    TopRight,
    Right,
    BottomRight,
    Bottom,
    BottomLeft,
    Left,
    TopLeft,
}

#[derive(Debug, Clone, Copy, PartialEq, Eq, Structural)]
pub enum CursorStyle {
    ResizeUpDown,
    ResizeLeftRight,
    ResizeUpLeftDownRight,
    ResizeUpRightDownLeft,
}

/// Which of the sides whose grab zone the pointer is in can be grabbed. Corners
/// first: at a corner both an edge and a corner match, and the corner is the one that
/// was aimed at.
pub open spec fn grabbed(top: bool, bottom: bool, left: bool, right: bool) -> Option<ResizeEdge> {
    if top && left {
        Some(ResizeEdge::TopLeft)
    } else if top && right {
        Some(ResizeEdge::TopRight)
    } else if bottom && left {
        Some(ResizeEdge::BottomLeft)
    } else if bottom && right {
        Some(ResizeEdge::BottomRight)
    } else if top {
        Some(ResizeEdge::Top)
    } else if bottom {
        Some(ResizeEdge::Bottom)
    } else if left {
        Some(ResizeEdge::Left)
    } else if right {
        Some(ResizeEdge::Right)
    } else {
        None
    }
}

/// Which edge or corner a point of a window is a grab on.
pub open spec fn edge_at(
    x: int,
    y: int,
    margin: int,
    width: int,
    height: int,
    tiling: Tiling,
) -> Option<ResizeEdge> {
    grabbed(
        y <= margin && !tiling.top,
        y >= height - margin && !tiling.bottom,
        x <= margin && !tiling.left,
        x >= width - margin && !tiling.right,
    )
}

/// Which edge or corner the pointer is over, if any. The unit is the caller's.
///
/// A tiled edge is not one of them: a window snapped to the left half of the
/// screen shares its right edge with the compositor's own grip, and its left
/// edge with nothing at all.
pub fn resize_edge(x: i32, y: i32, margin: i32, width: i32, height: i32, tiling: Tiling) -> (r: Option<
    ResizeEdge,
>)
    ensures
        r == edge_at(
            x as int,
            y as int,
            margin as int,
            width as int,
            height as int,
            tiling,
        ),
{
    let top = y <= margin && !tiling.top;
    let bottom = y as i64 >= height as i64 - margin as i64 && !tiling.bottom;
    let left = x <= margin && !tiling.left;
    let right = x as i64 >= width as i64 - margin as i64 && !tiling.right;
    if top && left {
        Some(ResizeEdge::TopLeft)
    } else if top && right {
        Some(ResizeEdge::TopRight)
    } else if bottom && left {
        Some(ResizeEdge::BottomLeft)
    } else if bottom && right {
        Some(ResizeEdge::BottomRight)
    } else if top {
        Some(ResizeEdge::Top)
    } else if bottom {
        Some(ResizeEdge::Bottom)
    } else if left {
        Some(ResizeEdge::Left)
    } else if right {
        Some(ResizeEdge::Right)
    } else {
        None
    }
}

pub fn cursor_for(edge: ResizeEdge) -> (r: CursorStyle)
    ensures
        r == match edge {
            ResizeEdge::Top => CursorStyle::ResizeUpDown,
            ResizeEdge::Bottom => CursorStyle::ResizeUpDown,
            ResizeEdge::Left => CursorStyle::ResizeLeftRight,
            ResizeEdge::Right => CursorStyle::ResizeLeftRight,
            ResizeEdge::TopLeft => CursorStyle::ResizeUpLeftDownRight,
            ResizeEdge::BottomRight => CursorStyle::ResizeUpLeftDownRight,
            ResizeEdge::TopRight => CursorStyle::ResizeUpRightDownLeft,
            ResizeEdge::BottomLeft => CursorStyle::ResizeUpRightDownLeft,
        },
{
    match edge {
        ResizeEdge::Top | ResizeEdge::Bottom => CursorStyle::ResizeUpDown,
        ResizeEdge::Left | ResizeEdge::Right => CursorStyle::ResizeLeftRight,
        ResizeEdge::TopLeft | ResizeEdge::BottomRight => CursorStyle::ResizeUpLeftDownRight,
        ResizeEdge::TopRight | ResizeEdge::BottomLeft => CursorStyle::ResizeUpRightDownLeft,
    }
}

/// Which corners of the frame are round. One that touches a tiled edge is flush
/// against something; rounding it would draw a seam down the middle of the screen.
#[derive(Debug, Clone, Copy, PartialEq, Eq, Structural)]
pub struct Corners {
    pub top_left: bool,
    pub top_right: bool,
    pub bottom_left: bool,
    pub bottom_right: bool,
}

pub fn round_corners(tiling: Tiling) -> (r: Corners)
    ensures
        r == (Corners {
            top_left: !tiling.top && !tiling.left,
            top_right: !tiling.top && !tiling.right,
            bottom_left: !tiling.bottom && !tiling.left,
            bottom_right: !tiling.bottom && !tiling.right,
        }),
{
    Corners {
        top_left: !(tiling.top || tiling.left),
        top_right: !(tiling.top || tiling.right),
        bottom_left: !(tiling.bottom || tiling.left),
        bottom_right: !(tiling.bottom || tiling.right),
    }
}

/// What a press on the titlebar does.
#[derive(Debug, Clone, Copy, PartialEq, Eq, Structural)]
pub enum TitlebarPress {
    /// A double click is the shortcut for the maximise button, and starting a move
    /// on it would fight the compositor.
    Zoom,
    Move,
}

pub fn titlebar_press(click_count: usize) -> (r: TitlebarPress)
    ensures
        r == if click_count >= 2 {
            TitlebarPress::Zoom
        } else {
            TitlebarPress::Move
        },
{
    if click_count >= 2 {
        TitlebarPress::Zoom
    } else {
        TitlebarPress::Move
    }
}

/// A button of the frame.
#[derive(Debug, Clone, Copy, PartialEq, Eq, Structural)]
pub enum Control {
    Minimize,
    Maximize,
    /// The same button once the window is maximised.
    Restore,
    Close,
}

/// The buttons the frame has: none where the platform draws them, and otherwise
/// those it says it has, and always the one that closes.
pub open spec fn buttons(client_side: bool, minimize: bool, maximize: bool, maximized: bool) -> Seq<
    Control,
> {
    if !client_side {
        Seq::empty()
    } else {
        (if minimize {
            seq![Control::Minimize]
        } else {
            Seq::empty()
        }) + (if maximize {
            seq![
                if maximized {
                    Control::Restore
                } else {
                    Control::Maximize
                },
            ]
        } else {
            Seq::empty()
        }) + seq![Control::Close]
    }
}

/// Minimise, maximise/restore and close, in the order every desktop but macOS
/// puts them - and macOS draws its own, so it never gets here.
pub fn controls(client_side: bool, minimize: bool, maximize: bool, maximized: bool) -> (r: Vec<
    Control,
>)
    ensures
        r@ == buttons(client_side, minimize, maximize, maximized),
{
    let mut r: Vec<Control> = Vec::new();
    if !client_side {
        assert(r@ =~= buttons(client_side, minimize, maximize, maximized));
        return r;
    }
    if minimize {
        r.push(Control::Minimize);
    }
    if maximize {
        r.push(
            if maximized {
                Control::Restore
            } else {
                Control::Maximize
            },
        );
    }
    r.push(Control::Close);
    assert(r@ =~= buttons(client_side, minimize, maximize, maximized));
    r
}

/// The sides an edge or corner belongs to.
pub open spec fn touches(edge: ResizeEdge, side: ResizeEdge) -> bool {
    match side {
        ResizeEdge::Top => edge is Top || edge is TopLeft || edge is TopRight,
        ResizeEdge::Bottom => edge is Bottom || edge is BottomLeft || edge is BottomRight,
        ResizeEdge::Left => edge is Left || edge is TopLeft || edge is BottomLeft,
        ResizeEdge::Right => edge is Right || edge is TopRight || edge is BottomRight,
        _ => edge == side,
    }
}

/// A tiled edge cannot be grabbed, nor a corner it belongs to; a fully tiled window has
/// nothing to grab; and nothing is grabbed away from the edges.
pub proof fn law_a_tiled_edge_cannot_be_grabbed(
    x: int,
    y: int,
    margin: int,
    width: int,
    height: int,
    tiling: Tiling,
)
    ensures
        edge_at(x, y, margin, width, height, tiling) matches Some(e) ==> {
            &&& tiling.top ==> !touches(e, ResizeEdge::Top)
            &&& tiling.bottom ==> !touches(e, ResizeEdge::Bottom)
            &&& tiling.left ==> !touches(e, ResizeEdge::Left)
            &&& tiling.right ==> !touches(e, ResizeEdge::Right)
        },
        tiling.top && tiling.bottom && tiling.left && tiling.right ==> edge_at(
            x,
            y,
            margin,
            width,
            height,
            tiling,
        ) is None,
        margin < x < width - margin && margin < y < height - margin ==> edge_at(
            x,
            y,
            margin,
            width,
            height,
            tiling,
        ) is None,
{
}

/// At a corner of a free window it is the corner that is grabbed, not one of the two
/// edges that meet there; and where one of them is tiled it is the other edge.
pub proof fn law_a_corner_beats_the_edges_that_meet_there(
    x: int,
    y: int,
    margin: int,
    width: int,
    height: int,
)
    requires
        y <= margin,
        x >= width - margin,
        x > margin,
        y < height - margin,
    ensures
        edge_at(
            x,
            y,
            margin,
            width,
            height,
            Tiling { top: false, bottom: false, left: false, right: false },
        ) == Some(ResizeEdge::TopRight),
        edge_at(
            x,
            y,
            margin,
            width,
            height,
            Tiling { top: true, bottom: false, left: false, right: false },
        ) == Some(ResizeEdge::Right),
        edge_at(
            x,
            y,
            margin,
            width,
            height,
            Tiling { top: false, bottom: false, left: false, right: true },
        ) == Some(ResizeEdge::Top),
{
}

/// What is grabbed is told by how close the pointer is: it belongs to a side exactly where
/// it is within the margin of that side and the side is free, in any window that is wider
/// and higher than two margins.
pub proof fn law_a_side_is_grabbed_within_its_margin(
    x: int,
    y: int,
    margin: int,
    width: int,
    height: int,
    tiling: Tiling,
)
    requires
        0 <= margin,
        2 * margin < width,
        2 * margin < height,
    ensures
        ({
            let e = edge_at(x, y, margin, width, height, tiling);
            let top = y <= margin && !tiling.top;
            let bottom = y >= height - margin && !tiling.bottom;
            let left = x <= margin && !tiling.left;
            let right = x >= width - margin && !tiling.right;
            &&& e is Some <==> top || bottom || left || right
            &&& e matches Some(e) ==> {
                &&& (e is Top || e is TopLeft || e is TopRight) == top
                &&& (e is Bottom || e is BottomLeft || e is BottomRight) == bottom
                &&& (e is Left || e is TopLeft || e is BottomLeft) == left
                &&& (e is Right || e is TopRight || e is BottomRight) == right
            }
        }),
{
}

/// A window that draws its own frame can always be closed; it offers to be minimised and
/// maximised where it can be, in that order, and to be restored once it is maximised. A
/// window whose frame is drawn for it offers nothing.
pub proof fn law_a_window_can_be_closed(
    client_side: bool,
    minimize: bool,
    maximize: bool,
    maximized: bool,
)
    ensures
        ({
            let b = buttons(client_side, minimize, maximize, maximized);
            &&& !client_side ==> b.len() == 0
            &&& client_side ==> b.len() > 0 && b.last() is Close
            &&& client_side ==> b.len() == 1 + (if minimize {
                1int
            } else {
                0
            }) + (if maximize {
                1int
            } else {
                0
            })
            &&& client_side && minimize ==> b[0] is Minimize
            &&& client_side && maximize && maximized ==> b[b.len() - 2] is Restore
            &&& client_side && maximize && !maximized ==> b[b.len() - 2] is Maximize
        }),
{
}

} // verus!
