//! Client-side window decorations: which corners are rounded, which sides get
//! the shadow and the border, and which resize edge a pointer position means.
//!
//! Where the pointer lies relative to the window is measured in pixels by the
//! caller; this module decides from those measurements.
use vstd::prelude::*;

verus! {

/// The width of the shadow around a client-decorated window, in pixels.
pub const CLIENT_SIDE_DECORATION_SHADOW: u32 = 10;
/// The radius of a client-decorated window's rounded corners, in pixels.
pub const CLIENT_SIDE_DECORATION_ROUNDING: u32 = 10;
/// The width of the border of a client-decorated window, in pixels.
pub const CLIENT_SIDE_DECORATION_BORDER: u32 = 1;

/// Which sides of the window touch a tiled neighbour or the screen's edge.
#[derive(Debug, Clone, Copy, PartialEq, Eq, Structural, Default)]
pub struct Tiling {
    pub top: bool,
    pub left: bool,
    pub right: bool,
    pub bottom: bool,
}

impl Tiling {
    /// Whether any side is tiled.
    pub fn is_tiled(&self) -> (r: bool)
        ensures
            r == (self.top || self.left || self.right || self.bottom),
    {
        self.top || self.left || self.right || self.bottom
    }
}

/// Who draws the window's frame.
#[derive(Debug, Clone, Copy, PartialEq, Eq, Structural)]
pub enum WindowDecorations {
    /// The window system draws it.
    Server,
    /// The application draws it, with the window tiled as given.
    Client(Tiling),
}

/// One flag per corner.
#[derive(Debug, Clone, Copy, PartialEq, Eq, Structural)]
pub struct Corners {
    pub top_left: bool,
    pub top_right: bool,
    pub bottom_right: bool,
    pub bottom_left: bool,
}

impl Corners {
    /// Every corner.
    pub fn all() -> (r: Corners)
        ensures
            r == (Corners { top_left: true, top_right: true, bottom_right: true, bottom_left: true }),
    {
        Corners { top_left: true, top_right: true, bottom_right: true, bottom_left: true }
    }

    /// No corner.
    pub fn none() -> (r: Corners)
        ensures
            r == (Corners { top_left: false, top_right: false, bottom_right: false, bottom_left: false }),
    {
        Corners { top_left: false, top_right: false, bottom_right: false, bottom_left: false }
    }
}

/// One flag per side.
#[derive(Debug, Clone, Copy, PartialEq, Eq, Structural)]
pub struct Sides {
    pub top: bool,
    pub left: bool,
    pub right: bool,
    pub bottom: bool,
}

/// The edge or corner by which a window is resized.
#[derive(Debug, Clone, Copy, PartialEq, Eq, Structural)]
pub enum ResizeEdge {
    Top,
    TopRight,
    Right,
    BottomRight,
    Bottom,
    BottomLeft,
    Left,
    TopLeft,
}

/// The pointer shapes that resizing shows.
#[derive(Debug, Clone, Copy, PartialEq, Eq, Structural)]
pub enum ResizeCursor {
    UpDown,
    LeftRight,
    UpLeftDownRight,
    UpRightDownLeft,
}

/// Where the pointer lies relative to the window, as measured against the
/// shadow width: the inner area (inset by one and a half shadows), the four
/// square corner regions of that size, and the four bands of one shadow
/// along the sides.
#[derive(Debug, Clone, Copy, PartialEq, Eq, Structural)]
pub struct PointerZone {
    pub inner: bool,
    pub top_left: bool,
    pub top_right: bool,
    pub bottom_left: bool,
    pub bottom_right: bool,
    pub above_top: bool,
    pub below_bottom: bool,
    pub left_of_left: bool,
    pub right_of_right: bool,
}

/// The pointer shape for resizing by `edge`.
pub open spec fn resize_cursor_spec(edge: ResizeEdge) -> ResizeCursor {
    match edge {
        ResizeEdge::Top | ResizeEdge::Bottom => ResizeCursor::UpDown,
        ResizeEdge::Left | ResizeEdge::Right => ResizeCursor::LeftRight,
        ResizeEdge::TopLeft | ResizeEdge::BottomRight => ResizeCursor::UpLeftDownRight,
        ResizeEdge::TopRight | ResizeEdge::BottomLeft => ResizeCursor::UpRightDownLeft,
    }
}

/// The pointer shape for resizing by `edge`: vertical edges move up and down,
/// side edges left and right, and each corner along its diagonal.
pub fn resize_cursor(edge: ResizeEdge) -> (r: ResizeCursor)
    ensures
        r == resize_cursor_spec(edge),
{
    match edge {
        ResizeEdge::Top | ResizeEdge::Bottom => ResizeCursor::UpDown,
        ResizeEdge::Left | ResizeEdge::Right => ResizeCursor::LeftRight,
        ResizeEdge::TopLeft | ResizeEdge::BottomRight => ResizeCursor::UpLeftDownRight,
        ResizeEdge::TopRight | ResizeEdge::BottomLeft => ResizeCursor::UpRightDownLeft,
    }
}

/// A corner is rounded when it is asked for and neither of its two sides is tiled.
pub open spec fn rounded_corners_spec(corners: Corners, tiling: Tiling) -> Corners {
    Corners {
        top_left: corners.top_left && !tiling.top && !tiling.left,
        top_right: corners.top_right && !tiling.top && !tiling.right,
        bottom_right: corners.bottom_right && !tiling.bottom && !tiling.right,
        bottom_left: corners.bottom_left && !tiling.bottom && !tiling.left,
    }
}

/// The corners that are rounded, of those asked for, on a window tiled as given.
pub fn rounded_corners(corners: Corners, tiling: Tiling) -> (r: Corners)
    ensures
        r == rounded_corners_spec(corners, tiling),
{
    Corners {
        top_left: corners.top_left && !tiling.top && !tiling.left,
        top_right: corners.top_right && !tiling.top && !tiling.right,
        bottom_right: corners.bottom_right && !tiling.bottom && !tiling.right,
        bottom_left: corners.bottom_left && !tiling.bottom && !tiling.left,
    }
}

/// The corners that an element painting over the window's corners rounds:
/// none under a frame that the window system draws, else those of
/// [`rounded_corners`].
pub fn rounded_client_corners(corners: Corners, decorations: WindowDecorations) -> (r: Corners)
    ensures
        r == match decorations {
            WindowDecorations::Server => (Corners { top_left: false, top_right: false, bottom_right: false, bottom_left: false }),
            WindowDecorations::Client(tiling) => rounded_corners_spec(corners, tiling),
        },
{
    match decorations {
        WindowDecorations::Server => Corners::none(),
        WindowDecorations::Client(tiling) => rounded_corners(corners, tiling),
    }
}

/// The sides that get the shadow's padding and the border: those not tiled.
pub fn decorated_sides(tiling: Tiling) -> (r: Sides)
    ensures
        r == (Sides { top: !tiling.top, left: !tiling.left, right: !tiling.right, bottom: !tiling.bottom }),
{
    Sides { top: !tiling.top, left: !tiling.left, right: !tiling.right, bottom: !tiling.bottom }
}

/// A client-decorated window casts its shadow only when no side is tiled.
pub fn shows_shadow(tiling: Tiling) -> (r: bool)
    ensures
        r == !(tiling.top || tiling.left || tiling.right || tiling.bottom),
{
    !tiling.is_tiled()
}

/// The inset that the window keeps around its content for the shadow, in
/// pixels: the shadow's width when the application draws the frame, else none.
pub fn client_inset(decorations: WindowDecorations) -> (r: u32)
    ensures
        r == match decorations {
            WindowDecorations::Server => 0,
            WindowDecorations::Client(_) => CLIENT_SIDE_DECORATION_SHADOW,
        },
{
    match decorations {
        WindowDecorations::Server => 0,
        WindowDecorations::Client(_) => CLIENT_SIDE_DECORATION_SHADOW,
    }
}

/// The edge that a pointer in `zone` resizes: none inside the inner area;
/// else the first corner region it lies in whose top or bottom side is not
/// tiled, in the order top left, top right, bottom left, bottom right; else
/// the first untiled band it lies in, in the order top, bottom, left, right.
pub open spec fn resize_edge_spec(zone: PointerZone, tiling: Tiling) -> Option<ResizeEdge> {
    if zone.inner {
        None
    } else if !tiling.top && zone.top_left {
        Some(ResizeEdge::TopLeft)
    } else if !tiling.top && zone.top_right {
        Some(ResizeEdge::TopRight)
    } else if !tiling.bottom && zone.bottom_left {
        Some(ResizeEdge::BottomLeft)
    } else if !tiling.bottom && zone.bottom_right {
        Some(ResizeEdge::BottomRight)
    } else if !tiling.top && zone.above_top {
        Some(ResizeEdge::Top)
    } else if !tiling.bottom && zone.below_bottom {
        Some(ResizeEdge::Bottom)
    } else if !tiling.left && zone.left_of_left {
        Some(ResizeEdge::Left)
    } else if !tiling.right && zone.right_of_right {
        Some(ResizeEdge::Right)
    } else {
        None
    }
}

/// Whether resizing by `edge` moves only sides that are not tiled, counting
/// a corner by its top or bottom side.
pub open spec fn moves_untiled_side(edge: ResizeEdge, tiling: Tiling) -> bool {
    match edge {
        ResizeEdge::Top | ResizeEdge::TopLeft | ResizeEdge::TopRight => !tiling.top,
        ResizeEdge::Bottom | ResizeEdge::BottomLeft | ResizeEdge::BottomRight => !tiling.bottom,
        ResizeEdge::Left => !tiling.left,
        ResizeEdge::Right => !tiling.right,
    }
}

/// The edge that a pointer in `zone` resizes, if any. No edge is offered
/// along a tiled side, and a window tiled on every side offers none.
pub fn resize_edge(zone: PointerZone, tiling: Tiling) -> (r: Option<ResizeEdge>)
    ensures
        r == resize_edge_spec(zone, tiling),
        r matches Some(e) ==> moves_untiled_side(e, tiling),
        zone.inner ==> r is None,
        tiling.top && tiling.left && tiling.right && tiling.bottom ==> r is None,
{
    if zone.inner {
        return None;
    }
    if !tiling.top && zone.top_left {
        return Some(ResizeEdge::TopLeft);
    }
    if !tiling.top && zone.top_right {
        return Some(ResizeEdge::TopRight);
    }
    if !tiling.bottom && zone.bottom_left {
        return Some(ResizeEdge::BottomLeft);
    }
    if !tiling.bottom && zone.bottom_right {
        return Some(ResizeEdge::BottomRight);
    }
    if !tiling.top && zone.above_top {
        Some(ResizeEdge::Top)
    } else if !tiling.bottom && zone.below_bottom {
        Some(ResizeEdge::Bottom)
    } else if !tiling.left && zone.left_of_left {
        Some(ResizeEdge::Left)
    } else if !tiling.right && zone.right_of_right {
        Some(ResizeEdge::Right)
    } else {
        None
    }
}

} // verus!
