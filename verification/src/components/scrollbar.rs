//! Which axes a scroll container scrolls on, what its thumbs are doing as
//! the pointer moves, and when its bars were last active.
use std::time::Instant;
use vstd::prelude::*;

verus! {

/// An axis of a scroll container.
#[derive(Debug, Clone, Copy, PartialEq, Eq, Structural)]
pub enum ScrollbarAxis {
    Horizontal,
    Vertical,
}

/// The axes a container scrolls on.
#[derive(Debug, Clone, Copy, PartialEq, Eq, Structural)]
pub enum ScrollAxes {
    Horizontal,
    Vertical,
    Both,
}

impl ScrollAxes {
    pub open spec fn contains_spec(self, axis: ScrollbarAxis) -> bool {
        match self {
            ScrollAxes::Both => true,
            ScrollAxes::Horizontal => axis == ScrollbarAxis::Horizontal,
            ScrollAxes::Vertical => axis == ScrollbarAxis::Vertical,
        }
    }

    /// Whether the container scrolls on `axis`.
    pub fn contains(self, axis: ScrollbarAxis) -> (r: bool)
        ensures
            r == self.contains_spec(axis),
    {
        match (self, axis) {
            (ScrollAxes::Both, _) => true,
            (ScrollAxes::Horizontal, ScrollbarAxis::Horizontal) => true,
            (ScrollAxes::Vertical, ScrollbarAxis::Vertical) => true,
            _ => false,
        }
    }
}

/// Scrolling on both axes covers each axis, and a single axis only itself.
pub proof fn law_axes_cover(axes: ScrollAxes, axis: ScrollbarAxis)
    ensures
        ScrollAxes::Both.contains_spec(axis),
        axes.contains_spec(axis) ==> (axes == ScrollAxes::Both || (axis == ScrollbarAxis::Horizontal
            <==> axes == ScrollAxes::Horizontal)),
{
}

/// The axes, horizontal first, on which a container with `axes` shows a bar:
/// those it scrolls on where there is room to scroll (`horizontal_open`,
/// `vertical_open`: both the scroll range and the viewport are non-empty
/// along that axis).
pub fn scrollable_axes(axes: ScrollAxes, horizontal_open: bool, vertical_open: bool) -> (r: Vec<ScrollbarAxis>)
    ensures
        r@ == (if axes.contains_spec(ScrollbarAxis::Horizontal) && horizontal_open {
            seq![ScrollbarAxis::Horizontal]
        } else {
            Seq::empty()
        }) + (if axes.contains_spec(ScrollbarAxis::Vertical) && vertical_open {
            seq![ScrollbarAxis::Vertical]
        } else {
            Seq::empty()
        }),
{
    let mut r: Vec<ScrollbarAxis> = Vec::new();
    if axes.contains(ScrollbarAxis::Horizontal) && horizontal_open {
        r.push(ScrollbarAxis::Horizontal);
    }
    if axes.contains(ScrollbarAxis::Vertical) && vertical_open {
        r.push(ScrollbarAxis::Vertical);
    }
    r
}

/// What a scrollbar's thumb is doing. A drag keeps the axis and where on the
/// thumb it was grabbed, a length `G` that the caller measures.
#[derive(Debug, Clone, Copy, PartialEq)]
pub enum ThumbState<G> {
    Inactive,
    Hover(ScrollbarAxis),
    Dragging(ScrollbarAxis, G),
}

impl<G> ThumbState<G> {
    /// Whether the thumb is being dragged.
    pub fn is_dragging(&self) -> (r: bool)
        ensures
            r == (*self is Dragging),
    {
        match self {
            ThumbState::Dragging(..) => true,
            _ => false,
        }
    }

    /// Whether the thumb is hovered or dragged.
    pub fn is_active(&self) -> (r: bool)
        ensures
            r == !(*self is Inactive),
    {
        match self {
            ThumbState::Inactive => false,
            _ => true,
        }
    }
}

/// The thumb state that the thumb under the pointer calls for: hovered on
/// that axis, or inactive when there is none.
pub open spec fn hover_thumb<G>(under: Option<ScrollbarAxis>) -> ThumbState<G> {
    match under {
        Some(axis) => ThumbState::Hover(axis),
        None => ThumbState::Inactive,
    }
}

/// Where a pointer move goes.
#[derive(Debug, Clone, Copy, PartialEq)]
pub enum MoveRoute<G> {
    /// Drag the thumb on this axis, grabbed at this length.
    Drag(ScrollbarAxis, G),
    /// Track which thumb is hovered.
    Hover,
    /// Nothing: a button is held that did not start a drag.
    Ignore,
}

/// What a step of the pointer asks of the scrollbar besides its new state.
#[derive(Debug, Clone, Copy, PartialEq, Eq, Structural)]
pub struct PointerEffects {
    /// Restart the fade-out of the bars.
    pub mark_activity: bool,
    /// Draw the scrollbar again.
    pub notify: bool,
}

/// The pointer state of a scrollbar: its thumb, and whether the container
/// was under the pointer at the last move.
#[derive(Debug, Clone, Copy, PartialEq)]
pub struct ThumbTracker<G> {
    pub thumb: ThumbState<G>,
    pub was_hovered: bool,
}

/// The state and effects after a hover move (see [`ThumbTracker::hover_move`]).
pub open spec fn hover_step<G>(t: ThumbTracker<G>, hovered: bool, under: Option<ScrollbarAxis>) -> (ThumbTracker<G>, PointerEffects) {
    let thumb = if hovered {
        hover_thumb::<G>(under)
    } else {
        ThumbState::Inactive
    };
    let notify = hovered != t.was_hovered || thumb != t.thumb;
    (ThumbTracker { thumb, was_hovered: hovered }, PointerEffects { mark_activity: hovered || notify, notify })
}

impl<G: Copy> ThumbTracker<G> {
    /// Nothing hovered, nothing dragged.
    pub fn new() -> (r: Self)
        ensures
            r.thumb is Inactive,
            !r.was_hovered,
    {
        ThumbTracker { thumb: ThumbState::Inactive, was_hovered: false }
    }

    /// Where a pointer move goes: a drag continues while the thumb is
    /// dragged and the move drags; with no button held the hover is tracked;
    /// else the move is ignored.
    pub fn route_move(&self, dragging: bool, button_pressed: bool) -> (r: MoveRoute<G>)
        ensures
            r == match self.thumb {
                ThumbState::Dragging(axis, grab) if dragging => MoveRoute::Drag(axis, grab),
                _ => if !button_pressed {
                    MoveRoute::Hover
                } else {
                    MoveRoute::Ignore
                },
            },
    {
        match self.thumb {
            ThumbState::Dragging(axis, grab) if dragging => MoveRoute::Drag(axis, grab),
            _ => if !button_pressed {
                MoveRoute::Hover
            } else {
                MoveRoute::Ignore
            },
        }
    }

    /// Set the thumb to what the thumb under the pointer calls for; returns
    /// whether it changed, which restarts the fade and redraws.
    pub fn update_hover(&mut self, under: Option<ScrollbarAxis>) -> (changed: bool)
        ensures
            final(self).thumb == hover_thumb::<G>(under),
            final(self).was_hovered == old(self).was_hovered,
            changed == (old(self).thumb != hover_thumb::<G>(under)),
    {
        let changed = match (self.thumb, under) {
            (ThumbState::Inactive, None) => false,
            (ThumbState::Hover(a), Some(b)) => a != b,
            _ => true,
        };
        self.thumb = match under {
            Some(axis) => ThumbState::Hover(axis),
            None => ThumbState::Inactive,
        };
        changed
    }

    /// A move of the pointer with no button held: `hovered` tells whether the
    /// container is under the pointer, `under` which thumb is. Entering or
    /// leaving the container, or moving inside it, restarts the fade;
    /// entering or leaving, or a change of thumb, redraws.
    pub fn hover_move(&mut self, hovered: bool, under: Option<ScrollbarAxis>) -> (r: PointerEffects)
        ensures
            (*final(self), r) == hover_step(*old(self), hovered, under),
    {
        let crossed = hovered != self.was_hovered;
        self.was_hovered = hovered;
        let changed = if hovered {
            self.update_hover(under)
        } else {
            self.update_hover(None)
        };
        PointerEffects { mark_activity: hovered || crossed || changed, notify: crossed || changed }
    }

    /// A press on a bar's track or thumb on `axis`, grabbed at `grab`:
    /// the thumb is dragged from now on.
    pub fn press(&mut self, axis: ScrollbarAxis, grab: G) -> (r: PointerEffects)
        ensures
            final(self).thumb == ThumbState::Dragging(axis, grab),
            final(self).was_hovered == old(self).was_hovered,
            r == (PointerEffects { mark_activity: true, notify: true }),
    {
        self.thumb = ThumbState::Dragging(axis, grab);
        PointerEffects { mark_activity: true, notify: true }
    }

    /// A release of the button: the thumb follows what is under the pointer.
    pub fn release(&mut self, under: Option<ScrollbarAxis>) -> (r: PointerEffects)
        ensures
            final(self).thumb == hover_thumb::<G>(under),
            final(self).was_hovered == old(self).was_hovered,
            r.notify == (old(self).thumb != hover_thumb::<G>(under)),
            r.mark_activity == r.notify,
    {
        let changed = self.update_hover(under);
        PointerEffects { mark_activity: changed, notify: changed }
    }

    /// Whether the bars stay fully shown whatever the time: while the
    /// container is hovered or a thumb is active.
    pub fn fully_shown(&self, container_hovered: bool) -> (r: bool)
        ensures
            r == (container_hovered || !(self.thumb is Inactive)),
    {
        container_hovered || self.thumb.is_active()
    }
}

/// A second identical hover move leaves the state as the first left it and
/// asks for no redraw; it restarts the fade only while the container is
/// hovered.
pub proof fn law_hover_move_settles<G>(start: ThumbTracker<G>, hovered: bool, under: Option<ScrollbarAxis>)
    ensures
        hover_step(hover_step(start, hovered, under).0, hovered, under) == (
            hover_step(start, hovered, under).0,
            PointerEffects { mark_activity: hovered, notify: false },
        ),
{
}

/// When something last happened to a scrollbar, to fade it after.
#[derive(Clone, Copy)]
pub struct FadeTimer(Option<Instant>);

impl FadeTimer {
    /// The moment last marked.
    pub closed spec fn marked_at(self) -> Option<Instant> {
        self.0
    }

    /// A timer never marked.
    pub fn new() -> (r: Self)
        ensures
            r.marked_at() is None,
    {
        FadeTimer(None)
    }

    /// Mark the present moment.
    pub fn mark(&mut self)
        ensures
            final(self).marked_at() is Some,
    {
        self.0 = Some(crate::clock::now());
    }

    /// The moment last marked, if any.
    pub fn since(&self) -> (r: Option<Instant>)
        ensures
            r == self.marked_at(),
    {
        self.0
    }
}

impl Default for FadeTimer {
    fn default() -> (r: Self)
        ensures
            r.marked_at() is None,
    {
        Self::new()
    }
}

} // verus!
