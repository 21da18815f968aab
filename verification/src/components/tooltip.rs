//! Tooltips: where the bubble sits, and when it opens and closes.
use crate::clock::{elapsed_millis, now};
use std::time::Instant;
use vstd::prelude::*;

verus! {

/// How long the pointer rests before a tooltip opens, in milliseconds.
pub const SHOW_DELAY_MS: u64 = 500;

/// How soon after another tooltip closed the next one opens at once, in
/// milliseconds.
pub const SKIP_DELAY_MS: u64 = 300;

/// The side of the element a tooltip appears on.
#[derive(Debug, Clone, Copy, PartialEq, Eq, Structural)]
pub enum Side {
    Top,
    Right,
    Bottom,
    Left,
}

impl Default for Side {
    fn default() -> (r: Self)
        ensures
            r == Side::Top,
    {
        Side::Top
    }
}

/// The point of the bubble that is pinned to the element's edge.
#[derive(Debug, Clone, Copy, PartialEq, Eq, Structural)]
pub enum Anchor {
    BottomCenter,
    LeftCenter,
    TopCenter,
    RightCenter,
}

impl Side {
    /// The bubble hangs from the middle of its side of the element.
    pub fn anchor(self) -> (r: Anchor)
        ensures
            r == match self {
                Side::Top => Anchor::BottomCenter,
                Side::Right => Anchor::LeftCenter,
                Side::Bottom => Anchor::TopCenter,
                Side::Left => Anchor::RightCenter,
            },
    {
        match self {
            Side::Top => Anchor::BottomCenter,
            Side::Right => Anchor::LeftCenter,
            Side::Bottom => Anchor::TopCenter,
            Side::Left => Anchor::RightCenter,
        }
    }

    /// The unit step away from the element, `(x, y)` with y growing downwards.
    pub fn direction(self) -> (r: (i8, i8))
        ensures
            r == match self {
                Side::Top => (0i8, -1i8),
                Side::Right => (1i8, 0i8),
                Side::Bottom => (0i8, 1i8),
                Side::Left => (-1i8, 0i8),
            },
    {
        match self {
            Side::Top => (0, -1),
            Side::Right => (1, 0),
            Side::Bottom => (0, 1),
            Side::Left => (-1, 0),
        }
    }
}

/// What a tooltip's pending timer does when it fires.
#[derive(Debug, Clone, Copy, PartialEq, Eq, Structural)]
pub enum Transition {
    /// Open the tooltip after the show delay.
    Opening,
    /// Take the bubble away once its closing animation has settled.
    Unmounting,
}

/// The state of one tooltip: open, still shown while it animates, when it
/// last closed, and what its pending timer will do.
pub struct TooltipState {
    pub open: bool,
    pub mounted: bool,
    pub closed_at: Option<Instant>,
    pub transition: Option<Transition>,
}

/// Whether a tooltip is warm, so that the next one may open at once: when
/// it is open, or when it closed `elapsed_ms` milliseconds ago with that
/// less than [`SKIP_DELAY_MS`]; not when it never closed.
pub fn is_warm_at(open: bool, elapsed_ms: Option<u128>) -> (r: bool)
    ensures
        r == (open || (elapsed_ms matches Some(e) && e < SKIP_DELAY_MS as u128)),
{
    open || match elapsed_ms {
        Some(e) => e < SKIP_DELAY_MS as u128,
        None => false,
    }
}

impl TooltipState {
    pub fn new() -> (r: Self)
        ensures
            !r.open,
            !r.mounted,
            r.closed_at is None,
            r.transition is None,
    {
        TooltipState { open: false, mounted: false, closed_at: None, transition: None }
    }

    /// Whether this tooltip is warm: open, or closed less than
    /// [`SKIP_DELAY_MS`] ago. The milliseconds since it closed are read from
    /// the clock, and [`is_warm_at`] decides.
    pub fn is_warm(&self) -> (r: bool)
        ensures
            self.open ==> r,
            !self.open && self.closed_at is None ==> !r,
    {
        let elapsed = match self.closed_at {
            Some(at) => Some(elapsed_millis(at)),
            None => None,
        };
        is_warm_at(self.open, elapsed)
    }

    /// Whether the last tooltip opened is warm, so that this one may open at
    /// once: false when there is none; this one's own state when it was
    /// this one (`last` is then `None` and `last_is_self` true).
    pub fn is_group_warm(&self, last: Option<&TooltipState>, last_is_self: bool) -> (r: bool)
        ensures
            !last_is_self && last is None ==> !r,
            last_is_self && self.open ==> r,
            !last_is_self && (last matches Some(l) && l.open) ==> r,
    {
        if last_is_self {
            self.is_warm()
        } else {
            match last {
                Some(l) => l.is_warm(),
                None => false,
            }
        }
    }

    /// Open now: any pending timer is dropped, and this becomes the last
    /// tooltip opened.
    pub fn open(&mut self)
        ensures
            final(self).open,
            final(self).mounted,
            final(self).closed_at == old(self).closed_at,
            final(self).transition is None,
    {
        self.transition = None;
        self.open = true;
        self.mounted = true;
    }

    /// The pointer arrived: open at once without delay, while still shown,
    /// or while the group is warm; else after the delay.
    pub fn show(&mut self, delay_ms: u64, group_warm: bool)
        ensures
            (delay_ms == 0 || old(self).mounted || group_warm) ==> (final(self).open
                && final(self).mounted && final(self).transition is None
                && final(self).closed_at == old(self).closed_at),
            !(delay_ms == 0 || old(self).mounted || group_warm) ==> *final(self) == (TooltipState {
                transition: Some(Transition::Opening),
                ..*old(self)
            }),
    {
        if delay_ms == 0 || self.mounted || group_warm {
            self.open();
            return ;
        }
        self.transition = Some(Transition::Opening);
    }

    /// The pointer left: a pending opening is dropped; a shown tooltip
    /// closes now, notes when, and is taken away after its animation.
    pub fn dismiss(&mut self)
        ensures
            !old(self).mounted ==> *final(self) == (TooltipState { transition: None, ..*old(self) }),
            old(self).mounted ==> (!final(self).open && final(self).mounted
                && final(self).closed_at is Some && final(self).transition == Some(
                Transition::Unmounting,
            )),
    {
        self.transition = None;
        if !self.mounted {
            return ;
        }
        self.open = false;
        self.closed_at = Some(now());
        self.transition = Some(Transition::Unmounting);
    }

    /// The pointer entered (`hovered`) or left the element.
    pub fn set_hovered(&mut self, hovered: bool, delay_ms: u64, group_warm: bool)
        ensures
            hovered && (delay_ms == 0 || old(self).mounted || group_warm) ==> (final(self).open
                && final(self).mounted && final(self).transition is None),
            hovered && !(delay_ms == 0 || old(self).mounted || group_warm) ==> *final(self) == (
            TooltipState { transition: Some(Transition::Opening), ..*old(self) }),
            !hovered && !old(self).mounted ==> *final(self) == (TooltipState {
                transition: None,
                ..*old(self)
            }),
            !hovered && old(self).mounted ==> (!final(self).open && final(self).transition == Some(
                Transition::Unmounting,
            )),
    {
        if hovered {
            self.show(delay_ms, group_warm);
        } else {
            self.dismiss();
        }
    }

    /// The pending timer fired.
    pub fn on_timer(&mut self, fired: Transition)
        ensures
            fired == Transition::Opening ==> final(self).open && final(self).mounted
                && final(self).transition is None,
            fired == Transition::Unmounting ==> *final(self) == (TooltipState {
                mounted: false,
                ..*old(self)
            }),
    {
        match fired {
            Transition::Opening => self.open(),
            Transition::Unmounting => {
                self.mounted = false;
            },
        }
    }
}

/// A tooltip: its text, the side it shows on, and how long the pointer
/// must rest before it opens.
pub struct Tooltip {
    pub text: String,
    pub side: Side,
    pub delay_ms: u64,
}

impl Tooltip {
    /// Above the element, after the usual delay.
    pub fn new(text: String) -> (r: Self)
        ensures
            r.text == text,
            r.side == Side::Top,
            r.delay_ms == SHOW_DELAY_MS,
    {
        Tooltip { text, side: Side::Top, delay_ms: SHOW_DELAY_MS }
    }

    pub fn side(self, side: Side) -> (r: Self)
        ensures
            r.text == self.text,
            r.side == side,
            r.delay_ms == self.delay_ms,
    {
        Tooltip { side, ..self }
    }

    pub fn delay(self, delay_ms: u64) -> (r: Self)
        ensures
            r.text == self.text,
            r.side == self.side,
            r.delay_ms == delay_ms,
    {
        Tooltip { delay_ms, ..self }
    }
}

} // verus!
