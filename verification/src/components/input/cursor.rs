//! The blinking caret.
use vstd::prelude::*;

verus! {

/// How long the caret stays shown or hidden while it blinks, in milliseconds.
pub const INTERVAL_MS: u64 = 500;

/// How long the caret stays shown after typing before it blinks again, in
/// milliseconds.
pub const PAUSE_DELAY_MS: u64 = 500;

/// Whether the caret is shown, and whether it is blinking.
pub struct Cursor {
    visible: bool,
    blinking: bool,
}

impl Cursor {
    pub closed spec fn is_visible(&self) -> bool {
        self.visible
    }

    pub closed spec fn is_blinking(&self) -> bool {
        self.blinking
    }

    /// A shown caret, not blinking yet.
    pub fn new() -> (r: Self)
        ensures
            r.is_visible(),
            !r.is_blinking(),
    {
        Cursor { visible: true, blinking: false }
    }

    pub fn visible(&self) -> (r: bool)
        ensures
            r == self.is_visible(),
    {
        self.visible
    }

    /// Show the caret and blink it; the first change comes after the
    /// returned number of milliseconds.
    pub fn start(&mut self) -> (delay_ms: u64)
        ensures
            final(self).is_visible(),
            final(self).is_blinking(),
            delay_ms == INTERVAL_MS,
    {
        self.visible = true;
        self.blinking = true;
        INTERVAL_MS
    }

    /// Hide the caret and stop blinking.
    pub fn stop(&mut self)
        ensures
            !final(self).is_visible(),
            !final(self).is_blinking(),
    {
        self.blinking = false;
        self.visible = false;
    }

    /// Keep a blinking caret shown for a while: the next change comes after
    /// the returned delay. A caret that is not blinking stays as it is.
    pub fn pause(&mut self) -> (delay_ms: Option<u64>)
        ensures
            old(self).is_blinking() ==> final(self).is_visible() && final(self).is_blinking()
                && delay_ms == Some(PAUSE_DELAY_MS),
            !old(self).is_blinking() ==> final(self).is_visible() == old(self).is_visible()
                && !final(self).is_blinking() && delay_ms is None,
    {
        if self.blinking {
            self.visible = true;
            Some(PAUSE_DELAY_MS)
        } else {
            None
        }
    }

    /// The blink timer fired: a blinking caret turns, and the next change
    /// comes after the returned delay.
    pub fn on_blink(&mut self) -> (delay_ms: Option<u64>)
        ensures
            old(self).is_blinking() ==> final(self).is_visible() == !old(self).is_visible()
                && final(self).is_blinking() && delay_ms == Some(INTERVAL_MS),
            !old(self).is_blinking() ==> final(self).is_visible() == old(self).is_visible()
                && !final(self).is_blinking() && delay_ms is None,
    {
        if self.blinking {
            self.visible = !self.visible;
            Some(INTERVAL_MS)
        } else {
            None
        }
    }
}

} // verus!
