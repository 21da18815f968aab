//! Dialogs over the window: which one has the dimmed overlay, where focus
//! goes when they open and close, and how Tab stays inside the topmost.
use vstd::prelude::*;

verus! {

/// The last index whose dialog wants an overlay.
pub open spec fn last_overlay(has_overlay: Seq<bool>) -> Option<int>
    decreases has_overlay.len(),
{
    if has_overlay.len() == 0 {
        None
    } else if has_overlay.last() {
        Some(has_overlay.len() - 1)
    } else {
        last_overlay(has_overlay.drop_last())
    }
}

/// The dialog that shows the overlay: the topmost of those that want one.
pub fn overlay_index(has_overlay: &Vec<bool>) -> (r: Option<usize>)
    ensures
        match r {
            Some(i) => last_overlay(has_overlay@) == Some(i as int) && i < has_overlay.len(),
            None => last_overlay(has_overlay@) is None,
        },
{
    let mut i = has_overlay.len();
    assert(has_overlay@.take(i as int) =~= has_overlay@);
    while i > 0
        invariant
            i <= has_overlay.len(),
            last_overlay(has_overlay@) == last_overlay(has_overlay@.take(i as int)),
        decreases i,
    {
        if has_overlay[i - 1] {
            return Some(i - 1);
        }
        assert(has_overlay@.take(i as int).drop_last() =~= has_overlay@.take(i - 1));
        i -= 1;
    }
    None
}

/// Where focus goes.
#[derive(Debug, Clone, Copy, PartialEq, Eq, Structural)]
pub enum FocusTarget {
    /// To the focus handle with this id.
    Handle(u64),
    /// Nowhere new.
    Keep,
}

/// The open dialogs by the ids of their focus handles, topmost last, and
/// the focus from before the first opened.
pub struct DialogStack {
    dialogs: Vec<u64>,
    previous_focus: Option<u64>,
}

impl View for DialogStack {
    type V = (Seq<u64>, Option<u64>);

    closed spec fn view(&self) -> (Seq<u64>, Option<u64>) {
        (self.dialogs@, self.previous_focus)
    }
}

/// The stack after opening the dialog `id` while `focused` has the focus.
pub open spec fn opened(v: (Seq<u64>, Option<u64>), id: u64, focused: Option<u64>) -> (Seq<u64>, Option<u64>) {
    (v.0.push(id), if v.0.len() == 0 {
        focused
    } else {
        v.1
    })
}

/// The stack after closing the topmost dialog.
pub open spec fn closed(v: (Seq<u64>, Option<u64>)) -> (Seq<u64>, Option<u64>) {
    (if v.0.len() == 0 {
        v.0
    } else {
        v.0.drop_last()
    }, v.1)
}

/// Where the focus goes when the topmost dialog of `v` closes.
pub open spec fn focus_after_close(v: (Seq<u64>, Option<u64>)) -> FocusTarget {
    let after = closed(v);
    if after.0.len() > 0 {
        FocusTarget::Handle(after.0.last())
    } else {
        match v.1 {
            Some(h) => FocusTarget::Handle(h),
            None => FocusTarget::Keep,
        }
    }
}

/// Closing the dialog just opened restores the stack, except that the first
/// dialog remembers the focus it took, and gives the focus back to the
/// dialog below or, with none, to what had it before.
pub proof fn law_close_after_open(v: (Seq<u64>, Option<u64>), id: u64, focused: Option<u64>)
    ensures
        closed(opened(v, id, focused)).0 == v.0,
        focus_after_close(opened(v, id, focused)) == if v.0.len() > 0 {
            FocusTarget::Handle(v.0.last())
        } else {
            match focused {
                Some(h) => FocusTarget::Handle(h),
                None => FocusTarget::Keep,
            }
        },
{
    assert(v.0.push(id).drop_last() =~= v.0);
}

impl DialogStack {
    pub fn new() -> (r: Self)
        ensures
            r@ == (Seq::<u64>::empty(), None::<u64>),
    {
        DialogStack { dialogs: Vec::new(), previous_focus: None }
    }

    /// The topmost dialog, which traps the focus.
    pub fn trap(&self) -> (r: Option<u64>)
        ensures
            r == if self@.0.len() == 0 {
                None::<u64>
            } else {
                Some(self@.0.last())
            },
    {
        if self.dialogs.len() == 0 {
            None
        } else {
            Some(self.dialogs[self.dialogs.len() - 1])
        }
    }

    /// Open a dialog with focus handle `id`; the first one remembers what had
    /// the focus (`focused`). The new dialog takes the focus.
    pub fn open_dialog(&mut self, id: u64, focused: Option<u64>) -> (r: FocusTarget)
        ensures
            final(self)@ == opened(old(self)@, id, focused),
            r == FocusTarget::Handle(id),
    {
        if self.dialogs.len() == 0 {
            self.previous_focus = focused;
        }
        self.dialogs.push(id);
        FocusTarget::Handle(id)
    }

    /// Close the topmost dialog; the one below takes the focus, or, when none
    /// is left, what had it before the first dialog opened.
    pub fn close_dialog(&mut self) -> (r: FocusTarget)
        ensures
            final(self)@ == closed(old(self)@),
            r == focus_after_close(old(self)@),
    {
        self.dialogs.pop();
        if self.dialogs.len() > 0 {
            FocusTarget::Handle(self.dialogs[self.dialogs.len() - 1])
        } else {
            match self.previous_focus {
                Some(h) => FocusTarget::Handle(h),
                None => FocusTarget::Keep,
            }
        }
    }
}

/// What Tab does after moving the focus by the window's tab order.
#[derive(Debug, Clone, Copy, PartialEq, Eq, Structural)]
pub enum TabFollowUp {
    /// The focus may stay where it went.
    Done,
    /// Going backwards left the dialog: focus its last element instead.
    FocusLastChild,
    /// Going forwards left the dialog: focus the dialog, then its first element.
    FocusTrapThenNext,
}

/// With no dialog open, Tab moves freely; inside a dialog, the focus that
/// leaves it is brought back to its other end.
pub fn after_tab(trapped: bool, backward: bool, focus_inside_trap: bool) -> (r: TabFollowUp)
    ensures
        r == if !trapped || focus_inside_trap {
            TabFollowUp::Done
        } else if backward {
            TabFollowUp::FocusLastChild
        } else {
            TabFollowUp::FocusTrapThenNext
        },
{
    if !trapped || focus_inside_trap {
        TabFollowUp::Done
    } else if backward {
        TabFollowUp::FocusLastChild
    } else {
        TabFollowUp::FocusTrapThenNext
    }
}

/// The search for a dialog's last focusable element: from the dialog,
/// Tab is pressed until the focus leaves it or comes round again.
pub struct FocusScan {
    pub first: Option<u64>,
    pub last: Option<u64>,
}

impl FocusScan {
    pub fn new() -> (r: Self)
        ensures
            r.first is None,
            r.last is None,
    {
        FocusScan { first: None, last: None }
    }

    /// The focus moved to `focused`, inside the dialog or not. Returns
    /// whether to press Tab again; the search ends when the focus left the
    /// dialog or reached an element seen first or last.
    pub fn step(&mut self, inside: bool, focused: Option<u64>) -> (more: bool)
        ensures
            more == (inside && focused != old(self).last && focused != old(self).first),
            more ==> final(self).last == focused && final(self).first == if old(
                self,
            ).first is None {
                focused
            } else {
                old(self).first
            },
            !more ==> *final(self) == *old(self),
    {
        if !inside {
            return false;
        }
        if focused == self.last || focused == self.first {
            return false;
        }
        if self.first.is_none() {
            self.first = focused;
        }
        self.last = focused;
        true
    }

    /// Where the focus ends: the last element found, if any.
    pub fn result(&self) -> (r: FocusTarget)
        ensures
            r == match self.last {
                Some(h) => FocusTarget::Handle(h),
                None => FocusTarget::Keep,
            },
    {
        match self.last {
            Some(h) => FocusTarget::Handle(h),
            None => FocusTarget::Keep,
        }
    }
}

} // verus!
