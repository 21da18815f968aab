//! Dialogs: their texts and switches, and what their buttons and keys do.
use crate::components::button::Button;
use crate::foundation::{Size, Variant, WithSize, WithVariant};
use vstd::prelude::*;
use vstd::string::StringExecFns;

verus! {

/// A dialog: title, button texts, error, overlay, and whether it is
/// switched off or busy; `layer_ix` is its place among the open dialogs.
pub struct Dialog {
    pub title: Option<String>,
    pub cancel_text: String,
    pub ok_text: String,
    pub error: Option<String>,
    pub overlay: bool,
    pub overlay_closable: bool,
    pub disabled: bool,
    pub loading: bool,
    pub layer_ix: usize,
    pub overlay_visible: bool,
}

/// What a press of a dialog's button or key does.
#[derive(Debug, Clone, Copy, PartialEq, Eq, Structural)]
pub enum DialogAction {
    /// Nothing: the dialog is busy, or switched off.
    Ignore,
    /// Run the cancel handler and close the dialog.
    CancelAndClose,
    /// Run the confirm handler.
    Confirm,
}

/// Where the focus goes when a dialog is drawn.
#[derive(Debug, Clone, Copy, PartialEq, Eq, Structural)]
pub enum DialogFocus {
    /// Focus the dialog itself.
    Dialog,
    /// Focus the dialog, then its first element.
    DialogThenFirst,
    /// Leave it where it is, inside the dialog.
    Stay,
}

impl Dialog {
    /// A dialog with "Cancel" and "Ok", an overlay that closes it, at the
    /// bottom layer.
    pub fn new() -> (r: Self)
        ensures
            r.title is None,
            r.cancel_text@ == "Cancel"@,
            r.ok_text@ == "Ok"@,
            r.error is None,
            r.overlay,
            r.overlay_closable,
            !r.disabled,
            !r.loading,
            r.layer_ix == 0,
            !r.overlay_visible,
    {
        Dialog {
            title: None,
            cancel_text: String::from_str("Cancel"),
            ok_text: String::from_str("Ok"),
            error: None,
            overlay: true,
            overlay_closable: true,
            disabled: false,
            loading: false,
            layer_ix: 0,
            overlay_visible: false,
        }
    }

    /// Set the title shown above the content.
    pub fn title(self, title: String) -> (r: Self)
        ensures
            r == (Dialog { title: Some(title), ..self }),
    {
        Dialog { title: Some(title), ..self }
    }

    /// Whether a click on the overlay cancels the dialog.
    pub fn overlay_closable(self, overlay_closable: bool) -> (r: Self)
        ensures
            r == (Dialog { overlay_closable: overlay_closable, ..self }),
    {
        Dialog { overlay_closable, ..self }
    }

    /// Set the text of the cancel button.
    pub fn cancel_text(self, text: String) -> (r: Self)
        ensures
            r == (Dialog { cancel_text: text, ..self }),
    {
        Dialog { cancel_text: text, ..self }
    }

    /// Set the text of the confirm button.
    pub fn ok_text(self, text: String) -> (r: Self)
        ensures
            r == (Dialog { ok_text: text, ..self }),
    {
        Dialog { ok_text: text, ..self }
    }

    /// Show an error message above the buttons.
    pub fn error(self, error: String) -> (r: Self)
        ensures
            r == (Dialog { error: Some(error), ..self }),
    {
        Dialog { error: Some(error), ..self }
    }

    /// Switch the confirm button off.
    pub fn disabled(self) -> (r: Self)
        ensures
            r == (Dialog { disabled: true, ..self }),
    {
        Dialog { disabled: true, ..self }
    }

    /// Mark the dialog busy: its buttons spin or stop reacting.
    pub fn loading(self) -> (r: Self)
        ensures
            r == (Dialog { loading: true, ..self }),
    {
        Dialog { loading: true, ..self }
    }

    pub fn has_overlay(&self) -> (r: bool)
        ensures
            r == self.overlay,
    {
        self.overlay
    }

    /// Cancel (its button, Escape, or a click on the overlay) does nothing
    /// while the dialog is busy, and otherwise closes it.
    pub fn on_cancel(&self) -> (r: DialogAction)
        ensures
            r == if self.loading {
                DialogAction::Ignore
            } else {
                DialogAction::CancelAndClose
            },
    {
        if self.loading {
            DialogAction::Ignore
        } else {
            DialogAction::CancelAndClose
        }
    }

    /// Confirm (its button, or Enter) does nothing while the dialog is
    /// switched off or busy.
    pub fn on_confirm(&self) -> (r: DialogAction)
        ensures
            r == if self.disabled || self.loading {
                DialogAction::Ignore
            } else {
                DialogAction::Confirm
            },
    {
        if self.disabled || self.loading {
            DialogAction::Ignore
        } else {
            DialogAction::Confirm
        }
    }

    /// A click on the overlay cancels only the topmost of `open` dialogs,
    /// and only when its overlay closes it.
    pub fn overlay_click_cancels(&self, open: usize) -> (r: bool)
        ensures
            r == (self.overlay_closable && self.layer_ix + 1 == open),
    {
        self.overlay_closable && self.layer_ix < usize::MAX && self.layer_ix + 1 == open
    }

    /// Where the focus goes when the dialog is drawn: a busy dialog holds
    /// it; otherwise, when it is outside the dialog, into the dialog's first
    /// element.
    pub fn focus_on_render(&self, focus_inside: bool) -> (r: DialogFocus)
        ensures
            r == if self.loading {
                DialogFocus::Dialog
            } else if !focus_inside {
                DialogFocus::DialogThenFirst
            } else {
                DialogFocus::Stay
            },
    {
        if self.loading {
            DialogFocus::Dialog
        } else if !focus_inside {
            DialogFocus::DialogThenFirst
        } else {
            DialogFocus::Stay
        }
    }

    /// The confirm button is switched off with the dialog and spins while it
    /// is busy; the cancel button is switched off while it is busy.
    pub fn button_states(&self) -> (r: (bool, bool, bool))
        ensures
            r == (self.disabled, self.loading, self.loading),
    {
        (self.disabled, self.loading, self.loading)
    }

    /// The confirm button: large, accent, switched off with the dialog and
    /// spinning while it is busy.
    pub fn ok_button(&self) -> (r: Button)
        ensures
            r == (Button {
                variant: Variant::Accent,
                size: Size::Large,
                has_icon: false,
                loading: self.loading,
                disabled: self.disabled,
            }),
    {
        let mut b = Button::new().size(Size::Large).variant(Variant::Accent);
        if self.disabled {
            b = b.disabled();
        }
        if self.loading {
            b = b.loading();
        }
        b
    }

    /// The cancel button: large, ghost, switched off while the dialog is busy.
    pub fn cancel_button(&self) -> (r: Button)
        ensures
            r == (Button {
                variant: Variant::Ghosted,
                size: Size::Large,
                has_icon: false,
                loading: false,
                disabled: self.loading,
            }),
    {
        let mut b = Button::new().size(Size::Large).variant(Variant::Ghosted);
        if self.loading {
            b = b.disabled();
        }
        b
    }
}

} // verus!
