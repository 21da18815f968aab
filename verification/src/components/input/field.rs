//! The text field as a component: what it is built with, and how that
//! reaches its editing state each time it is drawn.
use crate::components::input::state::{option_text, InputState, InputView};
use vstd::prelude::*;

verus! {

/// A text field as built: its value and placeholder when given, masking,
/// a length limit, and its place in the tab order.
pub struct Input {
    pub disabled: bool,
    pub value: Option<String>,
    pub placeholder: Option<String>,
    pub masked: bool,
    pub mask: Option<String>,
    pub max_length: Option<usize>,
    pub tab_index: isize,
    pub tab_stop: bool,
}

/// A text field with nothing set: enabled, unmasked, unlimited, a tab stop
/// at index 0.
pub fn input() -> (r: Input)
    ensures
        !r.disabled,
        r.value is None,
        r.placeholder is None,
        !r.masked,
        r.mask is None,
        r.max_length is None,
        r.tab_index == 0,
        r.tab_stop,
{
    Input {
        disabled: false,
        value: None,
        placeholder: None,
        masked: false,
        mask: None,
        max_length: None,
        tab_index: 0,
        tab_stop: true,
    }
}

impl Input {
    /// Set the text that the field holds.
    pub fn value(self, value: String) -> (r: Self)
        ensures
            r == (Input { value: Some(value), ..self }),
    {
        Input { value: Some(value), ..self }
    }

    /// Set the text shown while the field is empty.
    pub fn placeholder(self, placeholder: String) -> (r: Self)
        ensures
            r == (Input { placeholder: Some(placeholder), ..self }),
    {
        Input { placeholder: Some(placeholder), ..self }
    }

    /// Show the text masked, or in the clear.
    pub fn masked(self, masked: bool) -> (r: Self)
        ensures
            r == (Input { masked, ..self }),
    {
        Input { masked, ..self }
    }

    /// Set the text that stands for each masked character.
    pub fn mask(self, mask: String) -> (r: Self)
        ensures
            r == (Input { mask: Some(mask), ..self }),
    {
        Input { mask: Some(mask), ..self }
    }

    /// Limit the length of the text, in graphemes.
    pub fn max_length(self, max_length: usize) -> (r: Self)
        ensures
            r == (Input { max_length: Some(max_length), ..self }),
    {
        Input { max_length: Some(max_length), ..self }
    }

    /// Include the field in the tab order, or leave it out.
    pub fn tab_stop(self, tab_stop: bool) -> (r: Self)
        ensures
            r == (Input { tab_stop, ..self }),
    {
        Input { tab_stop, ..self }
    }

    /// Set the field's place in the tab order.
    pub fn tab_index(self, tab_index: isize) -> (r: Self)
        ensures
            r == (Input { tab_index, ..self }),
    {
        Input { tab_index, ..self }
    }

    /// The state after a draw hands it what the field was built with.
    pub open spec fn synced(self, v: InputView) -> InputView {
        v.with_value(option_text(self.value)).with_placeholder(option_text(self.placeholder))
            .with_masked(self.masked).with_mask(option_text(self.mask)).with_max_length(
            self.max_length,
        )
    }

    /// Hand the field's settings to its editing state, as each draw does:
    /// value, placeholder, masking, mask and length limit, in that order.
    pub fn sync_state(self, state: &mut InputState)
        requires
            old(state).wf(),
            old(state)@.value_fits(option_text(self.value)),
        ensures
            final(state).wf(),
            final(state)@ == self.synced(old(state)@),
    {
        state.set_value(self.value);
        state.set_placeholder(self.placeholder);
        state.set_masked(self.masked);
        state.set_mask(self.mask);
        state.set_max_length(self.max_length);
    }

    /// The state after a draw that hands it the field's settings with the
    /// value set as `set_value_clamped` sets it.
    pub open spec fn synced_clamped(self, v: InputView) -> InputView {
        v.with_value_clamped(option_text(self.value)).with_placeholder(option_text(self.placeholder))
            .with_masked(self.masked).with_mask(option_text(self.mask)).with_max_length(
            self.max_length,
        )
    }

    /// `sync_state` for any state: a selection or composed range that the
    /// field's value cuts through is clamped as `set_value_clamped` does.
    pub fn sync_state_clamped(self, state: &mut InputState)
        requires
            old(state).wf(),
        ensures
            final(state).wf(),
            final(state)@ == self.synced_clamped(old(state)@),
    {
        state.set_value_clamped(self.value);
        state.set_placeholder(self.placeholder);
        state.set_masked(self.masked);
        state.set_mask(self.mask);
        state.set_max_length(self.max_length);
    }
}

} // verus!
