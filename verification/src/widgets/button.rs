//! The state machine of a push button.
use vstd::prelude::*;

use crate::vx_core::vx_event::VxEventResult;

verus! {

/// Whether the button is held down and whether the pointer is over it.
pub struct VxButtonState {
    is_pressed: bool,
    is_hovered: bool,
}

impl View for VxButtonState {
    type V = (bool, bool);

    /// `(pressed, hovered)`.
    closed spec fn view(&self) -> (bool, bool) {
        (self.is_pressed, self.is_hovered)
    }
}

impl VxButtonState {
    /// Neither pressed nor hovered.
    pub fn new() -> (s: Self)
        ensures
            s@ == (false, false),
    {
        Self { is_pressed: false, is_hovered: false }
    }

    /// Held down.
    pub fn is_pressed(&self) -> (r: bool)
        ensures
            r == self@.0,
    {
        self.is_pressed
    }

    /// Pointer over the button.
    pub fn is_hovered(&self) -> (r: bool)
        ensures
            r == self@.1,
    {
        self.is_hovered
    }

    /// Sets the pressed state.
    pub fn set_pressed(&mut self, pressed: bool)
        ensures
            final(self)@ == (pressed, old(self)@.1),
    {
        self.is_pressed = pressed;
    }

    /// Sets the hovered state.
    pub fn set_hovered(&mut self, hovered: bool)
        ensures
            final(self)@ == (old(self)@.0, hovered),
    {
        self.is_hovered = hovered;
    }

    /// A press of some mouse button; `other_button` when the event names a
    /// button other than the left one. The left button (or an unnamed one)
    /// presses the button and the event is taken; another button is ignored.
    pub fn mouse_press(&mut self, other_button: bool) -> (r: VxEventResult)
        ensures
            other_button ==> r == VxEventResult::Ignore && final(self)@ == old(self)@,
            !other_button ==> r == VxEventResult::Accept && final(self)@ == pressed_state(old(self)@),
    {
        if other_button {
            return VxEventResult::Ignore;
        }
        self.set_pressed(true);
        VxEventResult::Accept
    }

    /// A release: the button clicks when it was both hovered and pressed;
    /// it is no longer pressed either way. Returns whether it clicked; the
    /// event is taken exactly then.
    pub fn mouse_release(&mut self) -> (clicked: bool)
        ensures
            clicked == clicks(old(self)@),
            final(self)@ == released_state(old(self)@),
    {
        let clicked = self.is_hovered() && self.is_pressed();
        self.set_pressed(false);
        clicked
    }

    /// The pointer enters: hovered.
    pub fn mouse_enter(&mut self) -> (r: VxEventResult)
        ensures
            r == VxEventResult::Accept,
            final(self)@ == entered_state(old(self)@),
    {
        self.set_hovered(true);
        VxEventResult::Accept
    }

    /// The pointer leaves: neither hovered nor pressed.
    pub fn mouse_leave(&mut self) -> (r: VxEventResult)
        ensures
            r == VxEventResult::Accept,
            final(self)@ == left_state(old(self)@),
    {
        self.set_hovered(false);
        self.set_pressed(false);
        VxEventResult::Accept
    }
}

/// `(pressed, hovered)` after a press of the left button.
pub open spec fn pressed_state(s: (bool, bool)) -> (bool, bool) {
    (true, s.1)
}

/// `(pressed, hovered)` after a release.
pub open spec fn released_state(s: (bool, bool)) -> (bool, bool) {
    (false, s.1)
}

/// `(pressed, hovered)` after the pointer enters.
pub open spec fn entered_state(s: (bool, bool)) -> (bool, bool) {
    (s.0, true)
}

/// `(pressed, hovered)` after the pointer leaves.
pub open spec fn left_state(s: (bool, bool)) -> (bool, bool) {
    (false, false)
}

/// A release in state `s` is a click.
pub open spec fn clicks(s: (bool, bool)) -> bool {
    s.0 && s.1
}

/// A button clicks when it is pressed and released with the pointer over it,
/// from any state; leaving before the release cancels the click, and so does
/// a release that comes first.
pub proof fn law_button_clicks(s: (bool, bool))
    ensures
        clicks(pressed_state(entered_state(s))),
        clicks(entered_state(pressed_state(s))),
        !clicks(entered_state(left_state(pressed_state(s)))),
        !clicks(released_state(s)),
        !clicks(released_state(pressed_state(entered_state(s)))),
{
}

} // verus!
