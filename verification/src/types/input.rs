//! Button, key and modifier states.
use vstd::prelude::*;

verus! {

/// State of a mouse button in a frame.
#[derive(Clone, Copy, PartialEq, Eq, Debug, Hash, Structural)]
pub struct VxMouseButtonState {
    pressed: bool,
    released: bool,
    down: bool,
}

impl View for VxMouseButtonState {
    type V = (bool, bool, bool);

    closed spec fn view(&self) -> (bool, bool, bool) {
        (self.pressed, self.released, self.down)
    }
}

impl VxMouseButtonState {
    /// `(pressed this frame, released this frame, held down)`.
    pub fn new(pressed: bool, released: bool, down: bool) -> (r: Self)
        ensures
            r@ == (pressed, released, down),
    {
        Self { pressed, released, down }
    }

    /// Pressed this frame.
    pub fn is_pressed(&self) -> (r: bool)
        ensures
            r == self@.0,
    {
        self.pressed
    }

    /// Released this frame.
    pub fn is_released(&self) -> (r: bool)
        ensures
            r == self@.1,
    {
        self.released
    }

    /// Held down, including the frame it was pressed.
    pub fn is_down(&self) -> (r: bool)
        ensures
            r == self@.2,
    {
        self.down
    }
}

/// State of a key in a frame.
#[derive(Clone, Copy, PartialEq, Eq, Debug, Hash, Structural)]
pub struct VxKeyState {
    pressed: bool,
    released: bool,
    down: bool,
    super_key: bool,
}

impl View for VxKeyState {
    type V = (bool, bool, bool, bool);

    closed spec fn view(&self) -> (bool, bool, bool, bool) {
        (self.pressed, self.released, self.down, self.super_key)
    }
}

impl VxKeyState {
    /// `(pressed this frame, released this frame, held down, super key)`.
    pub fn new(pressed: bool, released: bool, down: bool, super_key: bool) -> (r: Self)
        ensures
            r@ == (pressed, released, down, super_key),
    {
        Self { pressed, released, down, super_key }
    }

    /// Pressed this frame.
    pub fn is_pressed(&self) -> (r: bool)
        ensures
            r == self@.0,
    {
        self.pressed
    }

    /// Released this frame.
    pub fn is_released(&self) -> (r: bool)
        ensures
            r == self@.1,
    {
        self.released
    }

    /// Held down.
    pub fn is_down(&self) -> (r: bool)
        ensures
            r == self@.2,
    {
        self.down
    }

    /// The Windows key, or Command on macOS.
    pub fn is_super_key(&self) -> (r: bool)
        ensures
            r == self@.3,
    {
        self.super_key
    }
}

/// Modifier keys held.
#[derive(Clone, Copy, PartialEq, Eq, Debug, Hash, Structural)]
pub struct VxKeyModifierState {
    ctrl: bool,
    shift: bool,
    alt: bool,
}

impl View for VxKeyModifierState {
    type V = (bool, bool, bool);

    closed spec fn view(&self) -> (bool, bool, bool) {
        (self.ctrl, self.shift, self.alt)
    }
}

impl VxKeyModifierState {
    /// `(ctrl, shift, alt)`.
    pub fn new(ctrl: bool, shift: bool, alt: bool) -> (r: Self)
        ensures
            r@ == (ctrl, shift, alt),
    {
        Self { ctrl, shift, alt }
    }

    /// Ctrl held.
    pub fn is_ctrl(&self) -> (r: bool)
        ensures
            r == self@.0,
    {
        self.ctrl
    }

    /// Shift held.
    pub fn is_shift(&self) -> (r: bool)
        ensures
            r == self@.1,
    {
        self.shift
    }

    /// Alt held.
    pub fn is_alt(&self) -> (r: bool)
        ensures
            r == self@.2,
    {
        self.alt
    }
}

} // verus!
