//! Buttons and results of message boxes.
use vstd::prelude::*;

verus! {

/// The buttons a message box offers.
#[derive(Debug, Clone, PartialEq, Eq)]
pub enum VxMessageBoxButton {
    /// A single OK button.
    Okay,
    OkCancel,
    YesNo,
    YesNoCancel,
    OkCustomText { text: String },
    OkCancelCustomText { ok_text: String, cancel_text: String },
    YesNoCancelCustomText { yes_text: String, no_text: String, cancel_text: String },
}

impl Default for VxMessageBoxButton {
    fn default() -> (r: Self)
        ensures
            r is Okay,
    {
        VxMessageBoxButton::Okay
    }
}

/// The button a message box was closed with.
#[derive(Debug, Clone, PartialEq, Eq)]
pub enum VxMessageBoxResult {
    /// Closed with OK.
    Okay,
    Cancel,
    Yes,
    No,
    CustomResult { text: String },
}

impl Default for VxMessageBoxResult {
    fn default() -> (r: Self)
        ensures
            r is Cancel,
    {
        VxMessageBoxResult::Cancel
    }
}

} // verus!
