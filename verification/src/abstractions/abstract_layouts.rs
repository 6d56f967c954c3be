//! Layout anchors and edge alignments.
use vstd::prelude::*;

use crate::abstractions::abstract_widgets::VxWidgetId;

verus! {

/// What a layout axis is measured against.
#[derive(Clone, Copy, Debug, PartialEq, Eq, Hash, Structural)]
pub enum VxSpatialLayoutAnchor {
    Window,
    ParentWidget,
    Widget(VxWidgetId),
}

impl Default for VxSpatialLayoutAnchor {
    fn default() -> (r: Self)
        ensures
            r == VxSpatialLayoutAnchor::Window,
    {
        VxSpatialLayoutAnchor::Window
    }
}

/// An edge of an axis.
#[derive(Clone, Copy, Debug, PartialEq, Eq, Hash, Structural)]
pub enum VxSpatialLayoutEdgeAlignment {
    /// Left on the x axis, top on the y axis.
    Start,
    Center,
    /// Right on the x axis, bottom on the y axis.
    End,
}

impl Default for VxSpatialLayoutEdgeAlignment {
    fn default() -> (r: Self)
        ensures
            r == VxSpatialLayoutEdgeAlignment::Center,
    {
        VxSpatialLayoutEdgeAlignment::Center
    }
}

} // verus!
