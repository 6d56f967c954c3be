//! Aspect-ratio modes for scaling.
use vstd::prelude::*;

verus! {

/// How a size is scaled into a target size.
#[derive(Clone, Copy, Debug, PartialEq, Eq, Structural)]
pub enum VxAspectMode {
    IgnoreAspectRatio,
    KeepAspectRatio,
    KeepAspectRatioByExpanding,
}

} // verus!
