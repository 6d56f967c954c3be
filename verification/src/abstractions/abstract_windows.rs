//! Window layer and the redraw decisions of a window.
use vstd::prelude::*;

use std::collections::HashMap;

use crate::types::render_commands::{VxDirtyCheckResult, VxRenderMode};

verus! {

/// Stacking of a window among the other windows.
#[derive(Clone, Copy, Debug, PartialEq, Eq, Hash, Structural)]
pub enum VxWindowLayer {
    AlwaysOnTopLayer,
    AlwaysOnBottomLayer,
    NormalLayer,
}

/// What a window does after its scene's dirty check.
#[derive(Clone, Copy, Debug, PartialEq, Eq, Structural)]
pub struct VxRedrawDecision {
    /// Whether to request a redraw.
    pub redraw: bool,
    /// The update mode for the next frame, when it changes.
    pub next_update_mode: Option<VxDirtyCheckResult>,
    /// The window's dirty flag afterwards.
    pub is_dirty: bool,
}

/// A window redraws when the scene asks for anything or the window itself is
/// dirty; a dirty window redraws everything. The dirty flag is cleared when
/// a redraw is requested.
pub fn decide_redraw(scene_result: VxDirtyCheckResult, is_dirty: bool) -> (d: VxRedrawDecision)
    ensures
        d.redraw == (scene_result != VxDirtyCheckResult::Clean || is_dirty),
        d.redraw ==> d.next_update_mode == Some(
            if is_dirty {
                VxDirtyCheckResult::All
            } else {
                scene_result
            },
        ),
        !d.redraw ==> d.next_update_mode is None,
        d.is_dirty == (is_dirty && !d.redraw),
{
    if scene_result != VxDirtyCheckResult::Clean || is_dirty {
        let mode = if is_dirty {
            VxDirtyCheckResult::All
        } else {
            scene_result
        };
        VxRedrawDecision { redraw: true, next_update_mode: Some(mode), is_dirty: false }
    } else {
        VxRedrawDecision { redraw: false, next_update_mode: None, is_dirty }
    }
}

/// What a frame paints for an update mode: `(paint the retained scene too,
/// buffer set to fill)`; `None` when there is nothing to update. A full
/// update puts everything into the retained buffers.
pub fn update_plan(mode: VxDirtyCheckResult) -> (r: Option<(bool, VxRenderMode)>)
    ensures
        mode == VxDirtyCheckResult::All ==> r == Some((true, VxRenderMode::Retained)),
        mode == VxDirtyCheckResult::OnlyImmediate ==> r == Some((false, VxRenderMode::Immediate)),
        mode == VxDirtyCheckResult::Clean ==> r is None,
{
    match mode {
        VxDirtyCheckResult::All => Some((true, VxRenderMode::Retained)),
        VxDirtyCheckResult::OnlyImmediate => Some((false, VxRenderMode::Immediate)),
        VxDirtyCheckResult::Clean => None,
    }
}

/// One frame of a window: what it paints for its pending update mode
/// (as `update_plan`), and the pending mode afterwards. After a frame that
/// painted, nothing is pending; a clean window stays clean.
pub fn update_step(mode: VxDirtyCheckResult) -> (r: (Option<(bool, VxRenderMode)>, VxDirtyCheckResult))
    ensures
        mode == VxDirtyCheckResult::All ==> r.0 == Some((true, VxRenderMode::Retained)),
        mode == VxDirtyCheckResult::OnlyImmediate ==> r.0 == Some((false, VxRenderMode::Immediate)),
        mode == VxDirtyCheckResult::Clean ==> r.0 is None,
        r.1 == VxDirtyCheckResult::Clean,
{
    (update_plan(mode), VxDirtyCheckResult::Clean)
}

/// A window asked to close: it leaves the application's windows, and the
/// application exits when no window is left. Windows are keyed by their
/// window id as a number.
pub fn close_window<W>(windows: &mut HashMap<u64, W>, window_id: u64) -> (exit: bool)
    ensures
        final(windows)@ == old(windows)@.remove(window_id),
        exit == (final(windows)@.len() == 0),
{
    broadcast use vstd::std_specs::hash::group_hash_axioms;

    windows.remove(&window_id);
    windows.len() == 0
}

} // verus!
