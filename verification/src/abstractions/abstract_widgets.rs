//! Widget identity, dirty flags, and where dirty marks go.
use vstd::prelude::*;

use crate::types::gen_vector::VxGenIndex;

verus! {

/// Identity of a widget in a scene.
#[derive(Hash, Copy, Clone, PartialEq, Eq, Debug, Structural)]
pub struct VxWidgetId {
    id: VxGenIndex,
}

impl VxWidgetId {
    /// The handle of the widget in the scene's storage.
    pub closed spec fn handle(self) -> VxGenIndex {
        self.id
    }

    /// Two widget ids are equal exactly when their handles are.
    pub proof fn lemma_eq(a: Self, b: Self)
        ensures
            (a == b) <==> (a.handle() == b.handle()),
    {
    }

    /// The id of the widget stored under `id`.
    pub fn new(id: VxGenIndex) -> (r: Self)
        ensures
            r.handle() == id,
    {
        Self { id }
    }

    /// The handle of the widget in the scene's storage.
    pub fn id(&self) -> (r: VxGenIndex)
        ensures
            r == self.handle(),
    {
        self.id
    }
}

/// What must be redone for a widget: bit 0 repaint, bit 1 layout.
#[derive(Clone, Copy, Eq, PartialEq, Hash, Debug, Structural)]
pub struct VxDirtyFlag {
    bits: u32,
}

impl View for VxDirtyFlag {
    type V = u32;

    closed spec fn view(&self) -> u32 {
        self.bits
    }
}

impl Default for VxDirtyFlag {
    fn default() -> (r: Self)
        ensures
            r@ == 0,
    {
        Self::clean()
    }
}

impl VxDirtyFlag {
    /// Nothing to redo.
    pub fn clean() -> (r: Self)
        ensures
            r@ == 0,
    {
        Self { bits: 0 }
    }

    /// Repaint.
    pub fn repaint() -> (r: Self)
        ensures
            r@ == 1,
    {
        Self { bits: 1 }
    }

    /// Lay out again.
    pub fn layout() -> (r: Self)
        ensures
            r@ == 2,
    {
        Self { bits: 2 }
    }

    /// Lay out and repaint.
    pub fn rebuild_all() -> (r: Self)
        ensures
            r@ == 3,
    {
        Self { bits: 3 }
    }

    /// The bits.
    pub fn bits(&self) -> (r: u32)
        ensures
            r == self@,
    {
        self.bits
    }

    /// The flag with exactly these bits.
    pub fn from_bits_retain(bits: u32) -> (r: Self)
        ensures
            r@ == bits,
    {
        Self { bits }
    }

    /// Both flags' bits.
    pub fn union(self, other: Self) -> (r: Self)
        ensures
            r@ == self@ | other@,
    {
        Self { bits: self.bits | other.bits }
    }

    /// Adds `other`'s bits.
    pub fn insert(&mut self, other: Self)
        ensures
            final(self)@ == old(self)@ | other@,
    {
        self.bits = self.bits | other.bits;
    }

    /// Whether every bit of `other` is set.
    pub fn contains(&self, other: Self) -> (r: bool)
        ensures
            r == (self@ & other@ == other@),
    {
        (self.bits & other.bits) == other.bits
    }

    /// Whether no bit is set.
    pub fn is_empty(&self) -> (r: bool)
        ensures
            r == (self@ == 0),
    {
        self.bits == 0
    }
}

/// How a widget takes part in spatial indexing.
#[derive(Clone, Copy, PartialEq, Eq, Hash, Debug, Structural)]
pub enum VxSpatialHierarchyFlag {
    Flat,
    HierarchyParent,
    HierarchyChild,
}

impl Default for VxSpatialHierarchyFlag {
    fn default() -> (r: Self)
        ensures
            r == VxSpatialHierarchyFlag::Flat,
    {
        VxSpatialHierarchyFlag::Flat
    }
}

/// A dirty flag that is passed on to the children: layout or rebuild-all.
pub open spec fn propagates_to_children(dirty: VxDirtyFlag) -> bool {
    dirty@ == 2 || dirty@ == 3
}

/// The widgets that a dirty mark reaches: none while marks are blocked or the
/// widget has no id or no sender; else the widget itself, followed by its
/// children when the flag is a layout or rebuild-all.
pub fn dirty_targets(
    block_dirty: bool,
    id: Option<VxWidgetId>,
    has_sender: bool,
    children: &Vec<VxWidgetId>,
    dirty: VxDirtyFlag,
) -> (r: Vec<VxWidgetId>)
    ensures
        (block_dirty || !has_sender || id is None) ==> r@ == Seq::<VxWidgetId>::empty(),
        !(block_dirty || !has_sender || id is None) ==> r@ == (if propagates_to_children(dirty) {
            seq![id->0] + children@
        } else {
            seq![id->0]
        }),
{
    let mut r: Vec<VxWidgetId> = Vec::new();
    if block_dirty || !has_sender {
        return r;
    }
    match id {
        None => r,
        Some(me) => {
            r.push(me);
            if dirty.bits() == 2 || dirty.bits() == 3 {
                let mut i: usize = 0;
                while i < children.len()
                    invariant
                        i <= children@.len(),
                        r@ == seq![me] + children@.take(i as int),
                    decreases children@.len() - i,
                {
                    r.push(children[i]);
                    i = i + 1;
                    assert(r@ =~= seq![me] + children@.take(i as int));
                }
                assert(children@.take(children@.len() as int) =~= children@);
            }
            r
        },
    }
}

} // verus!
