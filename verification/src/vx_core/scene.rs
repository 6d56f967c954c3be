//! Decisions of the scene: how widgets and their trees are registered, what
//! the dirty check asks for and which spatial indexes it refreshes, which
//! widget is hit, and where input events go.
use vstd::prelude::*;

use crate::abstractions::abstract_widgets::{VxDirtyFlag, VxSpatialHierarchyFlag, VxWidgetId};
use crate::types::gen_vector::{VxGenIndex, VxGenVector, gen_inserted, gen_live, gen_value};
use crate::types::slot_model::{VxSlotModel, free_list_valid, live_count, law_insert_then_get};
use crate::types::render_commands::{VxDirtyCheckResult, VxRenderMode};
use crate::vx_core::vx_event::VxEventResult;
use crate::vx_core::dirty_queue::{VxDirtyKey, VxDirtyQueue, key_of, no_marks};

verus! {

/// Which spatial index needs rebuilding.
#[derive(Clone, Copy, Debug, Hash, PartialEq, Eq, Structural)]
pub enum VxSpatialUpdateFlag {
    Flat,
    Hierarchical(VxWidgetId),
}

/// A pending dirty entry: the widget, its flag, and its update mode when the
/// widget still exists.
pub type VxDirtyEntry = (VxWidgetId, VxDirtyFlag, Option<VxRenderMode>);

/// The entry counts: its flag is not clean and its widget exists.
pub open spec fn entry_counts(e: VxDirtyEntry) -> bool {
    e.1@ != 0 && e.2 is Some
}

/// The entry asks for a new layout.
pub open spec fn entry_relayouts(e: VxDirtyEntry) -> bool {
    entry_counts(e) && (e.1@ == 2 || e.1@ == 3)
}

/// The entry asks for a redraw of everything.
pub open spec fn entry_redraws(e: VxDirtyEntry) -> bool {
    entry_counts(e) && (e.1@ == 1 || e.1@ == 2 || e.1@ == 3)
}

/// The entry belongs to an immediate-mode widget.
pub open spec fn entry_immediate(e: VxDirtyEntry) -> bool {
    entry_counts(e) && e.2 == Some(VxRenderMode::Immediate)
}

/// The outcome of the dirty check: everything when some entry asks for a
/// redraw; only the immediate layer when none does but an entry belongs to
/// an immediate widget or the scene has immediate widgets; else nothing.
pub open spec fn dirty_result(entries: Seq<VxDirtyEntry>, has_immediate_widgets: bool) -> VxDirtyCheckResult {
    if exists|i: int| 0 <= i < entries.len() && entry_redraws(#[trigger] entries[i]) {
        VxDirtyCheckResult::All
    } else if has_immediate_widgets || exists|i: int| 0 <= i < entries.len() && entry_immediate(#[trigger] entries[i]) {
        VxDirtyCheckResult::OnlyImmediate
    } else {
        VxDirtyCheckResult::Clean
    }
}

/// The widgets to lay out again, in queue order.
pub open spec fn relayout_ids(entries: Seq<VxDirtyEntry>) -> Seq<VxWidgetId>
    decreases entries.len(),
{
    if entries.len() == 0 {
        Seq::empty()
    } else {
        let rest = relayout_ids(entries.drop_last());
        if entry_relayouts(entries.last()) {
            rest.push(entries.last().0)
        } else {
            rest
        }
    }
}

/// The dirty check of a scene: which widgets to lay out again, and what the
/// window must redraw.
pub fn plan_dirty_check(entries: &Vec<VxDirtyEntry>, has_immediate_widgets: bool) -> (r: (
    VxDirtyCheckResult,
    Vec<VxWidgetId>,
))
    ensures
        r.0 == dirty_result(entries@, has_immediate_widgets),
        r.1@ == relayout_ids(entries@),
        forall|i: int|
            0 <= i < entries@.len() && (#[trigger] entries@[i]).2 is Some && 1 <= entries@[i].1@ <= 3 ==> r.0
                == VxDirtyCheckResult::All,
        forall|i: int|
            0 <= i < entries@.len() && (#[trigger] entries@[i]).2 is Some && (entries@[i].1@ == 2 || entries@[i].1@ == 3)
                ==> r.1@.contains(entries@[i].0),
        forall|id: VxWidgetId|
            #[trigger] r.1@.contains(id) ==> exists|i: int|
                0 <= i < entries@.len() && (#[trigger] entries@[i]).0 == id && entries@[i].2 is Some && (entries@[i].1@
                    == 2 || entries@[i].1@ == 3),
        (r.0 == VxDirtyCheckResult::Clean) <==> (!(exists|i: int|
            0 <= i < entries@.len() && (#[trigger] entries@[i]).2 is Some && entries@[i].1@ != 0 && entries@[i].1@ <= 3)
            && !has_immediate_widgets && !(exists|i: int|
            0 <= i < entries@.len() && (#[trigger] entries@[i]).1@ != 0 && entries@[i].2 == Some(VxRenderMode::Immediate))),
{
    let mut result = VxDirtyCheckResult::Clean;
    let mut has_immediate = false;
    let mut relayout: Vec<VxWidgetId> = Vec::new();
    let mut i: usize = 0;
    assert(entries@.take(0) =~= Seq::<VxDirtyEntry>::empty());
    while i < entries.len()
        invariant
            i <= entries@.len(),
            relayout@ == relayout_ids(entries@.take(i as int)),
            (result == VxDirtyCheckResult::All) == (exists|j: int| 0 <= j < i && entry_redraws(#[trigger] entries@[j])),
            result == VxDirtyCheckResult::All || result == VxDirtyCheckResult::Clean,
            has_immediate == (exists|j: int| 0 <= j < i && entry_immediate(#[trigger] entries@[j])),
        decreases entries@.len() - i,
    {
        let (id, flag, mode) = entries[i];
        proof {
            assert(entries@.take(i + 1).drop_last() =~= entries@.take(i as int));
        }
        if flag.bits() != 0 {
            match mode {
                Some(m) => {
                    if m == VxRenderMode::Immediate {
                        has_immediate = true;
                    }
                    let b = flag.bits();
                    if b == 2 || b == 3 {
                        relayout.push(id);
                        result = VxDirtyCheckResult::All;
                    } else if b == 1 {
                        result = VxDirtyCheckResult::All;
                    }
                },
                None => {},
            }
        }
        i = i + 1;
        proof {
            assert(relayout@ =~= relayout_ids(entries@.take(i as int)));
        }
    }
    proof {
        assert(entries@.take(entries@.len() as int) =~= entries@);
    }
    if result == VxDirtyCheckResult::Clean && (has_immediate || has_immediate_widgets) {
        result = VxDirtyCheckResult::OnlyImmediate;
    }
    proof {
        assert forall|k: int|
            0 <= k < entries@.len() && (#[trigger] entries@[k]).2 is Some && 1 <= entries@[k].1@ <= 3 implies result
                == VxDirtyCheckResult::All by {
            if entries@[k].1@ == 1 {
                law_repaint_mark_redraws(entries@, k, has_immediate_widgets);
            } else {
                law_layout_bits_relayout(entries@, k, has_immediate_widgets);
            }
        }
        assert forall|k: int|
            0 <= k < entries@.len() && (#[trigger] entries@[k]).2 is Some && (entries@[k].1@ == 2 || entries@[k].1@ == 3)
                implies relayout@.contains(entries@[k].0) by {
            law_layout_bits_relayout(entries@, k, has_immediate_widgets);
        }
        assert forall|id: VxWidgetId| #[trigger] relayout@.contains(id) implies exists|i: int|
            0 <= i < entries@.len() && (#[trigger] entries@[i]).0 == id && entries@[i].2 is Some && (entries@[i].1@ == 2
                || entries@[i].1@ == 3) by {
            law_relayout_from_marks(entries@, id);
        }
        law_dirty_result_from_marks(entries@, has_immediate_widgets);
    }
    (result, relayout)
}

/// The topmost widget among the hits `(z, id)`: the one with the greatest
/// depth, the last of them when several share it.
pub fn topmost_hit(hits: &Vec<(i32, VxWidgetId)>) -> (r: Option<VxWidgetId>)
    ensures
        hits@.len() == 0 ==> r is None,
        hits@.len() > 0 ==> exists|k: int|
            {
                &&& 0 <= k < hits@.len()
                &&& r == Some(hits@[k].1)
                &&& forall|j: int| 0 <= j < hits@.len() ==> (#[trigger] hits@[j]).0 <= hits@[k].0
                &&& forall|j: int| k < j < hits@.len() ==> (#[trigger] hits@[j]).0 < hits@[k].0
            },
{
    if hits.len() == 0 {
        return None;
    }
    let mut best: usize = 0;
    let mut i: usize = 1;
    while i < hits.len()
        invariant
            1 <= i <= hits@.len(),
            best < i,
            forall|j: int| 0 <= j < i ==> (#[trigger] hits@[j]).0 <= hits@[best as int].0,
            forall|j: int| best < j < i ==> (#[trigger] hits@[j]).0 < hits@[best as int].0,
        decreases hits@.len() - i,
    {
        if hits[i].0 >= hits[best].0 {
            best = i;
        }
        i = i + 1;
    }
    Some(hits[best].1)
}

/// The hover events of a mouse move from `old` to `new`: a leave for the
/// widget left and an enter for the widget entered, when they differ.
pub fn hover_change(old: Option<VxWidgetId>, new: Option<VxWidgetId>) -> (r: (Option<VxWidgetId>, Option<VxWidgetId>))
    ensures
        old == new ==> r == (None::<VxWidgetId>, None::<VxWidgetId>),
        old != new ==> r == (old, new),
{
    if old != new {
        (old, new)
    } else {
        (None, None)
    }
}

/// A widget marked for layout (and still in the scene) is laid out again,
/// and the frame redraws everything.
pub proof fn law_layout_mark_relayouts(entries: Seq<VxDirtyEntry>, i: int, has_immediate_widgets: bool)
    requires
        0 <= i < entries.len(),
        entry_relayouts(entries[i]),
    ensures
        relayout_ids(entries).contains(entries[i].0),
        dirty_result(entries, has_immediate_widgets) == VxDirtyCheckResult::All,
    decreases entries.len(),
{
    assert(entry_redraws(entries[i]));
    if i == entries.len() - 1 {
        assert(relayout_ids(entries).last() == entries[i].0);
    } else {
        law_layout_mark_relayouts(entries.drop_last(), i, has_immediate_widgets);
        let r = relayout_ids(entries.drop_last());
        let k = choose|k: int| 0 <= k < r.len() && r[k] == entries[i].0;
        if entry_relayouts(entries.last()) {
            assert(relayout_ids(entries)[k] == entries[i].0);
        } else {
            assert(relayout_ids(entries)[k] == entries[i].0);
        }
    }
}

/// A repaint mark alone (flag bits exactly `REPAINT`) on a widget still in
/// the scene makes the frame redraw everything.
pub proof fn law_repaint_mark_redraws(entries: Seq<VxDirtyEntry>, i: int, has_immediate_widgets: bool)
    requires
        0 <= i < entries.len(),
        entries[i].1@ == 1,
        entries[i].2 is Some,
    ensures
        dirty_result(entries, has_immediate_widgets) == VxDirtyCheckResult::All,
{
    assert(entry_redraws(entries[i]));
}

/// A widget still in the scene marked `LAYOUT` (bits 2) or `REBUILD_ALL`
/// (bits 3, repaint and layout) is laid out again, and the frame redraws
/// everything.
pub proof fn law_layout_bits_relayout(entries: Seq<VxDirtyEntry>, i: int, has_immediate_widgets: bool)
    requires
        0 <= i < entries.len(),
        entries[i].1@ == 2 || entries[i].1@ == 3,
        entries[i].2 is Some,
    ensures
        relayout_ids(entries).contains(entries[i].0),
        dirty_result(entries, has_immediate_widgets) == VxDirtyCheckResult::All,
{
    law_layout_mark_relayouts(entries, i, has_immediate_widgets);
}

/// A repaint mark alone does not lay a widget out again: a widget whose
/// only marks are repaints, or that is gone, is not in the relayout list.
pub proof fn law_repaint_only_no_relayout(entries: Seq<VxDirtyEntry>, id: VxWidgetId)
    requires
        forall|i: int|
            0 <= i < entries.len() && entries[i].0 == id ==> (#[trigger] entries[i]).1@ <= 1 || entries[i].2 is None,
    ensures
        !relayout_ids(entries).contains(id),
{
    if relayout_ids(entries).contains(id) {
        law_relayout_only_marked(entries, id);
    }
}

/// The outcome of the dirty check from the raw marks: everything is redrawn
/// exactly when a widget still in the scene carries `REPAINT`, `LAYOUT` or
/// both (bits 1 to 3); otherwise only the immediate layer is, exactly when
/// the scene has immediate widgets or a marked widget (any bits but none)
/// still in the scene is in immediate mode; otherwise nothing is.
pub proof fn law_dirty_result_from_marks(entries: Seq<VxDirtyEntry>, has_immediate_widgets: bool)
    ensures
        (dirty_result(entries, has_immediate_widgets) == VxDirtyCheckResult::All) <==> exists|i: int|
            0 <= i < entries.len() && (#[trigger] entries[i]).2 is Some && 1 <= entries[i].1@ <= 3,
        (dirty_result(entries, has_immediate_widgets) == VxDirtyCheckResult::OnlyImmediate) <==> (!(exists|i: int|
            0 <= i < entries.len() && (#[trigger] entries[i]).2 is Some && 1 <= entries[i].1@ <= 3) && (
        has_immediate_widgets || exists|i: int|
            0 <= i < entries.len() && (#[trigger] entries[i]).1@ != 0 && entries[i].2 == Some(VxRenderMode::Immediate))),
        (dirty_result(entries, has_immediate_widgets) == VxDirtyCheckResult::Clean) <==> (!(exists|i: int|
            0 <= i < entries.len() && (#[trigger] entries[i]).2 is Some && entries[i].1@ != 0 && entries[i].1@ <= 3)
            && !has_immediate_widgets && !(exists|i: int|
            0 <= i < entries.len() && (#[trigger] entries[i]).1@ != 0 && entries[i].2 == Some(VxRenderMode::Immediate))),
{
    assert((exists|i: int| 0 <= i < entries.len() && entry_redraws(#[trigger] entries[i])) <==> exists|i: int|
        0 <= i < entries.len() && (#[trigger] entries[i]).2 is Some && 1 <= entries[i].1@ <= 3);
    assert((exists|i: int| 0 <= i < entries.len() && entry_immediate(#[trigger] entries[i])) <==> exists|i: int|
        0 <= i < entries.len() && (#[trigger] entries[i]).1@ != 0 && entries[i].2 == Some(VxRenderMode::Immediate));
}

/// A widget is laid out again exactly when one of its entries, with the
/// widget still in the scene, carries `LAYOUT` (bits 2) or `REBUILD_ALL`
/// (bits 3).
pub proof fn law_relayout_from_marks(entries: Seq<VxDirtyEntry>, id: VxWidgetId)
    ensures
        relayout_ids(entries).contains(id) <==> exists|i: int|
            0 <= i < entries.len() && (#[trigger] entries[i]).0 == id && entries[i].2 is Some && (entries[i].1@ == 2
                || entries[i].1@ == 3),
{
    if relayout_ids(entries).contains(id) {
        law_relayout_only_marked(entries, id);
        let i = choose|i: int| 0 <= i < entries.len() && entries[i].0 == id && entry_relayouts(#[trigger] entries[i]);
        assert(entries[i].0 == id && entries[i].2 is Some && (entries[i].1@ == 2 || entries[i].1@ == 3));
    }
    if exists|i: int|
        0 <= i < entries.len() && (#[trigger] entries[i]).0 == id && entries[i].2 is Some && (entries[i].1@ == 2
            || entries[i].1@ == 3) {
        let i = choose|i: int|
            0 <= i < entries.len() && (#[trigger] entries[i]).0 == id && entries[i].2 is Some && (entries[i].1@ == 2
                || entries[i].1@ == 3);
        law_layout_bits_relayout(entries, i, false);
    }
}

/// Only widgets marked for layout are laid out again.
pub proof fn law_relayout_only_marked(entries: Seq<VxDirtyEntry>, id: VxWidgetId)
    requires
        relayout_ids(entries).contains(id),
    ensures
        exists|i: int| 0 <= i < entries.len() && entries[i].0 == id && entry_relayouts(#[trigger] entries[i]),
    decreases entries.len(),
{
    let p = entries.drop_last();
    let r = relayout_ids(p);
    if entry_relayouts(entries.last()) && entries.last().0 == id {
        assert(entry_relayouts(entries[entries.len() - 1]));
    } else {
        let k = choose|k: int| 0 <= k < relayout_ids(entries).len() && relayout_ids(entries)[k] == id;
        if entry_relayouts(entries.last()) {
            if k == r.len() {
                assert(relayout_ids(entries)[k] == entries.last().0);
            } else {
                assert(r[k] == id);
            }
        } else {
            assert(r[k] == id);
        }
        assert(r.contains(id));
        law_relayout_only_marked(p, id);
        let i = choose|i: int| 0 <= i < p.len() && p[i].0 == id && entry_relayouts(#[trigger] p[i]);
        assert(entries[i] == p[i]);
    }
}

/// What the scene keeps of a widget, besides the widget itself: its parent,
/// how it takes part in spatial indexing, its update mode, its children in
/// the order they were added, and the spatial index it was placed in.
pub struct VxWidgetNode {
    pub parent: Option<VxWidgetId>,
    pub flag: VxSpatialHierarchyFlag,
    pub mode: VxRenderMode,
    pub children: Vec<VxWidgetId>,
    pub spatial_parent: Option<VxWidgetId>,
}

/// The parent of widget `id` in the table `m`, when `id` is in the table and
/// has one.
pub open spec fn parent_in(m: Seq<VxSlotModel<VxWidgetNode>>, id: VxWidgetId) -> Option<VxWidgetId> {
    if gen_live(m, id.handle()) {
        gen_value(m, id.handle()).parent
    } else {
        None
    }
}

/// The spatial index that widget `cur` belongs to, walking up at most `fuel`
/// parents: the first ancestor flagged `HierarchyParent`; else the widget
/// where the walk stops, because it has no parent or its parent is gone.
/// `None` when the walk needs more than `fuel` steps.
pub open spec fn spatial_root(m: Seq<VxSlotModel<VxWidgetNode>>, cur: VxWidgetId, fuel: nat) -> Option<VxWidgetId>
    decreases fuel,
{
    if fuel == 0 {
        None
    } else {
        match parent_in(m, cur) {
            None => Some(cur),
            Some(p) => if !gen_live(m, p.handle()) {
                Some(cur)
            } else if gen_value(m, p.handle()).flag == VxSpatialHierarchyFlag::HierarchyParent {
                Some(p)
            } else {
                spatial_root(m, p, (fuel - 1) as nat)
            },
        }
    }
}

/// A walk that ends within some number of steps ends the same way with more.
pub proof fn lemma_spatial_root_fuel(m: Seq<VxSlotModel<VxWidgetNode>>, cur: VxWidgetId, f1: nat, f2: nat)
    requires
        f1 <= f2,
        spatial_root(m, cur, f1) is Some,
    ensures
        spatial_root(m, cur, f2) == spatial_root(m, cur, f1),
    decreases f1,
{
    if f1 > 0 {
        match parent_in(m, cur) {
            None => {},
            Some(p) => {
                if gen_live(m, p.handle()) && gen_value(m, p.handle()).flag != VxSpatialHierarchyFlag::HierarchyParent {
                    lemma_spatial_root_fuel(m, p, (f1 - 1) as nat, (f2 - 1) as nat);
                }
            },
        }
    }
}

/// The spatial index that a widget belongs to: its first ancestor flagged
/// `HierarchyParent`, or the widget where the walk up its parents stops.
/// A chain of parents that loops without such an ancestor never ends; those
/// tables are left out.
pub fn find_spatial_index(widgets: &VxGenVector<VxWidgetNode>, start: VxWidgetId) -> (r: VxWidgetId)
    requires
        exists|fuel: nat| #[trigger] spatial_root(widgets@, start, fuel) is Some,
    ensures
        forall|fuel: nat| #[trigger] spatial_root(widgets@, start, fuel) is Some ==> spatial_root(widgets@, start, fuel)
            == Some(r),
{
    let ghost fuel0: nat = choose|fuel: nat| #[trigger] spatial_root(widgets@, start, fuel) is Some;
    let ghost m = widgets@;
    let ghost target = spatial_root(m, start, fuel0);
    let mut current = start;
    let ghost mut k: nat = fuel0;
    loop
        invariant
            m == widgets@,
            spatial_root(m, current, k) is Some,
            spatial_root(m, current, k) == target,
            target == spatial_root(m, start, fuel0),
            target is Some,
        decreases k,
    {
        let parent_id = match widgets.get(current.id()) {
            Some(link) => link.parent,
            None => None,
        };
        match parent_id {
            None => {
                proof {
                    assert(parent_in(m, current) is None);
                }
                proof {
                    assert forall|fuel: nat| #[trigger] spatial_root(m, start, fuel) is Some implies spatial_root(m, start, fuel)
                        == Some(current) by {
                        if fuel <= fuel0 {
                            lemma_spatial_root_fuel(m, start, fuel, fuel0);
                        } else {
                            lemma_spatial_root_fuel(m, start, fuel0, fuel);
                        }
                    }
                }
                return current;
            },
            Some(pid) => {
                match widgets.get(pid.id()) {
                    None => {
                        proof {
                            assert forall|fuel: nat| #[trigger] spatial_root(m, start, fuel) is Some implies spatial_root(m, start, fuel)
                                == Some(current) by {
                                if fuel <= fuel0 {
                                    lemma_spatial_root_fuel(m, start, fuel, fuel0);
                                } else {
                                    lemma_spatial_root_fuel(m, start, fuel0, fuel);
                                }
                            }
                        }
                        return current;
                    },
                    Some(parent) => {
                        if parent.flag == VxSpatialHierarchyFlag::HierarchyParent {
                            proof {
                                assert forall|fuel: nat| #[trigger] spatial_root(m, start, fuel) is Some implies spatial_root(m, start, fuel)
                                    == Some(pid) by {
                                    if fuel <= fuel0 {
                                        lemma_spatial_root_fuel(m, start, fuel, fuel0);
                                    } else {
                                        lemma_spatial_root_fuel(m, start, fuel0, fuel);
                                    }
                                }
                            }
                            return pid;
                        }
                        proof {
                            k = (k - 1) as nat;
                        }
                        current = pid;
                    },
                }
            },
        }
    }
}

/// Registration of a new widget in the scene's lists: a widget without a
/// parent joins the top-level widgets, an immediate-mode widget joins the
/// immediate widgets, and a widget flagged `HierarchyParent` joins the
/// widgets that own a hierarchical spatial index.
pub fn register_widget(
    id: VxWidgetId,
    parent: Option<VxWidgetId>,
    mode: VxRenderMode,
    flag: VxSpatialHierarchyFlag,
    top_level: &mut Vec<VxWidgetId>,
    immediate: &mut Vec<VxWidgetId>,
    hierarchical: &mut Vec<VxWidgetId>,
)
    ensures
        final(top_level)@ == (if parent is None {
            old(top_level)@.push(id)
        } else {
            old(top_level)@
        }),
        final(immediate)@ == (if mode == VxRenderMode::Immediate {
            old(immediate)@.push(id)
        } else {
            old(immediate)@
        }),
        final(hierarchical)@ == (if flag == VxSpatialHierarchyFlag::HierarchyParent {
            old(hierarchical)@.push(id)
        } else {
            old(hierarchical)@
        }),
{
    if parent.is_none() {
        top_level.push(id);
    }
    if mode == VxRenderMode::Immediate {
        immediate.push(id);
    }
    if flag == VxSpatialHierarchyFlag::HierarchyParent {
        hierarchical.push(id);
    }
}

/// The spatial index that a newly added widget is placed in: none for a flat
/// widget, its own for a `HierarchyParent`, and the one its ancestors lead to
/// for a `HierarchyChild`.
pub fn spatial_parent_of(widgets: &VxGenVector<VxWidgetNode>, id: VxWidgetId, flag: VxSpatialHierarchyFlag) -> (r: Option<
    VxWidgetId,
>)
    requires
        flag == VxSpatialHierarchyFlag::HierarchyChild ==> exists|fuel: nat| #[trigger] spatial_root(widgets@, id, fuel) is Some,
    ensures
        flag == VxSpatialHierarchyFlag::Flat ==> r is None,
        flag == VxSpatialHierarchyFlag::HierarchyParent ==> r == Some(id),
        flag == VxSpatialHierarchyFlag::HierarchyChild ==> r is Some && forall|fuel: nat| #[trigger] spatial_root(widgets@, id, fuel)
            is Some ==> spatial_root(widgets@, id, fuel) == r,
{
    match flag {
        VxSpatialHierarchyFlag::Flat => None,
        VxSpatialHierarchyFlag::HierarchyParent => Some(id),
        VxSpatialHierarchyFlag::HierarchyChild => Some(find_spatial_index(widgets, id)),
    }
}

/// The `n`-th widget that an event offered to `cur` reaches: `cur` itself,
/// then its parent, and so on, as long as each one is in the table.
pub open spec fn walk_at(m: Seq<VxSlotModel<VxWidgetNode>>, cur: Option<VxWidgetId>, n: nat) -> Option<VxWidgetId>
    decreases n,
{
    match cur {
        None => None,
        Some(id) => if !gen_live(m, id.handle()) {
            None
        } else if n == 0 {
            Some(id)
        } else {
            walk_at(m, gen_value(m, id.handle()).parent, (n - 1) as nat)
        },
    }
}

/// The handler can only accept an event offered to `id`.
pub open spec fn must_accept<F: Fn(VxWidgetId) -> VxEventResult>(handler: F, id: VxWidgetId) -> bool {
    forall|r: VxEventResult| #[trigger] handler.ensures((id,), r) ==> r == VxEventResult::Accept
}

/// Within `fuel` steps up from `cur`, the walk either leaves the table or
/// reaches a widget whose handler can only accept.
pub open spec fn walk_stops<F: Fn(VxWidgetId) -> VxEventResult>(
    m: Seq<VxSlotModel<VxWidgetNode>>,
    cur: Option<VxWidgetId>,
    handler: F,
    fuel: nat,
) -> bool
    decreases fuel,
{
    match cur {
        None => true,
        Some(id) => if !gen_live(m, id.handle()) {
            true
        } else if must_accept(handler, id) {
            true
        } else if fuel == 0 {
            false
        } else {
            walk_stops(m, gen_value(m, id.handle()).parent, handler, (fuel - 1) as nat)
        },
    }
}

/// How an event offered to `start` ends with result `r`: for some `n`, the
/// first `n` widgets of the walk up from `start` each ignored it; then, on
/// `Accept`, the next widget of the walk accepted it, and on `Ignore` the
/// walk had left the table.
pub open spec fn walk_outcome<F: Fn(VxWidgetId) -> VxEventResult>(
    m: Seq<VxSlotModel<VxWidgetNode>>,
    start: Option<VxWidgetId>,
    handler: F,
    r: VxEventResult,
) -> bool {
    exists|n: nat|
        {
            &&& forall|j: nat| j < n ==> walk_at(m, start, j) is Some && handler.ensures(
                (walk_at(m, start, j)->0,),
                VxEventResult::Ignore,
            )
            &&& r == VxEventResult::Accept ==> walk_at(m, start, n) is Some && handler.ensures(
                (walk_at(m, start, n)->0,),
                VxEventResult::Accept,
            )
            &&& r == VxEventResult::Ignore ==> walk_at(m, start, n) is None
        }
}

/// Offers an event to `start` and then to its ancestors, until one of them
/// accepts it: `handler` is called on the widgets of the walk in order and the
/// walk stops at the first `Accept`, which is then the result; `Ignore` when
/// the walk leaves the table (no parent, or a parent no longer stored) with
/// every widget on the way having ignored the event. The handler is given
/// the widget's id and the parent links are read from the table. A walk
/// that goes round a loop of parents whose handlers may all ignore the event
/// never ends; those inputs are left out.
pub fn send_event_to_widget<F: Fn(VxWidgetId) -> VxEventResult>(
    widgets: &VxGenVector<VxWidgetNode>,
    start: Option<VxWidgetId>,
    handler: &F,
) -> (r: VxEventResult)
    requires
        forall|id: VxWidgetId| #[trigger] handler.requires((id,)),
        exists|fuel: nat| #[trigger] walk_stops(widgets@, start, *handler, fuel),
    ensures
        walk_outcome(widgets@, start, *handler, r),
{
    let ghost m = widgets@;
    let ghost fuel0: nat = choose|fuel: nat| #[trigger] walk_stops(widgets@, start, *handler, fuel);
    let mut cur = start;
    let ghost mut k: nat = fuel0;
    let ghost mut done: nat = 0;
    loop
        invariant
            m == widgets@,
            forall|id: VxWidgetId| #[trigger] handler.requires((id,)),
            walk_stops(m, cur, *handler, k),
            forall|n: nat| #[trigger] walk_at(m, cur, n) == walk_at(m, start, done + n),
            forall|j: nat| j < done ==> walk_at(m, start, j) is Some && handler.ensures(
                (walk_at(m, start, j)->0,),
                VxEventResult::Ignore,
            ),
        decreases k,
    {
        let parent = match cur {
            None => None,
            Some(id) => match widgets.get(id.id()) {
                None => None,
                Some(node) => Some(node.parent),
            },
        };
        match parent {
            None => {
                proof {
                    assert(walk_at(m, cur, 0) is None);
                    assert(walk_at(m, start, done + 0) is None);
                }
                return VxEventResult::Ignore;
            },
            Some(next) => {
                let id = cur.unwrap();
                proof {
                    assert(walk_at(m, cur, 0) == Some(id));
                    assert(walk_at(m, start, done + 0) == Some(id));
                }
                let res = handler(id);
                if res == VxEventResult::Accept {
                    return VxEventResult::Accept;
                }
                proof {
                    assert(!must_accept(*handler, id));
                    assert(k > 0);
                    assert forall|n: nat| #[trigger] walk_at(m, next, n) == walk_at(m, start, (done + 1) + n) by {
                        assert(walk_at(m, cur, n + 1) == walk_at(m, next, n));
                        assert(walk_at(m, cur, n + 1) == walk_at(m, start, done + (n + 1)));
                    }
                    assert forall|j: nat| j < done + 1 implies walk_at(m, start, j) is Some && handler.ensures(
                        (walk_at(m, start, j)->0,),
                        VxEventResult::Ignore,
                    ) by {
                        if j == done {
                            assert(walk_at(m, start, done + 0) == Some(id));
                        }
                    }
                    done = done + 1;
                    k = (k - 1) as nat;
                }
                cur = next;
            },
        }
    }
}

/// A mouse move over the scene, with `hit` the widget under the pointer.
/// When the hovered widget changes, `leave` is offered to the widget hovered
/// before and bubbles up as `send_event_to_widget` does, then `enter` is
/// offered to `hit` in the same way; `hit` becomes the hovered widget. Then
/// `on_move` is offered to `hit`, and how that walk ends is the result.
pub fn mouse_move_event<L, E, M>(
    widgets: &VxGenVector<VxWidgetNode>,
    hovered: &mut Option<VxWidgetId>,
    hit: Option<VxWidgetId>,
    leave: &L,
    enter: &E,
    on_move: &M,
) -> (r: VxEventResult) where
    L: Fn(VxWidgetId) -> VxEventResult,
    E: Fn(VxWidgetId) -> VxEventResult,
    M: Fn(VxWidgetId) -> VxEventResult,

    requires
        forall|id: VxWidgetId| #[trigger] leave.requires((id,)),
        forall|id: VxWidgetId| #[trigger] enter.requires((id,)),
        forall|id: VxWidgetId| #[trigger] on_move.requires((id,)),
        *old(hovered) != hit ==> exists|fuel: nat| #[trigger] walk_stops(widgets@, *old(hovered), *leave, fuel),
        *old(hovered) != hit ==> exists|fuel: nat| #[trigger] walk_stops(widgets@, hit, *enter, fuel),
        exists|fuel: nat| #[trigger] walk_stops(widgets@, hit, *on_move, fuel),
    ensures
        *final(hovered) == hit,
        *old(hovered) != hit ==> exists|res: VxEventResult| #[trigger] walk_outcome(widgets@, *old(hovered), *leave, res),
        *old(hovered) != hit ==> exists|res: VxEventResult| #[trigger] walk_outcome(widgets@, hit, *enter, res),
        walk_outcome(widgets@, hit, *on_move, r),
{
    let (left, entered) = hover_change(*hovered, hit);
    if let Some(old_id) = left {
        let res = send_event_to_widget(widgets, Some(old_id), leave);
        assert(walk_outcome(widgets@, *old(hovered), *leave, res));
    } else if *hovered != hit {
        assert(walk_at(widgets@, None, 0) is None);
        assert(walk_outcome(widgets@, *old(hovered), *leave, VxEventResult::Ignore));
    }
    if let Some(new_id) = entered {
        let res = send_event_to_widget(widgets, Some(new_id), enter);
        assert(walk_outcome(widgets@, hit, *enter, res));
    } else if *hovered != hit {
        assert(walk_at(widgets@, None, 0) is None);
        assert(walk_outcome(widgets@, hit, *enter, VxEventResult::Ignore));
    }
    *hovered = hit;
    send_event_to_widget(widgets, hit, on_move)
}

/// A mouse button pressed over the scene, with `hit` the widget under the
/// pointer: `hit` becomes the selected widget (the one key events go to),
/// and `handler` is offered to it and bubbles up as `send_event_to_widget`
/// does; how that walk ends is the result.
pub fn mouse_press_event<F: Fn(VxWidgetId) -> VxEventResult>(
    widgets: &VxGenVector<VxWidgetNode>,
    selected: &mut Option<VxWidgetId>,
    hit: Option<VxWidgetId>,
    handler: &F,
) -> (r: VxEventResult)
    requires
        forall|id: VxWidgetId| #[trigger] handler.requires((id,)),
        exists|fuel: nat| #[trigger] walk_stops(widgets@, hit, *handler, fuel),
    ensures
        *final(selected) == hit,
        walk_outcome(widgets@, hit, *handler, r),
{
    *selected = hit;
    send_event_to_widget(widgets, hit, handler)
}

/// A mouse button released over the scene: as `mouse_press_event`, `hit`
/// becomes the selected widget and `handler` bubbles up from it.
pub fn mouse_release_event<F: Fn(VxWidgetId) -> VxEventResult>(
    widgets: &VxGenVector<VxWidgetNode>,
    selected: &mut Option<VxWidgetId>,
    hit: Option<VxWidgetId>,
    handler: &F,
) -> (r: VxEventResult)
    requires
        forall|id: VxWidgetId| #[trigger] handler.requires((id,)),
        exists|fuel: nat| #[trigger] walk_stops(widgets@, hit, *handler, fuel),
    ensures
        *final(selected) == hit,
        walk_outcome(widgets@, hit, *handler, r),
{
    *selected = hit;
    send_event_to_widget(widgets, hit, handler)
}

/// The spatial index that a widget refreshes after it was laid out again:
/// a `HierarchyChild` refreshes the hierarchical index of its spatial parent
/// when that index exists, and nothing otherwise; any other widget refreshes
/// the flat index. `has_index` says whether the scene holds a hierarchical
/// index for `spatial_parent`.
pub fn spatial_update_for(
    flag: VxSpatialHierarchyFlag,
    spatial_parent: Option<VxWidgetId>,
    has_index: bool,
) -> (r: Option<VxSpatialUpdateFlag>)
    ensures
        flag != VxSpatialHierarchyFlag::HierarchyChild ==> r == Some(VxSpatialUpdateFlag::Flat),
        flag == VxSpatialHierarchyFlag::HierarchyChild ==> r == (if spatial_parent is Some && has_index {
            Some(VxSpatialUpdateFlag::Hierarchical(spatial_parent->0))
        } else {
            None
        }),
{
    match flag {
        VxSpatialHierarchyFlag::HierarchyChild => match spatial_parent {
            Some(p) => if has_index {
                Some(VxSpatialUpdateFlag::Hierarchical(p))
            } else {
                None
            },
            None => None,
        },
        _ => Some(VxSpatialUpdateFlag::Flat),
    }
}

/// The spatial index that widget `id` of table `m` refreshes after it got
/// new bounds, as `spatial_update_for` chooses, with `hierarchical` the
/// widgets that own a hierarchical index; `None` for a widget no longer in
/// the table.
pub open spec fn update_of(
    m: Seq<VxSlotModel<VxWidgetNode>>,
    hierarchical: Seq<VxWidgetId>,
    id: VxWidgetId,
) -> Option<VxSpatialUpdateFlag> {
    if !gen_live(m, id.handle()) {
        None
    } else {
        let n = gen_value(m, id.handle());
        if n.flag != VxSpatialHierarchyFlag::HierarchyChild {
            Some(VxSpatialUpdateFlag::Flat)
        } else if n.spatial_parent is Some && hierarchical.contains(n.spatial_parent->0) {
            Some(VxSpatialUpdateFlag::Hierarchical(n.spatial_parent->0))
        } else {
            None
        }
    }
}

fn contains_id(v: &Vec<VxWidgetId>, id: VxWidgetId) -> (r: bool)
    ensures
        r == v@.contains(id),
{
    let mut i: usize = 0;
    while i < v.len()
        invariant
            i <= v@.len(),
            forall|j: int| 0 <= j < i ==> v@[j] != id,
        decreases v@.len() - i,
    {
        if v[i] == id {
            return true;
        }
        i = i + 1;
    }
    false
}

fn contains_update(v: &Vec<VxSpatialUpdateFlag>, u: VxSpatialUpdateFlag) -> (r: bool)
    ensures
        r == v@.contains(u),
{
    let mut i: usize = 0;
    while i < v.len()
        invariant
            i <= v@.len(),
            forall|j: int| 0 <= j < i ==> v@[j] != u,
        decreases v@.len() - i,
    {
        if v[i] == u {
            return true;
        }
        i = i + 1;
    }
    false
}

/// The spatial indexes to refresh once the widgets `laid_out` got new
/// bounds: every index that one of them asks for (see `update_of`), each
/// once.
pub fn spatial_updates(
    widgets: &VxGenVector<VxWidgetNode>,
    laid_out: &Vec<VxWidgetId>,
    hierarchical: &Vec<VxWidgetId>,
) -> (r: Vec<VxSpatialUpdateFlag>)
    ensures
        r@.no_duplicates(),
        forall|u: VxSpatialUpdateFlag|
            #[trigger] r@.contains(u) <==> exists|i: int|
                0 <= i < laid_out@.len() && update_of(widgets@, hierarchical@, #[trigger] laid_out@[i]) == Some(u),
{
    let mut r: Vec<VxSpatialUpdateFlag> = Vec::new();
    let mut i: usize = 0;
    while i < laid_out.len()
        invariant
            i <= laid_out@.len(),
            r@.no_duplicates(),
            forall|u: VxSpatialUpdateFlag|
                #[trigger] r@.contains(u) <==> exists|k: int|
                    0 <= k < i && update_of(widgets@, hierarchical@, #[trigger] laid_out@[k]) == Some(u),
        decreases laid_out@.len() - i,
    {
        let id = laid_out[i];
        let upd = match widgets.get(id.id()) {
            Some(node) => {
                let has_index = match node.spatial_parent {
                    Some(p) => contains_id(hierarchical, p),
                    None => false,
                };
                spatial_update_for(node.flag, node.spatial_parent, has_index)
            },
            None => None,
        };
        assert(upd == update_of(widgets@, hierarchical@, laid_out@[i as int]));
        let ghost before = r@;
        match upd {
            Some(u) => {
                if !contains_update(&r, u) {
                    r.push(u);
                    proof {
                        assert forall|a: int, b: int| 0 <= a < r@.len() && 0 <= b < r@.len() && a != b implies r@[a]
                            != r@[b] by {
                            if a == before.len() {
                                assert(before.contains(r@[b]));
                            } else if b == before.len() {
                                assert(before.contains(r@[a]));
                            }
                        }
                    }
                }
            },
            None => {},
        }
        proof {
            assert forall|u: VxSpatialUpdateFlag| #[trigger] r@.contains(u) <==> exists|k: int|
                0 <= k < i + 1 && update_of(widgets@, hierarchical@, #[trigger] laid_out@[k]) == Some(u) by {
                if r@.contains(u) && !before.contains(u) {
                    assert(upd == Some(u));
                }
                if before.contains(u) {
                    let j = choose|j: int| 0 <= j < before.len() && before[j] == u;
                    assert(r@[j] == u);
                }
                if upd == Some(u) {
                    if !before.contains(u) {
                        assert(r@[r@.len() - 1] == u);
                    }
                }
                if exists|k: int| 0 <= k < i + 1 && update_of(widgets@, hierarchical@, #[trigger] laid_out@[k]) == Some(u) {
                    let k = choose|k: int| 0 <= k < i + 1 && update_of(widgets@, hierarchical@, #[trigger] laid_out@[k]) == Some(u);
                    if k < i {
                    }
                }
            }
        }
        i = i + 1;
    }
    r
}

/// `taken` holds the marks of `q`: each marked widget once, with its bits.
pub open spec fn takes_marks(q: Map<VxDirtyKey, u32>, taken: Seq<(VxWidgetId, VxDirtyFlag)>) -> bool {
    &&& forall|i: int|
        0 <= i < taken.len() ==> q.contains_key(key_of(#[trigger] taken[i].0)) && q[key_of(taken[i].0)] == taken[i].1@
    &&& forall|k: VxDirtyKey| q.contains_key(k) ==> exists|i: int| 0 <= i < taken.len() && key_of(#[trigger] taken[i].0) == k
    &&& forall|i: int, j: int| 0 <= i < j < taken.len() ==> taken[i].0 != taken[j].0
}

/// The update mode of widget `id` in the table, when it is there.
pub open spec fn mode_in(m: Seq<VxSlotModel<VxWidgetNode>>, id: VxWidgetId) -> Option<VxRenderMode> {
    if gen_live(m, id.handle()) {
        Some(gen_value(m, id.handle()).mode)
    } else {
        None
    }
}

/// The marks paired with the update modes of their widgets.
pub open spec fn with_modes(m: Seq<VxSlotModel<VxWidgetNode>>, taken: Seq<(VxWidgetId, VxDirtyFlag)>) -> Seq<VxDirtyEntry> {
    Seq::new(taken.len(), |i: int| (taken[i].0, taken[i].1, mode_in(m, taken[i].0)))
}

/// The dirty check of a scene: takes the pending marks out of the queue,
/// pairs each with the update mode of its widget (none when the widget is
/// gone), and plans as `plan_dirty_check`; the scene has immediate widgets
/// when `immediate_widgets` is not empty.
pub fn check_dirty(
    queue: &mut VxDirtyQueue,
    widgets: &VxGenVector<VxWidgetNode>,
    immediate_widgets: &Vec<VxWidgetId>,
) -> (r: (VxDirtyCheckResult, Vec<VxWidgetId>))
    ensures
        final(queue).pending() == no_marks(),
        exists|taken: Seq<(VxWidgetId, VxDirtyFlag)>|
            {
                &&& #[trigger] takes_marks(old(queue).pending(), taken)
                &&& r.0 == dirty_result(with_modes(widgets@, taken), immediate_widgets@.len() > 0)
                &&& r.1@ == relayout_ids(with_modes(widgets@, taken))
            },
{
    let taken = queue.take();
    let mut entries: Vec<VxDirtyEntry> = Vec::new();
    let mut i: usize = 0;
    while i < taken.len()
        invariant
            i <= taken@.len(),
            entries@ == with_modes(widgets@, taken@).take(i as int),
        decreases taken@.len() - i,
    {
        let (id, flag) = taken[i];
        let mode = match widgets.get(id.id()) {
            Some(node) => Some(node.mode),
            None => None,
        };
        entries.push((id, flag, mode));
        i = i + 1;
        proof {
            assert(entries@ =~= with_modes(widgets@, taken@).take(i as int));
        }
    }
    proof {
        assert(with_modes(widgets@, taken@).take(taken@.len() as int) =~= with_modes(widgets@, taken@));
        assert(takes_marks(old(queue).pending(), taken@));
    }
    plan_dirty_check(&entries, immediate_widgets.len() > 0)
}

/// Adds a widget to the scene's table under `parent`: its node has the given
/// parent, flag and mode, no children yet and no spatial index; it is
/// appended to its parent's children, and registered in the top-level and
/// immediate lists and among the owners of a hierarchical index as
/// `register_widget` does. Every other widget keeps its
/// node. The parent, when given, must be in the table (adding a child to a
/// missing parent aborts).
pub fn add_widget(
    widgets: &mut VxGenVector<VxWidgetNode>,
    top_level: &mut Vec<VxWidgetId>,
    immediate: &mut Vec<VxWidgetId>,
    hierarchical: &mut Vec<VxWidgetId>,
    parent: Option<VxWidgetId>,
    mode: VxRenderMode,
    flag: VxSpatialHierarchyFlag,
) -> (r: VxWidgetId)
    requires
        old(widgets).wf(),
        parent matches Some(p) ==> gen_live(old(widgets)@, p.handle()),
    ensures
        final(widgets).wf(),
        !gen_live(old(widgets)@, r.handle()),
        gen_live(final(widgets)@, r.handle()),
        gen_value(final(widgets)@, r.handle()).parent == parent,
        gen_value(final(widgets)@, r.handle()).flag == flag,
        gen_value(final(widgets)@, r.handle()).mode == mode,
        gen_value(final(widgets)@, r.handle()).children@ == Seq::<VxWidgetId>::empty(),
        gen_value(final(widgets)@, r.handle()).spatial_parent is None,
        live_count(final(widgets)@) == live_count(old(widgets)@) + 1,
        parent matches Some(p) ==> {
            let before = gen_value(old(widgets)@, p.handle());
            let after = gen_value(final(widgets)@, p.handle());
            &&& gen_live(final(widgets)@, p.handle())
            &&& after.children@ == before.children@.push(r)
            &&& after.parent == before.parent
            &&& after.flag == before.flag
            &&& after.mode == before.mode
            &&& after.spatial_parent == before.spatial_parent
        },
        forall|h: VxGenIndex|
            h != r.handle() && (parent matches Some(p) ==> h != p.handle()) ==> (#[trigger] gen_live(final(widgets)@, h)
                <==> gen_live(old(widgets)@, h)) && (gen_live(old(widgets)@, h) ==> gen_value(final(widgets)@, h)
                == gen_value(old(widgets)@, h)),
        final(top_level)@ == (if parent is None {
            old(top_level)@.push(r)
        } else {
            old(top_level)@
        }),
        final(immediate)@ == (if mode == VxRenderMode::Immediate {
            old(immediate)@.push(r)
        } else {
            old(immediate)@
        }),
        final(hierarchical)@ == (if flag == VxSpatialHierarchyFlag::HierarchyParent {
            old(hierarchical)@.push(r)
        } else {
            old(hierarchical)@
        }),
{
    let ghost m0 = widgets@;
    let ghost f0 = widgets.free_list();
    proof {
        widgets.lemma_free_list();
    }
    let node = VxWidgetNode { parent, flag, mode, children: Vec::new(), spatial_parent: None };
    let ghost n0 = node;
    let h = widgets.insert(node);
    let ghost m1 = widgets@;
    proof {
        law_insert_then_get(m0, f0, n0, h.slot(), h.gen(), m1, widgets.free_list());
        if f0.len() > 0 {
            assert(m0[f0[0] as int].1 is None);
        }
        assert forall|g: VxGenIndex| g != h implies (#[trigger] gen_live(m1, g) <==> gen_live(m0, g)) by {
            VxGenIndex::lemma_eq(g, h);
        }
    }
    let id = VxWidgetId::new(h);
    register_widget(id, parent, mode, flag, top_level, immediate, hierarchical);
    match parent {
        None => {},
        Some(p) => {
            proof {
                VxGenIndex::lemma_eq(p.handle(), h);
                assert(gen_live(m1, p.handle()));
            }
            match widgets.get_mut(p.id()) {
                Some(pn) => {
                    pn.children.push(id);
                },
                None => {},
            }
            proof {
                let m2 = widgets@;
                assert forall|g: VxGenIndex|
                    g != h && g != p.handle() implies (#[trigger] gen_live(m2, g) <==> gen_live(m0, g)) && (gen_live(m0, g)
                        ==> gen_value(m2, g) == gen_value(m0, g)) by {
                    VxGenIndex::lemma_eq(g, h);
                    VxGenIndex::lemma_eq(g, p.handle());
                    if g.slot() == p.handle().slot() {
                        assert(!gen_live(m0, g));
                    }
                }
                assert(gen_live(m2, h));
                crate::types::slot_model::lemma_count_update(m1, p.handle().slot(), m2[p.handle().slot()]);
            }
        },
    }
    id
}

/// Places a widget in the spatial index it belongs to, as
/// `spatial_parent_of` chooses for its flag; nothing else changes.
pub fn place_in_spatial_index(widgets: &mut VxGenVector<VxWidgetNode>, id: VxWidgetId)
    requires
        old(widgets).wf(),
        gen_live(old(widgets)@, id.handle()),
        gen_value(old(widgets)@, id.handle()).flag == VxSpatialHierarchyFlag::HierarchyChild ==> exists|fuel: nat|
            #[trigger] spatial_root(old(widgets)@, id, fuel) is Some,
    ensures
        final(widgets).wf(),
        final(widgets).free_list() == old(widgets).free_list(),
        gen_live(final(widgets)@, id.handle()),
        ({
            let before = gen_value(old(widgets)@, id.handle());
            let after = gen_value(final(widgets)@, id.handle());
            &&& after.parent == before.parent
            &&& after.flag == before.flag
            &&& after.mode == before.mode
            &&& after.children@ == before.children@
            &&& (before.flag == VxSpatialHierarchyFlag::Flat ==> after.spatial_parent is None)
            &&& (before.flag == VxSpatialHierarchyFlag::HierarchyParent ==> after.spatial_parent == Some(id))
            &&& (before.flag == VxSpatialHierarchyFlag::HierarchyChild ==> after.spatial_parent is Some && forall|fuel: nat|
                #[trigger] spatial_root(old(widgets)@, id, fuel) is Some ==> spatial_root(old(widgets)@, id, fuel)
                    == after.spatial_parent)
        }),
        forall|h: VxGenIndex|
            h.slot() != id.handle().slot() ==> (#[trigger] gen_live(final(widgets)@, h) <==> gen_live(old(widgets)@, h))
                && (gen_live(old(widgets)@, h) ==> gen_value(final(widgets)@, h) == gen_value(old(widgets)@, h)),
{
    let flag = match widgets.get(id.id()) {
        Some(node) => node.flag,
        None => VxSpatialHierarchyFlag::Flat,
    };
    let sp = spatial_parent_of(widgets, id, flag);
    match widgets.get_mut(id.id()) {
        Some(node) => {
            node.spatial_parent = sp;
        },
        None => {},
    }
}

/// The walk up the parents of `id` leaves the table within `fuel` steps.
pub open spec fn chain_within(m: Seq<VxSlotModel<VxWidgetNode>>, id: VxWidgetId, fuel: nat) -> bool
    decreases fuel,
{
    match parent_in(m, id) {
        None => true,
        Some(p) => if !gen_live(m, p.handle()) {
            true
        } else if fuel == 0 {
            false
        } else {
            chain_within(m, p, (fuel - 1) as nat)
        },
    }
}

/// The scene's table is a forest: every parent link names a widget in the
/// table, and every walk up the parents ends.
pub open spec fn scene_tree_ok(m: Seq<VxSlotModel<VxWidgetNode>>) -> bool {
    &&& forall|id: VxWidgetId|
        #[trigger] gen_live(m, id.handle()) && gen_value(m, id.handle()).parent is Some ==> gen_live(
            m,
            gen_value(m, id.handle()).parent->0.handle(),
        )
    &&& forall|id: VxWidgetId| #[trigger] gen_live(m, id.handle()) ==> exists|fuel: nat| chain_within(m, id, fuel)
}

/// A walk that ends finds a spatial index.
pub proof fn lemma_chain_spatial_root(m: Seq<VxSlotModel<VxWidgetNode>>, id: VxWidgetId, fuel: nat)
    requires
        chain_within(m, id, fuel),
    ensures
        spatial_root(m, id, fuel + 1) is Some,
    decreases fuel,
{
    match parent_in(m, id) {
        None => {},
        Some(p) => {
            if gen_live(m, p.handle()) && gen_value(m, p.handle()).flag != VxSpatialHierarchyFlag::HierarchyParent {
                lemma_chain_spatial_root(m, p, (fuel - 1) as nat);
            }
        },
    }
}

/// Walks are kept when every widget keeps its parent link and stays.
proof fn lemma_chain_frame(m: Seq<VxSlotModel<VxWidgetNode>>, m2: Seq<VxSlotModel<VxWidgetNode>>, id: VxWidgetId, fuel: nat)
    requires
        chain_within(m, id, fuel),
        gen_live(m, id.handle()),
        forall|h: VxGenIndex|
            #[trigger] gen_live(m, h) ==> gen_live(m2, h) && gen_value(m2, h).parent == gen_value(m, h).parent,
        forall|i: VxWidgetId|
            #[trigger] gen_live(m, i.handle()) && gen_value(m, i.handle()).parent is Some ==> gen_live(
                m,
                gen_value(m, i.handle()).parent->0.handle(),
            ),
    ensures
        chain_within(m2, id, fuel),
    decreases fuel,
{
    assert(gen_live(m2, id.handle()));
    match parent_in(m, id) {
        None => {},
        Some(p) => {
            assert(gen_live(m, p.handle()));
            if fuel > 0 {
                lemma_chain_frame(m, m2, p, (fuel - 1) as nat);
            }
        },
    }
}

/// A widget added under `parent` keeps the table a forest.
proof fn lemma_tree_ok_after_add(
    m: Seq<VxSlotModel<VxWidgetNode>>,
    m2: Seq<VxSlotModel<VxWidgetNode>>,
    new: VxWidgetId,
    parent: Option<VxWidgetId>,
)
    requires
        scene_tree_ok(m),
        parent matches Some(p) ==> gen_live(m, p.handle()),
        gen_live(m2, new.handle()),
        gen_value(m2, new.handle()).parent == parent,
        forall|h: VxGenIndex|
            #[trigger] gen_live(m, h) ==> gen_live(m2, h) && gen_value(m2, h).parent == gen_value(m, h).parent,
        forall|h: VxGenIndex| #[trigger] gen_live(m2, h) ==> gen_live(m, h) || h == new.handle(),
        !gen_live(m, new.handle()),
    ensures
        scene_tree_ok(m2),
{
    assert forall|id: VxWidgetId|
        #[trigger] gen_live(m2, id.handle()) && gen_value(m2, id.handle()).parent is Some implies gen_live(
            m2,
            gen_value(m2, id.handle()).parent->0.handle(),
        ) by {
        if id.handle() != new.handle() {
            assert(gen_live(m, id.handle()));
            assert(gen_live(m, gen_value(m, id.handle()).parent->0.handle()));
        }
    }
    assert forall|id: VxWidgetId| #[trigger] gen_live(m2, id.handle()) implies exists|fuel: nat| chain_within(m2, id, fuel) by {
        if id.handle() == new.handle() {
            match parent {
                None => {
                    assert(chain_within(m2, id, 0));
                },
                Some(p) => {
                    let f = choose|fuel: nat| chain_within(m, p, fuel);
                    lemma_chain_frame(m, m2, p, f);
                    assert(parent_in(m2, id) == Some(p));
                    assert(chain_within(m2, id, f + 1));
                },
            }
        } else {
            assert(gen_live(m, id.handle()));
            let f = choose|fuel: nat| chain_within(m, id, fuel);
            lemma_chain_frame(m, m2, id, f);
        }
    }
}

/// The table stays a forest when the same widgets stay, each with its
/// parent link.
proof fn lemma_tree_ok_frame(m: Seq<VxSlotModel<VxWidgetNode>>, m2: Seq<VxSlotModel<VxWidgetNode>>)
    requires
        scene_tree_ok(m),
        forall|h: VxGenIndex| gen_live(m2, h) <==> #[trigger] gen_live(m, h),
        forall|h: VxGenIndex|
            #[trigger] gen_live(m, h) ==> gen_live(m2, h) && gen_value(m2, h).parent == gen_value(m, h).parent,
    ensures
        scene_tree_ok(m2),
{
    assert forall|id: VxWidgetId|
        #[trigger] gen_live(m2, id.handle()) && gen_value(m2, id.handle()).parent is Some implies gen_live(
            m2,
            gen_value(m2, id.handle()).parent->0.handle(),
        ) by {
        assert(gen_live(m, id.handle()));
        assert(gen_live(m, gen_value(m, id.handle()).parent->0.handle()));
    }
    assert forall|id: VxWidgetId| #[trigger] gen_live(m2, id.handle()) implies exists|fuel: nat| chain_within(m2, id, fuel) by {
        assert(gen_live(m, id.handle()));
        let f = choose|fuel: nat| chain_within(m, id, fuel);
        lemma_chain_frame(m, m2, id, f);
    }
}

/// The spatial index of a widget stays when the same widgets stay, each
/// with its parent link and flag.
proof fn lemma_spatial_root_frame(
    m: Seq<VxSlotModel<VxWidgetNode>>,
    m2: Seq<VxSlotModel<VxWidgetNode>>,
    id: VxWidgetId,
    fuel: nat,
)
    requires
        forall|h: VxGenIndex| gen_live(m2, h) <==> #[trigger] gen_live(m, h),
        forall|h: VxGenIndex|
            #[trigger] gen_live(m, h) ==> gen_value(m2, h).parent == gen_value(m, h).parent && gen_value(m2, h).flag
                == gen_value(m, h).flag,
    ensures
        spatial_root(m2, id, fuel) == spatial_root(m, id, fuel),
    decreases fuel,
{
    assert(gen_live(m2, id.handle()) == gen_live(m, id.handle()));
    if fuel > 0 {
        match parent_in(m, id) {
            None => {},
            Some(p) => {
                assert(gen_live(m2, p.handle()) == gen_live(m, p.handle()));
                lemma_spatial_root_frame(m, m2, p, (fuel - 1) as nat);
            },
        }
    }
}

/// The ids of `s`, in their order, whose node in `m` passes `keep`.
pub open spec fn ids_where(
    m: Seq<VxSlotModel<VxWidgetNode>>,
    s: Seq<VxWidgetId>,
    keep: spec_fn(VxWidgetNode) -> bool,
) -> Seq<VxWidgetId>
    decreases s.len(),
{
    if s.len() == 0 {
        Seq::empty()
    } else {
        let rest = ids_where(m, s.drop_last(), keep);
        if keep(gen_value(m, s.last().handle())) {
            rest.push(s.last())
        } else {
            rest
        }
    }
}

/// Nodes of widgets updated in immediate mode.
pub open spec fn is_immediate() -> spec_fn(VxWidgetNode) -> bool {
    |n: VxWidgetNode| n.mode == VxRenderMode::Immediate
}

/// Nodes of widgets that own a hierarchical spatial index.
pub open spec fn owns_index() -> spec_fn(VxWidgetNode) -> bool {
    |n: VxWidgetNode| n.flag == VxSpatialHierarchyFlag::HierarchyParent
}

/// Selecting from two sequences one after the other is selecting from both.
pub proof fn lemma_ids_where_add(
    m: Seq<VxSlotModel<VxWidgetNode>>,
    a: Seq<VxWidgetId>,
    b: Seq<VxWidgetId>,
    keep: spec_fn(VxWidgetNode) -> bool,
)
    ensures
        ids_where(m, a + b, keep) == ids_where(m, a, keep) + ids_where(m, b, keep),
    decreases b.len(),
{
    if b.len() == 0 {
        assert(a + b =~= a);
        assert(ids_where(m, a, keep) + ids_where(m, b, keep) =~= ids_where(m, a, keep));
    } else {
        assert((a + b).drop_last() =~= a + b.drop_last());
        assert((a + b).last() == b.last());
        lemma_ids_where_add(m, a, b.drop_last(), keep);
        let x = b.last();
        if keep(gen_value(m, x.handle())) {
            assert(ids_where(m, a, keep) + ids_where(m, b.drop_last(), keep).push(x) =~= (ids_where(m, a, keep)
                + ids_where(m, b.drop_last(), keep)).push(x));
        }
    }
}

/// The selection stays when every id keeps its verdict.
pub proof fn lemma_ids_where_frame(
    m: Seq<VxSlotModel<VxWidgetNode>>,
    m2: Seq<VxSlotModel<VxWidgetNode>>,
    s: Seq<VxWidgetId>,
    keep: spec_fn(VxWidgetNode) -> bool,
)
    requires
        forall|i: int| 0 <= i < s.len() ==> keep(gen_value(m2, #[trigger] s[i].handle())) == keep(gen_value(m, s[i].handle())),
    ensures
        ids_where(m2, s, keep) == ids_where(m, s, keep),
    decreases s.len(),
{
    if s.len() > 0 {
        assert(s.last() == s[s.len() - 1]);
        lemma_ids_where_frame(m, m2, s.drop_last(), keep);
    }
}

/// Selecting from one id.
pub proof fn lemma_ids_where_one(m: Seq<VxSlotModel<VxWidgetNode>>, x: VxWidgetId, keep: spec_fn(VxWidgetNode) -> bool)
    ensures
        ids_where(m, seq![x], keep) == (if keep(gen_value(m, x.handle())) {
            seq![x]
        } else {
            Seq::<VxWidgetId>::empty()
        }),
{
    assert(seq![x].drop_last() =~= Seq::<VxWidgetId>::empty());
    assert(seq![x].last() == x);
    assert(ids_where(m, Seq::<VxWidgetId>::empty(), keep) == Seq::<VxWidgetId>::empty());
    assert(Seq::<VxWidgetId>::empty().push(x) =~= seq![x]);
}

/// Widget `id` is in the table and sits in the spatial index its flag asks
/// for: none when flat, its own when `HierarchyParent`, and the one its
/// ancestors lead to when `HierarchyChild`.
pub open spec fn placed_in_index(m: Seq<VxSlotModel<VxWidgetNode>>, id: VxWidgetId) -> bool {
    let n = gen_value(m, id.handle());
    &&& gen_live(m, id.handle())
    &&& (n.flag == VxSpatialHierarchyFlag::Flat ==> n.spatial_parent is None)
    &&& (n.flag == VxSpatialHierarchyFlag::HierarchyParent ==> n.spatial_parent == Some(id))
    &&& (n.flag == VxSpatialHierarchyFlag::HierarchyChild ==> n.spatial_parent is Some && forall|fuel: nat|
        #[trigger] spatial_root(m, id, fuel) is Some ==> spatial_root(m, id, fuel) == n.spatial_parent)
}

/// The spatial index of a widget stays when widgets are added and every
/// widget already there keeps its parent link and flag.
proof fn lemma_spatial_root_grow(
    m: Seq<VxSlotModel<VxWidgetNode>>,
    m2: Seq<VxSlotModel<VxWidgetNode>>,
    id: VxWidgetId,
    fuel: nat,
)
    requires
        scene_tree_ok(m),
        gen_live(m, id.handle()),
        forall|h: VxGenIndex|
            #[trigger] gen_live(m, h) ==> gen_live(m2, h) && gen_value(m2, h).parent == gen_value(m, h).parent
                && gen_value(m2, h).flag == gen_value(m, h).flag,
    ensures
        spatial_root(m2, id, fuel) == spatial_root(m, id, fuel),
    decreases fuel,
{
    assert(gen_live(m2, id.handle()));
    if fuel > 0 {
        match parent_in(m, id) {
            None => {},
            Some(p) => {
                assert(gen_live(m, p.handle()));
                assert(gen_live(m2, p.handle()));
                lemma_spatial_root_grow(m, m2, p, (fuel - 1) as nat);
            },
        }
    }
}

/// A placed widget stays placed when widgets are added and every widget
/// already there keeps its parent link, flag and spatial index.
proof fn lemma_placed_grow(m: Seq<VxSlotModel<VxWidgetNode>>, m2: Seq<VxSlotModel<VxWidgetNode>>, id: VxWidgetId)
    requires
        scene_tree_ok(m),
        placed_in_index(m, id),
        forall|h: VxGenIndex|
            #[trigger] gen_live(m, h) ==> gen_live(m2, h) && gen_value(m2, h).parent == gen_value(m, h).parent
                && gen_value(m2, h).flag == gen_value(m, h).flag && gen_value(m2, h).spatial_parent == gen_value(
                m,
                h,
            ).spatial_parent,
    ensures
        placed_in_index(m2, id),
{
    assert(gen_live(m2, id.handle()));
    assert forall|fuel: nat| #[trigger] spatial_root(m2, id, fuel) is Some implies spatial_root(m2, id, fuel)
        == spatial_root(m, id, fuel) by {
        lemma_spatial_root_grow(m, m2, id, fuel);
    }
}

/// A widget to add, with the widgets to add under it, in order.
pub struct VxWidgetTree {
    pub mode: VxRenderMode,
    pub flag: VxSpatialHierarchyFlag,
    pub children: Vec<VxWidgetTree>,
}

/// The handles of the widgets of `s`.
pub open spec fn handles_of(s: Seq<VxWidgetId>) -> Set<VxGenIndex> {
    Set::new(|h: VxGenIndex| exists|k: int| 0 <= k < s.len() && s[k].handle() == h)
}

/// The `k`-th widget of `s` hangs under an earlier one: its parent in `m` is
/// a widget of `s` before it, whose children list it.
pub open spec fn hangs_under(m: Seq<VxSlotModel<VxWidgetNode>>, s: Seq<VxWidgetId>, k: int) -> bool {
    exists|j: int|
        0 <= j < k && gen_value(m, s[k].handle()).parent == Some(s[j]) && gen_value(m, s[j].handle()).children@.contains(
            s[k],
        )
}

/// Widget `x` of table `m` and the widgets under it are laid out as `t`
/// under `parent`: `x` is in the table, among `within`, with `parent` as its
/// parent, `t`'s flag and mode and as many children as `t`; each child is
/// laid out, under `x`, as the child of `t` at the same place.
pub open spec fn laid_out_as(
    m: Seq<VxSlotModel<VxWidgetNode>>,
    x: VxWidgetId,
    parent: Option<VxWidgetId>,
    t: VxWidgetTree,
    within: Set<VxGenIndex>,
) -> bool
    decreases t,
{
    let n = gen_value(m, x.handle());
    &&& gen_live(m, x.handle())
    &&& within.contains(x.handle())
    &&& n.parent == parent
    &&& n.flag == t.flag
    &&& n.mode == t.mode
    &&& n.children@.len() == t.children@.len()
    &&& forall|i: int|
        0 <= i < t.children@.len() ==> laid_out_as(m, n.children@[i], Some(x), #[trigger] t.children@[i], within)
}

/// A laid-out tree stays so in a larger set.
proof fn lemma_laid_out_within(
    m: Seq<VxSlotModel<VxWidgetNode>>,
    x: VxWidgetId,
    parent: Option<VxWidgetId>,
    t: VxWidgetTree,
    a: Set<VxGenIndex>,
    b: Set<VxGenIndex>,
)
    requires
        laid_out_as(m, x, parent, t, a),
        a.subset_of(b),
    ensures
        laid_out_as(m, x, parent, t, b),
    decreases t,
{
    let n = gen_value(m, x.handle());
    assert(a.contains(x.handle()));
    assert forall|i: int| 0 <= i < t.children@.len() implies laid_out_as(
        m,
        n.children@[i],
        Some(x),
        #[trigger] t.children@[i],
        b,
    ) by {
        assert(decreases_to!(t => t.children));
        assert(decreases_to!(t.children => t.children@));
        assert(decreases_to!(t.children@ => t.children@[i]));
        lemma_laid_out_within(m, n.children@[i], Some(x), t.children@[i], a, b);
    }
    assert(laid_out_as(m, x, parent, t, b));
}

/// A laid-out tree stays so when every widget of `within` keeps its node's
/// links, flag and mode.
proof fn lemma_laid_out_frame(
    m: Seq<VxSlotModel<VxWidgetNode>>,
    m2: Seq<VxSlotModel<VxWidgetNode>>,
    x: VxWidgetId,
    parent: Option<VxWidgetId>,
    t: VxWidgetTree,
    within: Set<VxGenIndex>,
)
    requires
        laid_out_as(m, x, parent, t, within),
        forall|h: VxGenIndex|
            #[trigger] within.contains(h) && gen_live(m, h) ==> {
                &&& gen_live(m2, h)
                &&& gen_value(m2, h).parent == gen_value(m, h).parent
                &&& gen_value(m2, h).flag == gen_value(m, h).flag
                &&& gen_value(m2, h).mode == gen_value(m, h).mode
                &&& gen_value(m2, h).children@ == gen_value(m, h).children@
            },
    ensures
        laid_out_as(m2, x, parent, t, within),
    decreases t,
{
    let n = gen_value(m, x.handle());
    assert(within.contains(x.handle()) && gen_live(m, x.handle()));
    assert forall|i: int| 0 <= i < t.children@.len() implies laid_out_as(
        m2,
        gen_value(m2, x.handle()).children@[i],
        Some(x),
        #[trigger] t.children@[i],
        within,
    ) by {
        assert(decreases_to!(t => t.children));
        assert(decreases_to!(t.children => t.children@));
        assert(decreases_to!(t.children@ => t.children@[i]));
        lemma_laid_out_frame(m, m2, n.children@[i], Some(x), t.children@[i], within);
    }
    assert(laid_out_as(m2, x, parent, t, within));
}

/// Adds a widget and, under it, its children in order, each with its own
/// children: every widget is added as `add_widget` does, and after its
/// children are in place it is placed in its spatial index as
/// `place_in_spatial_index` does. Returns the widget's id and, as a ghost
/// value, the ids of all the widgets added, in the order they were added
/// (each widget before its children, the children in order). The added
/// widgets are laid out in the table as `tree` under `parent`, and each of
/// them but the first hangs under one added before it. The widget
/// joins the top-level list when it has no parent, the immediate-mode ones
/// join the immediate list and those flagged `HierarchyParent` the owners of
/// a hierarchical index, in the order they were added. The table stays a
/// forest; widgets already there keep their parent link, and only `parent`'s
/// node gains a child.
pub fn add_widget_tree(
    widgets: &mut VxGenVector<VxWidgetNode>,
    top_level: &mut Vec<VxWidgetId>,
    immediate: &mut Vec<VxWidgetId>,
    hierarchical: &mut Vec<VxWidgetId>,
    tree: VxWidgetTree,
    parent: Option<VxWidgetId>,
) -> (r: (VxWidgetId, Ghost<Seq<VxWidgetId>>))
    requires
        old(widgets).wf(),
        scene_tree_ok(old(widgets)@),
        parent matches Some(p) ==> gen_live(old(widgets)@, p.handle()),
    ensures
        final(widgets).wf(),
        scene_tree_ok(final(widgets)@),
        r.1@.len() >= 1,
        r.1@[0] == r.0,
        forall|a: int, b: int|
            0 <= a < b < r.1@.len() ==> (#[trigger] r.1@[a]).handle() != (#[trigger] r.1@[b]).handle(),
        forall|k: int|
            0 <= k < r.1@.len() ==> !gen_live(old(widgets)@, (#[trigger] r.1@[k]).handle()) && placed_in_index(
                final(widgets)@,
                r.1@[k],
            ),
        forall|h: VxGenIndex|
            #[trigger] gen_live(final(widgets)@, h) ==> gen_live(old(widgets)@, h) || exists|k: int|
                0 <= k < r.1@.len() && (#[trigger] r.1@[k]).handle() == h,
        final(top_level)@ == old(top_level)@ + (if parent is None {
            seq![r.0]
        } else {
            Seq::<VxWidgetId>::empty()
        }),
        final(immediate)@ == old(immediate)@ + ids_where(final(widgets)@, r.1@, is_immediate()),
        final(hierarchical)@ == old(hierarchical)@ + ids_where(final(widgets)@, r.1@, owns_index()),
        placed_in_index(final(widgets)@, r.0),
        laid_out_as(final(widgets)@, r.0, parent, tree, handles_of(r.1@)),
        forall|k: int| 1 <= k < r.1@.len() ==> #[trigger] hangs_under(final(widgets)@, r.1@, k),
        forall|h: VxGenIndex|
            #[trigger] gen_live(old(widgets)@, h) ==> {
                &&& gen_live(final(widgets)@, h)
                &&& gen_value(final(widgets)@, h).parent == gen_value(old(widgets)@, h).parent
                &&& gen_value(final(widgets)@, h).flag == gen_value(old(widgets)@, h).flag
                &&& gen_value(final(widgets)@, h).mode == gen_value(old(widgets)@, h).mode
                &&& gen_value(final(widgets)@, h).spatial_parent == gen_value(old(widgets)@, h).spatial_parent
            },
        forall|h: VxGenIndex|
            #[trigger] gen_live(old(widgets)@, h) && (parent matches Some(p) ==> h != p.handle()) ==> gen_value(
                final(widgets)@,
                h,
            ).children@ == gen_value(old(widgets)@, h).children@,
        parent matches Some(p) ==> gen_value(final(widgets)@, p.handle()).children@ == gen_value(
            old(widgets)@,
            p.handle(),
        ).children@.push(r.0),
    decreases tree,
{
    let ghost m0 = widgets@;
    let ghost top0 = top_level@;
    let ghost imm0 = immediate@;
    let ghost hier0 = hierarchical@;
    let id = add_widget(widgets, top_level, immediate, hierarchical, parent, tree.mode, tree.flag);
    proof {
        lemma_tree_ok_after_add(m0, widgets@, id, parent);
        lemma_ids_where_one(widgets@, id, is_immediate());
        lemma_ids_where_one(widgets@, id, owns_index());
        assert(top0.push(id) =~= top0 + seq![id]);
        assert(top0 + Seq::<VxWidgetId>::empty() =~= top0);
        assert(imm0.push(id) =~= imm0 + seq![id]);
        assert(imm0 + Seq::<VxWidgetId>::empty() =~= imm0);
        assert(hier0.push(id) =~= hier0 + seq![id]);
        assert(hier0 + Seq::<VxWidgetId>::empty() =~= hier0);
    }
    let ghost m1 = widgets@;
    let ghost top1 = top_level@;
    let ghost mut ins: Seq<VxWidgetId> = seq![id];
    let ghost mut below: Seq<VxWidgetId> = Seq::empty();
    let ghost kids_all = tree.children@;
    let mut kids = tree.children;
    let mut i: usize = 0;
    let n = kids.len();
    assert(kids@.skip(0) =~= kids_all);
    while i < n
        invariant
            n == kids_all.len(),
            i <= n,
            kids@ == kids_all.skip(i as int),
            widgets.wf(),
            scene_tree_ok(widgets@),
            gen_live(widgets@, id.handle()),
            gen_value(widgets@, id.handle()).parent == parent,
            gen_value(widgets@, id.handle()).flag == tree.flag,
            gen_value(widgets@, id.handle()).mode == tree.mode,
            gen_value(widgets@, id.handle()).spatial_parent is None,
            gen_value(widgets@, id.handle()).children@.len() == i,
            kids_all == tree.children@,
            forall|h: VxGenIndex| #[trigger] gen_live(m0, h) ==> gen_live(m1, h),
            !gen_live(m0, id.handle()),
            forall|h: VxGenIndex|
                #[trigger] gen_live(m1, h) ==> {
                    &&& gen_live(widgets@, h)
                    &&& gen_value(widgets@, h).parent == gen_value(m1, h).parent
                    &&& gen_value(widgets@, h).flag == gen_value(m1, h).flag
                    &&& gen_value(widgets@, h).mode == gen_value(m1, h).mode
                    &&& gen_value(widgets@, h).spatial_parent == gen_value(m1, h).spatial_parent
                },
            forall|h: VxGenIndex|
                #[trigger] gen_live(m1, h) && h != id.handle() ==> gen_value(widgets@, h).children@ == gen_value(
                    m1,
                    h,
                ).children@,
            ins.len() >= 1,
            ins[0] == id,
            ins == seq![id] + below,
            forall|k: int| 1 <= k < ins.len() ==> #[trigger] hangs_under(widgets@, ins, k),
            forall|j: int|
                0 <= j < i ==> laid_out_as(
                    widgets@,
                    gen_value(widgets@, id.handle()).children@[j],
                    Some(id),
                    #[trigger] kids_all[j],
                    handles_of(below),
                ),
            forall|a: int, b: int| 0 <= a < b < ins.len() ==> (#[trigger] ins[a]).handle() != (#[trigger] ins[b]).handle(),
            forall|k: int|
                0 <= k < ins.len() ==> !gen_live(m0, (#[trigger] ins[k]).handle()) && gen_live(widgets@, ins[k].handle()),
            forall|k: int| 1 <= k < ins.len() ==> placed_in_index(widgets@, #[trigger] ins[k]),
            forall|h: VxGenIndex|
                #[trigger] gen_live(widgets@, h) ==> gen_live(m0, h) || exists|k: int|
                    0 <= k < ins.len() && (#[trigger] ins[k]).handle() == h,
            top_level@ == top1,
            top1 == top0 + (if parent is None {
                seq![id]
            } else {
                Seq::<VxWidgetId>::empty()
            }),
            immediate@ == imm0 + ids_where(widgets@, ins, is_immediate()),
            hierarchical@ == hier0 + ids_where(widgets@, ins, owns_index()),
        decreases n - i,
    {
        let child = kids.remove(0);
        proof {
            assert(child == kids_all[i as int]);
            assert(kids_all == tree.children@);
            assert(0 <= i < tree.children@.len());
            assert(decreases_to!(tree => tree.children));
            assert(decreases_to!(tree.children => tree.children@));
            assert(decreases_to!(tree.children@ => tree.children@[i as int]));
        }
        let ghost mb = widgets@;
        let (c, cins) = add_widget_tree(widgets, top_level, immediate, hierarchical, child, Some(id));
        proof {
            let ma = widgets@;
            let ci = cins@;
            assert forall|h: VxGenIndex| #[trigger] gen_live(m1, h) implies {
                &&& gen_live(ma, h)
                &&& gen_value(ma, h).parent == gen_value(m1, h).parent
                &&& gen_value(ma, h).flag == gen_value(m1, h).flag
                &&& gen_value(ma, h).mode == gen_value(m1, h).mode
                &&& gen_value(ma, h).spatial_parent == gen_value(m1, h).spatial_parent
            } by {
                assert(gen_live(mb, h));
            }
            assert(kids@ =~= kids_all.skip(i + 1));
            let ins2 = ins + ci;
            assert forall|k: int| 0 <= k < ins.len() implies #[trigger] is_immediate()(gen_value(ma, ins[k].handle()))
                == is_immediate()(gen_value(mb, ins[k].handle())) && owns_index()(gen_value(ma, ins[k].handle()))
                == owns_index()(gen_value(mb, ins[k].handle())) by {
                assert(gen_live(mb, ins[k].handle()));
            }
            lemma_ids_where_frame(mb, ma, ins, is_immediate());
            lemma_ids_where_frame(mb, ma, ins, owns_index());
            lemma_ids_where_add(ma, ins, ci, is_immediate());
            lemma_ids_where_add(ma, ins, ci, owns_index());
            assert(imm0 + ids_where(ma, ins, is_immediate()) + ids_where(ma, ci, is_immediate()) =~= imm0
                + ids_where(ma, ins2, is_immediate()));
            assert(hier0 + ids_where(ma, ins, owns_index()) + ids_where(ma, ci, owns_index()) =~= hier0
                + ids_where(ma, ins2, owns_index()));
            assert forall|a: int, b: int| 0 <= a < b < ins2.len() implies (#[trigger] ins2[a]).handle()
                != (#[trigger] ins2[b]).handle() by {
                if b >= ins.len() && a < ins.len() {
                    assert(ins2[a] == ins[a]);
                    assert(ins2[b] == ci[b - ins.len()]);
                    assert(gen_live(mb, ins[a].handle()));
                    assert(!gen_live(mb, ci[b - ins.len()].handle()));
                } else if a >= ins.len() {
                    assert(ins2[a] == ci[a - ins.len()]);
                    assert(ins2[b] == ci[b - ins.len()]);
                } else {
                    assert(ins2[a] == ins[a]);
                    assert(ins2[b] == ins[b]);
                }
            }
            assert forall|k: int| 0 <= k < ins2.len() implies !gen_live(m0, (#[trigger] ins2[k]).handle()) && gen_live(
                ma,
                ins2[k].handle(),
            ) by {
                if k < ins.len() {
                    assert(ins2[k] == ins[k]);
                    assert(gen_live(mb, ins[k].handle()));
                } else {
                    let x = ci[k - ins.len()];
                    assert(ins2[k] == x);
                    assert(!gen_live(mb, x.handle()));
                    assert(placed_in_index(ma, x));
                    if gen_live(m0, x.handle()) {
                        assert(gen_live(m1, x.handle()));
                    }
                }
            }
            assert forall|k: int| 1 <= k < ins2.len() implies placed_in_index(ma, #[trigger] ins2[k]) by {
                if k < ins.len() {
                    assert(ins2[k] == ins[k]);
                    assert forall|h: VxGenIndex| #[trigger] gen_live(mb, h) implies gen_live(ma, h) && gen_value(ma, h).parent
                        == gen_value(mb, h).parent && gen_value(ma, h).flag == gen_value(mb, h).flag && gen_value(
                        ma,
                        h,
                    ).spatial_parent == gen_value(mb, h).spatial_parent by {}
                    lemma_placed_grow(mb, ma, ins[k]);
                } else {
                    assert(ins2[k] == ci[k - ins.len()]);
                }
            }
            assert forall|h: VxGenIndex| #[trigger] gen_live(ma, h) implies gen_live(m0, h) || exists|k: int|
                0 <= k < ins2.len() && (#[trigger] ins2[k]).handle() == h by {
                if gen_live(mb, h) {
                    if !gen_live(m0, h) {
                        let k = choose|k: int| 0 <= k < ins.len() && (#[trigger] ins[k]).handle() == h;
                        assert(ins2[k] == ins[k]);
                    }
                } else {
                    let k = choose|k: int| 0 <= k < ci.len() && (#[trigger] ci[k]).handle() == h;
                    assert(ins2[k + ins.len()] == ci[k]);
                }
            }
            let below2 = below + ci;
            assert(ins2 =~= seq![id] + below2);
            assert forall|h: VxGenIndex| #[trigger] handles_of(below).contains(h) implies handles_of(below2).contains(h) by {
                let k = choose|k: int| 0 <= k < below.len() && below[k].handle() == h;
                assert(below2[k] == below[k]);
            }
            assert forall|h: VxGenIndex| #[trigger] handles_of(ci).contains(h) implies handles_of(below2).contains(h) by {
                let k = choose|k: int| 0 <= k < ci.len() && ci[k].handle() == h;
                assert(below2[k + below.len()] == ci[k]);
            }
            assert forall|h: VxGenIndex| #[trigger] handles_of(below).contains(h) && gen_live(mb, h) implies {
                &&& gen_live(ma, h)
                &&& gen_value(ma, h).parent == gen_value(mb, h).parent
                &&& gen_value(ma, h).flag == gen_value(mb, h).flag
                &&& gen_value(ma, h).mode == gen_value(mb, h).mode
                &&& gen_value(ma, h).children@ == gen_value(mb, h).children@
            } by {
                let k = choose|k: int| 0 <= k < below.len() && below[k].handle() == h;
                assert(ins[k + 1] == below[k]);
                assert(ins[0] == id);
                assert(ins[0].handle() != ins[k + 1].handle());
            }
            assert forall|j: int| 0 <= j < i + 1 implies laid_out_as(
                ma,
                gen_value(ma, id.handle()).children@[j],
                Some(id),
                #[trigger] kids_all[j],
                handles_of(below2),
            ) by {
                if j < i {
                    let cc = gen_value(mb, id.handle()).children@[j];
                    assert(gen_value(ma, id.handle()).children@[j] == cc);
                    assert(laid_out_as(mb, cc, Some(id), kids_all[j], handles_of(below)));
                    lemma_laid_out_frame(mb, ma, cc, Some(id), kids_all[j], handles_of(below));
                    lemma_laid_out_within(ma, cc, Some(id), kids_all[j], handles_of(below), handles_of(below2));
                } else {
                    assert(gen_value(ma, id.handle()).children@[j] == c);
                    lemma_laid_out_within(ma, c, Some(id), child, handles_of(ci), handles_of(below2));
                }
            }
            assert forall|k: int| 1 <= k < ins2.len() implies #[trigger] hangs_under(ma, ins2, k) by {
                if k < ins.len() {
                    assert(hangs_under(mb, ins, k));
                    let j = choose|j: int|
                        0 <= j < k && gen_value(mb, ins[k].handle()).parent == Some(ins[j]) && gen_value(
                            mb,
                            ins[j].handle(),
                        ).children@.contains(ins[k]);
                    assert(ins2[j] == ins[j] && ins2[k] == ins[k]);
                    assert(gen_live(mb, ins[k].handle()) && gen_live(mb, ins[j].handle()));
                    if ins[j].handle() == id.handle() {
                        let q = choose|q: int| 0 <= q < gen_value(mb, ins[j].handle()).children@.len() && gen_value(
                            mb,
                            ins[j].handle(),
                        ).children@[q] == ins[k];
                        assert(gen_value(ma, ins[j].handle()).children@[q] == ins[k]);
                    }
                    assert(gen_value(ma, ins2[j].handle()).children@.contains(ins2[k]));
                } else if k == ins.len() {
                    assert(ins2[k] == c);
                    assert(ins2[0] == id);
                    assert(gen_value(ma, c.handle()).parent == Some(id));
                    assert(gen_value(ma, id.handle()).children@[gen_value(ma, id.handle()).children@.len() - 1] == c);
                    assert(gen_value(ma, ins2[0].handle()).children@.contains(ins2[k]));
                } else {
                    let kk = k - ins.len();
                    assert(hangs_under(ma, ci, kk));
                    let j = choose|j: int|
                        0 <= j < kk && gen_value(ma, ci[kk].handle()).parent == Some(ci[j]) && gen_value(
                            ma,
                            ci[j].handle(),
                        ).children@.contains(ci[kk]);
                    assert(ins2[j + ins.len()] == ci[j] && ins2[k] == ci[kk]);
                    assert(gen_value(ma, ins2[j + ins.len()].handle()).children@.contains(ins2[k]));
                }
            }
            ins = ins2;
            below = below2;
        }
        i = i + 1;
    }
    proof {
        let mw = widgets@;
        let f = choose|fuel: nat| chain_within(mw, id, fuel);
        lemma_chain_spatial_root(mw, id, f);
    }
    let ghost mc = widgets@;
    place_in_spatial_index(widgets, id);
    proof {
        let md = widgets@;
        assert forall|h: VxGenIndex| #[trigger] gen_live(mc, h) implies gen_live(md, h) && gen_value(md, h).parent
            == gen_value(mc, h).parent && gen_value(md, h).flag == gen_value(mc, h).flag && gen_value(md, h).mode
            == gen_value(mc, h).mode by {
            if h.slot() == id.handle().slot() {
                assert(h.gen() == id.handle().gen());
                VxGenIndex::lemma_eq(h, id.handle());
                assert(h == id.handle());
                assert(gen_live(md, h));
                assert(gen_value(md, h).parent == gen_value(mc, h).parent);
                assert(gen_value(md, h).flag == gen_value(mc, h).flag);
                assert(gen_value(md, h).mode == gen_value(mc, h).mode);
            } else {
                assert(gen_live(md, h));
                assert(gen_value(md, h) == gen_value(mc, h));
            }
        }
        assert forall|h: VxGenIndex| #[trigger] gen_live(mc, h) && h != id.handle() implies gen_value(md, h).spatial_parent
            == gen_value(mc, h).spatial_parent by {
            if h.slot() == id.handle().slot() {
                assert(h.gen() == id.handle().gen());
                VxGenIndex::lemma_eq(h, id.handle());
            }
        }
        assert forall|h: VxGenIndex| gen_live(md, h) <==> #[trigger] gen_live(mc, h) by {
            if h.slot() == id.handle().slot() {
                VxGenIndex::lemma_eq(h, id.handle());
            }
        }
        lemma_tree_ok_frame(mc, md);
        if tree.flag == VxSpatialHierarchyFlag::HierarchyChild {
            assert(gen_value(mc, id.handle()).flag == VxSpatialHierarchyFlag::HierarchyChild);
            assert forall|fuel: nat| #[trigger] spatial_root(md, id, fuel) is Some implies spatial_root(md, id, fuel)
                == gen_value(md, id.handle()).spatial_parent by {
                lemma_spatial_root_frame(mc, md, id, fuel);
                assert(spatial_root(mc, id, fuel) is Some);
            }
        }
        assert(placed_in_index(md, id));
        assert forall|k: int| 0 <= k < ins.len() implies #[trigger] is_immediate()(gen_value(md, ins[k].handle()))
            == is_immediate()(gen_value(mc, ins[k].handle())) && owns_index()(gen_value(md, ins[k].handle()))
            == owns_index()(gen_value(mc, ins[k].handle())) by {
            assert(gen_live(mc, ins[k].handle()));
        }
        lemma_ids_where_frame(mc, md, ins, is_immediate());
        lemma_ids_where_frame(mc, md, ins, owns_index());
        assert forall|k: int| 0 <= k < ins.len() implies placed_in_index(md, #[trigger] ins[k]) by {
            if k == 0 {
            } else {
                assert(ins[0].handle() != ins[k].handle());
                assert forall|h: VxGenIndex| #[trigger] gen_live(mc, h) implies gen_live(md, h) && gen_value(md, h).parent
                    == gen_value(mc, h).parent && gen_value(md, h).flag == gen_value(mc, h).flag by {}
                assert forall|fuel: nat| #[trigger] spatial_root(md, ins[k], fuel) is Some implies spatial_root(
                    md,
                    ins[k],
                    fuel,
                ) == spatial_root(mc, ins[k], fuel) by {
                    lemma_spatial_root_grow(mc, md, ins[k], fuel);
                }
            }
        }
        assert forall|h: VxGenIndex| #[trigger] gen_live(m0, h) implies {
            &&& gen_live(md, h)
            &&& gen_value(md, h).parent == gen_value(m0, h).parent
            &&& gen_value(md, h).flag == gen_value(m0, h).flag
            &&& gen_value(md, h).mode == gen_value(m0, h).mode
            &&& gen_value(md, h).spatial_parent == gen_value(m0, h).spatial_parent
        } by {
            assert(h != id.handle());
            assert(gen_live(m1, h));
            assert(gen_live(mc, h));
        }
        assert forall|h: VxGenIndex|
            #[trigger] gen_live(m0, h) && (parent matches Some(p) ==> h != p.handle()) implies gen_value(md, h).children@
            == gen_value(m0, h).children@ by {
            assert(h != id.handle());
            assert(gen_live(m1, h));
            if h.slot() == id.handle().slot() {
                assert(!gen_live(m0, id.handle()));
                assert(gen_live(m1, id.handle()));
                assert(h.gen() == id.handle().gen());
                VxGenIndex::lemma_eq(h, id.handle());
            }
        }
        match parent {
            None => {},
            Some(p) => {
                assert(p.handle() != id.handle());
                assert(gen_live(m1, p.handle()));
                if p.handle().slot() == id.handle().slot() {
                    assert(p.handle().gen() == id.handle().gen());
                    VxGenIndex::lemma_eq(p.handle(), id.handle());
                }
            },
        }
        assert forall|h: VxGenIndex| #[trigger] handles_of(below).contains(h) && gen_live(mc, h) implies {
            &&& gen_live(md, h)
            &&& gen_value(md, h).parent == gen_value(mc, h).parent
            &&& gen_value(md, h).flag == gen_value(mc, h).flag
            &&& gen_value(md, h).mode == gen_value(mc, h).mode
            &&& gen_value(md, h).children@ == gen_value(mc, h).children@
        } by {
            let k = choose|k: int| 0 <= k < below.len() && below[k].handle() == h;
            assert(ins[k + 1] == below[k]);
            assert(ins[0].handle() != ins[k + 1].handle());
            if h.slot() == id.handle().slot() {
                assert(h.gen() == id.handle().gen());
                VxGenIndex::lemma_eq(h, id.handle());
            }
        }
        assert forall|h: VxGenIndex| #[trigger] handles_of(below).contains(h) implies handles_of(ins).contains(h) by {
            let k = choose|k: int| 0 <= k < below.len() && below[k].handle() == h;
            assert(ins[k + 1] == below[k]);
        }
        assert(ins[0] == id);
        assert(handles_of(ins).contains(id.handle()));
        assert forall|j: int| 0 <= j < tree.children@.len() implies laid_out_as(
            md,
            gen_value(md, id.handle()).children@[j],
            Some(id),
            #[trigger] tree.children@[j],
            handles_of(ins),
        ) by {
            let cc = gen_value(mc, id.handle()).children@[j];
            assert(kids_all[j] == tree.children@[j]);
            assert(laid_out_as(mc, cc, Some(id), kids_all[j], handles_of(below)));
            lemma_laid_out_frame(mc, md, cc, Some(id), kids_all[j], handles_of(below));
            lemma_laid_out_within(md, cc, Some(id), kids_all[j], handles_of(below), handles_of(ins));
        }
        assert(laid_out_as(md, id, parent, tree, handles_of(ins)));
        assert forall|k: int| 1 <= k < ins.len() implies #[trigger] hangs_under(md, ins, k) by {
            assert(hangs_under(mc, ins, k));
            let j = choose|j: int|
                0 <= j < k && gen_value(mc, ins[k].handle()).parent == Some(ins[j]) && gen_value(
                    mc,
                    ins[j].handle(),
                ).children@.contains(ins[k]);
            assert(gen_live(mc, ins[k].handle()) && gen_live(mc, ins[j].handle()));
            assert(gen_value(md, ins[j].handle()).children@ == gen_value(mc, ins[j].handle()).children@);
        }
        assert forall|h: VxGenIndex| #[trigger] gen_live(md, h) ==> gen_live(m0, h) || exists|k: int|
            0 <= k < ins.len() && (#[trigger] ins[k]).handle() == h by {
            if gen_live(md, h) {
                assert(gen_live(mc, h));
            }
            if gen_live(m0, h) {
                assert(gen_live(m1, h));
                assert(gen_live(mc, h));
            }
            if exists|k: int| 0 <= k < ins.len() && (#[trigger] ins[k]).handle() == h {
                let k = choose|k: int| 0 <= k < ins.len() && (#[trigger] ins[k]).handle() == h;
                assert(gen_live(mc, ins[k].handle()));
            }
        }
    }
    (id, Ghost(ins))
}

} // verus!
