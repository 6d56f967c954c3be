use qd_varallax::abstractions::abstract_widgets::{
    dirty_targets, VxDirtyFlag, VxSpatialHierarchyFlag, VxWidgetId,
};
use qd_varallax::vx_core::dirty_queue::VxDirtyQueue;
use qd_varallax::abstractions::abstract_windows::{decide_redraw, update_plan, VxRedrawDecision};
use qd_varallax::types::gen_vector::{VxGenIndex, VxGenVector};
use qd_varallax::types::render_commands::{VxDirtyCheckResult, VxRenderMode};
use qd_varallax::abstractions::abstract_windows::{close_window, update_step};
use qd_varallax::vx_core::scene::{
    add_widget, add_widget_tree, check_dirty, find_spatial_index, hover_change, mouse_move_event, mouse_press_event,
    mouse_release_event, plan_dirty_check,
    register_widget, send_event_to_widget, spatial_parent_of, spatial_update_for, spatial_updates, topmost_hit,
    VxSpatialUpdateFlag,
    VxWidgetNode, VxWidgetTree,
};
use qd_varallax::vx_core::vx_event::VxEventResult;

fn ids(n: usize) -> Vec<VxWidgetId> {
    let mut v: VxGenVector<()> = VxGenVector::new();
    (0..n).map(|_| VxWidgetId::new(v.insert(()))).collect()
}

#[test]
fn dirty_flag_bits() {
    assert_eq!(VxDirtyFlag::clean().bits(), 0);
    assert_eq!(VxDirtyFlag::repaint().bits(), 1);
    assert_eq!(VxDirtyFlag::layout().bits(), 2);
    assert_eq!(VxDirtyFlag::rebuild_all().bits(), 3);
    assert!(VxDirtyFlag::clean().is_empty());
    let u = VxDirtyFlag::repaint().union(VxDirtyFlag::layout());
    assert_eq!(u, VxDirtyFlag::rebuild_all());
    assert!(u.contains(VxDirtyFlag::layout()));
    assert!(!VxDirtyFlag::repaint().contains(VxDirtyFlag::layout()));
    let mut f = VxDirtyFlag::clean();
    f.insert(VxDirtyFlag::layout());
    assert_eq!(f.bits(), 2);
    assert_eq!(VxDirtyFlag::from_bits_retain(8).bits(), 8);
}

#[test]
fn widget_id_wraps_its_handle() {
    let id = VxWidgetId::new(VxGenIndex::default());
    assert_eq!(id.id(), VxGenIndex::default());
    assert_eq!(VxSpatialHierarchyFlag::default(), VxSpatialHierarchyFlag::Flat);
}

#[test]
fn dirty_marks_reach_children_only_for_layout() {
    let w = ids(3);
    let children = vec![w[1], w[2]];
    assert_eq!(dirty_targets(false, Some(w[0]), true, &children, VxDirtyFlag::repaint()), vec![w[0]]);
    assert_eq!(dirty_targets(false, Some(w[0]), true, &children, VxDirtyFlag::layout()), vec![w[0], w[1], w[2]]);
    assert_eq!(
        dirty_targets(false, Some(w[0]), true, &children, VxDirtyFlag::rebuild_all()),
        vec![w[0], w[1], w[2]]
    );
}

#[test]
fn dirty_marks_blocked_or_detached_reach_nothing() {
    let w = ids(2);
    let children = vec![w[1]];
    assert!(dirty_targets(true, Some(w[0]), true, &children, VxDirtyFlag::layout()).is_empty());
    assert!(dirty_targets(false, None, true, &children, VxDirtyFlag::layout()).is_empty());
    assert!(dirty_targets(false, Some(w[0]), false, &children, VxDirtyFlag::layout()).is_empty());
}

#[test]
fn dirty_queue_merges_marks_of_one_widget() {
    let w = ids(2);
    let mut q = VxDirtyQueue::new();
    q.mark_dirty(w[0], VxDirtyFlag::repaint());
    q.mark_dirty(w[1], VxDirtyFlag::repaint());
    q.mark_dirty(w[0], VxDirtyFlag::layout());
    let taken = q.take();
    assert_eq!(taken.len(), 2);
    assert!(taken.contains(&(w[0], VxDirtyFlag::rebuild_all())));
    assert!(taken.contains(&(w[1], VxDirtyFlag::repaint())));
    assert!(q.take().is_empty());
}

#[test]
fn dirty_queue_marks_accumulate_bits() {
    let w = ids(1);
    let mut q = VxDirtyQueue::new();
    q.mark_dirty(w[0], VxDirtyFlag::clean());
    q.mark_dirty(w[0], VxDirtyFlag::from_bits_retain(4));
    q.mark_dirty(w[0], VxDirtyFlag::repaint());
    assert_eq!(q.take(), vec![(w[0], VxDirtyFlag::from_bits_retain(5))]);
}

#[test]
fn dirty_marks_of_different_widgets_commute() {
    let w = ids(2);
    let mut q1 = VxDirtyQueue::new();
    q1.mark_dirty(w[0], VxDirtyFlag::layout());
    q1.mark_dirty(w[1], VxDirtyFlag::repaint());
    let mut q2 = VxDirtyQueue::new();
    q2.mark_dirty(w[1], VxDirtyFlag::repaint());
    q2.mark_dirty(w[0], VxDirtyFlag::layout());
    let mut a = q1.take();
    let mut b = q2.take();
    a.sort_by_key(|(id, _)| id.id().raw_index());
    b.sort_by_key(|(id, _)| id.id().raw_index());
    assert_eq!(a, b);
}

#[test]
fn dirty_check_layout_asks_for_everything() {
    let w = ids(3);
    let entries = vec![
        (w[0], VxDirtyFlag::repaint(), Some(VxRenderMode::Retained)),
        (w[1], VxDirtyFlag::layout(), Some(VxRenderMode::Retained)),
        (w[2], VxDirtyFlag::rebuild_all(), None),
    ];
    let (result, relayout) = plan_dirty_check(&entries, false);
    assert_eq!(result, VxDirtyCheckResult::All);
    assert_eq!(relayout, vec![w[1]]);
}

#[test]
fn dirty_check_immediate_widgets_only() {
    let w = ids(2);
    let entries = vec![
        (w[0], VxDirtyFlag::clean(), Some(VxRenderMode::Retained)),
        (w[1], VxDirtyFlag::from_bits_retain(4), Some(VxRenderMode::Immediate)),
    ];
    assert_eq!(plan_dirty_check(&entries, false), (VxDirtyCheckResult::OnlyImmediate, vec![]));
    assert_eq!(plan_dirty_check(&vec![], true), (VxDirtyCheckResult::OnlyImmediate, vec![]));
    let mixed = vec![(w[0], VxDirtyFlag::from_bits_retain(5), Some(VxRenderMode::Retained))];
    assert_eq!(plan_dirty_check(&mixed, false), (VxDirtyCheckResult::Clean, vec![]));
    assert_eq!(plan_dirty_check(&vec![], false), (VxDirtyCheckResult::Clean, vec![]));
}

#[test]
fn topmost_hit_prefers_depth_then_the_last() {
    let w = ids(4);
    assert_eq!(topmost_hit(&vec![]), None);
    assert_eq!(topmost_hit(&vec![(1, w[0]), (3, w[1]), (2, w[2])]), Some(w[1]));
    assert_eq!(topmost_hit(&vec![(3, w[0]), (3, w[1]), (-1, w[2]), (3, w[3])]), Some(w[3]));
}

#[test]
fn hover_change_sends_leave_and_enter() {
    let w = ids(2);
    assert_eq!(hover_change(Some(w[0]), Some(w[0])), (None, None));
    assert_eq!(hover_change(Some(w[0]), Some(w[1])), (Some(w[0]), Some(w[1])));
    assert_eq!(hover_change(None, Some(w[1])), (None, Some(w[1])));
    assert_eq!(hover_change(Some(w[0]), None), (Some(w[0]), None));
}

#[test]
fn window_redraw_decisions() {
    assert_eq!(
        decide_redraw(VxDirtyCheckResult::Clean, false),
        VxRedrawDecision { redraw: false, next_update_mode: None, is_dirty: false }
    );
    assert_eq!(
        decide_redraw(VxDirtyCheckResult::OnlyImmediate, false),
        VxRedrawDecision { redraw: true, next_update_mode: Some(VxDirtyCheckResult::OnlyImmediate), is_dirty: false }
    );
    assert_eq!(
        decide_redraw(VxDirtyCheckResult::Clean, true),
        VxRedrawDecision { redraw: true, next_update_mode: Some(VxDirtyCheckResult::All), is_dirty: false }
    );
}

#[test]
fn frame_update_plans() {
    assert_eq!(update_plan(VxDirtyCheckResult::All), Some((true, VxRenderMode::Retained)));
    assert_eq!(update_plan(VxDirtyCheckResult::OnlyImmediate), Some((false, VxRenderMode::Immediate)));
    assert_eq!(update_plan(VxDirtyCheckResult::Clean), None);
}

fn node(parent: Option<VxWidgetId>, flag: VxSpatialHierarchyFlag) -> VxWidgetNode {
    VxWidgetNode { parent, flag, mode: VxRenderMode::Retained, children: Vec::new(), spatial_parent: None }
}

fn tree() -> (VxGenVector<VxWidgetNode>, Vec<VxWidgetId>) {
    let mut t: VxGenVector<VxWidgetNode> = VxGenVector::new();
    let root = VxWidgetId::new(t.insert(node(None, VxSpatialHierarchyFlag::Flat)));
    let panel = VxWidgetId::new(t.insert(node(Some(root), VxSpatialHierarchyFlag::HierarchyParent)));
    let group = VxWidgetId::new(t.insert(node(Some(panel), VxSpatialHierarchyFlag::HierarchyChild)));
    let leaf = VxWidgetId::new(t.insert(node(Some(group), VxSpatialHierarchyFlag::HierarchyChild)));
    (t, vec![root, panel, group, leaf])
}

#[test]
fn spatial_index_is_the_nearest_hierarchy_parent() {
    let (t, w) = tree();
    assert_eq!(find_spatial_index(&t, w[3]), w[1]);
    assert_eq!(find_spatial_index(&t, w[2]), w[1]);
    assert_eq!(find_spatial_index(&t, w[1]), w[0]);
    assert_eq!(find_spatial_index(&t, w[0]), w[0]);
    assert_eq!(spatial_parent_of(&t, w[3], VxSpatialHierarchyFlag::HierarchyChild), Some(w[1]));
    assert_eq!(spatial_parent_of(&t, w[1], VxSpatialHierarchyFlag::HierarchyParent), Some(w[1]));
    assert_eq!(spatial_parent_of(&t, w[0], VxSpatialHierarchyFlag::Flat), None);
}

#[test]
fn spatial_index_walk_stops_at_a_removed_parent() {
    let (mut t, w) = tree();
    t.remove(w[1].id());
    assert_eq!(find_spatial_index(&t, w[3]), w[2]);
}

#[test]
fn registration_lists() {
    let w = ids(2);
    let mut top = Vec::new();
    let mut imm = Vec::new();
    let mut hier = Vec::new();
    register_widget(w[0], None, VxRenderMode::Immediate, VxSpatialHierarchyFlag::Flat, &mut top, &mut imm, &mut hier);
    register_widget(w[1], Some(w[0]), VxRenderMode::Retained, VxSpatialHierarchyFlag::HierarchyParent, &mut top, &mut imm, &mut hier);
    assert_eq!(top, vec![w[0]]);
    assert_eq!(imm, vec![w[0]]);
    assert_eq!(hier, vec![w[1]]);
}

#[test]
fn events_bubble_up_to_the_first_accepting_widget() {
    let (t, w) = tree();
    let panel = w[1];
    let accept_at_panel = move |id: VxWidgetId| if id == panel { VxEventResult::Accept } else { VxEventResult::Ignore };
    assert_eq!(send_event_to_widget(&t, Some(w[3]), &accept_at_panel), VxEventResult::Accept);
    assert_eq!(send_event_to_widget(&t, Some(w[0]), &accept_at_panel), VxEventResult::Ignore);
    assert_eq!(send_event_to_widget(&t, None, &accept_at_panel), VxEventResult::Ignore);
    let seen = std::cell::RefCell::new(Vec::new());
    let record = |id: VxWidgetId| {
        seen.borrow_mut().push(id);
        if id == panel { VxEventResult::Accept } else { VxEventResult::Ignore }
    };
    send_event_to_widget(&t, Some(w[3]), &record);
    assert_eq!(*seen.borrow(), vec![w[3], w[2], w[1]]);
}

#[test]
fn events_reach_an_accepting_widget_on_a_loop_of_parents() {
    let mut t: VxGenVector<VxWidgetNode> = VxGenVector::new();
    let a = VxWidgetId::new(t.insert(node(None, VxSpatialHierarchyFlag::Flat)));
    let b = VxWidgetId::new(t.insert(node(Some(a), VxSpatialHierarchyFlag::Flat)));
    t.get_mut(a.id()).unwrap().parent = Some(b);
    let accept_at_a = move |id: VxWidgetId| if id == a { VxEventResult::Accept } else { VxEventResult::Ignore };
    assert_eq!(send_event_to_widget(&t, Some(b), &accept_at_a), VxEventResult::Accept);
}

#[test]
fn dirty_check_of_a_scene_pairs_marks_with_modes() {
    let mut t: VxGenVector<VxWidgetNode> = VxGenVector::new();
    let mut top = Vec::new();
    let mut imm = Vec::new();
    let mut hier = Vec::new();
    let a = add_widget(&mut t, &mut top, &mut imm, &mut hier, None, VxRenderMode::Retained, VxSpatialHierarchyFlag::Flat);
    let b = add_widget(&mut t, &mut top, &mut imm, &mut hier, Some(a), VxRenderMode::Immediate, VxSpatialHierarchyFlag::Flat);
    let mut q = VxDirtyQueue::new();
    q.mark_dirty(b, VxDirtyFlag::from_bits_retain(4));
    assert_eq!(check_dirty(&mut q, &t, &vec![]), (VxDirtyCheckResult::OnlyImmediate, vec![]));
    q.mark_dirty(a, VxDirtyFlag::layout());
    assert_eq!(check_dirty(&mut q, &t, &imm), (VxDirtyCheckResult::All, vec![a]));
    assert_eq!(check_dirty(&mut q, &t, &vec![]), (VxDirtyCheckResult::Clean, vec![]));
}

#[test]
fn relaid_out_widgets_refresh_their_spatial_index() {
    let w = ids(1);
    assert_eq!(spatial_update_for(VxSpatialHierarchyFlag::Flat, None, false), Some(VxSpatialUpdateFlag::Flat));
    assert_eq!(spatial_update_for(VxSpatialHierarchyFlag::HierarchyParent, Some(w[0]), true), Some(VxSpatialUpdateFlag::Flat));
    assert!(spatial_update_for(VxSpatialHierarchyFlag::HierarchyChild, Some(w[0]), true) == Some(VxSpatialUpdateFlag::Hierarchical(w[0])));
    assert_eq!(spatial_update_for(VxSpatialHierarchyFlag::HierarchyChild, Some(w[0]), false), None);
    assert_eq!(spatial_update_for(VxSpatialHierarchyFlag::HierarchyChild, None, true), None);
}

#[test]
fn frame_and_hover_steps() {
    let w = ids(2);
    assert_eq!(update_step(VxDirtyCheckResult::All), (Some((true, VxRenderMode::Retained)), VxDirtyCheckResult::Clean));
    assert_eq!(update_step(VxDirtyCheckResult::Clean), (None, VxDirtyCheckResult::Clean));
    assert_eq!(hover_change(Some(w[0]), Some(w[1])), (Some(w[0]), Some(w[1])));
    assert_eq!(hover_change(Some(w[0]), Some(w[0])), (None, None));
}

#[test]
fn the_last_window_closing_exits() {
    let mut windows = std::collections::HashMap::new();
    windows.insert(1u64, "main");
    windows.insert(2u64, "tool");
    assert!(!close_window(&mut windows, 2));
    assert!(!close_window(&mut windows, 7));
    assert!(close_window(&mut windows, 1));
}

#[test]
fn widget_trees_are_registered_with_links_and_spatial_indexes() {
    let mut t: VxGenVector<VxWidgetNode> = VxGenVector::new();
    let mut top = Vec::new();
    let mut imm = Vec::new();
    let mut hier = Vec::new();
    let leaf = VxWidgetTree { mode: VxRenderMode::Immediate, flag: VxSpatialHierarchyFlag::HierarchyChild, children: vec![] };
    let mid = VxWidgetTree { mode: VxRenderMode::Retained, flag: VxSpatialHierarchyFlag::HierarchyChild, children: vec![leaf] };
    let other = VxWidgetTree { mode: VxRenderMode::Retained, flag: VxSpatialHierarchyFlag::Flat, children: vec![] };
    let root = VxWidgetTree { mode: VxRenderMode::Retained, flag: VxSpatialHierarchyFlag::HierarchyParent, children: vec![mid, other] };
    let (r, _) = add_widget_tree(&mut t, &mut top, &mut imm, &mut hier, root, None);
    assert_eq!(top, vec![r]);
    let rn = t.get(r.id()).unwrap();
    assert_eq!(rn.spatial_parent, Some(r));
    assert_eq!(rn.children.len(), 2);
    let m = rn.children[0];
    let mn = t.get(m.id()).unwrap();
    assert_eq!(mn.parent, Some(r));
    assert_eq!(mn.spatial_parent, Some(r));
    let l = mn.children[0];
    assert_eq!(t.get(l.id()).unwrap().spatial_parent, Some(r));
    assert_eq!(imm, vec![l]);
    assert_eq!(t.get(rn.children[1].id()).unwrap().spatial_parent, None);
    assert_eq!(hier, vec![r]);
    assert_eq!(t.len(), 4);
}

#[test]
fn a_child_tree_registers_in_preorder_under_its_parent() {
    let mut t: VxGenVector<VxWidgetNode> = VxGenVector::new();
    let mut top = Vec::new();
    let mut imm = Vec::new();
    let mut hier = Vec::new();
    let base = VxWidgetTree { mode: VxRenderMode::Retained, flag: VxSpatialHierarchyFlag::Flat, children: vec![] };
    let (b, _) = add_widget_tree(&mut t, &mut top, &mut imm, &mut hier, base, None);
    let leaf = |mode| VxWidgetTree { mode, flag: VxSpatialHierarchyFlag::HierarchyChild, children: vec![] };
    let inner = VxWidgetTree {
        mode: VxRenderMode::Immediate,
        flag: VxSpatialHierarchyFlag::HierarchyParent,
        children: vec![leaf(VxRenderMode::Immediate)],
    };
    let sub = VxWidgetTree {
        mode: VxRenderMode::Immediate,
        flag: VxSpatialHierarchyFlag::HierarchyParent,
        children: vec![inner, leaf(VxRenderMode::Immediate)],
    };
    let (s, _) = add_widget_tree(&mut t, &mut top, &mut imm, &mut hier, sub, Some(b));
    assert_eq!(top, vec![b]);
    let sn = t.get(s.id()).unwrap();
    assert_eq!(sn.parent, Some(b));
    assert_eq!(t.get(b.id()).unwrap().children, vec![s]);
    let i = sn.children[0];
    let inner_leaf = t.get(i.id()).unwrap().children[0];
    let outer_leaf = sn.children[1];
    assert_eq!(imm, vec![s, i, inner_leaf, outer_leaf]);
    assert_eq!(hier, vec![s, i]);
    assert_eq!(t.get(inner_leaf.id()).unwrap().spatial_parent, Some(i));
    assert_eq!(t.get(outer_leaf.id()).unwrap().spatial_parent, Some(s));
    assert_eq!(t.len(), 5);
}

#[test]
fn a_mouse_move_leaves_enters_then_moves() {
    let (t, w) = tree();
    let log = std::cell::RefCell::new(Vec::new());
    let panel = w[1];
    let leave = |id: VxWidgetId| {
        log.borrow_mut().push(("leave", id));
        VxEventResult::Ignore
    };
    let enter = |id: VxWidgetId| {
        log.borrow_mut().push(("enter", id));
        if id == panel { VxEventResult::Accept } else { VxEventResult::Ignore }
    };
    let on_move = |id: VxWidgetId| {
        log.borrow_mut().push(("move", id));
        if id == panel { VxEventResult::Accept } else { VxEventResult::Ignore }
    };
    let mut hovered = Some(w[1]);
    assert_eq!(mouse_move_event(&t, &mut hovered, Some(w[2]), &leave, &enter, &on_move), VxEventResult::Accept);
    assert_eq!(hovered, Some(w[2]));
    assert_eq!(
        *log.borrow(),
        vec![("leave", w[1]), ("leave", w[0]), ("enter", w[2]), ("enter", w[1]), ("move", w[2]), ("move", w[1])]
    );
    log.borrow_mut().clear();
    assert_eq!(mouse_move_event(&t, &mut hovered, Some(w[2]), &leave, &enter, &on_move), VxEventResult::Accept);
    assert_eq!(*log.borrow(), vec![("move", w[2]), ("move", w[1])]);
    log.borrow_mut().clear();
    assert_eq!(mouse_move_event(&t, &mut hovered, None, &leave, &enter, &on_move), VxEventResult::Ignore);
    assert_eq!(hovered, None);
    assert_eq!(*log.borrow(), vec![("leave", w[2]), ("leave", w[1]), ("leave", w[0])]);
}

#[test]
fn each_spatial_index_to_refresh_comes_once() {
    let mut t: VxGenVector<VxWidgetNode> = VxGenVector::new();
    let mut top = Vec::new();
    let mut imm = Vec::new();
    let mut hier = Vec::new();
    let leaf = VxWidgetTree { mode: VxRenderMode::Retained, flag: VxSpatialHierarchyFlag::HierarchyChild, children: vec![] };
    let mid = VxWidgetTree { mode: VxRenderMode::Retained, flag: VxSpatialHierarchyFlag::HierarchyChild, children: vec![leaf] };
    let other = VxWidgetTree { mode: VxRenderMode::Retained, flag: VxSpatialHierarchyFlag::Flat, children: vec![] };
    let root = VxWidgetTree { mode: VxRenderMode::Retained, flag: VxSpatialHierarchyFlag::HierarchyParent, children: vec![mid, other] };
    let (r, _) = add_widget_tree(&mut t, &mut top, &mut imm, &mut hier, root, None);
    let rn = t.get(r.id()).unwrap();
    let m = rn.children[0];
    let o = rn.children[1];
    let l = t.get(m.id()).unwrap().children[0];
    let ups = spatial_updates(&t, &vec![m, l, o, r], &hier);
    assert_eq!(ups.len(), 2);
    assert!(ups[0] == VxSpatialUpdateFlag::Hierarchical(r));
    assert!(ups[1] == VxSpatialUpdateFlag::Flat);
    assert!(spatial_updates(&t, &vec![m, l], &vec![]).is_empty());
    t.remove(o.id());
    assert!(spatial_updates(&t, &vec![o], &hier).is_empty());
}

#[test]
fn a_press_selects_the_hit_widget_and_bubbles() {
    let (t, w) = tree();
    let panel = w[1];
    let accept_at_panel = move |id: VxWidgetId| if id == panel { VxEventResult::Accept } else { VxEventResult::Ignore };
    let mut selected = None;
    assert_eq!(mouse_press_event(&t, &mut selected, Some(w[3]), &accept_at_panel), VxEventResult::Accept);
    assert_eq!(selected, Some(w[3]));
    assert_eq!(mouse_release_event(&t, &mut selected, Some(w[0]), &accept_at_panel), VxEventResult::Ignore);
    assert_eq!(selected, Some(w[0]));
    assert_eq!(mouse_release_event(&t, &mut selected, None, &accept_at_panel), VxEventResult::Ignore);
    assert_eq!(selected, None);
}
