use qd_varallax::types::render_commands::{
    VxDrawLine, VxDrawLineContainer, VxModuleId, VxRenderMode, VxVertexContainer, VxVertexZValue,
};
use qd_varallax::vx_core::renderer::{
    batch_draw_lines, pack_vertex_containers, plan_draw_batches, stable_sort_by_key,
};

fn line(module: VxModuleId, start: u32, count: u32, z: i32, mode: VxRenderMode) -> VxDrawLine {
    VxDrawLine::new(module, start, count, z, mode)
}

fn shape(lines: &[VxDrawLine]) -> Vec<(u8, u32, u32, i32, VxRenderMode)> {
    lines
        .iter()
        .map(|l| (l.module_id(), l.start(), l.count(), l.z_value(), l.render_mode()))
        .collect()
}

#[test]
fn draw_line_getters_and_setters() {
    let mut l = line(VxModuleId::TextModule, 6, 12, -3, VxRenderMode::Immediate);
    assert_eq!(l.module(), VxModuleId::TextModule);
    assert_eq!(l.module_id(), 3);
    assert_eq!(l.start(), 6);
    assert_eq!(l.count(), 12);
    assert_eq!(l.z_value(), -3);
    assert_eq!(l.render_mode(), VxRenderMode::Immediate);
    l.set_index_start(1);
    l.set_index_count(2);
    assert_eq!((l.start(), l.count()), (1, 2));
}

#[test]
fn module_numbers() {
    assert_eq!(line(VxModuleId::VertexModule, 0, 0, 0, VxRenderMode::Retained).module_id(), 0);
    assert_eq!(line(VxModuleId::SdfModule, 0, 0, 0, VxRenderMode::Retained).module_id(), 1);
    assert_eq!(line(VxModuleId::TextureModule, 0, 0, 0, VxRenderMode::Retained).module_id(), 2);
}

#[test]
fn render_mode_default_is_retained() {
    assert_eq!(VxRenderMode::default(), VxRenderMode::Retained);
    assert_eq!(VxVertexZValue::default(), VxVertexZValue::Disable);
    assert_eq!(VxVertexZValue::Disable.z_value(), 0);
    assert_eq!(VxVertexZValue::Enable { z: 5 }.z_value(), 5);
}

#[test]
fn draw_line_container_push_take_and_sorted_flag() {
    let mut c = VxDrawLineContainer::new();
    assert!(!c.is_sorted());
    c.set_sorted(true);
    assert!(c.is_sorted());
    c.push(line(VxModuleId::SdfModule, 0, 3, 1, VxRenderMode::Retained));
    assert!(!c.is_sorted());
    assert_eq!(c.draw_lines().len(), 1);
    c.draw_lines_mut()[0].set_index_count(9);
    let taken = c.draw_lines_take();
    assert_eq!(taken[0].count(), 9);
    assert!(c.draw_lines().is_empty());
}

#[test]
fn stable_sort_orders_by_depth_then_module_keeping_ties_in_order() {
    let v = vec![
        line(VxModuleId::TextModule, 0, 1, 2, VxRenderMode::Retained),
        line(VxModuleId::VertexModule, 1, 1, 2, VxRenderMode::Retained),
        line(VxModuleId::SdfModule, 2, 1, 1, VxRenderMode::Retained),
        line(VxModuleId::VertexModule, 3, 1, 2, VxRenderMode::Retained),
        line(VxModuleId::SdfModule, 4, 1, -1, VxRenderMode::Retained),
    ];
    let s = stable_sort_by_key(v);
    let starts: Vec<u32> = s.iter().map(|l| l.start()).collect();
    assert_eq!(starts, vec![4, 2, 1, 3, 0]);
}

#[test]
fn batching_merges_consecutive_lines_of_one_module_and_mode() {
    let v = vec![
        line(VxModuleId::VertexModule, 0, 3, 0, VxRenderMode::Retained),
        line(VxModuleId::VertexModule, 3, 6, 1, VxRenderMode::Retained),
        line(VxModuleId::SdfModule, 0, 6, 1, VxRenderMode::Retained),
        line(VxModuleId::VertexModule, 9, 3, 2, VxRenderMode::Retained),
        line(VxModuleId::VertexModule, 0, 3, 2, VxRenderMode::Immediate),
    ];
    let b = batch_draw_lines(v);
    assert_eq!(
        shape(&b),
        vec![
            (0, 0, 9, 0, VxRenderMode::Retained),
            (1, 0, 6, 1, VxRenderMode::Retained),
            (0, 9, 3, 2, VxRenderMode::Retained),
            (0, 0, 3, 2, VxRenderMode::Immediate),
        ]
    );
}

#[test]
fn batching_nothing_gives_nothing() {
    assert!(batch_draw_lines(Vec::new()).is_empty());
}

#[test]
fn frame_plan_sorts_merges_and_empties_immediate_lines() {
    let mut retained = VxDrawLineContainer::new();
    retained.push(line(VxModuleId::TextModule, 0, 6, 1, VxRenderMode::Retained));
    retained.push(line(VxModuleId::VertexModule, 0, 3, 0, VxRenderMode::Retained));
    retained.push(line(VxModuleId::VertexModule, 3, 3, 0, VxRenderMode::Retained));
    let mut immediate = VxDrawLineContainer::new();
    immediate.push(line(VxModuleId::VertexModule, 0, 3, 0, VxRenderMode::Immediate));
    immediate.push(line(VxModuleId::VertexModule, 3, 3, 0, VxRenderMode::Immediate));
    let plan = plan_draw_batches(&retained, &mut immediate);
    assert_eq!(
        shape(&plan),
        vec![
            (0, 0, 6, 0, VxRenderMode::Retained),
            (0, 0, 6, 0, VxRenderMode::Immediate),
            (3, 0, 6, 1, VxRenderMode::Retained),
        ]
    );
    assert!(immediate.draw_lines().is_empty());
    assert_eq!(retained.draw_lines().len(), 3);
}

#[test]
fn vertex_container_takes_its_buffers() {
    let mut c: VxVertexContainer<u8> = VxVertexContainer::new(vec![1, 2, 3], vec![0, 1, 2]);
    assert!(!c.is_z_enable());
    assert_eq!(c.z_value(), 0);
    c.set_z_value(4);
    assert!(c.is_z_enable());
    assert_eq!(c.z_value(), 4);
    assert_eq!(c.verts(), vec![1, 2, 3]);
    assert!(c.verts().is_empty());
    assert_eq!(c.index(), vec![0, 1, 2]);
    assert!(c.index().is_empty());
}

#[test]
fn packing_sorts_by_depth_and_moves_indices() {
    let mut a: VxVertexContainer<char> = VxVertexContainer::new(vec!['a', 'b', 'c'], vec![0, 1, 2]);
    a.set_z_value(2);
    let mut b: VxVertexContainer<char> = VxVertexContainer::new(vec!['d', 'e'], vec![1, 0, 1]);
    b.set_z_value(1);
    let mut c: VxVertexContainer<char> = VxVertexContainer::new(vec!['f'], vec![0]);
    c.set_z_value(2);
    let mut lines = VxDrawLineContainer::new();
    lines.set_sorted(true);
    let (verts, index) = pack_vertex_containers(VxModuleId::SdfModule, VxRenderMode::Immediate, vec![a, b, c], &mut lines);
    assert_eq!(verts, vec!['d', 'e', 'a', 'b', 'c', 'f']);
    assert_eq!(index, vec![1, 0, 1, 2, 3, 4, 5]);
    assert_eq!(
        shape(lines.draw_lines()),
        vec![
            (1, 0, 3, 1, VxRenderMode::Immediate),
            (1, 3, 3, 2, VxRenderMode::Immediate),
            (1, 6, 1, 2, VxRenderMode::Immediate),
        ]
    );
    assert!(!lines.is_sorted());
}

#[test]
fn packing_no_batch_leaves_lines_alone() {
    let mut lines = VxDrawLineContainer::new();
    lines.set_sorted(true);
    let (verts, index) = pack_vertex_containers::<u8>(VxModuleId::VertexModule, VxRenderMode::Retained, Vec::new(), &mut lines);
    assert!(verts.is_empty());
    assert!(index.is_empty());
    assert!(lines.is_sorted());
    assert!(lines.draw_lines().is_empty());
}

#[test]
fn sorting_sorted_lines_changes_nothing() {
    let v = vec![
        line(VxModuleId::VertexModule, 0, 1, -1, VxRenderMode::Retained),
        line(VxModuleId::SdfModule, 1, 1, -1, VxRenderMode::Retained),
        line(VxModuleId::SdfModule, 2, 1, -1, VxRenderMode::Immediate),
        line(VxModuleId::VertexModule, 3, 1, 0, VxRenderMode::Retained),
    ];
    let before = shape(&v);
    let once = stable_sort_by_key(v);
    assert_eq!(shape(&once), before);
}

#[test]
fn batching_twice_is_batching_once_and_keeps_the_count() {
    let v = vec![
        line(VxModuleId::VertexModule, 0, 3, 0, VxRenderMode::Retained),
        line(VxModuleId::VertexModule, 3, 3, 0, VxRenderMode::Retained),
        line(VxModuleId::TextModule, 0, 6, 0, VxRenderMode::Retained),
        line(VxModuleId::TextModule, 6, 6, 0, VxRenderMode::Retained),
        line(VxModuleId::VertexModule, 6, 3, 0, VxRenderMode::Retained),
    ];
    let total: u32 = v.iter().map(|l| l.count()).sum();
    let once = batch_draw_lines(v);
    let once_shape = shape(&once);
    assert_eq!(once.iter().map(|l| l.count()).sum::<u32>(), total);
    for w in once.windows(2) {
        assert!(w[0].module_id() != w[1].module_id() || w[0].render_mode() != w[1].render_mode());
    }
    let twice = batch_draw_lines(once);
    assert_eq!(shape(&twice), once_shape);
}

#[test]
fn packed_indices_address_the_same_vertices() {
    let mut a: VxVertexContainer<&str> = VxVertexContainer::new(vec!["a0", "a1", "a2"], vec![2, 0, 1]);
    a.set_z_value(0);
    let mut b: VxVertexContainer<&str> = VxVertexContainer::new(vec!["b0", "b1"], vec![1, 1, 0]);
    b.set_z_value(0);
    let mut lines = VxDrawLineContainer::new();
    let (verts, index) = pack_vertex_containers(VxModuleId::VertexModule, VxRenderMode::Retained, vec![a, b], &mut lines);
    let named: Vec<&str> = index.iter().map(|&i| verts[i as usize]).collect();
    assert_eq!(named, vec!["a2", "a0", "a1", "b1", "b1", "b0"]);
    let l = lines.draw_lines();
    assert_eq!((l[1].start(), l[1].count()), (3, 3));
}
