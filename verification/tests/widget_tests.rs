use qd_varallax::abstractions::abstract_layouts::{VxSpatialLayoutAnchor, VxSpatialLayoutEdgeAlignment};
use qd_varallax::abstractions::abstract_windows::VxWindowLayer;
use qd_varallax::painter::painter::{
    assign_pending_z, set_vertex_z_value, set_z_from, text_z_partition_point, z_partition_point, VxVertexContainer,
};
use qd_varallax::types::render_commands::VxVertexZValue as TextZ;
use qd_varallax::types::color::{VxColorChannel, VxColorChannelSwap, VxColorU8};
use qd_varallax::types::gen_vector::VxGenVector;
use qd_varallax::types::geometry::VxAspectMode;
use qd_varallax::types::input::{VxKeyModifierState, VxKeyState, VxMouseButtonState};
use qd_varallax::types::texture::{
    apply_color_map, pixels_to_raw_rgb, pixels_to_raw_rgba8, raw_rgb_to_pixels, texture_upload_bytes,
    VxTexColorChannelMap,
};
use qd_varallax::vx_core::signal::VxSignal;
use qd_varallax::vx_core::tex_registry::VxTextureRegistry;
use qd_varallax::vx_core::vx_event::VxEventResult;
use qd_varallax::widgets::button::VxButtonState;
use qd_varallax::widgets::vx_message_box::{VxMessageBoxButton, VxMessageBoxResult};

#[test]
fn button_clicks_when_pressed_and_released_while_hovered() {
    let mut b = VxButtonState::new();
    assert!(!b.is_pressed() && !b.is_hovered());
    assert_eq!(b.mouse_enter(), VxEventResult::Accept);
    assert_eq!(b.mouse_press(false), VxEventResult::Accept);
    assert!(b.is_pressed());
    assert!(b.mouse_release());
    assert!(!b.is_pressed());
    assert!(b.is_hovered());
}

#[test]
fn button_ignores_other_buttons() {
    let mut b = VxButtonState::new();
    b.mouse_enter();
    assert_eq!(b.mouse_press(true), VxEventResult::Ignore);
    assert!(!b.is_pressed());
    assert!(!b.mouse_release());
}

#[test]
fn button_leaving_cancels_the_press() {
    let mut b = VxButtonState::new();
    b.mouse_enter();
    b.mouse_press(false);
    assert_eq!(b.mouse_leave(), VxEventResult::Accept);
    assert!(!b.is_pressed() && !b.is_hovered());
    b.mouse_enter();
    assert!(!b.mouse_release());
}

#[test]
fn button_release_without_hover_does_not_click() {
    let mut b = VxButtonState::new();
    b.mouse_press(false);
    assert!(!b.mouse_release());
    b.set_hovered(true);
    b.set_pressed(true);
    assert!(b.mouse_release());
}

#[test]
fn input_states_report_their_flags() {
    let m = VxMouseButtonState::new(true, false, true);
    assert!(m.is_pressed() && !m.is_released() && m.is_down());
    let k = VxKeyState::new(false, true, false, true);
    assert!(!k.is_pressed() && k.is_released() && !k.is_down() && k.is_super_key());
    let s = VxKeyModifierState::new(true, false, true);
    assert!(s.is_ctrl() && !s.is_shift() && s.is_alt());
}

#[test]
fn enum_defaults() {
    assert_eq!(VxMessageBoxButton::default(), VxMessageBoxButton::Okay);
    assert_eq!(VxMessageBoxResult::default(), VxMessageBoxResult::Cancel);
    assert_eq!(VxSpatialLayoutAnchor::default(), VxSpatialLayoutAnchor::Window);
    assert_eq!(VxSpatialLayoutEdgeAlignment::default(), VxSpatialLayoutEdgeAlignment::Center);
    assert_eq!(VxColorChannel::default(), VxColorChannel::RGBA);
    assert_eq!(VxColorChannelSwap::default(), VxColorChannelSwap::NoSwap);
    assert_ne!(VxWindowLayer::NormalLayer, VxWindowLayer::AlwaysOnTopLayer);
    assert_ne!(VxAspectMode::KeepAspectRatio, VxAspectMode::IgnoreAspectRatio);
}

#[test]
fn painter_assigns_depth_to_pending_batches() {
    let mut cs: Vec<VxVertexContainer<u8>> = Vec::new();
    cs.push(VxVertexContainer::new(vec![1], vec![0]));
    cs.push(VxVertexContainer::new(vec![2], vec![0]));
    assert_eq!(z_partition_point(&cs), 0);
    assert_eq!(assign_pending_z(&mut cs, 5), 0);
    cs.push(VxVertexContainer::new(vec![3], vec![0]));
    assert_eq!(z_partition_point(&cs), 2);
    assert_eq!(assign_pending_z(&mut cs, 6), 2);
    let zs: Vec<i32> = cs.iter().map(|c| c.z_value()).collect();
    assert_eq!(zs, vec![5, 5, 6]);
    assert!(cs.iter().all(|c| c.is_z_enable()));
    set_z_from(&mut cs, 1, 9);
    let zs: Vec<i32> = cs.iter().map(|c| c.z_value()).collect();
    assert_eq!(zs, vec![5, 9, 9]);
}

#[test]
fn painter_container_buffers() {
    let mut c: VxVertexContainer<u8> = VxVertexContainer::new(vec![1, 2], vec![0, 1, 1]);
    assert_eq!(c.z_value(), 0);
    assert!(!c.is_z_enable());
    c.set_z_value(-2);
    assert_eq!(c.z_value(), -2);
    assert_eq!(c.index(), vec![0u16, 1, 1]);
    assert_eq!(c.verts(), vec![1, 2]);
    assert!(c.verts().is_empty());
}

#[test]
fn pixels_to_bytes() {
    let p = vec![VxColorU8::rgba(1, 2, 3, 4), VxColorU8::rgba(5, 6, 7, 8)];
    assert_eq!(pixels_to_raw_rgb(&p), vec![1, 2, 3, 5, 6, 7]);
    assert_eq!(pixels_to_raw_rgba8(p), vec![1, 2, 3, 4, 5, 6, 7, 8]);
}

#[test]
fn rgb_bytes_to_opaque_pixels() {
    let px = raw_rgb_to_pixels(&vec![1, 2, 3, 4, 5, 6]);
    assert_eq!(px, vec![VxColorU8::rgb(1, 2, 3), VxColorU8::rgb(4, 5, 6)]);
    assert!(raw_rgb_to_pixels(&vec![]).is_empty());
}

#[test]
fn rgb_round_trip_makes_pixels_opaque() {
    let p = vec![VxColorU8::rgba(9, 8, 7, 6), VxColorU8::rgba(1, 1, 1, 0)];
    let back = raw_rgb_to_pixels(&pixels_to_raw_rgb(&p));
    assert_eq!(back, vec![VxColorU8::rgb(9, 8, 7), VxColorU8::rgb(1, 1, 1)]);
}

#[test]
fn color_maps_apply_to_every_pixel() {
    let mut p = vec![VxColorU8::rgba(1, 2, 3, 4), VxColorU8::rgba(5, 6, 7, 8)];
    apply_color_map(&mut p, VxTexColorChannelMap::Swap { swap_mode: VxColorChannelSwap::SwapRB });
    assert_eq!(p, vec![VxColorU8::rgba(3, 2, 1, 4), VxColorU8::rgba(7, 6, 5, 8)]);
    apply_color_map(&mut p, VxTexColorChannelMap::Channel { channel_mode: VxColorChannel::ARGB });
    assert_eq!(p, vec![VxColorU8::rgba(4, 3, 2, 1), VxColorU8::rgba(8, 7, 6, 5)]);
}

#[test]
fn signal_connect_emit_disconnect() {
    let mut s: VxSignal<&'static str> = VxSignal::new();
    assert!(s.internal_is_enabled());
    let a = s.internal_connect("a");
    let b = s.internal_connect("b");
    assert_eq!(s.internal_slot_count(), 2);
    assert_eq!(s.emit_snapshot(), Some(vec![&"a", &"b"]));
    assert!(s.internal_disconnect(a));
    assert!(!s.internal_disconnect(a));
    assert_eq!(s.emit_snapshot(), Some(vec![&"b"]));
    let c = s.internal_connect("c");
    assert_eq!(c.raw_index(), a.raw_index());
    assert!(!s.internal_disconnect(a));
    assert_eq!(s.emit_snapshot(), Some(vec![&"c", &"b"]));
    assert!(s.internal_disconnect(b));
    assert_eq!(s.internal_slot_count(), 1);
}

#[test]
fn signal_disabled_emits_nothing_and_clear_counts() {
    let mut s: VxSignal<u8> = VxSignal::new();
    s.internal_connect(1);
    s.internal_connect(2);
    s.internal_set_enabled(false);
    assert!(!s.internal_is_enabled());
    assert_eq!(s.emit_snapshot(), None);
    s.internal_set_enabled(true);
    assert_eq!(s.internal_clear(), 2);
    assert_eq!(s.internal_slot_count(), 0);
    assert_eq!(s.emit_snapshot(), Some(vec![]));
}

#[test]
fn texture_registry_maps_labels_to_slots() {
    let mut slots: qd_varallax::types::genelational_vector::VxGenVector<u8> =
        qd_varallax::types::genelational_vector::VxGenVector::new();
    let a = slots.insert(1);
    let b = slots.insert(2);
    let mut r = VxTextureRegistry::new();
    assert_eq!(r.len(), 0);
    assert_eq!(r.get_slot(42), None);
    r.register(42, a);
    r.register(7, b);
    assert_eq!(r.get_slot(42), Some(a));
    assert_eq!(r.len(), 2);
    r.register(42, b);
    assert_eq!(r.get_slot(42), Some(b));
    assert_eq!(r.len(), 2);
    r.remove(42);
    assert_eq!(r.get_slot(42), None);
    assert_eq!(r.len(), 1);
}

#[test]
fn gen_vector_and_signal_share_handles() {
    let mut v: VxGenVector<u8> = VxGenVector::new();
    let a = v.insert(3);
    let mut s: VxSignal<u8> = VxSignal::new();
    let b = s.internal_connect(3);
    assert_eq!(a, b);
}

#[test]
fn texture_upload_applies_maps_in_order() {
    let p = vec![VxColorU8::rgba(1, 2, 3, 4), VxColorU8::rgba(5, 6, 7, 8)];
    let maps = vec![
        VxTexColorChannelMap::Swap { swap_mode: VxColorChannelSwap::SwapRG },
        VxTexColorChannelMap::Channel { channel_mode: VxColorChannel::ARGB },
    ];
    assert_eq!(texture_upload_bytes(p.clone(), &maps), vec![4, 2, 1, 3, 8, 6, 5, 7]);
    assert_eq!(texture_upload_bytes(p, &vec![]), vec![1, 2, 3, 4, 5, 6, 7, 8]);
}

fn painted(z: Option<i32>) -> VxVertexContainer<u8> {
    let mut c = VxVertexContainer::new(vec![0], vec![0]);
    if let Some(z) = z {
        c.set_z_value(z);
    }
    c
}

fn depths(cs: &[VxVertexContainer<u8>]) -> Vec<Option<i32>> {
    cs.iter().map(|c| if c.is_z_enable() { Some(c.z_value()) } else { None }).collect()
}

#[test]
fn painter_depth_assignment_reaches_every_kind_of_batch() {
    let mut v = vec![painted(Some(1)), painted(None)];
    let mut s = vec![painted(None)];
    let mut t = vec![painted(Some(1)), painted(None)];
    set_vertex_z_value(&mut v, &mut s, &mut t, &vec![], 7);
    assert_eq!(depths(&v), vec![Some(1), Some(7)]);
    assert_eq!(depths(&s), vec![Some(7)]);
    assert_eq!(depths(&t), vec![Some(7), Some(7)]);
}

#[test]
fn painter_texture_batches_follow_the_text_partition() {
    let mut v: Vec<VxVertexContainer<u8>> = vec![];
    let mut s: Vec<VxVertexContainer<u8>> = vec![];
    let mut t = vec![painted(Some(1)), painted(Some(2)), painted(None)];
    let text = vec![TextZ::Enable { z: 1 }, TextZ::Disable];
    assert_eq!(text_z_partition_point(&text), 1);
    set_vertex_z_value(&mut v, &mut s, &mut t, &text, 9);
    assert_eq!(depths(&t), vec![Some(1), Some(9), Some(9)]);
}

#[test]
fn registry_remove_lowers_the_count_by_one() {
    let mut slots: qd_varallax::types::genelational_vector::VxGenVector<u8> =
        qd_varallax::types::genelational_vector::VxGenVector::new();
    let a = slots.insert(1);
    let mut r = VxTextureRegistry::new();
    r.register(1, a);
    r.register(2, a);
    r.register(3, a);
    let n = r.len();
    r.remove(2);
    assert_eq!(r.len(), n - 1);
    assert_eq!(r.get_slot(2), None);
    assert_eq!(r.get_slot(1), Some(a));
}
