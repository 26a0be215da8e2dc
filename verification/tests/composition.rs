use frame_builder::composition::{
    composition_operations, needs_composition_operation_for_mix_blend_mode, target_rect_of_all,
    AxisDirection, CompositionOp, FilterOp, LowLevelFilterOp, MixBlendMode,
};
use frame_builder::geometry::{Point, Rect, Size};
use frame_builder::scene::StackingContext;
use frame_builder::transform::Transform;
use frame_builder::types::ScrollPolicy;

fn comp_rect(x: i32, y: i32, w: i32, h: i32) -> Rect {
    Rect { origin: Point { x, y }, size: Size { width: w, height: h } }
}

#[test]
fn normal_blend_mode_yields_no_operation() {
    assert_eq!(composition_operations(MixBlendMode::Normal, &vec![]), vec![]);
    assert!(!needs_composition_operation_for_mix_blend_mode(MixBlendMode::Normal));
    let ops = composition_operations(MixBlendMode::Normal, &vec![FilterOp::Sepia(60)]);
    assert_eq!(ops, vec![CompositionOp::Filter(LowLevelFilterOp::Sepia(60))]);
}

#[test]
fn every_other_blend_mode_yields_a_blend() {
    let modes = vec![
        MixBlendMode::Multiply,
        MixBlendMode::Screen,
        MixBlendMode::Overlay,
        MixBlendMode::Darken,
        MixBlendMode::Lighten,
        MixBlendMode::ColorDodge,
        MixBlendMode::ColorBurn,
        MixBlendMode::HardLight,
        MixBlendMode::SoftLight,
        MixBlendMode::Difference,
        MixBlendMode::Exclusion,
        MixBlendMode::Hue,
        MixBlendMode::Saturation,
        MixBlendMode::Color,
        MixBlendMode::Luminosity,
    ];
    for mode in modes {
        assert!(needs_composition_operation_for_mix_blend_mode(mode));
        assert_eq!(composition_operations(mode, &vec![]), vec![CompositionOp::MixBlend(mode)]);
    }
}

#[test]
fn blur_is_done_along_one_axis_and_then_the_other() {
    let ops = composition_operations(MixBlendMode::Normal, &vec![FilterOp::Blur(240)]);
    assert_eq!(
        ops,
        vec![
            CompositionOp::Filter(LowLevelFilterOp::Blur(240, AxisDirection::Horizontal)),
            CompositionOp::Filter(LowLevelFilterOp::Blur(240, AxisDirection::Vertical)),
        ]
    );
}

#[test]
fn blur_widens_the_target_by_its_radius_in_pixels() {
    let ops = composition_operations(MixBlendMode::Normal, &vec![FilterOp::Blur(240)]);
    let r = target_rect_of_all(&ops, &comp_rect(50, 50, 200, 200));
    assert_eq!(r, comp_rect(46, 46, 208, 208));
    assert_eq!(ops[0].target_rect(&comp_rect(50, 50, 200, 200)), comp_rect(46, 50, 208, 200));
    assert_eq!(ops[1].target_rect(&comp_rect(50, 50, 200, 200)), comp_rect(50, 46, 200, 208));
}

#[test]
fn blur_radius_is_rounded_towards_zero() {
    let h = CompositionOp::Filter(LowLevelFilterOp::Blur(119, AxisDirection::Horizontal));
    assert_eq!(h.target_rect(&comp_rect(0, 0, 10, 10)), comp_rect(-1, 0, 12, 10));
    let n = CompositionOp::Filter(LowLevelFilterOp::Blur(-119, AxisDirection::Vertical));
    assert_eq!(n.target_rect(&comp_rect(0, 0, 10, 10)), comp_rect(0, 1, 10, 8));
    let z = CompositionOp::Filter(LowLevelFilterOp::Blur(59, AxisDirection::Vertical));
    assert_eq!(z.target_rect(&comp_rect(0, 0, 10, 10)), comp_rect(0, 0, 10, 10));
}

#[test]
fn other_operations_leave_the_target_alone() {
    let r = comp_rect(1, 2, 3, 4);
    assert_eq!(CompositionOp::MixBlend(MixBlendMode::Hue).target_rect(&r), r);
    assert_eq!(CompositionOp::Filter(LowLevelFilterOp::Opacity(30)).target_rect(&r), r);
}

#[test]
fn blends_read_the_framebuffer_and_filters_do_not() {
    assert!(CompositionOp::MixBlend(MixBlendMode::Screen).needs_framebuffer());
    assert!(!CompositionOp::Filter(LowLevelFilterOp::Invert(60)).needs_framebuffer());
}

#[test]
fn filters_come_after_the_blend_in_their_order() {
    let ops = composition_operations(
        MixBlendMode::Multiply,
        &vec![
            FilterOp::Brightness(1),
            FilterOp::Contrast(2),
            FilterOp::Grayscale(3),
            FilterOp::HueRotate(4),
            FilterOp::Invert(5),
            FilterOp::Opacity(6),
            FilterOp::Saturate(7),
            FilterOp::Sepia(8),
        ],
    );
    assert_eq!(
        ops,
        vec![
            CompositionOp::MixBlend(MixBlendMode::Multiply),
            CompositionOp::Filter(LowLevelFilterOp::Brightness(1)),
            CompositionOp::Filter(LowLevelFilterOp::Contrast(2)),
            CompositionOp::Filter(LowLevelFilterOp::Grayscale(3)),
            CompositionOp::Filter(LowLevelFilterOp::HueRotate(4)),
            CompositionOp::Filter(LowLevelFilterOp::Invert(5)),
            CompositionOp::Filter(LowLevelFilterOp::Opacity(6)),
            CompositionOp::Filter(LowLevelFilterOp::Saturate(7)),
            CompositionOp::Filter(LowLevelFilterOp::Sepia(8)),
        ]
    );
}

#[test]
fn the_operations_of_a_stacking_context() {
    let context = StackingContext {
        scroll_layer_id: None,
        scroll_policy: ScrollPolicy::Scrollable,
        bounds: comp_rect(0, 0, 1, 1),
        overflow: comp_rect(0, 0, 1, 1),
        z_index: 0,
        display_lists: vec![],
        transform: Transform::identity(),
        perspective: Transform::identity(),
        establishes_3d_context: false,
        mix_blend_mode: MixBlendMode::Darken,
        filters: vec![FilterOp::Blur(60), FilterOp::Opacity(30)],
        has_stacking_contexts: false,
    };
    assert!(context.needs_composition_operation_for_mix_blend_mode());
    assert_eq!(
        context.composition_operations(),
        vec![
            CompositionOp::MixBlend(MixBlendMode::Darken),
            CompositionOp::Filter(LowLevelFilterOp::Blur(60, AxisDirection::Horizontal)),
            CompositionOp::Filter(LowLevelFilterOp::Blur(60, AxisDirection::Vertical)),
            CompositionOp::Filter(LowLevelFilterOp::Opacity(30)),
        ]
    );
    assert!(Transform::identity().is_identity());
    assert!(!Transform::identity().translate(1, 0).is_identity());
    assert!(Transform::identity().translate(0, 0).is_identity());
}
