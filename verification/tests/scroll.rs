use frame_builder::composition::MixBlendMode;
use frame_builder::frame::Frame;
use frame_builder::geometry::{Point, Rect, Size};
use frame_builder::layer::Layer;
use frame_builder::resource_cache::{DisplayItem, DrawList, ResourceCache};
use frame_builder::scene::{
    Scene, SceneDisplayList, SceneItem, ScenePipeline, SceneStackingContext, SpecificSceneItem,
    StackingContext,
};
use frame_builder::scroll::HitCandidate;
use frame_builder::transform::{Factor, Transform};
use frame_builder::types::{
    DisplayListId, DrawListId, Epoch, MatrixId, PipelineId, ScrollLayerId, ScrollPolicy,
    StackingContextId, StackingLevel,
};

fn sc_rect(x: i32, y: i32, w: i32, h: i32) -> Rect {
    Rect { origin: Point { x, y }, size: Size { width: w, height: h } }
}

fn sc_context(
    id: u32,
    layer: Option<u32>,
    bounds: Rect,
    overflow: Rect,
    items: &[u32],
) -> (SceneStackingContext, SceneDisplayList) {
    let mut list = vec![SceneItem {
        stacking_level: StackingLevel::Content,
        specific: SpecificSceneItem::DrawList(DrawListId(1)),
    }];
    for child in items {
        list.push(SceneItem {
            stacking_level: StackingLevel::Content,
            specific: SpecificSceneItem::StackingContext(StackingContextId(0, *child)),
        });
    }
    (
        SceneStackingContext {
            id: StackingContextId(0, id),
            pipeline_id: PipelineId(0, 0),
            epoch: Epoch(1),
            stacking_context: StackingContext {
                scroll_layer_id: layer.map(ScrollLayerId::Normal),
                scroll_policy: ScrollPolicy::Scrollable,
                bounds,
                overflow,
                z_index: 0,
                display_lists: vec![DisplayListId(0, id)],
                transform: Transform { factors: vec![] },
                perspective: Transform { factors: vec![] },
                establishes_3d_context: false,
                mix_blend_mode: MixBlendMode::Normal,
                filters: vec![],
                has_stacking_contexts: false,
            },
        },
        SceneDisplayList { id: DisplayListId(0, id), items: list },
    )
}

fn sc_scene(contexts: Vec<(SceneStackingContext, SceneDisplayList)>) -> Scene {
    let mut scene = Scene::new();
    scene.root_pipeline_id = Some(PipelineId(0, 0));
    scene.pipelines.push(ScenePipeline {
        pipeline_id: PipelineId(0, 0),
        epoch: Epoch(1),
        background_draw_list: None,
        root_stacking_context_id: StackingContextId(0, 0),
    });
    for (context, list) in contexts {
        scene.stacking_contexts.push(context);
        scene.display_lists.push(list);
    }
    scene
}

fn sc_frame(scene: &Scene) -> Frame {
    let mut cache = ResourceCache::new();
    cache.add_draw_list(DrawList {
        id: DrawListId(1),
        items: vec![DisplayItem { rect: sc_rect(0, 0, 10, 10) }],
        stacking_context_index: None,
    });
    let mut frame = Frame::new();
    let mut sizes = vec![];
    assert_eq!(
        frame.create(scene, &mut cache, &mut sizes, Size { width: 800, height: 600 }),
        Ok(())
    );
    frame
}

fn sc_wide_frame() -> Frame {
    sc_frame(&sc_scene(vec![sc_context(
        0,
        Some(0),
        sc_rect(0, 0, 800, 600),
        sc_rect(0, 0, 1000, 600),
        &[],
    )]))
}

#[test]
fn scrolling_stops_at_the_edges_of_the_layer() {
    let mut frame = sc_wide_frame();
    assert_eq!(frame.layers[1].layer_size, Size { width: 1000, height: 600 });
    assert_eq!(frame.layers[1].viewport_size, Size { width: 800, height: 600 });
    assert_eq!(frame.layers[1].scroll_offset, Point { x: 0, y: 0 });
    frame.scroll(Point { x: 50, y: 50 }, &vec![true]);
    assert_eq!(frame.layers[1].scroll_offset, Point { x: 0, y: 0 });
    frame.scroll(Point { x: -500, y: 0 }, &vec![true]);
    assert_eq!(frame.layers[1].scroll_offset, Point { x: -200, y: 0 });
    frame.scroll(Point { x: -100, y: 0 }, &vec![true]);
    assert_eq!(frame.layers[1].scroll_offset, Point { x: -200, y: 0 });
    frame.scroll(Point { x: 30, y: -30 }, &vec![true]);
    assert_eq!(frame.layers[1].scroll_offset, Point { x: -170, y: 0 });
    frame.scroll(Point { x: i32::MAX, y: i32::MIN }, &vec![true]);
    assert_eq!(frame.layers[1].scroll_offset, Point { x: 0, y: 0 });
    frame.scroll(Point { x: i32::MIN, y: i32::MIN }, &vec![true]);
    assert_eq!(frame.layers[1].scroll_offset, Point { x: -200, y: 0 });
}

#[test]
fn a_scroll_by_nothing_changes_nothing() {
    let mut frame = sc_wide_frame();
    frame.scroll(Point { x: -77, y: 0 }, &vec![true]);
    frame.scroll(Point { x: 0, y: 0 }, &vec![true]);
    assert_eq!(frame.layers[1].scroll_offset, Point { x: -77, y: 0 });
    assert_eq!(frame.layers[0].scroll_offset, Point { x: 0, y: 0 });
}

#[test]
fn a_layer_no_larger_than_its_viewport_does_not_scroll() {
    let mut frame = sc_frame(&sc_scene(vec![sc_context(
        0,
        Some(0),
        sc_rect(0, 0, 800, 600),
        sc_rect(0, 0, 800, 500),
        &[],
    )]));
    frame.scroll(Point { x: -10, y: -10 }, &vec![true]);
    assert_eq!(frame.layers[1].scroll_offset, Point { x: 0, y: 0 });
    frame.scroll(Point { x: 10, y: 10 }, &vec![true]);
    assert_eq!(frame.layers[1].scroll_offset, Point { x: 0, y: 0 });
}

#[test]
fn a_cursor_over_no_layer_scrolls_nothing() {
    let mut frame = sc_wide_frame();
    frame.scroll(Point { x: -10, y: 0 }, &vec![]);
    frame.scroll(Point { x: -10, y: 0 }, &vec![false]);
    frame.scroll(Point { x: -10, y: 0 }, &vec![false, true]);
    assert_eq!(frame.layers[1].scroll_offset, Point { x: 0, y: 0 });
    let mut blank = Frame::new();
    blank.scroll(Point { x: -10, y: 0 }, &vec![true]);
    assert!(blank.layers.is_empty());
}

#[test]
fn layers_are_scrolled_on_their_own() {
    let mut layer = Layer::new(
        ScrollLayerId::Normal(3),
        Point { x: 5, y: 6 },
        Size { width: 300, height: 900 },
        Size { width: 200, height: 400 },
        &Transform { factors: vec![] },
    );
    layer.scroll(Point { x: -150, y: -150 });
    assert_eq!(layer.scroll_offset, Point { x: -100, y: -150 });
    layer.scroll(Point { x: 0, y: -1000 });
    assert_eq!(layer.scroll_offset, Point { x: -100, y: -500 });
    assert_eq!(layer.world_origin, Point { x: 5, y: 6 });
    layer.finalize(Point { x: -1, y: -2 });
    assert_eq!(layer.scroll_offset, Point { x: -1, y: -2 });
    assert_eq!(layer.scroll_clip_rect(), sc_rect(1, 2, 200, 400));
}

/// Layer 0 holds layers 1 and 3, and layer 1 holds layer 2.
fn sc_nested() -> Frame {
    let mut inner = sc_context(1, Some(1), sc_rect(10, 20, 400, 300), sc_rect(0, 0, 400, 900), &[2]);
    inner.0.stacking_context.transform = Transform { factors: vec![Factor::Matrix(MatrixId(7))] };
    sc_frame(&sc_scene(vec![
        sc_context(0, Some(0), sc_rect(0, 0, 800, 600), sc_rect(0, 0, 800, 2000), &[1, 3]),
        inner,
        sc_context(2, Some(2), sc_rect(1, 1, 100, 100), sc_rect(0, 0, 100, 500), &[]),
        sc_context(3, Some(3), sc_rect(500, 0, 100, 100), sc_rect(0, 0, 100, 500), &[]),
    ]))
}

#[test]
fn the_layers_below_a_layer_are_tried_before_it() {
    let frame = sc_nested();
    let found = frame.hit_test_candidates(ScrollLayerId::Normal(0), &Transform { factors: vec![] });
    let order: Vec<ScrollLayerId> = found.iter().map(|c| c.layer_id).collect();
    assert_eq!(
        order,
        vec![
            ScrollLayerId::Normal(2),
            ScrollLayerId::Normal(1),
            ScrollLayerId::Normal(3),
            ScrollLayerId::Normal(0),
        ]
    );
    let pick = |hits: Vec<bool>| {
        frame.get_scroll_layer(&hits, ScrollLayerId::Normal(0), &Transform { factors: vec![] })
    };
    assert_eq!(pick(vec![true, true, true, true]), Some(ScrollLayerId::Normal(2)));
    assert_eq!(pick(vec![false, true, false, true]), Some(ScrollLayerId::Normal(1)));
    assert_eq!(pick(vec![false, false, true, true]), Some(ScrollLayerId::Normal(3)));
    assert_eq!(pick(vec![false, false, false, true]), Some(ScrollLayerId::Normal(0)));
    assert_eq!(pick(vec![false, false, false, false]), None);
    assert_eq!(pick(vec![false, false, false, false, true]), None);
    assert_eq!(
        frame.get_scroll_layer(&vec![true], ScrollLayerId::Normal(9), &Transform { factors: vec![] }),
        None
    );
}

#[test]
fn a_layer_is_seen_through_the_transforms_above_it() {
    let frame = sc_nested();
    let start = Transform { factors: vec![Factor::Matrix(MatrixId(1))] };
    let found = frame.hit_test_candidates(ScrollLayerId::Normal(1), &start);
    let local = vec![
        Factor::Translation { x: 10, y: 20 },
        Factor::Matrix(MatrixId(7)),
        Factor::Translation { x: -10, y: -20 },
    ];
    let mut outer = vec![Factor::Matrix(MatrixId(1))];
    outer.extend(local.clone());
    let mut inner = outer.clone();
    inner.extend(vec![Factor::Translation { x: 1, y: 1 }, Factor::Translation { x: -1, y: -1 }]);
    assert_eq!(
        found,
        vec![
            HitCandidate {
                layer_id: ScrollLayerId::Normal(2),
                transform: Transform { factors: inner },
                rect: sc_rect(10, 20, 800, 600),
            },
            HitCandidate {
                layer_id: ScrollLayerId::Normal(1),
                transform: Transform { factors: outer },
                rect: sc_rect(0, 0, 800, 600),
            },
        ]
    );
}

#[test]
fn content_that_does_not_scroll_is_never_under_the_cursor() {
    let frame = sc_nested();
    assert_eq!(
        frame.hit_test_candidates(ScrollLayerId::Fixed, &Transform { factors: vec![] }),
        vec![]
    );
    assert_eq!(
        frame.get_scroll_layer(&vec![true], ScrollLayerId::Fixed, &Transform { factors: vec![] }),
        None
    );
}

#[test]
fn scrolling_moves_the_layer_that_was_hit() {
    let mut frame = sc_nested();
    frame.scroll(Point { x: 0, y: -40 }, &vec![false, true]);
    assert_eq!(frame.layers[2].id, ScrollLayerId::Normal(1));
    assert_eq!(frame.layers[2].scroll_offset, Point { x: 0, y: -40 });
    assert_eq!(frame.layers[1].scroll_offset, Point { x: 0, y: 0 });
    assert_eq!(frame.layers[3].scroll_offset, Point { x: 0, y: 0 });
}

fn sc_matrix(factors: &[Factor], table: &[euclid::default::Transform3D<f32>]) -> euclid::default::Transform3D<f32> {
    let mut product = euclid::default::Transform3D::identity();
    for factor in factors {
        let m = match *factor {
            Factor::Translation { x, y } => {
                euclid::default::Transform3D::translation(x as f32, y as f32, 0.0)
            }
            Factor::Matrix(MatrixId(id)) => table[id as usize],
        };
        product = product.then(&m);
    }
    product
}

fn sc_is_hit(
    candidate: &HitCandidate,
    table: &[euclid::default::Transform3D<f32>],
    cursor: (f32, f32),
) -> bool {
    let inverse = match sc_matrix(&candidate.transform.factors, table).inverse() {
        Some(inverse) => inverse,
        None => return false,
    };
    let at = |z: f32| {
        let p = inverse
            .transform_point3d_homogeneous(euclid::default::Point3D::new(cursor.0, cursor.1, z));
        (p.x / p.w, p.y / p.w, p.z / p.w)
    };
    let (near, far) = (at(-10000.0), at(10000.0));
    let t = -near.2 / (far.2 - near.2);
    let x = near.0 + (far.0 - near.0) * t;
    let y = near.1 + (far.1 - near.1) * t;
    let r = candidate.rect;
    (r.origin.x as f32) <= x
        && x < (r.origin.x + r.size.width) as f32
        && (r.origin.y as f32) <= y
        && y < (r.origin.y + r.size.height) as f32
}

#[test]
fn a_layer_under_a_half_turn_is_hit_where_the_turn_puts_it() {
    // A half turn about the vertical axis.
    let table = vec![euclid::default::Transform3D::new(
        -1.0, 0.0, 0.0, 0.0, 0.0, 1.0, 0.0, 0.0, 0.0, 0.0, -1.0, 0.0, 0.0, 0.0, 0.0, 1.0,
    )];
    let mut turned =
        sc_context(1, Some(1), sc_rect(300, 0, 200, 200), sc_rect(0, 0, 200, 900), &[]);
    turned.0.stacking_context.transform = Transform { factors: vec![Factor::Matrix(MatrixId(0))] };
    let frame = sc_frame(&sc_scene(vec![
        sc_context(0, Some(0), sc_rect(0, 0, 800, 600), sc_rect(0, 0, 800, 2000), &[1]),
        turned,
    ]));
    let found = frame.hit_test_candidates(ScrollLayerId::Normal(0), &Transform::identity());
    assert_eq!(found.len(), 2);
    assert_eq!(
        sc_matrix(&found[0].transform.factors, &table)
            .transform_point3d_homogeneous(euclid::default::Point3D::new(100.0, 50.0, 0.0))
            .x,
        -700.0
    );
    let pick = |cursor: (f32, f32)| {
        let hits: Vec<bool> = found.iter().map(|c| sc_is_hit(c, &table, cursor)).collect();
        frame.get_scroll_layer(&hits, ScrollLayerId::Normal(0), &Transform::identity())
    };
    // The turn takes the cursor at 100 to -700, which is not in the viewport of
    // the turned layer, so the layer above it is the one that is hit.
    assert_eq!(pick((100.0, 50.0)), Some(ScrollLayerId::Normal(0)));
    // It takes the cursor at -650 to 50, which is.
    assert_eq!(pick((-650.0, 50.0)), Some(ScrollLayerId::Normal(1)));
    // An edge on the left or at the top belongs to the viewport, one on the
    // right or at the bottom does not.
    assert_eq!(pick((0.0, 0.0)), Some(ScrollLayerId::Normal(0)));
    assert_eq!(pick((800.0, 0.0)), None);
    assert_eq!(pick((0.0, 600.0)), None);
    assert_eq!(pick((799.0, 599.0)), Some(ScrollLayerId::Normal(0)));
}
