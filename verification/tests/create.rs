use frame_builder::composition::{CompositionOp, FilterOp, LowLevelFilterOp, MixBlendMode};
use frame_builder::draw_list_group::DrawListGroup;
use frame_builder::error::FrameError;
use frame_builder::flatten_model::MAX_NESTING;
use frame_builder::frame::{FlattenContext, FlattenInfo, Frame};
use frame_builder::geometry::{max_rect_value, Point, Rect, Size};
use frame_builder::paint_order::SceneItemKind;
use frame_builder::render_target::{
    ClearInfo, CompositeBatchInfo, CompositeBatchJob, FrameRenderItem,
};
use frame_builder::resource_cache::{DisplayItem, DrawList, ResourceCache};
use frame_builder::scene::{
    IframeInfo, Scene, SceneDisplayList, SceneItem, ScenePipeline, SceneStackingContext,
    SpecificSceneItem, StackingContext,
};
use frame_builder::transform::{Factor, Transform};
use frame_builder::types::{
    DisplayListId, DrawListGroupId, DrawListId, DrawListItemIndex, Epoch, MatrixId, PipelineId,
    RenderTargetId, RenderTargetIndex, ScrollLayerId, ScrollPolicy, StackingContextId,
    StackingContextIndex, StackingLevel,
};

fn cr_rect(x: i32, y: i32, w: i32, h: i32) -> Rect {
    Rect { origin: Point { x, y }, size: Size { width: w, height: h } }
}

fn cr_context(id: u32, bounds: Rect, overflow: Rect) -> SceneStackingContext {
    SceneStackingContext {
        id: StackingContextId(0, id),
        pipeline_id: PipelineId(0, 0),
        epoch: Epoch(1),
        stacking_context: StackingContext {
            scroll_layer_id: None,
            scroll_policy: ScrollPolicy::Scrollable,
            bounds,
            overflow,
            z_index: 0,
            display_lists: vec![DisplayListId(0, id)],
            transform: Transform { factors: vec![] },
            perspective: Transform { factors: vec![] },
            establishes_3d_context: false,
            mix_blend_mode: MixBlendMode::Normal,
            filters: vec![],
            has_stacking_contexts: false,
        },
    }
}

fn cr_draw(id: u32) -> SceneItem {
    SceneItem {
        stacking_level: StackingLevel::Content,
        specific: SpecificSceneItem::DrawList(DrawListId(id)),
    }
}

fn cr_child(id: u32) -> SceneItem {
    SceneItem {
        stacking_level: StackingLevel::Content,
        specific: SpecificSceneItem::StackingContext(StackingContextId(0, id)),
    }
}

fn cr_list(id: u32, items: Vec<SceneItem>) -> SceneDisplayList {
    SceneDisplayList { id: DisplayListId(0, id), items }
}

fn cr_draw_list(id: u32, rects: Vec<Rect>) -> DrawList {
    DrawList {
        id: DrawListId(id),
        items: rects.into_iter().map(|rect| DisplayItem { rect }).collect(),
        stacking_context_index: None,
    }
}

/// A scene whose root stacking context covers 800 by 600 and scrolls as layer 0.
fn cr_scene(root_items: Vec<SceneItem>) -> Scene {
    let mut scene = Scene::new();
    scene.root_pipeline_id = Some(PipelineId(0, 0));
    scene.pipelines.push(ScenePipeline {
        pipeline_id: PipelineId(0, 0),
        epoch: Epoch(1),
        background_draw_list: None,
        root_stacking_context_id: StackingContextId(0, 0),
    });
    let mut root = cr_context(0, cr_rect(0, 0, 800, 600), cr_rect(0, 0, 800, 600));
    root.stacking_context.scroll_layer_id = Some(ScrollLayerId::Normal(0));
    scene.stacking_contexts.push(root);
    scene.display_lists.push(cr_list(0, root_items));
    scene
}

fn cr_viewport() -> Size {
    Size { width: 800, height: 600 }
}

#[test]
fn single_pipeline_with_one_draw_list() {
    let scene = cr_scene(vec![cr_draw(1)]);
    let mut cache = ResourceCache::new();
    cache.add_draw_list(cr_draw_list(1, vec![cr_rect(10, 10, 100, 100)]));
    let mut sizes = vec![];
    let mut frame = Frame::new();
    assert_eq!(frame.create(&scene, &mut cache, &mut sizes, cr_viewport()), Ok(()));

    assert_eq!(frame.root_scroll_layer_id, Some(ScrollLayerId::Normal(0)));
    assert_eq!(frame.layers.len(), 2);
    assert_eq!(frame.layers[0].id, ScrollLayerId::Fixed);
    assert_eq!(frame.layers[1].id, ScrollLayerId::Normal(0));
    assert_eq!(frame.layers[1].world_origin, Point { x: 0, y: 0 });
    assert_eq!(frame.layers[1].layer_size, Size { width: 800, height: 600 });
    assert_eq!(frame.layers[1].viewport_size, Size { width: 800, height: 600 });
    assert!(frame.layers[0].children.is_empty());
    assert!(frame.layers[1].children.is_empty());

    let mut expected = DrawListGroup::new(
        DrawListGroupId(0),
        ScrollLayerId::Normal(0),
        RenderTargetId(0),
    );
    expected.push(DrawListId(1));
    assert_eq!(frame.draw_list_groups, vec![expected]);

    assert_eq!(frame.render_targets.len(), 1);
    assert_eq!(frame.render_targets[0].id, RenderTargetId(0));
    assert_eq!(frame.render_targets[0].width, 800);
    assert_eq!(frame.render_targets[0].height, 600);
    assert_eq!(
        frame.render_targets[0].items,
        vec![FrameRenderItem::DrawListBatch(DrawListGroupId(0))]
    );

    assert_eq!(frame.stacking_context_info.len(), 1);
    assert_eq!(frame.stacking_context_info[0].offset_from_layer, Point { x: 0, y: 0 });
    assert_eq!(frame.stacking_context_info[0].local_clip_rect, cr_rect(0, 0, 800, 600));
    assert_eq!(frame.stacking_context_info[0].transform, Transform { factors: vec![] });
    assert_eq!(cache.draw_lists[0].stacking_context_index, Some(StackingContextIndex(0)));

    assert_eq!(frame.layers[1].nodes.len(), 1);
    assert_eq!(frame.layers[1].nodes[0].rect, cr_rect(10, 10, 100, 100));
    assert_eq!(frame.layers[1].nodes[0].draw_list_group_id, DrawListGroupId(0));
    assert_eq!(frame.layers[1].nodes[0].draw_list_id, DrawListId(1));
    assert_eq!(frame.layers[1].nodes[0].item_index, DrawListItemIndex(0));
    assert_eq!(frame.pipeline_epoch_map, vec![(PipelineId(0, 0), Epoch(1))]);
    assert_eq!(frame.next_render_target_id, RenderTargetId(1));
    assert_eq!(frame.next_draw_list_group_id, DrawListGroupId(1));
}

#[test]
fn nested_stacking_context_with_opacity_gets_a_render_target() {
    let mut scene = cr_scene(vec![cr_child(1)]);
    let mut inner = cr_context(1, cr_rect(50, 50, 200, 200), cr_rect(0, 0, 200, 200));
    inner.stacking_context.filters = vec![FilterOp::Opacity(30)];
    scene.stacking_contexts.push(inner);
    scene.display_lists.push(cr_list(1, vec![cr_draw(1)]));
    let mut cache = ResourceCache::new();
    cache.add_draw_list(cr_draw_list(1, vec![cr_rect(0, 0, 20, 20)]));
    let mut sizes = vec![];
    let mut frame = Frame::new();
    assert_eq!(frame.create(&scene, &mut cache, &mut sizes, cr_viewport()), Ok(()));

    assert_eq!(frame.render_targets.len(), 2);
    assert_eq!(frame.render_targets[0].children, vec![1]);
    assert_eq!(
        frame.render_targets[0].items,
        vec![FrameRenderItem::CompositeBatch(CompositeBatchInfo {
            operation: CompositionOp::Filter(LowLevelFilterOp::Opacity(30)),
            jobs: vec![CompositeBatchJob {
                rect: cr_rect(50, 50, 200, 200),
                render_target_index: RenderTargetIndex(0),
            }],
        })]
    );
    assert_eq!(frame.render_targets[1].id, RenderTargetId(1));
    assert!(frame.render_targets[1].width >= 200);
    assert!(frame.render_targets[1].height >= 200);
    assert_eq!(
        frame.render_targets[1].items,
        vec![FrameRenderItem::DrawListBatch(DrawListGroupId(0))]
    );
    assert_eq!(frame.draw_list_groups[0].render_target_id, RenderTargetId(1));
    // What is drawn to a render target of its own starts at the corner of it.
    assert_eq!(frame.stacking_context_info[1].offset_from_layer, Point { x: 0, y: 0 });
    assert_eq!(frame.layers[1].nodes[0].rect, cr_rect(0, 0, 20, 20));
}

#[test]
fn blurred_stacking_context_gets_a_wider_render_target() {
    let mut scene = cr_scene(vec![cr_child(1)]);
    let mut inner = cr_context(1, cr_rect(50, 50, 200, 200), cr_rect(0, 0, 200, 200));
    inner.stacking_context.filters = vec![FilterOp::Blur(240)];
    scene.stacking_contexts.push(inner);
    scene.display_lists.push(cr_list(1, vec![cr_draw(1)]));
    let mut cache = ResourceCache::new();
    cache.add_draw_list(cr_draw_list(1, vec![]));
    let mut sizes = vec![];
    let mut frame = Frame::new();
    assert_eq!(frame.create(&scene, &mut cache, &mut sizes, cr_viewport()), Ok(()));
    assert_eq!(frame.render_targets[1].width, 208);
    assert_eq!(frame.render_targets[1].height, 208);
    assert_eq!(frame.render_targets[0].items.len(), 2);
    match &frame.render_targets[0].items[1] {
        FrameRenderItem::CompositeBatch(info) => {
            assert_eq!(info.jobs[0].rect, cr_rect(46, 46, 208, 208));
        }
        other => panic!("unexpected item {:?}", other),
    }
}

#[test]
fn draw_lists_in_a_row_share_a_group_until_it_is_full() {
    let items: Vec<SceneItem> = (0..40).map(|i| cr_draw(100 + i)).collect();
    let scene = cr_scene(items);
    let mut cache = ResourceCache::new();
    for i in 0..40 {
        cache.add_draw_list(cr_draw_list(100 + i, vec![cr_rect(0, 0, 1, 1)]));
    }
    let mut sizes = vec![];
    let mut frame = Frame::new();
    assert_eq!(frame.create(&scene, &mut cache, &mut sizes, cr_viewport()), Ok(()));
    assert_eq!(frame.draw_list_groups.len(), 2);
    assert_eq!(frame.draw_list_groups[0].draw_list_ids.len(), 32);
    assert_eq!(frame.draw_list_groups[1].draw_list_ids.len(), 8);
    assert_eq!(frame.draw_list_groups[1].draw_list_ids[0], DrawListId(132));
    assert_eq!(
        frame.render_targets[0].items,
        vec![
            FrameRenderItem::DrawListBatch(DrawListGroupId(0)),
            FrameRenderItem::DrawListBatch(DrawListGroupId(1)),
        ]
    );
    for group in &frame.draw_list_groups {
        assert_eq!(group.scroll_layer_id, ScrollLayerId::Normal(0));
        assert_eq!(group.render_target_id, RenderTargetId(0));
        assert!(group.draw_list_ids.len() <= 32);
    }
    assert_eq!(frame.layers[1].nodes[35].draw_list_group_id, DrawListGroupId(1));
}

#[test]
fn a_change_of_scroll_layer_closes_the_group() {
    let mut scene = cr_scene(vec![cr_draw(1), cr_child(1), cr_draw(3)]);
    let mut fixed = cr_context(1, cr_rect(0, 0, 100, 100), cr_rect(0, 0, 100, 100));
    fixed.stacking_context.scroll_policy = ScrollPolicy::Fixed;
    scene.stacking_contexts.push(fixed);
    scene.display_lists.push(cr_list(1, vec![cr_draw(2)]));
    let mut cache = ResourceCache::new();
    for i in 1..4 {
        cache.add_draw_list(cr_draw_list(i, vec![cr_rect(0, 0, 1, 1)]));
    }
    let mut sizes = vec![];
    let mut frame = Frame::new();
    assert_eq!(frame.create(&scene, &mut cache, &mut sizes, cr_viewport()), Ok(()));
    let layers: Vec<ScrollLayerId> =
        frame.draw_list_groups.iter().map(|g| g.scroll_layer_id).collect();
    assert_eq!(
        layers,
        vec![ScrollLayerId::Normal(0), ScrollLayerId::Fixed, ScrollLayerId::Normal(0)]
    );
    assert_eq!(frame.layers[0].nodes.len(), 1);
    assert_eq!(frame.layers[0].nodes[0].draw_list_id, DrawListId(2));
    assert_eq!(frame.layers[1].nodes.len(), 2);
}

#[test]
fn a_stacking_context_outside_the_clip_leaves_no_trace() {
    let mut scene = cr_scene(vec![cr_draw(1), cr_child(1)]);
    let mut outside = cr_context(1, cr_rect(900, 0, 100, 100), cr_rect(0, 0, 100, 100));
    outside.stacking_context.scroll_layer_id = Some(ScrollLayerId::Normal(5));
    outside.stacking_context.filters = vec![FilterOp::Opacity(30)];
    scene.stacking_contexts.push(outside);
    // What the clipped context holds is never looked at, so it may name what is not there.
    scene.display_lists.push(cr_list(1, vec![cr_draw(77), cr_child(78)]));
    let mut cache = ResourceCache::new();
    cache.add_draw_list(cr_draw_list(1, vec![cr_rect(0, 0, 1, 1)]));
    let mut sizes = vec![];
    let mut frame = Frame::new();
    assert_eq!(frame.create(&scene, &mut cache, &mut sizes, cr_viewport()), Ok(()));
    assert_eq!(frame.layers.len(), 2);
    assert_eq!(frame.render_targets.len(), 1);
    assert_eq!(frame.render_targets[0].items.len(), 1);
    assert_eq!(frame.stacking_context_info.len(), 1);
    assert_eq!(frame.draw_list_groups.len(), 1);
}

#[test]
fn a_stacking_context_without_items_leaves_no_trace() {
    let mut scene = cr_scene(vec![cr_child(1)]);
    let mut empty = cr_context(1, cr_rect(0, 0, 100, 100), cr_rect(0, 0, 100, 100));
    empty.stacking_context.scroll_layer_id = Some(ScrollLayerId::Normal(5));
    scene.stacking_contexts.push(empty);
    scene.display_lists.push(cr_list(1, vec![]));
    let mut cache = ResourceCache::new();
    let mut sizes = vec![];
    let mut frame = Frame::new();
    assert_eq!(frame.create(&scene, &mut cache, &mut sizes, cr_viewport()), Ok(()));
    assert_eq!(frame.layers.len(), 2);
    assert_eq!(frame.stacking_context_info.len(), 1);
}

#[test]
fn a_scrolling_child_gets_a_layer_below_that_of_its_parent() {
    let mut scene = cr_scene(vec![cr_child(1)]);
    let mut inner = cr_context(1, cr_rect(100, 50, 300, 200), cr_rect(0, 0, 300, 1000));
    inner.stacking_context.scroll_layer_id = Some(ScrollLayerId::Normal(1));
    inner.stacking_context.transform = Transform { factors: vec![Factor::Matrix(MatrixId(4))] };
    scene.stacking_contexts.push(inner);
    scene.display_lists.push(cr_list(1, vec![cr_draw(1)]));
    let mut cache = ResourceCache::new();
    cache.add_draw_list(cr_draw_list(1, vec![cr_rect(5, 5, 10, 10)]));
    let mut sizes = vec![];
    let mut frame = Frame::new();
    assert_eq!(frame.create(&scene, &mut cache, &mut sizes, cr_viewport()), Ok(()));
    assert_eq!(frame.layers.len(), 3);
    assert_eq!(frame.layers[1].children, vec![ScrollLayerId::Normal(1)]);
    let layer = &frame.layers[2];
    assert_eq!(layer.id, ScrollLayerId::Normal(1));
    assert_eq!(layer.world_origin, Point { x: 0, y: 0 });
    assert_eq!(layer.layer_size, Size { width: 300, height: 1000 });
    assert_eq!(layer.viewport_size, Size { width: 800, height: 600 });
    assert_eq!(
        layer.local_transform,
        Transform {
            factors: vec![
                Factor::Translation { x: 100, y: 50 },
                Factor::Matrix(MatrixId(4)),
                Factor::Translation { x: -100, y: -50 },
            ]
        }
    );
    // Within its own layer the content starts anew.
    assert_eq!(frame.stacking_context_info[1].offset_from_layer, Point { x: 0, y: 0 });
    assert_eq!(frame.stacking_context_info[1].transform, Transform { factors: vec![] });
    assert_eq!(layer.nodes[0].rect, cr_rect(5, 5, 10, 10));
    assert_eq!(frame.draw_list_groups[0].scroll_layer_id, ScrollLayerId::Normal(1));
}

#[test]
fn offsets_and_transforms_are_handed_down() {
    let mut scene = cr_scene(vec![cr_child(1)]);
    let mut inner = cr_context(1, cr_rect(100, 50, 300, 200), cr_rect(0, 0, 300, 200));
    inner.stacking_context.perspective = Transform { factors: vec![Factor::Matrix(MatrixId(9))] };
    inner.stacking_context.display_lists = vec![DisplayListId(0, 1)];
    scene.stacking_contexts.push(inner);
    scene.display_lists.push(cr_list(1, vec![cr_draw(1), cr_child(2)]));
    scene.stacking_contexts.push(cr_context(2, cr_rect(10, 10, 50, 50), cr_rect(0, 0, 50, 50)));
    scene.display_lists.push(cr_list(2, vec![cr_draw(2)]));
    let mut cache = ResourceCache::new();
    cache.add_draw_list(cr_draw_list(1, vec![cr_rect(1, 2, 3, 4)]));
    cache.add_draw_list(cr_draw_list(2, vec![cr_rect(1, 2, 3, 4)]));
    let mut sizes = vec![];
    let mut frame = Frame::new();
    assert_eq!(frame.create(&scene, &mut cache, &mut sizes, cr_viewport()), Ok(()));
    assert_eq!(frame.stacking_context_info.len(), 3);
    assert_eq!(frame.stacking_context_info[1].offset_from_layer, Point { x: 100, y: 50 });
    assert_eq!(frame.stacking_context_info[1].local_clip_rect, cr_rect(0, 0, 300, 200));
    assert_eq!(
        frame.stacking_context_info[1].transform,
        Transform {
            factors: vec![
                Factor::Translation { x: 100, y: 50 },
                Factor::Translation { x: -100, y: -50 },
            ]
        }
    );
    assert_eq!(
        frame.stacking_context_info[1].perspective,
        Transform {
            factors: vec![
                Factor::Translation { x: 100, y: 50 },
                Factor::Matrix(MatrixId(9)),
                Factor::Translation { x: -100, y: -50 },
            ]
        }
    );
    assert_eq!(frame.stacking_context_info[2].offset_from_layer, Point { x: 110, y: 60 });
    assert_eq!(frame.stacking_context_info[2].local_clip_rect, cr_rect(0, 0, 50, 50));
    // The perspective of the parent, then its transform, then the own transform.
    assert_eq!(
        frame.stacking_context_info[2].transform,
        Transform {
            factors: vec![
                Factor::Translation { x: 100, y: 50 },
                Factor::Matrix(MatrixId(9)),
                Factor::Translation { x: -100, y: -50 },
                Factor::Translation { x: 100, y: 50 },
                Factor::Translation { x: -100, y: -50 },
                Factor::Translation { x: 110, y: 60 },
                Factor::Translation { x: -110, y: -60 },
            ]
        }
    );
    assert_eq!(frame.layers[1].nodes[0].rect, cr_rect(101, 52, 3, 4));
    assert_eq!(frame.layers[1].nodes[1].rect, cr_rect(111, 62, 3, 4));
    assert_eq!(cache.draw_lists[1].stacking_context_index, Some(StackingContextIndex(2)));
}

#[test]
fn a_third_dimension_with_children_starts_with_a_clear() {
    let mut scene = cr_scene(vec![cr_draw(1)]);
    scene.stacking_contexts[0].stacking_context.establishes_3d_context = true;
    scene.stacking_contexts[0].stacking_context.has_stacking_contexts = true;
    let mut cache = ResourceCache::new();
    cache.add_draw_list(cr_draw_list(1, vec![]));
    let mut sizes = vec![];
    let mut frame = Frame::new();
    assert_eq!(frame.create(&scene, &mut cache, &mut sizes, cr_viewport()), Ok(()));
    assert_eq!(
        frame.render_targets[0].items,
        vec![
            FrameRenderItem::Clear(ClearInfo {
                clear_color: false,
                clear_z: true,
                clear_stencil: true,
            }),
            FrameRenderItem::DrawListBatch(DrawListGroupId(0)),
        ]
    );
    scene.stacking_contexts[0].stacking_context.has_stacking_contexts = false;
    assert_eq!(frame.create(&scene, &mut cache, &mut sizes, cr_viewport()), Ok(()));
    assert_eq!(frame.render_targets[0].items.len(), 1);
}

fn cr_iframe(pipeline: u32, bounds: Rect) -> SceneItem {
    SceneItem {
        stacking_level: StackingLevel::Content,
        specific: SpecificSceneItem::Iframe(IframeInfo { id: PipelineId(pipeline, 0), bounds }),
    }
}

#[test]
fn an_iframe_shows_its_pipeline_at_its_place() {
    let mut scene = cr_scene(vec![cr_iframe(1, cr_rect(20, 30, 400, 300))]);
    scene.pipelines.push(ScenePipeline {
        pipeline_id: PipelineId(1, 0),
        epoch: Epoch(7),
        background_draw_list: Some(DrawListId(50)),
        root_stacking_context_id: StackingContextId(0, 1),
    });
    scene.stacking_contexts.push(cr_context(1, cr_rect(0, 0, 400, 300), cr_rect(0, 0, 400, 300)));
    scene.display_lists.push(cr_list(1, vec![cr_draw(1)]));
    let mut cache = ResourceCache::new();
    cache.add_draw_list(cr_draw_list(1, vec![cr_rect(1, 1, 2, 2)]));
    cache.add_draw_list(cr_draw_list(50, vec![cr_rect(0, 0, 400, 300)]));
    let mut sizes = vec![(PipelineId(1, 0), Size { width: 1, height: 1 })];
    let mut frame = Frame::new();
    assert_eq!(frame.create(&scene, &mut cache, &mut sizes, cr_viewport()), Ok(()));
    assert_eq!(sizes, vec![(PipelineId(1, 0), Size { width: 400, height: 300 })]);
    assert_eq!(
        frame.pipeline_epoch_map,
        vec![(PipelineId(0, 0), Epoch(1)), (PipelineId(1, 0), Epoch(7))]
    );
    assert_eq!(frame.stacking_context_info[1].offset_from_layer, Point { x: 20, y: 30 });
    // The clip of an iframe starts anew.
    assert_eq!(frame.stacking_context_info[1].local_clip_rect, cr_rect(0, 0, 400, 300));
    assert_eq!(frame.draw_list_groups[0].draw_list_ids, vec![DrawListId(50), DrawListId(1)]);
    assert_eq!(frame.layers[1].nodes[0].rect, cr_rect(20, 30, 400, 300));
    assert_eq!(frame.layers[1].nodes[1].rect, cr_rect(21, 31, 2, 2));
}

#[test]
fn an_iframe_of_a_pipeline_that_is_not_there_shows_nothing() {
    let scene = cr_scene(vec![cr_iframe(3, cr_rect(20, 30, 400, 300)), cr_draw(1)]);
    let mut cache = ResourceCache::new();
    cache.add_draw_list(cr_draw_list(1, vec![]));
    let mut sizes = vec![];
    let mut frame = Frame::new();
    assert_eq!(frame.create(&scene, &mut cache, &mut sizes, cr_viewport()), Ok(()));
    assert_eq!(sizes, vec![(PipelineId(3, 0), Size { width: 400, height: 300 })]);
    assert_eq!(frame.pipeline_epoch_map, vec![(PipelineId(0, 0), Epoch(1))]);
    assert_eq!(frame.stacking_context_info.len(), 1);
    assert_eq!(frame.draw_list_groups.len(), 1);
}

#[test]
fn a_scene_without_a_root_leaves_everything_as_it_is() {
    let good = cr_scene(vec![cr_draw(1)]);
    let mut cache = ResourceCache::new();
    cache.add_draw_list(cr_draw_list(1, vec![cr_rect(0, 0, 1, 1)]));
    let mut sizes = vec![];
    let mut frame = Frame::new();
    assert_eq!(frame.create(&good, &mut cache, &mut sizes, cr_viewport()), Ok(()));

    let mut scene = cr_scene(vec![]);
    scene.root_pipeline_id = None;
    assert_eq!(
        frame.create(&scene, &mut cache, &mut sizes, cr_viewport()),
        Err(FrameError::MissingRootPipeline)
    );
    scene.root_pipeline_id = Some(PipelineId(9, 9));
    assert_eq!(
        frame.create(&scene, &mut cache, &mut sizes, cr_viewport()),
        Err(FrameError::MissingRootPipeline)
    );
    scene.root_pipeline_id = Some(PipelineId(0, 0));
    scene.stacking_contexts[0].stacking_context.scroll_layer_id = None;
    assert_eq!(
        frame.create(&scene, &mut cache, &mut sizes, cr_viewport()),
        Err(FrameError::RootNotScrollLayer)
    );
    scene.stacking_contexts.clear();
    assert_eq!(
        frame.create(&scene, &mut cache, &mut sizes, cr_viewport()),
        Err(FrameError::MissingStackingContext)
    );
    assert_eq!(frame.layers.len(), 2);
    assert_eq!(frame.draw_list_groups.len(), 1);
    assert_eq!(frame.render_targets.len(), 1);
}

fn cr_failure(scene: &Scene, cache: &mut ResourceCache) -> (Frame, Result<(), FrameError>) {
    let mut sizes = vec![(PipelineId(8, 8), Size { width: 1, height: 2 })];
    let mut frame = Frame::new();
    let r = frame.create(scene, cache, &mut sizes, cr_viewport());
    assert_eq!(sizes, vec![(PipelineId(8, 8), Size { width: 1, height: 2 })]);
    (frame, r)
}

fn cr_assert_empty(frame: &Frame) {
    assert!(frame.layers.is_empty());
    assert!(frame.draw_list_groups.is_empty());
    assert!(frame.stacking_context_info.is_empty());
    assert!(frame.render_targets.is_empty());
    assert!(frame.pipeline_epoch_map.is_empty());
    assert_eq!(frame.next_render_target_id, RenderTargetId(0));
    assert_eq!(frame.next_draw_list_group_id, DrawListGroupId(0));
    assert_eq!(frame.root_scroll_layer_id, None);
}

#[test]
fn a_draw_list_that_the_cache_does_not_hold_fails_the_build() {
    let scene = cr_scene(vec![cr_draw(1), cr_draw(2)]);
    let mut cache = ResourceCache::new();
    cache.add_draw_list(cr_draw_list(1, vec![cr_rect(0, 0, 1, 1)]));
    let (frame, r) = cr_failure(&scene, &mut cache);
    assert_eq!(r, Err(FrameError::MissingDrawList));
    cr_assert_empty(&frame);
    assert_eq!(cache.draw_lists.len(), 1);
    assert_eq!(cache.draw_lists[0].items.len(), 1);
    // The draw list that was entered before the failure points to no record again.
    assert_eq!(cache.draw_lists[0].stacking_context_index, None);
}

#[test]
fn a_child_that_the_scene_does_not_hold_fails_the_build() {
    let scene = cr_scene(vec![cr_child(4)]);
    let (frame, r) = cr_failure(&scene, &mut ResourceCache::new());
    assert_eq!(r, Err(FrameError::MissingStackingContext));
    cr_assert_empty(&frame);
}

#[test]
fn a_display_list_that_the_scene_does_not_hold_fails_the_build() {
    let mut scene = cr_scene(vec![]);
    scene.display_lists.clear();
    let (frame, r) = cr_failure(&scene, &mut ResourceCache::new());
    assert_eq!(r, Err(FrameError::MissingDisplayList));
    cr_assert_empty(&frame);
}

#[test]
fn fixed_content_with_a_scroll_layer_of_its_own_fails_the_build() {
    let mut scene = cr_scene(vec![cr_child(1)]);
    let mut inner = cr_context(1, cr_rect(0, 0, 10, 10), cr_rect(0, 0, 10, 10));
    inner.stacking_context.scroll_policy = ScrollPolicy::Fixed;
    inner.stacking_context.scroll_layer_id = Some(ScrollLayerId::Normal(3));
    scene.stacking_contexts.push(inner);
    scene.display_lists.push(cr_list(1, vec![cr_draw(1)]));
    let (frame, r) = cr_failure(&scene, &mut ResourceCache::new());
    assert_eq!(r, Err(FrameError::FixedWithScrollLayer));
    cr_assert_empty(&frame);
}

#[test]
fn two_stacking_contexts_with_one_scroll_layer_fail_the_build() {
    let mut scene = cr_scene(vec![cr_child(1)]);
    let mut inner = cr_context(1, cr_rect(0, 0, 10, 10), cr_rect(0, 0, 10, 10));
    inner.stacking_context.scroll_layer_id = Some(ScrollLayerId::Normal(0));
    scene.stacking_contexts.push(inner);
    scene.display_lists.push(cr_list(1, vec![cr_draw(1)]));
    let (frame, r) = cr_failure(&scene, &mut ResourceCache::new());
    assert_eq!(r, Err(FrameError::DuplicateScrollLayer));
    cr_assert_empty(&frame);

    let mut fixed = cr_scene(vec![cr_child(1)]);
    let mut inner = cr_context(1, cr_rect(0, 0, 10, 10), cr_rect(0, 0, 10, 10));
    inner.stacking_context.scroll_layer_id = Some(ScrollLayerId::Fixed);
    fixed.stacking_contexts.push(inner);
    fixed.display_lists.push(cr_list(1, vec![cr_draw(1)]));
    assert_eq!(
        cr_failure(&fixed, &mut ResourceCache::new()).1,
        Err(FrameError::DuplicateScrollLayer)
    );
}

#[test]
fn a_stacking_context_that_holds_itself_fails_the_build() {
    let mut scene = cr_scene(vec![cr_child(1)]);
    scene.stacking_contexts.push(cr_context(1, cr_rect(0, 0, 10, 10), cr_rect(0, 0, 10, 10)));
    scene.display_lists.push(cr_list(1, vec![cr_child(1)]));
    let (frame, r) = cr_failure(&scene, &mut ResourceCache::new());
    assert_eq!(r, Err(FrameError::NestingTooDeep));
    cr_assert_empty(&frame);
    assert_eq!(MAX_NESTING, 1024);
}

#[test]
fn running_out_of_names_fails_the_build() {
    let scene = cr_scene(vec![cr_draw(1)]);
    let mut cache = ResourceCache::new();
    cache.add_draw_list(cr_draw_list(1, vec![]));
    let mut sizes = vec![];
    let mut frame = Frame::new();
    frame.next_render_target_id = RenderTargetId(u32::MAX);
    assert_eq!(
        frame.create(&scene, &mut cache, &mut sizes, cr_viewport()),
        Err(FrameError::IdsExhausted)
    );
    assert_eq!(frame.next_render_target_id, RenderTargetId(u32::MAX));
    assert!(frame.render_targets.is_empty());

    let mut frame = Frame::new();
    frame.next_draw_list_group_id = DrawListGroupId(u32::MAX);
    assert_eq!(
        frame.create(&scene, &mut cache, &mut sizes, cr_viewport()),
        Err(FrameError::IdsExhausted)
    );
    assert_eq!(frame.next_draw_list_group_id, DrawListGroupId(u32::MAX));
    assert_eq!(frame.next_render_target_id, RenderTargetId(0));

    let mut frame = Frame::new();
    frame.next_render_target_id = RenderTargetId(u32::MAX - 1);
    assert_eq!(frame.create(&scene, &mut cache, &mut sizes, cr_viewport()), Ok(()));
    assert_eq!(frame.next_render_target_id(), None);
    assert_eq!(frame.next_draw_list_group_id(), Some(DrawListGroupId(1)));
}

#[test]
fn flattening_under_a_scroll_layer_that_is_not_there_fails() {
    let mut scene = cr_scene(vec![cr_draw(1)]);
    scene.stacking_contexts[0].stacking_context.scroll_layer_id = None;
    let mut cache = ResourceCache::new();
    cache.add_draw_list(cr_draw_list(1, vec![]));
    let mut frame = Frame::new();
    frame.render_targets.push(frame_builder::render_target::RenderTarget::new(
        RenderTargetId(0),
        10,
        10,
    ));
    let mut context = FlattenContext {
        draw_lists: cache.draw_lists,
        pipeline_sizes: vec![],
        current_draw_list_group: None,
    };
    let info = FlattenInfo {
        viewport_size: cr_viewport(),
        current_clip_rect: max_rect_value(),
        default_scroll_layer_id: ScrollLayerId::Normal(4),
        actual_scroll_layer_id: ScrollLayerId::Normal(4),
        offset_from_origin: Point { x: 0, y: 0 },
        offset_from_current_layer: Point { x: 0, y: 0 },
        transform: Transform { factors: vec![] },
        perspective: Transform { factors: vec![] },
    };
    let r = frame.flatten(
        &scene,
        SceneItemKind::StackingContext(&scene.stacking_contexts[0]),
        &info,
        &mut context,
        0,
        0,
    );
    assert_eq!(r, Err(FrameError::MissingScrollLayer));

    let mut child_scene = cr_scene(vec![cr_draw(1)]);
    child_scene.stacking_contexts[0].stacking_context.scroll_layer_id =
        Some(ScrollLayerId::Normal(6));
    let mut frame = Frame::new();
    frame.render_targets.push(frame_builder::render_target::RenderTarget::new(
        RenderTargetId(0),
        10,
        10,
    ));
    let r = frame.flatten(
        &child_scene,
        SceneItemKind::StackingContext(&child_scene.stacking_contexts[0]),
        &info,
        &mut context,
        0,
        MAX_NESTING,
    );
    assert_eq!(r, Err(FrameError::NestingTooDeep));
    let r = frame.flatten(
        &child_scene,
        SceneItemKind::StackingContext(&child_scene.stacking_contexts[0]),
        &info,
        &mut context,
        0,
        0,
    );
    assert_eq!(r, Err(FrameError::MissingScrollLayer));
}

#[test]
fn building_anew_keeps_where_the_layers_were_scrolled_to() {
    let mut scene = cr_scene(vec![cr_draw(1)]);
    scene.stacking_contexts[0].stacking_context.overflow = cr_rect(0, 0, 1000, 600);
    let mut cache = ResourceCache::new();
    cache.add_draw_list(cr_draw_list(1, vec![cr_rect(0, 0, 1, 1)]));
    let mut sizes = vec![];
    let mut frame = Frame::new();
    assert_eq!(frame.create(&scene, &mut cache, &mut sizes, cr_viewport()), Ok(()));
    assert_eq!(frame.layers[1].scroll_offset, Point { x: 0, y: 0 });
    frame.layers[1].scroll_offset = Point { x: -120, y: 0 };
    assert_eq!(frame.create(&scene, &mut cache, &mut sizes, cr_viewport()), Ok(()));
    assert_eq!(frame.layers[1].scroll_offset, Point { x: -120, y: 0 });
    assert_eq!(frame.layers[0].scroll_offset, Point { x: 0, y: 0 });
    // Names are never given out twice.
    assert_eq!(frame.render_targets[0].id, RenderTargetId(1));
    assert_eq!(frame.draw_list_groups[0].id, DrawListGroupId(1));
}

#[test]
fn reset_after_create_leaves_nothing() {
    let scene = cr_scene(vec![cr_draw(1)]);
    let mut cache = ResourceCache::new();
    cache.add_draw_list(cr_draw_list(1, vec![cr_rect(0, 0, 1, 1)]));
    let mut sizes = vec![];
    let mut frame = Frame::new();
    assert_eq!(frame.create(&scene, &mut cache, &mut sizes, cr_viewport()), Ok(()));
    frame.layers[1].scroll_offset = Point { x: 0, y: -3 };
    let offsets = frame.reset(&mut cache);
    assert_eq!(
        offsets,
        vec![
            (ScrollLayerId::Fixed, Point { x: 0, y: 0 }),
            (ScrollLayerId::Normal(0), Point { x: 0, y: -3 }),
        ]
    );
    assert!(frame.layers.is_empty());
    assert!(frame.draw_list_groups.is_empty());
    assert!(frame.stacking_context_info.is_empty());
    assert!(frame.render_targets.is_empty());
    assert!(frame.pipeline_epoch_map.is_empty());
    assert!(cache.render_targets.is_empty());
    assert_eq!(cache.next_texture_id, 0);
    assert_eq!(frame.reset(&mut cache), vec![]);
}

#[test]
fn flattening_onto_a_render_target_that_is_not_there_fails() {
    let scene = cr_scene(vec![cr_draw(1)]);
    let mut frame = Frame::new();
    let mut context = FlattenContext {
        draw_lists: vec![cr_draw_list(1, vec![])],
        pipeline_sizes: vec![],
        current_draw_list_group: None,
    };
    let info = FlattenInfo {
        viewport_size: cr_viewport(),
        current_clip_rect: max_rect_value(),
        default_scroll_layer_id: ScrollLayerId::Normal(0),
        actual_scroll_layer_id: ScrollLayerId::Normal(0),
        offset_from_origin: Point { x: 0, y: 0 },
        offset_from_current_layer: Point { x: 0, y: 0 },
        transform: Transform { factors: vec![] },
        perspective: Transform { factors: vec![] },
    };
    let r = frame.flatten(
        &scene,
        SceneItemKind::StackingContext(&scene.stacking_contexts[0]),
        &info,
        &mut context,
        0,
        0,
    );
    assert_eq!(r, Err(FrameError::MissingRenderTarget));
    assert_eq!(
        frame.add_items_to_target(&scene, &vec![cr_draw(1)], &info, 3, &mut context, 0),
        Err(FrameError::MissingRenderTarget)
    );
    assert!(frame.stacking_context_info.is_empty());
    assert_eq!(frame.draw_commands(&context.draw_lists, 0), vec![]);
}
