use frame_builder::batch::{
    Batch, BatchList, BatchUpdate, BatchUpdateOp, CompiledNode, PackedVertex, ResourceList,
    TileParams, VertexBuffer,
};
use frame_builder::collect::{DrawTargetInfo, Origin};
use frame_builder::commands::{DrawCall, DrawCommand, OffsetParams};
use frame_builder::composition::{CompositionOp, FilterOp, LowLevelFilterOp, MixBlendMode};
use frame_builder::error::FrameError;
use frame_builder::frame::Frame;
use frame_builder::geometry::{Point, Rect, Size};
use frame_builder::nodes::NodeKey;
use frame_builder::render_target::{CompositeBatchInfo, CompositeBatchJob};
use frame_builder::resource_cache::{
    DisplayItem, DrawList, ImageFormat, RenderTargetTexture, ResourceCache,
};
use frame_builder::scene::{
    Scene, SceneDisplayList, SceneItem, ScenePipeline, SceneStackingContext, SpecificSceneItem,
    StackingContext,
};
use frame_builder::transform::{Factor, Transform};
use frame_builder::types::{
    DisplayListId, DrawListGroupId, DrawListId, Epoch, MatrixId, PipelineId, RenderTargetIndex,
    ScrollLayerId, ScrollPolicy, StackingContextId, StackingLevel, TextureId, VertexBufferId,
};

fn bu_rect(x: i32, y: i32, w: i32, h: i32) -> Rect {
    Rect { origin: Point { x, y }, size: Size { width: w, height: h } }
}

fn bu_context(id: u32, bounds: Rect, overflow: Rect) -> SceneStackingContext {
    SceneStackingContext {
        id: StackingContextId(0, id),
        pipeline_id: PipelineId(0, 0),
        epoch: Epoch(1),
        stacking_context: StackingContext {
            scroll_layer_id: None,
            scroll_policy: ScrollPolicy::Scrollable,
            bounds,
            overflow,
            z_index: 0,
            display_lists: vec![DisplayListId(0, id)],
            transform: Transform { factors: vec![] },
            perspective: Transform { factors: vec![] },
            establishes_3d_context: false,
            mix_blend_mode: MixBlendMode::Normal,
            filters: vec![],
            has_stacking_contexts: false,
        },
    }
}

fn bu_draw(id: u32) -> SceneItem {
    SceneItem {
        stacking_level: StackingLevel::Content,
        specific: SpecificSceneItem::DrawList(DrawListId(id)),
    }
}

fn bu_child(id: u32) -> SceneItem {
    SceneItem {
        stacking_level: StackingLevel::Content,
        specific: SpecificSceneItem::StackingContext(StackingContextId(0, id)),
    }
}

fn bu_scene(root_overflow: Rect, root_items: Vec<SceneItem>) -> Scene {
    let mut scene = Scene::new();
    scene.root_pipeline_id = Some(PipelineId(0, 0));
    scene.pipelines.push(ScenePipeline {
        pipeline_id: PipelineId(0, 0),
        epoch: Epoch(1),
        background_draw_list: None,
        root_stacking_context_id: StackingContextId(0, 0),
    });
    let mut root = bu_context(0, bu_rect(0, 0, 800, 600), root_overflow);
    root.stacking_context.scroll_layer_id = Some(ScrollLayerId::Normal(0));
    scene.stacking_contexts.push(root);
    scene.display_lists.push(SceneDisplayList { id: DisplayListId(0, 0), items: root_items });
    scene
}

fn bu_cache(lists: Vec<(u32, Vec<Rect>)>) -> ResourceCache {
    let mut cache = ResourceCache::new();
    for (id, rects) in lists {
        cache.add_draw_list(DrawList {
            id: DrawListId(id),
            items: rects.into_iter().map(|rect| DisplayItem { rect }).collect(),
            stacking_context_index: None,
        });
    }
    cache
}

fn bu_create(scene: &Scene, cache: &mut ResourceCache) -> Frame {
    let mut frame = Frame::new();
    let mut sizes = vec![];
    assert_eq!(
        frame.create(scene, cache, &mut sizes, Size { width: 800, height: 600 }),
        Ok(())
    );
    frame
}

fn bu_vertex(n: u32) -> PackedVertex {
    PackedVertex { position: n, color: n + 1, texture: n + 2, indices: n + 3 }
}

fn bu_compiled(group: u32, buffer: u32, clips: Vec<Rect>) -> CompiledNode {
    CompiledNode {
        batch_list: vec![
            BatchList { draw_list_group_id: DrawListGroupId(group + 100), batches: vec![] },
            BatchList {
                draw_list_group_id: DrawListGroupId(group),
                batches: vec![Batch {
                    tile_params: vec![TileParams { u0: 1, v0: 2, u_size: 3, v_size: 4 }],
                    clip_rects: clips,
                    color_texture_id: TextureId(70),
                    mask_texture_id: TextureId(71),
                    first_instance: 5,
                    instance_count: 6,
                }],
            },
        ],
        vertex_buffer: Some(VertexBuffer {
            id: VertexBufferId(buffer),
            vertices: vec![bu_vertex(buffer)],
        }),
        vertex_buffer_id: None,
    }
}

#[test]
fn culling_marks_what_the_viewport_shows() {
    let scene = bu_scene(bu_rect(0, 0, 800, 3000), vec![bu_draw(1)]);
    let mut cache = bu_cache(vec![(
        1,
        vec![
            bu_rect(0, 0, 100, 100),
            bu_rect(0, 700, 100, 100),
            bu_rect(790, 590, 100, 100),
            bu_rect(800, 0, 10, 10),
            bu_rect(0, 600, 10, 10),
        ],
    )]);
    let mut frame = bu_create(&scene, &mut cache);
    frame.cull();
    let seen: Vec<bool> = frame.layers[1].nodes.iter().map(|n| n.is_visible).collect();
    assert_eq!(seen, vec![true, false, true, false, false]);
    frame.scroll(Point { x: 0, y: -150 }, &vec![true]);
    frame.cull();
    let seen: Vec<bool> = frame.layers[1].nodes.iter().map(|n| n.is_visible).collect();
    assert_eq!(seen, vec![false, true, true, false, true]);
}

#[test]
fn visible_nodes_go_to_the_embedder_once() {
    let scene = bu_scene(bu_rect(0, 0, 800, 3000), vec![bu_draw(1)]);
    let mut cache = bu_cache(vec![(
        1,
        vec![bu_rect(0, 0, 100, 100), bu_rect(0, 700, 100, 100), bu_rect(5, 5, 5, 5)],
    )]);
    let mut frame = bu_create(&scene, &mut cache);
    assert_eq!(frame.nodes_to_compile(), vec![]);
    frame.cull();
    let keys = frame.nodes_to_compile();
    assert_eq!(keys, vec![NodeKey { layer: 1, node: 0 }, NodeKey { layer: 1, node: 2 }]);

    frame.update_resource_lists(vec![
        (keys[0], ResourceList { required: vec![1, 2] }),
        (keys[1], ResourceList { required: vec![3] }),
        (NodeKey { layer: 1, node: 1 }, ResourceList { required: vec![4] }),
        (NodeKey { layer: 9, node: 0 }, ResourceList { required: vec![5] }),
        (NodeKey { layer: 1, node: 9 }, ResourceList { required: vec![6] }),
    ]);
    assert_eq!(frame.layers[1].nodes[0].resource_list, Some(ResourceList { required: vec![1, 2] }));
    frame.update_texture_cache_and_build_raster_jobs(&mut cache);
    // The node at 1 is not to be drawn, so what it needs is not asked for.
    assert_eq!(cache.pending_resources, vec![1, 2, 3]);

    frame.compile_visible_nodes(vec![
        (keys[0], bu_compiled(0, 40, vec![])),
        (NodeKey { layer: 1, node: 1 }, bu_compiled(0, 41, vec![])),
        (NodeKey { layer: 7, node: 7 }, bu_compiled(0, 42, vec![])),
    ]);
    assert_eq!(frame.layers[1].nodes[0].compiled_node, Some(bu_compiled(0, 40, vec![])));
    assert_eq!(frame.layers[1].nodes[1].compiled_node, None);
    assert_eq!(frame.nodes_to_compile(), vec![keys[1]]);
    // A node that has been compiled is not compiled again.
    frame.compile_visible_nodes(vec![(keys[0], bu_compiled(0, 43, vec![]))]);
    assert_eq!(frame.layers[1].nodes[0].compiled_node, Some(bu_compiled(0, 40, vec![])));
}

#[test]
fn new_vertex_buffers_are_passed_on_once() {
    let scene = bu_scene(bu_rect(0, 0, 800, 600), vec![bu_draw(1)]);
    let mut cache = bu_cache(vec![(1, vec![bu_rect(0, 0, 1, 1), bu_rect(1, 1, 1, 1)])]);
    let mut frame = bu_create(&scene, &mut cache);
    frame.cull();
    frame.compile_visible_nodes(vec![
        (NodeKey { layer: 1, node: 0 }, bu_compiled(0, 40, vec![])),
        (NodeKey { layer: 1, node: 1 }, bu_compiled(0, 41, vec![])),
    ]);
    frame.update_batch_cache();
    let expected = vec![
        BatchUpdate { id: VertexBufferId(40), op: BatchUpdateOp::Create(vec![bu_vertex(40)]) },
        BatchUpdate { id: VertexBufferId(41), op: BatchUpdateOp::Create(vec![bu_vertex(41)]) },
    ];
    assert_eq!(frame.pending_updates.updates, expected);
    let node = frame.layers[1].nodes[0].compiled_node.as_ref().unwrap();
    assert_eq!(node.vertex_buffer, None);
    assert_eq!(node.vertex_buffer_id, Some(VertexBufferId(40)));
    frame.update_batch_cache();
    assert_eq!(frame.pending_updates.updates, expected);
    assert_eq!(frame.pending_updates().updates, expected);
    assert!(frame.pending_updates.updates.is_empty());
    assert!(frame.pending_updates().updates.is_empty());

    // Emptying the frame tells the renderer to drop the buffers.
    frame.reset(&mut cache);
    assert_eq!(
        frame.pending_updates.updates,
        vec![
            BatchUpdate { id: VertexBufferId(40), op: BatchUpdateOp::Destroy },
            BatchUpdate { id: VertexBufferId(41), op: BatchUpdateOp::Destroy },
        ]
    );
}

fn bu_nested_layers() -> (Frame, ResourceCache) {
    let mut scene = bu_scene(bu_rect(0, 0, 800, 2000), vec![bu_draw(1), bu_child(1), bu_child(2)]);
    let mut inner = bu_context(1, bu_rect(10, 20, 400, 300), bu_rect(0, 0, 400, 900));
    inner.stacking_context.scroll_layer_id = Some(ScrollLayerId::Normal(1));
    inner.stacking_context.transform = Transform { factors: vec![Factor::Matrix(MatrixId(7))] };
    scene.stacking_contexts.push(inner);
    scene.display_lists.push(SceneDisplayList { id: DisplayListId(0, 1), items: vec![bu_draw(1)] });
    let mut fixed = bu_context(2, bu_rect(0, 0, 100, 100), bu_rect(0, 0, 100, 100));
    fixed.stacking_context.scroll_policy = ScrollPolicy::Fixed;
    scene.stacking_contexts.push(fixed);
    scene.display_lists.push(SceneDisplayList { id: DisplayListId(0, 2), items: vec![bu_child(3)] });
    let mut below_fixed = bu_context(3, bu_rect(0, 0, 100, 100), bu_rect(0, 0, 100, 100));
    below_fixed.stacking_context.scroll_layer_id = Some(ScrollLayerId::Normal(3));
    scene.stacking_contexts.push(below_fixed);
    scene.display_lists.push(SceneDisplayList { id: DisplayListId(0, 3), items: vec![bu_draw(1)] });
    let mut cache = bu_cache(vec![(1, vec![bu_rect(0, 0, 10, 10)])]);
    let frame = bu_create(&scene, &mut cache);
    (frame, cache)
}

#[test]
fn world_transforms_follow_the_parents() {
    let (mut frame, _) = bu_nested_layers();
    let ids: Vec<ScrollLayerId> = frame.layers.iter().map(|l| l.id).collect();
    assert_eq!(
        ids,
        vec![
            ScrollLayerId::Fixed,
            ScrollLayerId::Normal(0),
            ScrollLayerId::Normal(1),
            ScrollLayerId::Normal(3),
        ]
    );
    assert_eq!(frame.layers[0].children, vec![ScrollLayerId::Normal(3)]);
    frame.layers[1].scroll_offset = Point { x: 0, y: -100 };
    frame.layers[2].scroll_offset = Point { x: 0, y: -7 };
    frame.update_layer_transforms();
    assert_eq!(
        frame.layers[1].world_transform,
        Transform { factors: vec![Factor::Translation { x: 0, y: -100 }] }
    );
    assert_eq!(
        frame.layers[2].world_transform,
        Transform {
            factors: vec![
                Factor::Translation { x: 0, y: -100 },
                Factor::Translation { x: 10, y: 20 },
                Factor::Matrix(MatrixId(7)),
                Factor::Translation { x: -10, y: -20 },
                Factor::Translation { x: 0, y: -7 },
            ]
        }
    );
    // The walk starts at the root scroll layer, so it never comes to the layer
    // of content that does not scroll, nor to what is below that.
    assert_eq!(frame.layers[0].world_transform, Transform { factors: vec![] });
    assert_eq!(frame.layers[3].world_transform, frame.layers[3].local_transform);
    let before = frame.layers[2].world_transform.duplicate();
    frame.update_layer_transforms();
    assert_eq!(frame.layers[2].world_transform, before);
}

#[test]
fn a_layer_stands_where_its_stacking_context_stands() {
    let mut scene = bu_scene(bu_rect(0, 0, 800, 2000), vec![bu_child(1)]);
    scene.stacking_contexts.push(bu_context(1, bu_rect(30, 40, 400, 300), bu_rect(0, 0, 400, 300)));
    scene.display_lists.push(SceneDisplayList { id: DisplayListId(0, 1), items: vec![bu_child(2)] });
    let mut inner = bu_context(2, bu_rect(5, 5, 100, 100), bu_rect(0, 0, 100, 600));
    inner.stacking_context.scroll_layer_id = Some(ScrollLayerId::Normal(2));
    scene.stacking_contexts.push(inner);
    scene.display_lists.push(SceneDisplayList { id: DisplayListId(0, 2), items: vec![bu_draw(1)] });
    let mut cache = bu_cache(vec![(1, vec![])]);
    let mut frame = bu_create(&scene, &mut cache);
    assert_eq!(frame.layers[2].world_origin, Point { x: 30, y: 40 });
    frame.update_layer_transforms();
    // The perspective of the parent, its transform, the own transform about
    // the own origin, and then the move to where the layer stands.
    assert_eq!(
        frame.layers[2].world_transform,
        Transform {
            factors: vec![
                Factor::Translation { x: 30, y: 40 },
                Factor::Translation { x: -30, y: -40 },
                Factor::Translation { x: 30, y: 40 },
                Factor::Translation { x: -30, y: -40 },
                Factor::Translation { x: 35, y: 45 },
                Factor::Translation { x: -35, y: -45 },
                Factor::Translation { x: 30, y: 40 },
            ]
        }
    );
}

#[test]
fn one_draw_list_yields_one_batch_with_the_identity() {
    let scene = bu_scene(bu_rect(0, 0, 800, 600), vec![bu_draw(1)]);
    let mut cache = bu_cache(vec![(1, vec![bu_rect(10, 10, 100, 100)])]);
    let mut frame = bu_create(&scene, &mut cache);
    frame.cull();
    frame.compile_visible_nodes(vec![(
        NodeKey { layer: 1, node: 0 },
        bu_compiled(0, 40, vec![bu_rect(10, 10, 100, 100), bu_rect(700, 500, 200, 200)]),
    )]);
    let built = frame.build(&mut cache, 1).unwrap();
    assert_eq!(built.pipeline_epoch_map, vec![(PipelineId(0, 0), Epoch(1))]);
    assert_eq!(built.layers.len(), 1);
    let root = &built.layers[0];
    assert_eq!(root.draw_target_info, None);
    assert_eq!(root.child_layers, vec![]);
    assert_eq!(root.layer_origin, Origin { x: 0, y: 0 });
    assert_eq!((root.layer_width, root.layer_height), (800, 600));
    assert_eq!(root.commands.len(), 1);
    match &root.commands[0] {
        DrawCommand::Batch(info) => {
            assert_eq!(info.matrix_palette, vec![Transform { factors: vec![] }]);
            assert_eq!(
                info.offset_palette,
                vec![OffsetParams { stacking_context_x0: 0, stacking_context_y0: 0 }]
            );
            assert_eq!(
                info.draw_calls,
                vec![DrawCall {
                    tile_params: vec![TileParams { u0: 1, v0: 2, u_size: 3, v_size: 4 }],
                    clip_rects: vec![bu_rect(10, 10, 100, 100), bu_rect(700, 500, 100, 100)],
                    vertex_buffer_id: VertexBufferId(40),
                    color_texture_id: TextureId(70),
                    mask_texture_id: TextureId(71),
                    first_instance: 5,
                    instance_count: 6,
                }]
            );
        }
        other => panic!("unexpected command {:?}", other),
    }
    assert!(cache.render_targets.is_empty());
}

#[test]
fn clips_of_draw_calls_follow_the_scrolling() {
    let scene = bu_scene(bu_rect(0, 0, 800, 2000), vec![bu_draw(1)]);
    let mut cache = bu_cache(vec![(1, vec![bu_rect(0, 0, 800, 2000)])]);
    let mut frame = bu_create(&scene, &mut cache);
    frame.scroll(Point { x: 0, y: -1000 }, &vec![true]);
    frame.cull();
    frame.compile_visible_nodes(vec![(
        NodeKey { layer: 1, node: 0 },
        bu_compiled(0, 40, vec![bu_rect(0, 0, 800, 2000), bu_rect(0, 0, 10, 10)]),
    )]);
    let built = frame.build(&mut cache, 1).unwrap();
    match &built.layers[0].commands[0] {
        DrawCommand::Batch(info) => {
            assert_eq!(
                info.draw_calls[0].clip_rects,
                vec![bu_rect(0, 1000, 800, 600), bu_rect(0, 0, 0, 0)]
            );
            assert_eq!(
                info.matrix_palette,
                vec![Transform { factors: vec![Factor::Translation { x: 0, y: -1000 }] }]
            );
        }
        other => panic!("unexpected command {:?}", other),
    }
}

#[test]
fn nodes_that_are_not_ready_are_not_drawn() {
    let scene = bu_scene(bu_rect(0, 0, 800, 2000), vec![bu_draw(1), bu_draw(2)]);
    let mut cache = bu_cache(vec![
        (1, vec![bu_rect(0, 0, 10, 10), bu_rect(0, 1000, 10, 10), bu_rect(0, 0, 20, 20)]),
        (2, vec![bu_rect(0, 0, 30, 30)]),
    ]);
    let mut frame = bu_create(&scene, &mut cache);
    frame.cull();
    frame.compile_visible_nodes(vec![
        (NodeKey { layer: 1, node: 0 }, bu_compiled(0, 40, vec![])),
        // Compiled for another group.
        (NodeKey { layer: 1, node: 3 }, bu_compiled(5, 43, vec![])),
    ]);
    // Not to be drawn, though compiled.
    frame.layers[1].nodes[1].compiled_node = Some(bu_compiled(0, 41, vec![]));
    let built = frame.build(&mut cache, 1).unwrap();
    match &built.layers[0].commands[0] {
        DrawCommand::Batch(info) => {
            assert_eq!(info.matrix_palette.len(), 2);
            assert_eq!(info.offset_palette.len(), 2);
            let buffers: Vec<VertexBufferId> =
                info.draw_calls.iter().map(|c| c.vertex_buffer_id).collect();
            assert_eq!(buffers, vec![VertexBufferId(40)]);
        }
        other => panic!("unexpected command {:?}", other),
    }
}

fn bu_with_children(sizes: Vec<(i32, i32)>) -> (Frame, ResourceCache) {
    let n = sizes.len() as u32;
    let mut scene = bu_scene(bu_rect(0, 0, 8000, 6000), (1..=n).map(bu_child).collect());
    for (i, (w, h)) in sizes.into_iter().enumerate() {
        let id = i as u32 + 1;
        let mut inner = bu_context(id, bu_rect(0, 0, w, h), bu_rect(0, 0, w, h));
        inner.stacking_context.filters = vec![FilterOp::Opacity(30)];
        scene.stacking_contexts.push(inner);
        scene.display_lists.push(SceneDisplayList {
            id: DisplayListId(0, id),
            items: vec![bu_draw(1)],
        });
    }
    let mut cache = bu_cache(vec![(1, vec![bu_rect(0, 0, 10, 10)])]);
    let mut frame = Frame::new();
    let mut pipeline_sizes = vec![];
    assert_eq!(
        frame.create(&scene, &mut cache, &mut pipeline_sizes, Size { width: 8000, height: 6000 }),
        Ok(())
    );
    (frame, cache)
}

#[test]
fn children_of_a_render_target_are_packed_into_one_texture() {
    let (mut frame, mut cache) = bu_with_children(vec![(1000, 100), (1000, 300), (1000, 200), (50, 50)]);
    let built = frame.build(&mut cache, 2).unwrap();
    assert_eq!(built.layers.len(), 5);
    let root = &built.layers[0];
    assert_eq!(
        root.draw_target_info,
        Some(DrawTargetInfo { texture_id: TextureId(0), width: 2048, height: 2048 })
    );
    assert_eq!(root.child_layers, vec![1, 2, 3, 4]);
    let origins: Vec<Origin> = built.layers[1..].iter().map(|l| l.layer_origin).collect();
    assert_eq!(
        origins,
        vec![
            Origin { x: 0, y: 0 },
            Origin { x: 1000, y: 0 },
            Origin { x: 0, y: 300 },
            Origin { x: 1000, y: 300 },
        ]
    );
    assert_eq!((built.layers[2].layer_width, built.layers[2].layer_height), (1000, 300));
    assert_eq!(built.layers[1].draw_target_info, None);
    assert_eq!(
        cache.render_targets,
        vec![RenderTargetTexture {
            id: TextureId(0),
            width: 4096,
            height: 4096,
            format: ImageFormat::RGBA8,
        }]
    );
    assert_eq!(frame.render_targets[0].child_texture_id, Some(TextureId(0)));
    assert_eq!(
        root.commands,
        vec![DrawCommand::CompositeBatch(CompositeBatchInfo {
            operation: CompositionOp::Filter(LowLevelFilterOp::Opacity(30)),
            jobs: vec![
                CompositeBatchJob {
                    rect: bu_rect(0, 0, 1000, 100),
                    render_target_index: RenderTargetIndex(0),
                },
                CompositeBatchJob {
                    rect: bu_rect(0, 0, 1000, 300),
                    render_target_index: RenderTargetIndex(1),
                },
                CompositeBatchJob {
                    rect: bu_rect(0, 0, 1000, 200),
                    render_target_index: RenderTargetIndex(2),
                },
                CompositeBatchJob {
                    rect: bu_rect(0, 0, 50, 50),
                    render_target_index: RenderTargetIndex(3),
                },
            ],
        })]
    );
}

#[test]
fn building_twice_draws_the_same_and_holds_one_texture() {
    let (mut frame, mut cache) = bu_with_children(vec![(100, 100), (200, 200)]);
    frame.cull();
    let keys = frame.nodes_to_compile();
    assert_eq!(keys.len(), 2);
    frame.compile_visible_nodes(vec![
        (keys[0], bu_compiled(0, 40, vec![bu_rect(0, 0, 5, 5)])),
        (keys[1], bu_compiled(1, 41, vec![bu_rect(0, 0, 5, 5)])),
    ]);
    let first = frame.build(&mut cache, 1).unwrap();
    let second = frame.build(&mut cache, 1).unwrap();
    assert_eq!(first.pipeline_epoch_map, second.pipeline_epoch_map);
    assert_eq!(first.layers.len(), second.layers.len());
    for (a, b) in first.layers.iter().zip(second.layers.iter()) {
        assert_eq!(a.commands, b.commands);
        assert_eq!(a.child_layers, b.child_layers);
        assert_eq!(a.layer_origin, b.layer_origin);
    }
    assert_eq!(
        first.layers[0].draw_target_info.map(|i| i.texture_id),
        Some(TextureId(0))
    );
    assert_eq!(
        second.layers[0].draw_target_info.map(|i| i.texture_id),
        Some(TextureId(1))
    );
    // The texture of the first build went back to the cache.
    let held: Vec<TextureId> = cache.render_targets.iter().map(|t| t.id).collect();
    assert_eq!(held, vec![TextureId(1)]);
    assert_eq!(frame.pending_updates.updates.len(), 2);
    frame.reset(&mut cache);
    assert!(cache.render_targets.is_empty());
    assert_eq!(cache.next_texture_id, 2);
}

#[test]
fn textures_of_nested_render_targets_are_all_different() {
    let mut scene = bu_scene(bu_rect(0, 0, 800, 600), vec![bu_child(1)]);
    let mut outer = bu_context(1, bu_rect(0, 0, 400, 400), bu_rect(0, 0, 400, 400));
    outer.stacking_context.mix_blend_mode = MixBlendMode::Multiply;
    scene.stacking_contexts.push(outer);
    scene.display_lists.push(SceneDisplayList { id: DisplayListId(0, 1), items: vec![bu_child(2)] });
    let mut inner = bu_context(2, bu_rect(10, 10, 100, 100), bu_rect(0, 0, 100, 100));
    inner.stacking_context.filters = vec![FilterOp::Blur(60)];
    scene.stacking_contexts.push(inner);
    scene.display_lists.push(SceneDisplayList { id: DisplayListId(0, 2), items: vec![bu_draw(1)] });
    let mut cache = bu_cache(vec![(1, vec![])]);
    cache.allocate_render_target(1, 1, ImageFormat::A8);
    let mut frame = bu_create(&scene, &mut cache);
    assert_eq!(frame.render_targets.len(), 3);
    assert_eq!(frame.render_targets[0].children, vec![1]);
    assert_eq!(frame.render_targets[1].children, vec![2]);
    assert_eq!((frame.render_targets[2].width, frame.render_targets[2].height), (102, 102));
    let built = frame.build(&mut cache, 1).unwrap();
    let textures: Vec<Option<TextureId>> =
        frame.render_targets.iter().map(|t| t.child_texture_id).collect();
    assert_eq!(textures, vec![Some(TextureId(1)), Some(TextureId(2)), None]);
    assert_eq!(built.layers[1].child_layers, vec![2]);
    assert_eq!(cache.render_targets.len(), 3);
    assert_eq!(built.layers[0].commands.len(), 1);
    assert_eq!(built.layers[1].commands.len(), 2);
    frame.reset(&mut cache);
    let held: Vec<TextureId> = cache.render_targets.iter().map(|t| t.id).collect();
    assert_eq!(held, vec![TextureId(0)]);
}

#[test]
fn children_that_do_not_fit_the_texture_fail_the_build() {
    let (mut frame, mut cache) = bu_with_children(vec![(2049, 10)]);
    assert_eq!(frame.build(&mut cache, 1), Err(FrameError::AtlasOverflow));
    assert!(cache.render_targets.is_empty());
    assert_eq!(frame.render_targets[0].child_texture_id, None);

    let (mut frame, mut cache) = bu_with_children(vec![(2048, 1024), (2048, 1024), (1, 1)]);
    assert_eq!(frame.build(&mut cache, 1), Err(FrameError::AtlasOverflow));
    // The failure is at the root, so nothing has been collected before it.
    assert!(cache.render_targets.is_empty());
    assert!(frame.render_targets.iter().all(|t| t.child_texture_id.is_none()));

    let (mut frame, mut cache) = bu_with_children(vec![(2048, 1024), (2048, 1024)]);
    let built = frame.build(&mut cache, 1).unwrap();
    assert_eq!(built.layers[2].layer_origin, Origin { x: 0, y: 1024 });

    let (mut frame, mut cache) = bu_with_children(vec![(10, 10)]);
    assert_eq!(frame.build(&mut cache, u32::MAX), Err(FrameError::AtlasOverflow));
    assert_eq!(
        frame.collect_and_sort_visible_batches(&mut cache, 0x20_0000),
        Err(FrameError::AtlasOverflow)
    );
    assert!(frame.collect_and_sort_visible_batches(&mut cache, 0x1f_ffff).is_ok());
}

#[test]
fn a_cache_that_is_out_of_textures_fails_the_build() {
    let (mut frame, mut cache) = bu_with_children(vec![(10, 10)]);
    cache.next_texture_id = u32::MAX;
    assert_eq!(frame.build(&mut cache, 1), Err(FrameError::IdsExhausted));
    assert_eq!(cache.allocate_render_target(1, 1, ImageFormat::RGB8), None);
    cache.next_texture_id = 5;
    assert_eq!(cache.allocate_render_target(1, 1, ImageFormat::RGB8), Some(TextureId(5)));
    cache.free_render_target(TextureId(9));
    assert_eq!(cache.render_targets.len(), 1);
    cache.free_render_target(TextureId(5));
    assert!(cache.render_targets.is_empty());
}

#[test]
fn a_frame_without_render_targets_builds_to_nothing() {
    let mut frame = Frame::new();
    let mut cache = ResourceCache::new();
    let built = frame.build(&mut cache, 1).unwrap();
    assert!(built.layers.is_empty());
    assert!(built.pipeline_epoch_map.is_empty());
    assert!(cache.get_draw_list(DrawListId(1)).is_none());
    assert_eq!(frame.find_group(DrawListGroupId(0)), None);
    assert_eq!(frame.find_layer(ScrollLayerId::Fixed), None);
}
