use frame_builder::composition::MixBlendMode;
use frame_builder::error::FrameError;
use frame_builder::geometry::{Point, Rect, Size};
use frame_builder::paint_order::{sort_by_z_index, SceneItemKind, SceneItemWithZOrder};
use frame_builder::scene::{
    IframeInfo, Scene, SceneDisplayList, SceneItem, ScenePipeline, SceneStackingContext,
    SpecificSceneItem, StackingContext,
};
use frame_builder::transform::Transform;
use frame_builder::types::{
    DisplayListId, DrawListId, Epoch, PipelineId, ScrollPolicy, StackingContextId, StackingLevel,
};

fn po_rect(x: i32, y: i32, w: i32, h: i32) -> Rect {
    Rect { origin: Point { x, y }, size: Size { width: w, height: h } }
}

fn po_context(id: u32, z_index: i32, display_lists: Vec<DisplayListId>) -> SceneStackingContext {
    SceneStackingContext {
        id: StackingContextId(0, id),
        pipeline_id: PipelineId(0, 0),
        epoch: Epoch(0),
        stacking_context: StackingContext {
            scroll_layer_id: None,
            scroll_policy: ScrollPolicy::Scrollable,
            bounds: po_rect(0, 0, 100, 100),
            overflow: po_rect(0, 0, 100, 100),
            z_index,
            display_lists,
            transform: Transform { factors: vec![] },
            perspective: Transform { factors: vec![] },
            establishes_3d_context: false,
            mix_blend_mode: MixBlendMode::Normal,
            filters: vec![],
            has_stacking_contexts: false,
        },
    }
}

fn draw(level: StackingLevel, id: u32) -> SceneItem {
    SceneItem { stacking_level: level, specific: SpecificSceneItem::DrawList(DrawListId(id)) }
}

fn child(level: StackingLevel, id: u32) -> SceneItem {
    SceneItem {
        stacking_level: level,
        specific: SpecificSceneItem::StackingContext(StackingContextId(0, id)),
    }
}

#[test]
fn positioned_children_are_painted_by_z_around_the_content() {
    let mut scene = Scene::new();
    scene.stacking_contexts.push(po_context(0, 0, vec![DisplayListId(0, 0)]));
    scene.stacking_contexts.push(po_context(1, 2, vec![]));
    scene.stacking_contexts.push(po_context(2, -1, vec![]));
    scene.stacking_contexts.push(po_context(3, 0, vec![]));
    scene.stacking_contexts.push(po_context(4, 1, vec![]));
    scene.display_lists.push(SceneDisplayList {
        id: DisplayListId(0, 0),
        items: vec![
            draw(StackingLevel::Outlines, 60),
            child(StackingLevel::PositionedContent, 1),
            draw(StackingLevel::Content, 50),
            child(StackingLevel::PositionedContent, 2),
            draw(StackingLevel::Floats, 40),
            child(StackingLevel::PositionedContent, 3),
            draw(StackingLevel::Content, 51),
            child(StackingLevel::PositionedContent, 4),
            draw(StackingLevel::BlockBackgroundAndBorders, 30),
            draw(StackingLevel::BackgroundAndBorders, 10),
        ],
    });
    let items =
        SceneItemKind::StackingContext(&scene.stacking_contexts[0]).collect_scene_items(&scene);
    assert_eq!(
        items,
        Ok(vec![
            draw(StackingLevel::BackgroundAndBorders, 10),
            child(StackingLevel::PositionedContent, 2),
            draw(StackingLevel::BlockBackgroundAndBorders, 30),
            draw(StackingLevel::Floats, 40),
            draw(StackingLevel::Content, 50),
            draw(StackingLevel::Content, 51),
            child(StackingLevel::PositionedContent, 3),
            child(StackingLevel::PositionedContent, 4),
            child(StackingLevel::PositionedContent, 1),
            draw(StackingLevel::Outlines, 60),
        ])
    );
}

#[test]
fn items_of_equal_z_keep_their_order() {
    let item = |id: u32, z: i32| SceneItemWithZOrder {
        item: draw(StackingLevel::PositionedContent, id),
        z_index: z,
    };
    let sorted = sort_by_z_index(&vec![
        item(1, 5),
        item(2, 0),
        item(3, 5),
        item(4, -7),
        item(5, 0),
        item(6, 5),
        item(7, -7),
    ]);
    assert_eq!(
        sorted,
        vec![item(4, -7), item(7, -7), item(2, 0), item(5, 0), item(1, 5), item(3, 5), item(6, 5)]
    );
    assert_eq!(sort_by_z_index(&vec![]), vec![]);
}

#[test]
fn draw_lists_and_iframes_among_positioned_content_count_as_z_zero() {
    let mut scene = Scene::new();
    scene.stacking_contexts.push(po_context(0, 0, vec![DisplayListId(0, 0)]));
    scene.stacking_contexts.push(po_context(1, -3, vec![]));
    scene.stacking_contexts.push(po_context(2, 3, vec![]));
    let iframe = SceneItem {
        stacking_level: StackingLevel::PositionedContent,
        specific: SpecificSceneItem::Iframe(IframeInfo {
            id: PipelineId(1, 0),
            bounds: po_rect(0, 0, 10, 10),
        }),
    };
    scene.display_lists.push(SceneDisplayList {
        id: DisplayListId(0, 0),
        items: vec![
            child(StackingLevel::PositionedContent, 2),
            iframe,
            draw(StackingLevel::PositionedContent, 7),
            child(StackingLevel::PositionedContent, 1),
        ],
    });
    let items =
        SceneItemKind::StackingContext(&scene.stacking_contexts[0]).collect_scene_items(&scene);
    assert_eq!(
        items,
        Ok(vec![
            child(StackingLevel::PositionedContent, 1),
            iframe,
            draw(StackingLevel::PositionedContent, 7),
            child(StackingLevel::PositionedContent, 2),
        ])
    );
}

#[test]
fn the_background_of_a_pipeline_is_painted_first() {
    let mut scene = Scene::new();
    scene
        .stacking_contexts
        .push(po_context(0, 0, vec![DisplayListId(0, 0), DisplayListId(0, 1)]));
    scene.display_lists.push(SceneDisplayList {
        id: DisplayListId(0, 1),
        items: vec![draw(StackingLevel::BackgroundAndBorders, 2)],
    });
    scene.display_lists.push(SceneDisplayList {
        id: DisplayListId(0, 0),
        items: vec![draw(StackingLevel::BackgroundAndBorders, 1)],
    });
    let pipeline = ScenePipeline {
        pipeline_id: PipelineId(0, 0),
        epoch: Epoch(1),
        background_draw_list: Some(DrawListId(99)),
        root_stacking_context_id: StackingContextId(0, 0),
    };
    assert_eq!(
        SceneItemKind::Pipeline(&pipeline).collect_scene_items(&scene),
        Ok(vec![
            draw(StackingLevel::BackgroundAndBorders, 99),
            draw(StackingLevel::BackgroundAndBorders, 1),
            draw(StackingLevel::BackgroundAndBorders, 2),
        ])
    );
    let plain = ScenePipeline { background_draw_list: None, ..pipeline };
    assert_eq!(
        SceneItemKind::Pipeline(&plain).collect_scene_items(&scene),
        Ok(vec![
            draw(StackingLevel::BackgroundAndBorders, 1),
            draw(StackingLevel::BackgroundAndBorders, 2),
        ])
    );
}

#[test]
fn a_stacking_context_without_items_has_nothing_to_paint() {
    let mut scene = Scene::new();
    scene.stacking_contexts.push(po_context(0, 0, vec![]));
    assert_eq!(
        SceneItemKind::StackingContext(&scene.stacking_contexts[0]).collect_scene_items(&scene),
        Ok(vec![])
    );
}

#[test]
fn a_missing_display_list_is_an_error() {
    let mut scene = Scene::new();
    scene.stacking_contexts.push(po_context(0, 0, vec![DisplayListId(0, 5)]));
    assert_eq!(
        SceneItemKind::StackingContext(&scene.stacking_contexts[0]).collect_scene_items(&scene),
        Err(FrameError::MissingDisplayList)
    );
}

#[test]
fn a_positioned_child_that_the_scene_does_not_hold_is_an_error() {
    let mut scene = Scene::new();
    scene.stacking_contexts.push(po_context(0, 0, vec![DisplayListId(0, 0)]));
    scene.display_lists.push(SceneDisplayList {
        id: DisplayListId(0, 0),
        items: vec![child(StackingLevel::PositionedContent, 9)],
    });
    assert_eq!(
        SceneItemKind::StackingContext(&scene.stacking_contexts[0]).collect_scene_items(&scene),
        Err(FrameError::MissingStackingContext)
    );
}

#[test]
fn a_pipeline_without_its_root_stacking_context_is_an_error() {
    let scene = Scene::new();
    let pipeline = ScenePipeline {
        pipeline_id: PipelineId(0, 0),
        epoch: Epoch(1),
        background_draw_list: None,
        root_stacking_context_id: StackingContextId(0, 0),
    };
    assert_eq!(
        SceneItemKind::Pipeline(&pipeline).collect_scene_items(&scene),
        Err(FrameError::MissingStackingContext)
    );
}

#[test]
fn the_first_of_several_items_with_one_name_is_the_one_found() {
    let mut scene = Scene::new();
    scene.stacking_contexts.push(po_context(1, 10, vec![]));
    scene.stacking_contexts.push(po_context(1, 20, vec![]));
    assert_eq!(
        scene.find_stacking_context(StackingContextId(0, 1)).map(|c| c.stacking_context.z_index),
        Some(10)
    );
    assert!(scene.find_stacking_context(StackingContextId(0, 2)).is_none());
    assert!(scene.find_pipeline(PipelineId(0, 0)).is_none());
    assert!(scene.find_display_list(DisplayListId(0, 0)).is_none());
}
