//! What flattening a scene comes to, stated on plain values.
//!
//! A stacking context none of which survives the clip of its parent, or
//! which has nothing to paint, leaves no trace. Any other hands a clip, an
//! offset, a transform and a scroll layer down to its items, and gets a
//! render target of its own if it has composition operations. Draw lists
//! are gathered into groups as they come: a draw list joins the group of
//! the one before it as long as the scroll layer and the render target stay
//! the same and the group has room.

use vstd::prelude::*;
use crate::composition::{CompositionOp, composition_ops, target_of_all};
use crate::draw_list_group::DrawListGroupView;
use crate::error::FrameError;
use crate::frame::{FlattenInfoView, FlattenState, FrameView, layer_ids};
use crate::geometry::{Point, Rect, Size, max_rect, max_int};
use crate::layer::{LayerView, Node};
use crate::lookup::position;
use crate::paint_order::SceneItemKind;
use crate::render_target::{
    ClearInfo, CompositeBatchJob, RenderItemView, RenderTargetView, with_composite,
};
use crate::resource_cache::{DisplayItem, DrawList, draw_list_at};
use crate::scene::{IframeInfo, Scene, SceneItem, SpecificSceneItem, StackingContext};
use crate::table::with_entry;
use crate::transform::{Factor, identity, product, translation};
use crate::types::{
    DrawListGroupId, DrawListId, DrawListItemIndex, Epoch, PipelineId, RenderTargetId,
    RenderTargetIndex, ScrollLayerId, ScrollPolicy, StackingContextIndex,
};

verus! {

/// How deep stacking contexts and iframes may be nested.
pub const MAX_NESTING: u32 = 1024;

/// `m` done about `origin` in place of about the point of origin.
pub open spec fn about(origin: Point, m: Seq<Factor>) -> Seq<Factor> {
    product(
        product(translation(origin.x, origin.y), m),
        translation((-origin.x) as i32, (-origin.y) as i32),
    )
}

/// The nodes of the items of a draw list, each moved by `offset`.
pub open spec fn nodes_of(
    items: Seq<DisplayItem>,
    offset: Point,
    group: DrawListGroupId,
    draw_list: DrawListId,
) -> Seq<Node> {
    Seq::new(
        items.len(),
        |k: int|
            Node::fresh(items[k].rect.translated(offset), group, draw_list, DrawListItemIndex(k as usize)),
    )
}

/// The items of a render target after one job has been composited by each
/// of the first `n` of `ops` in turn.
pub open spec fn with_composites(
    items: Seq<RenderItemView>,
    ops: Seq<CompositionOp>,
    n: int,
    job: CompositeBatchJob,
) -> Seq<RenderItemView>
    decreases n,
{
    if n <= 0 {
        items
    } else {
        with_composite(with_composites(items, ops, n - 1, job), ops[n - 1], job)
    }
}

/// The extent of a render target for a rectangle of the given side.
pub open spec fn side(length: i32) -> u32 {
    max_int(length as int, 0) as u32
}

impl FlattenState {
    /// The state with another frame.
    pub open spec fn with_frame(self, frame: FrameView) -> FlattenState {
        FlattenState { frame, ..self }
    }

    /// The state with the epoch of a pipeline taken down.
    pub open spec fn with_epoch(self, id: PipelineId, epoch: Epoch) -> FlattenState {
        self.with_frame(
            FrameView {
                pipeline_epoch_map: with_entry(self.frame.pipeline_epoch_map, id, epoch),
                ..self.frame
            },
        )
    }

    /// The state with other layers.
    pub open spec fn with_layers(self, layers: Seq<LayerView>) -> FlattenState {
        self.with_frame(FrameView { layers, ..self.frame })
    }

    /// The state with other render targets.
    pub open spec fn with_targets(self, render_targets: Seq<RenderTargetView>) -> FlattenState {
        self.with_frame(FrameView { render_targets, ..self.frame })
    }

    /// The state with one more item at the end of a render target.
    pub open spec fn with_item(self, target: int, item: RenderItemView) -> FlattenState {
        self.with_targets(
            self.frame.render_targets.update(
                target,
                self.frame.render_targets[target].with_item(item),
            ),
        )
    }

    /// The state with a scroll layer for a stacking context that takes
    /// `id` for its own: a child of the layer of its parent, unless it is
    /// that layer.
    pub open spec fn with_scroll_layer(
        self,
        id: ScrollLayerId,
        parent: FlattenInfoView,
        size: Size,
        transform: Seq<Factor>,
    ) -> Result<FlattenState, FrameError> {
        let layers = self.frame.layers;
        let layer = LayerView::fresh(
            id,
            parent.offset_from_origin,
            size,
            parent.viewport_size,
            transform,
        );
        if position(layer_ids(layers), id) is Some {
            Err(FrameError::DuplicateScrollLayer)
        } else if parent.actual_scroll_layer_id == id {
            Ok(self.with_layers(layers.push(layer)))
        } else {
            match position(layer_ids(layers), parent.actual_scroll_layer_id) {
                None => Err(FrameError::MissingScrollLayer),
                Some(p) => Ok(
                    self.with_layers(layers.update(p, layers[p].with_child(id)).push(layer)),
                ),
            }
        }
    }

    /// The state after a draw list has been entered under the record
    /// `context_index`.
    pub open spec fn with_draw_list(
        self,
        id: DrawListId,
        info: FlattenInfoView,
        target: int,
        context_index: int,
    ) -> Result<FlattenState, FrameError> {
        match draw_list_at(self.draw_lists, id) {
            None => Err(FrameError::MissingDrawList),
            Some(d) => {
                let tagged = DrawList {
                    stacking_context_index: Some(StackingContextIndex(context_index as usize)),
                    ..self.draw_lists[d]
                };
                let s1 = FlattenState { draw_lists: self.draw_lists.update(d, tagged), ..self };
                match s1.with_group_for(info.actual_scroll_layer_id, target) {
                    Err(e) => Err(e),
                    Ok(s2) => {
                        let group = s2.current_group->0.with(id);
                        let s3 = FlattenState { current_group: Some(group), ..s2 };
                        match position(layer_ids(s3.frame.layers), info.actual_scroll_layer_id) {
                            None => Err(FrameError::MissingScrollLayer),
                            Some(l) => {
                                let layer = s3.frame.layers[l];
                                let nodes = nodes_of(
                                    tagged.items@,
                                    info.offset_from_current_layer,
                                    group.id,
                                    id,
                                );
                                Ok(
                                    s3.with_layers(
                                        s3.frame.layers.update(
                                            l,
                                            LayerView { nodes: layer.nodes + nodes, ..layer },
                                        ),
                                    ),
                                )
                            },
                        }
                    },
                }
            },
        }
    }

    /// The state with a current group that a draw list of the given scroll
    /// layer and render target can join: the one there is, or else a new
    /// one, which the render target gets a batch for, while the one there
    /// was goes to the groups of the frame.
    pub open spec fn with_group_for(self, scroll_layer_id: ScrollLayerId, target: int) -> Result<
        FlattenState,
        FrameError,
    > {
        let target_id = self.frame.render_targets[target].id;
        if self.current_group matches Some(g) && g.admits(scroll_layer_id, target_id) {
            Ok(self)
        } else if self.frame.next_draw_list_group_id.0 == u32::MAX {
            Err(FrameError::IdsExhausted)
        } else {
            let id = self.frame.next_draw_list_group_id;
            let groups = match self.current_group {
                Some(g) => self.frame.draw_list_groups.push(g),
                None => self.frame.draw_list_groups,
            };
            let frame = FrameView {
                draw_list_groups: groups,
                next_draw_list_group_id: DrawListGroupId((id.0 + 1) as u32),
                render_targets: self.frame.render_targets.update(
                    target,
                    self.frame.render_targets[target].with_item(RenderItemView::DrawListBatch(id)),
                ),
                ..self.frame
            };
            Ok(
                FlattenState {
                    frame,
                    current_group: Some(DrawListGroupView::empty(id, scroll_layer_id, target_id)),
                    ..self
                },
            )
        }
    }

    /// The state with a new render target at the end of the list, made a
    /// child of the one at `target`, and the composites of it on `target`.
    pub open spec fn with_offscreen_target(
        self,
        target: int,
        ops: Seq<CompositionOp>,
        rect: Rect,
    ) -> Result<FlattenState, FrameError> {
        if self.frame.next_render_target_id.0 == u32::MAX {
            Err(FrameError::IdsExhausted)
        } else {
            let id = self.frame.next_render_target_id;
            let parent = self.frame.render_targets[target];
            let job = CompositeBatchJob {
                rect,
                render_target_index: RenderTargetIndex(parent.children.len() as usize),
            };
            let composited = RenderTargetView {
                items: with_composites(parent.items, ops, ops.len() as int, job),
                children: parent.children.push(self.frame.render_targets.len() as usize),
                ..parent
            };
            Ok(
                self.with_frame(
                    FrameView {
                        next_render_target_id: RenderTargetId((id.0 + 1) as u32),
                        render_targets: self.frame.render_targets.update(target, composited).push(
                            RenderTargetView::empty(id, side(rect.size.width), side(rect.size.height)),
                        ),
                        ..self.frame
                    },
                ),
            )
        }
    }
}

/// What a stacking context hands down to its items before its scroll
/// policy has had its say.
pub open spec fn handed_down(
    parent: FlattenInfoView,
    context: &StackingContext,
    local_clip_rect: Rect,
) -> FlattenInfoView {
    let origin = parent.offset_from_current_layer.plus(context.bounds.origin);
    FlattenInfoView {
        viewport_size: parent.viewport_size,
        offset_from_origin: parent.offset_from_origin.plus(context.bounds.origin),
        offset_from_current_layer: origin,
        default_scroll_layer_id: parent.default_scroll_layer_id,
        actual_scroll_layer_id: parent.default_scroll_layer_id,
        current_clip_rect: local_clip_rect,
        transform: product(
            product(parent.perspective, parent.transform),
            about(origin, context.transform@),
        ),
        perspective: about(origin, context.perspective@),
    }
}

/// What is handed down to the items of a stacking context that starts a
/// scroll layer: the layer is theirs, and offsets and transforms start
/// anew.
pub open spec fn in_own_layer(info: FlattenInfoView, id: ScrollLayerId) -> FlattenInfoView {
    FlattenInfoView {
        default_scroll_layer_id: id,
        actual_scroll_layer_id: id,
        offset_from_current_layer: Point { x: 0, y: 0 },
        transform: identity(),
        perspective: identity(),
        ..info
    }
}

/// What is handed down to the pipeline of an iframe.
pub open spec fn in_iframe(info: FlattenInfoView, iframe: IframeInfo) -> FlattenInfoView {
    FlattenInfoView {
        viewport_size: iframe.bounds.size,
        offset_from_origin: info.offset_from_origin.plus(iframe.bounds.origin),
        offset_from_current_layer: info.offset_from_current_layer.plus(iframe.bounds.origin),
        current_clip_rect: max_rect(),
        ..info
    }
}

/// The clear that a stacking context with a third dimension starts with.
pub open spec fn depth_clear() -> ClearInfo {
    ClearInfo { clear_color: false, clear_z: true, clear_stencil: true }
}

/// The state and what is handed down once the scroll policy of a stacking
/// context has been seen to.
pub open spec fn scroll_policy_applied(
    state: FlattenState,
    context: &StackingContext,
    parent: FlattenInfoView,
    info: FlattenInfoView,
) -> Result<(FlattenState, FlattenInfoView), FrameError> {
    match (context.scroll_policy, context.scroll_layer_id) {
        (ScrollPolicy::Fixed, Some(_)) => Err(FrameError::FixedWithScrollLayer),
        (ScrollPolicy::Fixed, None) => Ok(
            (state, FlattenInfoView { actual_scroll_layer_id: ScrollLayerId::Fixed, ..info }),
        ),
        (ScrollPolicy::Scrollable, Some(id)) => match state.with_scroll_layer(
            id,
            parent,
            context.overflow.size,
            info.transform,
        ) {
            Err(e) => Err(e),
            Ok(s) => Ok((s, in_own_layer(info, id))),
        },
        (ScrollPolicy::Scrollable, None) => Ok((state, info)),
    }
}

/// The state after a stacking context or a pipeline has been flattened
/// onto the render target at `target`.
pub open spec fn flattened(
    scene: &Scene,
    state: FlattenState,
    kind: SceneItemKind,
    parent: FlattenInfoView,
    target: int,
    level: nat,
) -> Result<FlattenState, FrameError>
    decreases MAX_NESTING - level, 4int, 0int,
{
    if level >= MAX_NESTING {
        Err(FrameError::NestingTooDeep)
    } else if !(0 <= target < state.frame.render_targets.len()) {
        Err(FrameError::MissingRenderTarget)
    } else {
        let entered = match kind {
            SceneItemKind::StackingContext(_) => state,
            SceneItemKind::Pipeline(p) => state.with_epoch(p.pipeline_id, p.epoch),
        };
        match kind.context(scene) {
            None => Err(FrameError::MissingStackingContext),
            Some(c) => match local_clip(parent, &c.stacking_context) {
                None => Ok(entered),
                Some(local_clip_rect) => match kind.scene_items(scene) {
                    Err(e) => Err(e),
                    Ok(items) => if items.len() == 0 {
                        Ok(entered)
                    } else {
                        context_flattened(
                            scene,
                            entered,
                            &c.stacking_context,
                            items,
                            parent,
                            local_clip_rect,
                            target,
                            level,
                        )
                    },
                },
            },
        }
    }
}

/// What the clip of the parent leaves of a stacking context, in the
/// coordinates of the context.
pub open spec fn local_clip(parent: FlattenInfoView, context: &StackingContext) -> Option<Rect> {
    parent.current_clip_rect.translated(context.bounds.origin.negated()).intersected(
        context.overflow,
    )
}

/// The state after a stacking context that shows and has items has been
/// flattened.
pub open spec fn context_flattened(
    scene: &Scene,
    state: FlattenState,
    context: &StackingContext,
    items: Seq<SceneItem>,
    parent: FlattenInfoView,
    local_clip_rect: Rect,
    target: int,
    level: nat,
) -> Result<FlattenState, FrameError>
    decreases MAX_NESTING - level, 3int, 0int,
{
    match scroll_policy_applied(
        state,
        context,
        parent,
        handed_down(parent, context, local_clip_rect),
    ) {
        Err(e) => Err(e),
        Ok((s1, info)) => {
            let s2 = if context.establishes_3d_context && context.has_stacking_contexts {
                s1.with_item(target, RenderItemView::Clear(depth_clear()))
            } else {
                s1
            };
            contents_added(
                scene,
                s2,
                composition_ops(context.mix_blend_mode, context.filters@),
                items,
                info,
                local_clip_rect.size,
                target,
                level,
            )
        },
    }
}

/// The state after the items of a stacking context have been added: to
/// the render target at `target` where there is no composition operation,
/// and else to a new one that the operations composite onto it.
pub open spec fn contents_added(
    scene: &Scene,
    state: FlattenState,
    ops: Seq<CompositionOp>,
    items: Seq<SceneItem>,
    info: FlattenInfoView,
    size: Size,
    target: int,
    level: nat,
) -> Result<FlattenState, FrameError>
    decreases MAX_NESTING - level, 2int, 0int,
{
    if ops.len() == 0 {
        items_added(scene, state, items, info, target, level)
    } else {
        let rect = target_of_all(ops, Rect { origin: info.offset_from_origin, size });
        match state.with_offscreen_target(target, ops, rect) {
            Err(e) => Err(e),
            Ok(s3) => {
                let child = state.frame.render_targets.len() as int;
                items_added(
                    scene,
                    s3,
                    items,
                    FlattenInfoView { offset_from_current_layer: Point { x: 0, y: 0 }, ..info },
                    child,
                    level,
                )
            },
        }
    }
}

/// The state after the items of a stacking context have been added to the
/// render target at `target`: a record of the context, and then the items
/// one by one.
pub open spec fn items_added(
    scene: &Scene,
    state: FlattenState,
    items: Seq<SceneItem>,
    info: FlattenInfoView,
    target: int,
    level: nat,
) -> Result<FlattenState, FrameError>
    decreases MAX_NESTING - level, 1int, items.len() + 1,
{
    if !(0 <= target < state.frame.render_targets.len()) {
        Err(FrameError::MissingRenderTarget)
    } else {
        let context_index = state.frame.stacking_context_info.len() as int;
        let recorded = state.with_frame(
            FrameView {
                stacking_context_info: state.frame.stacking_context_info.push(info.record()),
                ..state.frame
            },
        );
        items_added_upto(
            scene,
            recorded,
            items,
            items.len() as int,
            info,
            target,
            level,
            context_index,
        )
    }
}

/// The state after the first `n` of the items have been added.
pub open spec fn items_added_upto(
    scene: &Scene,
    state: FlattenState,
    items: Seq<SceneItem>,
    n: int,
    info: FlattenInfoView,
    target: int,
    level: nat,
    context_index: int,
) -> Result<FlattenState, FrameError>
    decreases MAX_NESTING - level, 1int, n,
{
    if n <= 0 || n > items.len() {
        Ok(state)
    } else {
        match items_added_upto(scene, state, items, n - 1, info, target, level, context_index) {
            Err(e) => Err(e),
            Ok(s) => item_added(scene, s, items[n - 1], info, target, level, context_index),
        }
    }
}

/// The state after one item has been added.
pub open spec fn item_added(
    scene: &Scene,
    state: FlattenState,
    item: SceneItem,
    info: FlattenInfoView,
    target: int,
    level: nat,
    context_index: int,
) -> Result<FlattenState, FrameError>
    decreases MAX_NESTING - level, 0int, 0int,
{
    if level >= MAX_NESTING {
        Err(FrameError::NestingTooDeep)
    } else {
        match item.specific {
            SpecificSceneItem::DrawList(id) => state.with_draw_list(
                id,
                info,
                target,
                context_index,
            ),
            SpecificSceneItem::StackingContext(id) => match scene.stacking_context(id) {
                None => Err(FrameError::MissingStackingContext),
                Some(c) => flattened(
                    scene,
                    state,
                    SceneItemKind::StackingContext(&c),
                    info,
                    target,
                    level + 1,
                ),
            },
            SpecificSceneItem::Iframe(iframe) => {
                let sized = FlattenState {
                    pipeline_sizes: with_entry(state.pipeline_sizes, iframe.id, iframe.bounds.size),
                    ..state
                };
                match scene.pipeline(iframe.id) {
                    None => Ok(sized),
                    Some(p) => flattened(
                        scene,
                        sized,
                        SceneItemKind::Pipeline(&p),
                        in_iframe(info, iframe),
                        target,
                        level + 1,
                    ),
                }
            },
        }
    }
}

} // verus!
