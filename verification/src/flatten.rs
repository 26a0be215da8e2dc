//! Flattening a scene into the frame.

use vstd::prelude::*;
use crate::composition::{CompositionOp, target_rect_of_all};
use crate::draw_list_group::DrawListGroup;
use crate::error::FrameError;
use crate::flatten_model::{
    about, contents_added, context_flattened, flattened, handed_down, item_added, items_added,
    items_added_upto, MAX_NESTING, nodes_of, scroll_policy_applied, side, with_composites,
};
use crate::frame::{
    FlattenContext, FlattenInfo, FlattenInfoView, FlattenState, Frame, FrameView, layer_ids,
    StackingContextInfo, state_of,
};
use crate::geometry::{max_rect_value, Point, Rect, Size};
use crate::layer::{Layer, LayerView, Node};
use crate::lookup::{lemma_position_absent, lemma_position_found, position};
use crate::paint_order::SceneItemKind;
use crate::render_target::{
    ClearInfo, CompositeBatchJob, RenderTarget, RenderTargetView, with_composite,
};
use crate::resource_cache::{DrawList, find_draw_list};
use crate::scene::{Scene, SceneItem, SceneStackingContext, SpecificSceneItem, StackingContext};
use crate::table::put;
use crate::transform::Transform;
use crate::types::{
    DrawListGroupId, DrawListId, DrawListItemIndex, RenderTargetId, RenderTargetIndex,
    ScrollLayerId, ScrollPolicy, StackingContextIndex,
};
use crate::views::group_views;

verus! {

broadcast use group_views;

/// The draw lists are the same but for the records that they point to.
pub open spec fn only_tags_differ(
    a: Seq<DrawList>,
    b: Seq<DrawList>,
) -> bool {
    &&& a.len() == b.len()
    &&& forall|i: int|
        0 <= i < a.len() ==> (#[trigger] b[i]).id == a[i].id && b[i].items == a[i].items
}

/// What a step of flattening returned and left behind is what the model
/// says of it: on success the state of the model, on failure its error.
pub open spec fn agrees(
    model: Result<FlattenState, FrameError>,
    returned: Result<(), FrameError>,
    left: FlattenState,
) -> bool {
    match model {
        Ok(s) => returned is Ok && left == s,
        Err(e) => returned == Err::<(), FrameError>(e),
    }
}

impl FlattenInfo {
    /// A copy with transforms of its own.
    pub fn duplicate(&self) -> (i: FlattenInfo)
        ensures
            i@ == self@,
    {
        FlattenInfo {
            viewport_size: self.viewport_size,
            current_clip_rect: self.current_clip_rect,
            default_scroll_layer_id: self.default_scroll_layer_id,
            actual_scroll_layer_id: self.actual_scroll_layer_id,
            offset_from_origin: self.offset_from_origin,
            offset_from_current_layer: self.offset_from_current_layer,
            transform: self.transform.duplicate(),
            perspective: self.perspective.duplicate(),
        }
    }
}

/// `m` done about `origin`.
fn transform_about(origin: &Point, m: &Transform) -> (t: Transform)
    requires
        origin.bounded(),
    ensures
        t@ == about(*origin, m@),
{
    Transform::identity().translate(origin.x, origin.y).mul(m).translate(-origin.x, -origin.y)
}

fn side_of(length: i32) -> (s: u32)
    ensures
        s == side(length),
{
    if length > 0 {
        length as u32
    } else {
        0
    }
}

impl Frame {
    /// The next unused name of a render target, if there is one left.
    pub fn next_render_target_id(&mut self) -> (r: Option<RenderTargetId>)
        ensures
            match r {
                Some(id) => {
                    &&& id == old(self).next_render_target_id
                    &&& id.0 < u32::MAX
                    &&& final(self)@ == (FrameView {
                        next_render_target_id: RenderTargetId((id.0 + 1) as u32),
                        ..old(self)@
                    })
                },
                None => old(self).next_render_target_id.0 == u32::MAX && *final(self) == *old(self),
            },
            final(self).render_targets == old(self).render_targets,
            final(self).pending_updates == old(self).pending_updates,
    {
        let RenderTargetId(render_target_id) = self.next_render_target_id;
        if render_target_id == u32::MAX {
            return None;
        }
        self.next_render_target_id = RenderTargetId(render_target_id + 1);
        Some(RenderTargetId(render_target_id))
    }

    /// The next unused name of a draw-list group, if there is one left.
    pub fn next_draw_list_group_id(&mut self) -> (r: Option<DrawListGroupId>)
        ensures
            match r {
                Some(id) => {
                    &&& id == old(self).next_draw_list_group_id
                    &&& id.0 < u32::MAX
                    &&& final(self)@ == (FrameView {
                        next_draw_list_group_id: DrawListGroupId((id.0 + 1) as u32),
                        ..old(self)@
                    })
                },
                None => old(self).next_draw_list_group_id.0 == u32::MAX && *final(self) == *old(
                    self,
                ),
            },
            final(self).render_targets == old(self).render_targets,
            final(self).pending_updates == old(self).pending_updates,
    {
        let DrawListGroupId(draw_list_group_id) = self.next_draw_list_group_id;
        if draw_list_group_id == u32::MAX {
            return None;
        }
        self.next_draw_list_group_id = DrawListGroupId(draw_list_group_id + 1);
        Some(DrawListGroupId(draw_list_group_id))
    }

    /// The place of the scroll layer that `id` names.
    pub fn find_layer(&self, id: ScrollLayerId) -> (r: Option<usize>)
        ensures
            match r {
                Some(i) => position(layer_ids(self@.layers), id) == Some(i as int) && i
                    < self.layers.len(),
                None => position(layer_ids(self@.layers), id) is None,
            },
    {
        let mut i: usize = 0;
        while i < self.layers.len()
            invariant
                i <= self.layers.len(),
                forall|j: int| 0 <= j < i ==> layer_ids(self@.layers)[j] != id,
            decreases self.layers.len() - i,
        {
            if self.layers[i].id == id {
                proof {
                    lemma_position_found(layer_ids(self@.layers), id, i as int);
                }
                return Some(i);
            }
            i += 1;
        }
        proof {
            lemma_position_absent(layer_ids(self@.layers), id);
        }
        None
    }

    /// Makes the scroll layer of a stacking context that takes `id` for
    /// its own.
    fn add_scroll_layer(
        &mut self,
        id: ScrollLayerId,
        parent_info: &FlattenInfo,
        size: Size,
        transform: &Transform,
    ) -> (r: Result<(), FrameError>)
        ensures
            forall|s: FlattenState|
                s.frame == old(self)@ ==> agrees(
                    #[trigger] s.with_scroll_layer(id, parent_info@, size, transform@),
                    r,
                    s.with_frame(final(self)@),
                ),
            final(self).render_targets == old(self).render_targets,
            final(self).pending_updates == old(self).pending_updates,
    {
        if self.find_layer(id).is_some() {
            return Err(FrameError::DuplicateScrollLayer);
        }
        let layer = Layer::new(
            id,
            parent_info.offset_from_origin,
            size,
            parent_info.viewport_size,
            transform,
        );
        if !(parent_info.actual_scroll_layer_id == id) {
            match self.find_layer(parent_info.actual_scroll_layer_id) {
                None => {
                    return Err(FrameError::MissingScrollLayer);
                },
                Some(p) => {
                    self.layers[p].add_child(id);
                },
            }
        }
        self.layers.push(layer);
        Ok(())
    }
}

impl Frame {
    /// Sees to it that the current group can take a draw list of the given
    /// scroll layer that goes to the render target at `target`.
    fn ensure_group(
        &mut self,
        context: &mut FlattenContext,
        scroll_layer_id: ScrollLayerId,
        target: usize,
    ) -> (r: Result<(), FrameError>)
        requires
            target < old(self).render_targets.len(),
        ensures
            agrees(
                state_of(*old(self), *old(context)).with_group_for(scroll_layer_id, target as int),
                r,
                state_of(*final(self), *final(context)),
            ),
            final(self).render_targets.len() == old(self).render_targets.len(),
            final(context).draw_lists == old(context).draw_lists,
            final(self).pending_updates == old(self).pending_updates,
    {
        let target_id = self.render_targets[target].id;
        let needs_new_draw_group = match &context.current_draw_list_group {
            Some(draw_list_group) => !draw_list_group.can_add(scroll_layer_id, target_id),
            None => true,
        };
        if needs_new_draw_group {
            let draw_list_group_id = match self.next_draw_list_group_id() {
                Some(id) => id,
                None => {
                    return Err(FrameError::IdsExhausted);
                },
            };
            if let Some(draw_list_group) = context.current_draw_list_group.take() {
                self.draw_list_groups.push(draw_list_group);
            }
            self.render_targets[target].push_draw_list_group(draw_list_group_id);
            context.current_draw_list_group = Some(
                DrawListGroup::new(draw_list_group_id, scroll_layer_id, target_id),
            );
        }
        Ok(())
    }

    /// Enters a draw list under the record at `context_index`.
    fn add_draw_list(
        &mut self,
        draw_list_id: DrawListId,
        info: &FlattenInfo,
        target: usize,
        context: &mut FlattenContext,
        context_index: usize,
    ) -> (r: Result<(), FrameError>)
        requires
            target < old(self).render_targets.len(),
        ensures
            agrees(
                state_of(*old(self), *old(context)).with_draw_list(
                    draw_list_id,
                    info@,
                    target as int,
                    context_index as int,
                ),
                r,
                state_of(*final(self), *final(context)),
            ),
            final(self).render_targets.len() == old(self).render_targets.len(),
            only_tags_differ(old(context).draw_lists@, final(context).draw_lists@),
            final(self).pending_updates == old(self).pending_updates,
    {
        let d = match find_draw_list(&context.draw_lists, draw_list_id) {
            Some(d) => d,
            None => {
                return Err(FrameError::MissingDrawList);
            },
        };
        context.draw_lists[d].stacking_context_index = Some(StackingContextIndex(context_index));
        match self.ensure_group(context, info.actual_scroll_layer_id, target) {
            Ok(()) => {},
            Err(e) => {
                return Err(e);
            },
        }
        let mut group = context.current_draw_list_group.take().unwrap();
        group.push(draw_list_id);
        let draw_list_group_id = group.id;
        context.current_draw_list_group = Some(group);
        let l = match self.find_layer(info.actual_scroll_layer_id) {
            Some(l) => l,
            None => {
                return Err(FrameError::MissingScrollLayer);
            },
        };
        let ghost layers = self@.layers;
        let ghost frame0 = self@;
        proof {
            assert(layers[l as int].nodes + Seq::<Node>::empty()
                =~= layers[l as int].nodes);
        }
        let ghost nodes = nodes_of(
            context.draw_lists@[d as int].items@,
            info.offset_from_current_layer,
            draw_list_group_id,
            draw_list_id,
        );
        let mut k: usize = 0;
        while k < context.draw_lists[d].items.len()
            invariant
                k <= context.draw_lists[d as int].items.len(),
                d < context.draw_lists.len(),
                only_tags_differ(old(context).draw_lists@, context.draw_lists@),
                self.pending_updates == old(self).pending_updates,
                l < self.layers.len(),
                l < layers.len(),
                nodes == nodes_of(
                    context.draw_lists@[d as int].items@,
                    info.offset_from_current_layer,
                    draw_list_group_id,
                    draw_list_id,
                ),
                self@ == (FrameView { layers: self@.layers, ..frame0 }),
                self.render_targets.len() == old(self).render_targets.len(),
                self@.layers.len() == layers.len(),
                forall|j: int| 0 <= j < layers.len() && j != l ==> self@.layers[j] == layers[j],
                self@.layers[l as int] == (LayerView {
                    nodes: layers[l as int].nodes + nodes.take(k as int),
                    ..layers[l as int]
                }),
            decreases context.draw_lists[d as int].items.len() - k,
        {
            let rect = context.draw_lists[d].items[k].rect.translate(
                &info.offset_from_current_layer,
            );
            self.layers[l].insert(rect, draw_list_group_id, draw_list_id, DrawListItemIndex(k));
            proof {
                assert(nodes.take(k + 1) =~= nodes.take(k as int).push(nodes[k as int]));
                assert(self@.layers[l as int].nodes =~= layers[l as int].nodes + nodes.take(k + 1));
            }
            k += 1;
        }
        proof {
            assert(nodes.take(k as int) =~= nodes);
            assert(self@.layers =~= layers.update(
                l as int,
                LayerView { nodes: layers[l as int].nodes + nodes, ..layers[l as int] },
            ));
        }
        Ok(())
    }

    /// Makes a render target behind all others for what `ops` are to
    /// composite onto the one at `target`, and enters the composites.
    fn add_offscreen_target(&mut self, target: usize, ops: &Vec<CompositionOp>, rect: Rect) -> (r:
        Result<usize, FrameError>)
        requires
            target < old(self).render_targets.len(),
        ensures
            forall|s: FlattenState|
                s.frame == old(self)@ ==> agrees(
                    #[trigger] s.with_offscreen_target(target as int, ops@, rect),
                    match r {
                        Ok(_) => Ok(()),
                        Err(e) => Err(e),
                    },
                    s.with_frame(final(self)@),
                ),
            r matches Ok(child) ==> child == old(self).render_targets.len()
                && final(self).render_targets.len() == child + 1,
            final(self).render_targets.len() >= old(self).render_targets.len(),
            final(self).pending_updates == old(self).pending_updates,
    {
        let render_target_index = RenderTargetIndex(self.render_targets[target].children.len());
        let render_target_id = match self.next_render_target_id() {
            Some(id) => id,
            None => {
                return Err(FrameError::IdsExhausted);
            },
        };
        let new_target = RenderTarget::new(
            render_target_id,
            side_of(rect.size.width),
            side_of(rect.size.height),
        );
        let ghost parent = old(self)@.render_targets[target as int];
        let ghost job = CompositeBatchJob { rect, render_target_index };
        proof {
            assert(old(self)@.render_targets.update(
                target as int,
                RenderTargetView { items: with_composites(parent.items, ops@, 0, job), ..parent },
            ) =~= old(self)@.render_targets);
        }
        let mut i: usize = 0;
        while i < ops.len()
            invariant
                i <= ops.len(),
                render_target_id.0 < u32::MAX,
                self.pending_updates == old(self).pending_updates,
                target < self.render_targets.len(),
                self.render_targets.len() == old(self).render_targets.len(),
                parent == old(self)@.render_targets[target as int],
                job == (CompositeBatchJob { rect, render_target_index }),
                self@ == (FrameView {
                    next_render_target_id: RenderTargetId((render_target_id.0 + 1) as u32),
                    render_targets: old(self)@.render_targets.update(
                        target as int,
                        RenderTargetView {
                            items: with_composites(parent.items, ops@, i as int, job),
                            ..parent
                        },
                    ),
                    ..old(self)@
                }),
            decreases ops.len() - i,
        {
            let ghost before = self@.render_targets[target as int];
            self.render_targets[target].push_composite(ops[i], rect, render_target_index);
            proof {
                assert(with_composites(parent.items, ops@, i + 1, job) == with_composite(
                    with_composites(parent.items, ops@, i as int, job),
                    ops@[i as int],
                    job,
                ));
                assert(self@.render_targets[target as int] == before.with_composite(ops@[i as int], job));
                assert(self@.render_targets =~= old(self)@.render_targets.update(
                    target as int,
                    RenderTargetView {
                        items: with_composites(parent.items, ops@, i + 1, job),
                        ..parent
                    },
                ));
            }
            i += 1;
        }
        let child = self.render_targets.len();
        let ghost mid = self@.render_targets;
        proof {
            assert(mid[target as int] == (RenderTargetView {
                items: with_composites(parent.items, ops@, ops@.len() as int, job),
                ..parent
            }));
        }
        self.render_targets[target].push_child(child);
        proof {
            assert(self@.render_targets[target as int] == mid[target as int].with_child(child));
            assert(self@.render_targets =~= mid.update(
                target as int,
                mid[target as int].with_child(child),
            ));
        }
        self.render_targets.push(new_target);
        proof {
            let composited = RenderTargetView {
                items: with_composites(parent.items, ops@, ops@.len() as int, job),
                children: parent.children.push(child),
                ..parent
            };
            assert(self@.render_targets =~= old(self)@.render_targets.update(
                target as int,
                composited,
            ).push(new_target@));
        }
        Ok(child)
    }
}

/// The adding of the items of one stacking context: where it starts, the
/// items, and what is handed down to them.
pub struct Run {
    pub start: FlattenState,
    pub items: Seq<SceneItem>,
    pub info: FlattenInfoView,
    pub target: int,
    pub level: nat,
    pub context_index: int,
}

/// Adding the first `n` items leaves `now`.
#[verifier::opaque]
pub open spec fn added_upto(scene: &Scene, run: Run, n: int, now: FlattenState) -> bool {
    items_added_upto(
        scene,
        run.start,
        run.items,
        n,
        run.info,
        run.target,
        run.level,
        run.context_index,
    ) == Ok::<_, FrameError>(now)
}

/// Adding the items fails with `e`.
#[verifier::opaque]
pub open spec fn adding_fails(scene: &Scene, run: Run, e: FrameError) -> bool {
    items_added_upto(
        scene,
        run.start,
        run.items,
        run.items.len() as int,
        run.info,
        run.target,
        run.level,
        run.context_index,
    ) == Err::<FlattenState, _>(e)
}

/// Adding one more item goes on from where the items before it led.
proof fn lemma_one_more_item(
    scene: &Scene,
    state: FlattenState,
    items: Seq<SceneItem>,
    n: int,
    info: FlattenInfoView,
    target: int,
    level: nat,
    context_index: int,
    before: FlattenState,
)
    requires
        0 <= n < items.len(),
        items_added_upto(scene, state, items, n, info, target, level, context_index) == Ok::<
            _,
            FrameError,
        >(before),
    ensures
        items_added_upto(scene, state, items, n + 1, info, target, level, context_index)
            == item_added(scene, before, items[n], info, target, level, context_index),
{
}

/// Once an item has failed, the failure is what adding the items comes to.
proof fn lemma_error_persists(
    scene: &Scene,
    state: FlattenState,
    items: Seq<SceneItem>,
    n: int,
    m: int,
    info: FlattenInfoView,
    target: int,
    level: nat,
    context_index: int,
)
    requires
        0 <= n <= m <= items.len(),
        items_added_upto(scene, state, items, n, info, target, level, context_index) is Err,
    ensures
        items_added_upto(scene, state, items, m, info, target, level, context_index)
            == items_added_upto(scene, state, items, n, info, target, level, context_index),
    decreases m,
{
    if n < m {
        lemma_error_persists(scene, state, items, n, m - 1, info, target, level, context_index);
    }
}

impl Frame {
    /// Flattens a stacking context or a pipeline onto the render target at
    /// `target`.
    pub fn flatten(
        &mut self,
        scene: &Scene,
        scene_item: SceneItemKind,
        parent_info: &FlattenInfo,
        context: &mut FlattenContext,
        target: usize,
        level: u32,
    ) -> (r: Result<(), FrameError>)
        ensures
            agrees(
                flattened(
                    scene,
                    state_of(*old(self), *old(context)),
                    scene_item,
                    parent_info@,
                    target as int,
                    level as nat,
                ),
                r,
                state_of(*final(self), *final(context)),
            ),
            final(self).render_targets.len() >= old(self).render_targets.len(),
            only_tags_differ(old(context).draw_lists@, final(context).draw_lists@),
            final(self).pending_updates == old(self).pending_updates,
        decreases MAX_NESTING - level, 4int, 0int,
    {
        if level >= MAX_NESTING {
            return Err(FrameError::NestingTooDeep);
        }
        if target >= self.render_targets.len() {
            return Err(FrameError::MissingRenderTarget);
        }
        let c: &SceneStackingContext = match scene_item {
            SceneItemKind::StackingContext(c) => c,
            SceneItemKind::Pipeline(p) => {
                put(&mut self.pipeline_epoch_map, p.pipeline_id, p.epoch);
                match scene.find_stacking_context(p.root_stacking_context_id) {
                    Some(c) => c,
                    None => {
                        return Err(FrameError::MissingStackingContext);
                    },
                }
            },
        };
        let stacking_context = &c.stacking_context;
        let local_clip_rect = match parent_info.current_clip_rect.translate(
            &stacking_context.bounds.origin.neg(),
        ).intersection(&stacking_context.overflow) {
            Some(rect) => rect,
            None => {
                return Ok(());
            },
        };
        let scene_items = match scene_item.collect_scene_items(scene) {
            Ok(items) => items,
            Err(e) => {
                return Err(e);
            },
        };
        if scene_items.len() == 0 {
            return Ok(());
        }
        self.flatten_context(
            scene,
            stacking_context,
            &scene_items,
            parent_info,
            local_clip_rect,
            context,
            target,
            level,
        )
    }

    /// Flattens a stacking context of which `local_clip_rect` shows and
    /// which has the items `scene_items`.
    fn flatten_context(
        &mut self,
        scene: &Scene,
        stacking_context: &StackingContext,
        scene_items: &Vec<SceneItem>,
        parent_info: &FlattenInfo,
        local_clip_rect: Rect,
        context: &mut FlattenContext,
        target: usize,
        level: u32,
    ) -> (r: Result<(), FrameError>)
        requires
            target < old(self).render_targets.len(),
        ensures
            agrees(
                context_flattened(
                    scene,
                    state_of(*old(self), *old(context)),
                    stacking_context,
                    scene_items@,
                    parent_info@,
                    local_clip_rect,
                    target as int,
                    level as nat,
                ),
                r,
                state_of(*final(self), *final(context)),
            ),
            final(self).render_targets.len() >= old(self).render_targets.len(),
            only_tags_differ(old(context).draw_lists@, final(context).draw_lists@),
            final(self).pending_updates == old(self).pending_updates,
        decreases MAX_NESTING - level, 3int, 0int,
    {
        let origin = parent_info.offset_from_current_layer.add(&stacking_context.bounds.origin);
        let local_transform = transform_about(&origin, &stacking_context.transform);
        let transform = parent_info.perspective.mul(&parent_info.transform).mul(&local_transform);
        let perspective = transform_about(&origin, &stacking_context.perspective);
        let mut info = FlattenInfo {
            viewport_size: parent_info.viewport_size,
            offset_from_origin: parent_info.offset_from_origin.add(&stacking_context.bounds.origin),
            offset_from_current_layer: origin,
            default_scroll_layer_id: parent_info.default_scroll_layer_id,
            actual_scroll_layer_id: parent_info.default_scroll_layer_id,
            current_clip_rect: local_clip_rect,
            transform,
            perspective,
        };
        assert(info@ == handed_down(parent_info@, stacking_context, local_clip_rect));
        match (stacking_context.scroll_policy, stacking_context.scroll_layer_id) {
            (ScrollPolicy::Fixed, Some(_)) => {
                return Err(FrameError::FixedWithScrollLayer);
            },
            (ScrollPolicy::Fixed, None) => {
                info.actual_scroll_layer_id = ScrollLayerId::Fixed;
            },
            (ScrollPolicy::Scrollable, Some(scroll_layer_id)) => {
                match self.add_scroll_layer(
                    scroll_layer_id,
                    parent_info,
                    stacking_context.overflow.size,
                    &info.transform,
                ) {
                    Ok(()) => {},
                    Err(e) => {
                        return Err(e);
                    },
                }
                info.default_scroll_layer_id = scroll_layer_id;
                info.actual_scroll_layer_id = scroll_layer_id;
                info.offset_from_current_layer = Point::zero();
                info.transform = Transform::identity();
                info.perspective = Transform::identity();
            },
            (ScrollPolicy::Scrollable, None) => {},
        }
        assert(scroll_policy_applied(
            state_of(*old(self), *old(context)),
            stacking_context,
            parent_info@,
            handed_down(parent_info@, stacking_context, local_clip_rect),
        ) == Ok::<_, FrameError>((state_of(*self, *context), info@)));
        if stacking_context.establishes_3d_context && stacking_context.has_stacking_contexts {
            self.render_targets[target].push_clear(
                ClearInfo { clear_color: false, clear_z: true, clear_stencil: true },
            );
        }
        let composition_operations = stacking_context.composition_operations();
        self.add_contents(
            scene,
            &composition_operations,
            scene_items,
            info,
            local_clip_rect.size,
            context,
            target,
            level,
        )
    }

    /// Adds the items of a stacking context to the render target at
    /// `target`, or to a new one where there are composition operations.
    fn add_contents(
        &mut self,
        scene: &Scene,
        composition_operations: &Vec<CompositionOp>,
        scene_items: &Vec<SceneItem>,
        info: FlattenInfo,
        size: Size,
        context: &mut FlattenContext,
        target: usize,
        level: u32,
    ) -> (r: Result<(), FrameError>)
        requires
            target < old(self).render_targets.len(),
        ensures
            agrees(
                contents_added(
                    scene,
                    state_of(*old(self), *old(context)),
                    composition_operations@,
                    scene_items@,
                    info@,
                    size,
                    target as int,
                    level as nat,
                ),
                r,
                state_of(*final(self), *final(context)),
            ),
            final(self).render_targets.len() >= old(self).render_targets.len(),
            only_tags_differ(old(context).draw_lists@, final(context).draw_lists@),
            final(self).pending_updates == old(self).pending_updates,
        decreases MAX_NESTING - level, 2int, 0int,
    {
        if composition_operations.len() == 0 {
            self.add_items_to_target(scene, scene_items, &info, target, context, level)
        } else {
            let mut info = info;
            let unfiltered_target_rect = Rect { origin: info.offset_from_origin, size };
            let target_rect = target_rect_of_all(composition_operations, &unfiltered_target_rect);
            let child = match self.add_offscreen_target(
                target,
                composition_operations,
                target_rect,
            ) {
                Ok(child) => child,
                Err(e) => {
                    return Err(e);
                },
            };
            info.offset_from_current_layer = Point::zero();
            self.add_items_to_target(scene, scene_items, &info, child, context, level)
        }
    }

    /// Adds the items of a stacking context, in paint order, to the render
    /// target at `target`.
    pub fn add_items_to_target(
        &mut self,
        scene: &Scene,
        scene_items: &Vec<SceneItem>,
        info: &FlattenInfo,
        target: usize,
        context: &mut FlattenContext,
        level: u32,
    ) -> (r: Result<(), FrameError>)
        ensures
            agrees(
                items_added(
                    scene,
                    state_of(*old(self), *old(context)),
                    scene_items@,
                    info@,
                    target as int,
                    level as nat,
                ),
                r,
                state_of(*final(self), *final(context)),
            ),
            final(self).render_targets.len() >= old(self).render_targets.len(),
            only_tags_differ(old(context).draw_lists@, final(context).draw_lists@),
            final(self).pending_updates == old(self).pending_updates,
        decreases MAX_NESTING - level, 1int, scene_items.len() + 1,
    {
        if target >= self.render_targets.len() {
            return Err(FrameError::MissingRenderTarget);
        }
        let context_index = self.stacking_context_info.len();
        self.stacking_context_info.push(
            StackingContextInfo {
                offset_from_layer: info.offset_from_current_layer,
                local_clip_rect: info.current_clip_rect,
                transform: info.transform.duplicate(),
                perspective: info.perspective.duplicate(),
            },
        );
        let ghost recorded = state_of(*self, *context);
        let ghost run = Run {
            start: recorded,
            items: scene_items@,
            info: info@,
            target: target as int,
            level: level as nat,
            context_index: context_index as int,
        };
        assert(added_upto(scene, run, 0, recorded)) by {
            reveal(added_upto);
        }
        let mut i: usize = 0;
        while i < scene_items.len()
            invariant
                i <= scene_items.len(),
                target < self.render_targets.len(),
                target < old(self).render_targets.len(),
                self.render_targets.len() >= old(self).render_targets.len(),
                run.items == scene_items@,
                run.info == info@,
                run.target == target,
                run.level == level,
                run.context_index == context_index,
                only_tags_differ(old(context).draw_lists@, context.draw_lists@),
                self.pending_updates == old(self).pending_updates,
                run.context_index == old(self)@.stacking_context_info.len(),
                run.start == state_of(*old(self), *old(context)).with_frame(
                    FrameView {
                        stacking_context_info: old(self)@.stacking_context_info.push(
                            info@.record(),
                        ),
                        ..old(self)@
                    },
                ),
                added_upto(scene, run, i as int, state_of(*self, *context)),
            decreases scene_items.len() - i,
        {
            match self.add_next_item(
                scene,
                scene_items,
                i,
                info,
                target,
                context,
                level,
                context_index,
                Ghost(run),
            ) {
                Ok(()) => {},
                Err(e) => {
                    assert(items_added(
                        scene,
                        state_of(*old(self), *old(context)),
                        scene_items@,
                        info@,
                        target as int,
                        level as nat,
                    ) == Err::<FlattenState, _>(e)) by {
                        reveal(adding_fails);
                    }
                    return Err(e);
                },
            }
            i += 1;
        }
        assert(items_added(
            scene,
            state_of(*old(self), *old(context)),
            scene_items@,
            info@,
            target as int,
            level as nat,
        ) == Ok::<_, FrameError>(state_of(*self, *context))) by {
            reveal(added_upto);
        }
        Ok(())
    }

    /// Adds the item at `i`, the items before it having been added.
    fn add_next_item(
        &mut self,
        scene: &Scene,
        scene_items: &Vec<SceneItem>,
        i: usize,
        info: &FlattenInfo,
        target: usize,
        context: &mut FlattenContext,
        level: u32,
        context_index: usize,
        Ghost(run): Ghost<Run>,
    ) -> (r: Result<(), FrameError>)
        requires
            target < old(self).render_targets.len(),
            i < scene_items.len(),
            run.items == scene_items@,
            run.info == info@,
            run.target == target,
            run.level == level,
            run.context_index == context_index,
            added_upto(scene, run, i as int, state_of(*old(self), *old(context))),
        ensures
            match r {
                Ok(()) => added_upto(scene, run, i + 1, state_of(*final(self), *final(context))),
                Err(e) => adding_fails(scene, run, e),
            },
            final(self).render_targets.len() >= old(self).render_targets.len(),
            only_tags_differ(old(context).draw_lists@, final(context).draw_lists@),
            final(self).pending_updates == old(self).pending_updates,
        decreases MAX_NESTING - level, 1int, 0int,
    {
        proof {
            reveal(added_upto);
            reveal(adding_fails);
            lemma_one_more_item(
                scene,
                run.start,
                run.items,
                i as int,
                run.info,
                run.target,
                run.level,
                run.context_index,
                state_of(*self, *context),
            );
        }
        match self.add_item(scene, &scene_items[i], info, target, context, level, context_index) {
            Ok(()) => Ok(()),
            Err(e) => {
                proof {
                    lemma_error_persists(
                        scene,
                        run.start,
                        run.items,
                        i + 1,
                        run.items.len() as int,
                        run.info,
                        run.target,
                        run.level,
                        run.context_index,
                    );
                }
                Err(e)
            },
        }
    }

    /// Adds one item of a stacking context to the render target at
    /// `target`.
    fn add_item(
        &mut self,
        scene: &Scene,
        item: &SceneItem,
        info: &FlattenInfo,
        target: usize,
        context: &mut FlattenContext,
        level: u32,
        context_index: usize,
    ) -> (r: Result<(), FrameError>)
        requires
            target < old(self).render_targets.len(),
        ensures
            agrees(
                item_added(
                    scene,
                    state_of(*old(self), *old(context)),
                    *item,
                    info@,
                    target as int,
                    level as nat,
                    context_index as int,
                ),
                r,
                state_of(*final(self), *final(context)),
            ),
            final(self).render_targets.len() >= old(self).render_targets.len(),
            only_tags_differ(old(context).draw_lists@, final(context).draw_lists@),
            final(self).pending_updates == old(self).pending_updates,
        decreases MAX_NESTING - level, 0int, 0int,
    {
        if level >= MAX_NESTING {
            return Err(FrameError::NestingTooDeep);
        }
        match item.specific {
            SpecificSceneItem::DrawList(draw_list_id) => {
                self.add_draw_list(draw_list_id, info, target, context, context_index)
            },
            SpecificSceneItem::StackingContext(id) => {
                match scene.find_stacking_context(id) {
                    None => Err(FrameError::MissingStackingContext),
                    Some(stacking_context) => self.flatten(
                        scene,
                        SceneItemKind::StackingContext(stacking_context),
                        info,
                        context,
                        target,
                        level + 1,
                    ),
                }
            },
            SpecificSceneItem::Iframe(iframe_info) => {
                put(&mut context.pipeline_sizes, iframe_info.id, iframe_info.bounds.size);
                match scene.find_pipeline(iframe_info.id) {
                    None => Ok(()),
                    Some(pipeline) => {
                        let iframe = FlattenInfo {
                            viewport_size: iframe_info.bounds.size,
                            offset_from_origin: info.offset_from_origin.add(
                                &iframe_info.bounds.origin,
                            ),
                            offset_from_current_layer: info.offset_from_current_layer.add(
                                &iframe_info.bounds.origin,
                            ),
                            default_scroll_layer_id: info.default_scroll_layer_id,
                            actual_scroll_layer_id: info.actual_scroll_layer_id,
                            current_clip_rect: max_rect_value(),
                            transform: info.transform.duplicate(),
                            perspective: info.perspective.duplicate(),
                        };
                        self.flatten(
                            scene,
                            SceneItemKind::Pipeline(pipeline),
                            &iframe,
                            context,
                            target,
                            level + 1,
                        )
                    },
                }
            },
        }
    }
}

} // verus!
