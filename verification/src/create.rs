//! Building a frame from a scene.

use vstd::prelude::*;
use crate::batch::copy_of;
use crate::error::FrameError;
use crate::flatten::only_tags_differ;
use crate::flatten_model::{flattened, side};
use crate::frame::{
    FlattenContext, FlattenInfo, FlattenInfoView, FlattenState, Frame, FrameView, state_of,
};
use crate::geometry::{max_rect, max_rect_value, Point, Size};
use crate::layer::{Layer, LayerView};
use crate::lookup::{lemma_position_absent, lemma_position_found, position};
use crate::paint_order::SceneItemKind;
use crate::render_target::{RenderTarget, RenderTargetView};
use crate::reset::{emptied, offsets_of, released};
use crate::resource_cache::{DrawList, ResourceCache};
use crate::scene::{Scene, ScenePipeline, SceneStackingContext};
use crate::soundness::{
    frame_groups_in_place, frame_sound, lemma_created_frame_is_sound, no_textures,
};
use crate::transform::{identity, Transform};
use crate::types::{StackingContextIndex, DrawListGroupId, PipelineId, RenderTargetId, ScrollLayerId};
use crate::views::group_views;

verus! {

broadcast use group_views;

/// The root of a scene: its root pipeline, the root stacking context of
/// that, and the scroll layer of that.
pub open spec fn root_of(scene: &Scene) -> Result<
    (ScenePipeline, SceneStackingContext, ScrollLayerId),
    FrameError,
> {
    match scene.root_pipeline_id {
        None => Err(FrameError::MissingRootPipeline),
        Some(id) => match scene.pipeline(id) {
            None => Err(FrameError::MissingRootPipeline),
            Some(p) => match scene.stacking_context(p.root_stacking_context_id) {
                None => Err(FrameError::MissingStackingContext),
                Some(c) => match c.stacking_context.scroll_layer_id {
                    None => Err(FrameError::RootNotScrollLayer),
                    Some(layer) => Ok((p, c, layer)),
                },
            },
        },
    }
}

/// The names of the layers whose offsets are kept.
pub open spec fn offset_keys(offsets: Seq<(ScrollLayerId, Point)>) -> Seq<ScrollLayerId> {
    Seq::new(offsets.len(), |i: int| offsets[i].0)
}

/// Where the layer that `id` names was scrolled to: nowhere if there was
/// no such layer.
pub open spec fn previous_offset(offsets: Seq<(ScrollLayerId, Point)>, id: ScrollLayerId) -> Point {
    match position(offset_keys(offsets), id) {
        Some(i) => offsets[i].1,
        None => Point { x: 0, y: 0 },
    }
}

/// The layers, each scrolled to where the layer of its name was before.
pub open spec fn finalized(layers: Seq<LayerView>, offsets: Seq<(ScrollLayerId, Point)>) -> Seq<
    LayerView,
> {
    Seq::new(
        layers.len(),
        |i: int| layers[i].with_scroll_offset(previous_offset(offsets, layers[i].id)),
    )
}

/// What is handed down to the root pipeline.
pub open spec fn root_info(viewport_size: Size, root: ScrollLayerId) -> FlattenInfoView {
    FlattenInfoView {
        viewport_size,
        offset_from_origin: Point { x: 0, y: 0 },
        offset_from_current_layer: Point { x: 0, y: 0 },
        default_scroll_layer_id: root,
        actual_scroll_layer_id: root,
        current_clip_rect: max_rect(),
        transform: identity(),
        perspective: identity(),
    }
}

/// The state with the group that was being filled among the groups of the
/// frame.
pub open spec fn flushed(state: FlattenState) -> FlattenState {
    match state.current_group {
        Some(g) => FlattenState {
            frame: FrameView {
                draw_list_groups: state.frame.draw_list_groups.push(g),
                ..state.frame
            },
            current_group: None,
            ..state
        },
        None => state,
    }
}

/// The frame that flattening starts from: empty but for the root render
/// target, of the size of the viewport, and the layer of content that does
/// not scroll.
pub open spec fn started(
    frame: FrameView,
    root: ScrollLayerId,
    context: SceneStackingContext,
    viewport_size: Size,
) -> FrameView {
    let empty = emptied(frame);
    FrameView {
        root_scroll_layer_id: Some(root),
        next_render_target_id: RenderTargetId((empty.next_render_target_id.0 + 1) as u32),
        render_targets: seq![
            RenderTargetView::empty(
                empty.next_render_target_id,
                side(viewport_size.width),
                side(viewport_size.height),
            ),
        ],
        layers: seq![
            LayerView::fresh(
                ScrollLayerId::Fixed,
                context.stacking_context.overflow.origin,
                context.stacking_context.overflow.size,
                viewport_size,
                identity(),
            ),
        ],
        ..empty
    }
}

/// What building a frame from a scene with a root comes to.
pub open spec fn creation(
    scene: &Scene,
    frame: FrameView,
    draw_lists: Seq<DrawList>,
    pipeline_sizes: Seq<(PipelineId, Size)>,
    viewport_size: Size,
) -> Result<FlattenState, FrameError> {
    match root_of(scene) {
        Err(e) => Err(e),
        Ok((pipeline, context, root)) => if frame.next_render_target_id.0 == u32::MAX {
            Err(FrameError::IdsExhausted)
        } else {
            match flattened(
                scene,
                FlattenState {
                    frame: started(frame, root, context, viewport_size),
                    draw_lists,
                    pipeline_sizes,
                    current_group: None,
                },
                SceneItemKind::Pipeline(&pipeline),
                root_info(viewport_size, root),
                0,
                0,
            ) {
                Err(e) => Err(e),
                Ok(s) => {
                    let done = flushed(s);
                    Ok(
                        done.with_layers(
                            finalized(done.frame.layers, offsets_of(frame.layers)),
                        ),
                    )
                },
            }
        },
    }
}

fn find_offset(offsets: &Vec<(ScrollLayerId, Point)>, id: ScrollLayerId) -> (p: Point)
    ensures
        p == previous_offset(offsets@, id),
{
    let mut i: usize = 0;
    while i < offsets.len()
        invariant
            i <= offsets.len(),
            forall|j: int| 0 <= j < i ==> offset_keys(offsets@)[j] != id,
        decreases offsets.len() - i,
    {
        if offsets[i].0 == id {
            proof {
                lemma_position_found(offset_keys(offsets@), id, i as int);
            }
            return offsets[i].1;
        }
        i += 1;
    }
    proof {
        lemma_position_absent(offset_keys(offsets@), id);
    }
    Point::zero()
}

impl Frame {
    /// Drops what a failed build has left in the frame.
    fn abandon(
        &mut self,
        next_render_target_id: RenderTargetId,
        root_scroll_layer_id: Option<ScrollLayerId>,
        next_draw_list_group_id: DrawListGroupId,
    )
        ensures
            final(self)@ == (FrameView {
                layers: Seq::empty(),
                pipeline_epoch_map: Seq::empty(),
                render_targets: Seq::empty(),
                stacking_context_info: Seq::empty(),
                draw_list_groups: Seq::empty(),
                next_render_target_id,
                next_draw_list_group_id,
                root_scroll_layer_id,
                pending_updates: old(self)@.pending_updates,
            }),
    {
        self.layers.clear();
        self.pipeline_epoch_map.clear();
        self.render_targets.clear();
        self.stacking_context_info.clear();
        self.draw_list_groups.clear();
        self.next_render_target_id = next_render_target_id;
        self.next_draw_list_group_id = next_draw_list_group_id;
        self.root_scroll_layer_id = root_scroll_layer_id;
        proof {
            assert(self@.layers =~= Seq::<LayerView>::empty());
            assert(self@.render_targets =~= Seq::<RenderTargetView>::empty());
            assert(self@.stacking_context_info =~= Seq::empty());
            assert(self@.draw_list_groups =~= Seq::empty());
        }
    }

    /// Scrolls every layer to where the layer of its name was before.
    fn finalize_layers(&mut self, offsets: &Vec<(ScrollLayerId, Point)>)
        ensures
            final(self)@ == (FrameView {
                layers: finalized(old(self)@.layers, offsets@),
                ..old(self)@
            }),
    {
        let mut i: usize = 0;
        while i < self.layers.len()
            invariant
                i <= self.layers.len(),
                self.layers@.len() == old(self).layers@.len(),
                self@ == (FrameView { layers: self@.layers, ..old(self)@ }),
                forall|j: int|
                    0 <= j < i ==> self@.layers[j] == finalized(old(self)@.layers, offsets@)[j],
                forall|j: int| i <= j < self.layers.len() ==> self@.layers[j] == old(self)@.layers[j],
            decreases self.layers.len() - i,
        {
            let scroll_offset = find_offset(offsets, self.layers[i].id);
            self.layers[i].finalize(scroll_offset);
            i += 1;
        }
        assert(self@.layers =~= finalized(old(self)@.layers, offsets@));
    }

    /// Builds the frame anew from a scene.
    ///
    /// A scene without a root leaves everything as it is. Any other
    /// failure leaves the frame empty, as `reset` does, and the sizes of the
    /// pipelines and the draw lists as they were.
    pub fn create(
        &mut self,
        scene: &Scene,
        resource_cache: &mut ResourceCache,
        pipeline_sizes: &mut Vec<(PipelineId, Size)>,
        viewport_size: Size,
    ) -> (r: Result<(), FrameError>)
        ensures
            old(resource_cache).wf() ==> final(resource_cache).wf(),
            final(resource_cache).pending_resources == old(resource_cache).pending_resources,
            final(resource_cache).next_texture_id == old(resource_cache).next_texture_id,
            root_of(scene) is Ok ==> frame_sound(final(self)@),
            r is Ok ==> frame_groups_in_place(final(self)@)
                && no_textures(final(self)@.render_targets),
            match root_of(scene) {
                Err(e) => {
                    &&& r == Err::<(), FrameError>(e)
                    &&& final(self)@ == old(self)@
                    &&& final(pipeline_sizes)@ == old(pipeline_sizes)@
                    &&& final(resource_cache).draw_lists@ == old(resource_cache).draw_lists@
                    &&& final(resource_cache).render_targets@ == old(
                        resource_cache,
                    ).render_targets@
                },
                Ok(_) => {
                    &&& final(resource_cache).render_targets@ == released(
                        old(resource_cache).render_targets@,
                        old(self)@.render_targets,
                    )
                    &&& match creation(
                        scene,
                        old(self)@,
                        old(resource_cache).draw_lists@,
                        old(pipeline_sizes)@,
                        viewport_size,
                    ) {
                        Ok(s) => {
                            &&& r is Ok
                            &&& final(self)@ == s.frame
                            &&& final(resource_cache).draw_lists@ == s.draw_lists
                            &&& final(pipeline_sizes)@ == s.pipeline_sizes
                        },
                        Err(e) => {
                            &&& r == Err::<(), FrameError>(e)
                            &&& final(self)@ == emptied(old(self)@)
                            &&& final(pipeline_sizes)@ == old(pipeline_sizes)@
                            &&& final(resource_cache).draw_lists@ == old(
                                resource_cache,
                            ).draw_lists@
                        },
                    }
                },
            },
    {
        let root_pipeline_id = match scene.root_pipeline_id {
            Some(id) => id,
            None => {
                return Err(FrameError::MissingRootPipeline);
            },
        };
        let root_pipeline = match scene.find_pipeline(root_pipeline_id) {
            Some(p) => p,
            None => {
                return Err(FrameError::MissingRootPipeline);
            },
        };
        let root_stacking_context = match scene.find_stacking_context(
            root_pipeline.root_stacking_context_id,
        ) {
            Some(c) => c,
            None => {
                return Err(FrameError::MissingStackingContext);
            },
        };
        let root_scroll_layer_id = match root_stacking_context.stacking_context.scroll_layer_id {
            Some(id) => id,
            None => {
                return Err(FrameError::RootNotScrollLayer);
            },
        };
        let old_root_scroll_layer_id = self.root_scroll_layer_id;
        let old_next_render_target_id = self.next_render_target_id;
        let old_next_draw_list_group_id = self.next_draw_list_group_id;
        let old_layer_offsets = self.reset(resource_cache);
        self.root_scroll_layer_id = Some(root_scroll_layer_id);
        let root_target_id = match self.next_render_target_id() {
            Some(id) => id,
            None => {
                self.abandon(
                    old_next_render_target_id,
                    old_root_scroll_layer_id,
                    old_next_draw_list_group_id,
                );
                return Err(FrameError::IdsExhausted);
            },
        };
        self.render_targets.push(
            RenderTarget::new(
                root_target_id,
                side_of_viewport(viewport_size.width),
                side_of_viewport(viewport_size.height),
            ),
        );
        self.layers.push(
            Layer::new(
                ScrollLayerId::Fixed,
                root_stacking_context.stacking_context.overflow.origin,
                root_stacking_context.stacking_context.overflow.size,
                viewport_size,
                &Transform::identity(),
            ),
        );
        proof {
            assert(self@.render_targets =~= started(
                old(self)@,
                root_scroll_layer_id,
                *root_stacking_context,
                viewport_size,
            ).render_targets);
            assert(self@.layers =~= started(
                old(self)@,
                root_scroll_layer_id,
                *root_stacking_context,
                viewport_size,
            ).layers);
        }
        let saved_sizes = copy_of(pipeline_sizes);
        let saved_tags = tags_of(&resource_cache.draw_lists);
        let mut context = FlattenContext {
            draw_lists: Vec::new(),
            pipeline_sizes: Vec::new(),
            current_draw_list_group: None,
        };
        core::mem::swap(&mut context.draw_lists, &mut resource_cache.draw_lists);
        core::mem::swap(&mut context.pipeline_sizes, pipeline_sizes);
        let parent_info = FlattenInfo {
            viewport_size,
            offset_from_origin: Point::zero(),
            offset_from_current_layer: Point::zero(),
            default_scroll_layer_id: root_scroll_layer_id,
            actual_scroll_layer_id: root_scroll_layer_id,
            current_clip_rect: max_rect_value(),
            transform: Transform::identity(),
            perspective: Transform::identity(),
        };
        let flattened = self.flatten(
            scene,
            SceneItemKind::Pipeline(root_pipeline),
            &parent_info,
            &mut context,
            0,
            0,
        );
        core::mem::swap(&mut context.draw_lists, &mut resource_cache.draw_lists);
        match flattened {
            Err(e) => {
                self.abandon(
                    old_next_render_target_id,
                    old_root_scroll_layer_id,
                    old_next_draw_list_group_id,
                );
                *pipeline_sizes = saved_sizes;
                restore_tags(
                    &mut resource_cache.draw_lists,
                    &saved_tags,
                    Ghost(old(resource_cache).draw_lists@),
                );
                Err(e)
            },
            Ok(()) => {
                core::mem::swap(&mut context.pipeline_sizes, pipeline_sizes);
                if let Some(last_draw_list_group) = context.current_draw_list_group.take() {
                    self.draw_list_groups.push(last_draw_list_group);
                }
                self.finalize_layers(&old_layer_offsets);
                proof {
                    lemma_created_frame_is_sound(
                        scene,
                        old(self)@,
                        old(resource_cache).draw_lists@,
                        old(pipeline_sizes)@,
                        viewport_size,
                    );
                }
                Ok(())
            },
        }
    }
}

/// The records that the draw lists point to.
fn tags_of(draw_lists: &Vec<DrawList>) -> (tags: Vec<Option<StackingContextIndex>>)
    ensures
        tags@.len() == draw_lists@.len(),
        forall|i: int|
            0 <= i < tags@.len() ==> tags@[i] == (#[trigger] draw_lists@[i]).stacking_context_index,
{
    let mut tags: Vec<Option<StackingContextIndex>> = Vec::new();
    let mut i: usize = 0;
    while i < draw_lists.len()
        invariant
            i <= draw_lists.len(),
            tags@.len() == i,
            forall|j: int|
                0 <= j < i ==> tags@[j] == (#[trigger] draw_lists@[j]).stacking_context_index,
        decreases draw_lists.len() - i,
    {
        tags.push(draw_lists[i].stacking_context_index);
        i += 1;
    }
    tags
}

/// Makes the draw lists point to the records that they pointed to before.
fn restore_tags(
    draw_lists: &mut Vec<DrawList>,
    tags: &Vec<Option<StackingContextIndex>>,
    Ghost(before): Ghost<Seq<DrawList>>,
)
    requires
        only_tags_differ(before, old(draw_lists)@),
        tags@.len() == before.len(),
        forall|i: int|
            0 <= i < before.len() ==> tags@[i] == (#[trigger] before[i]).stacking_context_index,
    ensures
        final(draw_lists)@ == before,
{
    let mut i: usize = 0;
    while i < draw_lists.len()
        invariant
            i <= draw_lists.len(),
            draw_lists@.len() == before.len(),
            tags@.len() == before.len(),
            forall|j: int|
                0 <= j < before.len() ==> tags@[j] == (#[trigger] before[j]).stacking_context_index,
            forall|j: int| 0 <= j < i ==> #[trigger] draw_lists@[j] == before[j],
            forall|j: int|
                i <= j < before.len() ==> (#[trigger] draw_lists@[j]).id == before[j].id
                    && draw_lists@[j].items == before[j].items,
        decreases draw_lists.len() - i,
    {
        draw_lists[i].stacking_context_index = tags[i];
        proof {
            assert(before[i as int].id == draw_lists@[i as int].id);
        }
        i += 1;
    }
    assert(draw_lists@ =~= before);
}

fn side_of_viewport(length: i32) -> (s: u32)
    ensures
        s == side(length),
{
    if length > 0 {
        length as u32
    } else {
        0
    }
}

} // verus!
