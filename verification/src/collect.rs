//! Collecting the render targets of a frame into the layers that the
//! renderer draws.
//!
//! A render target with children gets a square texture for them, and every
//! child a place in it: the children stand side by side in rows, in their
//! order, and a new row starts below the tallest of the row before where
//! the next child does not fit beside the last.

use vstd::prelude::*;
use crate::batch::copy_of;
use crate::commands::{commands, DrawCommand, DrawCommandView};
use crate::error::FrameError;
use crate::frame::{Frame, FrameView};
use crate::geometry::max_int;
use crate::nodes::{all_creates, batch_cached};
use crate::render_target::RenderTargetView;
use crate::resource_cache::{
    DrawList, ImageFormat, RenderTargetTexture, ResourceCache, without_texture,
};
use crate::shape::{
    lemma_collected_upto_shape, lemma_same_shape_sound, lemma_same_shape_transitive, same_shape,
};
use crate::soundness::frame_sound;
use crate::transforms::transforms_updated;
use crate::types::{CHILD_TEXTURE_SIZE, Epoch, PipelineId, TextureId};
use crate::views::{group_views, views};

verus! {

broadcast use group_views;

/// The texture that the children of a layer are drawn to.
#[derive(Clone, Copy, Debug, PartialEq, Eq, Structural)]
pub struct DrawTargetInfo {
    pub texture_id: TextureId,
    pub width: u32,
    pub height: u32,
}

/// A place in a texture.
#[derive(Clone, Copy, Debug, PartialEq, Eq, Structural)]
pub struct Origin {
    pub x: u32,
    pub y: u32,
}

/// What the renderer draws for one render target. The layers of a frame
/// stand in one list, as the render targets do, and `child_layers` holds
/// the places of the children in that list.
#[derive(Debug, PartialEq, Eq)]
pub struct DrawLayer {
    pub draw_target_info: Option<DrawTargetInfo>,
    pub child_layers: Vec<usize>,
    pub commands: Vec<DrawCommand>,
    /// Where the layer lies in the texture of its parent.
    pub layer_origin: Origin,
    pub layer_width: u32,
    pub layer_height: u32,
}

/// A layer to draw, as plain values.
pub struct DrawLayerView {
    pub draw_target_info: Option<DrawTargetInfo>,
    pub child_layers: Seq<usize>,
    pub commands: Seq<DrawCommandView>,
    pub layer_origin: Origin,
    pub layer_width: u32,
    pub layer_height: u32,
}

impl View for DrawLayer {
    type V = DrawLayerView;

    open spec fn view(&self) -> DrawLayerView {
        DrawLayerView {
            draw_target_info: self.draw_target_info,
            child_layers: self.child_layers@,
            commands: views(self.commands@),
            layer_origin: self.layer_origin,
            layer_width: self.layer_width,
            layer_height: self.layer_height,
        }
    }
}

/// What the renderer gets for a frame. The first layer is the root.
#[derive(Debug, PartialEq, Eq)]
pub struct RendererFrame {
    pub pipeline_epoch_map: Vec<(PipelineId, Epoch)>,
    pub layers: Vec<DrawLayer>,
}

/// A renderer frame, as plain values.
pub struct RendererFrameView {
    pub pipeline_epoch_map: Seq<(PipelineId, Epoch)>,
    pub layers: Seq<DrawLayerView>,
}

impl View for RendererFrame {
    type V = RendererFrameView;

    open spec fn view(&self) -> RendererFrameView {
        RendererFrameView {
            pipeline_epoch_map: self.pipeline_epoch_map@,
            layers: views(self.layers@),
        }
    }
}

/// Where the next child goes: beside the last, at `x` in the row that
/// starts at `y` and is `height` tall so far.
#[derive(Clone, Copy, Debug, PartialEq, Eq, Structural)]
pub struct Shelf {
    pub x: u32,
    pub y: u32,
    pub height: u32,
}

/// The place of a child of the given size, and where the next one goes.
/// There is no place for a child that leaves the texture.
pub open spec fn place(shelf: Shelf, width: u32, height: u32) -> Option<(Origin, Shelf)> {
    let page = CHILD_TEXTURE_SIZE as int;
    if width > page || height > page {
        None
    } else if shelf.x + width <= page {
        if shelf.y + max_int(height as int, shelf.height as int) <= page {
            Some(
                (
                    Origin { x: shelf.x, y: shelf.y },
                    Shelf {
                        x: (shelf.x + width) as u32,
                        y: shelf.y,
                        height: max_int(height as int, shelf.height as int) as u32,
                    },
                ),
            )
        } else {
            None
        }
    } else if shelf.y + shelf.height + height <= page {
        Some(
            (
                Origin { x: 0, y: (shelf.y + shelf.height) as u32 },
                Shelf { x: width, y: (shelf.y + shelf.height) as u32, height },
            ),
        )
    } else {
        None
    }
}

/// The places of the layers once the first `n` of `children` have got
/// theirs, and where the next child would go.
pub open spec fn children_placed(
    targets: Seq<RenderTargetView>,
    origins: Seq<Origin>,
    children: Seq<usize>,
    n: int,
) -> Option<(Seq<Origin>, Shelf)>
    decreases n,
{
    if n <= 0 || n > children.len() {
        Some((origins, Shelf { x: 0, y: 0, height: 0 }))
    } else {
        match children_placed(targets, origins, children, n - 1) {
            None => None,
            Some((placed, shelf)) => {
                let c = children[n - 1];
                if c < targets.len() && c < placed.len() {
                    match place(shelf, targets[c as int].width, targets[c as int].height) {
                        None => None,
                        Some((at, next)) => Some((placed.update(c as int, at), next)),
                    }
                } else {
                    Some((placed, shelf))
                }
            },
        }
    }
}

/// All that collecting works on, as plain values.
pub struct CollectState {
    pub frame: FrameView,
    pub textures: Seq<RenderTargetTexture>,
    pub next_texture_id: u32,
    /// The place of every render target in the texture of its parent.
    pub origins: Seq<Origin>,
    /// The layers collected so far.
    pub layers: Seq<DrawLayerView>,
}

/// The state after the render target at `t` has been collected.
pub open spec fn target_collected(
    state: CollectState,
    draw_lists: Seq<DrawList>,
    t: int,
    device_pixel_ratio: u32,
) -> Result<CollectState, FrameError> {
    let target = state.frame.render_targets[t];
    let layer = DrawLayerView {
        draw_target_info: None,
        child_layers: target.children,
        commands: commands(state.frame, draw_lists, target.items),
        layer_origin: state.origins[t],
        layer_width: target.width,
        layer_height: target.height,
    };
    if target.children.len() == 0 {
        Ok(CollectState { layers: state.layers.push(layer), ..state })
    } else if CHILD_TEXTURE_SIZE * device_pixel_ratio > u32::MAX {
        Err(FrameError::AtlasOverflow)
    } else if state.next_texture_id == u32::MAX {
        Err(FrameError::IdsExhausted)
    } else {
        let side = (CHILD_TEXTURE_SIZE * device_pixel_ratio) as u32;
        let id = TextureId(state.next_texture_id);
        let kept = match target.child_texture_id {
            Some(old) => without_texture(state.textures, old),
            None => state.textures,
        };
        match children_placed(
            state.frame.render_targets,
            state.origins,
            target.children,
            target.children.len() as int,
        ) {
            None => Err(FrameError::AtlasOverflow),
            Some((origins, _)) => Ok(
                CollectState {
                    frame: FrameView {
                        render_targets: state.frame.render_targets.update(
                            t,
                            RenderTargetView { child_texture_id: Some(id), ..target },
                        ),
                        ..state.frame
                    },
                    textures: kept.push(
                        RenderTargetTexture {
                            id,
                            width: side,
                            height: side,
                            format: ImageFormat::RGBA8,
                        },
                    ),
                    next_texture_id: (state.next_texture_id + 1) as u32,
                    origins,
                    layers: state.layers.push(
                        DrawLayerView {
                            draw_target_info: Some(
                                DrawTargetInfo {
                                    texture_id: id,
                                    width: CHILD_TEXTURE_SIZE,
                                    height: CHILD_TEXTURE_SIZE,
                                },
                            ),
                            ..layer
                        },
                    ),
                },
            ),
        }
    }
}

/// The state after the first `n` render targets have been collected.
pub open spec fn collected_upto(
    state: CollectState,
    draw_lists: Seq<DrawList>,
    n: int,
    device_pixel_ratio: u32,
) -> Result<CollectState, FrameError>
    decreases n,
{
    if n <= 0 || n > state.frame.render_targets.len() {
        Ok(state)
    } else {
        match collected_upto(state, draw_lists, n - 1, device_pixel_ratio) {
            Err(e) => Err(e),
            Ok(s) => target_collected(s, draw_lists, n - 1, device_pixel_ratio),
        }
    }
}

/// The state that collecting starts from: no layer yet, and every render
/// target at the corner of the texture of its parent.
pub open spec fn collect_start(
    frame: FrameView,
    textures: Seq<RenderTargetTexture>,
    next_texture_id: u32,
) -> CollectState {
    CollectState {
        frame,
        textures,
        next_texture_id,
        origins: Seq::new(frame.render_targets.len(), |i: int| Origin { x: 0, y: 0 }),
        layers: Seq::empty(),
    }
}

/// What collecting all render targets of a frame comes to.
pub open spec fn collected(
    frame: FrameView,
    draw_lists: Seq<DrawList>,
    textures: Seq<RenderTargetTexture>,
    next_texture_id: u32,
    device_pixel_ratio: u32,
) -> Result<CollectState, FrameError> {
    collected_upto(
        collect_start(frame, textures, next_texture_id),
        draw_lists,
        frame.render_targets.len() as int,
        device_pixel_ratio,
    )
}

/// Collecting has failed at a render target, and `frame`, `textures` and
/// `next_texture_id` are what collecting the render targets before that one
/// has left.
pub open spec fn left_by_failure(
    start: CollectState,
    draw_lists: Seq<DrawList>,
    device_pixel_ratio: u32,
    frame: FrameView,
    textures: Seq<RenderTargetTexture>,
    next_texture_id: u32,
) -> bool {
    exists|t: int|
        0 <= t < start.frame.render_targets.len() && (#[trigger] collected_upto(
            start,
            draw_lists,
            t,
            device_pixel_ratio,
        )) == Ok::<_, FrameError>(
            CollectState {
                frame,
                textures,
                next_texture_id,
                origins: collected_upto(start, draw_lists, t, device_pixel_ratio)->Ok_0.origins,
                layers: collected_upto(start, draw_lists, t, device_pixel_ratio)->Ok_0.layers,
            },
        ) && collected_upto(start, draw_lists, t + 1, device_pixel_ratio) is Err
}

/// A child that has been given a place lies within the texture.
pub proof fn lemma_placed_within_texture(shelf: Shelf, width: u32, height: u32)
    ensures
        place(shelf, width, height) matches Some((at, _)) ==> at.x + width <= CHILD_TEXTURE_SIZE
            && at.y + height <= CHILD_TEXTURE_SIZE,
{
}

fn place_child(shelf: Shelf, width: u32, height: u32) -> (r: Option<(Origin, Shelf)>)
    ensures
        r == place(shelf, width, height),
{
    let page: u64 = CHILD_TEXTURE_SIZE as u64;
    if width as u64 > page || height as u64 > page {
        None
    } else if shelf.x as u64 + width as u64 <= page {
        let tall = if height > shelf.height {
            height
        } else {
            shelf.height
        };
        if shelf.y as u64 + tall as u64 <= page {
            Some((Origin { x: shelf.x, y: shelf.y }, Shelf { x: shelf.x + width, y: shelf.y, height: tall }))
        } else {
            None
        }
    } else if shelf.y as u64 + shelf.height as u64 + height as u64 <= page {
        Some(
            (
                Origin { x: 0, y: shelf.y + shelf.height },
                Shelf { x: width, y: shelf.y + shelf.height, height },
            ),
        )
    } else {
        None
    }
}

/// Once a child has found no place, no later child changes that.
proof fn lemma_no_place_persists(
    targets: Seq<RenderTargetView>,
    origins: Seq<Origin>,
    children: Seq<usize>,
    n: int,
    m: int,
)
    requires
        0 <= n <= m <= children.len(),
        children_placed(targets, origins, children, n) is None,
    ensures
        children_placed(targets, origins, children, m) is None,
    decreases m,
{
    if n < m {
        lemma_no_place_persists(targets, origins, children, n, m - 1);
    }
}

/// Once a render target has failed, the failure is what collecting comes
/// to.
proof fn lemma_collect_error_persists(
    state: CollectState,
    draw_lists: Seq<DrawList>,
    n: int,
    m: int,
    device_pixel_ratio: u32,
)
    requires
        0 <= n <= m <= state.frame.render_targets.len(),
        collected_upto(state, draw_lists, n, device_pixel_ratio) is Err,
    ensures
        collected_upto(state, draw_lists, m, device_pixel_ratio) == collected_upto(
            state,
            draw_lists,
            n,
            device_pixel_ratio,
        ),
    decreases m,
{
    if n < m {
        lemma_collect_error_persists(state, draw_lists, n, m - 1, device_pixel_ratio);
    }
}

/// What collecting works on, as plain values.
pub open spec fn collect_state(
    frame: Frame,
    cache: ResourceCache,
    origins: Vec<Origin>,
    layers: Vec<DrawLayer>,
) -> CollectState {
    CollectState {
        frame: frame@,
        textures: cache.render_targets@,
        next_texture_id: cache.next_texture_id,
        origins: origins@,
        layers: views(layers@),
    }
}

impl Frame {
    /// Gives every child of the render target at `t` its place in the
    /// texture of that target. Says whether all of them found one.
    fn place_children(&self, origins: &mut Vec<Origin>, t: usize) -> (ok: bool)
        requires
            t < self.render_targets.len(),
        ensures
            match children_placed(
                self@.render_targets,
                old(origins)@,
                self@.render_targets[t as int].children,
                self@.render_targets[t as int].children.len() as int,
            ) {
                Some((placed, _)) => ok && final(origins)@ == placed,
                None => !ok,
            },
            final(origins).len() == old(origins).len(),
    {
        let children = &self.render_targets[t].children;
        let mut shelf = Shelf { x: 0, y: 0, height: 0 };
        let mut k: usize = 0;
        while k < children.len()
            invariant
                k <= children.len(),
                t < self.render_targets.len(),
                children@ == self@.render_targets[t as int].children,
                origins.len() == old(origins).len(),
                children_placed(self@.render_targets, old(origins)@, children@, k as int) == Some(
                    (origins@, shelf),
                ),
            decreases children.len() - k,
        {
            let c = children[k];
            if c < self.render_targets.len() && c < origins.len() {
                match place_child(shelf, self.render_targets[c].width, self.render_targets[c].height) {
                    Some((at, next)) => {
                        origins[c] = at;
                        shelf = next;
                    },
                    None => {
                        proof {
                            assert(children_placed(
                                self@.render_targets,
                                old(origins)@,
                                children@,
                                k + 1,
                            ) is None);
                            lemma_no_place_persists(
                                self@.render_targets,
                                old(origins)@,
                                children@,
                                k + 1,
                                children@.len() as int,
                            );
                        }
                        return false;
                    },
                }
            }
            k += 1;
        }
        true
    }

    /// Collects the render target at `t`.
    fn collect_target(
        &mut self,
        resource_cache: &mut ResourceCache,
        t: usize,
        device_pixel_ratio: u32,
        origins: &mut Vec<Origin>,
        layers: &mut Vec<DrawLayer>,
    ) -> (r: Result<(), FrameError>)
        requires
            t < old(self).render_targets.len(),
            t < old(origins).len(),
        ensures
            old(resource_cache).wf() ==> final(resource_cache).wf(),
            final(resource_cache).draw_lists == old(resource_cache).draw_lists,
            final(resource_cache).pending_resources == old(resource_cache).pending_resources,
            final(self).render_targets.len() == old(self).render_targets.len(),
            final(self).pipeline_epoch_map == old(self).pipeline_epoch_map,
            final(origins).len() == old(origins).len(),
            match target_collected(
                collect_state(*old(self), *old(resource_cache), *old(origins), *old(layers)),
                old(resource_cache).draw_lists@,
                t as int,
                device_pixel_ratio,
            ) {
                Ok(s) => r is Ok && collect_state(
                    *final(self),
                    *final(resource_cache),
                    *final(origins),
                    *final(layers),
                ) == s,
                Err(e) => r == Err::<(), FrameError>(e) && collect_state(
                    *final(self),
                    *final(resource_cache),
                    *final(origins),
                    *final(layers),
                ) == collect_state(*old(self), *old(resource_cache), *old(origins), *old(layers)),
            },
    {
        let commands = self.draw_commands(&resource_cache.draw_lists, t);
        let child_layers = copy_of(&self.render_targets[t].children);
        let layer_width = self.render_targets[t].width;
        let layer_height = self.render_targets[t].height;
        let layer_origin = origins[t];
        if self.render_targets[t].children.len() == 0 {
            layers.push(
                DrawLayer {
                    draw_target_info: None,
                    child_layers,
                    commands,
                    layer_origin,
                    layer_width,
                    layer_height,
                },
            );
            return Ok(());
        }
        let device_pixel_size = match CHILD_TEXTURE_SIZE.checked_mul(device_pixel_ratio) {
            Some(size) => size,
            None => {
                return Err(FrameError::AtlasOverflow);
            },
        };
        if resource_cache.next_texture_id == u32::MAX {
            return Err(FrameError::IdsExhausted);
        }
        let saved = copy_of(origins);
        if !self.place_children(origins, t) {
            *origins = saved;
            return Err(FrameError::AtlasOverflow);
        }
        if let Some(child_texture_id) = self.render_targets[t].child_texture_id {
            resource_cache.free_render_target(child_texture_id);
        }
        let texture_id = resource_cache.allocate_render_target(
            device_pixel_size,
            device_pixel_size,
            ImageFormat::RGBA8,
        ).unwrap();
        self.render_targets[t].child_texture_id = Some(texture_id);
        layers.push(
            DrawLayer {
                draw_target_info: Some(
                    DrawTargetInfo {
                        texture_id,
                        width: CHILD_TEXTURE_SIZE,
                        height: CHILD_TEXTURE_SIZE,
                    },
                ),
                child_layers,
                commands,
                layer_origin,
                layer_width,
                layer_height,
            },
        );
        proof {
            let target = old(self)@.render_targets[t as int];
            assert(self@.render_targets =~= old(self)@.render_targets.update(
                t as int,
                RenderTargetView { child_texture_id: Some(texture_id), ..target },
            ));
        }
        Ok(())
    }

    /// Collects what is to be drawn into the layers that the renderer
    /// draws, one for every render target, and gives every render target
    /// with children a new texture for them.
    pub fn collect_and_sort_visible_batches(
        &mut self,
        resource_cache: &mut ResourceCache,
        device_pixel_ratio: u32,
    ) -> (r: Result<RendererFrame, FrameError>)
        ensures
            old(resource_cache).wf() ==> final(resource_cache).wf(),
            final(resource_cache).draw_lists == old(resource_cache).draw_lists,
            final(resource_cache).pending_resources == old(resource_cache).pending_resources,
            match collected(
                old(self)@,
                old(resource_cache).draw_lists@,
                old(resource_cache).render_targets@,
                old(resource_cache).next_texture_id,
                device_pixel_ratio,
            ) {
                Ok(s) => {
                    &&& r matches Ok(frame)
                    &&& frame@ == (RendererFrameView {
                        pipeline_epoch_map: old(self)@.pipeline_epoch_map,
                        layers: s.layers,
                    })
                    &&& final(self)@ == s.frame
                    &&& final(resource_cache).render_targets@ == s.textures
                    &&& final(resource_cache).next_texture_id == s.next_texture_id
                },
                Err(e) => {
                    &&& r matches Err(x)
                    &&& x == e
                    &&& left_by_failure(
                        collect_start(
                            old(self)@,
                            old(resource_cache).render_targets@,
                            old(resource_cache).next_texture_id,
                        ),
                        old(resource_cache).draw_lists@,
                        device_pixel_ratio,
                        final(self)@,
                        final(resource_cache).render_targets@,
                        final(resource_cache).next_texture_id,
                    )
                },
            },
            same_shape(old(self)@, final(self)@),
            frame_sound(old(self)@) ==> frame_sound(
                final(self)@,
            ),
    {
        let mut origins: Vec<Origin> = Vec::new();
        let mut i: usize = 0;
        while i < self.render_targets.len()
            invariant
                i <= self.render_targets.len(),
                origins@ == Seq::new(i as nat, |j: int| Origin { x: 0, y: 0 }),
            decreases self.render_targets.len() - i,
        {
            origins.push(Origin { x: 0, y: 0 });
            assert(origins@ =~= Seq::new((i + 1) as nat, |j: int| Origin { x: 0, y: 0 }));
            i += 1;
        }
        let mut layers: Vec<DrawLayer> = Vec::new();
        let ghost start = collect_start(
            old(self)@,
            old(resource_cache).render_targets@,
            old(resource_cache).next_texture_id,
        );
        assert(collect_state(*self, *resource_cache, origins, layers) == start) by {
            assert(views(layers@) =~= Seq::<DrawLayerView>::empty());
        }
        let ghost draw_lists = resource_cache.draw_lists@;
        let mut t: usize = 0;
        while t < self.render_targets.len()
            invariant
                t <= self.render_targets.len(),
                self.render_targets.len() == old(self).render_targets.len(),
                origins.len() == self.render_targets.len(),
                old(resource_cache).wf() ==> resource_cache.wf(),
                resource_cache.draw_lists == old(resource_cache).draw_lists,
                resource_cache.pending_resources == old(resource_cache).pending_resources,
                draw_lists == resource_cache.draw_lists@,
                self.pipeline_epoch_map == old(self).pipeline_epoch_map,
                start == collect_start(
                    old(self)@,
                    old(resource_cache).render_targets@,
                    old(resource_cache).next_texture_id,
                ),
                start.frame.render_targets.len() == self.render_targets.len(),
                collected_upto(start, draw_lists, t as int, device_pixel_ratio) == Ok::<
                    _,
                    FrameError,
                >(collect_state(*self, *resource_cache, origins, layers)),
            decreases self.render_targets.len() - t,
        {
            match self.collect_target(resource_cache, t, device_pixel_ratio, &mut origins, &mut layers) {
                Ok(()) => {},
                Err(e) => {
                    proof {
                        assert(collected_upto(start, draw_lists, t + 1, device_pixel_ratio) == Err::<
                            CollectState,
                            _,
                        >(e));
                        lemma_collect_error_persists(
                            start,
                            draw_lists,
                            t + 1,
                            start.frame.render_targets.len() as int,
                            device_pixel_ratio,
                        );
                        lemma_collected_upto_shape(
                            start,
                            draw_lists,
                            t as int,
                            device_pixel_ratio,
                        );
                        if frame_sound(old(self)@) {
                            lemma_same_shape_sound(old(self)@, self@);
                        }
                        assert(collected_upto(start, draw_lists, t as int, device_pixel_ratio)
                            == Ok::<_, FrameError>(
                            collect_state(*self, *resource_cache, origins, layers),
                        ));
                        assert(left_by_failure(
                            start,
                            draw_lists,
                            device_pixel_ratio,
                            self@,
                            resource_cache.render_targets@,
                            resource_cache.next_texture_id,
                        ));
                    }
                    return Err(e);
                },
            }
            t += 1;
        }
        proof {
            lemma_collected_upto_shape(
                start,
                draw_lists,
                t as int,
                device_pixel_ratio,
            );
            if frame_sound(old(self)@) {
                lemma_same_shape_sound(old(self)@, self@);
            }
        }
        Ok(RendererFrame { pipeline_epoch_map: copy_of(&self.pipeline_epoch_map), layers })
    }
}

/// The frame once the vertex buffers of the newly compiled nodes have been
/// passed on and the world transforms of the layers have been set.
pub open spec fn prepared(frame: FrameView) -> FrameView {
    let cached = FrameView {
        layers: batch_cached(frame.layers),
        pending_updates: frame.pending_updates + all_creates(
            frame.layers,
            frame.layers.len() as int,
        ),
        ..frame
    };
    FrameView { layers: transforms_updated(cached), ..cached }
}

/// What building the renderer frame comes to.
pub open spec fn built(
    frame: FrameView,
    draw_lists: Seq<DrawList>,
    textures: Seq<RenderTargetTexture>,
    next_texture_id: u32,
    device_pixel_ratio: u32,
) -> Result<CollectState, FrameError> {
    collected(prepared(frame), draw_lists, textures, next_texture_id, device_pixel_ratio)
}

impl Frame {
    /// Builds the renderer frame of a frame that has been culled and whose
    /// visible nodes the embedder has compiled: passes the new vertex
    /// buffers on, sets the world transforms of the layers, and collects
    /// what is to be drawn.
    pub fn build(&mut self, resource_cache: &mut ResourceCache, device_pixel_ratio: u32) -> (r:
        Result<RendererFrame, FrameError>)
        ensures
            old(resource_cache).wf() ==> final(resource_cache).wf(),
            final(resource_cache).draw_lists == old(resource_cache).draw_lists,
            final(resource_cache).pending_resources == old(resource_cache).pending_resources,
            match built(
                old(self)@,
                old(resource_cache).draw_lists@,
                old(resource_cache).render_targets@,
                old(resource_cache).next_texture_id,
                device_pixel_ratio,
            ) {
                Ok(s) => {
                    &&& r matches Ok(frame)
                    &&& frame@ == (RendererFrameView {
                        pipeline_epoch_map: old(self)@.pipeline_epoch_map,
                        layers: s.layers,
                    })
                    &&& final(self)@ == s.frame
                    &&& final(resource_cache).render_targets@ == s.textures
                    &&& final(resource_cache).next_texture_id == s.next_texture_id
                },
                Err(e) => {
                    &&& r matches Err(x)
                    &&& x == e
                    &&& left_by_failure(
                        collect_start(
                            prepared(old(self)@),
                            old(resource_cache).render_targets@,
                            old(resource_cache).next_texture_id,
                        ),
                        old(resource_cache).draw_lists@,
                        device_pixel_ratio,
                        final(self)@,
                        final(resource_cache).render_targets@,
                        final(resource_cache).next_texture_id,
                    )
                },
            },
            same_shape(old(self)@, final(self)@),
            frame_sound(old(self)@) ==> frame_sound(
                final(self)@,
            ),
    {
        self.update_batch_cache();
        let ghost cached = self@;
        self.update_layer_transforms();
        let ghost ready = self@;
        let r = self.collect_and_sort_visible_batches(resource_cache, device_pixel_ratio);
        proof {
            lemma_same_shape_transitive(old(self)@, cached, ready);
            lemma_same_shape_transitive(old(self)@, ready, self@);
        }
        r
    }
}

} // verus!
