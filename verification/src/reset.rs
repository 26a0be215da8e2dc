//! Emptying a frame.

use vstd::prelude::*;
use crate::batch::{BatchUpdate, BatchUpdateList, BatchUpdateOp};
use crate::frame::{Frame, FrameView};
use crate::geometry::Point;
use crate::layer::{LayerView, Node};
use crate::lookup::{lemma_position, position};
use crate::render_target::RenderTargetView;
use crate::resource_cache::{
    RenderTargetTexture, ResourceCache, texture_ids, textures_wf, without_texture,
};
use crate::soundness::frame_sound;
use crate::types::{
    DrawListGroupId, Epoch, PipelineId, RenderTargetId, ScrollLayerId, TextureId, VertexBufferId,
};
use crate::views::group_views;

verus! {

broadcast use group_views;

/// The vertex buffer that the renderer holds for a node.
pub open spec fn vertex_buffer_of(node: Node) -> Option<VertexBufferId> {
    match node.compiled_node {
        Some(c) => c.vertex_buffer_id,
        None => None,
    }
}

/// The updates that take back the vertex buffers of `nodes`.
pub open spec fn destroys(nodes: Seq<Node>) -> Seq<BatchUpdate>
    decreases nodes.len(),
{
    if nodes.len() == 0 {
        Seq::empty()
    } else {
        match vertex_buffer_of(nodes.last()) {
            Some(id) => destroys(nodes.drop_last()).push(
                BatchUpdate { id, op: BatchUpdateOp::Destroy },
            ),
            None => destroys(nodes.drop_last()),
        }
    }
}

/// The updates that take back the vertex buffers of all nodes of `layers`.
pub open spec fn all_destroys(layers: Seq<LayerView>) -> Seq<BatchUpdate>
    decreases layers.len(),
{
    if layers.len() == 0 {
        Seq::empty()
    } else {
        all_destroys(layers.drop_last()) + destroys(layers.last().nodes)
    }
}

/// Where each layer is scrolled to.
pub open spec fn offsets_of(layers: Seq<LayerView>) -> Seq<(ScrollLayerId, Point)> {
    Seq::new(layers.len(), |i: int| (layers[i].id, layers[i].scroll_offset))
}

/// `textures` without those that `targets` render their children to.
pub open spec fn released(textures: Seq<RenderTargetTexture>, targets: Seq<RenderTargetView>) -> Seq<
    RenderTargetTexture,
>
    decreases targets.len(),
{
    if targets.len() == 0 {
        textures
    } else {
        let rest = released(textures, targets.drop_last());
        match targets.last().child_texture_id {
            Some(t) => without_texture(rest, t),
            None => rest,
        }
    }
}

/// The frame with nothing in it. The names to give out next stay, and so
/// does the root scroll layer; the renderer is told to drop the vertex
/// buffers of the nodes that are gone.
pub open spec fn emptied(frame: FrameView) -> FrameView {
    FrameView {
        layers: Seq::empty(),
        pipeline_epoch_map: Seq::empty(),
        pending_updates: frame.pending_updates + all_destroys(frame.layers),
        render_targets: Seq::empty(),
        stacking_context_info: Seq::empty(),
        draw_list_groups: Seq::empty(),
        ..frame
    }
}

/// A frame that holds nothing.
pub open spec fn blank() -> FrameView {
    FrameView {
        layers: Seq::empty(),
        pipeline_epoch_map: Seq::empty(),
        pending_updates: Seq::empty(),
        render_targets: Seq::empty(),
        stacking_context_info: Seq::empty(),
        next_render_target_id: RenderTargetId(0),
        next_draw_list_group_id: DrawListGroupId(0),
        draw_list_groups: Seq::empty(),
        root_scroll_layer_id: None,
    }
}

fn push_destroys(pending_updates: &mut BatchUpdateList, nodes: &Vec<Node>)
    ensures
        final(pending_updates).updates@ == old(pending_updates).updates@ + destroys(nodes@),
{
    let mut i: usize = 0;
    while i < nodes.len()
        invariant
            i <= nodes.len(),
            pending_updates.updates@ == old(pending_updates).updates@ + destroys(
                nodes@.take(i as int),
            ),
        decreases nodes.len() - i,
    {
        assert(nodes@.take(i + 1).drop_last() =~= nodes@.take(i as int));
        let id = match &nodes[i].compiled_node {
            Some(c) => c.vertex_buffer_id,
            None => None,
        };
        if let Some(id) = id {
            pending_updates.push(BatchUpdate { id, op: BatchUpdateOp::Destroy });
        }
        assert(pending_updates.updates@ =~= old(pending_updates).updates@ + destroys(
            nodes@.take(i + 1),
        ));
        i += 1;
    }
    assert(nodes@.take(nodes.len() as int) =~= nodes@);
}

impl Frame {
    pub fn new() -> (f: Frame)
        ensures
            f@ == blank(),
            frame_sound(f@),
    {
        let f = Frame {
            pipeline_epoch_map: Vec::new(),
            pending_updates: BatchUpdateList::new(),
            render_targets: Vec::new(),
            layers: Vec::new(),
            stacking_context_info: Vec::new(),
            next_render_target_id: RenderTargetId(0),
            next_draw_list_group_id: DrawListGroupId(0),
            draw_list_groups: Vec::new(),
            root_scroll_layer_id: None,
        };
        proof {
            assert(f@.layers =~= Seq::<LayerView>::empty());
            assert(f@.render_targets =~= Seq::<RenderTargetView>::empty());
            assert(f@.stacking_context_info =~= Seq::empty());
            assert(f@.draw_list_groups =~= Seq::empty());
        }
        f
    }

    /// Empties the frame, gives the textures of its render targets back to
    /// the cache, and says where each layer was scrolled to.
    pub fn reset(&mut self, resource_cache: &mut ResourceCache) -> (old_layer_offsets: Vec<
        (ScrollLayerId, Point),
    >)
        ensures
            final(self)@ == emptied(old(self)@),
            frame_sound(final(self)@),
            old_layer_offsets@ == offsets_of(old(self)@.layers),
            old(resource_cache).wf() ==> final(resource_cache).wf(),
            final(resource_cache).render_targets@ == released(
                old(resource_cache).render_targets@,
                old(self)@.render_targets,
            ),
            final(resource_cache).draw_lists == old(resource_cache).draw_lists,
            final(resource_cache).pending_resources == old(resource_cache).pending_resources,
            final(resource_cache).next_texture_id == old(resource_cache).next_texture_id,
    {
        self.draw_list_groups.clear();
        self.pipeline_epoch_map.clear();
        self.stacking_context_info.clear();
        let mut t: usize = 0;
        while t < self.render_targets.len()
            invariant
                t <= self.render_targets.len(),
                self.render_targets == old(self).render_targets,
                self.layers == old(self).layers,
                self.pending_updates == old(self).pending_updates,
                old(resource_cache).wf() ==> resource_cache.wf(),
                self.draw_list_groups@.len() == 0,
                self.pipeline_epoch_map@ == Seq::<(PipelineId, Epoch)>::empty(),
                self.stacking_context_info@.len() == 0,
                self.next_render_target_id == old(self).next_render_target_id,
                self.next_draw_list_group_id == old(self).next_draw_list_group_id,
                self.root_scroll_layer_id == old(self).root_scroll_layer_id,
                resource_cache.render_targets@ == released(
                    old(resource_cache).render_targets@,
                    old(self)@.render_targets.take(t as int),
                ),
                resource_cache.draw_lists == old(resource_cache).draw_lists,
                resource_cache.pending_resources == old(resource_cache).pending_resources,
                resource_cache.next_texture_id == old(resource_cache).next_texture_id,
            decreases self.render_targets.len() - t,
        {
            assert(old(self)@.render_targets.take(t + 1).drop_last() =~= old(
                self,
            )@.render_targets.take(t as int));
            if let Some(child_texture_id) = self.render_targets[t].child_texture_id {
                resource_cache.free_render_target(child_texture_id);
            }
            t += 1;
        }
        assert(old(self)@.render_targets.take(t as int) =~= old(self)@.render_targets);
        self.render_targets.clear();
        let mut old_layer_offsets: Vec<(ScrollLayerId, Point)> = Vec::new();
        let mut l: usize = 0;
        while l < self.layers.len()
            invariant
                l <= self.layers.len(),
                self.layers == old(self).layers,
                self.render_targets@.len() == 0,
                self.draw_list_groups@.len() == 0,
                self.pipeline_epoch_map@ == Seq::<(PipelineId, Epoch)>::empty(),
                self.stacking_context_info@.len() == 0,
                self.next_render_target_id == old(self).next_render_target_id,
                self.next_draw_list_group_id == old(self).next_draw_list_group_id,
                self.root_scroll_layer_id == old(self).root_scroll_layer_id,
                old_layer_offsets@ == offsets_of(old(self)@.layers).take(l as int),
                self.pending_updates.updates@ == old(self).pending_updates.updates@ + all_destroys(
                    old(self)@.layers.take(l as int),
                ),
            decreases self.layers.len() - l,
        {
            assert(old(self)@.layers.take(l + 1).drop_last() =~= old(self)@.layers.take(l as int));
            push_destroys(&mut self.pending_updates, &self.layers[l].nodes);
            old_layer_offsets.push((self.layers[l].id, self.layers[l].scroll_offset));
            assert(old_layer_offsets@ =~= offsets_of(old(self)@.layers).take(l + 1));
            assert(self.pending_updates.updates@ =~= old(self).pending_updates.updates@
                + all_destroys(old(self)@.layers.take(l + 1)));
            l += 1;
        }
        assert(old(self)@.layers.take(l as int) =~= old(self)@.layers);
        assert(offsets_of(old(self)@.layers).take(l as int) =~= offsets_of(old(self)@.layers));
        self.layers.clear();
        proof {
            assert(self@.layers =~= Seq::<LayerView>::empty());
            assert(self@.render_targets =~= Seq::<RenderTargetView>::empty());
            assert(self@.stacking_context_info =~= Seq::empty());
            assert(self@.draw_list_groups =~= Seq::empty());
        }
        old_layer_offsets
    }

    /// Hands over the updates that have gathered, and starts anew.
    pub fn pending_updates(&mut self) -> (updates: BatchUpdateList)
        ensures
            updates.updates@ == old(self)@.pending_updates,
            final(self)@ == (FrameView { pending_updates: Seq::empty(), ..old(self)@ }),
    {
        let mut updates = BatchUpdateList::new();
        core::mem::swap(&mut self.pending_updates, &mut updates);
        updates
    }
}

/// A frame that has been emptied holds no layer, no draw-list group, no
/// record of a stacking context, no epoch and no render target.
pub proof fn lemma_emptied_holds_nothing(frame: FrameView)
    ensures
        emptied(frame).layers.len() == 0,
        emptied(frame).draw_list_groups.len() == 0,
        emptied(frame).stacking_context_info.len() == 0,
        emptied(frame).pipeline_epoch_map.len() == 0,
        emptied(frame).render_targets.len() == 0,
        emptied(emptied(frame)) == emptied(frame),
{
    assert(all_destroys(Seq::<LayerView>::empty()) =~= Seq::<BatchUpdate>::empty());
    assert(emptied(frame).pending_updates + Seq::<BatchUpdate>::empty()
        =~= emptied(frame).pending_updates);
}

/// Taking textures back never hands one out, and leaves every texture
/// alone that no render target holds.
pub proof fn lemma_released_keeps_others(
    textures: Seq<RenderTargetTexture>,
    next: u32,
    targets: Seq<RenderTargetView>,
    id: TextureId,
)
    requires
        textures_wf(textures, next),
    ensures
        textures_wf(released(textures, targets), next),
        position(texture_ids(textures), id) is None
            ==> position(
            texture_ids(released(textures, targets)),
            id,
        ) is None,
        (forall|t: int| 0 <= t < targets.len() ==> targets[t].child_texture_id != Some(id))
            ==> (position(
            texture_ids(released(textures, targets)),
            id,
        ) is Some <==> position(texture_ids(textures), id)
            is Some),
    decreases targets.len(),
{
    if targets.len() > 0 {
        let head = targets.drop_last();
        lemma_released_keeps_others(textures, next, head, id);
        let rest = released(textures, head);
        assert(forall|t: int| 0 <= t < head.len() ==> head[t] == targets[t]);
        match targets.last().child_texture_id {
            Some(x) => {
                lemma_without_texture(rest, next, x, id);
            },
            None => {},
        }
    }
}

/// Giving one texture back leaves the cache in order, takes that texture
/// out of what is handed out, and leaves every other where it is.
pub proof fn lemma_without_texture(
    textures: Seq<RenderTargetTexture>,
    next: u32,
    freed: TextureId,
    id: TextureId,
)
    requires
        textures_wf(textures, next),
    ensures
        textures_wf(without_texture(textures, freed), next),
        position(
            texture_ids(without_texture(textures, freed)),
            freed,
        ) is None,
        id != freed ==> (position(
            texture_ids(without_texture(textures, freed)),
            id,
        ) is Some <==> position(texture_ids(textures), id)
            is Some),
        position(texture_ids(textures), id) is None
            ==> position(
            texture_ids(without_texture(textures, freed)),
            id,
        ) is None,
{
    let ids = texture_ids(textures);
    let rest = without_texture(textures, freed);
    let rest_ids = texture_ids(rest);
    lemma_position(ids, freed);
    lemma_position(ids, id);
    lemma_position(rest_ids, id);
    lemma_position(rest_ids, freed);
    match position(ids, freed) {
        None => {},
        Some(i) => {
            assert forall|j: int| 0 <= j < rest.len() implies #[trigger] rest[j] == textures[if j
                < i {
                j
            } else {
                j + 1
            }] by {}
            assert forall|j: int| 0 <= j < rest.len() implies (#[trigger] rest[j]).id.0 < next by {
                assert(rest[j] == textures[if j < i { j } else { j + 1 }]);
            }
            assert forall|a: int, b: int| 0 <= a < b < rest.len() implies rest[a].id
                != rest[b].id by {
                assert(rest[a] == textures[if a < i { a } else { a + 1 }]);
                assert(rest[b] == textures[if b < i { b } else { b + 1 }]);
            }
            assert forall|j: int| 0 <= j < rest.len() implies rest_ids[j] != freed by {
                assert(rest[j] == textures[if j < i { j } else { j + 1 }]);
                assert(textures[i].id == freed);
            }
            if id != freed {
                if position(ids, id) is Some {
                    let a = position(ids, id)->0;
                    let b = if a < i { a } else { a - 1 };
                    assert(rest[b] == textures[a]);
                    assert(rest_ids[b] == id);
                }
                if position(rest_ids, id) is Some {
                    let b = position(rest_ids, id)->0;
                    let a = if b < i { b } else { b + 1 };
                    assert(rest[b] == textures[a]);
                    assert(ids[a] == id);
                }
            } else {
            }
            if position(ids, id) is None {
                assert forall|j: int| 0 <= j < rest.len() implies rest_ids[j] != id by {
                    let a = if j < i { j } else { j + 1 };
                    assert(rest[j] == textures[a]);
                    assert(ids[a] != id);
                }
            }
        },
    }
}

/// Emptying a frame gives every texture back that one of its render
/// targets holds.
pub proof fn lemma_released_frees_held(
    textures: Seq<RenderTargetTexture>,
    next: u32,
    targets: Seq<RenderTargetView>,
    t: int,
)
    requires
        textures_wf(textures, next),
        0 <= t < targets.len(),
        targets[t].child_texture_id is Some,
    ensures
        position(
            texture_ids(released(textures, targets)),
            targets[t].child_texture_id->0,
        ) is None,
    decreases targets.len(),
{
    let x = targets[t].child_texture_id->0;
    let head = targets.drop_last();
    let rest = released(textures, head);
    lemma_released_keeps_others(textures, next, head, x);
    if t == targets.len() - 1 {
        lemma_without_texture(rest, next, x, x);
    } else {
        assert(head[t] == targets[t]);
        lemma_released_frees_held(textures, next, head, t);
        match targets.last().child_texture_id {
            Some(y) => {
                lemma_without_texture(rest, next, y, x);
            },
            None => {},
        }
    }
}

} // verus!
