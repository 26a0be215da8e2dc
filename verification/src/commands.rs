//! The draw commands of a render target.
//!
//! Clears and composites go through as they are. A batch of draw lists
//! becomes the draw calls of the visible nodes of its scroll layer, with a
//! palette that holds, for every draw list of the group, the transform to
//! the world and the offset of its stacking context.

use vstd::prelude::*;
use crate::batch::{Batch, BatchList, TileParams, copy_of};
use crate::composition::CompositionOp;
use crate::draw_list_group::{DrawListGroup, DrawListGroupView};
use crate::frame::{Frame, FrameView, StackingContextInfo, StackingContextInfoView, group_ids, layer_ids};
use crate::geometry::{Point, Rect, Size};
use crate::layer::{Layer, LayerView, Node};
use crate::lookup::{position, lemma_position_found, lemma_position_absent};
use crate::render_target::{
    ClearInfo, CompositeBatchInfo, CompositeBatchJob, FrameRenderItem, RenderItemView,
};
use crate::resource_cache::{DrawList, draw_list_at, find_draw_list};
use crate::transform::{Factor, Transform, identity, product};
use crate::types::{DrawListGroupId, DrawListId, StackingContextIndex, TextureId, VertexBufferId};
use crate::views::{views, group_views};

verus! {

broadcast use group_views;

/// The offset of a stacking context, as one entry of the offset palette.
#[derive(Clone, Copy, Debug, PartialEq, Eq, Structural)]
pub struct OffsetParams {
    pub stacking_context_x0: i32,
    pub stacking_context_y0: i32,
}

/// One draw of a batch: the vertices, the textures and the clips to draw with.
#[derive(Debug, PartialEq, Eq)]
pub struct DrawCall {
    pub tile_params: Vec<TileParams>,
    pub clip_rects: Vec<Rect>,
    pub vertex_buffer_id: VertexBufferId,
    pub color_texture_id: TextureId,
    pub mask_texture_id: TextureId,
    pub first_instance: u32,
    pub instance_count: u32,
}

/// A draw call, as plain values.
pub struct DrawCallView {
    pub tile_params: Seq<TileParams>,
    pub clip_rects: Seq<Rect>,
    pub vertex_buffer_id: VertexBufferId,
    pub color_texture_id: TextureId,
    pub mask_texture_id: TextureId,
    pub first_instance: u32,
    pub instance_count: u32,
}

impl View for DrawCall {
    type V = DrawCallView;

    open spec fn view(&self) -> DrawCallView {
        DrawCallView {
            tile_params: self.tile_params@,
            clip_rects: self.clip_rects@,
            vertex_buffer_id: self.vertex_buffer_id,
            color_texture_id: self.color_texture_id,
            mask_texture_id: self.mask_texture_id,
            first_instance: self.first_instance,
            instance_count: self.instance_count,
        }
    }
}

/// The draws of one draw-list group, with the palettes that they index.
#[derive(Debug, PartialEq, Eq)]
pub struct BatchInfo {
    pub matrix_palette: Vec<Transform>,
    pub offset_palette: Vec<OffsetParams>,
    pub draw_calls: Vec<DrawCall>,
}

/// A batch, as plain values.
pub struct BatchInfoView {
    pub matrix_palette: Seq<Seq<Factor>>,
    pub offset_palette: Seq<OffsetParams>,
    pub draw_calls: Seq<DrawCallView>,
}

impl View for BatchInfo {
    type V = BatchInfoView;

    open spec fn view(&self) -> BatchInfoView {
        BatchInfoView {
            matrix_palette: views(self.matrix_palette@),
            offset_palette: self.offset_palette@,
            draw_calls: views(self.draw_calls@),
        }
    }
}

/// What the renderer is to do, in the order of the render items.
#[derive(Debug, PartialEq, Eq)]
pub enum DrawCommand {
    Batch(BatchInfo),
    CompositeBatch(CompositeBatchInfo),
    Clear(ClearInfo),
}

/// A draw command, as plain values.
pub enum DrawCommandView {
    Batch(BatchInfoView),
    CompositeBatch { operation: CompositionOp, jobs: Seq<CompositeBatchJob> },
    Clear(ClearInfo),
}

impl View for DrawCommand {
    type V = DrawCommandView;

    open spec fn view(&self) -> DrawCommandView {
        match *self {
            DrawCommand::Batch(info) => DrawCommandView::Batch(info@),
            DrawCommand::CompositeBatch(info) => DrawCommandView::CompositeBatch {
                operation: info.operation,
                jobs: info.jobs@,
            },
            DrawCommand::Clear(info) => DrawCommandView::Clear(info),
        }
    }
}

/// What of each of `rects` lies within `clip`; a rectangle of no extent
/// for one that lies outside.
pub open spec fn clipped(rects: Seq<Rect>, clip: Rect) -> Seq<Rect> {
    Seq::new(
        rects.len(),
        |i: int|
            match rects[i].intersected(clip) {
                Some(r) => r,
                None => Rect { origin: Point { x: 0, y: 0 }, size: Size { width: 0, height: 0 } },
            },
    )
}

/// The draw call of a batch of a node whose vertices the renderer holds
/// as `vertex_buffer_id`.
pub open spec fn draw_call(batch: Batch, vertex_buffer_id: VertexBufferId, clip: Rect) -> DrawCallView {
    DrawCallView {
        tile_params: batch.tile_params@,
        clip_rects: clipped(batch.clip_rects@, clip),
        vertex_buffer_id,
        color_texture_id: batch.color_texture_id,
        mask_texture_id: batch.mask_texture_id,
        first_instance: batch.first_instance,
        instance_count: batch.instance_count,
    }
}

/// The groups that the batch lists are for.
pub open spec fn batch_list_groups(lists: Seq<BatchList>) -> Seq<DrawListGroupId> {
    Seq::new(lists.len(), |i: int| lists[i].draw_list_group_id)
}

/// The batches that a node contributes to a draw-list group: those of the
/// first batch list of that group, if the node is to be drawn, has been
/// compiled, and has passed its vertices on.
pub open spec fn node_batches(node: Node, group: DrawListGroupId) -> Option<
    (Seq<Batch>, VertexBufferId),
> {
    if !node.is_visible {
        None
    } else {
        match node.compiled_node {
            None => None,
            Some(c) => match position(batch_list_groups(c.batch_list@), group) {
                None => None,
                Some(b) => match c.vertex_buffer_id {
                    None => None,
                    Some(id) => Some((c.batch_list@[b].batches@, id)),
                },
            },
        }
    }
}

/// The draw calls of a node for a draw-list group.
pub open spec fn node_calls(node: Node, group: DrawListGroupId, clip: Rect) -> Seq<DrawCallView> {
    match node_batches(node, group) {
        Some((batches, id)) => Seq::new(batches.len(), |k: int| draw_call(batches[k], id, clip)),
        None => Seq::empty(),
    }
}

/// The draw calls of the first `n` nodes for a draw-list group, node after
/// node.
pub open spec fn calls(nodes: Seq<Node>, n: int, group: DrawListGroupId, clip: Rect) -> Seq<
    DrawCallView,
>
    decreases n,
{
    if n <= 0 || n > nodes.len() {
        Seq::empty()
    } else {
        calls(nodes, n - 1, group, clip) + node_calls(nodes[n - 1], group, clip)
    }
}

/// The record of the stacking context that a draw list was flattened in.
pub open spec fn record_of(
    infos: Seq<StackingContextInfoView>,
    draw_lists: Seq<DrawList>,
    id: DrawListId,
) -> Option<StackingContextInfoView> {
    match draw_list_at(draw_lists, id) {
        None => None,
        Some(d) => match draw_lists[d].stacking_context_index {
            None => None,
            Some(index) => if index.0 < infos.len() {
                Some(infos[index.0 as int])
            } else {
                None
            },
        },
    }
}

/// The entry of the matrix palette for a draw list: from its stacking
/// context to the world. The identity where the draw list has no record.
pub open spec fn matrix_entry(
    infos: Seq<StackingContextInfoView>,
    draw_lists: Seq<DrawList>,
    world: Seq<Factor>,
    id: DrawListId,
) -> Seq<Factor> {
    match record_of(infos, draw_lists, id) {
        Some(record) => product(world, record.transform),
        None => identity(),
    }
}

/// The entry of the offset palette for a draw list. No offset where the
/// draw list has no record.
pub open spec fn offset_entry(
    infos: Seq<StackingContextInfoView>,
    draw_lists: Seq<DrawList>,
    id: DrawListId,
) -> OffsetParams {
    match record_of(infos, draw_lists, id) {
        Some(record) => OffsetParams {
            stacking_context_x0: record.offset_from_layer.x,
            stacking_context_y0: record.offset_from_layer.y,
        },
        None => OffsetParams { stacking_context_x0: 0, stacking_context_y0: 0 },
    }
}

/// The batch of a draw-list group that belongs to `layer`.
pub open spec fn batch_of(
    frame: FrameView,
    draw_lists: Seq<DrawList>,
    group: DrawListGroupView,
    layer: LayerView,
) -> BatchInfoView {
    BatchInfoView {
        matrix_palette: Seq::new(
            group.draw_list_ids.len(),
            |i: int|
                matrix_entry(
                    frame.stacking_context_info,
                    draw_lists,
                    layer.world_transform,
                    group.draw_list_ids[i],
                ),
        ),
        offset_palette: Seq::new(
            group.draw_list_ids.len(),
            |i: int| offset_entry(frame.stacking_context_info, draw_lists, group.draw_list_ids[i]),
        ),
        draw_calls: calls(layer.nodes, layer.nodes.len() as int, group.id, layer.scroll_clip_rect()),
    }
}

/// The batch of the draw-list group that `id` names. It holds nothing
/// where the frame has no such group, or no scroll layer for it.
pub open spec fn batch_info(frame: FrameView, draw_lists: Seq<DrawList>, id: DrawListGroupId) -> BatchInfoView {
    let nothing = BatchInfoView {
        matrix_palette: Seq::empty(),
        offset_palette: Seq::empty(),
        draw_calls: Seq::empty(),
    };
    match position(group_ids(frame.draw_list_groups), id) {
        None => nothing,
        Some(g) => match position(
            layer_ids(frame.layers),
            frame.draw_list_groups[g].scroll_layer_id,
        ) {
            None => nothing,
            Some(l) => batch_of(frame, draw_lists, frame.draw_list_groups[g], frame.layers[l]),
        },
    }
}

/// The draw command of a render item.
pub open spec fn command(frame: FrameView, draw_lists: Seq<DrawList>, item: RenderItemView) -> DrawCommandView {
    match item {
        RenderItemView::Clear(info) => DrawCommandView::Clear(info),
        RenderItemView::CompositeBatch { operation, jobs } => DrawCommandView::CompositeBatch {
            operation,
            jobs,
        },
        RenderItemView::DrawListBatch(id) => DrawCommandView::Batch(
            batch_info(frame, draw_lists, id),
        ),
    }
}

/// The draw commands of render items, in the order of the items.
pub open spec fn commands(frame: FrameView, draw_lists: Seq<DrawList>, items: Seq<RenderItemView>) -> Seq<
    DrawCommandView,
> {
    Seq::new(items.len(), |i: int| command(frame, draw_lists, items[i]))
}

fn clip_all(rects: &Vec<Rect>, clip: &Rect) -> (r: Vec<Rect>)
    ensures
        r@ == clipped(rects@, *clip),
{
    let mut r: Vec<Rect> = Vec::new();
    let mut i: usize = 0;
    while i < rects.len()
        invariant
            i <= rects.len(),
            r@ == clipped(rects@, *clip).take(i as int),
        decreases rects.len() - i,
    {
        let clip_rect = match rects[i].intersection(clip) {
            Some(clip_rect) => clip_rect,
            None => Rect::zero(),
        };
        r.push(clip_rect);
        assert(r@ =~= clipped(rects@, *clip).take(i + 1));
        i += 1;
    }
    assert(clipped(rects@, *clip).take(rects.len() as int) =~= clipped(rects@, *clip));
    r
}

fn find_batch_list(lists: &Vec<BatchList>, group: DrawListGroupId) -> (r: Option<usize>)
    ensures
        match r {
            Some(i) => position(batch_list_groups(lists@), group) == Some(i as int) && i
                < lists.len(),
            None => position(batch_list_groups(lists@), group) is None,
        },
{
    let mut i: usize = 0;
    while i < lists.len()
        invariant
            i <= lists.len(),
            forall|j: int| 0 <= j < i ==> batch_list_groups(lists@)[j] != group,
        decreases lists.len() - i,
    {
        if lists[i].draw_list_group_id == group {
            proof {
                lemma_position_found(batch_list_groups(lists@), group, i as int);
            }
            return Some(i);
        }
        i += 1;
    }
    proof {
        lemma_position_absent(batch_list_groups(lists@), group);
    }
    None
}

/// Adds the draw calls of a node for a draw-list group.
fn push_node_calls(node: &Node, group: DrawListGroupId, clip: &Rect, out: &mut Vec<DrawCall>)
    ensures
        views(final(out)@) == views(old(out)@) + node_calls(*node, group, *clip),
{
    if !node.is_visible {
        assert(views(out@) =~= views(old(out)@) + node_calls(*node, group, *clip));
        return ;
    }
    let compiled_node = match &node.compiled_node {
        Some(c) => c,
        None => {
            assert(views(out@) =~= views(old(out)@) + node_calls(*node, group, *clip));
            return ;
        },
    };
    let b = match find_batch_list(&compiled_node.batch_list, group) {
        Some(b) => b,
        None => {
            assert(views(out@) =~= views(old(out)@) + node_calls(*node, group, *clip));
            return ;
        },
    };
    let vertex_buffer_id = match compiled_node.vertex_buffer_id {
        Some(id) => id,
        None => {
            assert(views(out@) =~= views(old(out)@) + node_calls(*node, group, *clip));
            return ;
        },
    };
    let batches = &compiled_node.batch_list[b].batches;
    let ghost all = node_calls(*node, group, *clip);
    let mut k: usize = 0;
    while k < batches.len()
        invariant
            k <= batches.len(),
            all == Seq::new(
                batches@.len(),
                |k: int| draw_call(batches@[k], vertex_buffer_id, *clip),
            ),
            views(out@) == views(old(out)@) + all.take(k as int),
        decreases batches.len() - k,
    {
        let batch = &batches[k];
        out.push(
            DrawCall {
                tile_params: copy_of(&batch.tile_params),
                clip_rects: clip_all(&batch.clip_rects, clip),
                vertex_buffer_id,
                color_texture_id: batch.color_texture_id,
                mask_texture_id: batch.mask_texture_id,
                first_instance: batch.first_instance,
                instance_count: batch.instance_count,
            },
        );
        assert(views(out@) =~= views(old(out)@) + all.take(k + 1));
        k += 1;
    }
    assert(all.take(batches.len() as int) =~= all);
}

impl Frame {
    /// The place of the draw-list group that `id` names.
    pub fn find_group(&self, id: DrawListGroupId) -> (r: Option<usize>)
        ensures
            match r {
                Some(i) => position(group_ids(self@.draw_list_groups), id) == Some(i as int) && i
                    < self.draw_list_groups.len(),
                None => position(group_ids(self@.draw_list_groups), id) is None,
            },
    {
        let mut i: usize = 0;
        while i < self.draw_list_groups.len()
            invariant
                i <= self.draw_list_groups.len(),
                forall|j: int| 0 <= j < i ==> group_ids(self@.draw_list_groups)[j] != id,
            decreases self.draw_list_groups.len() - i,
        {
            if self.draw_list_groups[i].id == id {
                proof {
                    lemma_position_found(group_ids(self@.draw_list_groups), id, i as int);
                }
                return Some(i);
            }
            i += 1;
        }
        proof {
            lemma_position_absent(group_ids(self@.draw_list_groups), id);
        }
        None
    }

    /// The record of the stacking context that a draw list was flattened
    /// in.
    fn record(&self, draw_lists: &Vec<DrawList>, id: DrawListId) -> (r: Option<
        &StackingContextInfo,
    >)
        ensures
            match r {
                Some(record) => record_of(self@.stacking_context_info, draw_lists@, id) == Some(
                    record@,
                ),
                None => record_of(self@.stacking_context_info, draw_lists@, id) is None,
            },
    {
        let d = match find_draw_list(draw_lists, id) {
            Some(d) => d,
            None => {
                return None;
            },
        };
        match draw_lists[d].stacking_context_index {
            None => None,
            Some(StackingContextIndex(index)) => {
                if index < self.stacking_context_info.len() {
                    Some(&self.stacking_context_info[index])
                } else {
                    None
                }
            },
        }
    }

    /// The batch of a draw-list group.
    fn batch(&self, draw_lists: &Vec<DrawList>, group: &DrawListGroup, layer: &Layer) -> (r:
        BatchInfo)
        ensures
            r@ == batch_of(self@, draw_lists@, group@, layer@),
    {
        let mut matrix_palette: Vec<Transform> = Vec::new();
        let mut offset_palette: Vec<OffsetParams> = Vec::new();
        let ghost wanted = batch_of(self@, draw_lists@, group@, layer@);
        let mut i: usize = 0;
        while i < group.draw_list_ids.len()
            invariant
                i <= group.draw_list_ids.len(),
                wanted == batch_of(self@, draw_lists@, group@, layer@),
                views(matrix_palette@) == wanted.matrix_palette.take(i as int),
                offset_palette@ == wanted.offset_palette.take(i as int),
            decreases group.draw_list_ids.len() - i,
        {
            match self.record(draw_lists, group.draw_list_ids[i]) {
                Some(context) => {
                    matrix_palette.push(layer.world_transform.mul(&context.transform));
                    offset_palette.push(
                        OffsetParams {
                            stacking_context_x0: context.offset_from_layer.x,
                            stacking_context_y0: context.offset_from_layer.y,
                        },
                    );
                },
                None => {
                    matrix_palette.push(Transform::identity());
                    offset_palette.push(
                        OffsetParams { stacking_context_x0: 0, stacking_context_y0: 0 },
                    );
                },
            }
            assert(views(matrix_palette@) =~= wanted.matrix_palette.take(i + 1));
            assert(offset_palette@ =~= wanted.offset_palette.take(i + 1));
            i += 1;
        }
        assert(wanted.matrix_palette.take(i as int) =~= wanted.matrix_palette);
        assert(wanted.offset_palette.take(i as int) =~= wanted.offset_palette);
        let clip = layer.scroll_clip_rect();
        let mut draw_calls: Vec<DrawCall> = Vec::new();
        let mut n: usize = 0;
        while n < layer.nodes.len()
            invariant
                n <= layer.nodes.len(),
                clip == layer@.scroll_clip_rect(),
                views(draw_calls@) == calls(layer.nodes@, n as int, group.id, clip),
            decreases layer.nodes.len() - n,
        {
            push_node_calls(&layer.nodes[n], group.id, &clip, &mut draw_calls);
            n += 1;
        }
        BatchInfo { matrix_palette, offset_palette, draw_calls }
    }

    /// The batch of the draw-list group that `id` names.
    fn batch_info(&self, draw_lists: &Vec<DrawList>, id: DrawListGroupId) -> (r: BatchInfo)
        ensures
            r@ == batch_info(self@, draw_lists@, id),
    {
        let nothing = BatchInfo {
            matrix_palette: Vec::new(),
            offset_palette: Vec::new(),
            draw_calls: Vec::new(),
        };
        let g = match self.find_group(id) {
            Some(g) => g,
            None => {
                return nothing;
            },
        };
        let l = match self.find_layer(self.draw_list_groups[g].scroll_layer_id) {
            Some(l) => l,
            None => {
                return nothing;
            },
        };
        self.batch(draw_lists, &self.draw_list_groups[g], &self.layers[l])
    }

    /// The draw commands of the render target at `target`; none where there
    /// is no such render target.
    pub fn draw_commands(&self, draw_lists: &Vec<DrawList>, target: usize) -> (r: Vec<DrawCommand>)
        ensures
            target < self.render_targets.len() ==> views(r@) == commands(
                self@,
                draw_lists@,
                self@.render_targets[target as int].items,
            ),
            target >= self.render_targets.len() ==> r@.len() == 0,
    {
        if target >= self.render_targets.len() {
            return Vec::new();
        }
        let items = &self.render_targets[target].items;
        let ghost wanted = commands(self@, draw_lists@, views(items@));
        let mut r: Vec<DrawCommand> = Vec::new();
        let mut i: usize = 0;
        while i < items.len()
            invariant
                i <= items.len(),
                wanted == commands(self@, draw_lists@, views(items@)),
                views(r@) == wanted.take(i as int),
            decreases items.len() - i,
        {
            match &items[i] {
                FrameRenderItem::Clear(info) => {
                    r.push(DrawCommand::Clear(*info));
                },
                FrameRenderItem::CompositeBatch(info) => {
                    r.push(
                        DrawCommand::CompositeBatch(
                            CompositeBatchInfo {
                                operation: info.operation,
                                jobs: copy_of(&info.jobs),
                            },
                        ),
                    );
                },
                FrameRenderItem::DrawListBatch(draw_list_group_id) => {
                    r.push(DrawCommand::Batch(self.batch_info(draw_lists, *draw_list_group_id)));
                },
            }
            assert(views(r@) =~= wanted.take(i + 1));
            i += 1;
        }
        assert(wanted.take(items.len() as int) =~= wanted);
        r
    }
}

} // verus!
