//! What the embedder's compiler makes of a node, and what the frame hands
//! to the renderer.

use vstd::prelude::*;
use crate::geometry::Rect;
use crate::types::{DrawListGroupId, TextureId, VertexBufferId};

verus! {

/// Copies a list of plain values.
pub fn copy_of<T: Copy>(v: &Vec<T>) -> (r: Vec<T>)
    ensures
        r@ == v@,
{
    let mut r: Vec<T> = Vec::new();
    let mut i: usize = 0;
    while i < v.len()
        invariant
            i <= v.len(),
            r@ == v@.take(i as int),
        decreases v.len() - i,
    {
        r.push(v[i]);
        i += 1;
    }
    assert(v@.take(v.len() as int) =~= v@);
    r
}

/// A vertex as the renderer takes it. The library hands it on unread.
#[derive(Clone, Copy, Debug, PartialEq, Eq, Structural)]
pub struct PackedVertex {
    pub position: u32,
    pub color: u32,
    pub texture: u32,
    pub indices: u32,
}

/// Where in its texture a tile lies. The library hands it on unread.
#[derive(Clone, Copy, Debug, PartialEq, Eq, Structural)]
pub struct TileParams {
    pub u0: u32,
    pub v0: u32,
    pub u_size: u32,
    pub v_size: u32,
}

/// The fonts and images that a node needs. The library hands it on unread.
#[derive(Debug, PartialEq, Eq)]
pub struct ResourceList {
    pub required: Vec<u32>,
}

/// The vertices of a compiled node, under the name that the renderer is to hold them by.
#[derive(Debug, PartialEq, Eq)]
pub struct VertexBuffer {
    pub id: VertexBufferId,
    pub vertices: Vec<PackedVertex>,
}

/// One draw of a compiled node.
#[derive(Debug, PartialEq, Eq)]
pub struct Batch {
    pub tile_params: Vec<TileParams>,
    pub clip_rects: Vec<Rect>,
    pub color_texture_id: TextureId,
    pub mask_texture_id: TextureId,
    pub first_instance: u32,
    pub instance_count: u32,
}

/// The draws of a compiled node that belong to one draw-list group.
#[derive(Debug, PartialEq, Eq)]
pub struct BatchList {
    pub draw_list_group_id: DrawListGroupId,
    pub batches: Vec<Batch>,
}

/// What the embedder has made of a node: its draws, group by group, and its vertices.
#[derive(Debug, PartialEq, Eq)]
pub struct CompiledNode {
    pub batch_list: Vec<BatchList>,
    /// The vertices, until the frame has passed them on.
    pub vertex_buffer: Option<VertexBuffer>,
    /// The name of the vertices, once the frame has passed them on.
    pub vertex_buffer_id: Option<VertexBufferId>,
}

/// What the renderer is to do with a vertex buffer.
#[derive(Debug, PartialEq, Eq)]
pub enum BatchUpdateOp {
    Create(Vec<PackedVertex>),
    Update(Vec<PackedVertex>),
    Destroy,
}

/// A change to the vertex buffers that the renderer holds.
#[derive(Debug, PartialEq, Eq)]
pub struct BatchUpdate {
    pub id: VertexBufferId,
    pub op: BatchUpdateOp,
}

/// The changes that are on their way to the renderer, in their order.
#[derive(Debug, PartialEq, Eq)]
pub struct BatchUpdateList {
    pub updates: Vec<BatchUpdate>,
}

impl BatchUpdateList {
    pub fn new() -> (l: BatchUpdateList)
        ensures
            l.updates@ == Seq::<BatchUpdate>::empty(),
    {
        BatchUpdateList { updates: Vec::new() }
    }

    pub fn push(&mut self, update: BatchUpdate)
        ensures
            final(self).updates@ == old(self).updates@.push(update),
    {
        self.updates.push(update);
    }
}

} // verus!
