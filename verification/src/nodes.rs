//! The steps of a build that go through the nodes of the layers: culling,
//! taking in what the embedder has made of the nodes, and passing vertex
//! buffers on to the renderer.

use vstd::prelude::*;
use crate::batch::{
    BatchUpdate, BatchUpdateList, BatchUpdateOp, CompiledNode, ResourceList, VertexBuffer,
};
use crate::frame::{Frame, FrameView};
use crate::layer::{Layer, LayerView, Node};
use crate::resource_cache::ResourceCache;
use crate::shape::{
    lemma_batch_cache_shape, lemma_compiled_nodes_shape, lemma_cull_shape,
    lemma_layers_changed_shape, lemma_resource_lists_shape, same_shape,
};
use crate::soundness::frame_sound;
use crate::views::group_views;

verus! {

broadcast use group_views;

/// Names a node: the place of its layer among the layers, and its place
/// among the nodes of that layer.
#[derive(Clone, Copy, Debug, PartialEq, Eq, Structural)]
pub struct NodeKey {
    pub layer: usize,
    pub node: usize,
}

/// The layers, each culled against its own viewport.
pub open spec fn culled_layers(layers: Seq<LayerView>) -> Seq<LayerView> {
    Seq::new(layers.len(), |i: int| layers[i].after_cull())
}

/// The nodes among the first `n` of a layer that are to be drawn and have
/// not been compiled.
pub open spec fn awaiting_nodes(nodes: Seq<Node>, layer: int, n: int) -> Seq<NodeKey>
    decreases n,
{
    if n <= 0 || n > nodes.len() {
        Seq::empty()
    } else if nodes[n - 1].awaits_compilation() {
        awaiting_nodes(nodes, layer, n - 1).push(
            NodeKey { layer: layer as usize, node: (n - 1) as usize },
        )
    } else {
        awaiting_nodes(nodes, layer, n - 1)
    }
}

/// The nodes of the first `m` layers that are to be drawn and have not
/// been compiled, layer by layer.
pub open spec fn awaiting(layers: Seq<LayerView>, m: int) -> Seq<NodeKey>
    decreases m,
{
    if m <= 0 || m > layers.len() {
        Seq::empty()
    } else {
        awaiting(layers, m - 1) + awaiting_nodes(
            layers[m - 1].nodes,
            m - 1,
            layers[m - 1].nodes.len() as int,
        )
    }
}

/// The layers with one node changed. A key that names no node changes
/// nothing.
pub open spec fn with_node(layers: Seq<LayerView>, key: NodeKey, node: Node) -> Seq<LayerView> {
    if key.layer < layers.len() && key.node < layers[key.layer as int].nodes.len() {
        layers.update(
            key.layer as int,
            LayerView {
                nodes: layers[key.layer as int].nodes.update(key.node as int, node),
                ..layers[key.layer as int]
            },
        )
    } else {
        layers
    }
}

/// The node that `key` names.
pub open spec fn node_at(layers: Seq<LayerView>, key: NodeKey) -> Node {
    layers[key.layer as int].nodes[key.node as int]
}

/// The layers after the resource lists have been stored, the last of them
/// first.
pub open spec fn with_resource_lists(
    layers: Seq<LayerView>,
    lists: Seq<(NodeKey, ResourceList)>,
) -> Seq<LayerView>
    decreases lists.len(),
{
    if lists.len() == 0 {
        layers
    } else {
        let (key, list) = lists.last();
        with_resource_lists(
            with_node(layers, key, Node { resource_list: Some(list), ..node_at(layers, key) }),
            lists.drop_last(),
        )
    }
}

/// The layers after one compiled node has been taken in: it goes to the
/// node that the key names, if that is to be drawn and has not been
/// compiled.
pub open spec fn with_compiled_node(layers: Seq<LayerView>, key: NodeKey, compiled: CompiledNode) -> Seq<
    LayerView,
> {
    if key.layer < layers.len() && key.node < layers[key.layer as int].nodes.len() && node_at(
        layers,
        key,
    ).awaits_compilation() {
        with_node(layers, key, Node { compiled_node: Some(compiled), ..node_at(layers, key) })
    } else {
        layers
    }
}

/// The layers after the compiled nodes have been taken in, the last of
/// them first.
pub open spec fn with_compiled_nodes(
    layers: Seq<LayerView>,
    compiled: Seq<(NodeKey, CompiledNode)>,
) -> Seq<LayerView>
    decreases compiled.len(),
{
    if compiled.len() == 0 {
        layers
    } else {
        let (key, node) = compiled.last();
        with_compiled_nodes(with_compiled_node(layers, key, node), compiled.drop_last())
    }
}

/// The resources that the visible ones among the first `n` nodes need.
pub open spec fn requested_by_nodes(nodes: Seq<Node>, n: int) -> Seq<u32>
    decreases n,
{
    if n <= 0 || n > nodes.len() {
        Seq::empty()
    } else {
        let before = requested_by_nodes(nodes, n - 1);
        match nodes[n - 1].resource_list {
            Some(list) => if nodes[n - 1].is_visible {
                before + list.required@
            } else {
                before
            },
            None => before,
        }
    }
}

/// The resources that the visible nodes of the first `m` layers need.
pub open spec fn requested(layers: Seq<LayerView>, m: int) -> Seq<u32>
    decreases m,
{
    if m <= 0 || m > layers.len() {
        Seq::empty()
    } else {
        requested(layers, m - 1) + requested_by_nodes(
            layers[m - 1].nodes,
            layers[m - 1].nodes.len() as int,
        )
    }
}

/// The vertex buffer of a node that the renderer has not been given yet.
pub open spec fn fresh_vertex_buffer(node: Node) -> Option<VertexBuffer> {
    if node.is_visible {
        match node.compiled_node {
            Some(c) => c.vertex_buffer,
            None => None,
        }
    } else {
        None
    }
}

/// The node once its vertex buffer has been passed on: it keeps the name
/// of the buffer.
pub open spec fn passed_on(node: Node) -> Node {
    match fresh_vertex_buffer(node) {
        Some(buffer) => Node {
            compiled_node: Some(
                CompiledNode {
                    vertex_buffer: None,
                    vertex_buffer_id: Some(buffer.id),
                    ..node.compiled_node->0
                },
            ),
            ..node
        },
        None => node,
    }
}

/// The updates that pass on the vertex buffers of the first `n` nodes.
pub open spec fn creates(nodes: Seq<Node>, n: int) -> Seq<BatchUpdate>
    decreases n,
{
    if n <= 0 || n > nodes.len() {
        Seq::empty()
    } else {
        match fresh_vertex_buffer(nodes[n - 1]) {
            Some(buffer) => creates(nodes, n - 1).push(
                BatchUpdate { id: buffer.id, op: BatchUpdateOp::Create(buffer.vertices) },
            ),
            None => creates(nodes, n - 1),
        }
    }
}

/// The updates that pass on the vertex buffers of the first `m` layers.
pub open spec fn all_creates(layers: Seq<LayerView>, m: int) -> Seq<BatchUpdate>
    decreases m,
{
    if m <= 0 || m > layers.len() {
        Seq::empty()
    } else {
        all_creates(layers, m - 1) + creates(layers[m - 1].nodes, layers[m - 1].nodes.len() as int)
    }
}

/// The layers once all vertex buffers have been passed on.
pub open spec fn batch_cached(layers: Seq<LayerView>) -> Seq<LayerView> {
    Seq::new(
        layers.len(),
        |i: int|
            LayerView {
                nodes: Seq::new(layers[i].nodes.len(), |k: int| passed_on(layers[i].nodes[k])),
                ..layers[i]
            },
    )
}

impl Layer {
    /// Passes the vertex buffers of the newly compiled nodes on.
    fn update_batch_cache(&mut self, pending_updates: &mut BatchUpdateList)
        ensures
            final(self)@ == (LayerView {
                nodes: Seq::new(old(self).nodes@.len(), |k: int| passed_on(old(self).nodes@[k])),
                ..old(self)@
            }),
            final(pending_updates).updates@ == old(pending_updates).updates@ + creates(
                old(self).nodes@,
                old(self).nodes@.len() as int,
            ),
    {
        let mut n: usize = 0;
        while n < self.nodes.len()
            invariant
                n <= self.nodes.len(),
                self.nodes@.len() == old(self).nodes@.len(),
                self@ == (LayerView { nodes: self.nodes@, ..old(self)@ }),
                forall|k: int| 0 <= k < n ==> self.nodes@[k] == passed_on(old(self).nodes@[k]),
                forall|k: int| n <= k < self.nodes.len() ==> self.nodes@[k] == old(self).nodes@[k],
                pending_updates.updates@ == old(pending_updates).updates@ + creates(
                    old(self).nodes@,
                    n as int,
                ),
            decreases self.nodes.len() - n,
        {
            if self.nodes[n].is_visible {
                let compiled = self.nodes[n].compiled_node.take();
                if let Some(mut compiled_node) = compiled {
                    if let Some(vertex_buffer) = compiled_node.vertex_buffer.take() {
                        pending_updates.push(
                            BatchUpdate {
                                id: vertex_buffer.id,
                                op: BatchUpdateOp::Create(vertex_buffer.vertices),
                            },
                        );
                        compiled_node.vertex_buffer_id = Some(vertex_buffer.id);
                    }
                    self.nodes[n].compiled_node = Some(compiled_node);
                }
            }
            proof {
                assert(self.nodes@[n as int] == passed_on(old(self).nodes@[n as int]));
                assert(pending_updates.updates@ =~= old(pending_updates).updates@ + creates(
                    old(self).nodes@,
                    n + 1,
                ));
            }
            n += 1;
        }
        assert(self.nodes@ =~= Seq::new(
            old(self).nodes@.len(),
            |k: int| passed_on(old(self).nodes@[k]),
        ));
    }

    /// The nodes that are to be drawn and have not been compiled.
    fn nodes_to_compile(&self, layer: usize, out: &mut Vec<NodeKey>)
        ensures
            final(out)@ == old(out)@ + awaiting_nodes(
                self.nodes@,
                layer as int,
                self.nodes@.len() as int,
            ),
    {
        let mut n: usize = 0;
        while n < self.nodes.len()
            invariant
                n <= self.nodes.len(),
                out@ == old(out)@ + awaiting_nodes(self.nodes@, layer as int, n as int),
            decreases self.nodes.len() - n,
        {
            if self.nodes[n].is_visible && self.nodes[n].compiled_node.is_none() {
                out.push(NodeKey { layer, node: n });
            }
            assert(out@ =~= old(out)@ + awaiting_nodes(self.nodes@, layer as int, n + 1));
            n += 1;
        }
    }

    /// Tells the cache what the visible nodes need.
    fn request_resources(&self, resource_cache: &mut ResourceCache)
        ensures
            final(resource_cache).pending_resources@ == old(resource_cache).pending_resources@
                + requested_by_nodes(self.nodes@, self.nodes@.len() as int),
            final(resource_cache).draw_lists == old(resource_cache).draw_lists,
            final(resource_cache).render_targets == old(resource_cache).render_targets,
            final(resource_cache).next_texture_id == old(resource_cache).next_texture_id,
    {
        let mut n: usize = 0;
        while n < self.nodes.len()
            invariant
                n <= self.nodes.len(),
                resource_cache.pending_resources@ == old(resource_cache).pending_resources@
                    + requested_by_nodes(self.nodes@, n as int),
                resource_cache.draw_lists == old(resource_cache).draw_lists,
                resource_cache.render_targets == old(resource_cache).render_targets,
                resource_cache.next_texture_id == old(resource_cache).next_texture_id,
            decreases self.nodes.len() - n,
        {
            if self.nodes[n].is_visible {
                if let Some(resource_list) = &self.nodes[n].resource_list {
                    resource_cache.add_resource_list(resource_list);
                }
            }
            assert(resource_cache.pending_resources@ =~= old(resource_cache).pending_resources@
                + requested_by_nodes(self.nodes@, n + 1));
            n += 1;
        }
    }
}

impl Frame {
    /// Marks in every layer the nodes that its viewport shows.
    pub fn cull(&mut self)
        ensures
            final(self)@ == (FrameView { layers: culled_layers(old(self)@.layers), ..old(self)@ }),
            same_shape(old(self)@, final(self)@),
            frame_sound(old(self)@) ==> frame_sound(final(self)@),
    {
        let mut i: usize = 0;
        while i < self.layers.len()
            invariant
                i <= self.layers.len(),
                self.layers@.len() == old(self).layers@.len(),
                self@ == (FrameView { layers: self@.layers, ..old(self)@ }),
                forall|j: int| 0 <= j < i ==> self@.layers[j] == old(self)@.layers[j].after_cull(),
                forall|j: int| i <= j < self.layers.len() ==> self@.layers[j] == old(self)@.layers[j],
            decreases self.layers.len() - i,
        {
            self.layers[i].cull();
            i += 1;
        }
        assert(self@.layers =~= culled_layers(old(self)@.layers));
        proof {
            lemma_cull_shape(old(self)@.layers);
            lemma_layers_changed_shape(old(self)@, self@);
        }
    }

    /// The nodes that the embedder is to build resource lists for and to
    /// compile: those that are to be drawn and have not been compiled.
    pub fn nodes_to_compile(&self) -> (keys: Vec<NodeKey>)
        ensures
            keys@ == awaiting(self@.layers, self@.layers.len() as int),
    {
        let mut keys: Vec<NodeKey> = Vec::new();
        let mut i: usize = 0;
        while i < self.layers.len()
            invariant
                i <= self.layers.len(),
                keys@ == awaiting(self@.layers, i as int),
            decreases self.layers.len() - i,
        {
            self.layers[i].nodes_to_compile(i, &mut keys);
            i += 1;
        }
        keys
    }

    /// Stores the resource lists that the embedder has built, each at the
    /// node that its key names.
    pub fn update_resource_lists(&mut self, resource_lists: Vec<(NodeKey, ResourceList)>)
        ensures
            final(self)@ == (FrameView {
                layers: with_resource_lists(old(self)@.layers, resource_lists@),
                ..old(self)@
            }),
            same_shape(old(self)@, final(self)@),
            frame_sound(old(self)@) ==> frame_sound(final(self)@),
    {
        let mut resource_lists = resource_lists;
        let ghost all = resource_lists@;
        while resource_lists.len() > 0
            invariant
                self@ == (FrameView { layers: self@.layers, ..old(self)@ }),
                with_resource_lists(self@.layers, resource_lists@) == with_resource_lists(
                    old(self)@.layers,
                    all,
                ),
            decreases resource_lists.len(),
        {
            let ghost before = self@.layers;
            let ghost rest = resource_lists@;
            let (key, list) = resource_lists.pop().unwrap();
            if key.layer < self.layers.len() && key.node < self.layers[key.layer].nodes.len() {
                self.layers[key.layer].nodes[key.node].resource_list = Some(list);
                proof {
                    assert(self@.layers =~= with_node(
                        before,
                        key,
                        Node { resource_list: Some(list), ..node_at(before, key) },
                    ));
                }
            }
            proof {
                assert(rest.last() == (key, list));
                assert(rest.drop_last() =~= resource_lists@);
            }
        }
        proof {
            lemma_resource_lists_shape(old(self)@.layers, all);
            lemma_layers_changed_shape(old(self)@, self@);
        }
    }

    /// Tells the cache what the visible nodes need.
    pub fn update_texture_cache_and_build_raster_jobs(&self, resource_cache: &mut ResourceCache)
        ensures
            final(resource_cache).pending_resources@ == old(resource_cache).pending_resources@
                + requested(self@.layers, self@.layers.len() as int),
            final(resource_cache).draw_lists == old(resource_cache).draw_lists,
            final(resource_cache).render_targets == old(resource_cache).render_targets,
            final(resource_cache).next_texture_id == old(resource_cache).next_texture_id,
    {
        let mut i: usize = 0;
        while i < self.layers.len()
            invariant
                i <= self.layers.len(),
                resource_cache.pending_resources@ == old(resource_cache).pending_resources@
                    + requested(self@.layers, i as int),
                resource_cache.draw_lists == old(resource_cache).draw_lists,
                resource_cache.render_targets == old(resource_cache).render_targets,
                resource_cache.next_texture_id == old(resource_cache).next_texture_id,
            decreases self.layers.len() - i,
        {
            self.layers[i].request_resources(resource_cache);
            assert(resource_cache.pending_resources@ =~= old(resource_cache).pending_resources@
                + requested(self@.layers, i + 1));
            i += 1;
        }
    }

    /// Takes in what the embedder has compiled, each compiled node at the
    /// node that its key names.
    pub fn compile_visible_nodes(&mut self, compiled: Vec<(NodeKey, CompiledNode)>)
        ensures
            final(self)@ == (FrameView {
                layers: with_compiled_nodes(old(self)@.layers, compiled@),
                ..old(self)@
            }),
            same_shape(old(self)@, final(self)@),
            frame_sound(old(self)@) ==> frame_sound(final(self)@),
    {
        let mut compiled = compiled;
        let ghost all = compiled@;
        while compiled.len() > 0
            invariant
                self@ == (FrameView { layers: self@.layers, ..old(self)@ }),
                with_compiled_nodes(self@.layers, compiled@) == with_compiled_nodes(
                    old(self)@.layers,
                    all,
                ),
            decreases compiled.len(),
        {
            let ghost before = self@.layers;
            let ghost rest = compiled@;
            let (key, node) = compiled.pop().unwrap();
            if key.layer < self.layers.len() && key.node < self.layers[key.layer].nodes.len() {
                if self.layers[key.layer].nodes[key.node].is_visible
                    && self.layers[key.layer].nodes[key.node].compiled_node.is_none() {
                    self.layers[key.layer].nodes[key.node].compiled_node = Some(node);
                    proof {
                        assert(self@.layers =~= with_compiled_node(before, key, node));
                    }
                }
            }
            proof {
                assert(rest.last() == (key, node));
                assert(rest.drop_last() =~= compiled@);
            }
        }
        proof {
            lemma_compiled_nodes_shape(old(self)@.layers, all);
            lemma_layers_changed_shape(old(self)@, self@);
        }
    }

    /// Passes the vertex buffers of the newly compiled nodes on to the
    /// renderer.
    pub fn update_batch_cache(&mut self)
        ensures
            final(self)@ == (FrameView {
                layers: batch_cached(old(self)@.layers),
                pending_updates: old(self)@.pending_updates + all_creates(
                    old(self)@.layers,
                    old(self)@.layers.len() as int,
                ),
                ..old(self)@
            }),
            same_shape(old(self)@, final(self)@),
            frame_sound(old(self)@) ==> frame_sound(final(self)@),
    {
        let mut i: usize = 0;
        while i < self.layers.len()
            invariant
                i <= self.layers.len(),
                self.layers@.len() == old(self).layers@.len(),
                self@ == (FrameView {
                    layers: self@.layers,
                    pending_updates: self@.pending_updates,
                    ..old(self)@
                }),
                forall|j: int|
                    0 <= j < i ==> self@.layers[j] == batch_cached(old(self)@.layers)[j],
                forall|j: int| i <= j < self.layers.len() ==> self@.layers[j] == old(self)@.layers[j],
                self@.pending_updates == old(self)@.pending_updates + all_creates(
                    old(self)@.layers,
                    i as int,
                ),
            decreases self.layers.len() - i,
        {
            self.layers[i].update_batch_cache(&mut self.pending_updates);
            assert(self@.pending_updates =~= old(self)@.pending_updates + all_creates(
                old(self)@.layers,
                i + 1,
            ));
            i += 1;
        }
        assert(self@.layers =~= batch_cached(old(self)@.layers));
        proof {
            lemma_batch_cache_shape(old(self)@.layers);
            lemma_layers_changed_shape(old(self)@, self@);
        }
    }
}

} // verus!
