//! What the steps of a build leave alone: the names and the children of
//! the layers, where they stand and how large they are, the children of the
//! render targets, and the draw-list groups.

use vstd::prelude::*;
use crate::batch::{CompiledNode, ResourceList};
use crate::collect::{collect_start, collected, collected_upto, CollectState, prepared};
use crate::frame::{FrameView, layer_ids};
use crate::layer::{LayerView, Node};
use crate::lookup::position;
use crate::nodes::{
    all_creates, batch_cached, culled_layers, node_at, NodeKey, with_compiled_node,
    with_compiled_nodes, with_node, with_resource_lists,
};
use crate::render_target::RenderTargetView;
use crate::resource_cache::{DrawList, RenderTargetTexture};
use crate::soundness::{
    batch_in_its_group, child_behind, frame_groups_in_place, frame_sound, no_textures,
    node_in_its_group,
};
use crate::transform::identity;
use crate::transforms::{lemma_with_transforms_shape, transforms_updated};

verus! {

/// Two nodes stand for the same item of the same draw list.
pub open spec fn same_node_place(a: Node, b: Node) -> bool {
    &&& a.rect == b.rect
    &&& a.draw_list_group_id == b.draw_list_group_id
    &&& a.draw_list_id == b.draw_list_id
    &&& a.item_index == b.item_index
}

/// Two layers differ at most in what has been made of their nodes and in
/// their world transforms.
pub open spec fn same_layer_shape(a: LayerView, b: LayerView) -> bool {
    &&& a.nodes.len() == b.nodes.len()
    &&& forall|k: int| 0 <= k < a.nodes.len() ==> same_node_place(a.nodes[k], #[trigger] b.nodes[k])
    &&& a.id == b.id
    &&& a.children == b.children
    &&& a.world_origin == b.world_origin
    &&& a.layer_size == b.layer_size
    &&& a.viewport_size == b.viewport_size
    &&& a.scroll_offset == b.scroll_offset
    &&& a.local_transform == b.local_transform
}

/// There are as many layers in `b` as in `a`, each of the shape of its counterpart.
pub open spec fn same_layer_shapes(a: Seq<LayerView>, b: Seq<LayerView>) -> bool {
    &&& a.len() == b.len()
    &&& forall|i: int| 0 <= i < a.len() ==> same_layer_shape(a[i], #[trigger] b[i])
}

/// Two frames differ at most in what has been made of the nodes of their
/// layers and in the world transforms of these, in the textures of their
/// render targets, and in what is on its way to the renderer.
pub open spec fn same_shape(a: FrameView, b: FrameView) -> bool {
    &&& same_layer_shapes(a.layers, b.layers)
    &&& a.render_targets.len() == b.render_targets.len()
    &&& forall|t: int|
        0 <= t < a.render_targets.len() ==> (#[trigger] b.render_targets[t]).children
            == a.render_targets[t].children && b.render_targets[t].id == a.render_targets[t].id
            && b.render_targets[t].width == a.render_targets[t].width && b.render_targets[t].height
            == a.render_targets[t].height && b.render_targets[t].items
            == a.render_targets[t].items
    &&& a.draw_list_groups == b.draw_list_groups
    &&& a.next_render_target_id == b.next_render_target_id
    &&& a.next_draw_list_group_id == b.next_draw_list_group_id
    &&& a.root_scroll_layer_id == b.root_scroll_layer_id
    &&& a.pipeline_epoch_map == b.pipeline_epoch_map
    &&& a.stacking_context_info == b.stacking_context_info
}

/// A frame of the shape of a sound frame is sound.
pub proof fn lemma_same_shape_sound(a: FrameView, b: FrameView)
    requires
        frame_sound(a),
        same_shape(a, b),
    ensures
        frame_sound(b),
        frame_groups_in_place(a) ==> frame_groups_in_place(b),
        no_textures(a.render_targets) && (forall|t: int|
            0 <= t < b.render_targets.len() ==> (#[trigger] b.render_targets[t]).child_texture_id
                == a.render_targets[t].child_texture_id) ==> no_textures(
            b.render_targets,
        ),
{
    let x = a.layers;
    let y = b.layers;
    if frame_groups_in_place(a) {
        let groups = a.draw_list_groups;
        assert forall|l: int, k: int|
            0 <= l < y.len() && 0 <= k < y[l].nodes.len() implies #[trigger] node_in_its_group(
            groups,
            y,
            l,
            k,
        ) by {
            assert(same_layer_shape(x[l], y[l]));
            assert(same_node_place(x[l].nodes[k], y[l].nodes[k]));
            assert(node_in_its_group(groups, x, l, k));
        }
        assert forall|t: int, i: int|
            0 <= t < b.render_targets.len() && 0 <= i < b.render_targets[t].items.len() implies #[trigger] batch_in_its_group(
            groups,
            b.render_targets,
            t,
            i,
        ) by {
            assert(b.render_targets[t].items == a.render_targets[t].items);
            assert(batch_in_its_group(groups, a.render_targets, t, i));
        }
    }
    assert(layer_ids(x) =~= layer_ids(y));
    assert forall|i: int| 0 <= i < y.len() implies (#[trigger] y[i]).wf() by {
        assert(x[i].wf());
    }
    assert forall|i: int, k: int|
        0 <= i < y.len() && 0 <= k < y[i].children.len() implies #[trigger] child_behind(
        y,
        i,
        k,
    ) by {
        assert(child_behind(x, i, k));
    }
    assert forall|i: int, k: int, i2: int, k2: int|
        0 <= i < y.len() && 0 <= k < y[i].children.len() && 0 <= i2 < y.len() && 0 <= k2
            < y[i2].children.len() && (i != i2 || k != k2) implies #[trigger] y[i].children[k]
        != #[trigger] y[i2].children[k2] by {
        assert(x[i].children[k] != x[i2].children[k2]);
    }
    let p = a.render_targets;
    let q = b.render_targets;
    assert forall|t: int, k: int| 0 <= t < q.len() && 0 <= k < q[t].children.len() implies t
        < #[trigger] q[t].children[k] < q.len() by {
        assert(q[t].children[k] == p[t].children[k]);
    }
    assert forall|t: int, k: int, t2: int, k2: int|
        0 <= t < q.len() && 0 <= k < q[t].children.len() && 0 <= t2 < q.len() && 0 <= k2
            < q[t2].children.len() && (t != t2 || k != k2) implies #[trigger] q[t].children[k]
        != #[trigger] q[t2].children[k2] by {
        assert(q[t].children[k] == p[t].children[k]);
        assert(q[t2].children[k2] == p[t2].children[k2]);
    }
}

/// Layers of the shape of layers of the shape of others have the shape of those.
pub proof fn lemma_same_shapes_transitive(a: Seq<LayerView>, b: Seq<LayerView>, c: Seq<LayerView>)
    requires
        same_layer_shapes(a, b),
        same_layer_shapes(b, c),
    ensures
        same_layer_shapes(a, c),
{
    assert forall|i: int| 0 <= i < a.len() implies same_layer_shape(a[i], #[trigger] c[i]) by {
        assert(same_layer_shape(a[i], b[i]));
        assert(same_layer_shape(b[i], c[i]));
        assert forall|k: int| 0 <= k < a[i].nodes.len() implies same_node_place(
            a[i].nodes[k],
            #[trigger] c[i].nodes[k],
        ) by {
            assert(same_node_place(a[i].nodes[k], b[i].nodes[k]));
            assert(same_node_place(b[i].nodes[k], c[i].nodes[k]));
        }
    }
}

/// A frame of the shape of a frame of the shape of another has the shape of that.
pub proof fn lemma_same_shape_transitive(a: FrameView, b: FrameView, c: FrameView)
    requires
        same_shape(a, b),
        same_shape(b, c),
    ensures
        same_shape(a, c),
{
    lemma_same_shapes_transitive(a.layers, b.layers, c.layers);
    assert forall|t: int| 0 <= t < a.render_targets.len() implies (#[trigger] c.render_targets[t]).children
        == a.render_targets[t].children && c.render_targets[t].id == a.render_targets[t].id
        && c.render_targets[t].width == a.render_targets[t].width && c.render_targets[t].height
        == a.render_targets[t].height && c.render_targets[t].items
        == a.render_targets[t].items by {
        assert(b.render_targets[t].children == a.render_targets[t].children);
    }
}

/// A frame of which only the layers have changed, and of them only the
/// nodes and the world transforms, has kept its shape.
pub proof fn lemma_layers_changed_shape(a: FrameView, b: FrameView)
    requires
        same_layer_shapes(a.layers, b.layers),
        b == (FrameView { layers: b.layers, pending_updates: b.pending_updates, ..a }),
    ensures
        same_shape(a, b),
        frame_sound(a) ==> frame_sound(b),
        frame_sound(a) && frame_groups_in_place(a)
            ==> frame_groups_in_place(b),
{
    if frame_sound(a) {
        lemma_same_shape_sound(a, b);
    }
}

/// Culling leaves the layers their shape.
pub proof fn lemma_cull_shape(layers: Seq<LayerView>)
    ensures
        same_layer_shapes(layers, culled_layers(layers)),
{
}

/// Passing vertex buffers on leaves the layers their shape.
pub proof fn lemma_batch_cache_shape(layers: Seq<LayerView>)
    ensures
        same_layer_shapes(layers, batch_cached(layers)),
{
}

/// Storing resource lists leaves the layers their shape.
pub proof fn lemma_resource_lists_shape(layers: Seq<LayerView>, lists: Seq<(NodeKey, ResourceList)>)
    ensures
        same_layer_shapes(layers, with_resource_lists(layers, lists)),
    decreases lists.len(),
{
    if lists.len() > 0 {
        let (key, list) = lists.last();
        let next = with_node(
            layers,
            key,
            Node { resource_list: Some(list), ..node_at(layers, key) },
        );
        lemma_resource_lists_shape(next, lists.drop_last());
        assert(same_layer_shapes(layers, next));
        lemma_same_shapes_transitive(layers, next, with_resource_lists(next, lists.drop_last()));
    }
}

/// Taking compiled nodes in leaves the layers their shape.
pub proof fn lemma_compiled_nodes_shape(
    layers: Seq<LayerView>,
    compiled: Seq<(NodeKey, CompiledNode)>,
)
    ensures
        same_layer_shapes(layers, with_compiled_nodes(layers, compiled)),
    decreases compiled.len(),
{
    if compiled.len() > 0 {
        let (key, node) = compiled.last();
        let next = with_compiled_node(layers, key, node);
        lemma_compiled_nodes_shape(next, compiled.drop_last());
        assert(same_layer_shapes(layers, next));
        lemma_same_shapes_transitive(layers, next, with_compiled_nodes(next, compiled.drop_last()));
    }
}

/// The walk through the layers leaves them their shape.
pub proof fn lemma_transforms_shape(frame: FrameView)
    ensures
        same_layer_shapes(frame.layers, transforms_updated(frame)),
{
    match frame.root_scroll_layer_id {
        None => {},
        Some(root) => match position(layer_ids(frame.layers), root) {
            None => {},
            Some(i) => {
                let after = transforms_updated(frame);
                lemma_with_transforms_shape(
                    frame.layers,
                    frame.layers.len() as int,
                    i,
                    identity(),
                );
                assert forall|j: int| 0 <= j < frame.layers.len() implies same_layer_shape(
                    frame.layers[j],
                    #[trigger] after[j],
                ) by {}
            },
        },
    }
}

/// Preparing a frame for collecting leaves it its shape.
pub proof fn lemma_prepared_shape(frame: FrameView)
    ensures
        same_shape(frame, prepared(frame)),
{
    let cached = FrameView {
        layers: batch_cached(frame.layers),
        pending_updates: frame.pending_updates + all_creates(
            frame.layers,
            frame.layers.len() as int,
        ),
        ..frame
    };
    lemma_batch_cache_shape(frame.layers);
    lemma_transforms_shape(cached);
    lemma_same_shapes_transitive(frame.layers, cached.layers, transforms_updated(cached));
}

/// Collecting changes nothing of a frame but the textures of its render
/// targets.
pub proof fn lemma_collected_upto_shape(
    state: CollectState,
    draw_lists: Seq<DrawList>,
    n: int,
    device_pixel_ratio: u32,
)
    ensures
        collected_upto(state, draw_lists, n, device_pixel_ratio) matches Ok(s) ==> {
            &&& s.frame == (FrameView { render_targets: s.frame.render_targets, ..state.frame })
            &&& s.frame.render_targets.len() == state.frame.render_targets.len()
            &&& forall|t: int|
                0 <= t < state.frame.render_targets.len() ==> (
                #[trigger] s.frame.render_targets[t]) == (RenderTargetView {
                    child_texture_id: s.frame.render_targets[t].child_texture_id,
                    ..state.frame.render_targets[t]
                })
        },
    decreases n,
{
    if !(n <= 0 || n > state.frame.render_targets.len()) {
        lemma_collected_upto_shape(state, draw_lists, n - 1, device_pixel_ratio);
    }
}

/// Collecting a frame leaves it its shape.
pub proof fn lemma_collected_shape(
    frame: FrameView,
    draw_lists: Seq<DrawList>,
    textures: Seq<RenderTargetTexture>,
    next_texture_id: u32,
    device_pixel_ratio: u32,
)
    ensures
        collected(frame, draw_lists, textures, next_texture_id, device_pixel_ratio) matches Ok(s)
            ==> same_shape(frame, s.frame),
{
    lemma_collected_upto_shape(
        collect_start(frame, textures, next_texture_id),
        draw_lists,
        frame.render_targets.len() as int,
        device_pixel_ratio,
    );
}

} // verus!
