//! Building twice.
//!
//! A second build of a frame that nothing has touched since the first
//! draws what the first drew: the vertex buffers have been passed on, the
//! walk through the layers sets the world transforms that it set before,
//! and the draw commands depend on nothing that collecting changes.

use vstd::prelude::*;
use crate::batch::BatchUpdate;
use crate::collect::{built, collect_start, collected, collected_upto, CollectState, prepared};
use crate::commands::{batch_info, batch_of, command, commands};
use crate::frame::{FrameView, group_ids, layer_ids};
use crate::layer::{LayerView, Node};
use crate::lookup::position;
use crate::nodes::{all_creates, batch_cached, creates, fresh_vertex_buffer, passed_on};
use crate::render_target::RenderItemView;
use crate::resource_cache::{DrawList, RenderTargetTexture};
use crate::shape::{lemma_collected_upto_shape, lemma_prepared_shape, lemma_transforms_shape};
use crate::transform::{Factor, identity};
use crate::transforms::{
    children_transformed, lemma_with_transforms_shape, transforms_updated, with_transforms, world,
};
use crate::types::{DrawListGroupId, ScrollLayerId};

verus! {

/// `b` is `a` but for the world transforms.
pub open spec fn similar(a: Seq<LayerView>, b: Seq<LayerView>) -> bool {
    &&& a.len() == b.len()
    &&& forall|j: int|
        0 <= j < a.len() ==> (#[trigger] b[j]) == a[j].with_world_transform(b[j].world_transform)
}

/// `x` and `y` have come from `a` and `b` by the same walk so far: they
/// agree on the world transform of every layer that the walk has been
/// through, and the others are as they were.
pub open spec fn in_step(
    a: Seq<LayerView>,
    b: Seq<LayerView>,
    x: Seq<LayerView>,
    y: Seq<LayerView>,
) -> bool {
    &&& similar(a, b)
    &&& similar(a, x)
    &&& similar(x, y)
    &&& forall|j: int|
        0 <= j < a.len() ==> (#[trigger] x[j]).world_transform == y[j].world_transform || (x[j]
            == a[j] && y[j] == b[j])
}

proof fn lemma_walks_in_step(
    a: Seq<LayerView>,
    b: Seq<LayerView>,
    x: Seq<LayerView>,
    y: Seq<LayerView>,
    bound: int,
    i: int,
    parent: Seq<Factor>,
)
    requires
        in_step(a, b, x, y),
    ensures
        in_step(a, b, with_transforms(x, bound, i, parent), with_transforms(y, bound, i, parent)),
    decreases bound - i, 1int, 0int,
{
    if !(i < 0 || i >= bound || bound != x.len()) {
        let w = world(parent, x[i]);
        assert(y[i] == x[i].with_world_transform(y[i].world_transform));
        assert(world(parent, y[i]) == w);
        let x1 = x.update(i, x[i].with_world_transform(w));
        let y1 = y.update(i, y[i].with_world_transform(w));
        assert(x[i] == a[i].with_world_transform(x[i].world_transform));
        assert forall|j: int| 0 <= j < a.len() implies (#[trigger] x1[j])
            == a[j].with_world_transform(x1[j].world_transform) by {
            assert(x[j] == a[j].with_world_transform(x[j].world_transform));
        }
        assert forall|j: int| 0 <= j < x1.len() implies (#[trigger] y1[j])
            == x1[j].with_world_transform(y1[j].world_transform) by {
            assert(y[j] == x[j].with_world_transform(y[j].world_transform));
        }
        assert forall|j: int| 0 <= j < a.len() implies (#[trigger] x1[j]).world_transform
            == y1[j].world_transform || (x1[j] == a[j] && y1[j] == b[j]) by {
            if j != i {
                assert(x[j].world_transform == y[j].world_transform || (x[j] == a[j] && y[j]
                    == b[j]));
            }
        }
        assert(x[i].children == y[i].children);
        lemma_children_in_step(
            a,
            b,
            x1,
            y1,
            bound,
            i,
            x[i].children,
            x[i].children.len() as int,
            w,
        );
    }
}

proof fn lemma_children_in_step(
    a: Seq<LayerView>,
    b: Seq<LayerView>,
    x: Seq<LayerView>,
    y: Seq<LayerView>,
    bound: int,
    i: int,
    children: Seq<ScrollLayerId>,
    n: int,
    w: Seq<Factor>,
)
    requires
        in_step(a, b, x, y),
    ensures
        in_step(
            a,
            b,
            children_transformed(x, bound, i, children, n, w),
            children_transformed(y, bound, i, children, n, w),
        ),
    decreases bound - i, 0int, n,
{
    if !(n <= 0 || n > children.len()) {
        lemma_children_in_step(a, b, x, y, bound, i, children, n - 1, w);
        let bx = children_transformed(x, bound, i, children, n - 1, w);
        let by = children_transformed(y, bound, i, children, n - 1, w);
        assert forall|j: int| 0 <= j < bx.len() implies (#[trigger] by[j]).id == bx[j].id by {
            assert(by[j] == bx[j].with_world_transform(by[j].world_transform));
        }
        assert(layer_ids(bx) =~= layer_ids(by));
        match position(layer_ids(bx), children[n - 1]) {
            Some(j) => if i < j < bound {
                lemma_walks_in_step(a, b, bx, by, bound, j, w);
            },
            None => {},
        }
    }
}

/// The walk through the layers sets the world transforms that it has set
/// before.
pub proof fn lemma_transforms_idempotent(frame: FrameView)
    ensures
        transforms_updated(FrameView { layers: transforms_updated(frame), ..frame })
            == transforms_updated(frame),
{
    let once = transforms_updated(frame);
    let again = transforms_updated(FrameView { layers: once, ..frame });
    match frame.root_scroll_layer_id {
        None => {},
        Some(root) => {
            let a = frame.layers;
            let bound = a.len() as int;
            match position(layer_ids(a), root) {
                None => {
                    assert(once == a);
                },
                Some(i) => {
                    lemma_with_transforms_shape(a, bound, i, identity());
                    assert(similar(a, once));
                    assert forall|j: int| 0 <= j < a.len() implies (#[trigger] once[j]).id
                        == a[j].id by {
                        assert(once[j] == a[j].with_world_transform(once[j].world_transform));
                    }
                    assert(layer_ids(once) =~= layer_ids(a));
                    assert(similar(a, a));
                    assert(in_step(a, once, a, once));
                    lemma_walks_in_step(a, once, a, once, bound, i, identity());
                    assert(again == with_transforms(once, bound, i, identity()));
                    assert forall|j: int| 0 <= j < once.len() implies again[j] == once[j] by {
                        assert(again[j] == once[j].with_world_transform(again[j].world_transform));
                        assert(once[j] == a[j].with_world_transform(once[j].world_transform));
                    }
                    assert(again =~= once);
                },
            }
        },
    }
}

/// Every vertex buffer of the layers has been passed on.
pub open spec fn all_passed_on(layers: Seq<LayerView>) -> bool {
    forall|i: int, k: int|
        0 <= i < layers.len() && 0 <= k < layers[i].nodes.len() ==> fresh_vertex_buffer(
            #[trigger] layers[i].nodes[k],
        ) is None
}

proof fn lemma_nothing_to_create(nodes: Seq<Node>, n: int)
    requires
        forall|k: int| 0 <= k < nodes.len() ==> fresh_vertex_buffer(#[trigger] nodes[k]) is None,
    ensures
        creates(nodes, n) == Seq::<BatchUpdate>::empty(),
    decreases n,
{
    if !(n <= 0 || n > nodes.len()) {
        lemma_nothing_to_create(nodes, n - 1);
    }
}

/// Where every vertex buffer has been passed on, there is nothing to pass
/// on.
pub proof fn lemma_nothing_left_to_pass_on(layers: Seq<LayerView>, m: int)
    requires
        all_passed_on(layers),
    ensures
        batch_cached(layers) == layers,
        all_creates(layers, m) == Seq::<BatchUpdate>::empty(),
    decreases m,
{
    assert forall|i: int| 0 <= i < layers.len() implies batch_cached(layers)[i] == layers[i] by {
        assert forall|k: int| 0 <= k < layers[i].nodes.len() implies passed_on(layers[i].nodes[k])
            == layers[i].nodes[k] by {
            assert(fresh_vertex_buffer(layers[i].nodes[k]) is None);
        }
        assert(Seq::new(layers[i].nodes.len(), |k: int| passed_on(layers[i].nodes[k]))
            =~= layers[i].nodes);
    }
    assert(batch_cached(layers) =~= layers);
    if !(m <= 0 || m > layers.len()) {
        lemma_nothing_left_to_pass_on(layers, m - 1);
        assert forall|k: int| 0 <= k < layers[m - 1].nodes.len() implies fresh_vertex_buffer(
            #[trigger] layers[m - 1].nodes[k],
        ) is None by {}
        lemma_nothing_to_create(layers[m - 1].nodes, layers[m - 1].nodes.len() as int);
    }
}

/// Preparing a frame for collecting passes every vertex buffer on.
pub proof fn lemma_prepared_all_passed_on(frame: FrameView)
    ensures
        all_passed_on(prepared(frame).layers),
{
    let cached = FrameView {
        layers: batch_cached(frame.layers),
        pending_updates: frame.pending_updates + all_creates(
            frame.layers,
            frame.layers.len() as int,
        ),
        ..frame
    };
    let ready = prepared(frame).layers;
    lemma_transforms_shape(cached);
    match cached.root_scroll_layer_id {
        None => {},
        Some(root) => match position(layer_ids(cached.layers), root) {
            None => {},
            Some(i) => {
                lemma_with_transforms_shape(
                    cached.layers,
                    cached.layers.len() as int,
                    i,
                    identity(),
                );
            },
        },
    }
    assert forall|i: int, k: int|
        0 <= i < ready.len() && 0 <= k < ready[i].nodes.len() implies fresh_vertex_buffer(
        #[trigger] ready[i].nodes[k],
    ) is None by {
        assert(ready[i].nodes == cached.layers[i].nodes);
        assert(cached.layers[i].nodes[k] == passed_on(frame.layers[i].nodes[k]));
    }
}

/// Preparing a frame that has been prepared changes nothing.
pub proof fn lemma_prepared_idempotent(frame: FrameView)
    ensures
        prepared(prepared(frame)) == prepared(frame),
{
    let p = prepared(frame);
    lemma_prepared_all_passed_on(frame);
    lemma_nothing_left_to_pass_on(p.layers, p.layers.len() as int);
    let cached = FrameView {
        layers: batch_cached(frame.layers),
        pending_updates: frame.pending_updates + all_creates(
            frame.layers,
            frame.layers.len() as int,
        ),
        ..frame
    };
    lemma_transforms_idempotent(cached);
    assert(p.pending_updates + Seq::<BatchUpdate>::empty() =~= p.pending_updates);
}

/// The draw commands depend on the layers, the draw-list groups and the
/// records of the stacking contexts, and on nothing else of a frame.
pub proof fn lemma_commands_depend_on(
    a: FrameView,
    b: FrameView,
    draw_lists: Seq<DrawList>,
    items: Seq<RenderItemView>,
)
    requires
        a.layers == b.layers,
        a.draw_list_groups == b.draw_list_groups,
        a.stacking_context_info == b.stacking_context_info,
    ensures
        commands(a, draw_lists, items) == commands(b, draw_lists, items),
{
    assert forall|i: int| 0 <= i < items.len() implies command(
        a,
        draw_lists,
        items[i],
    ) == command(b, draw_lists, items[i]) by {
        match items[i] {
            RenderItemView::DrawListBatch(id) => {
                lemma_batch_depends_on(a, b, draw_lists, id);
            },
            _ => {},
        }
    }
    assert(commands(a, draw_lists, items) =~= commands(b, draw_lists, items));
}

proof fn lemma_batch_depends_on(
    a: FrameView,
    b: FrameView,
    draw_lists: Seq<DrawList>,
    id: DrawListGroupId,
)
    requires
        a.layers == b.layers,
        a.draw_list_groups == b.draw_list_groups,
        a.stacking_context_info == b.stacking_context_info,
    ensures
        batch_info(a, draw_lists, id) == batch_info(
            b,
            draw_lists,
            id,
        ),
{
    match position(group_ids(a.draw_list_groups), id) {
        None => {},
        Some(g) => match position(layer_ids(a.layers), a.draw_list_groups[g].scroll_layer_id) {
            None => {},
            Some(l) => {
                let x = batch_of(a, draw_lists, a.draw_list_groups[g], a.layers[l]);
                let y = batch_of(b, draw_lists, a.draw_list_groups[g], a.layers[l]);
                assert(x.matrix_palette =~= y.matrix_palette);
                assert(x.offset_palette =~= y.offset_palette);
            },
        },
    }
}

/// The layer collected for a render target holds the draw commands of the
/// items of that target, its children and its size.
pub proof fn lemma_collected_layers(
    state: CollectState,
    draw_lists: Seq<DrawList>,
    n: int,
    device_pixel_ratio: u32,
    t: int,
)
    requires
        0 <= t < n <= state.frame.render_targets.len(),
    ensures
        collected_upto(state, draw_lists, n, device_pixel_ratio) matches Ok(s) ==> {
            &&& s.layers.len() == state.layers.len() + n
            &&& s.layers[state.layers.len() + t].commands == commands(
                state.frame,
                draw_lists,
                state.frame.render_targets[t].items,
            )
            &&& s.layers[state.layers.len() + t].child_layers
                == state.frame.render_targets[t].children
            &&& s.layers[state.layers.len() + t].layer_width == state.frame.render_targets[t].width
            &&& s.layers[state.layers.len() + t].layer_height
                == state.frame.render_targets[t].height
        },
    decreases n,
{
    lemma_collected_count(state, draw_lists, n, device_pixel_ratio);
    lemma_collected_count(state, draw_lists, n - 1, device_pixel_ratio);
    lemma_collected_upto_shape(state, draw_lists, n - 1, device_pixel_ratio);
    match collected_upto(state, draw_lists, n - 1, device_pixel_ratio) {
        Err(_) => {},
        Ok(before) => {
            if t < n - 1 {
                lemma_collected_layers(state, draw_lists, n - 1, device_pixel_ratio, t);
            } else {
                lemma_commands_depend_on(
                    before.frame,
                    state.frame,
                    draw_lists,
                    state.frame.render_targets[t].items,
                );
            }
        },
    }
}

proof fn lemma_collected_count(
    state: CollectState,
    draw_lists: Seq<DrawList>,
    n: int,
    device_pixel_ratio: u32,
)
    requires
        0 <= n <= state.frame.render_targets.len(),
    ensures
        collected_upto(state, draw_lists, n, device_pixel_ratio) matches Ok(s) ==> s.layers.len()
            == state.layers.len() + n && forall|j: int|
            0 <= j < state.layers.len() ==> s.layers[j] == state.layers[j],
    decreases n,
{
    if n > 0 {
        lemma_collected_count(state, draw_lists, n - 1, device_pixel_ratio);
        lemma_collected_upto_shape(state, draw_lists, n - 1, device_pixel_ratio);
    }
}

/// A second build of a frame that nothing has touched since the first
/// yields as many layers, and for every layer the draw commands, the
/// children and the size that the first build yielded.
pub proof fn lemma_build_twice_draws_the_same(
    frame: FrameView,
    draw_lists: Seq<DrawList>,
    textures: Seq<RenderTargetTexture>,
    next_texture_id: u32,
    device_pixel_ratio: u32,
    t: int,
)
    requires
        0 <= t < frame.render_targets.len(),
    ensures
        built(frame, draw_lists, textures, next_texture_id, device_pixel_ratio) matches Ok(first)
            ==> (built(
            first.frame,
            draw_lists,
            first.textures,
            first.next_texture_id,
            device_pixel_ratio,
        ) matches Ok(second) ==> {
            &&& second.frame.pipeline_epoch_map == first.frame.pipeline_epoch_map
            &&& first.frame.pipeline_epoch_map == frame.pipeline_epoch_map
            &&& second.layers.len() == first.layers.len()
            &&& first.layers.len() == frame.render_targets.len()
            &&& second.layers[t].commands == first.layers[t].commands
            &&& second.layers[t].child_layers == first.layers[t].child_layers
            &&& second.layers[t].layer_width == first.layers[t].layer_width
            &&& second.layers[t].layer_height == first.layers[t].layer_height
        }),
{
    let p = prepared(frame);
    let n = frame.render_targets.len() as int;
    lemma_prepared_shape(frame);
    match built(frame, draw_lists, textures, next_texture_id, device_pixel_ratio) {
        Err(_) => {},
        Ok(first) => {
            let start = collect_start(p, textures, next_texture_id);
            lemma_collected_upto_shape(start, draw_lists, n, device_pixel_ratio);
            lemma_collected_layers(start, draw_lists, n, device_pixel_ratio, t);
            // What the first build leaves is the prepared frame but for the textures.
            assert(first.frame.layers == p.layers);
            let q = prepared(first.frame);
            lemma_prepared_idempotent(frame);
            assert(first.frame == (FrameView {
                render_targets: first.frame.render_targets,
                ..p
            }));
            lemma_prepared_of_same_layers(p, first.frame);
            assert(q.layers == p.layers);
            match built(
                first.frame,
                draw_lists,
                first.textures,
                first.next_texture_id,
                device_pixel_ratio,
            ) {
                Err(_) => {},
                Ok(second) => {
                    let again = collect_start(q, first.textures, first.next_texture_id);
                    lemma_collected_upto_shape(again, draw_lists, n, device_pixel_ratio);
                    lemma_collected_layers(again, draw_lists, n, device_pixel_ratio, t);
                    assert(q.render_targets[t].items == p.render_targets[t].items);
                    lemma_commands_depend_on(q, p, draw_lists, p.render_targets[t].items);
                },
            }
        },
    }
}

/// Preparing touches nothing but the layers and what is on its way to the
/// renderer, and what it makes of the layers depends on the layers and
/// the root scroll layer alone.
proof fn lemma_prepared_of_same_layers(a: FrameView, b: FrameView)
    requires
        b == (FrameView { render_targets: b.render_targets, ..a }),
    ensures
        prepared(b) == (FrameView { render_targets: b.render_targets, ..prepared(a) }),
{
}

} // verus!
