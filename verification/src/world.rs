//! What the walk through the scroll layers leaves: every layer that the
//! walk reaches has the world transform of its parent, then its own local
//! transform, then the move to where it stands, then the move by which it
//! is scrolled.

use vstd::prelude::*;
use crate::collect::{built, collect_start, prepared};
use crate::frame::{FrameView, layer_ids};
use crate::layer::LayerView;
use crate::lookup::{distinct, lemma_position, position};
use crate::nodes::{all_creates, batch_cached};
use crate::rebuild::similar;
use crate::resource_cache::{DrawList, RenderTargetTexture};
use crate::shape::{
    lemma_batch_cache_shape, lemma_collected_upto_shape, lemma_layers_changed_shape,
    lemma_transforms_shape, same_layer_shape,
};
use crate::soundness::{child_behind, frame_sound, layer_tree};
use crate::transform::{Factor, identity};
use crate::transforms::{
    children_transformed, lemma_children_transformed_shape, lemma_with_transforms_shape,
    transforms_updated, with_transforms, world,
};
use crate::types::ScrollLayerId;

verus! {

/// The children of every layer, by name.
pub open spec fn kids(layers: Seq<LayerView>) -> Seq<Seq<ScrollLayerId>> {
    Seq::new(layers.len(), |i: int| layers[i].children)
}

/// The layer at `x` is the child at `k` of the layer at `i`.
pub open spec fn is_child(
    ids: Seq<ScrollLayerId>,
    kids: Seq<Seq<ScrollLayerId>>,
    i: int,
    k: int,
    x: int,
) -> bool {
    0 <= i < kids.len() && 0 <= k < kids[i].len() && position(ids, kids[i][k]) == Some(x)
}

/// The layer at `x` is a child of the layer at `i`.
pub open spec fn child_of(
    ids: Seq<ScrollLayerId>,
    kids: Seq<Seq<ScrollLayerId>>,
    i: int,
    x: int,
) -> bool {
    exists|k: int| is_child(ids, kids, i, k, x)
}

/// The parent of the layer at `x`.
pub open spec fn parent_of(ids: Seq<ScrollLayerId>, kids: Seq<Seq<ScrollLayerId>>, x: int) -> Option<
    int,
> {
    if exists|i: int| child_of(ids, kids, i, x) {
        Some(choose|i: int| child_of(ids, kids, i, x))
    } else {
        None
    }
}

/// The layers form a forest.
pub open spec fn forest(ids: Seq<ScrollLayerId>, kids: Seq<Seq<ScrollLayerId>>) -> bool {
    &&& distinct(ids)
    &&& kids.len() == ids.len()
    &&& forall|i: int, k: int|
        0 <= i < kids.len() && 0 <= k < kids[i].len() ==> (position(
            ids,
            #[trigger] kids[i][k],
        ) matches Some(j) && j > i)
    &&& forall|i: int, k: int, i2: int, k2: int|
        0 <= i < kids.len() && 0 <= k < kids[i].len() && 0 <= i2 < kids.len() && 0 <= k2
            < kids[i2].len() && (i != i2 || k != k2) ==> #[trigger] kids[i][k]
            != #[trigger] kids[i2][k2]
}

/// The walk from the layer at `r` reaches the layer at `x`.
pub open spec fn reached(
    ids: Seq<ScrollLayerId>,
    kids: Seq<Seq<ScrollLayerId>>,
    r: int,
    x: int,
) -> bool
    decreases x,
{
    x == r || (parent_of(ids, kids, x) matches Some(q) && 0 <= q < x && reached(ids, kids, r, q))
}

/// The walk from one of the first `n` children of the layer at `i` reaches
/// the layer at `x`.
pub open spec fn under(
    ids: Seq<ScrollLayerId>,
    kids: Seq<Seq<ScrollLayerId>>,
    i: int,
    n: int,
    x: int,
) -> bool
    decreases n,
{
    if n <= 0 || i < 0 || i >= kids.len() || n > kids[i].len() {
        false
    } else {
        under(ids, kids, i, n - 1, x) || (position(ids, kids[i][n - 1]) matches Some(j) && reached(
            ids,
            kids,
            j,
            x,
        ))
    }
}

proof fn lemma_layer_tree_is_forest(layers: Seq<LayerView>)
    requires
        layer_tree(layers),
    ensures
        forest(layer_ids(layers), kids(layers)),
{
    let ids = layer_ids(layers);
    let ks = kids(layers);
    assert forall|i: int, k: int| 0 <= i < ks.len() && 0 <= k < ks[i].len() implies (position(
        ids,
        #[trigger] ks[i][k],
    ) matches Some(j) && j > i) by {
        assert(child_behind(layers, i, k));
    }
    assert forall|i: int, k: int, i2: int, k2: int|
        0 <= i < ks.len() && 0 <= k < ks[i].len() && 0 <= i2 < ks.len() && 0 <= k2
            < ks[i2].len() && (i != i2 || k != k2) implies #[trigger] ks[i][k]
        != #[trigger] ks[i2][k2] by {
        assert(layers[i].children[k] != layers[i2].children[k2]);
    }
}

proof fn lemma_similar_same_forest(a: Seq<LayerView>, b: Seq<LayerView>)
    requires
        similar(a, b),
    ensures
        layer_ids(a) == layer_ids(b),
        kids(a) == kids(b),
{
    assert forall|j: int| 0 <= j < a.len() implies (#[trigger] b[j]).id == a[j].id
        && b[j].children == a[j].children by {
        assert(b[j] == a[j].with_world_transform(b[j].world_transform));
    }
    assert(layer_ids(a) =~= layer_ids(b));
    assert(kids(a) =~= kids(b));
}

/// A child has the parent that it is the child of, and no other.
proof fn lemma_parent_of_child(
    ids: Seq<ScrollLayerId>,
    kids: Seq<Seq<ScrollLayerId>>,
    i: int,
    k: int,
    x: int,
)
    requires
        forest(ids, kids),
        is_child(ids, kids, i, k, x),
    ensures
        parent_of(ids, kids, x) == Some(i),
        i < x < ids.len(),
{
    lemma_position(ids, kids[i][k]);
    assert(child_of(ids, kids, i, x));
    let p = choose|p: int| child_of(ids, kids, p, x);
    assert(child_of(ids, kids, p, x));
    let k2 = choose|k2: int| is_child(ids, kids, p, k2, x);
    lemma_position(ids, kids[p][k2]);
    if p != i {
        assert(kids[i][k] != kids[p][k2]);
    }
}

/// The walk reaches nothing before where it starts.
proof fn lemma_reached_behind(
    ids: Seq<ScrollLayerId>,
    kids: Seq<Seq<ScrollLayerId>>,
    r: int,
    x: int,
)
    requires
        reached(ids, kids, r, x),
    ensures
        x >= r,
    decreases x,
{
    if x != r {
        lemma_reached_behind(ids, kids, r, parent_of(ids, kids, x)->0);
    }
}

/// What the walk from a child reaches, the walk from the parent reaches.
proof fn lemma_reached_from_parent(
    ids: Seq<ScrollLayerId>,
    kids: Seq<Seq<ScrollLayerId>>,
    i: int,
    j: int,
    x: int,
)
    requires
        parent_of(ids, kids, j) == Some(i),
        0 <= i < j,
        reached(ids, kids, j, x),
    ensures
        reached(ids, kids, i, x),
        x != i,
    decreases x,
{
    lemma_reached_behind(ids, kids, j, x);
    assert(reached(ids, kids, i, i));
    if x != j {
        lemma_reached_from_parent(ids, kids, i, j, parent_of(ids, kids, x)->0);
    }
}

proof fn lemma_under_is_reached(
    ids: Seq<ScrollLayerId>,
    kids: Seq<Seq<ScrollLayerId>>,
    i: int,
    n: int,
    x: int,
)
    requires
        forest(ids, kids),
        under(ids, kids, i, n, x),
    ensures
        reached(ids, kids, i, x),
        x != i,
    decreases n,
{
    if under(ids, kids, i, n - 1, x) {
        lemma_under_is_reached(ids, kids, i, n - 1, x);
    } else {
        let j = position(ids, kids[i][n - 1])->0;
        lemma_parent_of_child(ids, kids, i, n - 1, j);
        lemma_reached_from_parent(ids, kids, i, j, x);
    }
}

proof fn lemma_under_more(
    ids: Seq<ScrollLayerId>,
    kids: Seq<Seq<ScrollLayerId>>,
    i: int,
    n: int,
    m: int,
    x: int,
)
    requires
        0 <= i < kids.len(),
        n <= m <= kids[i].len(),
        under(ids, kids, i, n, x),
    ensures
        under(ids, kids, i, m, x),
    decreases m,
{
    if n < m {
        lemma_under_more(ids, kids, i, n, m - 1, x);
    }
}

proof fn lemma_under_closed(
    ids: Seq<ScrollLayerId>,
    kids: Seq<Seq<ScrollLayerId>>,
    i: int,
    n: int,
    q: int,
    x: int,
)
    requires
        under(ids, kids, i, n, q),
        parent_of(ids, kids, x) == Some(q),
        0 <= q < x,
    ensures
        under(ids, kids, i, n, x),
    decreases n,
{
    if under(ids, kids, i, n - 1, q) {
        lemma_under_closed(ids, kids, i, n - 1, q, x);
    }
}

proof fn lemma_reached_is_under(
    ids: Seq<ScrollLayerId>,
    kids: Seq<Seq<ScrollLayerId>>,
    i: int,
    x: int,
)
    requires
        forest(ids, kids),
        0 <= i < kids.len(),
        reached(ids, kids, i, x),
        x != i,
    ensures
        under(ids, kids, i, kids[i].len() as int, x),
    decreases x,
{
    let q = parent_of(ids, kids, x)->0;
    if q == i {
        assert(child_of(ids, kids, i, x));
        let k = choose|k: int| is_child(ids, kids, i, k, x);
        assert(reached(ids, kids, x, x));
        assert(under(ids, kids, i, k + 1, x));
        lemma_under_more(ids, kids, i, k + 1, kids[i].len() as int, x);
    } else {
        lemma_reached_is_under(ids, kids, i, q);
        lemma_under_closed(ids, kids, i, kids[i].len() as int, q, x);
    }
}

/// The layer at `x` has the world transform that follows from that of its
/// parent.
pub open spec fn follows_parent(
    ids: Seq<ScrollLayerId>,
    kids: Seq<Seq<ScrollLayerId>>,
    layers: Seq<LayerView>,
    x: int,
) -> bool {
    parent_of(ids, kids, x) matches Some(q) && 0 <= q < x && layers[x].world_transform == world(
        layers[q].world_transform,
        layers[x],
    )
}

proof fn lemma_walk(layers: Seq<LayerView>, bound: int, i: int, parent: Seq<Factor>)
    requires
        forest(layer_ids(layers), kids(layers)),
        bound == layers.len(),
        0 <= i < bound,
    ensures
        similar(layers, with_transforms(layers, bound, i, parent)),
        with_transforms(layers, bound, i, parent)[i].world_transform == world(parent, layers[i]),
        forall|x: int|
            0 <= x < bound && !reached(layer_ids(layers), kids(layers), i, x)
                ==> #[trigger] with_transforms(layers, bound, i, parent)[x] == layers[x],
        forall|x: int|
            0 <= x < bound && x != i && reached(layer_ids(layers), kids(layers), i, x)
                ==> #[trigger] follows_parent(
                layer_ids(layers),
                kids(layers),
                with_transforms(layers, bound, i, parent),
                x,
            ),
    decreases bound - i, 1int, 0int,
{
    let ids = layer_ids(layers);
    let ks = kids(layers);
    let w = world(parent, layers[i]);
    let set = layers.update(i, layers[i].with_world_transform(w));
    let after = with_transforms(layers, bound, i, parent);
    let n = layers[i].children.len() as int;
    assert(similar(layers, set));
    lemma_similar_same_forest(layers, set);
    lemma_children_walk(set, bound, i, n, w);
    lemma_with_transforms_shape(layers, bound, i, parent);
    assert(ks[i] == layers[i].children);
    assert(after == children_transformed(set, bound, i, set[i].children, n, w));
    assert forall|x: int|
        0 <= x < bound && !reached(ids, ks, i, x) implies #[trigger] after[x] == layers[x] by {
        if under(ids, ks, i, n, x) {
            lemma_under_is_reached(ids, ks, i, n, x);
        }
    }
    assert forall|x: int|
        0 <= x < bound && x != i && reached(ids, ks, i, x) implies #[trigger] follows_parent(
        ids,
        ks,
        after,
        x,
    ) by {
        lemma_reached_is_under(ids, ks, i, x);
    }
}

proof fn lemma_children_walk(layers: Seq<LayerView>, bound: int, i: int, n: int, w: Seq<Factor>)
    requires
        forest(layer_ids(layers), kids(layers)),
        bound == layers.len(),
        0 <= i < bound,
        0 <= n <= layers[i].children.len(),
        layers[i].world_transform == w,
    ensures
        similar(layers, children_transformed(layers, bound, i, layers[i].children, n, w)),
        children_transformed(layers, bound, i, layers[i].children, n, w)[i] == layers[i],
        forall|x: int|
            0 <= x < bound && !under(layer_ids(layers), kids(layers), i, n, x)
                ==> #[trigger] children_transformed(layers, bound, i, layers[i].children, n, w)[x]
                == layers[x],
        forall|x: int|
            0 <= x < bound && under(layer_ids(layers), kids(layers), i, n, x)
                ==> #[trigger] follows_parent(
                layer_ids(layers),
                kids(layers),
                children_transformed(layers, bound, i, layers[i].children, n, w),
                x,
            ),
    decreases bound - i, 0int, n,
{
    let ids = layer_ids(layers);
    let ks = kids(layers);
    let children = layers[i].children;
    lemma_children_transformed_shape(layers, bound, i, children, n, w);
    if n > 0 {
        let before = children_transformed(layers, bound, i, children, n - 1, w);
        let after = children_transformed(layers, bound, i, children, n, w);
        lemma_children_walk(layers, bound, i, n - 1, w);
        lemma_similar_same_forest(layers, before);
        assert(ks[i] == children);
        let c = children[n - 1];
        assert(position(ids, ks[i][n - 1]) matches Some(j) && j > i);
        let j = position(ids, c)->0;
        lemma_position(ids, c);
        lemma_parent_of_child(ids, ks, i, n - 1, j);
        assert(after == with_transforms(before, bound, j, w));
        lemma_walk(before, bound, j, w);
        assert forall|x: int| 0 <= x < bound implies (#[trigger] after[x])
            == layers[x].with_world_transform(after[x].world_transform) by {
            assert(before[x] == layers[x].with_world_transform(before[x].world_transform));
            assert(after[x] == before[x].with_world_transform(after[x].world_transform));
        }
        assert(!reached(ids, ks, j, i)) by {
            if reached(ids, ks, j, i) {
                lemma_reached_behind(ids, ks, j, i);
            }
        }
        assert forall|x: int|
            0 <= x < bound && !under(ids, ks, i, n, x) implies #[trigger] after[x]
            == layers[x] by {
            assert(!reached(ids, ks, j, x));
            assert(!under(ids, ks, i, n - 1, x));
        }
        assert forall|x: int|
            0 <= x < bound && under(ids, ks, i, n, x) implies #[trigger] follows_parent(
            ids,
            ks,
            after,
            x,
        ) by {
            if reached(ids, ks, j, x) {
                if x == j {
                    assert(after[j].world_transform == world(w, before[j]));
                    assert(before[j] == layers[j].with_world_transform(
                        before[j].world_transform,
                    ));
                    assert(after[i] == before[i]);
                } else {
                    assert(follows_parent(ids, ks, after, x));
                }
            } else {
                assert(under(ids, ks, i, n - 1, x));
                assert(follows_parent(ids, ks, before, x));
                let q = parent_of(ids, ks, x)->0;
                assert(after[x] == before[x]);
                if reached(ids, ks, j, q) {
                    assert(reached(ids, ks, j, x));
                }
                assert(after[q] == before[q]);
            }
        }
    }
}

/// After the walk from the root scroll layer, the world transform of the
/// root is its local transform, then the move to where it stands, then the
/// move by which it is scrolled; the world transform of every other layer
/// that the walk reaches is that of its parent, then its local transform
/// and its two moves; and the other layers are as they were.
pub proof fn lemma_world_transforms_follow_parents(frame: FrameView, root: int, x: int)
    requires
        layer_tree(frame.layers),
        frame.root_scroll_layer_id matches Some(id) && position(layer_ids(frame.layers), id)
            == Some(root),
        0 <= x < frame.layers.len(),
    ensures
        ({
            let ids = layer_ids(frame.layers);
            let ks = kids(frame.layers);
            let after = transforms_updated(frame);
            &&& after.len() == frame.layers.len()
            &&& after[root].world_transform == world(identity(), frame.layers[root])
            &&& x != root && reached(ids, ks, root, x) ==> follows_parent(ids, ks, after, x)
            &&& !reached(ids, ks, root, x) ==> after[x] == frame.layers[x]
        }),
{
    lemma_layer_tree_is_forest(frame.layers);
    lemma_position(layer_ids(frame.layers), frame.root_scroll_layer_id->0);
    lemma_walk(frame.layers, frame.layers.len() as int, root, identity());
}

/// The layer at `q` is the parent of the layer at `x` exactly if `x` is
/// one of its children.
pub proof fn lemma_parent_is_the_one_with_the_child(layers: Seq<LayerView>, q: int, k: int)
    requires
        layer_tree(layers),
        0 <= q < layers.len(),
        0 <= k < layers[q].children.len(),
    ensures
        position(layer_ids(layers), layers[q].children[k]) matches Some(x) && parent_of(
            layer_ids(layers),
            kids(layers),
            x,
        ) == Some(q) && q < x < layers.len(),
{
    lemma_layer_tree_is_forest(layers);
    assert(child_behind(layers, q, k));
    let x = position(layer_ids(layers), layers[q].children[k])->0;
    assert(kids(layers)[q] == layers[q].children);
    lemma_parent_of_child(layer_ids(layers), kids(layers), q, k, x);
}

/// After a build of a sound frame, the world transform of the root scroll
/// layer is its local transform and its two moves, and the world transform
/// of every other layer that the walk from the root reaches follows from
/// that of its parent.
pub proof fn lemma_built_world_transforms(
    frame: FrameView,
    draw_lists: Seq<DrawList>,
    textures: Seq<RenderTargetTexture>,
    next_texture_id: u32,
    device_pixel_ratio: u32,
    x: int,
)
    requires
        frame_sound(frame),
        0 <= x < frame.layers.len(),
    ensures
        built(frame, draw_lists, textures, next_texture_id, device_pixel_ratio)
            matches Ok(s) ==> ({
            let layers = s.frame.layers;
            let ids = layer_ids(layers);
            let ks = kids(layers);
            &&& layers.len() == frame.layers.len()
            &&& ids == layer_ids(frame.layers)
            &&& ks == kids(frame.layers)
            &&& (frame.root_scroll_layer_id is Some && position(
                ids,
                frame.root_scroll_layer_id->0,
            ) is Some) ==> {
                let root = position(ids, frame.root_scroll_layer_id->0)->0;
                &&& layers[root].world_transform == world(identity(), layers[root])
                &&& x != root && reached(ids, ks, root, x) ==> follows_parent(ids, ks, layers, x)
                &&& !reached(ids, ks, root, x) ==> layers[x].world_transform
                    == frame.layers[x].world_transform
            }
        }),
{
    let cached = FrameView {
        layers: batch_cached(frame.layers),
        pending_updates: frame.pending_updates + all_creates(
            frame.layers,
            frame.layers.len() as int,
        ),
        ..frame
    };
    let ready = prepared(frame);
    lemma_batch_cache_shape(frame.layers);
    lemma_layers_changed_shape(frame, cached);
    lemma_transforms_shape(cached);
    lemma_collected_upto_shape(
        collect_start(ready, textures, next_texture_id),
        draw_lists,
        ready.render_targets.len() as int,
        device_pixel_ratio,
    );
    assert(layer_ids(cached.layers) =~= layer_ids(frame.layers));
    assert(kids(cached.layers) =~= kids(frame.layers));
    assert(layer_ids(ready.layers) =~= layer_ids(frame.layers));
    assert(kids(ready.layers) =~= kids(frame.layers));
    if frame.root_scroll_layer_id is Some && position(
        layer_ids(frame.layers),
        frame.root_scroll_layer_id->0,
    ) is Some {
        let root = position(layer_ids(frame.layers), frame.root_scroll_layer_id->0)->0;
        lemma_position(layer_ids(frame.layers), frame.root_scroll_layer_id->0);
        lemma_world_transforms_follow_parents(cached, root, x);
        assert(same_layer_shape(cached.layers[root], ready.layers[root]));
        assert(world(identity(), cached.layers[root]) == world(identity(), ready.layers[root]));
        assert(cached.layers[x].world_transform == frame.layers[x].world_transform);
    }
    match built(
        frame,
        draw_lists,
        textures,
        next_texture_id,
        device_pixel_ratio,
    ) {
        Err(_) => {},
        Ok(s) => {
            assert(s.frame.layers == ready.layers);
        },
    }
}

} // verus!
