//! What holds of every frame that flattening has built.
//!
//! The scroll layers form a forest in which every layer stands behind its
//! parent, the render targets form a tree in which every target stands
//! behind its parent, and no draw-list group is larger than a batch can
//! address.

use vstd::prelude::*;
use crate::composition::{composition_ops, CompositionOp, target_of_all};
use crate::create::{creation, finalized, flushed, root_info, root_of, started};
use crate::draw_list_group::DrawListGroupView;
use crate::error::FrameError;
use crate::flatten_model::{
    contents_added, context_flattened, depth_clear, flattened, handed_down, in_iframe, item_added,
    items_added, items_added_upto, local_clip, MAX_NESTING, scroll_policy_applied, with_composites,
};
use crate::frame::{FlattenInfoView, FlattenState, FrameView, group_ids, layer_ids};
use crate::geometry::{Point, Rect, Size};
use crate::layer::LayerView;
use crate::lookup::{
    distinct, lemma_position, lemma_position_of_distinct, lemma_position_push, position,
};
use crate::paint_order::SceneItemKind;
use crate::render_target::{
    CompositeBatchJob, lemma_composite_touches_only_the_end, RenderItemView, RenderTargetView,
    with_composite,
};
use crate::reset::offsets_of;
use crate::resource_cache::{draw_list_at, DrawList};
use crate::scene::{
    Scene, SceneItem, ScenePipeline, SceneStackingContext, SpecificSceneItem, StackingContext,
};
use crate::table::with_entry;
use crate::transform::Factor;
use crate::types::{
    DrawListGroupId, DrawListId, MAX_MATRICES_PER_BATCH, PipelineId, RenderTargetIndex,
    ScrollLayerId, StackingContextIndex,
};

verus! {

/// The child at `k` of the layer at `i` is a layer that stands behind it.
pub open spec fn child_behind(layers: Seq<LayerView>, i: int, k: int) -> bool {
    position(layer_ids(layers), layers[i].children[k]) matches Some(j) && j > i
}

/// The layers form a forest: no two have the same name, every child is a
/// layer that stands behind its parent, and no layer is a child twice.
pub open spec fn layer_tree(layers: Seq<LayerView>) -> bool {
    &&& distinct(layer_ids(layers))
    &&& forall|i: int| 0 <= i < layers.len() ==> (#[trigger] layers[i]).wf()
    &&& forall|i: int, k: int|
        0 <= i < layers.len() && 0 <= k < layers[i].children.len() ==> #[trigger] child_behind(
            layers,
            i,
            k,
        )
    &&& forall|i: int, k: int, i2: int, k2: int|
        0 <= i < layers.len() && 0 <= k < layers[i].children.len() && 0 <= i2 < layers.len() && 0
            <= k2 < layers[i2].children.len() && (i != i2 || k != k2)
            ==> #[trigger] layers[i].children[k] != #[trigger] layers[i2].children[k2]
}

/// The render targets form a forest: every child stands behind its parent
/// in the list, and no target is a child twice.
pub open spec fn target_tree(targets: Seq<RenderTargetView>) -> bool {
    &&& forall|t: int, k: int|
        0 <= t < targets.len() && 0 <= k < targets[t].children.len() ==> t
            < #[trigger] targets[t].children[k] < targets.len()
    &&& forall|t: int, k: int, t2: int, k2: int|
        0 <= t < targets.len() && 0 <= k < targets[t].children.len() && 0 <= t2 < targets.len()
            && 0 <= k2 < targets[t2].children.len() && (t != t2 || k != k2)
            ==> #[trigger] targets[t].children[k] != #[trigger] targets[t2].children[k2]
}

/// No group is larger than a batch can address.
pub open spec fn groups_fit(groups: Seq<DrawListGroupView>) -> bool {
    forall|g: int| 0 <= g < groups.len() ==> (#[trigger] groups[g]).wf()
}

/// What holds of a frame at rest.
pub open spec fn frame_sound(frame: FrameView) -> bool {
    &&& layer_tree(frame.layers)
    &&& target_tree(frame.render_targets)
    &&& frame.render_targets.len() <= frame.next_render_target_id.0
    &&& groups_fit(frame.draw_list_groups)
}

/// No render target holds a texture for its children.
pub open spec fn no_textures(targets: Seq<RenderTargetView>) -> bool {
    forall|t: int| 0 <= t < targets.len() ==> (#[trigger] targets[t]).child_texture_id is None
}

/// The groups that there are while a frame is being flattened: those of
/// the frame, and behind them the one that is being filled.
pub open spec fn all_groups(state: FlattenState) -> Seq<DrawListGroupView> {
    match state.current_group {
        Some(g) => state.frame.draw_list_groups.push(g),
        None => state.frame.draw_list_groups,
    }
}

/// The group that `id` names.
pub open spec fn group_named(groups: Seq<DrawListGroupView>, id: DrawListGroupId) -> Option<
    DrawListGroupView,
> {
    match position(group_ids(groups), id) {
        Some(g) => Some(groups[g]),
        None => None,
    }
}

/// No two groups have the same name, and every name has been given out.
pub open spec fn named_apart(groups: Seq<DrawListGroupView>, next: DrawListGroupId) -> bool {
    &&& forall|g: int| 0 <= g < groups.len() ==> (#[trigger] groups[g]).id.0 < next.0
    &&& distinct(group_ids(groups))
}

/// The node at `k` of the layer at `l` belongs to a group of that layer,
/// and its draw list is a member of that group.
pub open spec fn node_in_its_group(
    groups: Seq<DrawListGroupView>,
    layers: Seq<LayerView>,
    l: int,
    k: int,
) -> bool {
    group_named(groups, layers[l].nodes[k].draw_list_group_id) matches Some(g)
        && g.scroll_layer_id == layers[l].id && g.draw_list_ids.contains(
        layers[l].nodes[k].draw_list_id,
    )
}

/// If the item at `i` of the render target at `t` is a batch of draw lists,
/// it is the batch of a group of that render target.
pub open spec fn batch_in_its_group(
    groups: Seq<DrawListGroupView>,
    targets: Seq<RenderTargetView>,
    t: int,
    i: int,
) -> bool {
    targets[t].items[i] matches RenderItemView::DrawListBatch(id) ==> (group_named(groups, id)
        matches Some(g) && g.render_target_id == targets[t].id)
}

/// Every draw list of a group has been flattened in the scroll layer and
/// onto the render target of the group: the nodes of a scroll layer belong
/// to groups of that layer, and the batches of a render target to groups
/// of that target.
pub open spec fn groups_in_place(
    groups: Seq<DrawListGroupView>,
    next: DrawListGroupId,
    layers: Seq<LayerView>,
    targets: Seq<RenderTargetView>,
) -> bool {
    &&& named_apart(groups, next)
    &&& forall|l: int, k: int|
        0 <= l < layers.len() && 0 <= k < layers[l].nodes.len() ==> #[trigger] node_in_its_group(
            groups,
            layers,
            l,
            k,
        )
    &&& forall|t: int, i: int|
        0 <= t < targets.len() && 0 <= i < targets[t].items.len() ==> #[trigger] batch_in_its_group(
            groups,
            targets,
            t,
            i,
        )
}

/// The groups of a frame at rest are in place.
pub open spec fn frame_groups_in_place(frame: FrameView) -> bool {
    groups_in_place(
        frame.draw_list_groups,
        frame.next_draw_list_group_id,
        frame.layers,
        frame.render_targets,
    )
}

/// What holds while a frame is being flattened.
pub open spec fn sound(state: FlattenState) -> bool {
    &&& frame_sound(state.frame)
    &&& no_textures(state.frame.render_targets)
    &&& state.current_group matches Some(g) ==> g.wf()
    &&& groups_in_place(
        all_groups(state),
        state.frame.next_draw_list_group_id,
        state.frame.layers,
        state.frame.render_targets,
    )
}

/// Groups stay in place where the layers keep their names and nodes and
/// the render targets their names and batches.
proof fn lemma_groups_stay(
    groups: Seq<DrawListGroupView>,
    next: DrawListGroupId,
    layers: Seq<LayerView>,
    targets: Seq<RenderTargetView>,
    layers2: Seq<LayerView>,
    targets2: Seq<RenderTargetView>,
)
    requires
        groups_in_place(groups, next, layers, targets),
        forall|l: int|
            0 <= l < layers2.len() ==> (#[trigger] layers2[l]).nodes.len() == 0 || (l
                < layers.len() && layers2[l].id == layers[l].id && layers2[l].nodes
                == layers[l].nodes),
        forall|t: int, i: int|
            0 <= t < targets2.len() && 0 <= i < targets2[t].items.len() ==> (
            #[trigger] targets2[t].items[i]) !is DrawListBatch || (t < targets.len() && i
                < targets[t].items.len() && targets2[t].id == targets[t].id && targets2[t].items[i]
                == targets[t].items[i]),
    ensures
        groups_in_place(groups, next, layers2, targets2),
{
    assert forall|l: int, k: int|
        0 <= l < layers2.len() && 0 <= k < layers2[l].nodes.len() implies #[trigger] node_in_its_group(
        groups,
        layers2,
        l,
        k,
    ) by {
        assert(layers2[l].nodes.len() != 0);
        assert(node_in_its_group(groups, layers, l, k));
    }
    assert forall|t: int, i: int|
        0 <= t < targets2.len() && 0 <= i < targets2[t].items.len() implies #[trigger] batch_in_its_group(
        groups,
        targets2,
        t,
        i,
    ) by {
        if targets2[t].items[i] is DrawListBatch {
            assert(batch_in_its_group(groups, targets, t, i));
        }
    }
}

/// Groups stay in place when a new one joins them.
proof fn lemma_groups_joined(
    groups: Seq<DrawListGroupView>,
    next: DrawListGroupId,
    layers: Seq<LayerView>,
    targets: Seq<RenderTargetView>,
    new: DrawListGroupView,
)
    requires
        groups_in_place(groups, next, layers, targets),
        new.id == next,
        next.0 < u32::MAX,
    ensures
        groups_in_place(groups.push(new), DrawListGroupId((next.0 + 1) as u32), layers, targets),
        group_named(groups.push(new), new.id) == Some(new),
{
    let ids = group_ids(groups);
    let after = groups.push(new);
    assert(group_ids(after) =~= ids.push(new.id));
    assert forall|g: int| 0 <= g < after.len() implies (#[trigger] after[g]).id.0 < next.0 + 1 by {
        if g < groups.len() {
            assert(groups[g].id.0 < next.0);
        }
    }
    assert forall|a: int, b: int| 0 <= a < b < after.len() implies group_ids(after)[a]
        != group_ids(after)[b] by {
        if b < groups.len() {
            assert(ids[a] != ids[b]);
        } else {
            assert(groups[a].id.0 < next.0);
        }
    }
    lemma_position(ids, new.id);
    assert(position(ids, new.id) is None) by {
        if position(ids, new.id) is Some {
            let g = position(ids, new.id)->0;
            assert(groups[g].id.0 < next.0);
        }
    }
    lemma_position_push(ids, new.id, new.id);
    assert forall|l: int, k: int|
        0 <= l < layers.len() && 0 <= k < layers[l].nodes.len() implies #[trigger] node_in_its_group(
        after,
        layers,
        l,
        k,
    ) by {
        assert(node_in_its_group(groups, layers, l, k));
        let id = layers[l].nodes[k].draw_list_group_id;
        lemma_position(ids, id);
        lemma_position_push(ids, new.id, id);
    }
    assert forall|t: int, i: int|
        0 <= t < targets.len() && 0 <= i < targets[t].items.len() implies #[trigger] batch_in_its_group(
        after,
        targets,
        t,
        i,
    ) by {
        assert(batch_in_its_group(groups, targets, t, i));
        if targets[t].items[i] is DrawListBatch {
            let id = targets[t].items[i]->DrawListBatch_0;
            lemma_position(ids, id);
            lemma_position_push(ids, new.id, id);
        }
    }
}

/// Groups stay in place when the last of them takes a member in.
proof fn lemma_groups_member_added(
    groups: Seq<DrawListGroupView>,
    next: DrawListGroupId,
    layers: Seq<LayerView>,
    targets: Seq<RenderTargetView>,
    id: DrawListId,
)
    requires
        groups_in_place(groups, next, layers, targets),
        groups.len() > 0,
    ensures
        groups_in_place(
            groups.update(groups.len() - 1, groups.last().with(id)),
            next,
            layers,
            targets,
        ),
        group_named(
            groups.update(groups.len() - 1, groups.last().with(id)),
            groups.last().id,
        ) == Some(groups.last().with(id)),
{
    let ids = group_ids(groups);
    let last = groups.len() - 1;
    let after = groups.update(last, groups.last().with(id));
    assert(group_ids(after) =~= ids);
    assert forall|g: int| 0 <= g < after.len() implies (#[trigger] after[g]).id.0 < next.0 by {
        assert(groups[g].id.0 < next.0);
    }
    lemma_position_of_distinct(ids, last);
    assert forall|l: int, k: int|
        0 <= l < layers.len() && 0 <= k < layers[l].nodes.len() implies #[trigger] node_in_its_group(
        after,
        layers,
        l,
        k,
    ) by {
        assert(node_in_its_group(groups, layers, l, k));
        let gid = layers[l].nodes[k].draw_list_group_id;
        lemma_position(ids, gid);
        let g = position(ids, gid)->0;
        if g == last {
            let members = groups[g].draw_list_ids;
            let x = layers[l].nodes[k].draw_list_id;
            let w = choose|w: int| 0 <= w < members.len() && members[w] == x;
            assert(members.push(id)[w] == x);
        }
    }
    assert forall|t: int, i: int|
        0 <= t < targets.len() && 0 <= i < targets[t].items.len() implies #[trigger] batch_in_its_group(
        after,
        targets,
        t,
        i,
    ) by {
        assert(batch_in_its_group(groups, targets, t, i));
        if targets[t].items[i] is DrawListBatch {
            lemma_position(ids, targets[t].items[i]->DrawListBatch_0);
        }
    }
}

/// A batch of draw lists among the items after composites have been added
/// was among the items before, at the same place.
proof fn lemma_composites_keep_batches(
    items: Seq<RenderItemView>,
    ops: Seq<CompositionOp>,
    n: int,
    job: CompositeBatchJob,
    i: int,
)
    requires
        0 <= i < with_composites(items, ops, n, job).len(),
        with_composites(items, ops, n, job)[i] is DrawListBatch,
    ensures
        i < items.len(),
        with_composites(items, ops, n, job)[i] == items[i],
    decreases n,
{
    if n > 0 {
        let before = with_composites(items, ops, n - 1, job);
        lemma_composite_touches_only_the_end(before, ops[n - 1], job);
        let after = with_composite(before, ops[n - 1], job);
        assert(i < after.len() - 1) by {
            assert(after.last() is CompositeBatch);
        }
        assert(after[i] == before[i]) by {
            if after.len() == before.len() {
                assert(after =~= before.drop_last().push(after.last()));
            } else {
                assert(after =~= before.push(after.last()));
            }
        }
        lemma_composites_keep_batches(items, ops, n - 1, job, i);
    }
}

/// Layers whose names, children and lengths are those of a forest form a
/// forest.
proof fn lemma_same_shape_same_tree(a: Seq<LayerView>, b: Seq<LayerView>)
    requires
        layer_tree(a),
        a.len() == b.len(),
        forall|i: int|
            0 <= i < a.len() ==> (#[trigger] b[i]).id == a[i].id && b[i].children == a[i].children
                && b[i].wf(),
    ensures
        layer_tree(b),
{
    assert(layer_ids(a) =~= layer_ids(b));
    assert forall|i: int, k: int|
        0 <= i < b.len() && 0 <= k < b[i].children.len() implies #[trigger] child_behind(
        b,
        i,
        k,
    ) by {
        assert(child_behind(a, i, k));
    }
}

proof fn lemma_scroll_layer_sound(
    state: FlattenState,
    id: ScrollLayerId,
    parent: FlattenInfoView,
    size: Size,
    transform: Seq<Factor>,
)
    requires
        sound(state),
    ensures
        state.with_scroll_layer(id, parent, size, transform) matches Ok(s) ==> sound(s)
            && s.frame.render_targets == state.frame.render_targets,
{
    let layers = state.frame.layers;
    let ids = layer_ids(layers);
    let n = layers.len() as int;
    let fresh = LayerView::fresh(
        id,
        parent.offset_from_origin,
        size,
        parent.viewport_size,
        transform,
    );
    lemma_position(ids, id);
    lemma_position(ids, parent.actual_scroll_layer_id);
    if position(ids, id) is None {
        let with_child = if parent.actual_scroll_layer_id == id {
            layers
        } else {
            match position(ids, parent.actual_scroll_layer_id) {
                Some(p) => layers.update(p, layers[p].with_child(id)),
                None => layers,
            }
        };
        let after = with_child.push(fresh);
        if parent.actual_scroll_layer_id == id || position(ids, parent.actual_scroll_layer_id)
            is Some {
            let s = state.with_scroll_layer(id, parent, size, transform)->Ok_0;
            assert(s.frame.layers == after);
            assert(layer_ids(after) =~= ids.push(id));
            assert(fresh.wf());
            assert forall|i: int, k: int|
                0 <= i < after.len() && 0 <= k < after[i].children.len() implies #[trigger] child_behind(
                after,
                i,
                k,
            ) by {
                let c = after[i].children[k];
                lemma_position_push(ids, id, c);
                if k < layers[i].children.len() {
                    assert(child_behind(layers, i, k));
                    assert(c == layers[i].children[k]);
                } else {
                    assert(c == id);
                }
            }
            assert forall|i: int, k: int, i2: int, k2: int|
                0 <= i < after.len() && 0 <= k < after[i].children.len() && 0 <= i2 < after.len()
                    && 0 <= k2 < after[i2].children.len() && (i != i2 || k != k2) implies #[trigger] after[i].children[k]
                != #[trigger] after[i2].children[k2] by {
                let old1 = k < layers[i].children.len();
                let old2 = k2 < layers[i2].children.len();
                if old1 {
                    assert(child_behind(layers, i, k));
                    lemma_position(ids, layers[i].children[k]);
                    assert(after[i].children[k] == layers[i].children[k]);
                } else {
                    assert(after[i].children[k] == id);
                }
                if old2 {
                    assert(child_behind(layers, i2, k2));
                    lemma_position(ids, layers[i2].children[k2]);
                    assert(after[i2].children[k2] == layers[i2].children[k2]);
                } else {
                    assert(after[i2].children[k2] == id);
                }
                if old1 && old2 {
                    assert(layers[i].children[k] != layers[i2].children[k2]);
                }
            }
            assert forall|i: int| 0 <= i < after.len() implies (#[trigger] after[i]).wf() by {
                if i < n {
                    assert(layers[i].wf());
                }
            }
            assert(all_groups(s) == all_groups(state));
            assert forall|l: int| 0 <= l < after.len() implies (#[trigger] after[l]).nodes.len()
                == 0 || (l < layers.len() && after[l].id == layers[l].id && after[l].nodes
                == layers[l].nodes) by {}
            lemma_groups_stay(
                all_groups(state),
                state.frame.next_draw_list_group_id,
                layers,
                state.frame.render_targets,
                after,
                state.frame.render_targets,
            );
        }
    }
}

proof fn lemma_group_sound(state: FlattenState, scroll_layer_id: ScrollLayerId, target: int)
    requires
        sound(state),
        0 <= target < state.frame.render_targets.len(),
    ensures
        state.with_group_for(scroll_layer_id, target) matches Ok(s) ==> {
            &&& sound(s)
            &&& s.frame.render_targets.len() == state.frame.render_targets.len()
            &&& s.frame.layers == state.frame.layers
            &&& s.current_group matches Some(g) && g.draw_list_ids.len()
                < MAX_MATRICES_PER_BATCH && g.scroll_layer_id == scroll_layer_id
                && g.render_target_id == state.frame.render_targets[target].id
            &&& all_groups(s).len() > 0 && all_groups(s).last() == s.current_group->0
        },
{
    match state.with_group_for(scroll_layer_id, target) {
        Err(_) => {},
        Ok(s) => {
            let targets = state.frame.render_targets;
            let after = s.frame.render_targets;
            if s != state {
                let id = state.frame.next_draw_list_group_id;
                let new = DrawListGroupView::empty(id, scroll_layer_id, targets[target].id);
                assert(s.current_group == Some(new));
                assert(all_groups(s) == all_groups(state).push(new));
                lemma_groups_joined(all_groups(state), id, state.frame.layers, targets, new);
                assert forall|t: int, k: int|
                    0 <= t < after.len() && 0 <= k < after[t].children.len() implies t
                    < #[trigger] after[t].children[k] < after.len() by {
                    assert(after[t].children[k] == targets[t].children[k]);
                }
                assert forall|t: int, k: int, t2: int, k2: int|
                    0 <= t < after.len() && 0 <= k < after[t].children.len() && 0 <= t2
                        < after.len() && 0 <= k2 < after[t2].children.len() && (t != t2 || k
                        != k2) implies #[trigger] after[t].children[k]
                    != #[trigger] after[t2].children[k2] by {
                    assert(after[t].children[k] == targets[t].children[k]);
                    assert(after[t2].children[k2] == targets[t2].children[k2]);
                }
                assert forall|g: int| 0 <= g < s.frame.draw_list_groups.len() implies (
                #[trigger] s.frame.draw_list_groups[g]).wf() by {
                    if g < state.frame.draw_list_groups.len() {
                        assert(state.frame.draw_list_groups[g].wf());
                    }
                }
                assert forall|t: int| 0 <= t < after.len() implies (
                #[trigger] after[t]).child_texture_id is None by {
                    assert(targets[t].child_texture_id is None);
                }
                let groups = all_groups(s);
                let next = s.frame.next_draw_list_group_id;
                assert forall|t: int, i: int|
                    0 <= t < after.len() && 0 <= i < after[t].items.len() implies #[trigger] batch_in_its_group(
                    groups,
                    after,
                    t,
                    i,
                ) by {
                    if t == target && i == targets[t].items.len() {
                        assert(after[t].items[i] == RenderItemView::DrawListBatch(id));
                    } else {
                        assert(after[t].items[i] == targets[t].items[i]);
                        assert(batch_in_its_group(groups, targets, t, i));
                    }
                }
            }
        },
    }
}

proof fn lemma_draw_list_sound(
    state: FlattenState,
    id: DrawListId,
    info: FlattenInfoView,
    target: int,
    context_index: int,
)
    requires
        sound(state),
        0 <= target < state.frame.render_targets.len(),
    ensures
        state.with_draw_list(id, info, target, context_index) matches Ok(s) ==> sound(s)
            && s.frame.render_targets.len() == state.frame.render_targets.len(),
{
    match state.with_draw_list(id, info, target, context_index) {
        Err(_) => {},
        Ok(s) => {
            let d = draw_list_at(state.draw_lists, id)->0;
            let tagged = DrawList {
                stacking_context_index: Some(
                    StackingContextIndex(context_index as usize),
                ),
                ..state.draw_lists[d]
            };
            let s1 = FlattenState { draw_lists: state.draw_lists.update(d, tagged), ..state };
            assert(all_groups(s1) == all_groups(state));
            lemma_group_sound(s1, info.actual_scroll_layer_id, target);
            let s2 = s1.with_group_for(info.actual_scroll_layer_id, target)->Ok_0;
            let group = s2.current_group->0.with(id);
            let s3 = FlattenState { current_group: Some(group), ..s2 };
            let l = position(layer_ids(s2.frame.layers), info.actual_scroll_layer_id)->0;
            lemma_position(layer_ids(s2.frame.layers), info.actual_scroll_layer_id);
            assert forall|i: int| 0 <= i < s2.frame.layers.len() implies (#[trigger] s.frame.layers[i]).id
                == s2.frame.layers[i].id && s.frame.layers[i].children
                == s2.frame.layers[i].children && s.frame.layers[i].wf() by {
                assert(s2.frame.layers[i].wf());
            }
            lemma_same_shape_same_tree(s2.frame.layers, s.frame.layers);
            let before = all_groups(s2);
            let groups = all_groups(s);
            let next = s2.frame.next_draw_list_group_id;
            assert(groups =~= before.update(before.len() - 1, before.last().with(id)));
            lemma_groups_member_added(
                before,
                next,
                s2.frame.layers,
                s2.frame.render_targets,
                id,
            );
            let layers = s2.frame.layers;
            let after = s.frame.layers;
            assert forall|a: int, k: int|
                0 <= a < after.len() && 0 <= k < after[a].nodes.len() implies #[trigger] node_in_its_group(
                groups,
                after,
                a,
                k,
            ) by {
                if a == l && k >= layers[l].nodes.len() {
                    assert(after[a].nodes[k].draw_list_group_id == group.id);
                    assert(after[a].nodes[k].draw_list_id == id);
                    assert(group.draw_list_ids.last() == id);
                    assert(layer_ids(layers)[l] == info.actual_scroll_layer_id);
                } else {
                    assert(after[a].nodes[k] == layers[a].nodes[k]);
                    assert(node_in_its_group(groups, layers, a, k));
                }
            }
        },
    }
}

proof fn lemma_item_sound(state: FlattenState, target: int, item: RenderItemView)
    requires
        sound(state),
        0 <= target < state.frame.render_targets.len(),
        item is Clear,
    ensures
        sound(state.with_item(target, item)),
        state.with_item(target, item).frame.render_targets.len()
            == state.frame.render_targets.len(),
{
    let targets = state.frame.render_targets;
    let after = state.with_item(target, item).frame.render_targets;
    assert forall|t: int, k: int|
        0 <= t < after.len() && 0 <= k < after[t].children.len() implies t
        < #[trigger] after[t].children[k] < after.len() by {
        assert(after[t].children[k] == targets[t].children[k]);
    }
    assert forall|t: int, k: int, t2: int, k2: int|
        0 <= t < after.len() && 0 <= k < after[t].children.len() && 0 <= t2 < after.len() && 0
            <= k2 < after[t2].children.len() && (t != t2 || k != k2) implies #[trigger] after[t].children[k]
        != #[trigger] after[t2].children[k2] by {
        assert(after[t].children[k] == targets[t].children[k]);
        assert(after[t2].children[k2] == targets[t2].children[k2]);
    }
    assert forall|t: int| 0 <= t < after.len() implies (#[trigger] after[t]).child_texture_id
        is None by {
        assert(targets[t].child_texture_id is None);
    }
    assert(all_groups(state.with_item(target, item)) == all_groups(state));
    assert forall|t: int, i: int|
        0 <= t < after.len() && 0 <= i < after[t].items.len() implies (
    #[trigger] after[t].items[i]) !is DrawListBatch || (t < targets.len() && i
        < targets[t].items.len() && after[t].id == targets[t].id && after[t].items[i]
        == targets[t].items[i]) by {}
    lemma_groups_stay(
        all_groups(state),
        state.frame.next_draw_list_group_id,
        state.frame.layers,
        targets,
        state.frame.layers,
        after,
    );
}

proof fn lemma_offscreen_target_sound(
    state: FlattenState,
    target: int,
    ops: Seq<CompositionOp>,
    rect: Rect,
)
    requires
        sound(state),
        0 <= target < state.frame.render_targets.len(),
    ensures
        state.with_offscreen_target(target, ops, rect) matches Ok(s) ==> sound(s)
            && s.frame.render_targets.len() == state.frame.render_targets.len() + 1,
{
    match state.with_offscreen_target(target, ops, rect) {
        Err(_) => {},
        Ok(s) => {
            let targets = state.frame.render_targets;
            let after = s.frame.render_targets;
            let n = targets.len() as int;
            assert(after.len() == n + 1);
            assert(after[n].children.len() == 0);
            assert forall|t: int| 0 <= t < after.len() implies (#[trigger] after[t]).child_texture_id
                is None by {
                if t < n {
                    assert(targets[t].child_texture_id is None);
                }
            }
            assert(after[target].children == targets[target].children.push(n as usize));
            assert forall|t: int| 0 <= t < n && t != target implies (#[trigger] after[t]).children
                == targets[t].children by {}
            assert forall|t: int, k: int|
                0 <= t < after.len() && 0 <= k < after[t].children.len() implies t
                < #[trigger] after[t].children[k] < after.len() by {
                if t < n && k < targets[t].children.len() {
                    assert(after[t].children[k] == targets[t].children[k]);
                    assert(targets[t].children[k] < n);
                } else {
                    assert(t == target);
                    assert(after[t].children[k] == n);
                }
            }
            assert forall|t: int, k: int, t2: int, k2: int|
                0 <= t < after.len() && 0 <= k < after[t].children.len() && 0 <= t2 < after.len()
                    && 0 <= k2 < after[t2].children.len() && (t != t2 || k != k2) implies #[trigger] after[t].children[k]
                != #[trigger] after[t2].children[k2] by {
                if t < n && k < targets[t].children.len() {
                    assert(after[t].children[k] == targets[t].children[k]);
                    assert(targets[t].children[k] < n);
                } else {
                    assert(t == target);
                    assert(after[t].children[k] == n);
                }
                if t2 < n && k2 < targets[t2].children.len() {
                    assert(after[t2].children[k2] == targets[t2].children[k2]);
                    assert(targets[t2].children[k2] < n);
                } else {
                    assert(t2 == target);
                    assert(after[t2].children[k2] == n);
                }
            }
            assert(all_groups(s) == all_groups(state));
            let job = CompositeBatchJob {
                rect,
                render_target_index: RenderTargetIndex(
                    targets[target].children.len() as usize,
                ),
            };
            assert forall|t: int, i: int|
                0 <= t < after.len() && 0 <= i < after[t].items.len() implies (
            #[trigger] after[t].items[i]) !is DrawListBatch || (t < targets.len() && i
                < targets[t].items.len() && after[t].id == targets[t].id && after[t].items[i]
                == targets[t].items[i]) by {
                if t == target {
                    if after[t].items[i] is DrawListBatch {
                        lemma_composites_keep_batches(
                            targets[target].items,
                            ops,
                            ops.len() as int,
                            job,
                            i,
                        );
                    }
                } else if t < n {
                    assert(after[t] == targets[t]);
                }
            }
            lemma_groups_stay(
                all_groups(state),
                state.frame.next_draw_list_group_id,
                state.frame.layers,
                targets,
                state.frame.layers,
                after,
            );
        },
    }
}

/// Flattening keeps a sound state sound, and never drops a render target.
pub proof fn lemma_flattened_sound(
    scene: &Scene,
    state: FlattenState,
    kind: SceneItemKind,
    parent: FlattenInfoView,
    target: int,
    level: nat,
)
    requires
        sound(state),
        0 <= target < state.frame.render_targets.len(),
    ensures
        flattened(scene, state, kind, parent, target, level) matches Ok(s) ==> sound(s)
            && s.frame.render_targets.len() >= state.frame.render_targets.len(),
    decreases MAX_NESTING - level, 4int, 0int,
{
    if level < MAX_NESTING {
        let entered = match kind {
            SceneItemKind::StackingContext(_) => state,
            SceneItemKind::Pipeline(p) => state.with_epoch(p.pipeline_id, p.epoch),
        };
        match kind.context(scene) {
            None => {},
            Some(c) => match local_clip(parent, &c.stacking_context) {
                None => {},
                Some(local_clip_rect) => match kind.scene_items(scene) {
                    Err(_) => {},
                    Ok(items) => if items.len() > 0 {
                        lemma_context_flattened_sound(
                            scene,
                            entered,
                            &c.stacking_context,
                            items,
                            parent,
                            local_clip_rect,
                            target,
                            level,
                        );
                    },
                },
            },
        }
    }
}

proof fn lemma_context_flattened_sound(
    scene: &Scene,
    state: FlattenState,
    context: &StackingContext,
    items: Seq<SceneItem>,
    parent: FlattenInfoView,
    local_clip_rect: Rect,
    target: int,
    level: nat,
)
    requires
        sound(state),
        0 <= target < state.frame.render_targets.len(),
    ensures
        context_flattened(scene, state, context, items, parent, local_clip_rect, target, level)
            matches Ok(s) ==> sound(s) && s.frame.render_targets.len()
            >= state.frame.render_targets.len(),
    decreases MAX_NESTING - level, 3int, 0int,
{
    let handed = handed_down(parent, context, local_clip_rect);
    match scroll_policy_applied(state, context, parent, handed) {
        Err(_) => {},
        Ok((s1, info)) => {
            if context.scroll_layer_id is Some {
                lemma_scroll_layer_sound(
                    state,
                    context.scroll_layer_id->0,
                    parent,
                    context.overflow.size,
                    handed.transform,
                );
            }
            let clear = RenderItemView::Clear(depth_clear());
            lemma_item_sound(s1, target, clear);
            let s2 = if context.establishes_3d_context && context.has_stacking_contexts {
                s1.with_item(target, clear)
            } else {
                s1
            };
            lemma_contents_added_sound(
                scene,
                s2,
                composition_ops(context.mix_blend_mode, context.filters@),
                items,
                info,
                local_clip_rect.size,
                target,
                level,
            );
        },
    }
}

proof fn lemma_contents_added_sound(
    scene: &Scene,
    state: FlattenState,
    ops: Seq<CompositionOp>,
    items: Seq<SceneItem>,
    info: FlattenInfoView,
    size: Size,
    target: int,
    level: nat,
)
    requires
        sound(state),
        0 <= target < state.frame.render_targets.len(),
    ensures
        contents_added(scene, state, ops, items, info, size, target, level) matches Ok(s)
            ==> sound(s) && s.frame.render_targets.len() >= state.frame.render_targets.len(),
    decreases MAX_NESTING - level, 2int, 0int,
{
    if ops.len() == 0 {
        lemma_items_added_sound(scene, state, items, info, target, level);
    } else {
        let rect = target_of_all(
            ops,
            Rect { origin: info.offset_from_origin, size },
        );
        lemma_offscreen_target_sound(state, target, ops, rect);
        match state.with_offscreen_target(target, ops, rect) {
            Err(_) => {},
            Ok(s3) => {
                lemma_items_added_sound(
                    scene,
                    s3,
                    items,
                    FlattenInfoView { offset_from_current_layer: Point { x: 0, y: 0 }, ..info },
                    state.frame.render_targets.len() as int,
                    level,
                );
            },
        }
    }
}

proof fn lemma_items_added_sound(
    scene: &Scene,
    state: FlattenState,
    items: Seq<SceneItem>,
    info: FlattenInfoView,
    target: int,
    level: nat,
)
    requires
        sound(state),
        0 <= target < state.frame.render_targets.len(),
    ensures
        items_added(scene, state, items, info, target, level) matches Ok(s) ==> sound(s)
            && s.frame.render_targets.len() >= state.frame.render_targets.len(),
    decreases MAX_NESTING - level, 1int, items.len() + 1,
{
    let recorded = state.with_frame(
        FrameView {
            stacking_context_info: state.frame.stacking_context_info.push(info.record()),
            ..state.frame
        },
    );
    lemma_items_added_upto_sound(
        scene,
        recorded,
        items,
        items.len() as int,
        info,
        target,
        level,
        state.frame.stacking_context_info.len() as int,
    );
}

proof fn lemma_items_added_upto_sound(
    scene: &Scene,
    state: FlattenState,
    items: Seq<SceneItem>,
    n: int,
    info: FlattenInfoView,
    target: int,
    level: nat,
    context_index: int,
)
    requires
        sound(state),
        0 <= target < state.frame.render_targets.len(),
    ensures
        items_added_upto(scene, state, items, n, info, target, level, context_index) matches Ok(s)
            ==> sound(s) && s.frame.render_targets.len() >= state.frame.render_targets.len(),
    decreases MAX_NESTING - level, 1int, n,
{
    if 0 < n <= items.len() {
        lemma_items_added_upto_sound(
            scene,
            state,
            items,
            n - 1,
            info,
            target,
            level,
            context_index,
        );
        match items_added_upto(scene, state, items, n - 1, info, target, level, context_index) {
            Err(_) => {},
            Ok(s) => {
                lemma_item_added_sound(scene, s, items[n - 1], info, target, level, context_index);
            },
        }
    }
}

proof fn lemma_item_added_sound(
    scene: &Scene,
    state: FlattenState,
    item: SceneItem,
    info: FlattenInfoView,
    target: int,
    level: nat,
    context_index: int,
)
    requires
        sound(state),
        0 <= target < state.frame.render_targets.len(),
    ensures
        item_added(scene, state, item, info, target, level, context_index) matches Ok(s) ==> sound(
            s,
        ) && s.frame.render_targets.len() >= state.frame.render_targets.len(),
    decreases MAX_NESTING - level, 0int, 0int,
{
    if level < MAX_NESTING {
        match item.specific {
            SpecificSceneItem::DrawList(id) => {
                lemma_draw_list_sound(state, id, info, target, context_index);
            },
            SpecificSceneItem::StackingContext(id) => match scene.stacking_context(id) {
                None => {},
                Some(c) => {
                    lemma_flattened_sound(
                        scene,
                        state,
                        SceneItemKind::StackingContext(&c),
                        info,
                        target,
                        level + 1,
                    );
                },
            },
            SpecificSceneItem::Iframe(iframe) => {
                let sized = FlattenState {
                    pipeline_sizes: with_entry(
                        state.pipeline_sizes,
                        iframe.id,
                        iframe.bounds.size,
                    ),
                    ..state
                };
                match scene.pipeline(iframe.id) {
                    None => {},
                    Some(p) => {
                        lemma_flattened_sound(
                            scene,
                            sized,
                            SceneItemKind::Pipeline(&p),
                            in_iframe(info, iframe),
                            target,
                            level + 1,
                        );
                    },
                }
            },
        }
    }
}

/// A frame that has been built from a scene is sound.
pub proof fn lemma_created_frame_is_sound(
    scene: &Scene,
    frame: FrameView,
    draw_lists: Seq<DrawList>,
    pipeline_sizes: Seq<(PipelineId, Size)>,
    viewport_size: Size,
)
    ensures
        creation(scene, frame, draw_lists, pipeline_sizes, viewport_size) matches Ok(s)
            ==> frame_sound(s.frame) && no_textures(s.frame.render_targets)
            && frame_groups_in_place(s.frame),
{
    match root_of(scene) {
        Err(_) => {},
        Ok((pipeline, context, root)) => if frame.next_render_target_id.0 != u32::MAX {
            let begun = FlattenState {
                frame: started(frame, root, context, viewport_size),
                draw_lists,
                pipeline_sizes,
                current_group: None,
            };
            let layers = begun.frame.layers;
            assert(layers[0].wf());
            assert(layers[0].children.len() == 0);
            assert(layer_tree(layers));
            assert(begun.frame.render_targets[0].children.len() == 0);
            assert(target_tree(begun.frame.render_targets));
            assert(begun.frame.render_targets[0].items.len() == 0);
            assert(layers[0].nodes.len() == 0);
            assert(group_ids(all_groups(begun)) =~= Seq::<DrawListGroupId>::empty());
            let info = root_info(viewport_size, root);
            lemma_flattened_sound(scene, begun, SceneItemKind::Pipeline(&pipeline), info, 0, 0);
            match flattened(scene, begun, SceneItemKind::Pipeline(&pipeline), info, 0, 0) {
                Err(_) => {},
                Ok(s) => {
                    let done = flushed(s);
                    assert forall|g: int| 0 <= g < done.frame.draw_list_groups.len() implies (
                    #[trigger] done.frame.draw_list_groups[g]).wf() by {
                        if g < s.frame.draw_list_groups.len() {
                            assert(s.frame.draw_list_groups[g].wf());
                        }
                    }
                    let offsets = offsets_of(frame.layers);
                    let last = finalized(done.frame.layers, offsets);
                    assert forall|i: int| 0 <= i < done.frame.layers.len() implies (#[trigger] last[i]).id
                        == done.frame.layers[i].id && last[i].children
                        == done.frame.layers[i].children && last[i].wf() by {
                        assert(done.frame.layers[i].wf());
                    }
                    lemma_same_shape_same_tree(done.frame.layers, last);
                    assert(done.frame.draw_list_groups == all_groups(s));
                    assert forall|l: int| 0 <= l < last.len() implies (#[trigger] last[l]).nodes.len()
                        == 0 || (l < s.frame.layers.len() && last[l].id == s.frame.layers[l].id
                        && last[l].nodes == s.frame.layers[l].nodes) by {}
                    lemma_groups_stay(
                        all_groups(s),
                        s.frame.next_draw_list_group_id,
                        s.frame.layers,
                        s.frame.render_targets,
                        last,
                        s.frame.render_targets,
                    );
                },
            }
        },
    }
}

/// A stacking context none of which survives the clip of its parent
/// leaves no trace, whatever it holds: the state stays as it is.
pub proof fn lemma_clipped_away_leaves_no_trace(
    scene: &Scene,
    state: FlattenState,
    context: &SceneStackingContext,
    parent: FlattenInfoView,
    target: int,
    level: nat,
)
    requires
        level < MAX_NESTING,
        0 <= target < state.frame.render_targets.len(),
        local_clip(parent, &context.stacking_context) is None,
    ensures
        flattened(scene, state, SceneItemKind::StackingContext(context), parent, target, level)
            == Ok::<_, FrameError>(state),
{
}

/// A pipeline whose root stacking context does not survive the clip leaves
/// nothing but its epoch.
pub proof fn lemma_clipped_away_pipeline_leaves_its_epoch(
    scene: &Scene,
    state: FlattenState,
    pipeline: &ScenePipeline,
    parent: FlattenInfoView,
    target: int,
    level: nat,
)
    requires
        level < MAX_NESTING,
        0 <= target < state.frame.render_targets.len(),
        scene.stacking_context(pipeline.root_stacking_context_id) matches Some(c) && local_clip(
            parent,
            &c.stacking_context,
        ) is None,
    ensures
        flattened(scene, state, SceneItemKind::Pipeline(pipeline), parent, target, level) == Ok::<
            _,
            FrameError,
        >(state.with_epoch(pipeline.pipeline_id, pipeline.epoch)),
{
}

/// A draw list joins a group of its own scroll layer and render target,
/// the group has room for it, and its items become nodes of that group in
/// that scroll layer.
pub proof fn lemma_draw_list_joins_its_group(
    state: FlattenState,
    id: DrawListId,
    info: FlattenInfoView,
    target: int,
    context_index: int,
)
    requires
        sound(state),
        0 <= target < state.frame.render_targets.len(),
    ensures
        state.with_draw_list(id, info, target, context_index) matches Ok(s) ==> {
            &&& s.current_group matches Some(g)
            &&& g.wf()
            &&& g.scroll_layer_id == info.actual_scroll_layer_id
            &&& g.render_target_id == state.frame.render_targets[target].id
            &&& g.draw_list_ids.len() > 0
            &&& g.draw_list_ids.last() == id
            &&& position(layer_ids(s.frame.layers), info.actual_scroll_layer_id) matches Some(l)
            &&& l < state.frame.layers.len() == s.frame.layers.len()
            &&& forall|k: int|
                state.frame.layers[l].nodes.len() <= k < s.frame.layers[l].nodes.len() ==> (
                #[trigger] s.frame.layers[l].nodes[k]).draw_list_group_id == g.id
                    && s.frame.layers[l].nodes[k].draw_list_id == id
        },
{
    match state.with_draw_list(id, info, target, context_index) {
        Err(_) => {},
        Ok(s) => {
            let d = draw_list_at(state.draw_lists, id)->0;
            let tagged = DrawList {
                stacking_context_index: Some(
                    StackingContextIndex(context_index as usize),
                ),
                ..state.draw_lists[d]
            };
            let s1 = FlattenState { draw_lists: state.draw_lists.update(d, tagged), ..state };
            lemma_group_sound(s1, info.actual_scroll_layer_id, target);
            let s2 = s1.with_group_for(info.actual_scroll_layer_id, target)->Ok_0;
            lemma_position(layer_ids(s2.frame.layers), info.actual_scroll_layer_id);
            assert(layer_ids(s.frame.layers) =~= layer_ids(s2.frame.layers));
        },
    }
}

} // verus!
