//! Scrolling, and finding the layer under the cursor.
//!
//! Whether the cursor is over a layer is for the embedder to say: the frame
//! lists the layers in the order in which they are to be tried, each with
//! the transform to see it through, and picks the first for which the
//! embedder says yes.

use vstd::prelude::*;
use crate::create::{creation, offset_keys};
use crate::frame::{Frame, FrameView, layer_ids};
use crate::geometry::{Point, Rect, Size};
use crate::layer::{LayerView, lemma_scroll_by_nothing, lemma_scroll_stays_in_range};
use crate::lookup::{lemma_position, lemma_position_absent, lemma_position_found, position};
use crate::reset::offsets_of;
use crate::resource_cache::DrawList;
use crate::scene::Scene;
use crate::soundness::{child_behind, frame_sound};
use crate::transform::{Factor, identity, product, Transform};
use crate::types::{PipelineId, ScrollLayerId};
use crate::views::{group_views, views};

verus! {

broadcast use group_views;

/// A layer that the cursor may be over.
#[derive(Debug, PartialEq, Eq)]
pub struct HitCandidate {
    pub layer_id: ScrollLayerId,
    /// The transform from the layer to the screen.
    pub transform: Transform,
    /// The viewport of the layer, in the coordinates of the layer.
    pub rect: Rect,
}

/// A hit candidate, as plain values.
pub struct HitCandidateView {
    pub layer_id: ScrollLayerId,
    pub transform: Seq<Factor>,
    pub rect: Rect,
}

impl View for HitCandidate {
    type V = HitCandidateView;

    open spec fn view(&self) -> HitCandidateView {
        HitCandidateView { layer_id: self.layer_id, transform: self.transform@, rect: self.rect }
    }
}

/// The layers to try for the layer at `i` and what is below it: those
/// below it first, child by child, and then the layer itself, unless it is
/// the layer of content that does not scroll.
pub open spec fn candidates(layers: Seq<LayerView>, i: int, parent: Seq<Factor>) -> Seq<
    HitCandidateView,
>
    decreases layers.len() - i, 1int, 0int,
{
    if i < 0 || i >= layers.len() {
        Seq::empty()
    } else {
        let transform = product(parent, layers[i].local_transform);
        let below = child_candidates(layers, i, layers[i].children.len() as int, transform);
        if layers[i].id == ScrollLayerId::Fixed {
            below
        } else {
            below.push(
                HitCandidateView {
                    layer_id: layers[i].id,
                    transform,
                    rect: Rect { origin: layers[i].world_origin, size: layers[i].viewport_size },
                },
            )
        }
    }
}

/// The layers to try below the first `n` children of the layer at `i`.
pub open spec fn child_candidates(
    layers: Seq<LayerView>,
    i: int,
    n: int,
    transform: Seq<Factor>,
) -> Seq<HitCandidateView>
    decreases layers.len() - i, 0int, n,
{
    if n <= 0 || i < 0 || i >= layers.len() || n > layers[i].children.len() {
        Seq::empty()
    } else {
        let before = child_candidates(layers, i, n - 1, transform);
        match position(layer_ids(layers), layers[i].children[n - 1]) {
            Some(j) => if i < j < layers.len() {
                before + candidates(layers, j, transform)
            } else {
                before
            },
            None => before,
        }
    }
}

/// The layers to try from the layer that `id` names.
pub open spec fn candidates_from(layers: Seq<LayerView>, id: ScrollLayerId, parent: Seq<Factor>) -> Seq<
    HitCandidateView,
> {
    match position(layer_ids(layers), id) {
        Some(i) => candidates(layers, i, parent),
        None => Seq::empty(),
    }
}

/// The first candidate that was hit.
pub open spec fn picked(candidates: Seq<HitCandidateView>, hits: Seq<bool>) -> Option<
    ScrollLayerId,
> {
    match position(hits, true) {
        Some(k) => if k < candidates.len() {
            Some(candidates[k].layer_id)
        } else {
            None
        },
        None => None,
    }
}

/// The frame after a scroll by `delta` of the layer that was hit.
pub open spec fn scrolled_frame(frame: FrameView, delta: Point, hits: Seq<bool>) -> FrameView {
    match frame.root_scroll_layer_id {
        None => frame,
        Some(root) => match picked(candidates_from(frame.layers, root, identity()), hits) {
            None => frame,
            Some(id) => match position(layer_ids(frame.layers), id) {
                None => frame,
                Some(i) => FrameView {
                    layers: frame.layers.update(i, frame.layers[i].after_scroll(delta)),
                    ..frame
                },
            },
        },
    }
}

impl Frame {
    /// Adds to `out` the layers to try for the layer at `index` and what is
    /// below it.
    fn collect_candidates(
        &self,
        index: usize,
        parent_transform: &Transform,
        out: &mut Vec<HitCandidate>,
    )
        requires
            index < self.layers.len(),
        ensures
            views(final(out)@) == views(old(out)@) + candidates(
                self@.layers,
                index as int,
                parent_transform@,
            ),
        decreases self.layers.len() - index,
    {
        let layer = &self.layers[index];
        let transform = parent_transform.mul(&layer.local_transform);
        let ghost layers = self@.layers;
        let mut k: usize = 0;
        while k < layer.children.len()
            invariant
                k <= layer.children.len(),
                index < self.layers.len(),
                layers == self@.layers,
                *layer == self.layers@[index as int],
                transform@ == product(parent_transform@, layers[index as int].local_transform),
                views(out@) == views(old(out)@) + child_candidates(
                    layers,
                    index as int,
                    k as int,
                    transform@,
                ),
            decreases layer.children.len() - k,
        {
            let ghost before = views(out@);
            match self.find_layer(layer.children[k]) {
                Some(j) => {
                    if j > index {
                        self.collect_candidates(j, &transform, out);
                    }
                },
                None => {},
            }
            proof {
                assert(layers[index as int].children[k as int] == layer.children@[k as int]);
                assert(views(out@) =~= views(old(out)@) + child_candidates(
                    layers,
                    index as int,
                    k + 1,
                    transform@,
                ));
            }
            k += 1;
        }
        match layer.id {
            ScrollLayerId::Fixed => {},
            ScrollLayerId::Normal(_) => {
                out.push(
                    HitCandidate {
                        layer_id: layer.id,
                        transform,
                        rect: Rect { origin: layer.world_origin, size: layer.viewport_size },
                    },
                );
            },
        }
        proof {
            assert(views(out@) =~= views(old(out)@) + candidates(
                layers,
                index as int,
                parent_transform@,
            ));
        }
    }

    /// The layers that the cursor may be over, from the layer that
    /// `scroll_layer_id` names down, in the order in which they are to be
    /// tried.
    pub fn hit_test_candidates(
        &self,
        scroll_layer_id: ScrollLayerId,
        parent_transform: &Transform,
    ) -> (r: Vec<HitCandidate>)
        ensures
            views(r@) == candidates_from(self@.layers, scroll_layer_id, parent_transform@),
    {
        let mut out: Vec<HitCandidate> = Vec::new();
        match self.find_layer(scroll_layer_id) {
            Some(i) => {
                self.collect_candidates(i, parent_transform, &mut out);
                assert(views(out@) =~= candidates(self@.layers, i as int, parent_transform@));
            },
            None => {},
        }
        out
    }

    /// The layer under the cursor: the first of the candidates from
    /// `scroll_layer_id` down of which `hits` says that the cursor is over
    /// it.
    pub fn get_scroll_layer(
        &self,
        hits: &Vec<bool>,
        scroll_layer_id: ScrollLayerId,
        parent_transform: &Transform,
    ) -> (r: Option<ScrollLayerId>)
        ensures
            r == picked(
                candidates_from(self@.layers, scroll_layer_id, parent_transform@),
                hits@,
            ),
    {
        let found = self.hit_test_candidates(scroll_layer_id, parent_transform);
        let mut k: usize = 0;
        while k < hits.len()
            invariant
                k <= hits.len(),
                views(found@) == candidates_from(
                    self@.layers,
                    scroll_layer_id,
                    parent_transform@,
                ),
                forall|j: int| 0 <= j < k ==> hits@[j] != true,
            decreases hits.len() - k,
        {
            if hits[k] {
                proof {
                    lemma_position_found(hits@, true, k as int);
                }
                if k < found.len() {
                    return Some(found[k].layer_id);
                } else {
                    return None;
                }
            }
            k += 1;
        }
        proof {
            lemma_position_absent(hits@, true);
        }
        None
    }

    /// Scrolls the layer under the cursor by `delta`, as far as it can go.
    /// Nothing happens where the cursor is over no layer.
    pub fn scroll(&mut self, delta: Point, hits: &Vec<bool>)
        ensures
            final(self)@ == scrolled_frame(old(self)@, delta, hits@),
            frame_sound(old(self)@) ==> frame_sound(final(self)@),
    {
        if let Some(root_scroll_layer_id) = self.root_scroll_layer_id {
            let scroll_layer_id = self.get_scroll_layer(
                hits,
                root_scroll_layer_id,
                &Transform::identity(),
            );
            if let Some(scroll_layer_id) = scroll_layer_id {
                if let Some(i) = self.find_layer(scroll_layer_id) {
                    self.layers[i].scroll(delta);
                }
            }
        }
        proof {
            if frame_sound(old(self)@) {
                lemma_scrolled_frame_sound(old(self)@, delta, hits@);
            }
        }
    }
}

/// Scrolling changes nothing but where one layer is scrolled to.
pub proof fn lemma_scrolled_shape(frame: FrameView, delta: Point, hits: Seq<bool>)
    ensures
        scrolled_frame(frame, delta, hits) == (FrameView {
            layers: scrolled_frame(frame, delta, hits).layers,
            ..frame
        }),
        scrolled_frame(frame, delta, hits).layers.len() == frame.layers.len(),
        forall|i: int|
            0 <= i < frame.layers.len() ==> {
                let l = #[trigger] scrolled_frame(frame, delta, hits).layers[i];
                l == frame.layers[i] || l == frame.layers[i].after_scroll(delta)
            },
{
    match frame.root_scroll_layer_id {
        None => {},
        Some(root) => match picked(candidates_from(frame.layers, root, identity()), hits) {
            None => {},
            Some(id) => {
                lemma_position(layer_ids(frame.layers), id);
            },
        },
    }
}

/// Scrolling keeps a sound frame sound.
pub proof fn lemma_scrolled_frame_sound(frame: FrameView, delta: Point, hits: Seq<bool>)
    requires
        frame_sound(frame),
    ensures
        frame_sound(scrolled_frame(frame, delta, hits)),
{
    let after = scrolled_frame(frame, delta, hits);
    lemma_scrolled_shape(frame, delta, hits);
    if after != frame {
        let a = frame.layers;
        let b = after.layers;
        assert forall|i: int| 0 <= i < a.len() implies (#[trigger] b[i]).id == a[i].id
            && b[i].children == a[i].children by {}
        assert(layer_ids(a) =~= layer_ids(b));
        assert forall|i: int| 0 <= i < b.len() implies (#[trigger] b[i]).wf() by {
            assert(a[i].wf());
        }
        assert forall|i: int, k: int|
            0 <= i < b.len() && 0 <= k < b[i].children.len() implies #[trigger] child_behind(
            b,
            i,
            k,
        ) by {
            assert(child_behind(a, i, k));
        }
        assert forall|i: int, k: int, i2: int, k2: int|
            0 <= i < b.len() && 0 <= k < b[i].children.len() && 0 <= i2 < b.len() && 0 <= k2
                < b[i2].children.len() && (i != i2 || k != k2) implies #[trigger] b[i].children[k]
            != #[trigger] b[i2].children[k2] by {
            assert(a[i].children[k] != a[i2].children[k2]);
        }
    }
}

/// Every layer is scrolled to where scrolling can lead.
pub open spec fn offsets_in_range(layers: Seq<LayerView>) -> bool {
    forall|i: int| 0 <= i < layers.len() ==> (#[trigger] layers[i]).scroll_in_range()
}

/// Scrolling leaves every layer of a sound frame in range that was in
/// range, and the layer that it moves in range on every axis on which the
/// layer is larger than its viewport.
pub proof fn lemma_scroll_keeps_offsets_in_range(frame: FrameView, delta: Point, hits: Seq<bool>)
    requires
        frame_sound(frame),
        offsets_in_range(frame.layers),
    ensures
        offsets_in_range(scrolled_frame(frame, delta, hits).layers),
{
    let after = scrolled_frame(frame, delta, hits);
    lemma_scrolled_shape(frame, delta, hits);
    assert forall|i: int| 0 <= i < after.layers.len() implies (#[trigger] after.layers[i]).scroll_in_range() by {
        assert(frame.layers[i].scroll_in_range());
        assert(frame.layers[i].wf());
        lemma_scroll_stays_in_range(frame.layers[i], delta);
    }
}

/// A scroll by nothing changes nothing in a sound frame whose layers are
/// in range.
pub proof fn lemma_scroll_by_nothing_is_no_op(frame: FrameView, hits: Seq<bool>)
    requires
        frame_sound(frame),
        offsets_in_range(frame.layers),
    ensures
        scrolled_frame(frame, Point { x: 0, y: 0 }, hits) == frame,
{
    let after = scrolled_frame(frame, Point { x: 0, y: 0 }, hits);
    lemma_scrolled_shape(frame, Point { x: 0, y: 0 }, hits);
    assert forall|i: int| 0 <= i < frame.layers.len() implies (#[trigger] frame.layers[i]).after_scroll(
        Point { x: 0, y: 0 },
    ) == frame.layers[i] by {
        assert(frame.layers[i].wf());
        assert(frame.layers[i].scroll_in_range());
        lemma_scroll_by_nothing(frame.layers[i]);
    }
    assert(after.layers =~= frame.layers);
}

/// The layers of a frame that has been built where there were no layers
/// before are all scrolled to their start, which is in range.
pub proof fn lemma_first_frame_in_range(
    scene: &Scene,
    frame: FrameView,
    draw_lists: Seq<DrawList>,
    pipeline_sizes: Seq<(PipelineId, Size)>,
    viewport_size: Size,
)
    requires
        frame.layers.len() == 0,
    ensures
        creation(scene, frame, draw_lists, pipeline_sizes, viewport_size)
            matches Ok(s) ==> offsets_in_range(s.frame.layers),
{
    match creation(scene, frame, draw_lists, pipeline_sizes, viewport_size) {
        Err(_) => {},
        Ok(s) => {
            let offsets = offsets_of(frame.layers);
            assert(offset_keys(offsets).len() == 0);
            assert forall|i: int| 0 <= i < s.frame.layers.len() implies (
            #[trigger] s.frame.layers[i]).scroll_in_range() by {
                assert(s.frame.layers[i].scroll_offset == (Point { x: 0, y: 0 }));
            }
        },
    }
}

} // verus!
