//! The transforms of the scroll layers to the world.
//!
//! The world transform of a layer is that of its parent, then its own
//! local transform, then the move to where it stands, then the move by
//! which it is scrolled. The walk starts at the root scroll layer and goes
//! from every layer to its children.

use vstd::prelude::*;
use crate::batch::copy_of;
use crate::frame::{Frame, FrameView, layer_ids};
use crate::layer::LayerView;
use crate::lookup::position;
use crate::shape::{lemma_layers_changed_shape, lemma_transforms_shape, same_shape};
use crate::soundness::frame_sound;
use crate::transform::{Factor, identity, product, Transform, translation};
use crate::types::ScrollLayerId;
use crate::views::group_views;

verus! {

broadcast use group_views;

/// The world transform of a layer below a parent whose world transform is
/// `parent`.
pub open spec fn world(parent: Seq<Factor>, layer: LayerView) -> Seq<Factor> {
    product(
        product(
            product(parent, layer.local_transform),
            translation(layer.world_origin.x, layer.world_origin.y),
        ),
        translation(layer.scroll_offset.x, layer.scroll_offset.y),
    )
}

/// The layers after the walk has been through the layer at `i` and what is
/// below it. `bound` is the number of the layers.
pub open spec fn with_transforms(
    layers: Seq<LayerView>,
    bound: int,
    i: int,
    parent: Seq<Factor>,
) -> Seq<LayerView>
    decreases bound - i, 1int, 0int,
{
    if i < 0 || i >= bound || bound != layers.len() {
        layers
    } else {
        let w = world(parent, layers[i]);
        children_transformed(
            layers.update(i, layers[i].with_world_transform(w)),
            bound,
            i,
            layers[i].children,
            layers[i].children.len() as int,
            w,
        )
    }
}

/// The layers after the walk has been through the first `n` of the
/// children of the layer at `i`.
pub open spec fn children_transformed(
    layers: Seq<LayerView>,
    bound: int,
    i: int,
    children: Seq<ScrollLayerId>,
    n: int,
    w: Seq<Factor>,
) -> Seq<LayerView>
    decreases bound - i, 0int, n,
{
    if n <= 0 || n > children.len() {
        layers
    } else {
        let before = children_transformed(layers, bound, i, children, n - 1, w);
        match position(layer_ids(before), children[n - 1]) {
            Some(j) => if i < j < bound {
                with_transforms(before, bound, j, w)
            } else {
                before
            },
            None => before,
        }
    }
}

/// The layers after the walk from the root scroll layer.
pub open spec fn transforms_updated(frame: FrameView) -> Seq<LayerView> {
    match frame.root_scroll_layer_id {
        None => frame.layers,
        Some(root) => match position(layer_ids(frame.layers), root) {
            None => frame.layers,
            Some(i) => with_transforms(frame.layers, frame.layers.len() as int, i, identity()),
        },
    }
}

/// The walk changes nothing of a layer but its world transform, and
/// nothing at all of the layers before the one it starts at.
pub proof fn lemma_with_transforms_shape(
    layers: Seq<LayerView>,
    bound: int,
    i: int,
    parent: Seq<Factor>,
)
    ensures
        with_transforms(layers, bound, i, parent).len() == layers.len(),
        forall|j: int|
            0 <= j < layers.len() ==> (#[trigger] with_transforms(layers, bound, i, parent)[j])
                == layers[j].with_world_transform(
                with_transforms(layers, bound, i, parent)[j].world_transform,
            ),
        forall|j: int|
            0 <= j < i && j < layers.len() ==> (#[trigger] with_transforms(
                layers,
                bound,
                i,
                parent,
            )[j]) == layers[j],
        0 <= i < bound && bound == layers.len() ==> with_transforms(
            layers,
            bound,
            i,
            parent,
        )[i].world_transform == world(parent, layers[i]),
    decreases bound - i, 1int, 0int,
{
    if !(i < 0 || i >= bound || bound != layers.len()) {
        let w = world(parent, layers[i]);
        let set = layers.update(i, layers[i].with_world_transform(w));
        lemma_children_transformed_shape(
            set,
            bound,
            i,
            layers[i].children,
            layers[i].children.len() as int,
            w,
        );
    }
}

/// The walk through the children changes nothing of a layer but its world transform, and
/// nothing at all of the layer whose children they are nor of the layers before it.
pub proof fn lemma_children_transformed_shape(
    layers: Seq<LayerView>,
    bound: int,
    i: int,
    children: Seq<ScrollLayerId>,
    n: int,
    w: Seq<Factor>,
)
    ensures
        children_transformed(layers, bound, i, children, n, w).len() == layers.len(),
        forall|j: int|
            0 <= j < layers.len() ==> (#[trigger] children_transformed(
                layers,
                bound,
                i,
                children,
                n,
                w,
            )[j]) == layers[j].with_world_transform(
                children_transformed(layers, bound, i, children, n, w)[j].world_transform,
            ),
        forall|j: int|
            0 <= j <= i && j < layers.len() ==> (#[trigger] children_transformed(
                layers,
                bound,
                i,
                children,
                n,
                w,
            )[j]) == layers[j],
    decreases bound - i, 0int, n,
{
    if !(n <= 0 || n > children.len()) {
        lemma_children_transformed_shape(layers, bound, i, children, n - 1, w);
        let before = children_transformed(layers, bound, i, children, n - 1, w);
        match position(layer_ids(before), children[n - 1]) {
            Some(j) => if i < j < bound {
                lemma_with_transforms_shape(before, bound, j, w);
            },
            None => {},
        }
    }
}

impl Frame {
    /// Sets the world transform of the layer at `index` and of what is
    /// below it.
    pub fn update_layer_transform(&mut self, index: usize, parent_transform: &Transform)
        ensures
            final(self)@ == (FrameView {
                layers: with_transforms(
                    old(self)@.layers,
                    old(self)@.layers.len() as int,
                    index as int,
                    parent_transform@,
                ),
                ..old(self)@
            }),
            final(self).layers.len() == old(self).layers.len(),
        decreases old(self).layers.len() - index,
    {
        if index >= self.layers.len() {
            return ;
        }
        let ghost bound = self.layers.len() as int;
        let ghost start = self@.layers;
        let layer_transform = parent_transform.mul(&self.layers[index].local_transform).translate(
            self.layers[index].world_origin.x,
            self.layers[index].world_origin.y,
        ).translate(self.layers[index].scroll_offset.x, self.layers[index].scroll_offset.y);
        let layer_children = copy_of(&self.layers[index].children);
        self.layers[index].world_transform = layer_transform.duplicate();
        let ghost set = self@.layers;
        proof {
            assert(set =~= start.update(
                index as int,
                start[index as int].with_world_transform(layer_transform@),
            ));
        }
        let mut k: usize = 0;
        while k < layer_children.len()
            invariant
                k <= layer_children.len(),
                bound == self.layers.len(),
                bound == old(self).layers.len(),
                index < bound,
                self@ == (FrameView {
                    layers: children_transformed(
                        set,
                        bound,
                        index as int,
                        layer_children@,
                        k as int,
                        layer_transform@,
                    ),
                    ..old(self)@
                }),
            decreases layer_children.len() - k,
        {
            match self.find_layer(layer_children[k]) {
                Some(j) => {
                    if j > index {
                        self.update_layer_transform(j, &layer_transform);
                    }
                },
                None => {},
            }
            k += 1;
        }
    }

    /// Sets the world transform of every layer that the walk from the root
    /// scroll layer reaches.
    pub fn update_layer_transforms(&mut self)
        ensures
            final(self)@ == (FrameView { layers: transforms_updated(old(self)@), ..old(self)@ }),
            same_shape(old(self)@, final(self)@),
            frame_sound(old(self)@) ==> frame_sound(
                final(self)@,
            ),
    {
        if let Some(root_scroll_layer_id) = self.root_scroll_layer_id {
            if let Some(i) = self.find_layer(root_scroll_layer_id) {
                self.update_layer_transform(i, &Transform::identity());
            }
        }
        proof {
            lemma_transforms_shape(old(self)@);
            lemma_layers_changed_shape(old(self)@, self@);
        }
    }
}

} // verus!
