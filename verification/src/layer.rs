//! Scroll layers: regions whose content scrolls on its own.

use vstd::prelude::*;
use crate::batch::{CompiledNode, ResourceList};
use crate::geometry::{coord_bounded, COORD_MAX, max_int, min_int, Point, Rect, Size};
use crate::transform::{Factor, Transform};
use crate::types::{DrawListGroupId, DrawListId, DrawListItemIndex, ScrollLayerId};

verus! {

/// One item of a draw list in the spatial index of a layer, with what has
/// been made of it so far. The index keeps a node for each item.
#[derive(Debug, PartialEq, Eq)]
pub struct Node {
    /// Where the item lies in the layer.
    pub rect: Rect,
    pub draw_list_group_id: DrawListGroupId,
    pub draw_list_id: DrawListId,
    pub item_index: DrawListItemIndex,
    pub is_visible: bool,
    pub resource_list: Option<ResourceList>,
    pub compiled_node: Option<CompiledNode>,
}

impl Node {
    /// A node of which nothing is known but where it lies.
    pub open spec fn fresh(
        rect: Rect,
        draw_list_group_id: DrawListGroupId,
        draw_list_id: DrawListId,
        item_index: DrawListItemIndex,
    ) -> Node {
        Node {
            rect,
            draw_list_group_id,
            draw_list_id,
            item_index,
            is_visible: false,
            resource_list: None,
            compiled_node: None,
        }
    }

    /// The node is to be drawn and has not been compiled.
    pub open spec fn awaits_compilation(self) -> bool {
        self.is_visible && self.compiled_node is None
    }

    pub fn new(
        rect: Rect,
        draw_list_group_id: DrawListGroupId,
        draw_list_id: DrawListId,
        item_index: DrawListItemIndex,
    ) -> (n: Node)
        ensures
            n == Node::fresh(rect, draw_list_group_id, draw_list_id, item_index),
    {
        Node {
            rect,
            draw_list_group_id,
            draw_list_id,
            item_index,
            is_visible: false,
            resource_list: None,
            compiled_node: None,
        }
    }
}

/// A scroll layer: where it stands, how large it and its viewport are, how far it is
/// scrolled, its transforms, its children by name, and its nodes.
#[derive(Debug, PartialEq, Eq)]
pub struct Layer {
    pub id: ScrollLayerId,
    pub world_origin: Point,
    pub layer_size: Size,
    pub viewport_size: Size,
    pub scroll_offset: Point,
    pub local_transform: Transform,
    pub world_transform: Transform,
    pub children: Vec<ScrollLayerId>,
    pub nodes: Vec<Node>,
}

/// A layer as plain values.
pub struct LayerView {
    pub id: ScrollLayerId,
    pub world_origin: Point,
    pub layer_size: Size,
    pub viewport_size: Size,
    pub scroll_offset: Point,
    pub local_transform: Seq<Factor>,
    pub world_transform: Seq<Factor>,
    pub children: Seq<ScrollLayerId>,
    pub nodes: Seq<Node>,
}

impl View for Layer {
    type V = LayerView;

    open spec fn view(&self) -> LayerView {
        LayerView {
            id: self.id,
            world_origin: self.world_origin,
            layer_size: self.layer_size,
            viewport_size: self.viewport_size,
            scroll_offset: self.scroll_offset,
            local_transform: self.local_transform@,
            world_transform: self.world_transform@,
            children: self.children@,
            nodes: self.nodes@,
        }
    }
}

/// Where one axis of a layer stands after a scroll by `delta`.
///
/// A layer that is no larger than its viewport does not move. Any other
/// moves by `delta`, but no further than to where its first or its last
/// pixel meets the edge of the viewport.
pub open spec fn scrolled(offset: int, delta: int, layer: int, viewport: int) -> int {
    if layer > viewport {
        max_int(min_int(offset + delta, 0), viewport - layer)
    } else {
        offset
    }
}

/// The offset is one that scrolling can lead to: nothing for a layer that
/// is no larger than its viewport, and else between the place where the
/// last pixel meets the edge of the viewport and the start.
pub open spec fn offset_in_range(offset: int, layer: int, viewport: int) -> bool {
    if layer > viewport {
        viewport - layer <= offset <= 0
    } else {
        offset == 0
    }
}

/// The nodes with each marked visible or not by whether it shares a pixel
/// with `clip`.
pub open spec fn culled(nodes: Seq<Node>, clip: Rect) -> Seq<Node> {
    Seq::new(
        nodes.len(),
        |i: int| Node { is_visible: nodes[i].rect.intersected(clip) is Some, ..nodes[i] },
    )
}

impl LayerView {
    /// A layer without children and nodes that has not been scrolled.
    pub open spec fn fresh(
        id: ScrollLayerId,
        world_origin: Point,
        layer_size: Size,
        viewport_size: Size,
        transform: Seq<Factor>,
    ) -> LayerView {
        LayerView {
            id,
            world_origin: world_origin.clamped(),
            layer_size: layer_size.clamped(),
            viewport_size: viewport_size.extent(),
            scroll_offset: Point { x: 0, y: 0 },
            local_transform: transform,
            world_transform: transform,
            children: Seq::empty(),
            nodes: Seq::empty(),
        }
    }

    /// Every length of the layer is bounded, and the viewport has no
    /// negative extent.
    pub open spec fn wf(self) -> bool {
        &&& self.world_origin.bounded()
        &&& self.layer_size.bounded()
        &&& self.viewport_size.bounded()
        &&& self.viewport_size.width >= 0
        &&& self.viewport_size.height >= 0
        &&& self.scroll_offset.bounded()
    }

    /// The scroll offset is in range on both axes.
    pub open spec fn scroll_in_range(self) -> bool {
        &&& offset_in_range(
            self.scroll_offset.x as int,
            self.layer_size.width as int,
            self.viewport_size.width as int,
        )
        &&& offset_in_range(
            self.scroll_offset.y as int,
            self.layer_size.height as int,
            self.viewport_size.height as int,
        )
    }

    /// The layer with one more child.
    pub open spec fn with_child(self, child: ScrollLayerId) -> LayerView {
        LayerView { children: self.children.push(child), ..self }
    }

    /// The layer with one more node.
    pub open spec fn with_node(self, node: Node) -> LayerView {
        LayerView { nodes: self.nodes.push(node), ..self }
    }

    /// The layer scrolled to `offset`.
    pub open spec fn with_scroll_offset(self, offset: Point) -> LayerView {
        LayerView { scroll_offset: offset.clamped(), ..self }
    }

    /// The layer with another world transform.
    pub open spec fn with_world_transform(self, transform: Seq<Factor>) -> LayerView {
        LayerView { world_transform: transform, ..self }
    }

    /// The part of the layer that its viewport shows.
    pub open spec fn scroll_clip_rect(self) -> Rect {
        Rect { origin: self.scroll_offset.negated(), size: self.viewport_size.clamped() }
    }

    /// The layer with the nodes marked that its viewport shows.
    pub open spec fn after_cull(self) -> LayerView {
        LayerView { nodes: culled(self.nodes, self.scroll_clip_rect()), ..self }
    }

    /// The layer after a scroll by `delta`. A layer with a length out of
    /// bounds stays where it is.
    pub open spec fn after_scroll(self, delta: Point) -> LayerView {
        if self.wf() {
            self.scrolled_by(delta)
        } else {
            self
        }
    }

    /// A layer with bounded lengths after a scroll by `delta`.
    pub open spec fn scrolled_by(self, delta: Point) -> LayerView {
        LayerView {
            scroll_offset: Point {
                x: scrolled(
                    self.scroll_offset.x as int,
                    delta.x as int,
                    self.layer_size.width as int,
                    self.viewport_size.width as int,
                ) as i32,
                y: scrolled(
                    self.scroll_offset.y as int,
                    delta.y as int,
                    self.layer_size.height as int,
                    self.viewport_size.height as int,
                ) as i32,
            },
            ..self
        }
    }
}

fn scroll_axis(offset: i32, delta: i32, layer: i32, viewport: i32) -> (r: i32)
    requires
        coord_bounded(offset as int),
        coord_bounded(layer as int),
        coord_bounded(viewport as int),
        viewport >= 0,
    ensures
        r == scrolled(offset as int, delta as int, layer as int, viewport as int),
        coord_bounded(r as int),
{
    if layer > viewport {
        let moved: i64 = offset as i64 + delta as i64;
        let capped: i64 = if moved < 0 {
            moved
        } else {
            0
        };
        let lowest: i64 = viewport as i64 - layer as i64;
        if capped > lowest {
            capped as i32
        } else {
            lowest as i32
        }
    } else {
        offset
    }
}

impl Layer {
    pub fn new(
        id: ScrollLayerId,
        world_origin: Point,
        layer_size: Size,
        viewport_size: Size,
        transform: &Transform,
    ) -> (l: Layer)
        ensures
            l@ == LayerView::fresh(id, world_origin, layer_size, viewport_size, transform@),
            l@.wf(),
            l@.scroll_in_range(),
    {
        Layer {
            id,
            world_origin: world_origin.clamp(),
            layer_size: layer_size.clamp(),
            viewport_size: viewport_size.to_extent(),
            scroll_offset: Point::zero(),
            local_transform: transform.duplicate(),
            world_transform: transform.duplicate(),
            children: Vec::new(),
            nodes: Vec::new(),
        }
    }

    pub fn add_child(&mut self, child: ScrollLayerId)
        ensures
            final(self)@ == old(self)@.with_child(child),
    {
        self.children.push(child);
    }

    /// Enters an item of a draw list into the spatial index.
    pub fn insert(
        &mut self,
        rect: Rect,
        draw_list_group_id: DrawListGroupId,
        draw_list_id: DrawListId,
        item_index: DrawListItemIndex,
    )
        ensures
            final(self)@ == old(self)@.with_node(
                Node::fresh(rect, draw_list_group_id, draw_list_id, item_index),
            ),
    {
        self.nodes.push(Node::new(rect, draw_list_group_id, draw_list_id, item_index));
    }

    /// Ends the filling of the layer and puts it where it was scrolled to
    /// before.
    pub fn finalize(&mut self, initial_scroll_offset: Point)
        ensures
            final(self)@ == old(self)@.with_scroll_offset(initial_scroll_offset),
            old(self)@.wf() ==> final(self)@.wf(),
    {
        self.scroll_offset = initial_scroll_offset.clamp();
    }

    pub fn scroll_clip_rect(&self) -> (r: Rect)
        ensures
            r == self@.scroll_clip_rect(),
            r.bounded(),
    {
        Rect { origin: self.scroll_offset.neg(), size: self.viewport_size.clamp() }
    }

    /// Marks the nodes that the viewport shows.
    pub fn cull(&mut self)
        ensures
            final(self)@ == old(self)@.after_cull(),
    {
        let clip = self.scroll_clip_rect();
        let mut i: usize = 0;
        while i < self.nodes.len()
            invariant
                i <= self.nodes.len(),
                self.nodes@.len() == old(self).nodes@.len(),
                clip == old(self)@.scroll_clip_rect(),
                forall|j: int|
                    0 <= j < i ==> self.nodes@[j] == culled(old(self).nodes@, clip)[j],
                forall|j: int| i <= j < self.nodes.len() ==> self.nodes@[j] == old(self).nodes@[j],
                self@ == (LayerView { nodes: self.nodes@, ..old(self)@ }),
            decreases self.nodes.len() - i,
        {
            let visible = self.nodes[i].rect.intersection(&clip).is_some();
            self.nodes[i].is_visible = visible;
            i += 1;
        }
        assert(self.nodes@ =~= culled(old(self).nodes@, clip));
    }

    /// Whether every length of the layer is bounded.
    pub fn is_well_formed(&self) -> (b: bool)
        ensures
            b == self@.wf(),
    {
        let bound = COORD_MAX;
        -bound <= self.world_origin.x && self.world_origin.x <= bound && -bound
            <= self.world_origin.y && self.world_origin.y <= bound && -bound
            <= self.layer_size.width && self.layer_size.width <= bound && -bound
            <= self.layer_size.height && self.layer_size.height <= bound && 0
            <= self.viewport_size.width && self.viewport_size.width <= bound && 0
            <= self.viewport_size.height && self.viewport_size.height <= bound && -bound
            <= self.scroll_offset.x && self.scroll_offset.x <= bound && -bound
            <= self.scroll_offset.y && self.scroll_offset.y <= bound
    }

    /// Scrolls the layer by `delta`, as far as it can go.
    pub fn scroll(&mut self, delta: Point)
        ensures
            final(self)@ == old(self)@.after_scroll(delta),
            old(self)@.wf() ==> final(self)@.wf(),
    {
        if !self.is_well_formed() {
            return ;
        }
        let x = scroll_axis(
            self.scroll_offset.x,
            delta.x,
            self.layer_size.width,
            self.viewport_size.width,
        );
        let y = scroll_axis(
            self.scroll_offset.y,
            delta.y,
            self.layer_size.height,
            self.viewport_size.height,
        );
        self.scroll_offset = Point { x, y };
    }
}

/// After a scroll the offset is in range on every axis on which the layer
/// is larger than its viewport, and unchanged on the others; so a layer
/// whose offset was in range still has it in range.
pub proof fn lemma_scroll_stays_in_range(layer: LayerView, delta: Point)
    requires
        layer.wf(),
    ensures
        layer.layer_size.width > layer.viewport_size.width ==> offset_in_range(
            layer.after_scroll(delta).scroll_offset.x as int,
            layer.layer_size.width as int,
            layer.viewport_size.width as int,
        ),
        layer.layer_size.height > layer.viewport_size.height ==> offset_in_range(
            layer.after_scroll(delta).scroll_offset.y as int,
            layer.layer_size.height as int,
            layer.viewport_size.height as int,
        ),
        layer.scroll_in_range() ==> layer.after_scroll(delta).scroll_in_range(),
{
}

/// A scroll by nothing leaves a layer in range as it is.
pub proof fn lemma_scroll_by_nothing(layer: LayerView)
    requires
        layer.wf(),
        layer.scroll_in_range(),
    ensures
        layer.after_scroll(Point { x: 0, y: 0 }) == layer,
{
}

/// A layer that is no larger than its viewport stays at offset zero
/// whatever the scroll.
pub proof fn lemma_small_layer_stays(layer: LayerView, delta: Point)
    requires
        layer.wf(),
        layer.scroll_in_range(),
        layer.layer_size.width <= layer.viewport_size.width,
        layer.layer_size.height <= layer.viewport_size.height,
    ensures
        layer.after_scroll(delta).scroll_offset == (Point { x: 0, y: 0 }),
{
}

} // verus!
