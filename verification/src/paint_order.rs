//! The order in which the items of a stacking context are painted.
//!
//! Backgrounds and borders come first, then positioned content below the
//! plane of the context, block backgrounds, floats, content, positioned
//! content in or above the plane, and outlines last. Positioned content is
//! ordered by its place along the z axis; what shares a place keeps the
//! order in which the scene lists it.

use vstd::prelude::*;
use crate::error::FrameError;
use crate::scene::{
    Scene, SceneItem, ScenePipeline, SceneStackingContext, SpecificSceneItem, StackingContext,
};
use crate::types::{DisplayListId, DrawListId, StackingLevel};

verus! {

/// What is to be flattened: a stacking context, or a pipeline, which
/// stands for its root stacking context with its own background before
/// everything else.
#[derive(Clone, Copy, Debug)]
pub enum SceneItemKind<'a> {
    StackingContext(&'a SceneStackingContext),
    Pipeline(&'a ScenePipeline),
}

/// A positioned item with its place along the z axis.
#[derive(Clone, Copy, Debug, PartialEq, Eq, Structural)]
pub struct SceneItemWithZOrder {
    pub item: SceneItem,
    pub z_index: i32,
}

/// The items of `items` that are at `level`, in their order.
pub open spec fn at_level(items: Seq<SceneItem>, level: StackingLevel) -> Seq<SceneItem>
    decreases items.len(),
{
    if items.len() == 0 {
        Seq::empty()
    } else if items.last().stacking_level == level {
        at_level(items.drop_last(), level).push(items.last())
    } else {
        at_level(items.drop_last(), level)
    }
}

/// The place of an item along the z axis: that of the stacking context it
/// names, and zero for a draw list and for an iframe.
pub open spec fn z_index_of(scene: &Scene, item: SceneItem) -> Option<i32> {
    match item.specific {
        SpecificSceneItem::StackingContext(id) => match scene.stacking_context(id) {
            Some(c) => Some(c.stacking_context.z_index),
            None => None,
        },
        SpecificSceneItem::DrawList(_) => Some(0i32),
        SpecificSceneItem::Iframe(_) => Some(0i32),
    }
}

/// The positioned items of `items`, in their order, each with its place
/// along the z axis. There are none to speak of where one of them names a
/// stacking context that the scene does not hold.
pub open spec fn positioned(scene: &Scene, items: Seq<SceneItem>) -> Option<
    Seq<SceneItemWithZOrder>,
>
    decreases items.len(),
{
    if items.len() == 0 {
        Some(Seq::empty())
    } else {
        match positioned(scene, items.drop_last()) {
            None => None,
            Some(head) => if items.last().stacking_level != StackingLevel::PositionedContent {
                Some(head)
            } else {
                match z_index_of(scene, items.last()) {
                    None => None,
                    Some(z) => Some(head.push(SceneItemWithZOrder { item: items.last(), z_index: z })),
                }
            },
        }
    }
}

/// `sorted` with `x` put behind everything that is not above it.
pub open spec fn placed(sorted: Seq<SceneItemWithZOrder>, x: SceneItemWithZOrder) -> Seq<
    SceneItemWithZOrder,
>
    decreases sorted.len(),
{
    if sorted.len() == 0 {
        seq![x]
    } else if sorted.last().z_index <= x.z_index {
        sorted.push(x)
    } else {
        placed(sorted.drop_last(), x).push(sorted.last())
    }
}

/// The items ordered from the lowest to the highest, those that share a
/// place in the order of `s`.
pub open spec fn sorted_by_z(s: Seq<SceneItemWithZOrder>) -> Seq<SceneItemWithZOrder>
    decreases s.len(),
{
    if s.len() == 0 {
        Seq::empty()
    } else {
        placed(sorted_by_z(s.drop_last()), s.last())
    }
}

/// The items of `s` below the plane, in their order.
pub open spec fn below_zero(s: Seq<SceneItemWithZOrder>) -> Seq<SceneItem>
    decreases s.len(),
{
    if s.len() == 0 {
        Seq::empty()
    } else if s.last().z_index < 0 {
        below_zero(s.drop_last()).push(s.last().item)
    } else {
        below_zero(s.drop_last())
    }
}

/// The items of `s` in or above the plane, in their order.
pub open spec fn from_zero(s: Seq<SceneItemWithZOrder>) -> Seq<SceneItem>
    decreases s.len(),
{
    if s.len() == 0 {
        Seq::empty()
    } else if s.last().z_index < 0 {
        from_zero(s.drop_last())
    } else {
        from_zero(s.drop_last()).push(s.last().item)
    }
}

/// The items of the display lists that `ids` name, list after list. There
/// are none to speak of where the scene does not hold one of the lists.
pub open spec fn gathered(scene: &Scene, ids: Seq<DisplayListId>) -> Option<Seq<SceneItem>>
    decreases ids.len(),
{
    if ids.len() == 0 {
        Some(Seq::empty())
    } else {
        match (gathered(scene, ids.drop_last()), scene.display_list(ids.last())) {
            (Some(head), Some(list)) => Some(head + list.items@),
            _ => None,
        }
    }
}

/// The item that paints the background of a pipeline.
pub open spec fn background_item(background: Option<DrawListId>) -> Seq<SceneItem> {
    match background {
        Some(id) => seq![
            SceneItem {
                stacking_level: StackingLevel::BackgroundAndBorders,
                specific: SpecificSceneItem::DrawList(id),
            },
        ],
        None => Seq::empty(),
    }
}

/// `items` in paint order, with their places along the z axis in `zs`.
pub open spec fn ordered(items: Seq<SceneItem>, zs: Seq<SceneItemWithZOrder>) -> Seq<SceneItem> {
    let sorted = sorted_by_z(zs);
    at_level(items, StackingLevel::BackgroundAndBorders) + below_zero(sorted) + at_level(
        items,
        StackingLevel::BlockBackgroundAndBorders,
    ) + at_level(items, StackingLevel::Floats) + at_level(items, StackingLevel::Content)
        + from_zero(sorted) + at_level(items, StackingLevel::Outlines)
}

/// The items of a stacking context in paint order, behind the background
/// of its pipeline if it is the root of one.
pub open spec fn paint_order(
    scene: &Scene,
    background: Option<DrawListId>,
    context: &StackingContext,
) -> Result<Seq<SceneItem>, FrameError> {
    match gathered(scene, context.display_lists@) {
        None => Err(FrameError::MissingDisplayList),
        Some(items) => match positioned(scene, items) {
            None => Err(FrameError::MissingStackingContext),
            Some(zs) => Ok(background_item(background) + ordered(items, zs)),
        },
    }
}

impl<'a> SceneItemKind<'a> {
    /// The stacking context that is flattened.
    pub open spec fn context(self, scene: &Scene) -> Option<SceneStackingContext> {
        match self {
            SceneItemKind::StackingContext(c) => Some(*c),
            SceneItemKind::Pipeline(p) => scene.stacking_context(p.root_stacking_context_id),
        }
    }

    /// The draw list that paints the background of a pipeline.
    pub open spec fn background(self) -> Option<DrawListId> {
        match self {
            SceneItemKind::StackingContext(_) => None,
            SceneItemKind::Pipeline(p) => p.background_draw_list,
        }
    }

    /// The items in paint order.
    pub open spec fn scene_items(self, scene: &Scene) -> Result<Seq<SceneItem>, FrameError> {
        match self.context(scene) {
            None => Err(FrameError::MissingStackingContext),
            Some(c) => paint_order(scene, self.background(), &c.stacking_context),
        }
    }

    /// The items of the stacking context, or of the root stacking context of the pipeline, in
    /// paint order.
    pub fn collect_scene_items(&self, scene: &Scene) -> (r: Result<Vec<SceneItem>, FrameError>)
        ensures
            match r {
                Ok(items) => self.scene_items(scene) == Ok::<_, FrameError>(items@),
                Err(e) => self.scene_items(scene) == Err::<Seq<SceneItem>, _>(e),
            },
    {
        match self {
            SceneItemKind::StackingContext(c) => paint(scene, None, &c.stacking_context),
            SceneItemKind::Pipeline(p) => {
                match scene.find_stacking_context(p.root_stacking_context_id) {
                    Some(c) => paint(scene, p.background_draw_list, &c.stacking_context),
                    None => Err(FrameError::MissingStackingContext),
                }
            },
        }
    }
}

/// Adds the items of `src` to the end of `dst`.
pub fn append_items(dst: &mut Vec<SceneItem>, src: &Vec<SceneItem>)
    ensures
        final(dst)@ == old(dst)@ + src@,
{
    let mut i: usize = 0;
    while i < src.len()
        invariant
            i <= src.len(),
            dst@ == old(dst)@ + src@.take(i as int),
        decreases src.len() - i,
    {
        dst.push(src[i]);
        i += 1;
    }
    assert(src@.take(src.len() as int) =~= src@);
}

fn gather(scene: &Scene, ids: &Vec<DisplayListId>) -> (r: Option<Vec<SceneItem>>)
    ensures
        match r {
            Some(items) => gathered(scene, ids@) == Some(items@),
            None => gathered(scene, ids@) is None,
        },
{
    let mut items: Vec<SceneItem> = Vec::new();
    let mut i: usize = 0;
    while i < ids.len()
        invariant
            i <= ids.len(),
            gathered(scene, ids@.take(i as int)) == Some(items@),
        decreases ids.len() - i,
    {
        assert(ids@.take(i + 1).drop_last() =~= ids@.take(i as int));
        match scene.find_display_list(ids[i]) {
            Some(list) => {
                append_items(&mut items, &list.items);
            },
            None => {
                proof {
                    lemma_gathered_none_extends(scene, ids@, i + 1);
                }
                return None;
            },
        }
        i += 1;
    }
    assert(ids@.take(ids.len() as int) =~= ids@);
    Some(items)
}

/// Where a front part of the lists cannot be gathered, the whole cannot.
proof fn lemma_gathered_none_extends(scene: &Scene, ids: Seq<DisplayListId>, n: int)
    requires
        0 <= n <= ids.len(),
        gathered(scene, ids.take(n)) is None,
    ensures
        gathered(scene, ids) is None,
    decreases ids.len(),
{
    if n < ids.len() {
        assert(ids.drop_last().take(n) =~= ids.take(n));
        lemma_gathered_none_extends(scene, ids.drop_last(), n);
    } else {
        assert(ids.take(n) =~= ids);
    }
}

/// Where a front part of the items has a positioned item of unknown place,
/// so has the whole.
proof fn lemma_positioned_none_extends(scene: &Scene, items: Seq<SceneItem>, n: int)
    requires
        0 <= n <= items.len(),
        positioned(scene, items.take(n)) is None,
    ensures
        positioned(scene, items) is None,
    decreases items.len(),
{
    if n < items.len() {
        assert(items.drop_last().take(n) =~= items.take(n));
        lemma_positioned_none_extends(scene, items.drop_last(), n);
    } else {
        assert(items.take(n) =~= items);
    }
}

fn z_index(scene: &Scene, item: &SceneItem) -> (r: Option<i32>)
    ensures
        r == z_index_of(scene, *item),
{
    match item.specific {
        SpecificSceneItem::StackingContext(id) => match scene.find_stacking_context(id) {
            Some(c) => Some(c.stacking_context.z_index),
            None => None,
        },
        SpecificSceneItem::DrawList(_) => Some(0),
        SpecificSceneItem::Iframe(_) => Some(0),
    }
}

/// Where `x` goes in `sorted`: behind everything that is not above it.
proof fn lemma_placed_is_insert(sorted: Seq<SceneItemWithZOrder>, x: SceneItemWithZOrder, p: int)
    requires
        0 <= p <= sorted.len(),
        forall|j: int| p <= j < sorted.len() ==> sorted[j].z_index > x.z_index,
        p > 0 ==> sorted[p - 1].z_index <= x.z_index,
    ensures
        placed(sorted, x) == sorted.insert(p, x),
    decreases sorted.len(),
{
    if sorted.len() == 0 {
        assert(seq![x] =~= sorted.insert(p, x));
    } else if sorted.last().z_index <= x.z_index {
        assert(p == sorted.len());
        assert(sorted.push(x) =~= sorted.insert(p, x));
    } else {
        let head = sorted.drop_last();
        assert(p < sorted.len());
        lemma_placed_is_insert(head, x, p);
        assert(head.insert(p, x).push(sorted.last()) =~= sorted.insert(p, x));
    }
}

/// Orders positioned items from the lowest to the highest, leaving those
/// that share a place in the order in which they came.
pub fn sort_by_z_index(items: &Vec<SceneItemWithZOrder>) -> (sorted: Vec<SceneItemWithZOrder>)
    ensures
        sorted@ == sorted_by_z(items@),
{
    let mut sorted: Vec<SceneItemWithZOrder> = Vec::new();
    let mut i: usize = 0;
    while i < items.len()
        invariant
            i <= items.len(),
            sorted@ == sorted_by_z(items@.take(i as int)),
            sorted@.len() == i,
        decreases items.len() - i,
    {
        let x = items[i];
        let mut p: usize = sorted.len();
        while p > 0 && sorted[p - 1].z_index > x.z_index
            invariant
                p <= sorted.len(),
                forall|j: int| p <= j < sorted.len() ==> sorted@[j].z_index > x.z_index,
            decreases p,
        {
            p -= 1;
        }
        proof {
            lemma_placed_is_insert(sorted@, x, p as int);
            assert(items@.take(i + 1).drop_last() =~= items@.take(i as int));
        }
        sorted.insert(p, x);
        i += 1;
    }
    assert(items@.take(items.len() as int) =~= items@);
    sorted
}

fn paint(scene: &Scene, background: Option<DrawListId>, context: &StackingContext) -> (r: Result<
    Vec<SceneItem>,
    FrameError,
>)
    ensures
        match r {
            Ok(items) => paint_order(scene, background, context) == Ok::<_, FrameError>(items@),
            Err(e) => paint_order(scene, background, context) == Err::<Seq<SceneItem>, _>(e),
        },
{
    let items = match gather(scene, &context.display_lists) {
        Some(items) => items,
        None => {
            return Err(FrameError::MissingDisplayList);
        },
    };
    let mut background_and_borders: Vec<SceneItem> = Vec::new();
    let mut positioned_content: Vec<SceneItemWithZOrder> = Vec::new();
    let mut block_background_and_borders: Vec<SceneItem> = Vec::new();
    let mut floats: Vec<SceneItem> = Vec::new();
    let mut content: Vec<SceneItem> = Vec::new();
    let mut outlines: Vec<SceneItem> = Vec::new();
    let mut i: usize = 0;
    while i < items.len()
        invariant
            i <= items.len(),
            background_and_borders@ == at_level(
                items@.take(i as int),
                StackingLevel::BackgroundAndBorders,
            ),
            block_background_and_borders@ == at_level(
                items@.take(i as int),
                StackingLevel::BlockBackgroundAndBorders,
            ),
            floats@ == at_level(items@.take(i as int), StackingLevel::Floats),
            content@ == at_level(items@.take(i as int), StackingLevel::Content),
            outlines@ == at_level(items@.take(i as int), StackingLevel::Outlines),
            positioned(scene, items@.take(i as int)) == Some(positioned_content@),
            gathered(scene, context.display_lists@) == Some(items@),
        decreases items.len() - i,
    {
        let item = items[i];
        assert(items@.take(i + 1).drop_last() =~= items@.take(i as int));
        assert(items@.take(i + 1).last() == item);
        match item.stacking_level {
            StackingLevel::BackgroundAndBorders => {
                background_and_borders.push(item);
            },
            StackingLevel::BlockBackgroundAndBorders => {
                block_background_and_borders.push(item);
            },
            StackingLevel::PositionedContent => {
                match z_index(scene, &item) {
                    Some(z) => {
                        positioned_content.push(SceneItemWithZOrder { item, z_index: z });
                    },
                    None => {
                        proof {
                            lemma_positioned_none_extends(scene, items@, i + 1);
                        }
                        return Err(FrameError::MissingStackingContext);
                    },
                }
            },
            StackingLevel::Floats => {
                floats.push(item);
            },
            StackingLevel::Content => {
                content.push(item);
            },
            StackingLevel::Outlines => {
                outlines.push(item);
            },
        }
        i += 1;
    }
    assert(items@.take(items.len() as int) =~= items@);
    let sorted = sort_by_z_index(&positioned_content);
    let mut below: Vec<SceneItem> = Vec::new();
    let mut above: Vec<SceneItem> = Vec::new();
    let mut k: usize = 0;
    while k < sorted.len()
        invariant
            k <= sorted.len(),
            below@ == below_zero(sorted@.take(k as int)),
            above@ == from_zero(sorted@.take(k as int)),
        decreases sorted.len() - k,
    {
        assert(sorted@.take(k + 1).drop_last() =~= sorted@.take(k as int));
        if sorted[k].z_index < 0 {
            below.push(sorted[k].item);
        } else {
            above.push(sorted[k].item);
        }
        k += 1;
    }
    assert(sorted@.take(sorted.len() as int) =~= sorted@);
    let mut result: Vec<SceneItem> = Vec::new();
    if let Some(id) = background {
        result.push(
            SceneItem {
                stacking_level: StackingLevel::BackgroundAndBorders,
                specific: SpecificSceneItem::DrawList(id),
            },
        );
    }
    assert(result@ =~= background_item(background));
    append_items(&mut result, &background_and_borders);
    append_items(&mut result, &below);
    append_items(&mut result, &block_background_and_borders);
    append_items(&mut result, &floats);
    append_items(&mut result, &content);
    append_items(&mut result, &above);
    append_items(&mut result, &outlines);
    assert(result@ =~= background_item(background) + ordered(items@, positioned_content@));
    Ok(result)
}

/// No item of `s` is above `z`.
pub open spec fn none_above(s: Seq<SceneItemWithZOrder>, z: int) -> bool {
    forall|i: int| 0 <= i < s.len() ==> s[i].z_index <= z
}

/// The items of `s` never go down.
pub open spec fn ascending(s: Seq<SceneItemWithZOrder>) -> bool {
    forall|i: int, j: int| 0 <= i < j < s.len() ==> s[i].z_index <= s[j].z_index
}

/// The items of `s` whose place is `z`, in their order.
pub open spec fn with_z(s: Seq<SceneItemWithZOrder>, z: i32) -> Seq<SceneItemWithZOrder>
    decreases s.len(),
{
    if s.len() == 0 {
        Seq::empty()
    } else if s.last().z_index == z {
        with_z(s.drop_last(), z).push(s.last())
    } else {
        with_z(s.drop_last(), z)
    }
}

proof fn lemma_placed_none_above(s: Seq<SceneItemWithZOrder>, x: SceneItemWithZOrder, z: int)
    requires
        none_above(s, z),
        x.z_index <= z,
    ensures
        none_above(placed(s, x), z),
        placed(s, x).len() == s.len() + 1,
    decreases s.len(),
{
    if s.len() > 0 && s.last().z_index > x.z_index {
        let head = s.drop_last();
        assert(forall|i: int| 0 <= i < head.len() ==> head[i] == s[i]);
        lemma_placed_none_above(head, x, z);
    }
}

proof fn lemma_placed_ascending(s: Seq<SceneItemWithZOrder>, x: SceneItemWithZOrder)
    requires
        ascending(s),
    ensures
        ascending(placed(s, x)),
    decreases s.len(),
{
    if s.len() > 0 && s.last().z_index > x.z_index {
        let head = s.drop_last();
        assert(forall|i: int| 0 <= i < head.len() ==> head[i] == s[i]);
        lemma_placed_ascending(head, x);
        lemma_placed_none_above(head, x, s.last().z_index as int);
    }
}

proof fn lemma_placed_with_z(s: Seq<SceneItemWithZOrder>, x: SceneItemWithZOrder, z: i32)
    ensures
        with_z(placed(s, x), z) == if x.z_index == z {
            with_z(s, z).push(x)
        } else {
            with_z(s, z)
        },
    decreases s.len(),
{
    if s.len() == 0 {
        assert(seq![x].drop_last() =~= s);
    } else if s.last().z_index <= x.z_index {
        assert(s.push(x).drop_last() =~= s);
    } else {
        let head = s.drop_last();
        lemma_placed_with_z(head, x, z);
        assert(placed(head, x).push(s.last()).drop_last() =~= placed(head, x));
    }
}

/// Ordering by z leaves the items in ascending order.
pub proof fn lemma_sorted_by_z_ascends(s: Seq<SceneItemWithZOrder>)
    ensures
        ascending(sorted_by_z(s)),
        sorted_by_z(s).len() == s.len(),
    decreases s.len(),
{
    if s.len() > 0 {
        lemma_sorted_by_z_ascends(s.drop_last());
        lemma_placed_ascending(sorted_by_z(s.drop_last()), s.last());
        lemma_placed_none_above(sorted_by_z(s.drop_last()), s.last(), i32::MAX as int);
    }
}

/// Ordering by z is stable: the items that share a place along the z axis
/// come out as they went in, none lost, none added, and in the same order.
pub proof fn lemma_equal_z_keeps_order(s: Seq<SceneItemWithZOrder>, z: i32)
    ensures
        with_z(sorted_by_z(s), z) == with_z(s, z),
    decreases s.len(),
{
    if s.len() > 0 {
        lemma_equal_z_keeps_order(s.drop_last(), z);
        lemma_placed_with_z(sorted_by_z(s.drop_last()), s.last(), z);
    }
}

} // verus!
