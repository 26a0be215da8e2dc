//! Composition operations: what is done to the picture of a stacking
//! context when it is put onto its parent.
//!
//! Filter amounts are in app units, sixty to the pixel; the angle of a hue
//! rotation is in its fixed-point form.

use vstd::prelude::*;
use crate::geometry::{coord_bounded, Rect};

verus! {

/// How the picture of a stacking context blends with what is below it.
#[derive(Clone, Copy, Debug, PartialEq, Eq, Structural)]
pub enum MixBlendMode {
    Normal,
    Multiply,
    Screen,
    Overlay,
    Darken,
    Lighten,
    ColorDodge,
    ColorBurn,
    HardLight,
    SoftLight,
    Difference,
    Exclusion,
    Hue,
    Saturation,
    Color,
    Luminosity,
}

/// A filter as a scene states it.
#[derive(Clone, Copy, Debug, PartialEq, Eq, Structural)]
pub enum FilterOp {
    Blur(i32),
    Brightness(i32),
    Contrast(i32),
    Grayscale(i32),
    HueRotate(i32),
    Invert(i32),
    Opacity(i32),
    Saturate(i32),
    Sepia(i32),
}

/// The axis of one pass of a blur.
#[derive(Clone, Copy, Debug, PartialEq, Eq, Structural)]
pub enum AxisDirection {
    Horizontal,
    Vertical,
}

/// A filter as one pass over a render target.
#[derive(Clone, Copy, Debug, PartialEq, Eq, Structural)]
pub enum LowLevelFilterOp {
    Blur(i32, AxisDirection),
    Brightness(i32),
    Contrast(i32),
    Grayscale(i32),
    HueRotate(i32),
    Invert(i32),
    Opacity(i32),
    Saturate(i32),
    Sepia(i32),
}

/// One operation on the picture of a stacking context.
#[derive(Clone, Copy, Debug, PartialEq, Eq, Structural)]
pub enum CompositionOp {
    MixBlend(MixBlendMode),
    Filter(LowLevelFilterOp),
}

/// The passes that make up one filter: a blur is done along one axis and
/// then along the other, every other filter in one pass.
pub open spec fn lowered(filter: FilterOp) -> Seq<CompositionOp> {
    match filter {
        FilterOp::Blur(radius) => seq![
            CompositionOp::Filter(LowLevelFilterOp::Blur(radius, AxisDirection::Horizontal)),
            CompositionOp::Filter(LowLevelFilterOp::Blur(radius, AxisDirection::Vertical)),
        ],
        FilterOp::Brightness(amount) => seq![
            CompositionOp::Filter(LowLevelFilterOp::Brightness(amount)),
        ],
        FilterOp::Contrast(amount) => seq![
            CompositionOp::Filter(LowLevelFilterOp::Contrast(amount)),
        ],
        FilterOp::Grayscale(amount) => seq![
            CompositionOp::Filter(LowLevelFilterOp::Grayscale(amount)),
        ],
        FilterOp::HueRotate(angle) => seq![
            CompositionOp::Filter(LowLevelFilterOp::HueRotate(angle)),
        ],
        FilterOp::Invert(amount) => seq![CompositionOp::Filter(LowLevelFilterOp::Invert(amount))],
        FilterOp::Opacity(amount) => seq![
            CompositionOp::Filter(LowLevelFilterOp::Opacity(amount)),
        ],
        FilterOp::Saturate(amount) => seq![
            CompositionOp::Filter(LowLevelFilterOp::Saturate(amount)),
        ],
        FilterOp::Sepia(amount) => seq![CompositionOp::Filter(LowLevelFilterOp::Sepia(amount))],
    }
}

/// The passes of a list of filters, in the order of the filters.
pub open spec fn lowered_all(filters: Seq<FilterOp>) -> Seq<CompositionOp>
    decreases filters.len(),
{
    if filters.len() == 0 {
        Seq::empty()
    } else {
        lowered_all(filters.drop_last()) + lowered(filters.last())
    }
}

/// The operation that a blend mode asks for. The normal mode asks for none.
pub open spec fn blend_ops(mode: MixBlendMode) -> Seq<CompositionOp> {
    if mode == MixBlendMode::Normal {
        Seq::empty()
    } else {
        seq![CompositionOp::MixBlend(mode)]
    }
}

/// The operations of a stacking context: that of its blend mode, then those
/// of its filters.
pub open spec fn composition_ops(mode: MixBlendMode, filters: Seq<FilterOp>) -> Seq<
    CompositionOp,
> {
    blend_ops(mode) + lowered_all(filters)
}

/// The whole pixels in a length of app units, rounded towards zero.
pub open spec fn whole_pixels(au: i32) -> int {
    if au >= 0 {
        au / 60
    } else {
        -((-au) / 60)
    }
}

/// `app_units::Au::to_px`: the length in pixels, rounded towards zero.
#[verifier::external_body]
fn au_to_px(au: i32) -> (px: i32)
    ensures
        px == whole_pixels(au),
{
    app_units::Au(au).to_px()
}

impl CompositionOp {
    /// The operation reads what the framebuffer holds.
    pub open spec fn reads_framebuffer(self) -> bool {
        self is MixBlend
    }

    /// The rectangle that the operation draws to when its source covers
    /// `rect`: a blur pass needs its radius more on both sides of its axis.
    pub open spec fn target_of(self, rect: Rect) -> Rect {
        match self {
            CompositionOp::Filter(LowLevelFilterOp::Blur(radius, AxisDirection::Horizontal)) => {
                rect.inflated(whole_pixels(radius) as i32, 0)
            },
            CompositionOp::Filter(LowLevelFilterOp::Blur(radius, AxisDirection::Vertical)) => {
                rect.inflated(0, whole_pixels(radius) as i32)
            },
            _ => rect,
        }
    }

    /// Whether the operation reads what the framebuffer holds.
    pub fn needs_framebuffer(&self) -> (b: bool)
        ensures
            b == self.reads_framebuffer(),
    {
        match self {
            CompositionOp::MixBlend(_) => true,
            CompositionOp::Filter(_) => false,
        }
    }

    /// The rectangle that the operation draws to when its source covers `rect`.
    pub fn target_rect(&self, rect: &Rect) -> (r: Rect)
        ensures
            r == self.target_of(*rect),
    {
        match self {
            CompositionOp::Filter(LowLevelFilterOp::Blur(radius, AxisDirection::Horizontal)) => {
                rect.inflate(au_to_px(*radius), 0)
            },
            CompositionOp::Filter(LowLevelFilterOp::Blur(radius, AxisDirection::Vertical)) => {
                rect.inflate(0, au_to_px(*radius))
            },
            _ => *rect,
        }
    }
}

/// The rectangle that a series of operations draws to, each taking the
/// target of the one before as its source.
pub open spec fn target_of_all(ops: Seq<CompositionOp>, rect: Rect) -> Rect
    decreases ops.len(),
{
    if ops.len() == 0 {
        rect
    } else {
        ops.last().target_of(target_of_all(ops.drop_last(), rect))
    }
}

/// Whether a blend mode asks for an operation of its own.
pub fn needs_composition_operation_for_mix_blend_mode(mode: MixBlendMode) -> (b: bool)
    ensures
        b == (mode != MixBlendMode::Normal),
{
    match mode {
        MixBlendMode::Normal => false,
        MixBlendMode::Multiply
        | MixBlendMode::Screen
        | MixBlendMode::Overlay
        | MixBlendMode::Darken
        | MixBlendMode::Lighten
        | MixBlendMode::ColorDodge
        | MixBlendMode::ColorBurn
        | MixBlendMode::HardLight
        | MixBlendMode::SoftLight
        | MixBlendMode::Difference
        | MixBlendMode::Exclusion
        | MixBlendMode::Hue
        | MixBlendMode::Saturation
        | MixBlendMode::Color
        | MixBlendMode::Luminosity => true,
    }
}

/// The operations of a stacking context with the given blend mode and
/// filters.
pub fn composition_operations(mode: MixBlendMode, filters: &Vec<FilterOp>) -> (ops: Vec<
    CompositionOp,
>)
    ensures
        ops@ == composition_ops(mode, filters@),
{
    let mut ops: Vec<CompositionOp> = Vec::new();
    if needs_composition_operation_for_mix_blend_mode(mode) {
        ops.push(CompositionOp::MixBlend(mode));
    }
    assert(ops@ =~= blend_ops(mode));
    let mut i: usize = 0;
    while i < filters.len()
        invariant
            i <= filters.len(),
            ops@ == blend_ops(mode) + lowered_all(filters@.take(i as int)),
        decreases filters.len() - i,
    {
        let ghost before = ops@;
        let ghost done = filters@.take(i as int);
        let ghost next = filters@.take(i + 1);
        assert(next.drop_last() =~= done);
        assert(next.last() == filters@[i as int]);
        match filters[i] {
            FilterOp::Blur(radius) => {
                ops.push(
                    CompositionOp::Filter(LowLevelFilterOp::Blur(radius, AxisDirection::Horizontal)),
                );
                ops.push(
                    CompositionOp::Filter(LowLevelFilterOp::Blur(radius, AxisDirection::Vertical)),
                );
            },
            FilterOp::Brightness(amount) => {
                ops.push(CompositionOp::Filter(LowLevelFilterOp::Brightness(amount)));
            },
            FilterOp::Contrast(amount) => {
                ops.push(CompositionOp::Filter(LowLevelFilterOp::Contrast(amount)));
            },
            FilterOp::Grayscale(amount) => {
                ops.push(CompositionOp::Filter(LowLevelFilterOp::Grayscale(amount)));
            },
            FilterOp::HueRotate(angle) => {
                ops.push(CompositionOp::Filter(LowLevelFilterOp::HueRotate(angle)));
            },
            FilterOp::Invert(amount) => {
                ops.push(CompositionOp::Filter(LowLevelFilterOp::Invert(amount)));
            },
            FilterOp::Opacity(amount) => {
                ops.push(CompositionOp::Filter(LowLevelFilterOp::Opacity(amount)));
            },
            FilterOp::Saturate(amount) => {
                ops.push(CompositionOp::Filter(LowLevelFilterOp::Saturate(amount)));
            },
            FilterOp::Sepia(amount) => {
                ops.push(CompositionOp::Filter(LowLevelFilterOp::Sepia(amount)));
            },
        }
        assert(ops@ =~= before + lowered(filters@[i as int]));
        assert(ops@ =~= blend_ops(mode) + lowered_all(next));
        i += 1;
    }
    assert(filters@.take(filters.len() as int) =~= filters@);
    ops
}

/// The rectangle that all of `ops` together draw to.
pub fn target_rect_of_all(ops: &Vec<CompositionOp>, rect: &Rect) -> (r: Rect)
    ensures
        r == target_of_all(ops@, *rect),
{
    let mut r = *rect;
    let mut i: usize = 0;
    while i < ops.len()
        invariant
            i <= ops.len(),
            r == target_of_all(ops@.take(i as int), *rect),
        decreases ops.len() - i,
    {
        assert(ops@.take(i + 1).drop_last() =~= ops@.take(i as int));
        r = ops[i].target_rect(&r);
        i += 1;
    }
    assert(ops@.take(ops.len() as int) =~= ops@);
    r
}

/// No series of filters contains a blend operation.
pub proof fn lemma_filters_never_blend(filters: Seq<FilterOp>, i: int)
    requires
        0 <= i < lowered_all(filters).len(),
    ensures
        lowered_all(filters)[i] is Filter,
    decreases filters.len(),
{
    if filters.len() > 0 {
        let head = lowered_all(filters.drop_last());
        if i < head.len() {
            lemma_filters_never_blend(filters.drop_last(), i);
        }
    }
}

/// The normal blend mode yields no operation: none of the operations of a
/// stacking context is a blend in the normal mode, and with the normal mode
/// and no filter there is no operation at all.
pub proof fn lemma_normal_blend_yields_nothing(mode: MixBlendMode, filters: Seq<FilterOp>, i: int)
    requires
        0 <= i < composition_ops(mode, filters).len(),
    ensures
        composition_ops(mode, filters)[i] != CompositionOp::MixBlend(MixBlendMode::Normal),
        composition_ops(MixBlendMode::Normal, filters) == lowered_all(filters),
        composition_ops(MixBlendMode::Normal, Seq::empty()) == Seq::<CompositionOp>::empty(),
{
    assert(composition_ops(MixBlendMode::Normal, filters) =~= lowered_all(filters));
    assert(composition_ops(MixBlendMode::Normal, Seq::empty()) =~= Seq::<CompositionOp>::empty());
    let head = blend_ops(mode);
    if i >= head.len() {
        lemma_filters_never_blend(filters, i - head.len());
    }
}

/// A blur of a radius of `radius` app units, done along both axes, widens
/// a bounded rectangle by the radius in whole pixels on every side, as
/// long as the result stays within the coordinate range.
pub proof fn lemma_blur_widens_every_side(radius: i32, rect: Rect)
    requires
        rect.bounded(),
        0 <= radius,
        coord_bounded(rect.origin.x - whole_pixels(radius)),
        coord_bounded(rect.origin.y - whole_pixels(radius)),
        coord_bounded(rect.size.width + 2 * whole_pixels(radius)),
        coord_bounded(rect.size.height + 2 * whole_pixels(radius)),
    ensures
        ({
            let r = target_of_all(lowered(FilterOp::Blur(radius)), rect);
            let px = whole_pixels(radius);
            &&& r.origin.x == rect.origin.x - px
            &&& r.origin.y == rect.origin.y - px
            &&& r.size.width == rect.size.width + 2 * px
            &&& r.size.height == rect.size.height + 2 * px
        }),
{
    let ops = lowered(FilterOp::Blur(radius));
    assert(ops.len() == 2);
    assert(ops.drop_last().len() == 1);
    assert(ops.drop_last().drop_last().len() == 0);
    reveal_with_fuel(target_of_all, 3);
    assert(ops.last() == CompositionOp::Filter(
        LowLevelFilterOp::Blur(radius, AxisDirection::Vertical),
    ));
    assert(ops.drop_last().last() == CompositionOp::Filter(
        LowLevelFilterOp::Blur(radius, AxisDirection::Horizontal),
    ));
}

} // verus!
