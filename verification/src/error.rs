//! The ways in which a scene can be unfit for a frame.

use vstd::prelude::*;

verus! {

/// Why a frame could not be built.
#[derive(Clone, Copy, Debug, PartialEq, Eq, Structural)]
pub enum FrameError {
    /// The scene names no root pipeline, or one that it does not hold.
    MissingRootPipeline,
    /// A stacking context is referred to that the scene does not hold.
    MissingStackingContext,
    /// A display list is referred to that the scene does not hold.
    MissingDisplayList,
    /// A draw list is referred to that the resource cache does not hold.
    MissingDrawList,
    /// The root stacking context has no scroll layer of its own.
    RootNotScrollLayer,
    /// A stacking context that does not scroll has a scroll layer of its own.
    FixedWithScrollLayer,
    /// Two stacking contexts claim one scroll layer.
    DuplicateScrollLayer,
    /// A scroll layer is referred to before it exists.
    MissingScrollLayer,
    /// A render target is referred to that the frame does not hold.
    MissingRenderTarget,
    /// Stacking contexts and iframes are nested deeper than `MAX_NESTING`.
    NestingTooDeep,
    /// No identifier is left for a render target, a draw-list group or a
    /// texture.
    IdsExhausted,
    /// The children of a render target do not fit the texture that is to
    /// hold them.
    AtlasOverflow,
}

} // verus!
