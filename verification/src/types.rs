//! Identifiers and limits shared by the whole library.

use vstd::prelude::*;

verus! {

/// The number of draw lists that one batch can address: each takes one
/// entry of the matrix palette.
pub const MAX_MATRICES_PER_BATCH: usize = 32;

/// The side, in logical pixels, of the texture that holds the children of a
/// render target.
pub const CHILD_TEXTURE_SIZE: u32 = 2048;

#[derive(Clone, Copy, Debug, PartialEq, Eq, Structural)]
pub struct PipelineId(pub u32, pub u32);

#[derive(Clone, Copy, Debug, PartialEq, Eq, Structural)]
pub struct Epoch(pub u32);

#[derive(Clone, Copy, Debug, PartialEq, Eq, Structural)]
pub struct StackingContextId(pub u32, pub u32);

#[derive(Clone, Copy, Debug, PartialEq, Eq, Structural)]
pub struct DisplayListId(pub u32, pub u32);

#[derive(Clone, Copy, Debug, PartialEq, Eq, Structural)]
pub struct DrawListId(pub u32);

#[derive(Clone, Copy, Debug, PartialEq, Eq, Structural)]
pub struct DrawListItemIndex(pub usize);

#[derive(Clone, Copy, Debug, PartialEq, Eq, Structural)]
pub struct DrawListGroupId(pub u32);

#[derive(Clone, Copy, Debug, PartialEq, Eq, Structural)]
pub struct RenderTargetId(pub u32);

/// The place of a render target among the children of its parent.
#[derive(Clone, Copy, Debug, PartialEq, Eq, Structural)]
pub struct RenderTargetIndex(pub usize);

/// The place of a record in the frame's list of stacking-context records.
#[derive(Clone, Copy, Debug, PartialEq, Eq, Structural)]
pub struct StackingContextIndex(pub usize);

#[derive(Clone, Copy, Debug, PartialEq, Eq, Structural)]
pub struct TextureId(pub u32);

#[derive(Clone, Copy, Debug, PartialEq, Eq, Structural)]
pub struct VertexBufferId(pub u32);

/// Names a matrix that the embedder holds.
#[derive(Clone, Copy, Debug, PartialEq, Eq, Structural)]
pub struct MatrixId(pub u32);

/// Names a scroll layer.
#[derive(Clone, Copy, Debug, PartialEq, Eq, Structural)]
pub enum ScrollLayerId {
    /// The one layer of content that does not scroll.
    Fixed,
    Normal(u32),
}

/// Whether content scrolls with its scroll layer.
#[derive(Clone, Copy, Debug, PartialEq, Eq, Structural)]
pub enum ScrollPolicy {
    Fixed,
    Scrollable,
}

/// The level at which an item is painted.
#[derive(Clone, Copy, Debug, PartialEq, Eq, Structural)]
pub enum StackingLevel {
    BackgroundAndBorders,
    BlockBackgroundAndBorders,
    PositionedContent,
    Floats,
    Content,
    Outlines,
}

} // verus!
