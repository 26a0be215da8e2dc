//! Render targets and the items that are rendered to them.

use vstd::prelude::*;
use crate::composition::CompositionOp;
use crate::geometry::Rect;
use crate::types::{DrawListGroupId, RenderTargetId, RenderTargetIndex, TextureId};
use crate::views::{views, group_views};

verus! {

broadcast use group_views;

/// Which buffers a clear wipes.
#[derive(Clone, Copy, Debug, PartialEq, Eq, Structural)]
pub struct ClearInfo {
    pub clear_color: bool,
    pub clear_z: bool,
    pub clear_stencil: bool,
}

/// One picture to composite: the rectangle it goes to, and the child render
/// target that holds it.
#[derive(Clone, Copy, Debug, PartialEq, Eq, Structural)]
pub struct CompositeBatchJob {
    pub rect: Rect,
    pub render_target_index: RenderTargetIndex,
}

/// Jobs that one operation composites in one go.
#[derive(Debug, PartialEq, Eq)]
pub struct CompositeBatchInfo {
    pub operation: CompositionOp,
    pub jobs: Vec<CompositeBatchJob>,
}

/// One thing to render to a render target.
#[derive(Debug, PartialEq, Eq)]
pub enum FrameRenderItem {
    Clear(ClearInfo),
    CompositeBatch(CompositeBatchInfo),
    DrawListBatch(DrawListGroupId),
}

/// A render item as plain values.
pub enum RenderItemView {
    Clear(ClearInfo),
    CompositeBatch { operation: CompositionOp, jobs: Seq<CompositeBatchJob> },
    DrawListBatch(DrawListGroupId),
}

impl View for FrameRenderItem {
    type V = RenderItemView;

    open spec fn view(&self) -> RenderItemView {
        match *self {
            FrameRenderItem::Clear(info) => RenderItemView::Clear(info),
            FrameRenderItem::CompositeBatch(info) => RenderItemView::CompositeBatch {
                operation: info.operation,
                jobs: info.jobs@,
            },
            FrameRenderItem::DrawListBatch(id) => RenderItemView::DrawListBatch(id),
        }
    }
}

/// A surface to render to: the items to render, in their order, and the
/// targets whose pictures those items composite.
///
/// The targets of a frame stand in one list, parents before their children,
/// and `children` holds the places of the children in that list.
#[derive(Debug, PartialEq, Eq)]
pub struct RenderTarget {
    pub id: RenderTargetId,
    pub children: Vec<usize>,
    pub items: Vec<FrameRenderItem>,
    /// The texture that the children are rendered to.
    pub child_texture_id: Option<TextureId>,
    pub width: u32,
    pub height: u32,
}

/// A render target as plain values.
pub struct RenderTargetView {
    pub id: RenderTargetId,
    pub children: Seq<usize>,
    pub items: Seq<RenderItemView>,
    pub child_texture_id: Option<TextureId>,
    pub width: u32,
    pub height: u32,
}

impl View for RenderTarget {
    type V = RenderTargetView;

    open spec fn view(&self) -> RenderTargetView {
        RenderTargetView {
            id: self.id,
            children: self.children@,
            items: views(self.items@),
            child_texture_id: self.child_texture_id,
            width: self.width,
            height: self.height,
        }
    }
}

/// The items after a composite of `job` by `operation` has been added.
///
/// The job joins the last item if that is a composite batch of the same
/// operation and the operation does not read the framebuffer. Otherwise it
/// starts a batch of its own.
pub open spec fn with_composite(
    items: Seq<RenderItemView>,
    operation: CompositionOp,
    job: CompositeBatchJob,
) -> Seq<RenderItemView> {
    if !operation.reads_framebuffer() && items.len() > 0 && joins(items.last(), operation) {
        items.drop_last().push(
            RenderItemView::CompositeBatch {
                operation,
                jobs: items.last()->CompositeBatch_jobs.push(job),
            },
        )
    } else {
        items.push(RenderItemView::CompositeBatch { operation, jobs: seq![job] })
    }
}

/// `item` is a composite batch of `operation`.
pub open spec fn joins(item: RenderItemView, operation: CompositionOp) -> bool {
    item matches RenderItemView::CompositeBatch { operation: o, .. } && o == operation
}

impl RenderTargetView {
    /// A render target without items and children.
    pub open spec fn empty(id: RenderTargetId, width: u32, height: u32) -> RenderTargetView {
        RenderTargetView {
            id,
            children: Seq::empty(),
            items: Seq::empty(),
            child_texture_id: None,
            width,
            height,
        }
    }

    /// The render target with one more item.
    pub open spec fn with_item(self, item: RenderItemView) -> RenderTargetView {
        RenderTargetView { items: self.items.push(item), ..self }
    }

    /// The render target after a composite has been added.
    pub open spec fn with_composite(
        self,
        operation: CompositionOp,
        job: CompositeBatchJob,
    ) -> RenderTargetView {
        RenderTargetView { items: with_composite(self.items, operation, job), ..self }
    }

    /// The render target with one more child.
    pub open spec fn with_child(self, child: usize) -> RenderTargetView {
        RenderTargetView { children: self.children.push(child), ..self }
    }
}

impl RenderTarget {
    pub fn new(id: RenderTargetId, width: u32, height: u32) -> (t: RenderTarget)
        ensures
            t@ == RenderTargetView::empty(id, width, height),
    {
        RenderTarget {
            id,
            children: Vec::new(),
            items: Vec::new(),
            child_texture_id: None,
            width,
            height,
        }
    }

    /// Adds a clear.
    pub fn push_clear(&mut self, clear_info: ClearInfo)
        ensures
            final(self)@ == old(self)@.with_item(RenderItemView::Clear(clear_info)),
    {
        self.items.push(FrameRenderItem::Clear(clear_info));
    }

    /// Adds the batch of a draw-list group.
    pub fn push_draw_list_group(&mut self, draw_list_group_id: DrawListGroupId)
        ensures
            final(self)@ == old(self)@.with_item(RenderItemView::DrawListBatch(draw_list_group_id)),
    {
        self.items.push(FrameRenderItem::DrawListBatch(draw_list_group_id));
    }

    /// Makes the render target at `child` a child.
    pub fn push_child(&mut self, child: usize)
        ensures
            final(self)@ == old(self)@.with_child(child),
    {
        self.children.push(child);
    }

    /// Adds the composite of the child at `render_target_index` by `op` to `target`: to the
    /// last batch where that takes it, and else to a batch of its own.
    pub fn push_composite(
        &mut self,
        op: CompositionOp,
        target: Rect,
        render_target_index: RenderTargetIndex,
    )
        ensures
            final(self)@ == old(self)@.with_composite(
                op,
                CompositeBatchJob { rect: target, render_target_index },
            ),
    {
        let job = CompositeBatchJob { rect: target, render_target_index };
        let ghost before = self.items@;
        let last = self.items.pop();
        match last {
            Some(FrameRenderItem::CompositeBatch(info)) => {
                if !op.needs_framebuffer() && info.operation == op {
                    let mut info = info;
                    info.jobs.push(job);
                    self.items.push(FrameRenderItem::CompositeBatch(info));
                    assert(views(self.items@) =~= with_composite(views(before), op, job));
                } else {
                    self.items.push(FrameRenderItem::CompositeBatch(info));
                    assert(self.items@ =~= before);
                    let mut jobs = Vec::new();
                    jobs.push(job);
                    self.items.push(
                        FrameRenderItem::CompositeBatch(CompositeBatchInfo { operation: op, jobs }),
                    );
                    assert(jobs@ =~= seq![job]);
                    assert(views(self.items@) =~= with_composite(views(before), op, job));
                }
            },
            Some(other) => {
                self.items.push(other);
                assert(self.items@ =~= before);
                let mut jobs = Vec::new();
                jobs.push(job);
                self.items.push(
                    FrameRenderItem::CompositeBatch(CompositeBatchInfo { operation: op, jobs }),
                );
                assert(jobs@ =~= seq![job]);
                assert(views(self.items@) =~= with_composite(views(before), op, job));
            },
            None => {
                let mut jobs = Vec::new();
                jobs.push(job);
                self.items.push(
                    FrameRenderItem::CompositeBatch(CompositeBatchInfo { operation: op, jobs }),
                );
                assert(jobs@ =~= seq![job]);
                assert(views(self.items@) =~= with_composite(views(before), op, job));
            },
        }
    }
}

/// Adding a composite never changes an item but the last, and leaves one
/// more job in the batches of the target.
pub proof fn lemma_composite_touches_only_the_end(
    items: Seq<RenderItemView>,
    operation: CompositionOp,
    job: CompositeBatchJob,
)
    ensures
        with_composite(items, operation, job).len() >= items.len(),
        with_composite(items, operation, job).len() <= items.len() + 1,
        forall|i: int|
            0 <= i < items.len() - 1 ==> with_composite(items, operation, job)[i] == items[i],
        joins(with_composite(items, operation, job).last(), operation),
        with_composite(items, operation, job).last()->CompositeBatch_jobs.last() == job,
        operation.reads_framebuffer() ==> with_composite(items, operation, job) == items.push(
            RenderItemView::CompositeBatch { operation, jobs: seq![job] },
        ),
{
}

} // verus!
