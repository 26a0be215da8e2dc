//! Draw-list groups: the units in which draw lists are batched.

use vstd::prelude::*;
use crate::types::{DrawListGroupId, DrawListId, RenderTargetId, ScrollLayerId, MAX_MATRICES_PER_BATCH};

verus! {

/// The draw lists that one batch draws. They all belong to one scroll layer
/// and go to one render target, and there are no more of them than a batch
/// can address.
#[derive(Debug, PartialEq, Eq)]
pub struct DrawListGroup {
    pub id: DrawListGroupId,
    pub scroll_layer_id: ScrollLayerId,
    pub render_target_id: RenderTargetId,
    pub draw_list_ids: Vec<DrawListId>,
}

/// What a group is, as plain values.
pub struct DrawListGroupView {
    pub id: DrawListGroupId,
    pub scroll_layer_id: ScrollLayerId,
    pub render_target_id: RenderTargetId,
    pub draw_list_ids: Seq<DrawListId>,
}

impl View for DrawListGroup {
    type V = DrawListGroupView;

    open spec fn view(&self) -> DrawListGroupView {
        DrawListGroupView {
            id: self.id,
            scroll_layer_id: self.scroll_layer_id,
            render_target_id: self.render_target_id,
            draw_list_ids: self.draw_list_ids@,
        }
    }
}

impl DrawListGroupView {
    /// A group without members.
    pub open spec fn empty(
        id: DrawListGroupId,
        scroll_layer_id: ScrollLayerId,
        render_target_id: RenderTargetId,
    ) -> DrawListGroupView {
        DrawListGroupView { id, scroll_layer_id, render_target_id, draw_list_ids: Seq::empty() }
    }

    /// The group holds no more draw lists than a batch can address.
    pub open spec fn wf(self) -> bool {
        self.draw_list_ids.len() <= MAX_MATRICES_PER_BATCH
    }

    /// A draw list of the given scroll layer and render target may join.
    pub open spec fn admits(
        self,
        scroll_layer_id: ScrollLayerId,
        render_target_id: RenderTargetId,
    ) -> bool {
        &&& scroll_layer_id == self.scroll_layer_id
        &&& render_target_id == self.render_target_id
        &&& self.draw_list_ids.len() < MAX_MATRICES_PER_BATCH
    }

    /// The group with one more member.
    pub open spec fn with(self, draw_list_id: DrawListId) -> DrawListGroupView {
        DrawListGroupView { draw_list_ids: self.draw_list_ids.push(draw_list_id), ..self }
    }
}

impl DrawListGroup {
    /// A group without members.
    pub fn new(
        id: DrawListGroupId,
        scroll_layer_id: ScrollLayerId,
        render_target_id: RenderTargetId,
    ) -> (g: DrawListGroup)
        ensures
            g@ == DrawListGroupView::empty(id, scroll_layer_id, render_target_id),
            g@.wf(),
    {
        DrawListGroup { id, scroll_layer_id, render_target_id, draw_list_ids: Vec::new() }
    }

    /// Whether a draw list of the given scroll layer and render target may join.
    pub fn can_add(&self, scroll_layer_id: ScrollLayerId, render_target_id: RenderTargetId) -> (ok:
        bool)
        ensures
            ok == self@.admits(scroll_layer_id, render_target_id),
    {
        let scroll_ok = scroll_layer_id == self.scroll_layer_id;
        let target_ok = render_target_id == self.render_target_id;
        let size_ok = self.draw_list_ids.len() < MAX_MATRICES_PER_BATCH;
        scroll_ok && target_ok && size_ok
    }

    /// Adds a draw list to a group that has room for it.
    pub fn push(&mut self, draw_list_id: DrawListId)
        requires
            old(self).draw_list_ids.len() < MAX_MATRICES_PER_BATCH,
        ensures
            final(self)@ == old(self)@.with(draw_list_id),
            final(self)@.wf(),
    {
        self.draw_list_ids.push(draw_list_id);
    }
}

/// A group that admits a draw list and takes it in keeps its scroll layer
/// and its render target and stays within the limit.
pub proof fn lemma_admitted_member_keeps_group(
    g: DrawListGroupView,
    scroll_layer_id: ScrollLayerId,
    render_target_id: RenderTargetId,
    draw_list_id: DrawListId,
)
    requires
        g.admits(scroll_layer_id, render_target_id),
    ensures
        g.with(draw_list_id).wf(),
        g.with(draw_list_id).scroll_layer_id == scroll_layer_id,
        g.with(draw_list_id).render_target_id == render_target_id,
{
}

} // verus!
