//! The part of the resource cache that a frame works with: the draw lists,
//! the textures that serve as render targets, and the resources that the
//! visible nodes ask for.

use vstd::prelude::*;
use crate::batch::ResourceList;
use crate::geometry::Rect;
use crate::lookup::{position, lemma_position_found, lemma_position_absent, lemma_position};
use crate::types::{DrawListId, StackingContextIndex, TextureId};

verus! {

/// The layout of the pixels of a texture.
#[derive(Clone, Copy, Debug, PartialEq, Eq, Structural)]
pub enum ImageFormat {
    A8,
    RGB8,
    RGBA8,
}

/// One item of a draw list. The frame reads where it lies.
#[derive(Clone, Copy, Debug, PartialEq, Eq, Structural)]
pub struct DisplayItem {
    pub rect: Rect,
}

/// A list of display items that are drawn together.
#[derive(Debug, PartialEq, Eq)]
pub struct DrawList {
    pub id: DrawListId,
    pub items: Vec<DisplayItem>,
    /// The record of the stacking context that the list was flattened in.
    pub stacking_context_index: Option<StackingContextIndex>,
}

/// A texture that has been handed out as a render target.
#[derive(Clone, Copy, Debug, PartialEq, Eq, Structural)]
pub struct RenderTargetTexture {
    pub id: TextureId,
    pub width: u32,
    pub height: u32,
    pub format: ImageFormat,
}

/// The draw lists, the textures handed out to render to, and the resources asked for.
#[derive(Debug)]
pub struct ResourceCache {
    pub draw_lists: Vec<DrawList>,
    /// The render targets that are handed out and not yet freed, in the
    /// order in which they were handed out.
    pub render_targets: Vec<RenderTargetTexture>,
    /// The number that the next render target gets.
    pub next_texture_id: u32,
    /// The resources asked for since the cache was last emptied of them.
    pub pending_resources: Vec<u32>,
}

/// The names of the draw lists.
pub open spec fn draw_list_ids(lists: Seq<DrawList>) -> Seq<DrawListId> {
    Seq::new(lists.len(), |i: int| lists[i].id)
}

/// The names of the textures.
pub open spec fn texture_ids(textures: Seq<RenderTargetTexture>) -> Seq<TextureId> {
    Seq::new(textures.len(), |i: int| textures[i].id)
}

/// The draw list that `id` names.
pub open spec fn draw_list_at(lists: Seq<DrawList>, id: DrawListId) -> Option<int> {
    position(draw_list_ids(lists), id)
}

/// Every texture handed out has a number below the next one, and no two
/// have the same.
pub open spec fn textures_wf(textures: Seq<RenderTargetTexture>, next: u32) -> bool {
    &&& forall|i: int| 0 <= i < textures.len() ==> textures[i].id.0 < next
    &&& forall|i: int, j: int|
        0 <= i < j < textures.len() ==> textures[i].id != textures[j].id
}

/// `textures` without the first that `id` names.
pub open spec fn without_texture(textures: Seq<RenderTargetTexture>, id: TextureId) -> Seq<
    RenderTargetTexture,
> {
    match position(texture_ids(textures), id) {
        Some(i) => textures.remove(i),
        None => textures,
    }
}

/// Finds the place of a draw list.
pub fn find_draw_list(lists: &Vec<DrawList>, id: DrawListId) -> (r: Option<usize>)
    ensures
        match r {
            Some(i) => draw_list_at(lists@, id) == Some(i as int) && i < lists.len(),
            None => draw_list_at(lists@, id) is None,
        },
{
    let mut i: usize = 0;
    while i < lists.len()
        invariant
            i <= lists.len(),
            forall|j: int| 0 <= j < i ==> draw_list_ids(lists@)[j] != id,
        decreases lists.len() - i,
    {
        if lists[i].id == id {
            proof {
                lemma_position_found(draw_list_ids(lists@), id, i as int);
            }
            return Some(i);
        }
        i += 1;
    }
    proof {
        lemma_position_absent(draw_list_ids(lists@), id);
    }
    None
}

impl ResourceCache {
    /// The textures that are handed out are in order.
    pub open spec fn wf(&self) -> bool {
        textures_wf(self.render_targets@, self.next_texture_id)
    }

    pub fn new() -> (c: ResourceCache)
        ensures
            c.wf(),
            c.draw_lists@.len() == 0,
            c.render_targets@.len() == 0,
            c.pending_resources@.len() == 0,
            c.next_texture_id == 0,
    {
        ResourceCache {
            draw_lists: Vec::new(),
            render_targets: Vec::new(),
            next_texture_id: 0,
            pending_resources: Vec::new(),
        }
    }

    /// Takes a draw list in.
    pub fn add_draw_list(&mut self, draw_list: DrawList)
        ensures
            final(self).draw_lists@ == old(self).draw_lists@.push(draw_list),
            final(self).render_targets == old(self).render_targets,
            final(self).next_texture_id == old(self).next_texture_id,
            final(self).pending_resources == old(self).pending_resources,
    {
        self.draw_lists.push(draw_list);
    }

    /// The draw list that `id` names.
    pub fn get_draw_list(&self, id: DrawListId) -> (r: Option<&DrawList>)
        ensures
            match r {
                Some(l) => draw_list_at(self.draw_lists@, id) matches Some(i)
                    && self.draw_lists@[i] == *l,
                None => draw_list_at(self.draw_lists@, id) is None,
            },
    {
        match find_draw_list(&self.draw_lists, id) {
            Some(i) => Some(&self.draw_lists[i]),
            None => None,
        }
    }

    /// Hands out a texture to render to. There is none to hand out once
    /// every number has been used.
    pub fn allocate_render_target(&mut self, width: u32, height: u32, format: ImageFormat) -> (r:
        Option<TextureId>)
        ensures
            old(self).wf() ==> final(self).wf(),
            final(self).draw_lists == old(self).draw_lists,
            final(self).pending_resources == old(self).pending_resources,
            match r {
                Some(id) => {
                    &&& old(self).next_texture_id < u32::MAX
                    &&& id == TextureId(old(self).next_texture_id)
                    &&& final(self).next_texture_id == old(self).next_texture_id + 1
                    &&& final(self).render_targets@ == old(self).render_targets@.push(
                        RenderTargetTexture { id, width, height, format },
                    )
                    &&& old(self).wf() ==> position(texture_ids(old(self).render_targets@), id)
                        is None
                },
                None => {
                    &&& old(self).next_texture_id == u32::MAX
                    &&& final(self).next_texture_id == old(self).next_texture_id
                    &&& final(self).render_targets == old(self).render_targets
                },
            },
    {
        if self.next_texture_id == u32::MAX {
            return None;
        }
        let id = TextureId(self.next_texture_id);
        proof {
            if self.wf() {
                lemma_position_absent(texture_ids(self.render_targets@), id);
            }
        }
        self.next_texture_id = self.next_texture_id + 1;
        self.render_targets.push(RenderTargetTexture { id, width, height, format });
        Some(id)
    }

    /// Takes a render target back. One that is not handed out is left
    /// alone.
    pub fn free_render_target(&mut self, id: TextureId)
        ensures
            old(self).wf() ==> final(self).wf(),
            final(self).draw_lists == old(self).draw_lists,
            final(self).pending_resources == old(self).pending_resources,
            final(self).next_texture_id == old(self).next_texture_id,
            final(self).render_targets@ == without_texture(old(self).render_targets@, id),
    {
        let mut i: usize = 0;
        while i < self.render_targets.len()
            invariant
                i <= self.render_targets.len(),
                *self == *old(self),
                forall|j: int| 0 <= j < i ==> texture_ids(self.render_targets@)[j] != id,
            decreases self.render_targets.len() - i,
        {
            if self.render_targets[i].id == id {
                proof {
                    lemma_position_found(texture_ids(self.render_targets@), id, i as int);
                }
                self.render_targets.remove(i);
                return ;
            }
            i += 1;
        }
        proof {
            lemma_position_absent(texture_ids(self.render_targets@), id);
        }
    }

    /// Takes note of the resources that a node needs.
    pub fn add_resource_list(&mut self, resource_list: &ResourceList)
        ensures
            final(self).pending_resources@ == old(self).pending_resources@
                + resource_list.required@,
            final(self).draw_lists == old(self).draw_lists,
            final(self).render_targets == old(self).render_targets,
            final(self).next_texture_id == old(self).next_texture_id,
    {
        let mut i: usize = 0;
        while i < resource_list.required.len()
            invariant
                i <= resource_list.required.len(),
                self.pending_resources@ == old(self).pending_resources@
                    + resource_list.required@.take(i as int),
                self.draw_lists == old(self).draw_lists,
                self.render_targets == old(self).render_targets,
                self.next_texture_id == old(self).next_texture_id,
            decreases resource_list.required.len() - i,
        {
            self.pending_resources.push(resource_list.required[i]);
            i += 1;
        }
        assert(resource_list.required@.take(resource_list.required.len() as int)
            =~= resource_list.required@);
    }
}

/// A texture that has been freed is no longer handed out, and every other
/// still is.
pub proof fn lemma_freed_is_gone(textures: Seq<RenderTargetTexture>, next: u32, id: TextureId)
    requires
        textures_wf(textures, next),
    ensures
        position(texture_ids(without_texture(textures, id)), id) is None,
        position(texture_ids(textures), id) is Some ==> without_texture(textures, id).len()
            == textures.len() - 1,
        position(texture_ids(textures), id) is None ==> without_texture(textures, id) == textures,
{
    lemma_position(texture_ids(textures), id);
    let rest = without_texture(textures, id);
    match position(texture_ids(textures), id) {
        Some(i) => {
            assert forall|j: int| 0 <= j < rest.len() implies texture_ids(rest)[j] != id by {
                if j < i {
                    assert(rest[j] == textures[j]);
                    assert(texture_ids(textures)[j] != id);
                } else {
                    assert(rest[j] == textures[j + 1]);
                    assert(textures[i].id != textures[j + 1].id);
                }
            }
            lemma_position_absent(texture_ids(rest), id);
        },
        None => {},
    }
}

} // verus!
