//! The textures that the render targets of a frame hold for their
//! children.
//!
//! Every such texture is handed out by the cache, and no two render
//! targets hold the same.

use vstd::prelude::*;
use crate::collect::{collect_start, collected, collected_upto, CollectState, target_collected};
use crate::frame::FrameView;
use crate::lookup::{lemma_position, lemma_position_push, position};
use crate::render_target::RenderTargetView;
use crate::reset::lemma_without_texture;
use crate::resource_cache::{
    DrawList, ImageFormat, RenderTargetTexture, texture_ids, textures_wf, without_texture,
};
use crate::shape::lemma_collected_upto_shape;
use crate::soundness::no_textures;
use crate::types::{CHILD_TEXTURE_SIZE, TextureId};

verus! {

/// The render target at `t` holds a texture that the cache has handed
/// out.
pub open spec fn holds_live(
    targets: Seq<RenderTargetView>,
    textures: Seq<RenderTargetTexture>,
    t: int,
) -> bool {
    targets[t].child_texture_id matches Some(x) ==> position(texture_ids(textures), x) is Some
}

/// The cache is in order, every texture that a render target holds is
/// handed out, and no two render targets hold the same.
pub open spec fn textures_in_order(
    targets: Seq<RenderTargetView>,
    textures: Seq<RenderTargetTexture>,
    next: u32,
) -> bool {
    &&& textures_wf(textures, next)
    &&& forall|t: int| 0 <= t < targets.len() ==> #[trigger] holds_live(targets, textures, t)
    &&& forall|t: int, u: int|
        0 <= t < u < targets.len() && (#[trigger] targets[t]).child_texture_id is Some
            ==> targets[t].child_texture_id != (#[trigger] targets[u]).child_texture_id
}

/// Collecting a render target leaves the textures in order.
pub proof fn lemma_target_collected_textures(
    state: CollectState,
    draw_lists: Seq<DrawList>,
    t: int,
    device_pixel_ratio: u32,
)
    requires
        0 <= t < state.frame.render_targets.len(),
        textures_in_order(state.frame.render_targets, state.textures, state.next_texture_id),
    ensures
        target_collected(state, draw_lists, t, device_pixel_ratio) matches Ok(s)
            ==> textures_in_order(s.frame.render_targets, s.textures, s.next_texture_id) && (
        state.frame.render_targets[t].children.len() > 0
            ==> s.frame.render_targets[t].child_texture_id == Some(
            TextureId(state.next_texture_id),
        )),
{
    match target_collected(state, draw_lists, t, device_pixel_ratio) {
        Err(_) => {},
        Ok(s) => {
            let targets = state.frame.render_targets;
            let target = targets[t];
            if target.children.len() > 0 {
                let next = state.next_texture_id;
                let id = TextureId(next);
                let kept = match target.child_texture_id {
                    Some(old) => without_texture(state.textures, old),
                    None => state.textures,
                };
                let fresh = RenderTargetTexture {
                    id,
                    width: (CHILD_TEXTURE_SIZE * device_pixel_ratio) as u32,
                    height: (CHILD_TEXTURE_SIZE * device_pixel_ratio) as u32,
                    format: ImageFormat::RGBA8,
                };
                let after = s.frame.render_targets;
                assert(s.textures == kept.push(fresh));
                assert(texture_ids(s.textures) =~= texture_ids(kept).push(id));
                if target.child_texture_id is Some {
                    lemma_without_texture(state.textures, next, target.child_texture_id->0, id);
                }
                assert(textures_wf(kept, next));
                assert forall|i: int| 0 <= i < s.textures.len() implies (#[trigger] s.textures[i]).id.0
                    < s.next_texture_id by {
                    if i < kept.len() {
                        assert(kept[i].id.0 < next);
                    }
                }
                assert forall|i: int, j: int| 0 <= i < j < s.textures.len() implies s.textures[i].id
                    != s.textures[j].id by {
                    if j < kept.len() {
                        assert(kept[i].id != kept[j].id);
                    } else {
                        assert(kept[i].id.0 < next);
                    }
                }
                assert forall|u: int| 0 <= u < after.len() implies #[trigger] holds_live(
                    after,
                    s.textures,
                    u,
                ) by {
                    if u == t {
                        lemma_position_push(texture_ids(kept), id, id);
                    } else if after[u].child_texture_id is Some {
                        let x = after[u].child_texture_id->0;
                        assert(after[u] == targets[u]);
                        assert(holds_live(targets, state.textures, u));
                        if target.child_texture_id is Some {
                            let old = target.child_texture_id->0;
                            if u < t {
                                assert(targets[u].child_texture_id != targets[t].child_texture_id);
                            } else {
                                assert(targets[t].child_texture_id != targets[u].child_texture_id);
                            }
                            lemma_without_texture(state.textures, next, old, x);
                        }
                        lemma_position_push(texture_ids(kept), id, x);
                    }
                }
                assert forall|a: int, b: int|
                    0 <= a < b < after.len() && (#[trigger] after[a]).child_texture_id
                        is Some implies after[a].child_texture_id != (
                #[trigger] after[b]).child_texture_id by {
                    if a != t {
                        assert(after[a] == targets[a]);
                        assert(holds_live(targets, state.textures, a));
                        lemma_position(texture_ids(state.textures), after[a].child_texture_id->0);
                    }
                    if b != t {
                        assert(after[b] == targets[b]);
                        if after[b].child_texture_id is Some {
                            assert(holds_live(targets, state.textures, b));
                            lemma_position(
                                texture_ids(state.textures),
                                after[b].child_texture_id->0,
                            );
                        }
                    }
                    if a != t && b != t {
                        assert(targets[a].child_texture_id != targets[b].child_texture_id);
                    }
                }
            } else {
                assert forall|u: int| 0 <= u < targets.len() implies #[trigger] holds_live(
                    s.frame.render_targets,
                    s.textures,
                    u,
                ) by {
                    assert(holds_live(targets, state.textures, u));
                }
            }
        },
    }
}

/// Collecting leaves the textures in order.
pub proof fn lemma_collected_upto_textures(
    state: CollectState,
    draw_lists: Seq<DrawList>,
    n: int,
    device_pixel_ratio: u32,
)
    requires
        textures_in_order(state.frame.render_targets, state.textures, state.next_texture_id),
    ensures
        collected_upto(state, draw_lists, n, device_pixel_ratio) matches Ok(s)
            ==> textures_in_order(s.frame.render_targets, s.textures, s.next_texture_id),
    decreases n,
{
    if !(n <= 0 || n > state.frame.render_targets.len()) {
        lemma_collected_upto_textures(state, draw_lists, n - 1, device_pixel_ratio);
        match collected_upto(state, draw_lists, n - 1, device_pixel_ratio) {
            Err(_) => {},
            Ok(s) => {
                lemma_collected_upto_shape(
                    state,
                    draw_lists,
                    n - 1,
                    device_pixel_ratio,
                );
                lemma_target_collected_textures(s, draw_lists, n - 1, device_pixel_ratio);
            },
        }
    }
}

/// After a frame has been collected, every render target with children
/// holds a texture for them, these textures are all handed out by the
/// cache, and no two of them are the same.
pub proof fn lemma_collected_textures_apart(
    frame: FrameView,
    draw_lists: Seq<DrawList>,
    textures: Seq<RenderTargetTexture>,
    next_texture_id: u32,
    device_pixel_ratio: u32,
)
    requires
        textures_in_order(frame.render_targets, textures, next_texture_id),
    ensures
        collected(frame, draw_lists, textures, next_texture_id, device_pixel_ratio) matches Ok(s)
            ==> textures_in_order(s.frame.render_targets, s.textures, s.next_texture_id),
{
    lemma_collected_upto_textures(
        collect_start(frame, textures, next_texture_id),
        draw_lists,
        frame.render_targets.len() as int,
        device_pixel_ratio,
    );
}

/// Render targets that hold no texture have their textures in order with
/// any cache that is: so have those of a frame that has just been built
/// from a scene.
pub proof fn lemma_no_textures_in_order(
    targets: Seq<RenderTargetView>,
    textures: Seq<RenderTargetTexture>,
    next: u32,
)
    requires
        textures_wf(textures, next),
        no_textures(targets),
    ensures
        textures_in_order(targets, textures, next),
{
    assert forall|t: int| 0 <= t < targets.len() implies #[trigger] holds_live(
        targets,
        textures,
        t,
    ) by {
        assert(targets[t].child_texture_id is None);
    }
}

} // verus!
