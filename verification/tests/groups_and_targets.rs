use frame_builder::composition::{CompositionOp, LowLevelFilterOp, MixBlendMode};
use frame_builder::draw_list_group::DrawListGroup;
use frame_builder::geometry::{Point, Rect, Size};
use frame_builder::render_target::{
    ClearInfo, CompositeBatchInfo, CompositeBatchJob, FrameRenderItem, RenderTarget,
};
use frame_builder::types::{
    DrawListGroupId, DrawListId, RenderTargetId, RenderTargetIndex, ScrollLayerId,
    MAX_MATRICES_PER_BATCH,
};

fn gt_rect(x: i32, y: i32, w: i32, h: i32) -> Rect {
    Rect { origin: Point { x, y }, size: Size { width: w, height: h } }
}

fn job(r: Rect, index: usize) -> CompositeBatchJob {
    CompositeBatchJob { rect: r, render_target_index: RenderTargetIndex(index) }
}

#[test]
fn a_group_admits_its_own_layer_and_target_while_it_has_room() {
    let mut g = DrawListGroup::new(DrawListGroupId(3), ScrollLayerId::Normal(1), RenderTargetId(2));
    assert!(g.can_add(ScrollLayerId::Normal(1), RenderTargetId(2)));
    assert!(!g.can_add(ScrollLayerId::Normal(2), RenderTargetId(2)));
    assert!(!g.can_add(ScrollLayerId::Fixed, RenderTargetId(2)));
    assert!(!g.can_add(ScrollLayerId::Normal(1), RenderTargetId(1)));
    for i in 0..MAX_MATRICES_PER_BATCH {
        assert!(g.can_add(ScrollLayerId::Normal(1), RenderTargetId(2)));
        g.push(DrawListId(i as u32));
    }
    assert_eq!(g.draw_list_ids.len(), MAX_MATRICES_PER_BATCH);
    assert!(!g.can_add(ScrollLayerId::Normal(1), RenderTargetId(2)));
    assert_eq!(g.draw_list_ids[5], DrawListId(5));
}

#[test]
fn the_limit_of_a_batch() {
    assert_eq!(MAX_MATRICES_PER_BATCH, 32);
}

#[test]
fn composites_of_one_filter_share_a_batch() {
    let op = CompositionOp::Filter(LowLevelFilterOp::Opacity(30));
    let mut t = RenderTarget::new(RenderTargetId(0), 800, 600);
    t.push_composite(op, gt_rect(0, 0, 10, 10), RenderTargetIndex(0));
    t.push_composite(op, gt_rect(5, 5, 10, 10), RenderTargetIndex(1));
    assert_eq!(
        t.items,
        vec![FrameRenderItem::CompositeBatch(CompositeBatchInfo {
            operation: op,
            jobs: vec![job(gt_rect(0, 0, 10, 10), 0), job(gt_rect(5, 5, 10, 10), 1)],
        })]
    );
}

#[test]
fn composites_of_different_filters_get_batches_of_their_own() {
    let a = CompositionOp::Filter(LowLevelFilterOp::Opacity(30));
    let b = CompositionOp::Filter(LowLevelFilterOp::Opacity(31));
    let mut t = RenderTarget::new(RenderTargetId(0), 800, 600);
    t.push_composite(a, gt_rect(0, 0, 10, 10), RenderTargetIndex(0));
    t.push_composite(b, gt_rect(0, 0, 10, 10), RenderTargetIndex(1));
    t.push_composite(a, gt_rect(0, 0, 10, 10), RenderTargetIndex(2));
    assert_eq!(t.items.len(), 3);
}

#[test]
fn a_blend_always_starts_a_batch() {
    let op = CompositionOp::MixBlend(MixBlendMode::Multiply);
    let mut t = RenderTarget::new(RenderTargetId(0), 800, 600);
    t.push_composite(op, gt_rect(0, 0, 10, 10), RenderTargetIndex(0));
    t.push_composite(op, gt_rect(0, 0, 10, 10), RenderTargetIndex(1));
    assert_eq!(
        t.items,
        vec![
            FrameRenderItem::CompositeBatch(CompositeBatchInfo {
                operation: op,
                jobs: vec![job(gt_rect(0, 0, 10, 10), 0)],
            }),
            FrameRenderItem::CompositeBatch(CompositeBatchInfo {
                operation: op,
                jobs: vec![job(gt_rect(0, 0, 10, 10), 1)],
            }),
        ]
    );
}

#[test]
fn another_item_between_two_composites_breaks_the_batch() {
    let op = CompositionOp::Filter(LowLevelFilterOp::Sepia(60));
    let clear = ClearInfo { clear_color: false, clear_z: true, clear_stencil: true };
    let mut t = RenderTarget::new(RenderTargetId(7), 1, 1);
    t.push_composite(op, gt_rect(0, 0, 1, 1), RenderTargetIndex(0));
    t.push_clear(clear);
    t.push_composite(op, gt_rect(0, 0, 1, 1), RenderTargetIndex(1));
    t.push_draw_list_group(DrawListGroupId(9));
    t.push_composite(op, gt_rect(0, 0, 1, 1), RenderTargetIndex(2));
    assert_eq!(t.items.len(), 5);
    assert_eq!(t.items[1], FrameRenderItem::Clear(clear));
    assert_eq!(t.items[3], FrameRenderItem::DrawListBatch(DrawListGroupId(9)));
    assert_eq!(t.id, RenderTargetId(7));
    assert_eq!(t.child_texture_id, None);
    assert!(t.children.is_empty());
}
