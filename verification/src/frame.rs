//! The frame: what flattening a scene leaves behind, and what a renderer
//! frame is built from.

use vstd::prelude::*;
use crate::batch::{BatchUpdate, BatchUpdateList};
use crate::draw_list_group::{DrawListGroup, DrawListGroupView};
use crate::geometry::{Point, Rect, Size};
use crate::layer::{Layer, LayerView};
use crate::render_target::{RenderTarget, RenderTargetView};
use crate::resource_cache::DrawList;
use crate::transform::{Factor, Transform};
use crate::types::{DrawListGroupId, Epoch, PipelineId, RenderTargetId, ScrollLayerId};
use crate::views::views;

verus! {

/// What a draw list needs to know of the stacking context it was
/// flattened in.
#[derive(Debug, PartialEq, Eq)]
pub struct StackingContextInfo {
    pub offset_from_layer: Point,
    pub local_clip_rect: Rect,
    pub transform: Transform,
    pub perspective: Transform,
}

/// The record of a stacking context, as plain values.
pub struct StackingContextInfoView {
    pub offset_from_layer: Point,
    pub local_clip_rect: Rect,
    pub transform: Seq<Factor>,
    pub perspective: Seq<Factor>,
}

impl View for StackingContextInfo {
    type V = StackingContextInfoView;

    open spec fn view(&self) -> StackingContextInfoView {
        StackingContextInfoView {
            offset_from_layer: self.offset_from_layer,
            local_clip_rect: self.local_clip_rect,
            transform: self.transform@,
            perspective: self.perspective@,
        }
    }
}

/// What a stacking context hands down to what it holds.
#[derive(Debug)]
pub struct FlattenInfo {
    pub viewport_size: Size,
    pub current_clip_rect: Rect,
    /// The scroll layer of content that scrolls.
    pub default_scroll_layer_id: ScrollLayerId,
    /// The scroll layer of this content.
    pub actual_scroll_layer_id: ScrollLayerId,
    pub offset_from_origin: Point,
    pub offset_from_current_layer: Point,
    pub transform: Transform,
    pub perspective: Transform,
}

/// What is handed down, as plain values.
pub struct FlattenInfoView {
    pub viewport_size: Size,
    pub current_clip_rect: Rect,
    pub default_scroll_layer_id: ScrollLayerId,
    pub actual_scroll_layer_id: ScrollLayerId,
    pub offset_from_origin: Point,
    pub offset_from_current_layer: Point,
    pub transform: Seq<Factor>,
    pub perspective: Seq<Factor>,
}

impl View for FlattenInfo {
    type V = FlattenInfoView;

    open spec fn view(&self) -> FlattenInfoView {
        FlattenInfoView {
            viewport_size: self.viewport_size,
            current_clip_rect: self.current_clip_rect,
            default_scroll_layer_id: self.default_scroll_layer_id,
            actual_scroll_layer_id: self.actual_scroll_layer_id,
            offset_from_origin: self.offset_from_origin,
            offset_from_current_layer: self.offset_from_current_layer,
            transform: self.transform@,
            perspective: self.perspective@,
        }
    }
}

impl FlattenInfoView {
    /// The record that draw lists flattened under this get.
    pub open spec fn record(self) -> StackingContextInfoView {
        StackingContextInfoView {
            offset_from_layer: self.offset_from_current_layer,
            local_clip_rect: self.current_clip_rect,
            transform: self.transform,
            perspective: self.perspective,
        }
    }
}

/// The render targets of a frame stand in one list; the first is the root,
/// and every other is the child of one that stands before it. In the same
/// way every scroll layer but the first of a tree stands behind its parent.
#[derive(Debug)]
pub struct Frame {
    pub layers: Vec<Layer>,
    pub pipeline_epoch_map: Vec<(PipelineId, Epoch)>,
    pub pending_updates: BatchUpdateList,
    pub render_targets: Vec<RenderTarget>,
    pub stacking_context_info: Vec<StackingContextInfo>,
    pub next_render_target_id: RenderTargetId,
    pub next_draw_list_group_id: DrawListGroupId,
    pub draw_list_groups: Vec<DrawListGroup>,
    pub root_scroll_layer_id: Option<ScrollLayerId>,
}

/// A frame as plain values.
pub struct FrameView {
    pub layers: Seq<LayerView>,
    pub pipeline_epoch_map: Seq<(PipelineId, Epoch)>,
    pub pending_updates: Seq<BatchUpdate>,
    pub render_targets: Seq<RenderTargetView>,
    pub stacking_context_info: Seq<StackingContextInfoView>,
    pub next_render_target_id: RenderTargetId,
    pub next_draw_list_group_id: DrawListGroupId,
    pub draw_list_groups: Seq<DrawListGroupView>,
    pub root_scroll_layer_id: Option<ScrollLayerId>,
}

impl View for Frame {
    type V = FrameView;

    open spec fn view(&self) -> FrameView {
        FrameView {
            layers: views(self.layers@),
            pipeline_epoch_map: self.pipeline_epoch_map@,
            pending_updates: self.pending_updates.updates@,
            render_targets: views(self.render_targets@),
            stacking_context_info: views(self.stacking_context_info@),
            next_render_target_id: self.next_render_target_id,
            next_draw_list_group_id: self.next_draw_list_group_id,
            draw_list_groups: views(self.draw_list_groups@),
            root_scroll_layer_id: self.root_scroll_layer_id,
        }
    }
}

/// What flattening works on besides the frame.
#[derive(Debug)]
pub struct FlattenContext {
    pub draw_lists: Vec<DrawList>,
    /// The size of the iframe that shows each pipeline.
    pub pipeline_sizes: Vec<(PipelineId, Size)>,
    /// The draw-list group that is being filled.
    pub current_draw_list_group: Option<DrawListGroup>,
}

/// The group that is being filled, as plain values.
pub open spec fn group_view(group: Option<DrawListGroup>) -> Option<DrawListGroupView> {
    match group {
        Some(g) => Some(g@),
        None => None,
    }
}

/// All that flattening reads and changes, as plain values.
pub struct FlattenState {
    pub frame: FrameView,
    pub draw_lists: Seq<DrawList>,
    pub pipeline_sizes: Seq<(PipelineId, Size)>,
    pub current_group: Option<DrawListGroupView>,
}

/// What flattening works on, as plain values.
pub open spec fn state_of(frame: Frame, context: FlattenContext) -> FlattenState {
    FlattenState {
        frame: frame@,
        draw_lists: context.draw_lists@,
        pipeline_sizes: context.pipeline_sizes@,
        current_group: group_view(context.current_draw_list_group),
    }
}

/// The names of the layers.
pub open spec fn layer_ids(layers: Seq<LayerView>) -> Seq<ScrollLayerId> {
    Seq::new(layers.len(), |i: int| layers[i].id)
}

/// The names of the groups.
pub open spec fn group_ids(groups: Seq<DrawListGroupView>) -> Seq<DrawListGroupId> {
    Seq::new(groups.len(), |i: int| groups[i].id)
}

} // verus!
