//! The scene: pipelines, stacking contexts and display lists, each found by
//! its identifier.

use vstd::prelude::*;
use crate::composition::{
    CompositionOp, FilterOp, MixBlendMode, composition_operations, composition_ops,
    needs_composition_operation_for_mix_blend_mode,
};
use crate::geometry::Rect;
use crate::lookup::{position, lemma_position_found, lemma_position_absent};
use crate::transform::Transform;
use crate::types::{
    DisplayListId, DrawListId, Epoch, PipelineId, ScrollLayerId, ScrollPolicy, StackingContextId,
    StackingLevel,
};

verus! {

/// A place in a page where another pipeline is shown.
#[derive(Clone, Copy, Debug, PartialEq, Eq, Structural)]
pub struct IframeInfo {
    pub id: PipelineId,
    pub bounds: Rect,
}

/// What an item of a display list is.
#[derive(Clone, Copy, Debug, PartialEq, Eq, Structural)]
pub enum SpecificSceneItem {
    DrawList(DrawListId),
    StackingContext(StackingContextId),
    Iframe(IframeInfo),
}

/// An item of a display list, with the level at which it is painted.
#[derive(Clone, Copy, Debug, PartialEq, Eq, Structural)]
pub struct SceneItem {
    pub stacking_level: StackingLevel,
    pub specific: SpecificSceneItem,
}

/// A display list: the items of a stacking context, in the order of the document.
#[derive(Debug)]
pub struct SceneDisplayList {
    pub id: DisplayListId,
    pub items: Vec<SceneItem>,
}

/// A stacking context as the document states it.
#[derive(Debug)]
pub struct StackingContext {
    pub scroll_layer_id: Option<ScrollLayerId>,
    pub scroll_policy: ScrollPolicy,
    /// Where the context stands, in the coordinates of its parent.
    pub bounds: Rect,
    /// What of the context is shown, in its own coordinates.
    pub overflow: Rect,
    pub z_index: i32,
    pub display_lists: Vec<DisplayListId>,
    pub transform: Transform,
    pub perspective: Transform,
    pub establishes_3d_context: bool,
    pub mix_blend_mode: MixBlendMode,
    pub filters: Vec<FilterOp>,
    pub has_stacking_contexts: bool,
}

/// A stacking context of the scene, under its name.
#[derive(Debug)]
pub struct SceneStackingContext {
    pub id: StackingContextId,
    pub pipeline_id: PipelineId,
    pub epoch: Epoch,
    pub stacking_context: StackingContext,
}

/// A pipeline: a document with its root stacking context and its background.
#[derive(Clone, Copy, Debug, PartialEq, Eq, Structural)]
pub struct ScenePipeline {
    pub pipeline_id: PipelineId,
    pub epoch: Epoch,
    pub background_draw_list: Option<DrawListId>,
    pub root_stacking_context_id: StackingContextId,
}

/// Where several items carry one identifier, the first of them is the one
/// that the identifier names.
#[derive(Debug)]
pub struct Scene {
    pub root_pipeline_id: Option<PipelineId>,
    pub pipelines: Vec<ScenePipeline>,
    pub stacking_contexts: Vec<SceneStackingContext>,
    pub display_lists: Vec<SceneDisplayList>,
}

impl StackingContext {
    /// The blend mode asks for an operation of its own.
    pub fn needs_composition_operation_for_mix_blend_mode(&self) -> (b: bool)
        ensures
            b == (self.mix_blend_mode != MixBlendMode::Normal),
    {
        needs_composition_operation_for_mix_blend_mode(self.mix_blend_mode)
    }

    /// The operations by which the picture of the stacking context is put
    /// onto its parent: that of its blend mode, then those of its filters.
    pub fn composition_operations(&self) -> (ops: Vec<CompositionOp>)
        ensures
            ops@ == composition_ops(self.mix_blend_mode, self.filters@),
    {
        composition_operations(self.mix_blend_mode, &self.filters)
    }
}

impl Scene {
    /// The names of the pipelines.
    pub open spec fn pipeline_ids(&self) -> Seq<PipelineId> {
        Seq::new(self.pipelines@.len(), |i: int| self.pipelines@[i].pipeline_id)
    }

    /// The names of the stacking contexts.
    pub open spec fn stacking_context_ids(&self) -> Seq<StackingContextId> {
        Seq::new(self.stacking_contexts@.len(), |i: int| self.stacking_contexts@[i].id)
    }

    /// The names of the display lists.
    pub open spec fn display_list_ids(&self) -> Seq<DisplayListId> {
        Seq::new(self.display_lists@.len(), |i: int| self.display_lists@[i].id)
    }

    /// The pipeline that `id` names.
    pub open spec fn pipeline(&self, id: PipelineId) -> Option<ScenePipeline> {
        match position(self.pipeline_ids(), id) {
            Some(i) => Some(self.pipelines@[i]),
            None => None,
        }
    }

    /// The stacking context that `id` names.
    pub open spec fn stacking_context(&self, id: StackingContextId) -> Option<
        SceneStackingContext,
    > {
        match position(self.stacking_context_ids(), id) {
            Some(i) => Some(self.stacking_contexts@[i]),
            None => None,
        }
    }

    /// The display list that `id` names.
    pub open spec fn display_list(&self, id: DisplayListId) -> Option<SceneDisplayList> {
        match position(self.display_list_ids(), id) {
            Some(i) => Some(self.display_lists@[i]),
            None => None,
        }
    }

    pub fn new() -> (s: Scene)
        ensures
            s.root_pipeline_id is None,
            s.pipelines@.len() == 0,
            s.stacking_contexts@.len() == 0,
            s.display_lists@.len() == 0,
    {
        Scene {
            root_pipeline_id: None,
            pipelines: Vec::new(),
            stacking_contexts: Vec::new(),
            display_lists: Vec::new(),
        }
    }

    /// The pipeline that `id` names.
    pub fn find_pipeline(&self, id: PipelineId) -> (r: Option<&ScenePipeline>)
        ensures
            match r {
                Some(p) => self.pipeline(id) == Some(*p),
                None => self.pipeline(id) is None,
            },
    {
        let mut i: usize = 0;
        while i < self.pipelines.len()
            invariant
                i <= self.pipelines.len(),
                forall|j: int| 0 <= j < i ==> self.pipeline_ids()[j] != id,
            decreases self.pipelines.len() - i,
        {
            if self.pipelines[i].pipeline_id == id {
                proof {
                    lemma_position_found(self.pipeline_ids(), id, i as int);
                }
                return Some(&self.pipelines[i]);
            }
            i += 1;
        }
        proof {
            lemma_position_absent(self.pipeline_ids(), id);
        }
        None
    }

    /// The stacking context that `id` names.
    pub fn find_stacking_context(&self, id: StackingContextId) -> (r: Option<
        &SceneStackingContext,
    >)
        ensures
            match r {
                Some(c) => self.stacking_context(id) == Some(*c),
                None => self.stacking_context(id) is None,
            },
    {
        let mut i: usize = 0;
        while i < self.stacking_contexts.len()
            invariant
                i <= self.stacking_contexts.len(),
                forall|j: int| 0 <= j < i ==> self.stacking_context_ids()[j] != id,
            decreases self.stacking_contexts.len() - i,
        {
            if self.stacking_contexts[i].id == id {
                proof {
                    lemma_position_found(self.stacking_context_ids(), id, i as int);
                }
                return Some(&self.stacking_contexts[i]);
            }
            i += 1;
        }
        proof {
            lemma_position_absent(self.stacking_context_ids(), id);
        }
        None
    }

    /// The display list that `id` names.
    pub fn find_display_list(&self, id: DisplayListId) -> (r: Option<&SceneDisplayList>)
        ensures
            match r {
                Some(d) => self.display_list(id) == Some(*d),
                None => self.display_list(id) is None,
            },
    {
        let mut i: usize = 0;
        while i < self.display_lists.len()
            invariant
                i <= self.display_lists.len(),
                forall|j: int| 0 <= j < i ==> self.display_list_ids()[j] != id,
            decreases self.display_lists.len() - i,
        {
            if self.display_lists[i].id == id {
                proof {
                    lemma_position_found(self.display_list_ids(), id, i as int);
                }
                return Some(&self.display_lists[i]);
            }
            i += 1;
        }
        proof {
            lemma_position_absent(self.display_list_ids(), id);
        }
        None
    }
}

} // verus!
