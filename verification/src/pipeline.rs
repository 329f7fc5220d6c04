//! A bucket's graphics pipeline, as far as the frame loop handles it.

use crate::blocks::BlockState;
use vstd::prelude::*;

verus! {

/// Which range of depths a pipeline's viewport is meant for.
#[derive(Copy, Clone, Debug, PartialEq, Eq, Structural)]
pub enum ViewportDepthRange {
    UI,
    WORLD,
}

/// The size of the window's drawable area in pixels.
#[derive(Copy, Clone, Debug, PartialEq, Eq, Structural)]
pub struct Extent2D {
    pub width: u32,
    pub height: u32,
}

/// A rectangle of pixels.
#[derive(Copy, Clone, Debug, PartialEq, Eq, Structural)]
pub struct Rect2D {
    pub x: i32,
    pub y: i32,
    pub width: u32,
    pub height: u32,
}

/// A viewport in whole numbers; the device takes them as floating point.
#[derive(Copy, Clone, Debug, PartialEq, Eq, Structural)]
pub struct Viewport {
    pub x: u32,
    pub y: u32,
    pub width: u32,
    pub height: u32,
    pub min_depth: u32,
    pub max_depth: u32,
}

/// The viewport that covers the whole extent, with depths from 0 to 1.
pub open spec fn full_viewport(extent: Extent2D) -> Viewport {
    Viewport {
        x: 0,
        y: 0,
        width: extent.width,
        height: extent.height,
        min_depth: 0,
        max_depth: 1,
    }
}

/// The scissor that covers the whole extent.
pub open spec fn full_scissor(extent: Extent2D) -> Rect2D {
    Rect2D { x: 0, y: 0, width: extent.width, height: extent.height }
}

/// The viewport of a pipeline for a window of the given extent. Both depth
/// ranges map to depths from 0 to 1.
pub fn create_viewport(extent: Extent2D, depth_range: ViewportDepthRange) -> (r: Viewport)
    ensures
        r == full_viewport(extent),
{
    match depth_range {
        ViewportDepthRange::UI => {},
        ViewportDepthRange::WORLD => {},
    }
    Viewport {
        x: 0,
        y: 0,
        width: extent.width,
        height: extent.height,
        min_depth: 0,
        max_depth: 1,
    }
}

/// A graphics pipeline with what the frame loop needs of it.
#[derive(Debug)]
pub struct PipelineInfo {
    /// The pipeline, or 0 while there is none.
    pub pipeline: u64,
    /// The pipeline layout, or 0 while there is none.
    pub pipeline_layout: u64,
    pub viewport: Viewport,
    pub scissor: Rect2D,
    /// Whether the pipeline tests and writes depth.
    pub depth: bool,
    pub viewport_depth_range: ViewportDepthRange,
    /// The raw polygon mode.
    pub polygon_mode: i32,
    /// The block states that all objects of the pipeline share.
    pub block_states: Vec<BlockState>,
    /// The name of the pipeline's shaders.
    pub name: String,
}

impl PipelineInfo {
    /// The settings that creating and destroying the pipeline leave alone.
    pub open spec fn settings(&self) -> (bool, ViewportDepthRange, i32, Vec<BlockState>, String) {
        (self.depth, self.viewport_depth_range, self.polygon_mode, self.block_states, self.name)
    }

    /// The description of a pipeline that is yet to be created on the device.
    pub fn new(
        name: &str,
        depth: bool,
        viewport_depth_range: ViewportDepthRange,
        polygon_mode: i32,
        block_states: Vec<BlockState>,
    ) -> (r: Self)
        ensures
            r.pipeline == 0,
            r.pipeline_layout == 0,
            r.viewport == full_viewport(Extent2D { width: 0, height: 0 }),
            r.scissor == full_scissor(Extent2D { width: 0, height: 0 }),
            r.depth == depth,
            r.viewport_depth_range == viewport_depth_range,
            r.polygon_mode == polygon_mode,
            r.block_states == block_states,
            r.name@ == name@,
    {
        let extent = Extent2D { width: 0, height: 0 };
        PipelineInfo {
            pipeline: 0,
            pipeline_layout: 0,
            viewport: create_viewport(extent, viewport_depth_range),
            scissor: Rect2D { x: 0, y: 0, width: 0, height: 0 },
            depth,
            viewport_depth_range,
            polygon_mode,
            block_states,
            name: name.to_owned(),
        }
    }

    /// Takes a pipeline and layout created for a window of the given extent;
    /// viewport and scissor cover the whole extent.
    pub fn recreate_pipeline(&mut self, pipeline: u64, pipeline_layout: u64, extent: Extent2D)
        ensures
            final(self).pipeline == pipeline,
            final(self).pipeline_layout == pipeline_layout,
            final(self).viewport == full_viewport(extent),
            final(self).scissor == full_scissor(extent),
            final(self).settings() == old(self).settings(),
    {
        self.pipeline = pipeline;
        self.pipeline_layout = pipeline_layout;
        self.viewport = create_viewport(extent, self.viewport_depth_range);
        self.scissor = Rect2D { x: 0, y: 0, width: extent.width, height: extent.height };
    }

    /// Gives up pipeline and layout: returns them, in this order, for the
    /// caller to destroy, and holds none afterwards.
    pub fn destroy_pipeline(&mut self) -> (released: (u64, u64))
        ensures
            released == (old(self).pipeline, old(self).pipeline_layout),
            final(self).pipeline == 0,
            final(self).pipeline_layout == 0,
            final(self).viewport == old(self).viewport,
            final(self).scissor == old(self).scissor,
            final(self).settings() == old(self).settings(),
    {
        let released = (self.pipeline, self.pipeline_layout);
        self.pipeline = 0;
        self.pipeline_layout = 0;
        released
    }
}

/// The descriptor set layouts of a pipeline, in the order of its sets: those
/// of the block states that its objects share, then those of the blocks
/// that each object owns.
pub fn set_layouts(blocks: &Vec<BlockState>, object_layouts: &Vec<u64>) -> (r: Vec<u64>)
    ensures
        r@ == Seq::new(blocks@.len(), |k: int| blocks@[k].layout) + object_layouts@,
{
    let ghost shared = Seq::new(blocks@.len(), |k: int| blocks@[k].layout);
    let mut r: Vec<u64> = Vec::new();
    let mut k: usize = 0;
    while k < blocks.len()
        invariant
            k <= blocks@.len(),
            shared == Seq::new(blocks@.len(), |k: int| blocks@[k].layout),
            r@ == shared.take(k as int),
        decreases blocks@.len() - k,
    {
        r.push(blocks[k].layout);
        assert(r@ =~= shared.take(k + 1));
        k += 1;
    }
    assert(shared.take(k as int) =~= shared);
    let mut j: usize = 0;
    while j < object_layouts.len()
        invariant
            j <= object_layouts@.len(),
            r@ == shared + object_layouts@.take(j as int),
        decreases object_layouts@.len() - j,
    {
        r.push(object_layouts[j]);
        assert(r@ =~= shared + object_layouts@.take(j + 1));
        j += 1;
    }
    assert(object_layouts@.take(j as int) =~= object_layouts@);
    r
}

} // verus!
