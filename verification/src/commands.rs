//! The commands that the library asks the program to record or perform.

use crate::blocks::{copies_of, BlockState, FrameCopy};
use vstd::prelude::*;

verus! {

/// One command to record into the draw command buffer.
#[derive(Debug, PartialEq, Eq)]
pub enum DrawCommand {
    /// Bind a graphics pipeline.
    BindPipeline { pipeline: u64 },
    /// Set the first viewport to that of the bound pipeline.
    SetViewport { pipeline: u64 },
    /// Set the first scissor to that of the bound pipeline.
    SetScissor { pipeline: u64 },
    /// Bind descriptor sets, starting at set 0.
    BindDescriptorSets { layout: u64, sets: Vec<u64> },
    /// Bind a vertex buffer at binding 0, offset 0.
    BindVertexBuffer { buffer: u64 },
    /// Bind an index buffer of 32-bit indices at offset 0.
    BindIndexBuffer { buffer: u64 },
    /// Bind a per-instance vertex buffer at binding 1, offset 0.
    BindInstanceBuffer { buffer: u64 },
    /// An indexed draw from index 0, vertex offset 0, instance 0.
    DrawIndexed { index_count: u32, instance_count: u32 },
    /// An indexed draw whose parameters the device reads from a buffer.
    DrawIndexedIndirect { buffer: u64, offset: u64, draw_count: u32, stride: u32 },
}

/// A draw command as a mathematical value.
pub ghost enum DrawCommandView {
    BindPipeline { pipeline: u64 },
    SetViewport { pipeline: u64 },
    SetScissor { pipeline: u64 },
    BindDescriptorSets { layout: u64, sets: Seq<u64> },
    BindVertexBuffer { buffer: u64 },
    BindIndexBuffer { buffer: u64 },
    BindInstanceBuffer { buffer: u64 },
    DrawIndexed { index_count: u32, instance_count: u32 },
    DrawIndexedIndirect { buffer: u64, offset: u64, draw_count: u32, stride: u32 },
}

impl View for DrawCommand {
    type V = DrawCommandView;

    open spec fn view(&self) -> DrawCommandView {
        match *self {
            DrawCommand::BindPipeline { pipeline } => DrawCommandView::BindPipeline { pipeline },
            DrawCommand::SetViewport { pipeline } => DrawCommandView::SetViewport { pipeline },
            DrawCommand::SetScissor { pipeline } => DrawCommandView::SetScissor { pipeline },
            DrawCommand::BindDescriptorSets { layout, sets } => DrawCommandView::BindDescriptorSets {
                layout,
                sets: sets@,
            },
            DrawCommand::BindVertexBuffer { buffer } => DrawCommandView::BindVertexBuffer { buffer },
            DrawCommand::BindIndexBuffer { buffer } => DrawCommandView::BindIndexBuffer { buffer },
            DrawCommand::BindInstanceBuffer { buffer } => DrawCommandView::BindInstanceBuffer {
                buffer,
            },
            DrawCommand::DrawIndexed { index_count, instance_count } => DrawCommandView::DrawIndexed {
                index_count,
                instance_count,
            },
            DrawCommand::DrawIndexedIndirect {
                buffer,
                offset,
                draw_count,
                stride,
            } => DrawCommandView::DrawIndexedIndirect { buffer, offset, draw_count, stride },
        }
    }
}

impl DeepView for DrawCommand {
    type V = DrawCommandView;

    open spec fn deep_view(&self) -> DrawCommandView {
        self@
    }
}

/// One command that releases what hangs on a swapchain.
#[derive(Copy, Clone, Debug, PartialEq, Eq, Structural)]
pub enum ResourceCommand {
    /// Block until the device has nothing left to do.
    WaitIdle,
    /// Free the setup and the draw command buffer.
    FreeCommandBuffers { command_pool: u64, setup: u64, draw: u64 },
    /// Destroy the fence of a command buffer.
    DestroyFence { fence: u64 },
    DestroyDescriptorPool { descriptor_pool: u64 },
    /// Release one GPU copy of a block state.
    FreeBlockMemory { allocation: u64, descriptor_set: u64 },
    DestroyFramebuffer { framebuffer: u64 },
    DestroyPipeline { pipeline: u64 },
    DestroyPipelineLayout { pipeline_layout: u64 },
    DestroyRenderPass { render_pass: u64 },
    DestroyImageView { image_view: u64 },
    DestroyImage { image: u64 },
    /// Destroy a vertex, index, instance or indirect buffer with its memory.
    DestroyBuffer { buffer: u64 },
    DestroySwapchain { swapchain: u64 },
}

/// The commands that release GPU copies of block states, in order.
pub open spec fn free_copies(copies: Seq<FrameCopy>) -> Seq<ResourceCommand> {
    Seq::new(
        copies.len(),
        |i: int|
            ResourceCommand::FreeBlockMemory {
                allocation: copies[i].allocation,
                descriptor_set: copies[i].descriptor_set,
            },
    )
}

/// Appends the commands that release the copies.
pub fn push_free_copies(commands: &mut Vec<ResourceCommand>, copies: &Vec<FrameCopy>)
    ensures
        final(commands)@ == old(commands)@ + free_copies(copies@),
{
    let mut i: usize = 0;
    while i < copies.len()
        invariant
            i <= copies@.len(),
            commands@ == old(commands)@ + free_copies(copies@).take(i as int),
        decreases copies@.len() - i,
    {
        commands.push(
            ResourceCommand::FreeBlockMemory {
                allocation: copies[i].allocation,
                descriptor_set: copies[i].descriptor_set,
            },
        );
        assert(commands@ =~= old(commands)@ + free_copies(copies@).take(i + 1));
        i += 1;
    }
    assert(free_copies(copies@).take(i as int) =~= free_copies(copies@));
}

/// Releasing two runs of copies one after the other releases their
/// concatenation.
pub proof fn lemma_free_copies_concat(a: Seq<FrameCopy>, b: Seq<FrameCopy>)
    ensures
        free_copies(a + b) == free_copies(a) + free_copies(b),
{
    assert(free_copies(a + b) =~= free_copies(a) + free_copies(b));
}

/// The commands that destroy buffers, in order.
pub open spec fn destroy_buffers(buffers: Seq<u64>) -> Seq<ResourceCommand> {
    Seq::new(buffers.len(), |i: int| ResourceCommand::DestroyBuffer { buffer: buffers[i] })
}

/// Appends the commands that release every GPU copy that the block states
/// hold, block by block.
pub fn push_free_blocks(commands: &mut Vec<ResourceCommand>, blocks: &Vec<BlockState>)
    ensures
        final(commands)@ == old(commands)@ + free_copies(copies_of(blocks@)),
{
    let mut k: usize = 0;
    assert(copies_of(blocks@.take(0)) =~= Seq::<FrameCopy>::empty());
    assert(old(commands)@ + free_copies(copies_of(blocks@.take(0))) =~= old(commands)@);
    while k < blocks.len()
        invariant
            k <= blocks@.len(),
            commands@ == old(commands)@ + free_copies(copies_of(blocks@.take(k as int))),
        decreases blocks@.len() - k,
    {
        push_free_copies(commands, &blocks[k].copies);
        proof {
            let next = blocks@.take(k + 1);
            assert(next.drop_last() =~= blocks@.take(k as int));
            assert(next.last() == blocks@[k as int]);
            lemma_free_copies_concat(copies_of(blocks@.take(k as int)), blocks@[k as int].copies@);
            assert(commands@ =~= old(commands)@ + free_copies(copies_of(next)));
        }
        k += 1;
    }
    assert(blocks@.take(k as int) =~= blocks@);
}

} // verus!
