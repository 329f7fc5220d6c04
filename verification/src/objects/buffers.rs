//! The geometry buffers of an object, in their three configurations.

use crate::commands::{destroy_buffers, DrawCommand, DrawCommandView, ResourceCommand};
use crate::vulkan::{indexed_indirect_stride, indirect_stride};
use vstd::prelude::*;

verus! {

/// A vertex buffer on the GPU.
#[derive(Clone, Copy, Debug, PartialEq, Eq, Structural)]
pub struct VertexBuffer {
    pub buffer: u64,
}

/// An index buffer on the GPU, of 32-bit indices.
#[derive(Clone, Copy, Debug, PartialEq, Eq, Structural)]
pub struct IndexBuffer {
    pub buffer: u64,
    pub index_count: usize,
}

/// Vertex and index data with a buffer of draw records that the device reads.
#[derive(Clone, Copy, Debug, PartialEq, Eq, Structural)]
pub struct IndirectBuffer {
    pub vertex_buffer: u64,
    pub index_buffer: u64,
    pub index_count: usize,
    /// The buffer that holds the draw records.
    pub indirect_buffer: u64,
    /// Where in that buffer the records start, in bytes.
    pub indirect_offset: usize,
    /// How many records there are.
    pub indirect_count: usize,
}

/// Vertex and index data drawn once per instance.
#[derive(Clone, Copy, Debug, PartialEq, Eq, Structural)]
pub struct InstanceBuffer {
    pub vertex_buffer: u64,
    pub index_buffer: u64,
    pub index_count: usize,
    /// The buffer that holds the per-instance data.
    pub instance_buffer: u64,
    pub instance_count: usize,
}

/// Contains vertex and index buffers. Stores different configurations of those.
#[derive(Clone, Copy, Debug, PartialEq, Eq, Structural)]
pub enum ObjectStateBuffers {
    GOIndexed(VertexBuffer, IndexBuffer),
    GOIndirect(IndirectBuffer),
    GOInstanced(InstanceBuffer),
}

/// The number of indices of one draw, cut to 32 bits as the draw call takes it.
pub open spec fn index_count_of(buffers: ObjectStateBuffers) -> u32 {
    match buffers {
        ObjectStateBuffers::GOIndexed(_, index_buffer) => index_buffer.index_count as u32,
        ObjectStateBuffers::GOIndirect(indirect_buffer) => indirect_buffer.index_count as u32,
        ObjectStateBuffers::GOInstanced(instance_buffer) => instance_buffer.index_count as u32,
    }
}

/// The commands that bind the buffers: vertex, index, and for an instanced
/// object the per-instance buffer.
pub open spec fn bind_commands_of(buffers: ObjectStateBuffers) -> Seq<DrawCommandView> {
    match buffers {
        ObjectStateBuffers::GOIndexed(vertex_buffer, index_buffer) => seq![
            DrawCommandView::BindVertexBuffer { buffer: vertex_buffer.buffer },
            DrawCommandView::BindIndexBuffer { buffer: index_buffer.buffer },
        ],
        ObjectStateBuffers::GOIndirect(indirect_buffer) => seq![
            DrawCommandView::BindVertexBuffer { buffer: indirect_buffer.vertex_buffer },
            DrawCommandView::BindIndexBuffer { buffer: indirect_buffer.index_buffer },
        ],
        ObjectStateBuffers::GOInstanced(instance_buffer) => seq![
            DrawCommandView::BindVertexBuffer { buffer: instance_buffer.vertex_buffer },
            DrawCommandView::BindIndexBuffer { buffer: instance_buffer.index_buffer },
            DrawCommandView::BindInstanceBuffer { buffer: instance_buffer.instance_buffer },
        ],
    }
}

/// The draw call of an object: indexed with one instance, indexed indirect,
/// or indexed with the object's instance count.
pub open spec fn draw_command_of(buffers: ObjectStateBuffers) -> DrawCommandView {
    match buffers {
        ObjectStateBuffers::GOIndexed(_, index_buffer) => DrawCommandView::DrawIndexed {
            index_count: index_buffer.index_count as u32,
            instance_count: 1,
        },
        ObjectStateBuffers::GOIndirect(indirect_buffer) => DrawCommandView::DrawIndexedIndirect {
            buffer: indirect_buffer.indirect_buffer,
            offset: indirect_buffer.indirect_offset as u64,
            draw_count: indirect_buffer.indirect_count as u32,
            stride: indexed_indirect_stride(),
        },
        ObjectStateBuffers::GOInstanced(instance_buffer) => DrawCommandView::DrawIndexed {
            index_count: instance_buffer.index_count as u32,
            instance_count: instance_buffer.instance_count as u32,
        },
    }
}

/// Appends to `commands` the commands that bind the buffers.
pub fn bind_buffers(commands: &mut Vec<DrawCommand>, buffers: &ObjectStateBuffers)
    ensures
        final(commands).deep_view() == old(commands).deep_view() + bind_commands_of(*buffers),
{
    let ghost before = commands.deep_view();
    match buffers {
        ObjectStateBuffers::GOIndexed(vertex_buffer, index_buffer) => {
            commands.push(DrawCommand::BindVertexBuffer { buffer: vertex_buffer.buffer });
            commands.push(DrawCommand::BindIndexBuffer { buffer: index_buffer.buffer });
        },
        ObjectStateBuffers::GOIndirect(indirect_buffer) => {
            commands.push(DrawCommand::BindVertexBuffer { buffer: indirect_buffer.vertex_buffer });
            commands.push(DrawCommand::BindIndexBuffer { buffer: indirect_buffer.index_buffer });
        },
        ObjectStateBuffers::GOInstanced(instance_buffer) => {
            commands.push(DrawCommand::BindVertexBuffer { buffer: instance_buffer.vertex_buffer });
            commands.push(DrawCommand::BindIndexBuffer { buffer: instance_buffer.index_buffer });
            commands.push(
                DrawCommand::BindInstanceBuffer { buffer: instance_buffer.instance_buffer },
            );
        },
    }
    assert(commands.deep_view() =~= before + bind_commands_of(*buffers));
}

/// The number of indices that one draw of the object takes.
pub fn index_count(buffers: &ObjectStateBuffers) -> (r: u32)
    ensures
        r == index_count_of(*buffers),
{
    match buffers {
        ObjectStateBuffers::GOIndexed(_, index_buffer) => {
            #[verifier::truncate]
            (index_buffer.index_count as u32)
        },
        ObjectStateBuffers::GOIndirect(indirect_buffer) => {
            #[verifier::truncate]
            (indirect_buffer.index_count as u32)
        },
        ObjectStateBuffers::GOInstanced(instance_buffer) => {
            #[verifier::truncate]
            (instance_buffer.index_count as u32)
        },
    }
}

/// The draw call of the object.
pub fn draw_command(buffers: &ObjectStateBuffers) -> (r: DrawCommand)
    ensures
        r@ == draw_command_of(*buffers),
{
    match buffers {
        ObjectStateBuffers::GOIndexed(_, index_buffer) => DrawCommand::DrawIndexed {
            index_count: #[verifier::truncate]
            (index_buffer.index_count as u32),
            instance_count: 1,
        },
        ObjectStateBuffers::GOIndirect(indirect_buffer) => DrawCommand::DrawIndexedIndirect {
            buffer: indirect_buffer.indirect_buffer,
            offset: #[verifier::truncate]
            (indirect_buffer.indirect_offset as u64),
            draw_count: #[verifier::truncate]
            (indirect_buffer.indirect_count as u32),
            stride: indirect_stride(),
        },
        ObjectStateBuffers::GOInstanced(instance_buffer) => DrawCommand::DrawIndexed {
            index_count: #[verifier::truncate]
            (instance_buffer.index_count as u32),
            instance_count: #[verifier::truncate]
            (instance_buffer.instance_count as u32),
        },
    }
}

/// The buffers that a configuration owns: vertex, index, and then the
/// buffer of draw records or of per-instance data where it has one.
pub open spec fn geometry_buffers_of(buffers: ObjectStateBuffers) -> Seq<u64> {
    match buffers {
        ObjectStateBuffers::GOIndexed(vertex_buffer, index_buffer) => seq![
            vertex_buffer.buffer,
            index_buffer.buffer,
        ],
        ObjectStateBuffers::GOIndirect(indirect_buffer) => seq![
            indirect_buffer.vertex_buffer,
            indirect_buffer.index_buffer,
            indirect_buffer.indirect_buffer,
        ],
        ObjectStateBuffers::GOInstanced(instance_buffer) => seq![
            instance_buffer.vertex_buffer,
            instance_buffer.index_buffer,
            instance_buffer.instance_buffer,
        ],
    }
}

/// Appends to `commands` the commands that destroy the buffers of a
/// configuration, each buffer once.
pub fn destroy_geometry(commands: &mut Vec<ResourceCommand>, buffers: &ObjectStateBuffers)
    ensures
        final(commands)@ == old(commands)@ + destroy_buffers(geometry_buffers_of(*buffers)),
{
    match buffers {
        ObjectStateBuffers::GOIndexed(vertex_buffer, index_buffer) => {
            commands.push(ResourceCommand::DestroyBuffer { buffer: vertex_buffer.buffer });
            commands.push(ResourceCommand::DestroyBuffer { buffer: index_buffer.buffer });
        },
        ObjectStateBuffers::GOIndirect(indirect_buffer) => {
            commands.push(ResourceCommand::DestroyBuffer { buffer: indirect_buffer.vertex_buffer });
            commands.push(ResourceCommand::DestroyBuffer { buffer: indirect_buffer.index_buffer });
            commands.push(
                ResourceCommand::DestroyBuffer { buffer: indirect_buffer.indirect_buffer },
            );
        },
        ObjectStateBuffers::GOInstanced(instance_buffer) => {
            commands.push(ResourceCommand::DestroyBuffer { buffer: instance_buffer.vertex_buffer });
            commands.push(ResourceCommand::DestroyBuffer { buffer: instance_buffer.index_buffer });
            commands.push(
                ResourceCommand::DestroyBuffer { buffer: instance_buffer.instance_buffer },
            );
        },
    }
    assert(commands@ =~= old(commands)@ + destroy_buffers(geometry_buffers_of(*buffers)));
}

} // verus!
