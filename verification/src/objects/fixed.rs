//! Static objects: they flag themselves, and upload vertex and index buffer
//! together.

use crate::commands::DrawCommand;
use crate::dirty::{StaticDirtyState, StaticResource};
use crate::objects::buffers::{
    bind_buffers, bind_commands_of, index_count, index_count_of, ObjectStateBuffers,
};
use crate::objects::sub::SubState;
use crate::objects::{frames_left_after, refreshes_blocks, UpdatePlan};
use vstd::prelude::*;

verus! {

/// Every static object has an object state to be referenced from parents.
#[derive(Debug)]
pub struct StaticState {
    pub sub_state: SubState,
    /// What was marked stale since the last update.
    pub dirty_state: StaticDirtyState,
    /// For how many more updates the block states are uploaded without
    /// being marked again: the copies of the other frames in flight.
    pub bs_left: usize,
}

impl StaticState {
    /// What an update uploads, given what is marked stale and the counter.
    pub open spec fn plan(&self, frame: usize) -> UpdatePlan {
        UpdatePlan {
            vertex_buffer: self.dirty_state@.contains(StaticResource::Geometry),
            index_buffer: self.dirty_state@.contains(StaticResource::Geometry),
            block_state: if refreshes_blocks(
                self.dirty_state@.contains(StaticResource::BlockState),
                self.bs_left as nat,
            ) {
                Some(frame)
            } else {
                None
            },
        }
    }

    /// The state of a new object: everything is stale, nothing is pending.
    pub fn new(name: String, buffers: ObjectStateBuffers) -> (r: Self)
        ensures
            r.sub_state.name == name,
            r.sub_state.block_states is None,
            r.sub_state.buffers == buffers,
            r.sub_state.enabled,
            r.dirty_state@ == StaticDirtyState::all_set(),
            r.bs_left == 0,
    {
        StaticState {
            sub_state: SubState::new(name, buffers),
            dirty_state: StaticDirtyState::all(),
            bs_left: 0,
        }
    }

    /// Marks resources as stale.
    pub fn dirty(&mut self, dirty_state: StaticDirtyState)
        ensures
            final(self).dirty_state@ == old(self).dirty_state@.union(dirty_state@),
            final(self).sub_state == old(self).sub_state,
            final(self).bs_left == old(self).bs_left,
    {
        self.dirty_state.insert(dirty_state);
    }

    /// Decides what to upload before frame `frame` is recorded, clears the
    /// marks, and keeps count of the frames in flight whose copy of the
    /// block states is still behind.
    ///
    /// Vertex and index buffer are uploaded, both or neither, if and only if
    /// the geometry was marked. The block states are uploaded if they were
    /// marked, which sets the counter to `frame_count - 1`, or if the counter
    /// is not zero, which takes one off it.
    pub fn update_block_states(&mut self, frame: usize, frame_count: usize) -> (plan: UpdatePlan)
        requires
            frame < frame_count,
        ensures
            plan == old(self).plan(frame),
            final(self).dirty_state@ == Set::<StaticResource>::empty(),
            final(self).bs_left == frames_left_after(
                old(self).dirty_state@.contains(StaticResource::BlockState),
                old(self).bs_left as nat,
                frame_count as nat,
            ),
            final(self).sub_state == old(self).sub_state,
    {
        let dirty_state = self.dirty_state;
        let geometry = dirty_state.contains(StaticDirtyState::vib());
        let bs_state = dirty_state.contains(StaticDirtyState::bs());
        assert(geometry == dirty_state@.contains(StaticResource::Geometry)) by {
            assert(set![StaticResource::Geometry].contains(StaticResource::Geometry));
        }
        assert(bs_state == dirty_state@.contains(StaticResource::BlockState)) by {
            assert(set![StaticResource::BlockState].contains(StaticResource::BlockState));
        }
        let mut block_state: Option<usize> = None;
        if bs_state || self.bs_left > 0 {
            block_state = Some(frame);
            if bs_state {
                self.bs_left = frame_count - 1;
            } else {
                self.bs_left -= 1;
            }
        }
        self.dirty_state = StaticDirtyState::empty();
        UpdatePlan { vertex_buffer: geometry, index_buffer: geometry, block_state }
    }

    /// Appends to `commands` the commands that bind the object's buffers.
    pub fn bind_buffers(&self, commands: &mut Vec<DrawCommand>)
        ensures
            final(commands).deep_view() == old(commands).deep_view() + bind_commands_of(
                self.sub_state.buffers,
            ),
    {
        bind_buffers(commands, &self.sub_state.buffers);
    }

    /// The number of indices that one draw of the object takes.
    pub fn index_count(&self) -> (r: u32)
        ensures
            r == index_count_of(self.sub_state.buffers),
    {
        index_count(&self.sub_state.buffers)
    }
}

} // verus!
