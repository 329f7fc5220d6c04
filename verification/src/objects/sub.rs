//! The part of an object's state that every kind of object has.

use crate::blocks::{
    copies_of, destroy_blocks, recreate_blocks, same_descriptions, without_memory, BlockState,
    FrameCopy,
};
use crate::objects::buffers::ObjectStateBuffers;
use vstd::prelude::*;

verus! {

/// All object states have this sub state. Fundamental state regardless of
/// object type.
#[derive(Debug)]
pub struct SubState {
    pub name: String,
    /// The object's own block states, once a bucket has taken the object in.
    pub block_states: Option<Vec<BlockState>>,
    pub buffers: ObjectStateBuffers,
    /// Objects that are not enabled are left out of the frame.
    pub enabled: bool,
}

impl SubState {
    /// The sub state of a new object: enabled, and without block states
    /// until a bucket takes it in.
    pub fn new(name: String, buffers: ObjectStateBuffers) -> (r: Self)
        ensures
            r.name == name,
            r.block_states is None,
            r.buffers == buffers,
            r.enabled,
    {
        SubState { name, block_states: None, buffers, enabled: true }
    }

    /// The object's own block states; none before a bucket took it in.
    pub open spec fn blocks(&self) -> Seq<BlockState> {
        match self.block_states {
            Some(block_states) => block_states@,
            None => Seq::empty(),
        }
    }

    /// The number of the object's own block states.
    pub fn blocks_len(&self) -> (r: usize)
        ensures
            r == self.blocks().len(),
    {
        match &self.block_states {
            Some(block_states) => block_states.len(),
            None => 0,
        }
    }

    /// Whether this is `before` but for the GPU copies of its block states.
    pub open spec fn is_memory_change_of(&self, before: SubState) -> bool {
        &&& self.name == before.name
        &&& self.buffers == before.buffers
        &&& self.enabled == before.enabled
        &&& self.block_states is Some <==> before.block_states is Some
        &&& same_descriptions(self.blocks(), before.blocks())
    }

    /// Gives up the GPU copies of the object's block states: appends them
    /// to `released` and leaves the block states without memory.
    pub fn destroy_block_state_memory(&mut self, released: &mut Vec<FrameCopy>)
        ensures
            final(released)@ == old(released)@ + copies_of(old(self).blocks()),
            final(self).is_memory_change_of(*old(self)),
            without_memory(final(self).blocks()),
    {
        match &mut self.block_states {
            Some(block_states) => {
                destroy_blocks(block_states, released);
            },
            None => {
                assert(old(released)@ + copies_of(old(self).blocks()) =~= old(released)@);
            },
        }
    }

    /// Hands the object's block states their freshly created copies: block
    /// `k` takes `supply[start + k]`. The copies held before are appended to
    /// `released`.
    pub fn recreate_block_state_memory(
        &mut self,
        supply: &Vec<Vec<FrameCopy>>,
        start: usize,
        released: &mut Vec<FrameCopy>,
    )
        requires
            start + old(self).blocks().len() <= supply@.len(),
        ensures
            final(released)@ == old(released)@ + copies_of(old(self).blocks()),
            final(self).is_memory_change_of(*old(self)),
            forall|k: int|
                0 <= k < final(self).blocks().len() ==> (#[trigger] final(self).blocks()[k]).copies@
                    == supply@[start + k]@,
    {
        match &mut self.block_states {
            Some(block_states) => {
                recreate_blocks(block_states, supply, start, released);
            },
            None => {
                assert(old(released)@ + copies_of(old(self).blocks()) =~= old(released)@);
            },
        }
    }
}

} // verus!
