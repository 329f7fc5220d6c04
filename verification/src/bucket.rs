//! Buckets: the objects that share one pipeline, in drawing order.

use crate::blocks::{
    check_without_memory, copies_of, destroy_blocks, lemma_copies_are_supplied,
    lemma_supplied_split, lemma_without_memory_holds_nothing, push_block_sizes, recreate_blocks,
    same_descriptions, sizes_of, supplied_between, without_memory, BlockState, FrameCopy,
};
use crate::commands::{
    destroy_buffers, free_copies, push_free_blocks, DrawCommand, DrawCommandView, ResourceCommand,
};
use crate::dirty::{Resource, StaticResource};
use crate::objects::buffers::{
    bind_buffers, bind_commands_of, destroy_geometry, draw_command, draw_command_of,
    geometry_buffers_of,
};
use crate::objects::dynamic::DynamicState;
use crate::objects::fixed::StaticState;
use crate::objects::sub::SubState;
use crate::objects::{frames_left_after, UpdatePlan};
use crate::pipeline::{full_scissor, full_viewport, Extent2D, PipelineInfo};
use vstd::pervasive::unreached;
use vstd::prelude::*;

verus! {

/// An object of a bucket, static or dynamic.
#[derive(Debug)]
pub enum BucketObject {
    Static(StaticState),
    Dynamic(DynamicState),
}

impl BucketObject {
    /// The state that both kinds of object have.
    pub open spec fn sub_state(&self) -> SubState {
        match *self {
            BucketObject::Static(state) => state.sub_state,
            BucketObject::Dynamic(state) => state.sub_state,
        }
    }

    /// What an update uploads for the object.
    pub open spec fn plan(&self, frame: usize) -> UpdatePlan {
        match *self {
            BucketObject::Static(state) => state.plan(frame),
            BucketObject::Dynamic(state) => state.plan(frame),
        }
    }

    /// Whether the object is what an update makes of `before`: the marks
    /// cleared, the counter of frames in flight moved on, the rest untouched.
    pub open spec fn is_update_of(&self, before: BucketObject, frame_count: usize) -> bool {
        match (before, *self) {
            (BucketObject::Static(b), BucketObject::Static(a)) => {
                &&& a.sub_state == b.sub_state
                &&& a.dirty_state@ == Set::<StaticResource>::empty()
                &&& a.bs_left == frames_left_after(
                    b.dirty_state@.contains(StaticResource::BlockState),
                    b.bs_left as nat,
                    frame_count as nat,
                )
            },
            (BucketObject::Dynamic(b), BucketObject::Dynamic(a)) => {
                &&& a.sub_state == b.sub_state
                &&& a.dirty_state@ == Set::<Resource>::empty()
                &&& a.bs_left == frames_left_after(
                    b.dirty_state@.contains(Resource::BlockState),
                    b.bs_left as nat,
                    frame_count as nat,
                )
            },
            _ => false,
        }
    }

    /// Decides what to upload for the object before frame `frame` is
    /// recorded, and moves its state on.
    pub fn update_block_states(&mut self, frame: usize, frame_count: usize) -> (plan: UpdatePlan)
        requires
            frame < frame_count,
        ensures
            plan == old(self).plan(frame),
            final(self).is_update_of(*old(self), frame_count),
    {
        match self {
            BucketObject::Static(state) => state.update_block_states(frame, frame_count),
            BucketObject::Dynamic(state) => state.update_block_states(frame, frame_count),
        }
    }

    /// Whether the object is `before` but for the GPU copies of its block
    /// states.
    pub open spec fn is_memory_change_of(&self, before: BucketObject) -> bool {
        match (before, *self) {
            (BucketObject::Static(b), BucketObject::Static(a)) => {
                &&& a.dirty_state == b.dirty_state
                &&& a.bs_left == b.bs_left
                &&& a.sub_state.is_memory_change_of(b.sub_state)
            },
            (BucketObject::Dynamic(b), BucketObject::Dynamic(a)) => {
                &&& a.dirty_state == b.dirty_state
                &&& a.bs_left == b.bs_left
                &&& a.sub_state.is_memory_change_of(b.sub_state)
            },
            _ => false,
        }
    }

    /// Gives up the GPU copies of the object's block states: appends them
    /// to `released` and leaves the block states without memory.
    pub fn destroy_block_state_memory(&mut self, released: &mut Vec<FrameCopy>)
        ensures
            final(released)@ == old(released)@ + copies_of(old(self).sub_state().blocks()),
            final(self).is_memory_change_of(*old(self)),
            without_memory(final(self).sub_state().blocks()),
    {
        match self {
            BucketObject::Static(state) => state.sub_state.destroy_block_state_memory(released),
            BucketObject::Dynamic(state) => state.sub_state.destroy_block_state_memory(released),
        }
    }

    /// Hands the object's block states their freshly created copies: block
    /// `k` takes `supply[start + k]`. The copies held before are appended to
    /// `released`.
    pub fn recreate_block_state_memory(
        &mut self,
        supply: &Vec<Vec<FrameCopy>>,
        start: usize,
        released: &mut Vec<FrameCopy>,
    )
        requires
            start + old(self).sub_state().blocks().len() <= supply@.len(),
        ensures
            final(released)@ == old(released)@ + copies_of(old(self).sub_state().blocks()),
            final(self).is_memory_change_of(*old(self)),
            forall|k: int|
                0 <= k < final(self).sub_state().blocks().len() ==> (
                #[trigger] final(self).sub_state().blocks()[k]).copies@ == supply@[start + k]@,
    {
        match self {
            BucketObject::Static(state) => state.sub_state.recreate_block_state_memory(
                supply,
                start,
                released,
            ),
            BucketObject::Dynamic(state) => state.sub_state.recreate_block_state_memory(
                supply,
                start,
                released,
            ),
        }
    }

    /// The state that both kinds of object have.
    pub fn sub(&self) -> (r: &SubState)
        ensures
            *r == self.sub_state(),
    {
        match self {
            BucketObject::Static(state) => &state.sub_state,
            BucketObject::Dynamic(state) => &state.sub_state,
        }
    }
}

/// An object together with the name it goes by in its bucket.
#[derive(Debug)]
pub struct BucketEntry {
    pub name: String,
    pub object: BucketObject,
}

impl BucketEntry {
    /// What releases everything that the object owns, once it is out of its
    /// bucket: the device comes to rest, then the GPU copies of the object's
    /// own block states go, block by block, and then its geometry buffers.
    /// Each thing goes once. The block states of the pipeline are not the
    /// object's, and stay.
    pub open spec fn release(&self) -> Seq<ResourceCommand> {
        seq![ResourceCommand::WaitIdle] + free_copies(
            copies_of(self.object.sub_state().blocks()),
        ) + destroy_buffers(geometry_buffers_of(self.object.sub_state().buffers))
    }

    /// The commands that release everything that the object owns.
    pub fn release_commands(&self) -> (commands: Vec<ResourceCommand>)
        ensures
            commands@ == self.release(),
    {
        let mut commands: Vec<ResourceCommand> = Vec::new();
        commands.push(ResourceCommand::WaitIdle);
        let sub = self.object.sub();
        match &sub.block_states {
            Some(block_states) => {
                push_free_blocks(&mut commands, block_states);
            },
            None => {
                assert(free_copies(copies_of(sub.blocks())) =~= Seq::<ResourceCommand>::empty());
            },
        }
        destroy_geometry(&mut commands, &sub.buffers);
        assert(commands@ =~= self.release());
        commands
    }
}

/// The objects that are drawn with one pipeline, in drawing order.
#[derive(Debug)]
pub struct Bucket {
    pub name: String,
    pub pipeline_info: PipelineInfo,
    pub objects: Vec<BucketEntry>,
}

/// `i` is the first position in `entries` that holds `name`.
pub open spec fn is_first_named(entries: Seq<BucketEntry>, name: Seq<char>, i: int) -> bool {
    &&& 0 <= i < entries.len()
    &&& entries[i].name@ == name
    &&& forall|j: int| 0 <= j < i ==> entries[j].name@ != name
}

/// Whether every block state has a copy for frame `frame`.
pub open spec fn blocks_cover(blocks: Seq<BlockState>, frame: int) -> bool {
    forall|k: int| 0 <= k < blocks.len() ==> 0 <= frame < (#[trigger] blocks[k]).copies@.len()
}

/// The descriptor sets of the block states for frame `frame`, in order.
pub open spec fn block_sets(blocks: Seq<BlockState>, frame: int) -> Seq<u64> {
    Seq::new(blocks.len(), |k: int| blocks[k].copies@[frame].descriptor_set)
}

/// Whether an object can be drawn in frame `frame`, or is left out of it:
/// an enabled object has its block states, each with a copy for the frame.
pub open spec fn object_drawable(sub: SubState, frame: int) -> bool {
    sub.enabled ==> sub.block_states is Some && blocks_cover(sub.block_states->0@, frame)
}

/// Appends to `sets` the descriptor sets of the block states for a frame.
fn push_block_sets(sets: &mut Vec<u64>, blocks: &Vec<BlockState>, frame: usize)
    requires
        blocks_cover(blocks@, frame as int),
    ensures
        final(sets)@ == old(sets)@ + block_sets(blocks@, frame as int),
{
    let mut k: usize = 0;
    while k < blocks.len()
        invariant
            k <= blocks@.len(),
            blocks_cover(blocks@, frame as int),
            sets@ == old(sets)@ + block_sets(blocks@, frame as int).take(k as int),
        decreases blocks@.len() - k,
    {
        sets.push(blocks[k].descriptor_set(frame));
        assert(sets@ =~= old(sets)@ + block_sets(blocks@, frame as int).take(k + 1));
        k += 1;
    }
    assert(block_sets(blocks@, frame as int).take(k as int) =~= block_sets(blocks@, frame as int));
}

/// Whether every block state has a copy for frame `frame`.
fn check_blocks_cover(blocks: &Vec<BlockState>, frame: usize) -> (r: bool)
    ensures
        r == blocks_cover(blocks@, frame as int),
{
    let mut k: usize = 0;
    while k < blocks.len()
        invariant
            k <= blocks@.len(),
            forall|j: int| 0 <= j < k ==> 0 <= frame < (#[trigger] blocks@[j]).copies@.len(),
        decreases blocks@.len() - k,
    {
        if frame >= blocks[k].frame_count() {
            return false;
        }
        k += 1;
    }
    true
}

impl Bucket {
    /// Every object has its block states: a bucket hands them over when it
    /// takes an object in.
    pub open spec fn wf(&self) -> bool {
        forall|i: int|
            0 <= i < self.objects@.len() ==> (
            #[trigger] self.objects@[i]).object.sub_state().block_states is Some
    }

    /// Whether the bucket holds an object of this name.
    pub open spec fn has_object(&self, name: Seq<char>) -> bool {
        exists|i: int| 0 <= i < self.objects@.len() && self.objects@[i].name@ == name
    }

    /// An empty bucket for the given pipeline.
    pub fn new(name: &str, pipeline_info: PipelineInfo) -> (r: Self)
        ensures
            r.name@ == name@,
            r.pipeline_info == pipeline_info,
            r.objects@.len() == 0,
            r.wf(),
    {
        Bucket { name: name.to_owned(), pipeline_info, objects: Vec::new() }
    }

    /// The position of the first object of this name, or `None` where the
    /// bucket holds no such object.
    pub fn find_object(&self, name: &str) -> (r: Option<usize>)
        ensures
            match r {
                Some(i) => is_first_named(self.objects@, name@, i as int),
                None => !self.has_object(name@),
            },
    {
        let wanted: String = name.to_owned();
        let mut i: usize = 0;
        while i < self.objects.len()
            invariant
                i <= self.objects@.len(),
                wanted@ == name@,
                forall|j: int| 0 <= j < i ==> self.objects@[j].name@ != name@,
            decreases self.objects@.len() - i,
        {
            if self.objects[i].name == wanted {
                return Some(i);
            }
            i += 1;
        }
        None
    }

    /// The first object of this name, for drawing.
    pub fn get_static_object_rs(&self, name: &str) -> (r: &BucketObject)
        requires
            self.has_object(name@),
        ensures
            exists|i: int|
                is_first_named(self.objects@, name@, i) && *r == self.objects@[i].object,
    {
        let found = self.find_object(name);
        match found {
            Some(i) => &self.objects[i].object,
            None => unreached(),
        }
    }

    /// The first object of this name, for marking it stale and updating it.
    pub fn get_static_object_us(&mut self, name: &str) -> (r: &mut BucketObject)
        requires
            old(self).has_object(name@),
        ensures
            exists|i: int|
                is_first_named(old(self).objects@, name@, i) && *r == old(self).objects@[i].object
                    && final(self).objects@ == old(self).objects@.update(
                    i,
                    BucketEntry { name: old(self).objects@[i].name, object: *final(r) },
                ),
            final(self).name == old(self).name,
            final(self).pipeline_info == old(self).pipeline_info,
    {
        let found = self.find_object(name);
        match found {
            Some(i) => &mut self.objects[i].object,
            None => unreached(),
        }
    }

    /// The entry that a static object makes once it has its block states.
    pub open spec fn static_entry(
        name: String,
        static_state: StaticState,
        block_states: Vec<BlockState>,
    ) -> BucketEntry {
        BucketEntry {
            name,
            object: BucketObject::Static(
                StaticState {
                    sub_state: SubState {
                        block_states: Some(block_states),
                        ..static_state.sub_state
                    },
                    ..static_state
                },
            ),
        }
    }

    /// The entry that a dynamic object makes once it has its block states.
    pub open spec fn dynamic_entry(
        name: String,
        dynamic_state: DynamicState,
        block_states: Vec<BlockState>,
    ) -> BucketEntry {
        BucketEntry {
            name,
            object: BucketObject::Dynamic(
                DynamicState {
                    sub_state: SubState {
                        block_states: Some(block_states),
                        ..dynamic_state.sub_state
                    },
                    ..dynamic_state
                },
            ),
        }
    }

    /// Takes a static object in, last in drawing order, and hands it the
    /// block states that were created for it.
    pub fn add_static_object(
        &mut self,
        name: String,
        static_state: StaticState,
        block_states: Vec<BlockState>,
    )
        ensures
            old(self).wf() ==> final(self).wf(),
            final(self).objects@ == old(self).objects@.push(
                Self::static_entry(name, static_state, block_states),
            ),
            final(self).name == old(self).name,
            final(self).pipeline_info == old(self).pipeline_info,
    {
        let mut static_state = static_state;
        static_state.sub_state.block_states = Some(block_states);
        self.objects.push(BucketEntry { name, object: BucketObject::Static(static_state) });
    }

    /// Takes a dynamic object in, last in drawing order, and hands it the
    /// block states that were created for it.
    pub fn add_dynamic_object(
        &mut self,
        name: String,
        dynamic_state: DynamicState,
        block_states: Vec<BlockState>,
    )
        ensures
            old(self).wf() ==> final(self).wf(),
            final(self).objects@ == old(self).objects@.push(
                Self::dynamic_entry(name, dynamic_state, block_states),
            ),
            final(self).name == old(self).name,
            final(self).pipeline_info == old(self).pipeline_info,
    {
        let mut dynamic_state = dynamic_state;
        dynamic_state.sub_state.block_states = Some(block_states);
        self.objects.push(BucketEntry { name, object: BucketObject::Dynamic(dynamic_state) });
    }

    /// Takes the first object of this name out. Returns it together with
    /// the commands that release what it owns: its own block states' memory
    /// and its geometry buffers. The last object takes its place in the
    /// drawing order; the pipeline and its block states stay as they are.
    pub fn remove_object(&mut self, name: String) -> (removed: (BucketEntry, Vec<ResourceCommand>))
        requires
            old(self).has_object(name@),
        ensures
            exists|i: int|
                is_first_named(old(self).objects@, name@, i) && removed.0 == old(self).objects@[i]
                    && final(self).objects@ == old(self).objects@.update(
                    i,
                    old(self).objects@.last(),
                ).drop_last(),
            removed.1@ == removed.0.release(),
            old(self).wf() ==> final(self).wf(),
            final(self).name == old(self).name,
            final(self).pipeline_info == old(self).pipeline_info,
    {
        let found = self.find_object(name.as_str());
        match found {
            Some(i) => {
                let entry = self.objects.swap_remove(i);
                let commands = entry.release_commands();
                (entry, commands)
            },
            None => unreached(),
        }
    }

    /// Whether the bucket is what an update makes of `before`: every object
    /// updated, nothing else touched.
    pub open spec fn is_update_of(&self, before: Bucket, frame_count: usize) -> bool {
        &&& self.name == before.name
        &&& self.pipeline_info == before.pipeline_info
        &&& self.objects@.len() == before.objects@.len()
        &&& forall|i: int|
            0 <= i < self.objects@.len() ==> (#[trigger] self.objects@[i]).name
                == before.objects@[i].name && self.objects@[i].object.is_update_of(
                before.objects@[i].object,
                frame_count,
            )
    }

    /// An update leaves a bucket as fit for recording as it was.
    pub proof fn lemma_update_keeps_renderable(&self, before: Bucket, frame_count: usize, frame: usize)
        requires
            self.is_update_of(before, frame_count),
            before.renderable(frame),
        ensures
            self.renderable(frame),
    {
        assert forall|i: int| 0 <= i < self.objects@.len() implies object_drawable(
            (#[trigger] self.objects@[i]).object.sub_state(),
            frame as int,
        ) by {
            assert(self.objects@[i].object.is_update_of(before.objects@[i].object, frame_count));
            assert(object_drawable(before.objects@[i].object.sub_state(), frame as int));
        }
    }

    /// Decides for every object, in drawing order, what to upload before
    /// frame `frame` is recorded, and moves the objects' states on.
    pub fn update_blocks(&mut self, frame: usize, frame_count: usize) -> (plans: Vec<UpdatePlan>)
        requires
            frame < frame_count,
        ensures
            plans@.len() == old(self).objects@.len(),
            forall|i: int|
                0 <= i < plans@.len() ==> #[trigger] plans@[i] == old(self).objects@[i].object.plan(
                    frame,
                ),
            final(self).is_update_of(*old(self), frame_count),
            old(self).wf() ==> final(self).wf(),
    {
        let mut plans: Vec<UpdatePlan> = Vec::new();
        let mut i: usize = 0;
        while i < self.objects.len()
            invariant
                frame < frame_count,
                i <= self.objects@.len(),
                plans@.len() == i,
                self.objects@.len() == old(self).objects@.len(),
                self.name == old(self).name,
                self.pipeline_info == old(self).pipeline_info,
                forall|j: int|
                    0 <= j < i ==> #[trigger] plans@[j] == old(self).objects@[j].object.plan(frame),
                forall|j: int|
                    0 <= j < i ==> (#[trigger] self.objects@[j]).name == old(self).objects@[j].name
                        && self.objects@[j].object.is_update_of(
                        old(self).objects@[j].object,
                        frame_count,
                    ),
                forall|j: int|
                    i <= j < self.objects@.len() ==> #[trigger] self.objects@[j] == old(self).objects@[j],
            decreases self.objects@.len() - i,
        {
            let plan = self.objects[i].object.update_block_states(frame, frame_count);
            plans.push(plan);
            i += 1;
        }
        plans
    }

    /// Whether frame `frame` can be recorded: the pipeline's block states
    /// have a copy for the frame, and every enabled object has its block
    /// states with a copy for the frame. Objects that are not enabled are
    /// left out of the frame, so nothing is asked of them.
    pub open spec fn renderable(&self, frame: usize) -> bool {
        &&& blocks_cover(self.pipeline_info.block_states@, frame as int)
        &&& forall|i: int|
            0 <= i < self.objects@.len() ==> object_drawable(
                (#[trigger] self.objects@[i]).object.sub_state(),
                frame as int,
            )
    }

    /// The commands that set the pipeline up, before any object is drawn.
    pub open spec fn pipeline_commands(&self) -> Seq<DrawCommandView> {
        seq![
            DrawCommandView::BindPipeline { pipeline: self.pipeline_info.pipeline },
            DrawCommandView::SetViewport { pipeline: self.pipeline_info.pipeline },
            DrawCommandView::SetScissor { pipeline: self.pipeline_info.pipeline },
        ]
    }

    /// The commands that draw object `i` in frame `frame`: none if it is not
    /// enabled; else bind the descriptor sets of the frame, the pipeline's
    /// before the object's own, bind the buffers, and draw.
    pub open spec fn object_commands(&self, i: int, frame: usize) -> Seq<DrawCommandView> {
        let sub = self.objects@[i].object.sub_state();
        if sub.enabled {
            seq![
                DrawCommandView::BindDescriptorSets {
                    layout: self.pipeline_info.pipeline_layout,
                    sets: block_sets(self.pipeline_info.block_states@, frame as int) + block_sets(
                        sub.block_states->0@,
                        frame as int,
                    ),
                },
            ] + bind_commands_of(sub.buffers) + seq![draw_command_of(sub.buffers)]
        } else {
            Seq::empty()
        }
    }

    /// The commands of the pipeline and of the first `n` objects.
    pub open spec fn commands_upto(&self, n: int, frame: usize) -> Seq<DrawCommandView>
        decreases n,
    {
        if n <= 0 {
            self.pipeline_commands()
        } else {
            self.commands_upto(n - 1, frame) + self.object_commands(n - 1, frame)
        }
    }

    /// All commands of the bucket for frame `frame`.
    pub open spec fn frame_commands(&self, frame: usize) -> Seq<DrawCommandView> {
        self.commands_upto(self.objects@.len() as int, frame)
    }

    /// The commands to record for the bucket in frame `frame`: bind the
    /// pipeline, set viewport and scissor, then draw every enabled object in
    /// order with the descriptor sets of that frame.
    pub fn render(&self, frame: usize) -> (commands: Vec<DrawCommand>)
        requires
            self.renderable(frame),
        ensures
            commands.deep_view() == self.frame_commands(frame),
    {
        let mut commands: Vec<DrawCommand> = Vec::new();
        commands.push(DrawCommand::BindPipeline { pipeline: self.pipeline_info.pipeline });
        commands.push(DrawCommand::SetViewport { pipeline: self.pipeline_info.pipeline });
        commands.push(DrawCommand::SetScissor { pipeline: self.pipeline_info.pipeline });
        assert(commands.deep_view() =~= self.pipeline_commands());
        let mut i: usize = 0;
        while i < self.objects.len()
            invariant
                i <= self.objects@.len(),
                self.renderable(frame),
                commands.deep_view() == self.commands_upto(i as int, frame),
            decreases self.objects@.len() - i,
        {
            let sub = self.objects[i].object.sub();
            if sub.enabled {
                let ghost before = commands.deep_view();
                assert(self.objects@[i as int].object.sub_state().enabled);
                let mut sets: Vec<u64> = Vec::new();
                push_block_sets(&mut sets, &self.pipeline_info.block_states, frame);
                match &sub.block_states {
                    Some(block_states) => {
                        push_block_sets(&mut sets, block_states, frame);
                    },
                    None => {},
                }
                let ghost bind_sets = DrawCommandView::BindDescriptorSets {
                    layout: self.pipeline_info.pipeline_layout,
                    sets: sets@,
                };
                assert(sets@ =~= block_sets(self.pipeline_info.block_states@, frame as int)
                    + block_sets(sub.block_states->0@, frame as int));
                commands.push(
                    DrawCommand::BindDescriptorSets {
                        layout: self.pipeline_info.pipeline_layout,
                        sets,
                    },
                );
                assert(commands.deep_view() =~= before.push(bind_sets));
                bind_buffers(&mut commands, &sub.buffers);
                let ghost bound = commands.deep_view();
                commands.push(draw_command(&sub.buffers));
                assert(commands.deep_view() =~= bound.push(draw_command_of(sub.buffers)));
                assert(commands.deep_view() =~= before + self.object_commands(i as int, frame));
            }
            i += 1;
        }
        commands
    }

    /// The copies that the block states of the first `n` objects hold.
    pub open spec fn object_copies_upto(&self, n: int) -> Seq<FrameCopy>
        decreases n,
    {
        if n <= 0 {
            Seq::empty()
        } else {
            self.object_copies_upto(n - 1) + copies_of(
                self.objects@[n - 1].object.sub_state().blocks(),
            )
        }
    }

    /// Every GPU copy of a block state that the bucket holds: those of the
    /// pipeline first, then those of the objects in drawing order.
    pub open spec fn all_copies(&self) -> Seq<FrameCopy> {
        copies_of(self.pipeline_info.block_states@) + self.object_copies_upto(
            self.objects@.len() as int,
        )
    }

    /// Whether this is `before` but for what a swapchain's end takes away
    /// and its successor brings back: the pipeline with its viewport and
    /// scissor, and the GPU copies of the block states.
    pub open spec fn keeps_contents_of(&self, before: Bucket) -> bool {
        &&& self.name == before.name
        &&& self.pipeline_info.depth == before.pipeline_info.depth
        &&& self.pipeline_info.viewport_depth_range == before.pipeline_info.viewport_depth_range
        &&& self.pipeline_info.polygon_mode == before.pipeline_info.polygon_mode
        &&& self.pipeline_info.name == before.pipeline_info.name
        &&& same_descriptions(self.pipeline_info.block_states@, before.pipeline_info.block_states@)
        &&& self.objects@.len() == before.objects@.len()
        &&& forall|i: int|
            0 <= i < self.objects@.len() ==> (#[trigger] self.objects@[i]).name
                == before.objects@[i].name && self.objects@[i].object.is_memory_change_of(
                before.objects@[i].object,
            )
    }

    /// Whether this is `before` but for the GPU copies of the block states.
    pub open spec fn is_memory_change_of(&self, before: Bucket) -> bool {
        &&& self.keeps_contents_of(before)
        &&& self.pipeline_info.pipeline == before.pipeline_info.pipeline
        &&& self.pipeline_info.pipeline_layout == before.pipeline_info.pipeline_layout
        &&& self.pipeline_info.viewport == before.pipeline_info.viewport
        &&& self.pipeline_info.scissor == before.pipeline_info.scissor
    }

    /// Whether the bucket holds nothing that hangs on a swapchain: no
    /// pipeline, no layout, no GPU copy of a block state.
    pub open spec fn holds_nothing(&self) -> bool {
        &&& self.without_memory()
        &&& self.pipeline_info.pipeline == 0
        &&& self.pipeline_info.pipeline_layout == 0
    }

    /// Whether no block state of the bucket holds a GPU copy.
    pub open spec fn without_memory(&self) -> bool {
        &&& without_memory(self.pipeline_info.block_states@)
        &&& forall|i: int|
            0 <= i < self.objects@.len() ==> without_memory(
                (#[trigger] self.objects@[i]).object.sub_state().blocks(),
            )
    }

    /// Gives up the GPU copies of every block state of the bucket and
    /// returns them for release: those of the pipeline first, then those of
    /// the objects in drawing order. Nothing else changes.
    pub fn destroy_block_state_memory(&mut self) -> (released: Vec<FrameCopy>)
        ensures
            released@ == old(self).all_copies(),
            final(self).is_memory_change_of(*old(self)),
            final(self).without_memory(),
    {
        let mut released: Vec<FrameCopy> = Vec::new();
        destroy_blocks(&mut self.pipeline_info.block_states, &mut released);
        assert(released@ =~= copies_of(old(self).pipeline_info.block_states@));
        let mut i: usize = 0;
        while i < self.objects.len()
            invariant
                i <= self.objects@.len(),
                self.objects@.len() == old(self).objects@.len(),
                self.name == old(self).name,
                self.pipeline_info.pipeline == old(self).pipeline_info.pipeline,
                self.pipeline_info.pipeline_layout == old(self).pipeline_info.pipeline_layout,
                self.pipeline_info.viewport == old(self).pipeline_info.viewport,
                self.pipeline_info.scissor == old(self).pipeline_info.scissor,
                self.pipeline_info.depth == old(self).pipeline_info.depth,
                self.pipeline_info.viewport_depth_range == old(self).pipeline_info.viewport_depth_range,
                self.pipeline_info.polygon_mode == old(self).pipeline_info.polygon_mode,
                self.pipeline_info.name == old(self).pipeline_info.name,
                same_descriptions(
                    self.pipeline_info.block_states@,
                    old(self).pipeline_info.block_states@,
                ),
                without_memory(self.pipeline_info.block_states@),
                released@ == copies_of(old(self).pipeline_info.block_states@)
                    + old(self).object_copies_upto(i as int),
                forall|j: int|
                    0 <= j < i ==> (#[trigger] self.objects@[j]).name == old(self).objects@[j].name
                        && self.objects@[j].object.is_memory_change_of(old(self).objects@[j].object)
                        && without_memory(self.objects@[j].object.sub_state().blocks()),
                forall|j: int|
                    i <= j < self.objects@.len() ==> #[trigger] self.objects@[j] == old(self).objects@[j],
            decreases self.objects@.len() - i,
        {
            self.objects[i].object.destroy_block_state_memory(&mut released);
            assert(released@ =~= copies_of(old(self).pipeline_info.block_states@)
                + old(self).object_copies_upto(i + 1));
            i += 1;
        }
        proof {
            assert forall|j: int| 0 <= j < self.objects@.len() implies (
            #[trigger] self.objects@[j]).name == old(self).objects@[j].name
                && self.objects@[j].object.is_memory_change_of(old(self).objects@[j].object) by {}
        }
        released
    }

    /// The number of block states before those of object `i`, counting the
    /// pipeline's first and then those of the objects in drawing order.
    pub open spec fn block_offset(&self, i: int) -> int
        decreases i,
    {
        if i <= 0 {
            self.pipeline_info.block_states@.len() as int
        } else {
            self.block_offset(i - 1) + self.objects@[i - 1].object.sub_state().blocks().len()
        }
    }

    /// The number of block states that the bucket holds.
    pub open spec fn block_count(&self) -> int {
        self.block_offset(self.objects@.len() as int)
    }

    /// The offsets grow with the objects.
    pub proof fn lemma_block_offset_grows(&self, i: int, n: int)
        requires
            0 <= i <= n,
        ensures
            self.pipeline_info.block_states@.len() <= self.block_offset(i) <= self.block_offset(n),
        decreases n,
    {
        if i < n {
            self.lemma_block_offset_grows(i, n - 1);
        } else if i > 0 {
            self.lemma_block_offset_grows(i - 1, n - 1);
        }
    }

    /// Hands every block state of the bucket its freshly created copies.
    /// `supply` holds one list of copies per block state: those for the
    /// pipeline's block states first, then those for the objects' in drawing
    /// order. Returns the copies held before, for release.
    pub fn recreate_block_state_memory(&mut self, supply: &Vec<Vec<FrameCopy>>) -> (released: Vec<
        FrameCopy,
    >)
        requires
            supply@.len() >= old(self).block_count(),
        ensures
            released@ == old(self).all_copies(),
            final(self).is_memory_change_of(*old(self)),
            forall|k: int|
                0 <= k < final(self).pipeline_info.block_states@.len() ==> (
                #[trigger] final(self).pipeline_info.block_states@[k]).copies@ == supply@[k]@,
            forall|i: int, k: int|
                0 <= i < final(self).objects@.len() && 0 <= k
                    < final(self).objects@[i].object.sub_state().blocks().len() ==> (
                #[trigger] final(self).objects@[i].object.sub_state().blocks()[k]).copies@
                    == supply@[old(self).block_offset(i) + k]@,
    {
        let mut released: Vec<FrameCopy> = Vec::new();
        proof {
            self.lemma_block_offset_grows(0, self.objects@.len() as int);
        }
        recreate_blocks(&mut self.pipeline_info.block_states, supply, 0, &mut released);
        assert(released@ =~= copies_of(old(self).pipeline_info.block_states@));
        let total: usize = supply.len();
        let mut offset: usize = self.pipeline_info.block_states.len();
        let mut i: usize = 0;
        while i < self.objects.len()
            invariant
                i <= self.objects@.len(),
                self.objects@.len() == old(self).objects@.len(),
                total == supply@.len() >= old(self).block_count(),
                offset == old(self).block_offset(i as int),
                self.name == old(self).name,
                self.pipeline_info.pipeline == old(self).pipeline_info.pipeline,
                self.pipeline_info.pipeline_layout == old(self).pipeline_info.pipeline_layout,
                self.pipeline_info.viewport == old(self).pipeline_info.viewport,
                self.pipeline_info.scissor == old(self).pipeline_info.scissor,
                self.pipeline_info.depth == old(self).pipeline_info.depth,
                self.pipeline_info.viewport_depth_range == old(self).pipeline_info.viewport_depth_range,
                self.pipeline_info.polygon_mode == old(self).pipeline_info.polygon_mode,
                self.pipeline_info.name == old(self).pipeline_info.name,
                same_descriptions(
                    self.pipeline_info.block_states@,
                    old(self).pipeline_info.block_states@,
                ),
                forall|k: int|
                    0 <= k < self.pipeline_info.block_states@.len() ==> (
                    #[trigger] self.pipeline_info.block_states@[k]).copies@ == supply@[k]@,
                released@ == copies_of(old(self).pipeline_info.block_states@)
                    + old(self).object_copies_upto(i as int),
                forall|j: int|
                    0 <= j < i ==> (#[trigger] self.objects@[j]).name == old(self).objects@[j].name
                        && self.objects@[j].object.is_memory_change_of(
                        old(self).objects@[j].object,
                    ),
                forall|j: int, k: int|
                    0 <= j < i && 0 <= k < self.objects@[j].object.sub_state().blocks().len() ==> (
                    #[trigger] self.objects@[j].object.sub_state().blocks()[k]).copies@
                        == supply@[old(self).block_offset(j) + k]@,
                forall|j: int|
                    i <= j < self.objects@.len() ==> #[trigger] self.objects@[j] == old(self).objects@[j],
            decreases self.objects@.len() - i,
        {
            proof {
                old(self).lemma_block_offset_grows(i + 1, self.objects@.len() as int);
            }
            self.objects[i].object.recreate_block_state_memory(supply, offset, &mut released);
            assert(released@ =~= copies_of(old(self).pipeline_info.block_states@)
                + old(self).object_copies_upto(i + 1));
            let own: usize = self.objects[i].object.sub().blocks_len();
            assert(offset + own == old(self).block_offset(i + 1));
            offset = offset + own;
            i += 1;
        }
        released
    }

    /// The data sizes of the block states of the first `n` objects.
    pub open spec fn object_sizes_upto(&self, n: int) -> Seq<usize>
        decreases n,
    {
        if n <= 0 {
            Seq::empty()
        } else {
            self.object_sizes_upto(n - 1) + sizes_of(
                self.objects@[n - 1].object.sub_state().blocks(),
            )
        }
    }

    /// The data sizes of all block states of the bucket: those of the
    /// pipeline first, then those of the objects in drawing order.
    pub open spec fn all_block_sizes(&self) -> Seq<usize> {
        sizes_of(self.pipeline_info.block_states@) + self.object_sizes_upto(
            self.objects@.len() as int,
        )
    }

    /// There are as many sizes as block states before object `n`.
    pub proof fn lemma_sizes_count(&self, n: int)
        requires
            0 <= n,
        ensures
            sizes_of(self.pipeline_info.block_states@).len() + self.object_sizes_upto(n).len()
                == self.block_offset(n),
        decreases n,
    {
        if n > 0 {
            self.lemma_sizes_count(n - 1);
        }
    }

    /// The data size of every block state, in the order in which
    /// `recreate_block_state_memory` takes their copies.
    pub fn block_sizes(&self) -> (sizes: Vec<usize>)
        ensures
            sizes@ == self.all_block_sizes(),
            sizes@.len() == self.block_count(),
    {
        let mut sizes: Vec<usize> = Vec::new();
        push_block_sizes(&mut sizes, &self.pipeline_info.block_states);
        assert(sizes@ =~= sizes_of(self.pipeline_info.block_states@));
        let mut i: usize = 0;
        while i < self.objects.len()
            invariant
                i <= self.objects@.len(),
                sizes@ == sizes_of(self.pipeline_info.block_states@) + self.object_sizes_upto(
                    i as int,
                ),
            decreases self.objects@.len() - i,
        {
            match &self.objects[i].object.sub().block_states {
                Some(block_states) => {
                    push_block_sizes(&mut sizes, block_states);
                },
                None => {},
            }
            assert(sizes@ =~= sizes_of(self.pipeline_info.block_states@) + self.object_sizes_upto(
                i + 1,
            ));
            i += 1;
        }
        proof {
            self.lemma_sizes_count(self.objects@.len() as int);
        }
        sizes
    }

    /// A bucket without memory holds no GPU copy of any block state.
    pub proof fn lemma_without_memory_holds_nothing(&self)
        requires
            self.without_memory(),
        ensures
            self.all_copies() == Seq::<FrameCopy>::empty(),
    {
        lemma_without_memory_holds_nothing(self.pipeline_info.block_states@);
        self.lemma_objects_hold_nothing(self.objects@.len() as int);
    }

    proof fn lemma_objects_hold_nothing(&self, n: int)
        requires
            self.without_memory(),
            0 <= n <= self.objects@.len(),
        ensures
            self.object_copies_upto(n) == Seq::<FrameCopy>::empty(),
        decreases n,
    {
        if n > 0 {
            self.lemma_objects_hold_nothing(n - 1);
            lemma_without_memory_holds_nothing(self.objects@[n - 1].object.sub_state().blocks());
        }
    }

    /// Once every block state has a copy for each of `frame_count` frames,
    /// every frame below `frame_count` can be recorded.
    pub proof fn lemma_full_memory_is_renderable(&self, frame_count: usize, frame: usize)
        requires
            self.wf(),
            frame < frame_count,
            forall|k: int|
                0 <= k < self.pipeline_info.block_states@.len() ==> (
                #[trigger] self.pipeline_info.block_states@[k]).copies@.len() == frame_count,
            forall|i: int, k: int|
                0 <= i < self.objects@.len() && 0 <= k
                    < self.objects@[i].object.sub_state().blocks().len() ==> (
                #[trigger] self.objects@[i].object.sub_state().blocks()[k]).copies@.len()
                    == frame_count,
        ensures
            self.renderable(frame),
    {
        assert forall|i: int| 0 <= i < self.objects@.len() implies object_drawable(
            (#[trigger] self.objects@[i]).object.sub_state(),
            frame as int,
        ) by {
            let blocks = self.objects@[i].object.sub_state().blocks();
            assert(blocks == self.objects@[i].object.sub_state().block_states->0@);
            assert forall|k: int| 0 <= k < blocks.len() implies 0 <= frame < (
            #[trigger] blocks[k]).copies@.len() by {
                assert(self.objects@[i].object.sub_state().blocks()[k].copies@.len()
                    == frame_count);
            }
        }
    }

    /// Gives up the pipeline and its layout: returns them, in this order,
    /// for the caller to destroy. The objects stay as they are.
    pub fn destroy_pipeline(&mut self) -> (released: (u64, u64))
        ensures
            released == (old(self).pipeline_info.pipeline, old(self).pipeline_info.pipeline_layout),
            final(self).pipeline_info.pipeline == 0,
            final(self).pipeline_info.pipeline_layout == 0,
            final(self).pipeline_info.viewport == old(self).pipeline_info.viewport,
            final(self).pipeline_info.scissor == old(self).pipeline_info.scissor,
            final(self).pipeline_info.settings() == old(self).pipeline_info.settings(),
            final(self).name == old(self).name,
            final(self).objects == old(self).objects,
    {
        self.pipeline_info.destroy_pipeline()
    }

    /// Takes a pipeline and layout created for a window of the given
    /// extent. The objects stay as they are.
    pub fn recreate_pipeline(&mut self, pipeline: u64, pipeline_layout: u64, extent: Extent2D)
        ensures
            final(self).pipeline_info.pipeline == pipeline,
            final(self).pipeline_info.pipeline_layout == pipeline_layout,
            final(self).pipeline_info.viewport == full_viewport(extent),
            final(self).pipeline_info.scissor == full_scissor(extent),
            final(self).pipeline_info.settings() == old(self).pipeline_info.settings(),
            final(self).name == old(self).name,
            final(self).objects == old(self).objects,
    {
        self.pipeline_info.recreate_pipeline(pipeline, pipeline_layout, extent);
    }

    /// Tests whether frame `frame` can be recorded.
    pub fn is_renderable(&self, frame: usize) -> (r: bool)
        ensures
            r == self.renderable(frame),
    {
        if !check_blocks_cover(&self.pipeline_info.block_states, frame) {
            return false;
        }
        let mut i: usize = 0;
        while i < self.objects.len()
            invariant
                i <= self.objects@.len(),
                blocks_cover(self.pipeline_info.block_states@, frame as int),
                forall|j: int|
                    0 <= j < i ==> object_drawable(
                        (#[trigger] self.objects@[j]).object.sub_state(),
                        frame as int,
                    ),
            decreases self.objects@.len() - i,
        {
            let sub = self.objects[i].object.sub();
            if sub.enabled {
                match &sub.block_states {
                    Some(block_states) => {
                        if !check_blocks_cover(block_states, frame) {
                            return false;
                        }
                    },
                    None => {
                        return false;
                    },
                }
            }
            i += 1;
        }
        true
    }

    /// Tests whether the bucket holds nothing that hangs on a swapchain.
    pub fn is_torn_down(&self) -> (r: bool)
        ensures
            r == self.holds_nothing(),
    {
        if self.pipeline_info.pipeline != 0 || self.pipeline_info.pipeline_layout != 0 {
            return false;
        }
        if !check_without_memory(&self.pipeline_info.block_states) {
            return false;
        }
        let mut i: usize = 0;
        while i < self.objects.len()
            invariant
                i <= self.objects@.len(),
                forall|j: int|
                    0 <= j < i ==> without_memory(
                        (#[trigger] self.objects@[j]).object.sub_state().blocks(),
                    ),
            decreases self.objects@.len() - i,
        {
            match &self.objects[i].object.sub().block_states {
                Some(block_states) => {
                    if !check_without_memory(block_states) {
                        return false;
                    }
                },
                None => {},
            }
            i += 1;
        }
        true
    }

    /// Whether `supply` holds what `recreate_block_state_memory` takes for a
    /// swapchain of `frame_count` images: one list per block state of the
    /// bucket, each of `frame_count` copies.
    pub open spec fn supply_fits(&self, supply: Seq<Vec<FrameCopy>>, frame_count: usize) -> bool {
        &&& supply.len() == self.block_count()
        &&& forall|k: int| 0 <= k < supply.len() ==> (#[trigger] supply[k])@.len() == frame_count
    }

    /// Tests whether `supply` holds one list of `frame_count` copies for
    /// each block state of the bucket.
    pub fn takes_supply(&self, supply: &Vec<Vec<FrameCopy>>, frame_count: usize) -> (r: bool)
        ensures
            r == self.supply_fits(supply@, frame_count),
    {
        let total: usize = supply.len();
        let mut k: usize = 0;
        while k < total
            invariant
                k <= total == supply@.len(),
                forall|j: int| 0 <= j < k ==> (#[trigger] supply@[j])@.len() == frame_count,
            decreases total - k,
        {
            if supply[k].len() != frame_count {
                return false;
            }
            k += 1;
        }
        let mut offset: usize = self.pipeline_info.block_states.len();
        if offset > total {
            proof {
                self.lemma_block_offset_grows(0, self.objects@.len() as int);
            }
            return false;
        }
        let mut i: usize = 0;
        while i < self.objects.len()
            invariant
                i <= self.objects@.len(),
                total == supply@.len(),
                offset == self.block_offset(i as int),
                offset <= total,
            decreases self.objects@.len() - i,
        {
            let own: usize = self.objects[i].object.sub().blocks_len();
            if own > total - offset {
                proof {
                    self.lemma_block_offset_grows(i + 1, self.objects@.len() as int);
                }
                return false;
            }
            offset = offset + own;
            i += 1;
        }
        offset == total
    }

    /// Whether every block state holds the copies that `supply` has for it,
    /// in the order in which `before` counts its block states.
    pub open spec fn holds_supply_of(&self, before: Bucket, supply: Seq<Vec<FrameCopy>>) -> bool {
        &&& forall|k: int|
            0 <= k < self.pipeline_info.block_states@.len() ==> (
            #[trigger] self.pipeline_info.block_states@[k]).copies@ == supply[k]@
        &&& forall|i: int, k: int|
            0 <= i < self.objects@.len() && 0 <= k
                < self.objects@[i].object.sub_state().blocks().len() ==> (
            #[trigger] self.objects@[i].object.sub_state().blocks()[k]).copies@
                == supply[before.block_offset(i) + k]@
    }

    /// A well formed bucket that took a fitting supply for `frame_count`
    /// frames can be recorded for each of them.
    pub proof fn lemma_supplied_is_renderable(
        &self,
        before: Bucket,
        supply: Seq<Vec<FrameCopy>>,
        frame_count: usize,
        frame: usize,
    )
        requires
            before.wf(),
            before.supply_fits(supply, frame_count),
            self.keeps_contents_of(before),
            self.holds_supply_of(before, supply),
            frame < frame_count,
        ensures
            self.renderable(frame),
    {
        assert forall|i: int| 0 <= i < self.objects@.len() implies (
        #[trigger] self.objects@[i]).object.sub_state().block_states is Some by {
            assert(before.objects@[i].object.sub_state().block_states is Some);
            assert(self.objects@[i].object.is_memory_change_of(before.objects@[i].object));
        }
        before.lemma_block_offset_grows(0, before.objects@.len() as int);
        assert forall|k: int| 0 <= k < self.pipeline_info.block_states@.len() implies (
        #[trigger] self.pipeline_info.block_states@[k]).copies@.len() == frame_count by {
            assert(supply[k]@.len() == frame_count);
        }
        assert forall|i: int, k: int|
            0 <= i < self.objects@.len() && 0 <= k
                < self.objects@[i].object.sub_state().blocks().len() implies (
        #[trigger] self.objects@[i].object.sub_state().blocks()[k]).copies@.len()
            == frame_count by {
            assert(self.objects@[i].object.is_memory_change_of(before.objects@[i].object));
            assert(self.objects@[i].object.sub_state().blocks().len()
                == before.objects@[i].object.sub_state().blocks().len());
            before.lemma_block_offset_grows(i, i);
            before.lemma_block_offset_grows(i + 1, before.objects@.len() as int);
            let at = before.block_offset(i) + k;
            assert(0 <= at < supply.len());
            assert(supply[at]@.len() == frame_count);
        }
        self.lemma_full_memory_is_renderable(frame_count, frame);
    }

    /// The objects before object `n` hold the stretch of the supply that
    /// lies between the pipeline's lists and those of object `n`.
    proof fn lemma_objects_hold_the_supply(&self, before: Bucket, supply: Seq<Vec<FrameCopy>>, n: int)
        requires
            self.keeps_contents_of(before),
            self.holds_supply_of(before, supply),
            0 <= n <= self.objects@.len(),
        ensures
            self.object_copies_upto(n) == supplied_between(
                supply,
                before.block_offset(0),
                before.block_offset(n),
            ),
        decreases n,
    {
        if n > 0 {
            self.lemma_objects_hold_the_supply(before, supply, n - 1);
            let own = self.objects@[n - 1].object.sub_state().blocks();
            assert(self.objects@[n - 1].object.is_memory_change_of(before.objects@[n - 1].object));
            assert(own.len() == before.objects@[n - 1].object.sub_state().blocks().len());
            assert forall|k: int| 0 <= k < own.len() implies (#[trigger] own[k]).copies@
                == supply[before.block_offset(n - 1) + k]@ by {
                assert(self.objects@[n - 1].object.sub_state().blocks()[k].copies@
                    == supply[before.block_offset(n - 1) + k]@);
            }
            lemma_copies_are_supplied(own, supply, before.block_offset(n - 1));
            before.lemma_block_offset_grows(0, n - 1);
            before.lemma_block_offset_grows(n - 1, n);
            lemma_supplied_split(
                supply,
                before.block_offset(0),
                before.block_offset(n - 1),
                before.block_offset(n),
            );
        }
    }

    /// A bucket that took a supply holds exactly the copies of the supply,
    /// in the supply's order.
    pub proof fn lemma_holds_the_supply(&self, before: Bucket, supply: Seq<Vec<FrameCopy>>)
        requires
            self.keeps_contents_of(before),
            self.holds_supply_of(before, supply),
        ensures
            self.all_copies() == supplied_between(supply, 0, before.block_count()),
    {
        let n = self.objects@.len() as int;
        self.lemma_objects_hold_the_supply(before, supply, n);
        lemma_copies_are_supplied(self.pipeline_info.block_states@, supply, 0);
        before.lemma_block_offset_grows(0, n);
        lemma_supplied_split(supply, 0, before.block_offset(0), before.block_offset(n));
    }
}

} // verus!
