//! The scene: the buckets, the swapchain's resources, and the frame loop
//! that draws the one into the other.

use crate::blocks::{supplied_between, FrameCopy};
use crate::bucket::Bucket;
use crate::commands::{
    free_copies, lemma_free_copies_concat, push_free_copies, DrawCommand, ResourceCommand,
};
use crate::frame::{
    setup_submit_of, CommandBuffer, FrameAction, FrameEvent, FrameLoop, FramePhase,
};
use crate::input_state::InputState;
use crate::objects::UpdatePlan;
use crate::pipeline::{full_scissor, full_viewport, Extent2D, PipelineInfo};
use crate::render_state::{clamped_delta, RenderState, RenderStateLocal};
use crate::vulkan::{acquire_code, acquire_code_of};
use vstd::pervasive::unreached;
use vstd::prelude::*;

verus! {

/// The handles that the scene owns for as long as its swapchain lives.
#[derive(Copy, Clone, Debug, PartialEq, Eq, Structural)]
pub struct ProgramData {
    /// The size of the window's drawable area.
    pub extent: Extent2D,
    pub swapchain: u64,
    pub render_pass: u64,
    pub descriptor_pool: u64,
    /// The pool of the two command buffers. It outlives the swapchain.
    pub command_pool: u64,
}

/// What to create a framebuffer from: a swapchain image's view and the depth
/// view as attachments, in this order, for one layer of the window's size.
#[derive(Copy, Clone, Debug, PartialEq, Eq, Structural)]
pub struct FramebufferInfo {
    pub render_pass: u64,
    pub color_view: u64,
    pub depth_view: u64,
    pub width: u32,
    pub height: u32,
    pub layers: u32,
}

/// What to record for one frame.
#[derive(Debug)]
pub struct FrameRecording {
    /// The frame in flight that is recorded.
    pub frame: usize,
    /// The framebuffer to open the render pass on.
    pub framebuffer: u64,
    pub render_pass: u64,
    /// The area that the render pass covers.
    pub extent: Extent2D,
    /// For each bucket, what to upload for each of its objects, before the
    /// render pass is opened.
    pub updates: Vec<Vec<UpdatePlan>>,
    /// For each bucket, the commands to record inside the render pass.
    pub draws: Vec<Vec<DrawCommand>>,
}

/// Everything that was created for a new swapchain.
#[derive(Debug)]
pub struct SwapchainResources {
    /// The size of the window's drawable area that the swapchain was made for.
    pub extent: Extent2D,
    pub swapchain: u64,
    pub render_pass: u64,
    /// The views of the swapchain's images.
    pub image_views: Vec<u64>,
    pub depth_image: u64,
    pub depth_image_view: u64,
    /// One framebuffer per image view, in the same order.
    pub framebuffers: Vec<u64>,
    /// For each bucket, its pipeline and pipeline layout.
    pub pipelines: Vec<(u64, u64)>,
    pub descriptor_pool: u64,
    /// For each bucket, for each of its block states, one copy per image.
    pub block_copies: Vec<Vec<Vec<FrameCopy>>>,
    pub command_buffer_draw: CommandBuffer,
    pub command_buffer_setup: CommandBuffer,
}

/// Why a scene refuses what was created for a new swapchain.
#[derive(Copy, Clone, Debug, PartialEq, Eq, Structural)]
pub enum ResizeError {
    /// The frame loop is not resizing.
    NotResizing,
    /// The scene still holds what hangs on the old swapchain.
    NotTornDown,
    /// The window has no drawable area.
    ZeroExtent,
    /// The swapchain has no image.
    NoImages,
    /// There is not one framebuffer per swapchain image.
    FramebufferCount,
    /// There is not one pipeline, or not one supply of copies, per bucket.
    BucketCount,
    /// A bucket's supply does not hold one copy per image for each of the
    /// bucket's block states.
    BlockCopies,
}

/// The scene.
#[derive(Debug)]
pub struct Scene {
    pub program_data: ProgramData,
    pub buckets: Vec<Bucket>,
    pub frame_loop: FrameLoop,
    /// One framebuffer per swapchain image.
    pub framebuffers: Vec<u64>,
    /// The views of the swapchain images.
    pub framebuffer_imageviews: Vec<u64>,
    /// The depth image that all framebuffers share, and its view.
    pub depth_image: u64,
    pub depth_image_view: u64,
    pub render_state: RenderState,
    /// The clock that measures the time between frames.
    pub render_state_local: RenderStateLocal,
    pub input_state: InputState,
}

/// The framebuffer to create for one swapchain image.
pub open spec fn framebuffer_info_of(
    program_data: ProgramData,
    color_view: u64,
    depth_view: u64,
) -> FramebufferInfo {
    FramebufferInfo {
        render_pass: program_data.render_pass,
        color_view,
        depth_view,
        width: program_data.extent.width,
        height: program_data.extent.height,
        layers: 1,
    }
}

/// Whether a window of this size has an area to draw to. A swapchain is
/// replaced only once the window has one: as long as it has none, the
/// program waits for the window's next report.
pub fn has_drawable_area(width: i32, height: i32) -> (r: bool)
    ensures
        r == (width > 0 && height > 0),
{
    width > 0 && height > 0
}

/// `i` is the first position in `buckets` that holds a bucket of this name.
pub open spec fn is_first_bucket_named(buckets: Seq<Bucket>, name: Seq<char>, i: int) -> bool {
    &&& 0 <= i < buckets.len()
    &&& buckets[i].name@ == name
    &&& forall|j: int| 0 <= j < i ==> buckets[j].name@ != name
}

/// The commands that destroy framebuffers, in order.
pub open spec fn destroy_framebuffers(framebuffers: Seq<u64>) -> Seq<ResourceCommand> {
    Seq::new(
        framebuffers.len(),
        |i: int| ResourceCommand::DestroyFramebuffer { framebuffer: framebuffers[i] },
    )
}

/// The commands that destroy image views, in order.
pub open spec fn destroy_image_views(image_views: Seq<u64>) -> Seq<ResourceCommand> {
    Seq::new(
        image_views.len(),
        |i: int| ResourceCommand::DestroyImageView { image_view: image_views[i] },
    )
}

/// The copies that the first `n` buckets hold.
pub open spec fn bucket_copies_upto(buckets: Seq<Bucket>, n: int) -> Seq<FrameCopy>
    decreases n,
{
    if n <= 0 {
        Seq::empty()
    } else {
        bucket_copies_upto(buckets, n - 1) + buckets[n - 1].all_copies()
    }
}

/// The commands that destroy the pipelines of the first `n` buckets, each
/// before its layout.
pub open spec fn destroy_pipelines_upto(buckets: Seq<Bucket>, n: int) -> Seq<ResourceCommand>
    decreases n,
{
    if n <= 0 {
        Seq::empty()
    } else {
        destroy_pipelines_upto(buckets, n - 1) + seq![
            ResourceCommand::DestroyPipeline { pipeline: buckets[n - 1].pipeline_info.pipeline },
            ResourceCommand::DestroyPipelineLayout {
                pipeline_layout: buckets[n - 1].pipeline_info.pipeline_layout,
            },
        ]
    }
}

/// The copies that the supplies for the first `n` buckets hold.
pub open spec fn supplies_upto(block_copies: Seq<Vec<Vec<FrameCopy>>>, n: int) -> Seq<FrameCopy>
    decreases n,
{
    if n <= 0 {
        Seq::empty()
    } else {
        supplies_upto(block_copies, n - 1) + supplied_between(
            block_copies[n - 1]@,
            0,
            block_copies[n - 1]@.len() as int,
        )
    }
}

/// The commands that destroy the first `n` of the pipelines, each before
/// its layout.
pub open spec fn destroy_created_pipelines_upto(pipelines: Seq<(u64, u64)>, n: int) -> Seq<
    ResourceCommand,
>
    decreases n,
{
    if n <= 0 {
        Seq::empty()
    } else {
        destroy_created_pipelines_upto(pipelines, n - 1) + seq![
            ResourceCommand::DestroyPipeline { pipeline: pipelines[n - 1].0 },
            ResourceCommand::DestroyPipelineLayout { pipeline_layout: pipelines[n - 1].1 },
        ]
    }
}

/// The commands that release everything that was created for a swapchain,
/// in the order of a teardown.
pub open spec fn release_of(resources: SwapchainResources, command_pool: u64) -> Seq<
    ResourceCommand,
> {
    seq![
        ResourceCommand::WaitIdle,
        ResourceCommand::FreeCommandBuffers {
            command_pool,
            setup: resources.command_buffer_setup.command_buffer,
            draw: resources.command_buffer_draw.command_buffer,
        },
        ResourceCommand::DestroyFence { fence: resources.command_buffer_setup.fence_submit },
        ResourceCommand::DestroyFence { fence: resources.command_buffer_draw.fence_submit },
        ResourceCommand::DestroyDescriptorPool { descriptor_pool: resources.descriptor_pool },
    ] + free_copies(supplies_upto(resources.block_copies@, resources.block_copies@.len() as int))
        + destroy_framebuffers(resources.framebuffers@) + destroy_created_pipelines_upto(
        resources.pipelines@,
        resources.pipelines@.len() as int,
    ) + seq![ResourceCommand::DestroyRenderPass { render_pass: resources.render_pass }]
        + destroy_image_views(resources.image_views@) + seq![
        ResourceCommand::DestroyImageView { image_view: resources.depth_image_view },
        ResourceCommand::DestroyImage { image: resources.depth_image },
        ResourceCommand::DestroySwapchain { swapchain: resources.swapchain },
    ]
}

/// A command buffer that was freed: only its queue is left.
pub open spec fn freed(buffer: CommandBuffer) -> CommandBuffer {
    CommandBuffer { command_buffer: 0, fence_submit: 0, present_queue: buffer.present_queue }
}

impl Scene {
    /// Whether the scene holds a bucket of this name.
    pub open spec fn has_bucket(&self, name: Seq<char>) -> bool {
        exists|i: int| 0 <= i < self.buckets@.len() && self.buckets@[i].name@ == name
    }

    /// There is one framebuffer and one frame in flight per swapchain image.
    pub open spec fn wf(&self) -> bool {
        &&& self.framebuffers@.len() == self.framebuffer_imageviews@.len()
        &&& self.frame_loop.frame_count == self.framebuffers@.len()
    }

    /// The framebuffers to create for the swapchain's images: one per image
    /// view, in order, each with the depth view as its second attachment.
    pub fn create_framebuffers(
        program_data: &ProgramData,
        image_views: &Vec<u64>,
        depth_image_view: u64,
    ) -> (infos: Vec<FramebufferInfo>)
        ensures
            infos@.len() == image_views@.len(),
            forall|i: int|
                0 <= i < infos@.len() ==> #[trigger] infos@[i] == framebuffer_info_of(
                    *program_data,
                    image_views@[i],
                    depth_image_view,
                ),
    {
        let mut infos: Vec<FramebufferInfo> = Vec::new();
        let mut i: usize = 0;
        while i < image_views.len()
            invariant
                i <= image_views@.len(),
                infos@.len() == i,
                forall|j: int|
                    0 <= j < i ==> #[trigger] infos@[j] == framebuffer_info_of(
                        *program_data,
                        image_views@[j],
                        depth_image_view,
                    ),
            decreases image_views@.len() - i,
        {
            infos.push(
                FramebufferInfo {
                    render_pass: program_data.render_pass,
                    color_view: image_views[i],
                    depth_view: depth_image_view,
                    width: program_data.extent.width,
                    height: program_data.extent.height,
                    layers: 1,
                },
            );
            i += 1;
        }
        infos
    }

    /// A scene around a freshly created swapchain, with one frame in flight
    /// per framebuffer and one empty bucket: that of the initial pipeline,
    /// under the given name. There is one framebuffer per image view.
    /// Returns the scene, the number of frames in flight, and the one-time
    /// setup submission to perform.
    pub fn new(
        program_data: ProgramData,
        initial_pipeline: (&str, PipelineInfo),
        semaphore_present: u64,
        semaphore_render: u64,
        command_buffer_draw: CommandBuffer,
        command_buffer_setup: CommandBuffer,
        framebuffers: Vec<u64>,
        framebuffer_imageviews: Vec<u64>,
        depth_image: u64,
        depth_image_view: u64,
    ) -> (r: (Self, usize, Vec<FrameAction>))
        requires
            framebuffers@.len() == framebuffer_imageviews@.len(),
        ensures
            r.0.wf(),
            r.0.program_data == program_data,
            r.0.buckets@.len() == 1,
            r.0.buckets@[0].name@ == initial_pipeline.0@,
            r.0.buckets@[0].pipeline_info == initial_pipeline.1,
            r.0.buckets@[0].objects@.len() == 0,
            r.0.frame_loop == (FrameLoop {
                phase: FramePhase::Idle,
                frame_count: framebuffers@.len() as usize,
                frame: 0,
                semaphore_present,
                semaphore_render,
                command_buffer_draw,
                command_buffer_setup,
            }),
            r.0.framebuffers == framebuffers,
            r.0.framebuffer_imageviews == framebuffer_imageviews,
            r.0.depth_image == depth_image,
            r.0.depth_image_view == depth_image_view,
            r.0.render_state == (RenderState { frame: 0, delta_time: 0 }),
            r.0.input_state.is_fresh(),
            r.1 == framebuffers@.len(),
            r.2@ == setup_submit_of(command_buffer_setup),
    {
        let (name, pipeline_info) = initial_pipeline;
        let frame_count = framebuffers.len();
        let frame_loop = FrameLoop::new(
            frame_count,
            semaphore_present,
            semaphore_render,
            command_buffer_draw,
            command_buffer_setup,
        );
        let mut scene = Scene {
            program_data,
            buckets: Vec::new(),
            frame_loop,
            framebuffers,
            framebuffer_imageviews,
            depth_image,
            depth_image_view,
            render_state: RenderState::default(),
            render_state_local: RenderStateLocal::new(),
            input_state: InputState::new(),
        };
        scene.add_bucket(name, pipeline_info);
        let actions = scene.setup_submit();
        (scene, frame_count, actions)
    }

    /// Adds an empty bucket for a pipeline, last in drawing order.
    pub fn add_bucket(&mut self, name: &str, pipeline_info: PipelineInfo)
        ensures
            final(self).buckets@.len() == old(self).buckets@.len() + 1,
            final(self).buckets@.drop_last() == old(self).buckets@,
            final(self).buckets@.last().name@ == name@,
            final(self).buckets@.last().pipeline_info == pipeline_info,
            final(self).buckets@.last().objects@.len() == 0,
            final(self).program_data == old(self).program_data,
            final(self).frame_loop == old(self).frame_loop,
            final(self).framebuffers == old(self).framebuffers,
            final(self).framebuffer_imageviews == old(self).framebuffer_imageviews,
            final(self).depth_image == old(self).depth_image,
            final(self).depth_image_view == old(self).depth_image_view,
            final(self).render_state == old(self).render_state,
            final(self).render_state_local == old(self).render_state_local,
            final(self).input_state == old(self).input_state,
    {
        self.buckets.push(Bucket::new(name, pipeline_info));
        assert(self.buckets@.drop_last() =~= old(self).buckets@);
    }

    /// The position of the first bucket of this name, or `None` where the
    /// scene holds no such bucket.
    pub fn find_bucket(&self, name: &str) -> (r: Option<usize>)
        ensures
            match r {
                Some(i) => is_first_bucket_named(self.buckets@, name@, i as int),
                None => !self.has_bucket(name@),
            },
    {
        let wanted: String = name.to_owned();
        let mut i: usize = 0;
        while i < self.buckets.len()
            invariant
                i <= self.buckets@.len(),
                wanted@ == name@,
                forall|j: int| 0 <= j < i ==> self.buckets@[j].name@ != name@,
            decreases self.buckets@.len() - i,
        {
            if self.buckets[i].name == wanted {
                return Some(i);
            }
            i += 1;
        }
        None
    }

    /// The first bucket of this name.
    pub fn get_bucket(&mut self, name: &str) -> (r: &mut Bucket)
        requires
            old(self).has_bucket(name@),
        ensures
            exists|i: int|
                is_first_bucket_named(old(self).buckets@, name@, i) && *r == old(self).buckets@[i]
                    && final(self).buckets@ == old(self).buckets@.update(i, *final(r)),
            final(self).program_data == old(self).program_data,
            final(self).frame_loop == old(self).frame_loop,
            final(self).framebuffers == old(self).framebuffers,
            final(self).framebuffer_imageviews == old(self).framebuffer_imageviews,
            final(self).depth_image == old(self).depth_image,
            final(self).depth_image_view == old(self).depth_image_view,
            final(self).render_state == old(self).render_state,
            final(self).render_state_local == old(self).render_state_local,
            final(self).input_state == old(self).input_state,
    {
        let found = self.find_bucket(name);
        match found {
            Some(i) => &mut self.buckets[i],
            None => unreached(),
        }
    }

    /// The event that the call asking for the next image stands for. Where
    /// it returned an image: the image index with the result code of
    /// success, or of a suboptimal swapchain where the call said so. Where it
    /// failed: the failure with its result code, which never counts as an
    /// image.
    pub fn acquire_next_image(result: Result<(u32, bool), i32>) -> (event: FrameEvent)
        ensures
            event == (match result {
                Ok((image_index, suboptimal)) => FrameEvent::Acquired {
                    code: acquire_code_of(suboptimal),
                    image_index,
                },
                Err(code) => FrameEvent::AcquireFailed { code },
            }),
    {
        match result {
            Ok((image_index, suboptimal)) => FrameEvent::Acquired {
                code: acquire_code(suboptimal),
                image_index,
            },
            Err(code) => FrameEvent::AcquireFailed { code },
        }
    }

    /// The one-time setup submission: wait for and reset the setup command
    /// buffer's fence, record the depth image's layout transition, submit
    /// without semaphores, and wait for the device to finish.
    pub fn setup_submit(&self) -> (actions: Vec<FrameAction>)
        ensures
            actions@ == setup_submit_of(self.frame_loop.command_buffer_setup),
    {
        let mut actions: Vec<FrameAction> = Vec::new();
        self.frame_loop.setup_submit(&mut actions);
        assert(actions@ =~= setup_submit_of(self.frame_loop.command_buffer_setup));
        actions
    }

    /// Waiting until the device has nothing left to do.
    pub fn idle(&self) -> (r: FrameAction)
        ensures
            r == FrameAction::WaitIdle,
    {
        FrameAction::WaitIdle
    }

    /// What the scene makes of an event: what its frame loop makes of it,
    /// but for the report of a replaced swapchain, which changes nothing. A
    /// swapchain comes in through `resize` alone.
    pub open spec fn step_of(&self, event: FrameEvent) -> (FrameLoop, Seq<FrameAction>) {
        if event is Resized {
            (self.frame_loop, Seq::empty())
        } else {
            self.frame_loop.next(event)
        }
    }

    /// Whether this event starts the recording of a frame.
    pub open spec fn starts_recording(&self, event: FrameEvent) -> bool {
        self.frame_loop.phase is Acquiring && self.step_of(event).0.phase is Recording
    }

    /// What a frame knows of itself after an event that came
    /// `elapsed_micros` after the last frame was started: a frame that
    /// starts recording takes the index of the acquired image and the time
    /// step, cut off at a second.
    pub open spec fn render_state_after(&self, event: FrameEvent, elapsed_micros: u128) -> RenderState {
        if self.starts_recording(event) {
            RenderState {
                frame: self.step_of(event).0.frame,
                delta_time: clamped_delta(elapsed_micros),
            }
        } else {
            self.render_state
        }
    }

    /// Whether the scene is `before` but for the frame loop, the render
    /// state and the clock.
    pub open spec fn same_resources(&self, before: Scene) -> bool {
        &&& self.program_data == before.program_data
        &&& self.buckets == before.buckets
        &&& self.framebuffers == before.framebuffers
        &&& self.framebuffer_imageviews == before.framebuffer_imageviews
        &&& self.depth_image == before.depth_image
        &&& self.depth_image_view == before.depth_image_view
        &&& self.input_state == before.input_state
    }

    /// Takes what the device or the window reported, `elapsed_micros` after
    /// the last frame was started, and says what to do next.
    pub fn render_at(&mut self, event: FrameEvent, elapsed_micros: u128) -> (actions: Vec<
        FrameAction,
    >)
        ensures
            (final(self).frame_loop, actions@) == old(self).step_of(event),
            final(self).render_state == old(self).render_state_after(event, elapsed_micros),
            final(self).same_resources(*old(self)),
            final(self).render_state_local == old(self).render_state_local,
            old(self).wf() ==> final(self).wf(),
    {
        match event {
            FrameEvent::Resized { .. } => {
                return Vec::new();
            },
            _ => {},
        }
        let waits_for_image = match self.frame_loop.phase {
            FramePhase::Acquiring => true,
            _ => false,
        };
        let actions = self.frame_loop.step(event);
        let records = match self.frame_loop.phase {
            FramePhase::Recording => true,
            _ => false,
        };
        if waits_for_image && records {
            self.render_state.begin_frame(self.frame_loop.frame, elapsed_micros);
        }
        actions
    }

    /// Takes what the device or the window reported and says what to do
    /// next. Where a frame starts recording, the time step is read off the
    /// scene's clock, which is restarted.
    pub fn render(&mut self, event: FrameEvent) -> (actions: Vec<FrameAction>)
        ensures
            (final(self).frame_loop, actions@) == old(self).step_of(event),
            exists|elapsed_micros: u128|
                final(self).render_state == old(self).render_state_after(event, elapsed_micros),
            final(self).same_resources(*old(self)),
            !old(self).starts_recording(event) ==> final(self).render_state_local
                == old(self).render_state_local,
            old(self).wf() ==> final(self).wf(),
    {
        let mut ahead = self.frame_loop;
        let _ = ahead.step(event);
        let waits_for_image = match self.frame_loop.phase {
            FramePhase::Acquiring => true,
            _ => false,
        };
        let records = match ahead.phase {
            FramePhase::Recording => true,
            _ => false,
        };
        let mut elapsed_micros: u128 = 0;
        if waits_for_image && records {
            elapsed_micros = self.render_state_local.restart();
        }
        let actions = self.render_at(event, elapsed_micros);
        assert(self.render_state == old(self).render_state_after(event, elapsed_micros));
        actions
    }

    /// Whether the frame that the loop stands in can be recorded: the loop
    /// is recording a frame that has a framebuffer, and every bucket can be
    /// recorded for that frame.
    pub open spec fn recordable(&self) -> bool {
        &&& self.frame_loop.phase is Recording
        &&& self.frame_loop.frame < self.frame_loop.frame_count
        &&& self.frame_loop.frame < self.framebuffers@.len()
        &&& forall|b: int|
            0 <= b < self.buckets@.len() ==> (#[trigger] self.buckets@[b]).renderable(
                self.frame_loop.frame,
            )
    }

    /// Tests whether the frame that the loop stands in can be recorded.
    pub fn can_record(&self) -> (r: bool)
        ensures
            r == self.recordable(),
    {
        let recording = match self.frame_loop.phase {
            FramePhase::Recording => true,
            _ => false,
        };
        if !recording || self.frame_loop.frame >= self.frame_loop.frame_count
            || self.frame_loop.frame >= self.framebuffers.len() {
            return false;
        }
        let mut b: usize = 0;
        while b < self.buckets.len()
            invariant
                b <= self.buckets@.len(),
                forall|j: int|
                    0 <= j < b ==> (#[trigger] self.buckets@[j]).renderable(self.frame_loop.frame),
            decreases self.buckets@.len() - b,
        {
            if !self.buckets[b].is_renderable(self.frame_loop.frame) {
                return false;
            }
            b += 1;
        }
        true
    }

    /// What to record for the frame that was acquired: for every bucket, in
    /// order, what to upload for its objects and the commands that draw
    /// them, on the framebuffer of the frame. The objects' states move on as
    /// their updates say.
    pub fn record(&mut self) -> (recording: FrameRecording)
        requires
            old(self).recordable(),
        ensures
            recording.frame == old(self).frame_loop.frame,
            recording.framebuffer == old(self).framebuffers@[old(self).frame_loop.frame as int],
            recording.render_pass == old(self).program_data.render_pass,
            recording.extent == old(self).program_data.extent,
            recording.updates@.len() == old(self).buckets@.len(),
            recording.draws@.len() == old(self).buckets@.len(),
            final(self).buckets@.len() == old(self).buckets@.len(),
            forall|b: int|
                0 <= b < old(self).buckets@.len() ==> {
                    &&& (#[trigger] final(self).buckets@[b]).is_update_of(
                        old(self).buckets@[b],
                        old(self).frame_loop.frame_count,
                    )
                    &&& recording.updates@[b]@.len() == old(self).buckets@[b].objects@.len()
                    &&& forall|i: int|
                        0 <= i < recording.updates@[b]@.len() ==> #[trigger] recording.updates@[b]@[i]
                            == old(self).buckets@[b].objects@[i].object.plan(
                            old(self).frame_loop.frame,
                        )
                    &&& recording.draws@[b].deep_view() == final(self).buckets@[b].frame_commands(
                        old(self).frame_loop.frame,
                    )
                },
            final(self).recordable(),
            final(self).program_data == old(self).program_data,
            final(self).frame_loop == old(self).frame_loop,
            final(self).framebuffers == old(self).framebuffers,
            final(self).framebuffer_imageviews == old(self).framebuffer_imageviews,
            final(self).depth_image == old(self).depth_image,
            final(self).depth_image_view == old(self).depth_image_view,
            final(self).render_state == old(self).render_state,
            final(self).render_state_local == old(self).render_state_local,
            final(self).input_state == old(self).input_state,
    {
        let frame = self.frame_loop.frame;
        let frame_count = self.frame_loop.frame_count;
        let mut updates: Vec<Vec<UpdatePlan>> = Vec::new();
        let mut draws: Vec<Vec<DrawCommand>> = Vec::new();
        let mut b: usize = 0;
        while b < self.buckets.len()
            invariant
                b <= self.buckets@.len(),
                frame == self.frame_loop.frame,
                frame_count == self.frame_loop.frame_count,
                frame < frame_count,
                updates@.len() == b,
                draws@.len() == b,
                self.buckets@.len() == old(self).buckets@.len(),
                self.program_data == old(self).program_data,
                self.frame_loop == old(self).frame_loop,
                self.framebuffers == old(self).framebuffers,
                self.framebuffer_imageviews == old(self).framebuffer_imageviews,
                self.depth_image == old(self).depth_image,
                self.depth_image_view == old(self).depth_image_view,
                self.render_state == old(self).render_state,
                self.render_state_local == old(self).render_state_local,
                self.input_state == old(self).input_state,
                forall|j: int|
                    0 <= j < self.buckets@.len() ==> (#[trigger] self.buckets@[j]).renderable(frame),
                forall|j: int|
                    b <= j < self.buckets@.len() ==> #[trigger] self.buckets@[j] == old(self).buckets@[j],
                forall|j: int|
                    0 <= j < b ==> {
                        &&& (#[trigger] self.buckets@[j]).is_update_of(
                            old(self).buckets@[j],
                            frame_count,
                        )
                        &&& updates@[j]@.len() == old(self).buckets@[j].objects@.len()
                        &&& forall|i: int|
                            0 <= i < updates@[j]@.len() ==> #[trigger] updates@[j]@[i]
                                == old(self).buckets@[j].objects@[i].object.plan(frame)
                        &&& draws@[j].deep_view() == self.buckets@[j].frame_commands(frame)
                    },
            decreases self.buckets@.len() - b,
        {
            let ghost before = self.buckets@[b as int];
            let plans = self.buckets[b].update_blocks(frame, frame_count);
            proof {
                self.buckets@[b as int].lemma_update_keeps_renderable(before, frame_count, frame);
            }
            let commands = self.buckets[b].render(frame);
            updates.push(plans);
            draws.push(commands);
            b += 1;
        }
        FrameRecording {
            frame,
            framebuffer: self.framebuffers[frame],
            render_pass: self.program_data.render_pass,
            extent: self.program_data.extent,
            updates,
            draws,
        }
    }

    /// Everything that ends a swapchain and what hangs on it, in the order
    /// in which it is released: the device comes to rest; the command
    /// buffers and their fences go, the descriptor pool, the block states'
    /// memory, the framebuffers, the pipelines, the render pass, the image
    /// views, the depth image after its view, and the swapchain last.
    pub open spec fn teardown_commands(&self) -> Seq<ResourceCommand> {
        seq![
            ResourceCommand::WaitIdle,
            ResourceCommand::FreeCommandBuffers {
                command_pool: self.program_data.command_pool,
                setup: self.frame_loop.command_buffer_setup.command_buffer,
                draw: self.frame_loop.command_buffer_draw.command_buffer,
            },
            ResourceCommand::DestroyFence { fence: self.frame_loop.command_buffer_setup.fence_submit },
            ResourceCommand::DestroyFence { fence: self.frame_loop.command_buffer_draw.fence_submit },
            ResourceCommand::DestroyDescriptorPool {
                descriptor_pool: self.program_data.descriptor_pool,
            },
        ] + free_copies(bucket_copies_upto(self.buckets@, self.buckets@.len() as int))
            + destroy_framebuffers(self.framebuffers@) + destroy_pipelines_upto(
            self.buckets@,
            self.buckets@.len() as int,
        ) + seq![ResourceCommand::DestroyRenderPass { render_pass: self.program_data.render_pass }]
            + destroy_image_views(self.framebuffer_imageviews@) + seq![
            ResourceCommand::DestroyImageView { image_view: self.depth_image_view },
            ResourceCommand::DestroyImage { image: self.depth_image },
            ResourceCommand::DestroySwapchain { swapchain: self.program_data.swapchain },
        ]
    }

    /// Whether the scene holds nothing that hangs on a swapchain.
    pub open spec fn holds_nothing(&self) -> bool {
        &&& self.program_data.swapchain == 0
        &&& self.program_data.render_pass == 0
        &&& self.program_data.descriptor_pool == 0
        &&& self.frame_loop.command_buffer_draw == freed(self.frame_loop.command_buffer_draw)
        &&& self.frame_loop.command_buffer_setup == freed(self.frame_loop.command_buffer_setup)
        &&& self.frame_loop.frame_count == 0
        &&& self.framebuffers@.len() == 0
        &&& self.framebuffer_imageviews@.len() == 0
        &&& self.depth_image == 0
        &&& self.depth_image_view == 0
        &&& forall|b: int| 0 <= b < self.buckets@.len() ==> (#[trigger] self.buckets@[b]).holds_nothing()
    }

    /// Whether the scene is `before` after its swapchain's end: the loop is
    /// resizing, and the buckets keep their contents.
    pub open spec fn is_teardown_of(&self, before: Scene) -> bool {
        &&& self.holds_nothing()
        &&& self.program_data.extent == before.program_data.extent
        &&& self.program_data.command_pool == before.program_data.command_pool
        &&& self.frame_loop == (FrameLoop {
            phase: FramePhase::Resizing,
            frame_count: 0,
            frame: 0,
            command_buffer_draw: freed(before.frame_loop.command_buffer_draw),
            command_buffer_setup: freed(before.frame_loop.command_buffer_setup),
            ..before.frame_loop
        })
        &&& self.render_state == before.render_state
        &&& self.render_state_local == before.render_state_local
        &&& self.input_state == before.input_state
        &&& self.buckets@.len() == before.buckets@.len()
        &&& forall|b: int|
            0 <= b < self.buckets@.len() ==> (#[trigger] self.buckets@[b]).keeps_contents_of(
                before.buckets@[b],
            )
    }

    /// Ends the swapchain and what hangs on it: returns the commands that
    /// release everything the scene holds, in order, and holds none of it
    /// afterwards. The loop is resizing from then on.
    pub fn destroy_swapchain(&mut self) -> (commands: Vec<ResourceCommand>)
        ensures
            commands@ == old(self).teardown_commands(),
            final(self).is_teardown_of(*old(self)),
    {
        let mut commands: Vec<ResourceCommand> = Vec::new();
        commands.push(ResourceCommand::WaitIdle);
        commands.push(
            ResourceCommand::FreeCommandBuffers {
                command_pool: self.program_data.command_pool,
                setup: self.frame_loop.command_buffer_setup.command_buffer,
                draw: self.frame_loop.command_buffer_draw.command_buffer,
            },
        );
        commands.push(
            ResourceCommand::DestroyFence { fence: self.frame_loop.command_buffer_setup.fence_submit },
        );
        commands.push(
            ResourceCommand::DestroyFence { fence: self.frame_loop.command_buffer_draw.fence_submit },
        );
        commands.push(
            ResourceCommand::DestroyDescriptorPool {
                descriptor_pool: self.program_data.descriptor_pool,
            },
        );
        let ghost head = commands@;
        let mut pipelines: Vec<ResourceCommand> = Vec::new();
        let mut b: usize = 0;
        while b < self.buckets.len()
            invariant
                b <= self.buckets@.len(),
                self.buckets@.len() == old(self).buckets@.len(),
                self.program_data == old(self).program_data,
                self.frame_loop == old(self).frame_loop,
                self.framebuffers == old(self).framebuffers,
                self.framebuffer_imageviews == old(self).framebuffer_imageviews,
                self.depth_image == old(self).depth_image,
                self.depth_image_view == old(self).depth_image_view,
                self.render_state == old(self).render_state,
                self.render_state_local == old(self).render_state_local,
                self.input_state == old(self).input_state,
                commands@ == head + free_copies(bucket_copies_upto(old(self).buckets@, b as int)),
                pipelines@ == destroy_pipelines_upto(old(self).buckets@, b as int),
                forall|j: int|
                    b <= j < self.buckets@.len() ==> #[trigger] self.buckets@[j] == old(self).buckets@[j],
                forall|j: int|
                    0 <= j < b ==> (#[trigger] self.buckets@[j]).holds_nothing()
                        && self.buckets@[j].keeps_contents_of(old(self).buckets@[j]),
            decreases self.buckets@.len() - b,
        {
            let released = self.buckets[b].destroy_block_state_memory();
            let ghost emptied = self.buckets@[b as int];
            push_free_copies(&mut commands, &released);
            let handles = self.buckets[b].destroy_pipeline();
            pipelines.push(ResourceCommand::DestroyPipeline { pipeline: handles.0 });
            pipelines.push(ResourceCommand::DestroyPipelineLayout { pipeline_layout: handles.1 });
            proof {
                lemma_free_copies_concat(
                    bucket_copies_upto(old(self).buckets@, b as int),
                    old(self).buckets@[b as int].all_copies(),
                );
                assert(commands@ =~= head + free_copies(
                    bucket_copies_upto(old(self).buckets@, b + 1),
                ));
                assert(pipelines@ =~= destroy_pipelines_upto(old(self).buckets@, b + 1));
                let now = self.buckets@[b as int];
                assert(now.objects == emptied.objects);
                assert(now.pipeline_info.block_states == emptied.pipeline_info.block_states);
                assert(now.keeps_contents_of(old(self).buckets@[b as int]));
                assert(now.holds_nothing());
            }
            b += 1;
        }
        let ghost freed_copies = commands@;
        let mut i: usize = 0;
        while i < self.framebuffers.len()
            invariant
                i <= self.framebuffers@.len(),
                commands@ == freed_copies + destroy_framebuffers(self.framebuffers@).take(i as int),
            decreases self.framebuffers@.len() - i,
        {
            commands.push(ResourceCommand::DestroyFramebuffer { framebuffer: self.framebuffers[i] });
            assert(commands@ =~= freed_copies + destroy_framebuffers(self.framebuffers@).take(
                i + 1,
            ));
            i += 1;
        }
        assert(destroy_framebuffers(self.framebuffers@).take(i as int) =~= destroy_framebuffers(
            self.framebuffers@,
        ));
        commands.append(&mut pipelines);
        commands.push(
            ResourceCommand::DestroyRenderPass { render_pass: self.program_data.render_pass },
        );
        let ghost before_views = commands@;
        let mut v: usize = 0;
        while v < self.framebuffer_imageviews.len()
            invariant
                v <= self.framebuffer_imageviews@.len(),
                commands@ == before_views + destroy_image_views(self.framebuffer_imageviews@).take(
                    v as int,
                ),
            decreases self.framebuffer_imageviews@.len() - v,
        {
            commands.push(
                ResourceCommand::DestroyImageView { image_view: self.framebuffer_imageviews[v] },
            );
            assert(commands@ =~= before_views + destroy_image_views(
                self.framebuffer_imageviews@,
            ).take(v + 1));
            v += 1;
        }
        assert(destroy_image_views(self.framebuffer_imageviews@).take(v as int)
            =~= destroy_image_views(self.framebuffer_imageviews@));
        commands.push(ResourceCommand::DestroyImageView { image_view: self.depth_image_view });
        commands.push(ResourceCommand::DestroyImage { image: self.depth_image });
        commands.push(ResourceCommand::DestroySwapchain { swapchain: self.program_data.swapchain });
        assert(commands@ =~= old(self).teardown_commands());
        self.framebuffers.clear();
        self.framebuffer_imageviews.clear();
        self.depth_image = 0;
        self.depth_image_view = 0;
        self.program_data.swapchain = 0;
        self.program_data.render_pass = 0;
        self.program_data.descriptor_pool = 0;
        self.frame_loop.phase = FramePhase::Resizing;
        self.frame_loop.frame_count = 0;
        self.frame_loop.frame = 0;
        self.frame_loop.command_buffer_draw.command_buffer = 0;
        self.frame_loop.command_buffer_draw.fence_submit = 0;
        self.frame_loop.command_buffer_setup.command_buffer = 0;
        self.frame_loop.command_buffer_setup.fence_submit = 0;
        commands
    }

    /// Why the scene refuses these resources, or `None` where it takes them.
    pub open spec fn resize_error(&self, resources: SwapchainResources) -> Option<ResizeError> {
        if !(self.frame_loop.phase is Resizing) {
            Some(ResizeError::NotResizing)
        } else if !self.holds_nothing() {
            Some(ResizeError::NotTornDown)
        } else if resources.extent.width == 0 || resources.extent.height == 0 {
            Some(ResizeError::ZeroExtent)
        } else if resources.image_views@.len() == 0 {
            Some(ResizeError::NoImages)
        } else if resources.framebuffers@.len() != resources.image_views@.len() {
            Some(ResizeError::FramebufferCount)
        } else if resources.pipelines@.len() != self.buckets@.len() || resources.block_copies@.len()
            != self.buckets@.len() {
            Some(ResizeError::BucketCount)
        } else if exists|b: int|
            0 <= b < self.buckets@.len() && !(#[trigger] self.buckets@[b]).supply_fits(
                resources.block_copies@[b]@,
                resources.image_views@.len() as usize,
            ) {
            Some(ResizeError::BlockCopies)
        } else {
            None
        }
    }

    /// Tests whether the scene holds nothing that hangs on a swapchain.
    pub fn is_torn_down(&self) -> (r: bool)
        ensures
            r == self.holds_nothing(),
    {
        if self.program_data.swapchain != 0 || self.program_data.render_pass != 0
            || self.program_data.descriptor_pool != 0
            || self.frame_loop.command_buffer_draw.command_buffer != 0
            || self.frame_loop.command_buffer_draw.fence_submit != 0
            || self.frame_loop.command_buffer_setup.command_buffer != 0
            || self.frame_loop.command_buffer_setup.fence_submit != 0 || self.frame_loop.frame_count
            != 0 || self.framebuffers.len() != 0 || self.framebuffer_imageviews.len() != 0
            || self.depth_image != 0 || self.depth_image_view != 0 {
            return false;
        }
        let mut b: usize = 0;
        while b < self.buckets.len()
            invariant
                b <= self.buckets@.len(),
                forall|j: int| 0 <= j < b ==> (#[trigger] self.buckets@[j]).holds_nothing(),
            decreases self.buckets@.len() - b,
        {
            if !self.buckets[b].is_torn_down() {
                return false;
            }
            b += 1;
        }
        true
    }

    /// Tests the resources against the scene.
    pub fn check_resize(&self, resources: &SwapchainResources) -> (r: Option<ResizeError>)
        ensures
            r == self.resize_error(*resources),
    {
        let resizing = match self.frame_loop.phase {
            FramePhase::Resizing => true,
            _ => false,
        };
        if !resizing {
            return Some(ResizeError::NotResizing);
        }
        if !self.is_torn_down() {
            return Some(ResizeError::NotTornDown);
        }
        if resources.extent.width == 0 || resources.extent.height == 0 {
            return Some(ResizeError::ZeroExtent);
        }
        let frame_count: usize = resources.image_views.len();
        if frame_count == 0 {
            return Some(ResizeError::NoImages);
        }
        if resources.framebuffers.len() != frame_count {
            return Some(ResizeError::FramebufferCount);
        }
        if resources.pipelines.len() != self.buckets.len() || resources.block_copies.len()
            != self.buckets.len() {
            return Some(ResizeError::BucketCount);
        }
        let mut b: usize = 0;
        while b < self.buckets.len()
            invariant
                b <= self.buckets@.len(),
                self.frame_loop.phase is Resizing,
                self.holds_nothing(),
                resources.extent.width != 0 && resources.extent.height != 0,
                frame_count == resources.image_views@.len() == resources.framebuffers@.len(),
                frame_count != 0,
                resources.pipelines@.len() == self.buckets@.len(),
                resources.block_copies@.len() == self.buckets@.len(),
                forall|j: int|
                    0 <= j < b ==> (#[trigger] self.buckets@[j]).supply_fits(
                        resources.block_copies@[j]@,
                        frame_count,
                    ),
            decreases self.buckets@.len() - b,
        {
            if !self.buckets[b].takes_supply(&resources.block_copies[b], frame_count) {
                assert(!self.buckets@[b as int].supply_fits(
                    resources.block_copies@[b as int]@,
                    resources.image_views@.len() as usize,
                ));
                return Some(ResizeError::BlockCopies);
            }
            b += 1;
        }
        None
    }

    /// Whether the scene is `before` with the resources of a new swapchain
    /// taken in: it holds exactly them, has one frame in flight per image,
    /// stands between two frames, and its buckets keep their contents.
    pub open spec fn is_resize_of(&self, before: Scene, resources: SwapchainResources) -> bool {
        &&& self.program_data == (ProgramData {
            extent: resources.extent,
            swapchain: resources.swapchain,
            render_pass: resources.render_pass,
            descriptor_pool: resources.descriptor_pool,
            command_pool: before.program_data.command_pool,
        })
        &&& self.frame_loop == (FrameLoop {
            phase: FramePhase::Idle,
            frame_count: resources.image_views@.len() as usize,
            frame: 0,
            command_buffer_draw: resources.command_buffer_draw,
            command_buffer_setup: resources.command_buffer_setup,
            ..before.frame_loop
        })
        &&& self.framebuffers == resources.framebuffers
        &&& self.framebuffer_imageviews == resources.image_views
        &&& self.depth_image == resources.depth_image
        &&& self.depth_image_view == resources.depth_image_view
        &&& self.render_state == before.render_state
        &&& self.render_state_local == before.render_state_local
        &&& self.input_state == before.input_state
        &&& self.buckets@.len() == before.buckets@.len()
        &&& forall|b: int|
            0 <= b < self.buckets@.len() ==> {
                &&& (#[trigger] self.buckets@[b]).keeps_contents_of(before.buckets@[b])
                &&& self.buckets@[b].holds_supply_of(
                    before.buckets@[b],
                    resources.block_copies@[b]@,
                )
                &&& self.buckets@[b].pipeline_info.pipeline == resources.pipelines@[b].0
                &&& self.buckets@[b].pipeline_info.pipeline_layout == resources.pipelines@[b].1
                &&& self.buckets@[b].pipeline_info.viewport == full_viewport(resources.extent)
                &&& self.buckets@[b].pipeline_info.scissor == full_scissor(resources.extent)
            }
    }

    /// Takes in what was created for a new swapchain and goes back to
    /// standing between two frames. Returns the one-time setup submission to
    /// perform. Resources that do not fit are refused, and nothing changes.
    ///
    /// Afterwards there is one framebuffer and one frame in flight per
    /// swapchain image, and every well formed bucket can be recorded for
    /// every frame.
    pub fn resize(&mut self, resources: SwapchainResources) -> (r: Result<
        Vec<FrameAction>,
        ResizeError,
    >)
        ensures
            match r {
                Ok(actions) => {
                    &&& old(self).resize_error(resources) is None
                    &&& final(self).is_resize_of(*old(self), resources)
                    &&& final(self).wf()
                    &&& final(self).framebuffers@.len() == resources.image_views@.len()
                    &&& (final(self).frame_loop, actions@) == old(self).frame_loop.next(
                        FrameEvent::Resized {
                            frame_count: resources.image_views@.len() as usize,
                            command_buffer_draw: resources.command_buffer_draw,
                            command_buffer_setup: resources.command_buffer_setup,
                        },
                    )
                    &&& forall|b: int, frame: usize|
                        0 <= b < final(self).buckets@.len() && frame
                            < final(self).frame_loop.frame_count && old(self).buckets@[b].wf()
                            ==> #[trigger] final(self).buckets@[b].renderable(frame)
                },
                Err(error) => {
                    &&& old(self).resize_error(resources) == Some(error)
                    &&& *final(self) == *old(self)
                },
            },
    {
        match self.check_resize(&resources) {
            Some(error) => {
                return Err(error);
            },
            None => {},
        }
        let extent = resources.extent;
        let frame_count: usize = resources.image_views.len();
        let mut b: usize = 0;
        while b < self.buckets.len()
            invariant
                b <= self.buckets@.len(),
                self.buckets@.len() == old(self).buckets@.len(),
                extent == resources.extent,
                frame_count == resources.image_views@.len(),
                resources.pipelines@.len() == self.buckets@.len(),
                resources.block_copies@.len() == self.buckets@.len(),
                self.program_data == old(self).program_data,
                self.frame_loop == old(self).frame_loop,
                self.framebuffers == old(self).framebuffers,
                self.framebuffer_imageviews == old(self).framebuffer_imageviews,
                self.depth_image == old(self).depth_image,
                self.depth_image_view == old(self).depth_image_view,
                self.render_state == old(self).render_state,
                self.render_state_local == old(self).render_state_local,
                self.input_state == old(self).input_state,
                forall|j: int|
                    0 <= j < old(self).buckets@.len() ==> (
                    #[trigger] old(self).buckets@[j]).supply_fits(
                        resources.block_copies@[j]@,
                        frame_count,
                    ),
                forall|j: int|
                    b <= j < self.buckets@.len() ==> #[trigger] self.buckets@[j] == old(self).buckets@[j],
                forall|j: int|
                    0 <= j < b ==> {
                        &&& (#[trigger] self.buckets@[j]).keeps_contents_of(old(self).buckets@[j])
                        &&& self.buckets@[j].holds_supply_of(
                            old(self).buckets@[j],
                            resources.block_copies@[j]@,
                        )
                        &&& self.buckets@[j].pipeline_info.pipeline == resources.pipelines@[j].0
                        &&& self.buckets@[j].pipeline_info.pipeline_layout
                            == resources.pipelines@[j].1
                        &&& self.buckets@[j].pipeline_info.viewport == full_viewport(extent)
                        &&& self.buckets@[j].pipeline_info.scissor == full_scissor(extent)
                    },
            decreases self.buckets@.len() - b,
        {
            let handles = resources.pipelines[b];
            assert(old(self).buckets@[b as int].supply_fits(
                resources.block_copies@[b as int]@,
                frame_count,
            ));
            let _ = self.buckets[b].recreate_block_state_memory(&resources.block_copies[b]);
            let ghost supplied = self.buckets@[b as int];
            self.buckets[b].recreate_pipeline(handles.0, handles.1, extent);
            proof {
                let now = self.buckets@[b as int];
                assert(now.objects == supplied.objects);
                assert(now.pipeline_info.block_states == supplied.pipeline_info.block_states);
                assert(now.keeps_contents_of(old(self).buckets@[b as int]));
                assert(now.holds_supply_of(
                    old(self).buckets@[b as int],
                    resources.block_copies@[b as int]@,
                ));
            }
            b += 1;
        }
        let mut actions = self.frame_loop.step(
            FrameEvent::Resized {
                frame_count,
                command_buffer_draw: resources.command_buffer_draw,
                command_buffer_setup: resources.command_buffer_setup,
            },
        );
        self.program_data.extent = extent;
        self.program_data.swapchain = resources.swapchain;
        self.program_data.render_pass = resources.render_pass;
        self.program_data.descriptor_pool = resources.descriptor_pool;
        self.depth_image = resources.depth_image;
        self.depth_image_view = resources.depth_image_view;
        self.framebuffers = resources.framebuffers;
        self.framebuffer_imageviews = resources.image_views;
        proof {
            assert forall|j: int, frame: usize|
                0 <= j < self.buckets@.len() && frame < self.frame_loop.frame_count
                    && old(self).buckets@[j].wf() implies #[trigger] self.buckets@[j].renderable(
                    frame,
                ) by {
                self.buckets@[j].lemma_supplied_is_renderable(
                    old(self).buckets@[j],
                    resources.block_copies@[j]@,
                    frame_count,
                    frame,
                );
            }
        }
        Ok(actions)
    }

    /// After a resize, the first `n` buckets hold the copies of their
    /// supplies and the pipelines that were created for them.
    proof fn lemma_buckets_hold_what_resize_took(
        &self,
        before: Scene,
        resources: SwapchainResources,
        n: int,
    )
        requires
            before.resize_error(resources) is None,
            self.is_resize_of(before, resources),
            0 <= n <= self.buckets@.len(),
        ensures
            bucket_copies_upto(self.buckets@, n) == supplies_upto(resources.block_copies@, n),
            destroy_pipelines_upto(self.buckets@, n) == destroy_created_pipelines_upto(
                resources.pipelines@,
                n,
            ),
        decreases n,
    {
        if n > 0 {
            self.lemma_buckets_hold_what_resize_took(before, resources, n - 1);
            let b = n - 1;
            assert(self.buckets@[b].keeps_contents_of(before.buckets@[b]));
            assert(before.buckets@[b].supply_fits(
                resources.block_copies@[b]@,
                resources.image_views@.len() as usize,
            ));
            self.buckets@[b].lemma_holds_the_supply(
                before.buckets@[b],
                resources.block_copies@[b]@,
            );
        }
    }

    /// What a teardown releases after a resize is exactly what the resize
    /// took in: nothing more, nothing less, each thing once.
    pub proof fn lemma_teardown_releases_what_resize_took(
        &self,
        before: Scene,
        resources: SwapchainResources,
    )
        requires
            before.resize_error(resources) is None,
            self.is_resize_of(before, resources),
        ensures
            self.teardown_commands() == release_of(resources, before.program_data.command_pool),
    {
        self.lemma_buckets_hold_what_resize_took(before, resources, self.buckets@.len() as int);
    }

    /// A scene that holds nothing has no block state memory, framebuffer or
    /// image view left to release.
    pub proof fn lemma_nothing_held_nothing_released(&self)
        requires
            self.holds_nothing(),
        ensures
            bucket_copies_upto(self.buckets@, self.buckets@.len() as int) == Seq::<
                FrameCopy,
            >::empty(),
            destroy_framebuffers(self.framebuffers@) == Seq::<ResourceCommand>::empty(),
            destroy_image_views(self.framebuffer_imageviews@) == Seq::<ResourceCommand>::empty(),
    {
        self.lemma_buckets_hold_nothing(self.buckets@.len() as int);
        assert(destroy_framebuffers(self.framebuffers@) =~= Seq::<ResourceCommand>::empty());
        assert(destroy_image_views(self.framebuffer_imageviews@) =~= Seq::<
            ResourceCommand,
        >::empty());
    }

    proof fn lemma_buckets_hold_nothing(&self, n: int)
        requires
            self.holds_nothing(),
            0 <= n <= self.buckets@.len(),
        ensures
            bucket_copies_upto(self.buckets@, n) == Seq::<FrameCopy>::empty(),
        decreases n,
    {
        if n > 0 {
            self.lemma_buckets_hold_nothing(n - 1);
            assert(self.buckets@[n - 1].holds_nothing());
            self.buckets@[n - 1].lemma_without_memory_holds_nothing();
        }
    }
}

} // verus!
