//! The frame loop as a state machine: what to ask of the device next, given
//! what the device answered last.

use crate::vulkan::{classify_result, outcome_of, CallOutcome};
use vstd::prelude::*;

verus! {

/// Where the frame loop stands.
#[derive(Copy, Clone, Debug, PartialEq, Eq, Structural)]
pub enum FramePhase {
    /// Between two frames.
    Idle,
    /// The next swapchain image was asked for.
    Acquiring,
    /// The draw command buffer is being recorded.
    Recording,
    /// The draw command buffer was handed to the queue.
    Submitted,
    /// The image was handed to the presentation engine.
    Presenting,
    /// The swapchain and what hangs on it are being replaced.
    Resizing,
}

/// A command buffer with the fence that guards its submission.
#[derive(Copy, Clone, Debug, PartialEq, Eq, Structural)]
pub struct CommandBuffer {
    pub command_buffer: u64,
    /// Signalled when a submission of the buffer has finished.
    pub fence_submit: u64,
    /// The queue that the buffer is submitted to.
    pub present_queue: u64,
}

/// What the device, or the window, reported.
#[derive(Copy, Clone, Debug, PartialEq, Eq, Structural)]
pub enum FrameEvent {
    /// The event loop asks for a frame.
    Render,
    /// The window changed its size or asks to be drawn anew.
    ResizeRequested,
    /// The call that asks for the next image returned an image, with this
    /// result code and this image index.
    Acquired { code: i32, image_index: u32 },
    /// The call that asks for the next image failed with this result code.
    AcquireFailed { code: i32 },
    /// The draw command buffer is recorded and closed.
    Recorded,
    /// The submission of the draw command buffer returned this result code.
    Submitted { code: i32 },
    /// The presentation returned this result code.
    Presented { code: i32 },
    /// The swapchain and what hangs on it were replaced: there are
    /// `frame_count` images now, and new command buffers.
    Resized { frame_count: usize, command_buffer_draw: CommandBuffer, command_buffer_setup: CommandBuffer },
}

/// What the program has to do next.
#[derive(Copy, Clone, Debug, PartialEq, Eq)]
pub enum FrameAction {
    /// Block until the fence is signalled.
    WaitFence { fence: u64 },
    /// Put the fence back to unsignalled.
    ResetFence { fence: u64 },
    /// Ask for the next swapchain image; the semaphore is signalled when it
    /// can be drawn to.
    AcquireImage { semaphore: u64 },
    /// Record the draw command buffer for this frame in flight.
    Record { frame: usize },
    /// Record the setup command buffer: the depth image's layout transition.
    RecordSetup { command_buffer: u64 },
    /// Hand a command buffer to its queue.
    Submit {
        command_buffer: u64,
        queue: u64,
        wait_semaphore: Option<u64>,
        signal_semaphore: Option<u64>,
        fence: u64,
    },
    /// Hand the image to the presentation engine, once the semaphore is
    /// signalled.
    Present { queue: u64, semaphore: u64, image_index: u32 },
    /// Block until the device has nothing left to do.
    WaitIdle,
    /// Replace the swapchain and what hangs on it.
    Resize,
    /// Give up: the device failed in a way that cannot be recovered from.
    Abort,
}

/// The frame loop: its phase and the handles it synchronises with.
#[derive(Copy, Clone, Debug, PartialEq, Eq, Structural)]
pub struct FrameLoop {
    pub phase: FramePhase,
    /// The number of frames in flight: one per swapchain image.
    pub frame_count: usize,
    /// The frame in flight that is recorded, submitted or presented.
    pub frame: usize,
    /// Signalled when the acquired image can be drawn to.
    pub semaphore_present: u64,
    /// Signalled when the frame is drawn and can be presented.
    pub semaphore_render: u64,
    pub command_buffer_draw: CommandBuffer,
    pub command_buffer_setup: CommandBuffer,
}

/// Waiting for a command buffer's last submission, then making its fence
/// ready for the next.
pub open spec fn sync_fences_of(buffer: CommandBuffer) -> Seq<FrameAction> {
    seq![
        FrameAction::WaitFence { fence: buffer.fence_submit },
        FrameAction::ResetFence { fence: buffer.fence_submit },
    ]
}

/// The one-time setup submission: wait for and reset the setup buffer's
/// fence, record the buffer, submit it without semaphores, and wait for the
/// device to finish.
pub open spec fn setup_submit_of(buffer: CommandBuffer) -> Seq<FrameAction> {
    sync_fences_of(buffer) + seq![
        FrameAction::RecordSetup { command_buffer: buffer.command_buffer },
        FrameAction::Submit {
            command_buffer: buffer.command_buffer,
            queue: buffer.present_queue,
            wait_semaphore: None,
            signal_semaphore: None,
            fence: buffer.fence_submit,
        },
        FrameAction::WaitIdle,
    ]
}

impl FrameLoop {
    /// The submission of the draw command buffer: it waits for the image,
    /// signals that the frame is drawn, and is guarded by the buffer's fence.
    pub open spec fn draw_submit(self) -> FrameAction {
        FrameAction::Submit {
            command_buffer: self.command_buffer_draw.command_buffer,
            queue: self.command_buffer_draw.present_queue,
            wait_semaphore: Some(self.semaphore_present),
            signal_semaphore: Some(self.semaphore_render),
            fence: self.command_buffer_draw.fence_submit,
        }
    }

    /// The presentation of the frame: it waits until the frame is drawn.
    pub open spec fn draw_present(self) -> FrameAction {
        FrameAction::Present {
            queue: self.command_buffer_draw.present_queue,
            semaphore: self.semaphore_render,
            image_index: self.frame as u32,
        }
    }

    /// The state after an event, and what the program has to do next.
    ///
    /// A frame goes from idle through acquiring, recording, submitted and
    /// presenting back to idle. A stale swapchain, reported by any of the
    /// three calls, leads to resizing instead; any other failure to giving
    /// up. A failed call never starts a recording, whatever its result code
    /// says. An event that the phase does not wait for changes nothing.
    pub open spec fn next(self, event: FrameEvent) -> (FrameLoop, Seq<FrameAction>) {
        match (self.phase, event) {
            (FramePhase::Idle, FrameEvent::Render) => (
                FrameLoop { phase: FramePhase::Acquiring, ..self },
                sync_fences_of(self.command_buffer_draw) + seq![
                    FrameAction::AcquireImage { semaphore: self.semaphore_present },
                ],
            ),
            (FramePhase::Idle, FrameEvent::ResizeRequested) => (
                FrameLoop { phase: FramePhase::Resizing, ..self },
                seq![FrameAction::Resize],
            ),
            (FramePhase::Acquiring, FrameEvent::Acquired { code, image_index }) => match outcome_of(
                code,
            ) {
                CallOutcome::Success => if (image_index as int) < self.frame_count {
                    (
                        FrameLoop {
                            phase: FramePhase::Recording,
                            frame: image_index as usize,
                            ..self
                        },
                        seq![FrameAction::Record { frame: image_index as usize }],
                    )
                } else {
                    (self, seq![FrameAction::Abort])
                },
                CallOutcome::Stale => (
                    FrameLoop { phase: FramePhase::Resizing, ..self },
                    seq![FrameAction::Resize],
                ),
                CallOutcome::Fatal => (self, seq![FrameAction::Abort]),
            },
            (FramePhase::Acquiring, FrameEvent::AcquireFailed { code }) => match outcome_of(code) {
                CallOutcome::Stale => (
                    FrameLoop { phase: FramePhase::Resizing, ..self },
                    seq![FrameAction::Resize],
                ),
                _ => (self, seq![FrameAction::Abort]),
            },
            (FramePhase::Recording, FrameEvent::Recorded) => (
                FrameLoop { phase: FramePhase::Submitted, ..self },
                seq![self.draw_submit()],
            ),
            (FramePhase::Submitted, FrameEvent::Submitted { code }) => match outcome_of(code) {
                CallOutcome::Success => (
                    FrameLoop { phase: FramePhase::Presenting, ..self },
                    seq![self.draw_present()],
                ),
                CallOutcome::Stale => (
                    FrameLoop { phase: FramePhase::Resizing, ..self },
                    seq![FrameAction::Resize],
                ),
                CallOutcome::Fatal => (self, seq![FrameAction::Abort]),
            },
            (FramePhase::Presenting, FrameEvent::Presented { code }) => match outcome_of(code) {
                CallOutcome::Success => (FrameLoop { phase: FramePhase::Idle, ..self }, seq![]),
                CallOutcome::Stale => (
                    FrameLoop { phase: FramePhase::Resizing, ..self },
                    seq![FrameAction::Resize],
                ),
                CallOutcome::Fatal => (self, seq![FrameAction::Abort]),
            },
            (
                FramePhase::Resizing,
                FrameEvent::Resized { frame_count, command_buffer_draw, command_buffer_setup },
            ) => if frame_count >= 1 {
                (
                    FrameLoop {
                        phase: FramePhase::Idle,
                        frame_count,
                        frame: 0,
                        command_buffer_draw,
                        command_buffer_setup,
                        ..self
                    },
                    setup_submit_of(command_buffer_setup),
                )
            } else {
                (self, seq![])
            },
            _ => (self, seq![]),
        }
    }

    /// A frame loop that stands between two frames.
    pub fn new(
        frame_count: usize,
        semaphore_present: u64,
        semaphore_render: u64,
        command_buffer_draw: CommandBuffer,
        command_buffer_setup: CommandBuffer,
    ) -> (r: Self)
        ensures
            r == (FrameLoop {
                phase: FramePhase::Idle,
                frame_count,
                frame: 0,
                semaphore_present,
                semaphore_render,
                command_buffer_draw,
                command_buffer_setup,
            }),
    {
        FrameLoop {
            phase: FramePhase::Idle,
            frame_count,
            frame: 0,
            semaphore_present,
            semaphore_render,
            command_buffer_draw,
            command_buffer_setup,
        }
    }

    /// Appends the wait for a command buffer's fence and the reset of it.
    pub fn sync_fences(actions: &mut Vec<FrameAction>, command_buffer: &CommandBuffer)
        ensures
            final(actions)@ == old(actions)@ + sync_fences_of(*command_buffer),
    {
        actions.push(FrameAction::WaitFence { fence: command_buffer.fence_submit });
        actions.push(FrameAction::ResetFence { fence: command_buffer.fence_submit });
        assert(actions@ =~= old(actions)@ + sync_fences_of(*command_buffer));
    }

    /// The submission of a command buffer, with the frame's two semaphores
    /// or with none.
    pub fn submit(&self, command_buffer: &CommandBuffer, use_semaphores: bool) -> (r: FrameAction)
        ensures
            r == (FrameAction::Submit {
                command_buffer: command_buffer.command_buffer,
                queue: command_buffer.present_queue,
                wait_semaphore: if use_semaphores {
                    Some(self.semaphore_present)
                } else {
                    None
                },
                signal_semaphore: if use_semaphores {
                    Some(self.semaphore_render)
                } else {
                    None
                },
                fence: command_buffer.fence_submit,
            }),
    {
        if use_semaphores {
            FrameAction::Submit {
                command_buffer: command_buffer.command_buffer,
                queue: command_buffer.present_queue,
                wait_semaphore: Some(self.semaphore_present),
                signal_semaphore: Some(self.semaphore_render),
                fence: command_buffer.fence_submit,
            }
        } else {
            FrameAction::Submit {
                command_buffer: command_buffer.command_buffer,
                queue: command_buffer.present_queue,
                wait_semaphore: None,
                signal_semaphore: None,
                fence: command_buffer.fence_submit,
            }
        }
    }

    /// The presentation of the frame that was submitted.
    pub fn present(&self) -> (r: FrameAction)
        ensures
            r == self.draw_present(),
    {
        FrameAction::Present {
            queue: self.command_buffer_draw.present_queue,
            semaphore: self.semaphore_render,
            image_index: #[verifier::truncate]
            (self.frame as u32),
        }
    }

    /// Appends the one-time setup submission of the setup command buffer.
    pub fn setup_submit(&self, actions: &mut Vec<FrameAction>)
        ensures
            final(actions)@ == old(actions)@ + setup_submit_of(self.command_buffer_setup),
    {
        Self::sync_fences(actions, &self.command_buffer_setup);
        actions.push(
            FrameAction::RecordSetup { command_buffer: self.command_buffer_setup.command_buffer },
        );
        actions.push(self.submit(&self.command_buffer_setup, false));
        actions.push(FrameAction::WaitIdle);
        assert(actions@ =~= old(actions)@ + setup_submit_of(self.command_buffer_setup));
    }

    /// Takes an event and says what the program has to do next.
    pub fn step(&mut self, event: FrameEvent) -> (actions: Vec<FrameAction>)
        ensures
            (*final(self), actions@) == old(self).next(event),
    {
        let mut actions: Vec<FrameAction> = Vec::new();
        match (self.phase, event) {
            (FramePhase::Idle, FrameEvent::Render) => {
                Self::sync_fences(&mut actions, &self.command_buffer_draw);
                actions.push(FrameAction::AcquireImage { semaphore: self.semaphore_present });
                self.phase = FramePhase::Acquiring;
            },
            (FramePhase::Idle, FrameEvent::ResizeRequested) => {
                actions.push(FrameAction::Resize);
                self.phase = FramePhase::Resizing;
            },
            (FramePhase::Acquiring, FrameEvent::Acquired { code, image_index }) => {
                match classify_result(code) {
                    CallOutcome::Success => {
                        if (image_index as usize) < self.frame_count {
                            self.frame = image_index as usize;
                            self.phase = FramePhase::Recording;
                            actions.push(FrameAction::Record { frame: image_index as usize });
                        } else {
                            actions.push(FrameAction::Abort);
                        }
                    },
                    CallOutcome::Stale => {
                        actions.push(FrameAction::Resize);
                        self.phase = FramePhase::Resizing;
                    },
                    CallOutcome::Fatal => {
                        actions.push(FrameAction::Abort);
                    },
                }
            },
            (FramePhase::Acquiring, FrameEvent::AcquireFailed { code }) => {
                match classify_result(code) {
                    CallOutcome::Stale => {
                        actions.push(FrameAction::Resize);
                        self.phase = FramePhase::Resizing;
                    },
                    _ => {
                        actions.push(FrameAction::Abort);
                    },
                }
            },
            (FramePhase::Recording, FrameEvent::Recorded) => {
                actions.push(self.submit(&self.command_buffer_draw, true));
                self.phase = FramePhase::Submitted;
            },
            (FramePhase::Submitted, FrameEvent::Submitted { code }) => {
                match classify_result(code) {
                    CallOutcome::Success => {
                        actions.push(self.present());
                        self.phase = FramePhase::Presenting;
                    },
                    CallOutcome::Stale => {
                        actions.push(FrameAction::Resize);
                        self.phase = FramePhase::Resizing;
                    },
                    CallOutcome::Fatal => {
                        actions.push(FrameAction::Abort);
                    },
                }
            },
            (FramePhase::Presenting, FrameEvent::Presented { code }) => {
                match classify_result(code) {
                    CallOutcome::Success => {
                        self.phase = FramePhase::Idle;
                    },
                    CallOutcome::Stale => {
                        actions.push(FrameAction::Resize);
                        self.phase = FramePhase::Resizing;
                    },
                    CallOutcome::Fatal => {
                        actions.push(FrameAction::Abort);
                    },
                }
            },
            (
                FramePhase::Resizing,
                FrameEvent::Resized { frame_count, command_buffer_draw, command_buffer_setup },
            ) => {
                if frame_count >= 1 {
                    self.phase = FramePhase::Idle;
                    self.frame_count = frame_count;
                    self.frame = 0;
                    self.command_buffer_draw = command_buffer_draw;
                    self.command_buffer_setup = command_buffer_setup;
                    self.setup_submit(&mut actions);
                }
            },
            _ => {},
        }
        assert(actions@ =~= old(self).next(event).1);
        actions
    }
}

/// Whether every reset of a fence in the trace comes directly after a wait
/// for that fence: no fence is reset while a submission that it guards may
/// still be running.
pub open spec fn resets_follow_waits(trace: Seq<FrameAction>) -> bool {
    forall|i: int|
        0 <= i < trace.len() && (#[trigger] trace[i]) is ResetFence ==> i > 0 && trace[i - 1]
            == (FrameAction::WaitFence { fence: trace[i]->ResetFence_fence })
}

/// Whether, at the end of the trace, the fence is ready to guard a
/// submission: it was reset, and nothing was submitted with it since.
pub open spec fn armed_after(trace: Seq<FrameAction>, fence: u64) -> bool
    decreases trace.len(),
{
    if trace.len() == 0 {
        false
    } else {
        match trace.last() {
            FrameAction::ResetFence { fence: reset } => reset == fence || armed_after(
                trace.drop_last(),
                fence,
            ),
            FrameAction::Submit { fence: guard, .. } => guard != fence && armed_after(
                trace.drop_last(),
                fence,
            ),
            _ => armed_after(trace.drop_last(), fence),
        }
    }
}

/// Whether every submission in the trace is guarded by a fence that was
/// reset since the submission before it.
pub open spec fn submits_are_armed(trace: Seq<FrameAction>) -> bool {
    forall|i: int|
        0 <= i < trace.len() && (#[trigger] trace[i]) is Submit ==> armed_after(
            trace.take(i),
            trace[i]->Submit_fence,
        )
}

/// What one more action makes of a fence's readiness.
proof fn lemma_armed_push(trace: Seq<FrameAction>, action: FrameAction, fence: u64)
    ensures
        armed_after(trace.push(action), fence) == match action {
            FrameAction::ResetFence { fence: reset } => reset == fence || armed_after(trace, fence),
            FrameAction::Submit { fence: guard, .. } => guard != fence && armed_after(trace, fence),
            _ => armed_after(trace, fence),
        },
{
    assert(trace.push(action).drop_last() =~= trace);
}

/// Appending actions among which every submission is guarded by a fence
/// that is ready by then keeps a trace's submissions guarded so.
proof fn lemma_armed_append(trace: Seq<FrameAction>, actions: Seq<FrameAction>)
    requires
        submits_are_armed(trace),
        forall|j: int|
            0 <= j < actions.len() && (#[trigger] actions[j]) is Submit ==> armed_after(
                trace + actions.take(j),
                actions[j]->Submit_fence,
            ),
    ensures
        submits_are_armed(trace + actions),
{
    let whole = trace + actions;
    assert forall|i: int| 0 <= i < whole.len() && (#[trigger] whole[i]) is Submit implies armed_after(
        whole.take(i),
        whole[i]->Submit_fence,
    ) by {
        if i < trace.len() {
            assert(whole.take(i) =~= trace.take(i));
            assert(whole[i] == trace[i]);
        } else {
            let j = i - trace.len();
            assert(whole[i] == actions[j]);
            assert(whole.take(i) =~= trace + actions.take(j));
        }
    }
}

/// Whether the trace holds a submission.
pub open spec fn submits(trace: Seq<FrameAction>) -> bool {
    exists|i: int| 0 <= i < trace.len() && (#[trigger] trace[i]) is Submit
}

impl FrameLoop {
    /// Whether the loop may go from one phase to the other in one step: it
    /// stays, moves on along the cycle from idle through acquiring,
    /// recording, submitted and presenting back to idle, or leaves the cycle
    /// for resizing between frames or on the result of a call.
    pub open spec fn may_follow(from: FramePhase, to: FramePhase) -> bool {
        from == to || match from {
            FramePhase::Idle => to is Acquiring || to is Resizing,
            FramePhase::Acquiring => to is Recording || to is Resizing,
            FramePhase::Recording => to is Submitted,
            FramePhase::Submitted => to is Presenting || to is Resizing,
            FramePhase::Presenting => to is Idle || to is Resizing,
            FramePhase::Resizing => to is Idle,
        }
    }

    /// Whether the frame that is recorded, submitted or presented is one of
    /// the frames in flight.
    pub open spec fn frame_in_range(self) -> bool {
        self.phase is Recording || self.phase is Submitted || self.phase is Presenting
            ==> self.frame < self.frame_count
    }

    /// Every step follows the cycle of a frame, and keeps the frame among
    /// the frames in flight.
    pub proof fn lemma_step_follows_the_cycle(self, event: FrameEvent)
        ensures
            Self::may_follow(self.phase, self.next(event).0.phase),
            self.frame_in_range() ==> self.next(event).0.frame_in_range(),
            !(event is Resized) ==> self.next(event).0.frame_count == self.frame_count,
    {
    }

    /// From between two frames, whatever the device and the window report,
    /// the frame that is recorded, submitted or presented is one of the
    /// frames in flight.
    pub proof fn lemma_run_keeps_frame_in_range(self, events: Seq<FrameEvent>)
        requires
            self.phase is Idle,
        ensures
            self.run(events).0.frame_in_range(),
        decreases events.len(),
    {
        if events.len() > 0 {
            self.lemma_run_keeps_frame_in_range(events.drop_last());
            self.run(events.drop_last()).0.lemma_step_follows_the_cycle(events.last());
        }
    }

    /// The state after a run of events, and all that the program was asked
    /// to do on the way, in order.
    pub open spec fn run(self, events: Seq<FrameEvent>) -> (FrameLoop, Seq<FrameAction>)
        decreases events.len(),
    {
        if events.len() == 0 {
            (self, Seq::empty())
        } else {
            let (before, trace) = self.run(events.drop_last());
            let (after, actions) = before.next(events.last());
            (after, trace + actions)
        }
    }

    /// What one event asks for never resets a fence without waiting for it
    /// first.
    pub proof fn lemma_step_resets_follow_waits(self, event: FrameEvent)
        ensures
            resets_follow_waits(self.next(event).1),
    {
    }

    /// From any state and whatever the device and the window report, every
    /// reset of a fence comes directly after a wait for that fence.
    pub proof fn lemma_run_resets_follow_waits(self, events: Seq<FrameEvent>)
        ensures
            resets_follow_waits(self.run(events).1),
        decreases events.len(),
    {
        if events.len() > 0 {
            self.lemma_run_resets_follow_waits(events.drop_last());
            let (before, trace) = self.run(events.drop_last());
            before.lemma_step_resets_follow_waits(events.last());
            let actions = before.next(events.last()).1;
            let whole = trace + actions;
            assert forall|i: int| 0 <= i < whole.len() && (#[trigger] whole[i]) is ResetFence implies i
                > 0 && whole[i - 1] == (FrameAction::WaitFence {
                fence: whole[i]->ResetFence_fence,
            }) by {
                if i < trace.len() {
                    assert(whole[i] == trace[i]);
                } else {
                    let j = i - trace.len();
                    assert(whole[i] == actions[j]);
                    assert(j > 0);
                    assert(whole[i - 1] == actions[j - 1]);
                }
            }
        }
    }

    /// A stale swapchain reported by the call that asks for the next image
    /// ends the frame at once: the loop goes to resizing, and nothing is
    /// submitted. That is so whether the call returned an image or failed.
    pub proof fn lemma_stale_acquire_resizes_without_submit(self, code: i32, image_index: u32)
        requires
            self.phase is Acquiring,
            outcome_of(code) is Stale,
        ensures
            self.next(FrameEvent::Acquired { code, image_index }).0.phase is Resizing,
            self.next(FrameEvent::Acquired { code, image_index }).1 == seq![FrameAction::Resize],
            !submits(self.next(FrameEvent::Acquired { code, image_index }).1),
            self.next(FrameEvent::AcquireFailed { code }).0.phase is Resizing,
            self.next(FrameEvent::AcquireFailed { code }).1 == seq![FrameAction::Resize],
            !submits(self.next(FrameEvent::AcquireFailed { code }).1),
    {
    }

    /// A failed call for the next image never starts a recording, whatever
    /// its result code says: unless the swapchain is stale, the loop gives up.
    pub proof fn lemma_failed_acquire_never_records(self, code: i32)
        ensures
            !(self.phase is Recording) ==> !(self.next(
                FrameEvent::AcquireFailed { code },
            ).0.phase is Recording),
            self.phase is Acquiring && !(outcome_of(code) is Stale) ==> self.next(
                FrameEvent::AcquireFailed { code },
            ) == (self, seq![FrameAction::Abort]),
    {
    }

    /// Only the end of recording makes the loop submit the draw command
    /// buffer, and only a replaced swapchain the setup command buffer.
    pub proof fn lemma_submits_only_after_recording_or_resize(self, event: FrameEvent)
        requires
            submits(self.next(event).1),
        ensures
            (self.phase is Recording && event is Recorded) || (self.phase is Resizing
                && event is Resized),
    {
    }

    /// Whether the draw command buffer's fence is ready wherever the loop
    /// is on its way to submitting the buffer.
    pub open spec fn draw_is_armed(self, trace: Seq<FrameAction>) -> bool {
        self.phase is Acquiring || self.phase is Recording ==> armed_after(
            trace,
            self.command_buffer_draw.fence_submit,
        )
    }

    /// One event keeps every submission guarded by a ready fence.
    proof fn lemma_step_keeps_armed(self, event: FrameEvent, trace: Seq<FrameAction>)
        requires
            submits_are_armed(trace),
            self.draw_is_armed(trace),
        ensures
            submits_are_armed(trace + self.next(event).1),
            self.next(event).0.draw_is_armed(trace + self.next(event).1),
    {
        let (after, actions) = self.next(event);
        let draw = self.command_buffer_draw.fence_submit;
        if actions.len() == 0 {
            assert(trace + actions =~= trace);
        } else if actions.len() == 1 {
            assert(trace + actions =~= trace.push(actions[0]));
            assert(actions.take(0) =~= Seq::<FrameAction>::empty());
            assert(trace + actions.take(0) =~= trace);
            lemma_armed_push(trace, actions[0], draw);
            lemma_armed_append(trace, actions);
        } else if actions.len() == 3 {
            let waited = trace.push(actions[0]);
            let reset = waited.push(actions[1]);
            assert(trace + actions =~= reset.push(actions[2]));
            lemma_armed_push(trace, actions[0], draw);
            lemma_armed_push(waited, actions[1], draw);
            lemma_armed_push(reset, actions[2], draw);
            lemma_armed_append(trace, actions);
        } else {
            let setup = after.command_buffer_setup.fence_submit;
            assert(actions == setup_submit_of(after.command_buffer_setup));
            let waited = trace.push(actions[0]);
            let reset = waited.push(actions[1]);
            let recorded = reset.push(actions[2]);
            assert(trace + actions.take(3) =~= recorded);
            lemma_armed_push(trace, actions[0], setup);
            lemma_armed_push(waited, actions[1], setup);
            lemma_armed_push(reset, actions[2], setup);
            lemma_armed_append(trace, actions);
        }
    }

    /// From between two frames and whatever the device and the window
    /// report, every submission is guarded by a fence that was waited for
    /// and reset since the submission before it. And wherever the loop
    /// waits for an image or records a frame, the draw command buffer's
    /// fence is ready: the buffer's last submission has finished, so that
    /// what the frame writes is not read by a frame in flight.
    pub proof fn lemma_run_submits_are_armed(self, events: Seq<FrameEvent>)
        requires
            self.phase is Idle,
        ensures
            submits_are_armed(self.run(events).1),
            resets_follow_waits(self.run(events).1),
            self.run(events).0.draw_is_armed(self.run(events).1),
        decreases events.len(),
    {
        self.lemma_run_resets_follow_waits(events);
        if events.len() > 0 {
            self.lemma_run_submits_are_armed(events.drop_last());
            let (before, trace) = self.run(events.drop_last());
            before.lemma_step_keeps_armed(events.last(), trace);
        }
    }
}

} // verus!
