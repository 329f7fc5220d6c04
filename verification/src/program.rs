//! The program around the scene: what it is called and what a tick asks for.

use crate::input_state::{
    extent_after_all, request_of, requests_of, result_of, state_after_all, InputStateView,
    MouseState, WindowEvent, WindowRequest,
};
use crate::scene::Scene;
use vstd::prelude::*;

verus! {

/// What the event loop does after a tick.
#[derive(Copy, Clone, Debug, PartialEq, Eq, Structural)]
pub enum TickResult {
    /// Go on with the next event.
    CONTINUE,
    /// Draw a frame.
    RENDER,
    /// Leave the event loop.
    EXIT,
}

/// What a host hands over to start the program.
#[derive(Debug)]
pub struct ProgramContext {
    /// The name of the program, shown as the window's title.
    pub name: String,
}

/// The program: a scene and the window's events.
#[derive(Debug)]
pub struct Program {
    pub scene: Scene,
}

/// What became of one turn of the event loop.
#[derive(Debug)]
pub struct TickOutcome {
    pub result: TickResult,
    /// How many of the events were taken in.
    pub handled: usize,
    /// What each of those events asks for.
    pub requests: Vec<WindowRequest>,
}

/// The input state at the start of a turn: the wheel is at rest again.
pub open spec fn turn_start(state: InputStateView) -> InputStateView {
    InputStateView { mouse: MouseState { scroll_delta: 0, ..state.mouse }, ..state }
}

/// Whether a turn that gets these events takes in exactly the first
/// `handled`: all that come before the first one that does not say to go
/// on, and that one too.
pub open spec fn takes_in(events: Seq<WindowEvent>, handled: int) -> bool {
    &&& 0 <= handled <= events.len()
    &&& forall|j: int| 0 <= j < handled - 1 ==> result_of(#[trigger] events[j]) is CONTINUE
    &&& handled < events.len() ==> handled > 0 && !(result_of(events[handled - 1]) is CONTINUE)
}

/// What the event loop does after a turn that took in the first `handled`
/// events: what the last of them says, or draw a frame where all say to go
/// on.
pub open spec fn turn_result(events: Seq<WindowEvent>, handled: int) -> TickResult {
    if handled > 0 && !(result_of(events[handled - 1]) is CONTINUE) {
        result_of(events[handled - 1])
    } else {
        TickResult::RENDER
    }
}

impl Program {
    /// The program around a scene.
    pub fn new(scene: Scene) -> (r: Self)
        ensures
            r.scene == scene,
    {
        Program { scene }
    }

    /// One turn of the event loop, at time `at`.
    ///
    /// A window that is to close ends the loop at once and nothing changes.
    /// Else the wheel is put to rest and the events are taken in, in order,
    /// up to the first that does not say to go on; the window's size
    /// follows the events. Where all say to go on, a frame is drawn.
    pub fn tick_events_at(
        &mut self,
        should_close: bool,
        events: &Vec<WindowEvent>,
        at: std::time::Instant,
    ) -> (outcome: TickOutcome)
        requires
            old(self).scene.input_state.wf(),
        ensures
            final(self).scene.input_state.wf(),
            should_close ==> outcome.result is EXIT && outcome.handled == 0
                && outcome.requests@.len() == 0 && *final(self) == *old(self),
            !should_close ==> {
                &&& takes_in(events@, outcome.handled as int)
                &&& outcome.result == turn_result(events@, outcome.handled as int)
                &&& outcome.requests@ == requests_of(events@.take(outcome.handled as int))
                &&& final(self).scene.input_state@ == state_after_all(
                    turn_start(old(self).scene.input_state@),
                    events@.take(outcome.handled as int),
                    at,
                )
                &&& final(self).scene.program_data.extent == extent_after_all(
                    old(self).scene.program_data.extent,
                    events@.take(outcome.handled as int),
                )
            },
            final(self).scene.buckets == old(self).scene.buckets,
            final(self).scene.frame_loop == old(self).scene.frame_loop,
            final(self).scene.framebuffers == old(self).scene.framebuffers,
            final(self).scene.framebuffer_imageviews == old(self).scene.framebuffer_imageviews,
            final(self).scene.depth_image == old(self).scene.depth_image,
            final(self).scene.depth_image_view == old(self).scene.depth_image_view,
            final(self).scene.render_state == old(self).scene.render_state,
            final(self).scene.render_state_local == old(self).scene.render_state_local,
            final(self).scene.program_data.swapchain == old(self).scene.program_data.swapchain,
            final(self).scene.program_data.render_pass == old(self).scene.program_data.render_pass,
            final(self).scene.program_data.descriptor_pool == old(self).scene.program_data.descriptor_pool,
            final(self).scene.program_data.command_pool == old(self).scene.program_data.command_pool,
    {
        let mut requests: Vec<WindowRequest> = Vec::new();
        if should_close {
            return TickOutcome { result: TickResult::EXIT, handled: 0, requests };
        }
        self.scene.input_state.mouse.scroll_delta = 0;
        let mut i: usize = 0;
        assert(events@.take(0) =~= Seq::<WindowEvent>::empty());
        assert(self.scene.input_state@ == turn_start(old(self).scene.input_state@));
        while i < events.len()
            invariant
                !should_close,
                i <= events@.len(),
                self.scene.input_state.wf(),
                forall|j: int| 0 <= j < i ==> result_of(#[trigger] events@[j]) is CONTINUE,
                requests@ == requests_of(events@.take(i as int)),
                self.scene.input_state@ == state_after_all(
                    turn_start(old(self).scene.input_state@),
                    events@.take(i as int),
                    at,
                ),
                self.scene.program_data.extent == extent_after_all(
                    old(self).scene.program_data.extent,
                    events@.take(i as int),
                ),
                self.scene.buckets == old(self).scene.buckets,
                self.scene.frame_loop == old(self).scene.frame_loop,
                self.scene.framebuffers == old(self).scene.framebuffers,
                self.scene.framebuffer_imageviews == old(self).scene.framebuffer_imageviews,
                self.scene.depth_image == old(self).scene.depth_image,
                self.scene.depth_image_view == old(self).scene.depth_image_view,
                self.scene.render_state == old(self).scene.render_state,
                self.scene.render_state_local == old(self).scene.render_state_local,
                self.scene.program_data.swapchain == old(self).scene.program_data.swapchain,
                self.scene.program_data.render_pass == old(self).scene.program_data.render_pass,
                self.scene.program_data.descriptor_pool == old(self).scene.program_data.descriptor_pool,
                self.scene.program_data.command_pool == old(self).scene.program_data.command_pool,
            decreases events@.len() - i,
        {
            let event = events[i];
            let outcome = self.scene.input_state.tick_event_at(event, at);
            match outcome.request {
                WindowRequest::Resize { extent: Some(reported) } => {
                    self.scene.program_data.extent = reported;
                },
                _ => {},
            }
            requests.push(outcome.request);
            proof {
                let next = events@.take(i + 1);
                assert(next.drop_last() =~= events@.take(i as int));
                assert(next.last() == event);
                assert(requests@ =~= requests_of(next));
            }
            i += 1;
            match outcome.result {
                TickResult::CONTINUE => {},
                TickResult::RENDER => {
                    return TickOutcome { result: TickResult::RENDER, handled: i, requests };
                },
                TickResult::EXIT => {
                    return TickOutcome { result: TickResult::EXIT, handled: i, requests };
                },
            }
        }
        TickOutcome { result: TickResult::RENDER, handled: i, requests }
    }

    /// One turn of the event loop, now.
    pub fn tick_events(&mut self, should_close: bool, events: &Vec<WindowEvent>) -> (outcome:
        TickOutcome)
        requires
            old(self).scene.input_state.wf(),
        ensures
            final(self).scene.input_state.wf(),
            should_close ==> outcome.result is EXIT && outcome.handled == 0
                && outcome.requests@.len() == 0 && *final(self) == *old(self),
            !should_close ==> {
                &&& takes_in(events@, outcome.handled as int)
                &&& outcome.result == turn_result(events@, outcome.handled as int)
                &&& outcome.requests@ == requests_of(events@.take(outcome.handled as int))
                &&& exists|at: std::time::Instant|
                    final(self).scene.input_state@ == state_after_all(
                        turn_start(old(self).scene.input_state@),
                        events@.take(outcome.handled as int),
                        at,
                    )
                &&& final(self).scene.program_data.extent == extent_after_all(
                    old(self).scene.program_data.extent,
                    events@.take(outcome.handled as int),
                )
            },
    {
        if should_close {
            return TickOutcome { result: TickResult::EXIT, handled: 0, requests: Vec::new() };
        }
        let at = std::time::Instant::now();
        let outcome = self.tick_events_at(should_close, events, at);
        assert(self.scene.input_state@ == state_after_all(
            turn_start(old(self).scene.input_state@),
            events@.take(outcome.handled as int),
            at,
        ));
        outcome
    }
}

} // verus!
