use vpe::frame::{CommandBuffer, FrameAction, FrameEvent, FrameLoop, FramePhase};
use vpe::vulkan::{acquire_code, classify_result, CallOutcome};

const OUT_OF_DATE: i32 = -1_000_001_004;
const SUBOPTIMAL: i32 = 1_000_001_003;
const DEVICE_LOST: i32 = -4;

fn draw() -> CommandBuffer {
    CommandBuffer { command_buffer: 1, fence_submit: 2, present_queue: 3 }
}

fn setup() -> CommandBuffer {
    CommandBuffer { command_buffer: 4, fence_submit: 5, present_queue: 3 }
}

fn idle_loop() -> FrameLoop {
    FrameLoop::new(3, 10, 11, draw(), setup())
}

fn in_phase(phase: FramePhase) -> FrameLoop {
    let mut frame_loop = idle_loop();
    frame_loop.phase = phase;
    frame_loop.frame = 1;
    frame_loop
}

fn draw_submit() -> FrameAction {
    FrameAction::Submit {
        command_buffer: 1,
        queue: 3,
        wait_semaphore: Some(10),
        signal_semaphore: Some(11),
        fence: 2,
    }
}

fn setup_actions(buffer: CommandBuffer) -> Vec<FrameAction> {
    vec![
        FrameAction::WaitFence { fence: buffer.fence_submit },
        FrameAction::ResetFence { fence: buffer.fence_submit },
        FrameAction::RecordSetup { command_buffer: buffer.command_buffer },
        FrameAction::Submit {
            command_buffer: buffer.command_buffer,
            queue: buffer.present_queue,
            wait_semaphore: None,
            signal_semaphore: None,
            fence: buffer.fence_submit,
        },
        FrameAction::WaitIdle,
    ]
}

fn resets_follow_waits(trace: &[FrameAction]) -> bool {
    trace.iter().enumerate().all(|(i, action)| match action {
        FrameAction::ResetFence { fence } => {
            i > 0 && trace[i - 1] == FrameAction::WaitFence { fence: *fence }
        }
        _ => true,
    })
}

fn submits_are_armed(trace: &[FrameAction]) -> bool {
    trace.iter().enumerate().all(|(i, action)| match action {
        FrameAction::Submit { fence, .. } => {
            let mut armed = false;
            for earlier in &trace[..i] {
                match earlier {
                    FrameAction::ResetFence { fence: reset } if reset == fence => armed = true,
                    FrameAction::Submit { fence: guard, .. } if guard == fence => armed = false,
                    _ => {}
                }
            }
            armed
        }
        _ => true,
    })
}

#[test]
fn result_codes_are_those_of_the_bindings() {
    assert_eq!(ash::vk::Result::ERROR_OUT_OF_DATE_KHR.as_raw(), OUT_OF_DATE);
    assert_eq!(ash::vk::Result::SUBOPTIMAL_KHR.as_raw(), SUBOPTIMAL);
    assert_eq!(ash::vk::Result::ERROR_DEVICE_LOST.as_raw(), DEVICE_LOST);
    assert_eq!(acquire_code(false), ash::vk::Result::SUCCESS.as_raw());
    assert_eq!(acquire_code(true), SUBOPTIMAL);
}

#[test]
fn classify_result_sorts_the_codes() {
    assert_eq!(classify_result(0), CallOutcome::Success);
    assert_eq!(classify_result(OUT_OF_DATE), CallOutcome::Stale);
    assert_eq!(classify_result(SUBOPTIMAL), CallOutcome::Stale);
    assert_eq!(classify_result(DEVICE_LOST), CallOutcome::Fatal);
    assert_eq!(classify_result(1), CallOutcome::Fatal);
    assert_eq!(classify_result(-1), CallOutcome::Fatal);
    assert_eq!(classify_result(i32::MIN), CallOutcome::Fatal);
    assert_eq!(classify_result(1_000_001_004), CallOutcome::Fatal);
}

#[test]
fn new_loop_is_idle() {
    let frame_loop = idle_loop();
    assert_eq!(frame_loop.phase, FramePhase::Idle);
    assert_eq!(frame_loop.frame_count, 3);
    assert_eq!(frame_loop.frame, 0);
    assert_eq!(frame_loop.semaphore_present, 10);
    assert_eq!(frame_loop.semaphore_render, 11);
    assert_eq!(frame_loop.command_buffer_draw, draw());
    assert_eq!(frame_loop.command_buffer_setup, setup());
}

#[test]
fn a_frame_runs_from_idle_back_to_idle() {
    let mut frame_loop = idle_loop();
    let mut trace = Vec::new();
    let actions = frame_loop.step(FrameEvent::Render);
    assert_eq!(
        actions,
        vec![
            FrameAction::WaitFence { fence: 2 },
            FrameAction::ResetFence { fence: 2 },
            FrameAction::AcquireImage { semaphore: 10 },
        ]
    );
    assert_eq!(frame_loop.phase, FramePhase::Acquiring);
    trace.extend(actions);
    let actions = frame_loop.step(FrameEvent::Acquired { code: 0, image_index: 2 });
    assert_eq!(actions, vec![FrameAction::Record { frame: 2 }]);
    assert_eq!(frame_loop.phase, FramePhase::Recording);
    assert_eq!(frame_loop.frame, 2);
    trace.extend(actions);
    let actions = frame_loop.step(FrameEvent::Recorded);
    assert_eq!(actions, vec![draw_submit()]);
    assert_eq!(frame_loop.phase, FramePhase::Submitted);
    trace.extend(actions);
    let actions = frame_loop.step(FrameEvent::Submitted { code: 0 });
    assert_eq!(actions, vec![FrameAction::Present { queue: 3, semaphore: 11, image_index: 2 }]);
    assert_eq!(frame_loop.phase, FramePhase::Presenting);
    trace.extend(actions);
    let actions = frame_loop.step(FrameEvent::Presented { code: 0 });
    assert_eq!(actions, Vec::new());
    assert_eq!(frame_loop.phase, FramePhase::Idle);
    assert_eq!(frame_loop.frame_count, 3);
    assert!(resets_follow_waits(&trace));
    assert!(submits_are_armed(&trace));
}

#[test]
fn out_of_date_acquire_goes_to_resize_without_submit() {
    let mut frame_loop = idle_loop();
    let _ = frame_loop.step(FrameEvent::Render);
    let actions = frame_loop.step(FrameEvent::Acquired { code: OUT_OF_DATE, image_index: 0 });
    assert_eq!(actions, vec![FrameAction::Resize]);
    assert_eq!(frame_loop.phase, FramePhase::Resizing);
    assert!(!actions.iter().any(|a| matches!(a, FrameAction::Submit { .. })));
    assert_eq!(frame_loop.step(FrameEvent::Recorded), Vec::new());
    assert_eq!(frame_loop.step(FrameEvent::Render), Vec::new());
    assert_eq!(frame_loop.phase, FramePhase::Resizing);
}

#[test]
fn failed_acquire_resizes_when_stale_and_aborts_otherwise() {
    for code in [OUT_OF_DATE, SUBOPTIMAL] {
        let mut frame_loop = in_phase(FramePhase::Acquiring);
        assert_eq!(frame_loop.step(FrameEvent::AcquireFailed { code }), vec![FrameAction::Resize]);
        assert_eq!(frame_loop.phase, FramePhase::Resizing);
    }
    for code in [0, DEVICE_LOST, 1, -1, i32::MAX] {
        let mut frame_loop = in_phase(FramePhase::Acquiring);
        assert_eq!(frame_loop.step(FrameEvent::AcquireFailed { code }), vec![FrameAction::Abort]);
        assert_eq!(frame_loop, in_phase(FramePhase::Acquiring));
    }
    for phase in [
        FramePhase::Idle,
        FramePhase::Recording,
        FramePhase::Submitted,
        FramePhase::Presenting,
        FramePhase::Resizing,
    ] {
        let mut frame_loop = in_phase(phase);
        assert_eq!(frame_loop.step(FrameEvent::AcquireFailed { code: OUT_OF_DATE }), Vec::new());
        assert_eq!(frame_loop, in_phase(phase));
    }
}

#[test]
fn suboptimal_acquire_goes_to_resize() {
    let mut frame_loop = in_phase(FramePhase::Acquiring);
    let actions = frame_loop.step(FrameEvent::Acquired { code: SUBOPTIMAL, image_index: 1 });
    assert_eq!(actions, vec![FrameAction::Resize]);
    assert_eq!(frame_loop.phase, FramePhase::Resizing);
    assert_eq!(frame_loop.frame, 1);
}

#[test]
fn failed_acquire_aborts() {
    let mut frame_loop = in_phase(FramePhase::Acquiring);
    let actions = frame_loop.step(FrameEvent::Acquired { code: DEVICE_LOST, image_index: 0 });
    assert_eq!(actions, vec![FrameAction::Abort]);
    assert_eq!(frame_loop, in_phase(FramePhase::Acquiring));
}

#[test]
fn image_index_beyond_the_frames_aborts() {
    let mut frame_loop = in_phase(FramePhase::Acquiring);
    let actions = frame_loop.step(FrameEvent::Acquired { code: 0, image_index: 3 });
    assert_eq!(actions, vec![FrameAction::Abort]);
    assert_eq!(frame_loop, in_phase(FramePhase::Acquiring));
    let actions = frame_loop.step(FrameEvent::Acquired { code: 0, image_index: u32::MAX });
    assert_eq!(actions, vec![FrameAction::Abort]);
}

#[test]
fn stale_submit_and_present_go_to_resize() {
    let mut frame_loop = in_phase(FramePhase::Submitted);
    assert_eq!(
        frame_loop.step(FrameEvent::Submitted { code: OUT_OF_DATE }),
        vec![FrameAction::Resize]
    );
    assert_eq!(frame_loop.phase, FramePhase::Resizing);
    let mut frame_loop = in_phase(FramePhase::Presenting);
    assert_eq!(
        frame_loop.step(FrameEvent::Presented { code: OUT_OF_DATE }),
        vec![FrameAction::Resize]
    );
    assert_eq!(frame_loop.phase, FramePhase::Resizing);
    let mut frame_loop = in_phase(FramePhase::Presenting);
    assert_eq!(
        frame_loop.step(FrameEvent::Presented { code: SUBOPTIMAL }),
        vec![FrameAction::Resize]
    );
    assert_eq!(frame_loop.phase, FramePhase::Resizing);
}

#[test]
fn failed_submit_and_present_abort() {
    let mut frame_loop = in_phase(FramePhase::Submitted);
    assert_eq!(
        frame_loop.step(FrameEvent::Submitted { code: DEVICE_LOST }),
        vec![FrameAction::Abort]
    );
    assert_eq!(frame_loop.phase, FramePhase::Submitted);
    let mut frame_loop = in_phase(FramePhase::Presenting);
    assert_eq!(frame_loop.step(FrameEvent::Presented { code: -1 }), vec![FrameAction::Abort]);
    assert_eq!(frame_loop.phase, FramePhase::Presenting);
}

#[test]
fn resize_request_is_taken_between_frames_only() {
    let mut frame_loop = idle_loop();
    assert_eq!(frame_loop.step(FrameEvent::ResizeRequested), vec![FrameAction::Resize]);
    assert_eq!(frame_loop.phase, FramePhase::Resizing);
    for phase in [
        FramePhase::Acquiring,
        FramePhase::Recording,
        FramePhase::Submitted,
        FramePhase::Presenting,
        FramePhase::Resizing,
    ] {
        let mut frame_loop = in_phase(phase);
        assert_eq!(frame_loop.step(FrameEvent::ResizeRequested), Vec::new());
        assert_eq!(frame_loop, in_phase(phase));
    }
}

#[test]
fn events_out_of_turn_change_nothing() {
    let events = [
        FrameEvent::Acquired { code: 0, image_index: 0 },
        FrameEvent::Recorded,
        FrameEvent::Submitted { code: 0 },
        FrameEvent::Presented { code: 0 },
        FrameEvent::Resized { frame_count: 2, command_buffer_draw: setup(), command_buffer_setup: draw() },
    ];
    for event in events {
        let mut frame_loop = idle_loop();
        assert_eq!(frame_loop.step(event), Vec::new());
        assert_eq!(frame_loop, idle_loop());
    }
    let mut frame_loop = in_phase(FramePhase::Recording);
    assert_eq!(frame_loop.step(FrameEvent::Render), Vec::new());
    assert_eq!(frame_loop.step(FrameEvent::Submitted { code: 0 }), Vec::new());
    assert_eq!(frame_loop, in_phase(FramePhase::Recording));
}

#[test]
fn resized_installs_the_buffers_and_submits_the_setup() {
    let mut frame_loop = in_phase(FramePhase::Resizing);
    let new_draw = CommandBuffer { command_buffer: 21, fence_submit: 22, present_queue: 3 };
    let new_setup = CommandBuffer { command_buffer: 24, fence_submit: 25, present_queue: 3 };
    let actions = frame_loop.step(FrameEvent::Resized {
        frame_count: 2,
        command_buffer_draw: new_draw,
        command_buffer_setup: new_setup,
    });
    assert_eq!(actions, setup_actions(new_setup));
    assert_eq!(frame_loop.phase, FramePhase::Idle);
    assert_eq!(frame_loop.frame_count, 2);
    assert_eq!(frame_loop.frame, 0);
    assert_eq!(frame_loop.command_buffer_draw, new_draw);
    assert_eq!(frame_loop.command_buffer_setup, new_setup);
    assert_eq!(frame_loop.semaphore_present, 10);
    assert_eq!(frame_loop.semaphore_render, 11);
    assert!(resets_follow_waits(&actions));
}

#[test]
fn resized_without_images_is_ignored() {
    let mut frame_loop = in_phase(FramePhase::Resizing);
    let actions = frame_loop.step(FrameEvent::Resized {
        frame_count: 0,
        command_buffer_draw: draw(),
        command_buffer_setup: setup(),
    });
    assert_eq!(actions, Vec::new());
    assert_eq!(frame_loop, in_phase(FramePhase::Resizing));
}

#[test]
fn submit_with_and_without_semaphores() {
    let frame_loop = idle_loop();
    assert_eq!(frame_loop.submit(&draw(), true), draw_submit());
    assert_eq!(
        frame_loop.submit(&setup(), false),
        FrameAction::Submit {
            command_buffer: 4,
            queue: 3,
            wait_semaphore: None,
            signal_semaphore: None,
            fence: 5,
        }
    );
}

#[test]
fn sync_fences_waits_then_resets() {
    let mut actions = vec![FrameAction::WaitIdle];
    FrameLoop::sync_fences(&mut actions, &draw());
    assert_eq!(
        actions,
        vec![
            FrameAction::WaitIdle,
            FrameAction::WaitFence { fence: 2 },
            FrameAction::ResetFence { fence: 2 },
        ]
    );
}

#[test]
fn setup_submit_of_the_loop() {
    let mut actions = Vec::new();
    idle_loop().setup_submit(&mut actions);
    assert_eq!(actions, setup_actions(setup()));
}

#[test]
fn present_waits_for_the_render_semaphore() {
    let frame_loop = in_phase(FramePhase::Submitted);
    assert_eq!(
        frame_loop.present(),
        FrameAction::Present { queue: 3, semaphore: 11, image_index: 1 }
    );
}

#[test]
fn no_run_resets_a_fence_without_waiting() {
    let events = [
        FrameEvent::Render,
        FrameEvent::Acquired { code: 0, image_index: 1 },
        FrameEvent::Render,
        FrameEvent::Recorded,
        FrameEvent::Submitted { code: OUT_OF_DATE },
        FrameEvent::Resized { frame_count: 2, command_buffer_draw: draw(), command_buffer_setup: setup() },
        FrameEvent::Render,
        FrameEvent::Acquired { code: SUBOPTIMAL, image_index: 0 },
        FrameEvent::Resized { frame_count: 4, command_buffer_draw: draw(), command_buffer_setup: setup() },
        FrameEvent::ResizeRequested,
        FrameEvent::Resized { frame_count: 1, command_buffer_draw: draw(), command_buffer_setup: setup() },
        FrameEvent::Render,
        FrameEvent::Acquired { code: 0, image_index: 0 },
        FrameEvent::Recorded,
        FrameEvent::Submitted { code: 0 },
        FrameEvent::Presented { code: 0 },
    ];
    let mut frame_loop = idle_loop();
    let mut trace = Vec::new();
    for event in events {
        trace.extend(frame_loop.step(event));
    }
    assert!(resets_follow_waits(&trace));
    assert!(submits_are_armed(&trace));
    assert_eq!(frame_loop.phase, FramePhase::Idle);
    assert_eq!(trace.iter().filter(|a| matches!(a, FrameAction::ResetFence { .. })).count(), 6);
    assert_eq!(trace.iter().filter(|a| matches!(a, FrameAction::Submit { .. })).count(), 5);
}
