//! Frame lifecycle and GPU resource bookkeeping for a Vulkan renderer.
//!
//! The library decides; the program around it talks to the graphics device.
//! Every function here works on plain values (handles are `u64`, result codes
//! are `i32`) and states in its contract what it returns or changes.

pub mod blocks;
pub mod commands;
pub mod dirty;
pub mod vulkan;
pub mod objects;
pub mod pipeline;
pub mod bucket;
pub mod camera;
pub mod program;
pub mod render_state;
pub mod frame;
pub mod scene;
pub mod input_state;

pub use crate::blocks::{BlockState, FrameCopy};
pub use crate::bucket::{Bucket, BucketEntry, BucketObject};
pub use crate::commands::{DrawCommand, ResourceCommand};
pub use crate::dirty::{DynamicDirtyState, StaticDirtyState};
pub use crate::frame::{CommandBuffer, FrameAction, FrameEvent, FrameLoop, FramePhase};
pub use crate::input_state::{InputState, MouseState, DOUBLE_CLICK_MS};
pub use crate::objects::buffers::{bind_buffers, index_count, ObjectStateBuffers};
pub use crate::objects::dynamic::DynamicState;
pub use crate::objects::fixed::StaticState;
pub use crate::objects::sub::SubState;
pub use crate::objects::UpdatePlan;
pub use crate::pipeline::{create_viewport, PipelineInfo, ViewportDepthRange};
pub use crate::program::{Program, ProgramContext, TickResult};
pub use crate::render_state::{RenderState, RenderStateLocal};
pub use crate::scene::{ProgramData, Scene};
