use vpe::blocks::{BlockState, FrameCopy};
use vpe::bucket::{Bucket, BucketObject};
use vpe::commands::{DrawCommand, ResourceCommand};
use vpe::dirty::DynamicDirtyState;
use vpe::objects::buffers::{
    IndexBuffer, IndirectBuffer, InstanceBuffer, ObjectStateBuffers, VertexBuffer,
};
use vpe::objects::dynamic::DynamicState;
use vpe::objects::fixed::StaticState;
use vpe::objects::UpdatePlan;
use vpe::pipeline::{Extent2D, PipelineInfo, Rect2D, Viewport, ViewportDepthRange};

fn copies(base: u64, n: u64) -> Vec<FrameCopy> {
    (0..n)
        .map(|i| FrameCopy { allocation: base + i, descriptor_set: base + 100 + i })
        .collect()
}

fn block(size: usize, base: u64, n: u64) -> BlockState {
    BlockState::new(size, 0, 1, 900 + base, copies(base, n))
}

fn indexed(base: u64, count: usize) -> ObjectStateBuffers {
    ObjectStateBuffers::GOIndexed(
        VertexBuffer { buffer: base },
        IndexBuffer { buffer: base + 1, index_count: count },
    )
}

fn pipeline(frames: u64) -> PipelineInfo {
    let mut info = PipelineInfo::new(
        "ui_geometry",
        true,
        ViewportDepthRange::UI,
        0,
        vec![block(128, 1000, frames)],
    );
    info.recreate_pipeline(5, 6, Extent2D { width: 800, height: 600 });
    info
}

fn bucket(frames: u64) -> Bucket {
    let mut bucket = Bucket::new("tiles", pipeline(frames));
    bucket.add_dynamic_object(
        "a".to_string(),
        DynamicState::new("a".to_string(), indexed(10, 6)),
        vec![block(80, 2000, frames)],
    );
    bucket.add_static_object(
        "b".to_string(),
        StaticState::new("b".to_string(), indexed(20, 12)),
        vec![block(80, 3000, frames), block(16, 3500, frames)],
    );
    bucket.add_dynamic_object(
        "c".to_string(),
        DynamicState::new("c".to_string(), indexed(30, 3)),
        vec![],
    );
    bucket
}

fn names(bucket: &Bucket) -> Vec<String> {
    bucket.objects.iter().map(|e| e.name.clone()).collect()
}

#[test]
fn pipeline_info_new_has_no_pipeline_yet() {
    let info = PipelineInfo::new("ui", false, ViewportDepthRange::WORLD, 1, Vec::new());
    assert_eq!(info.pipeline, 0);
    assert_eq!(info.pipeline_layout, 0);
    assert_eq!(info.name, "ui");
    assert!(!info.depth);
    assert_eq!(info.viewport_depth_range, ViewportDepthRange::WORLD);
    assert_eq!(info.polygon_mode, 1);
    assert!(info.block_states.is_empty());
    assert_eq!(info.scissor, Rect2D { x: 0, y: 0, width: 0, height: 0 });
}

#[test]
fn create_viewport_covers_the_extent() {
    let expected =
        Viewport { x: 0, y: 0, width: 640, height: 480, min_depth: 0, max_depth: 1 };
    let extent = Extent2D { width: 640, height: 480 };
    assert_eq!(vpe::pipeline::create_viewport(extent, ViewportDepthRange::UI), expected);
    assert_eq!(vpe::pipeline::create_viewport(extent, ViewportDepthRange::WORLD), expected);
}

#[test]
fn recreate_and_destroy_pipeline() {
    let mut info = pipeline(2);
    assert_eq!((info.pipeline, info.pipeline_layout), (5, 6));
    assert_eq!(
        info.viewport,
        Viewport { x: 0, y: 0, width: 800, height: 600, min_depth: 0, max_depth: 1 }
    );
    assert_eq!(info.scissor, Rect2D { x: 0, y: 0, width: 800, height: 600 });
    assert_eq!(info.destroy_pipeline(), (5, 6));
    assert_eq!((info.pipeline, info.pipeline_layout), (0, 0));
    assert_eq!(info.name, "ui_geometry");
    assert_eq!(info.block_states.len(), 1);
    info.recreate_pipeline(8, 9, Extent2D { width: 10, height: 20 });
    assert_eq!((info.pipeline, info.pipeline_layout), (8, 9));
    assert_eq!(info.scissor, Rect2D { x: 0, y: 0, width: 10, height: 20 });
}

#[test]
fn new_bucket_is_empty() {
    let bucket = Bucket::new("tiles", pipeline(2));
    assert_eq!(bucket.name, "tiles");
    assert!(bucket.objects.is_empty());
    assert_eq!(bucket.find_object("a"), None);
}

#[test]
fn added_objects_get_their_block_states() {
    let bucket = bucket(2);
    assert_eq!(names(&bucket), vec!["a", "b", "c"]);
    match &bucket.objects[0].object {
        BucketObject::Dynamic(state) => {
            assert_eq!(state.sub_state.block_states, Some(vec![block(80, 2000, 2)]));
            assert_eq!(state.dirty_state, DynamicDirtyState::all());
        }
        BucketObject::Static(_) => panic!("a is dynamic"),
    }
    match &bucket.objects[1].object {
        BucketObject::Static(state) => {
            assert_eq!(state.sub_state.block_states.as_ref().map(|b| b.len()), Some(2));
        }
        BucketObject::Dynamic(_) => panic!("b is static"),
    }
    assert_eq!(bucket.objects[2].object.sub().block_states, Some(Vec::new()));
}

#[test]
fn find_object_returns_the_first_of_a_name() {
    let mut bucket = bucket(2);
    bucket.add_dynamic_object(
        "a".to_string(),
        DynamicState::new("second".to_string(), indexed(40, 1)),
        vec![],
    );
    assert_eq!(bucket.find_object("a"), Some(0));
    assert_eq!(bucket.find_object("b"), Some(1));
    assert_eq!(bucket.find_object("c"), Some(2));
    assert_eq!(bucket.find_object("d"), None);
    assert_eq!(bucket.find_object(""), None);
    assert_eq!(bucket.get_static_object_rs("a").sub().name, "a");
    assert_eq!(bucket.get_static_object_rs("b").sub().buffers, indexed(20, 12));
}

#[test]
fn get_static_object_us_gives_the_object_to_mark() {
    let mut bucket = bucket(1);
    let _ = bucket.update_blocks(0, 1);
    match bucket.get_static_object_us("c") {
        BucketObject::Dynamic(state) => state.dirty(DynamicDirtyState::vb()),
        BucketObject::Static(_) => panic!("c is dynamic"),
    }
    let plans = bucket.update_blocks(0, 1);
    assert_eq!(
        plans,
        vec![
            UpdatePlan { vertex_buffer: false, index_buffer: false, block_state: None },
            UpdatePlan { vertex_buffer: false, index_buffer: false, block_state: None },
            UpdatePlan { vertex_buffer: true, index_buffer: false, block_state: None },
        ]
    );
}

#[test]
fn remove_object_puts_the_last_in_its_place() {
    let mut bucket = bucket(2);
    bucket.add_dynamic_object(
        "d".to_string(),
        DynamicState::new("d".to_string(), indexed(40, 1)),
        vec![],
    );
    let (removed, _) = bucket.remove_object("a".to_string());
    assert_eq!(removed.name, "a");
    assert_eq!(removed.object.sub().buffers, indexed(10, 6));
    assert_eq!(names(&bucket), vec!["d", "b", "c"]);
    let (removed, _) = bucket.remove_object("c".to_string());
    assert_eq!(removed.name, "c");
    assert_eq!(names(&bucket), vec!["d", "b"]);
    let _ = bucket.remove_object("d".to_string());
    let _ = bucket.remove_object("b".to_string());
    assert!(bucket.objects.is_empty());
}

#[test]
fn remove_object_releases_what_the_object_owns_and_nothing_else() {
    let mut bucket = bucket(2);
    let (removed, release) = bucket.remove_object("b".to_string());
    assert_eq!(
        release,
        vec![
            ResourceCommand::WaitIdle,
            ResourceCommand::FreeBlockMemory { allocation: 3000, descriptor_set: 3100 },
            ResourceCommand::FreeBlockMemory { allocation: 3001, descriptor_set: 3101 },
            ResourceCommand::FreeBlockMemory { allocation: 3500, descriptor_set: 3600 },
            ResourceCommand::FreeBlockMemory { allocation: 3501, descriptor_set: 3601 },
            ResourceCommand::DestroyBuffer { buffer: 20 },
            ResourceCommand::DestroyBuffer { buffer: 21 },
        ]
    );
    assert_eq!(release, removed.release_commands());
    assert_eq!(bucket.pipeline_info.block_states, vec![block(128, 1000, 2)]);
    assert_eq!((bucket.pipeline_info.pipeline, bucket.pipeline_info.pipeline_layout), (5, 6));
    assert_eq!(names(&bucket), vec!["a", "c"]);
    let (_, release) = bucket.remove_object("c".to_string());
    assert_eq!(
        release,
        vec![
            ResourceCommand::WaitIdle,
            ResourceCommand::DestroyBuffer { buffer: 30 },
            ResourceCommand::DestroyBuffer { buffer: 31 },
        ]
    );
    let mut expected = copies(1000, 2);
    expected.extend(copies(2000, 2));
    assert_eq!(bucket.destroy_block_state_memory(), expected);
}

#[test]
fn release_of_indirect_and_instanced_objects() {
    let mut bucket = Bucket::new("mixed", pipeline(1));
    bucket.add_static_object(
        "indirect".to_string(),
        StaticState::new(
            "indirect".to_string(),
            ObjectStateBuffers::GOIndirect(IndirectBuffer {
                vertex_buffer: 1,
                index_buffer: 2,
                index_count: 36,
                indirect_buffer: 3,
                indirect_offset: 256,
                indirect_count: 7,
            }),
        ),
        vec![block(16, 7000, 1)],
    );
    let mut instanced = DynamicState::new(
        "instanced".to_string(),
        ObjectStateBuffers::GOInstanced(InstanceBuffer {
            vertex_buffer: 4,
            index_buffer: 5,
            index_count: 6,
            instance_buffer: 8,
            instance_count: 50,
        }),
    );
    instanced.sub_state.enabled = false;
    bucket.add_dynamic_object("instanced".to_string(), instanced, vec![]);
    assert_eq!(
        bucket.objects[0].release_commands(),
        vec![
            ResourceCommand::WaitIdle,
            ResourceCommand::FreeBlockMemory { allocation: 7000, descriptor_set: 7100 },
            ResourceCommand::DestroyBuffer { buffer: 1 },
            ResourceCommand::DestroyBuffer { buffer: 2 },
            ResourceCommand::DestroyBuffer { buffer: 3 },
        ]
    );
    let (_, release) = bucket.remove_object("instanced".to_string());
    assert_eq!(
        release,
        vec![
            ResourceCommand::WaitIdle,
            ResourceCommand::DestroyBuffer { buffer: 4 },
            ResourceCommand::DestroyBuffer { buffer: 5 },
            ResourceCommand::DestroyBuffer { buffer: 8 },
        ]
    );
}

#[test]
fn set_layouts_puts_the_shared_blocks_first() {
    let blocks = vec![block(16, 10, 0), block(32, 20, 0)];
    assert_eq!(vpe::pipeline::set_layouts(&blocks, &vec![7, 8, 9]), vec![910, 920, 7, 8, 9]);
    assert_eq!(vpe::pipeline::set_layouts(&blocks, &Vec::new()), vec![910, 920]);
    assert_eq!(vpe::pipeline::set_layouts(&Vec::new(), &vec![7]), vec![7]);
    assert_eq!(vpe::pipeline::set_layouts(&Vec::new(), &Vec::new()), Vec::<u64>::new());
}

#[test]
fn update_blocks_plans_every_object() {
    let mut bucket = bucket(3);
    let plans = bucket.update_blocks(1, 3);
    let all = UpdatePlan { vertex_buffer: true, index_buffer: true, block_state: Some(1) };
    assert_eq!(plans, vec![all, all, all]);
    let plans = bucket.update_blocks(2, 3);
    let blocks_only = UpdatePlan { vertex_buffer: false, index_buffer: false, block_state: Some(2) };
    assert_eq!(plans, vec![blocks_only, blocks_only, blocks_only]);
    let _ = bucket.update_blocks(0, 3);
    let plans = bucket.update_blocks(1, 3);
    let nothing = UpdatePlan { vertex_buffer: false, index_buffer: false, block_state: None };
    assert_eq!(plans, vec![nothing, nothing, nothing]);
    assert_eq!(names(&bucket), vec!["a", "b", "c"]);
}

#[test]
fn render_draws_every_enabled_object_with_the_sets_of_the_frame() {
    let mut bucket = bucket(2);
    match bucket.get_static_object_us("c") {
        BucketObject::Dynamic(state) => state.sub_state.enabled = false,
        BucketObject::Static(_) => panic!("c is dynamic"),
    }
    assert!(bucket.is_renderable(1));
    let commands = bucket.render(1);
    assert_eq!(
        commands,
        vec![
            DrawCommand::BindPipeline { pipeline: 5 },
            DrawCommand::SetViewport { pipeline: 5 },
            DrawCommand::SetScissor { pipeline: 5 },
            DrawCommand::BindDescriptorSets { layout: 6, sets: vec![1101, 2101] },
            DrawCommand::BindVertexBuffer { buffer: 10 },
            DrawCommand::BindIndexBuffer { buffer: 11 },
            DrawCommand::DrawIndexed { index_count: 6, instance_count: 1 },
            DrawCommand::BindDescriptorSets { layout: 6, sets: vec![1101, 3101, 3601] },
            DrawCommand::BindVertexBuffer { buffer: 20 },
            DrawCommand::BindIndexBuffer { buffer: 21 },
            DrawCommand::DrawIndexed { index_count: 12, instance_count: 1 },
        ]
    );
    let first_frame = bucket.render(0);
    assert_eq!(
        first_frame[3],
        DrawCommand::BindDescriptorSets { layout: 6, sets: vec![1100, 2100] }
    );
}

#[test]
fn render_of_indirect_and_instanced_objects() {
    let mut bucket = Bucket::new("mixed", pipeline(1));
    bucket.add_static_object(
        "indirect".to_string(),
        StaticState::new(
            "indirect".to_string(),
            ObjectStateBuffers::GOIndirect(IndirectBuffer {
                vertex_buffer: 1,
                index_buffer: 2,
                index_count: 36,
                indirect_buffer: 3,
                indirect_offset: 256,
                indirect_count: 7,
            }),
        ),
        vec![],
    );
    bucket.add_dynamic_object(
        "instanced".to_string(),
        DynamicState::new(
            "instanced".to_string(),
            ObjectStateBuffers::GOInstanced(InstanceBuffer {
                vertex_buffer: 4,
                index_buffer: 5,
                index_count: 6,
                instance_buffer: 8,
                instance_count: 50,
            }),
        ),
        vec![],
    );
    assert_eq!(
        bucket.render(0),
        vec![
            DrawCommand::BindPipeline { pipeline: 5 },
            DrawCommand::SetViewport { pipeline: 5 },
            DrawCommand::SetScissor { pipeline: 5 },
            DrawCommand::BindDescriptorSets { layout: 6, sets: vec![1100] },
            DrawCommand::BindVertexBuffer { buffer: 1 },
            DrawCommand::BindIndexBuffer { buffer: 2 },
            DrawCommand::DrawIndexedIndirect { buffer: 3, offset: 256, draw_count: 7, stride: 20 },
            DrawCommand::BindDescriptorSets { layout: 6, sets: vec![1100] },
            DrawCommand::BindVertexBuffer { buffer: 4 },
            DrawCommand::BindIndexBuffer { buffer: 5 },
            DrawCommand::BindInstanceBuffer { buffer: 8 },
            DrawCommand::DrawIndexed { index_count: 6, instance_count: 50 },
        ]
    );
}

#[test]
fn empty_bucket_still_binds_its_pipeline() {
    let bucket = Bucket::new("tiles", pipeline(1));
    assert_eq!(
        bucket.render(0),
        vec![
            DrawCommand::BindPipeline { pipeline: 5 },
            DrawCommand::SetViewport { pipeline: 5 },
            DrawCommand::SetScissor { pipeline: 5 },
        ]
    );
}

#[test]
fn is_renderable_needs_a_copy_for_the_frame() {
    let bucket = bucket(2);
    assert!(bucket.is_renderable(0));
    assert!(bucket.is_renderable(1));
    assert!(!bucket.is_renderable(2));
    let mut short = Bucket::new("tiles", pipeline(2));
    short.add_dynamic_object(
        "a".to_string(),
        DynamicState::new("a".to_string(), indexed(10, 6)),
        vec![block(80, 2000, 1)],
    );
    assert!(short.is_renderable(0));
    assert!(!short.is_renderable(1));
    match short.get_static_object_us("a") {
        BucketObject::Dynamic(state) => state.sub_state.enabled = false,
        BucketObject::Static(_) => panic!("a is dynamic"),
    }
    assert!(short.is_renderable(1));
    match short.get_static_object_us("a") {
        BucketObject::Dynamic(state) => state.sub_state.block_states = None,
        BucketObject::Static(_) => panic!("a is dynamic"),
    }
    assert!(short.is_renderable(0));
    assert!(short.is_renderable(1));
    match short.get_static_object_us("a") {
        BucketObject::Dynamic(state) => state.sub_state.enabled = true,
        BucketObject::Static(_) => panic!("a is dynamic"),
    }
    assert!(!short.is_renderable(0));
}

#[test]
fn a_disabled_object_without_block_states_is_left_out_of_the_frame() {
    let mut bucket = bucket(1);
    match bucket.get_static_object_us("b") {
        BucketObject::Static(state) => {
            state.sub_state.enabled = false;
            state.sub_state.block_states = None;
        }
        BucketObject::Dynamic(_) => panic!("b is static"),
    }
    assert!(bucket.is_renderable(0));
    let commands = bucket.render(0);
    assert_eq!(
        commands,
        vec![
            DrawCommand::BindPipeline { pipeline: 5 },
            DrawCommand::SetViewport { pipeline: 5 },
            DrawCommand::SetScissor { pipeline: 5 },
            DrawCommand::BindDescriptorSets { layout: 6, sets: vec![1100, 2100] },
            DrawCommand::BindVertexBuffer { buffer: 10 },
            DrawCommand::BindIndexBuffer { buffer: 11 },
            DrawCommand::DrawIndexed { index_count: 6, instance_count: 1 },
            DrawCommand::BindDescriptorSets { layout: 6, sets: vec![1100] },
            DrawCommand::BindVertexBuffer { buffer: 30 },
            DrawCommand::BindIndexBuffer { buffer: 31 },
            DrawCommand::DrawIndexed { index_count: 3, instance_count: 1 },
        ]
    );
}

#[test]
fn destroy_block_state_memory_releases_pipeline_then_objects() {
    let mut bucket = bucket(2);
    assert!(!bucket.is_torn_down());
    let released = bucket.destroy_block_state_memory();
    let mut expected = copies(1000, 2);
    expected.extend(copies(2000, 2));
    expected.extend(copies(3000, 2));
    expected.extend(copies(3500, 2));
    assert_eq!(released, expected);
    assert!(bucket.destroy_block_state_memory().is_empty());
    assert_eq!(names(&bucket), vec!["a", "b", "c"]);
    assert_eq!(bucket.block_sizes(), vec![128, 80, 80, 16]);
    assert_eq!(bucket.pipeline_info.block_states[0].layout, 1900);
    assert!(!bucket.is_torn_down());
    assert_eq!(bucket.destroy_pipeline(), (5, 6));
    assert!(bucket.is_torn_down());
}

#[test]
fn recreate_block_state_memory_hands_out_the_supply_in_order() {
    let mut bucket = bucket(2);
    let _ = bucket.destroy_block_state_memory();
    let supply = vec![copies(10, 3), copies(20, 3), copies(30, 3), copies(40, 3)];
    assert!(bucket.takes_supply(&supply, 3));
    let leftover = bucket.recreate_block_state_memory(&supply);
    assert!(leftover.is_empty());
    assert_eq!(bucket.pipeline_info.block_states[0].copies, copies(10, 3));
    assert_eq!(
        bucket.objects[0].object.sub().block_states.as_ref().map(|b| b[0].copies.clone()),
        Some(copies(20, 3))
    );
    let b_blocks = bucket.objects[1].object.sub().block_states.as_ref();
    assert_eq!(b_blocks.map(|b| b[0].copies.clone()), Some(copies(30, 3)));
    assert_eq!(b_blocks.map(|b| b[1].copies.clone()), Some(copies(40, 3)));
    assert!(bucket.is_renderable(2));
    assert!(!bucket.is_renderable(3));
    let mut expected = copies(10, 3);
    expected.extend(copies(20, 3));
    expected.extend(copies(30, 3));
    expected.extend(copies(40, 3));
    assert_eq!(bucket.destroy_block_state_memory(), expected);
}

#[test]
fn recreate_without_destroy_returns_what_was_held() {
    let mut bucket = bucket(1);
    let supply = vec![copies(10, 2), copies(20, 2), copies(30, 2), copies(40, 2)];
    let leftover = bucket.recreate_block_state_memory(&supply);
    let mut expected = copies(1000, 1);
    expected.extend(copies(2000, 1));
    expected.extend(copies(3000, 1));
    expected.extend(copies(3500, 1));
    assert_eq!(leftover, expected);
}

#[test]
fn takes_supply_counts_blocks_and_copies() {
    let bucket = bucket(2);
    let good = vec![copies(10, 3), copies(20, 3), copies(30, 3), copies(40, 3)];
    assert!(bucket.takes_supply(&good, 3));
    assert!(!bucket.takes_supply(&good, 2));
    let short = vec![copies(10, 3), copies(20, 3), copies(30, 3)];
    assert!(!bucket.takes_supply(&short, 3));
    let long = vec![copies(10, 3), copies(20, 3), copies(30, 3), copies(40, 3), copies(50, 3)];
    assert!(!bucket.takes_supply(&long, 3));
    let uneven = vec![copies(10, 3), copies(20, 3), copies(30, 2), copies(40, 3)];
    assert!(!bucket.takes_supply(&uneven, 3));
    assert!(!bucket.takes_supply(&Vec::new(), 3));
    let empty = Bucket::new(
        "e",
        PipelineInfo::new("e", false, ViewportDepthRange::UI, 0, Vec::new()),
    );
    assert!(empty.takes_supply(&Vec::new(), 3));
    assert_eq!(empty.block_sizes(), Vec::<usize>::new());
}

#[test]
fn bucket_pipeline_goes_and_comes() {
    let mut bucket = bucket(2);
    assert_eq!(bucket.destroy_pipeline(), (5, 6));
    assert_eq!(bucket.pipeline_info.pipeline, 0);
    assert_eq!(bucket.destroy_pipeline(), (0, 0));
    bucket.recreate_pipeline(15, 16, Extent2D { width: 1, height: 2 });
    assert_eq!(bucket.pipeline_info.pipeline, 15);
    assert_eq!(bucket.pipeline_info.pipeline_layout, 16);
    assert_eq!(bucket.pipeline_info.scissor, Rect2D { x: 0, y: 0, width: 1, height: 2 });
    assert_eq!(names(&bucket), vec!["a", "b", "c"]);
}
