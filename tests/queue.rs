use rusticl::api::{
    create_command_queue, enqueue_copy_buffer_rect, enqueue_map_buffer, enqueue_unmap_mem_object, enqueue_marker, enqueue_marker_with_wait_list,
    enqueue_ndrange_kernel, enqueue_read_buffer_rect, enqueue_task, enqueue_write_buffer,
    enqueue_write_buffer_rect, finish_queue, flush_queue,
};
use rusticl::cl::{CL_MEM_HOST_NO_ACCESS, CL_MEM_READ_WRITE};
use rusticl::context::{Context, Device};
use rusticl::event::{Command, EventGraph, Queue};
use rusticl::kernel::{internal_args_for, Kernel};
use rusticl::memory::MemStore;
use rusticl::pipe::{PipeCall, PipeContext};
use rusticl::region::CLVec;

fn device() -> Device {
    Device {
        max_mem_alloc: 1 << 20,
        address_bits: 64,
        max_grid_dimensions: 3,
        max_block_sizes: [256, 256, 64],
        image_supported: true,
        image_2d_size: 4096,
        image_3d_size: 512,
        image_buffer_size: 65536,
        image_array_size: 256,
        image_base_address_alignment: 16,
        printf_buffer_size: 64,
        formats: vec![],
    }
}

fn setup() -> (Context, Queue, EventGraph, MemStore, PipeContext) {
    let ctx = Context::new(3, vec![device()]);
    let q = create_command_queue(&ctx, 0, 0).unwrap();
    (ctx, q, EventGraph::new(), MemStore::new(), PipeContext::new())
}

#[test]
fn failed_dependency_propagates_without_running() {
    let (ctx, mut q, mut events, mut mems, mut pipe) = setup();
    let b = mems.create_buffer(&ctx, CL_MEM_READ_WRITE, 8, None).unwrap();
    let bad = Command::WriteBuffer { mem: 99, offset: 0, data: vec![1] };
    let a = events.create_event(3, vec![], bad).unwrap();
    let dep = events
        .create_event(3, vec![a], Command::WriteBuffer { mem: b, offset: 0, data: vec![5] })
        .unwrap();
    q.queue(a);
    q.queue(dep);
    let (n, log) = finish_queue(&mut q, &mut events, &mut mems, &mut pipe);
    assert_eq!(n, 2);
    assert_eq!(events.status(a), Some(-38));
    assert_eq!(events.status(dep), Some(-38));
    assert_eq!(log, vec![a]);
    assert_eq!(mems.get(b).res.as_ref().unwrap()[0], 0);
}

#[test]
fn independent_commands_run_in_submission_order() {
    let (_ctx, mut q, mut events, mut mems, mut pipe) = setup();
    let e0 = enqueue_marker(&mut q, &mut events);
    let e1 = enqueue_marker(&mut q, &mut events);
    let e2 = enqueue_marker(&mut q, &mut events);
    let (n, log) = finish_queue(&mut q, &mut events, &mut mems, &mut pipe);
    assert_eq!(n, 3);
    assert_eq!(log, vec![e0, e1, e2]);
    assert_eq!(events.status(e1), Some(0));
    // Finishing again finds nothing to do.
    assert_eq!(finish_queue(&mut q, &mut events, &mut mems, &mut pipe), (0, vec![]));
}

#[test]
fn drain_stops_at_unresolved_dependency() {
    let (_ctx, mut q, mut events, mut mems, mut pipe) = setup();
    let other = events.create_event(3, vec![], Command::Trivial).unwrap();
    let w = enqueue_marker_with_wait_list(&mut q, &mut events, vec![other]).unwrap();
    let after = enqueue_marker(&mut q, &mut events);
    let (n, log) = finish_queue(&mut q, &mut events, &mut mems, &mut pipe);
    assert_eq!(n, 0);
    assert!(log.is_empty());
    assert_eq!(events.status(w), None);
    // The waiting event and the one after it stay queued.
    assert_eq!(q.len(), 2);
    // Once the other queue runs its event, the rest drains.
    let mut other_q = Queue::new(3, 0, 0);
    other_q.queue(other);
    finish_queue(&mut other_q, &mut events, &mut mems, &mut pipe);
    let (n, log) = finish_queue(&mut q, &mut events, &mut mems, &mut pipe);
    assert_eq!(n, 2);
    assert_eq!(log, vec![w, after]);
    assert_eq!(events.status(after), Some(0));
    assert_eq!(q.len(), 0);
    assert_eq!(enqueue_marker_with_wait_list(&mut q, &mut events, vec![77]), Err(-58));
}

fn kernel() -> Kernel {
    Kernel::new(3, "empty".to_string(), vec![], internal_args_for(false, false), [0, 0, 0])
}

#[test]
fn zero_global_size_skips_the_backend() {
    let (_ctx, mut q, mut events, mut mems, mut pipe) = setup();
    let k = kernel();
    let e = enqueue_ndrange_kernel(
        &mut q, &mut events, &mems, &k, &device(), true, 2, None, Some(vec![8, 0]), None, vec![], 0,
        vec![],
    )
    .unwrap();
    assert!(matches!(events.get(e).command, Command::Trivial));
    finish_queue(&mut q, &mut events, &mut mems, &mut pipe);
    assert_eq!(events.status(e), Some(0));
    assert!(pipe.calls.is_empty());
    assert!(pipe.launches.is_empty());

    let e2 = enqueue_ndrange_kernel(
        &mut q, &mut events, &mems, &k, &device(), true, 1, None, Some(vec![8]), None, vec![], 0,
        vec![],
    )
    .unwrap();
    finish_queue(&mut q, &mut events, &mut mems, &mut pipe);
    assert_eq!(events.status(e2), Some(0));
    assert_eq!(pipe.launches.len(), 1);
    assert_eq!(pipe.launches[0].grid, [8, 1, 1]);
    assert_eq!(pipe.launches[0].block, [1, 1, 1]);
    assert_eq!(pipe.launches[0].input, vec![0u8; 24]);
    assert_eq!(pipe.calls.iter().filter(|c| **c == PipeCall::LaunchGrid).count(), 1);
}

#[test]
fn ndrange_validation_errors() {
    let (_ctx, mut q, mut events, mems, _pipe) = setup();
    let k = kernel();
    let dev = device();
    let mut run = |dim: u32, g: Option<Vec<usize>>, l: Option<Vec<usize>>, built: bool| {
        enqueue_ndrange_kernel(&mut q, &mut events, &mems, &k, &dev, built, dim, None, g, l, vec![], 0, vec![])
    };
    assert_eq!(run(1, Some(vec![4]), None, false), Err(-45));
    assert_eq!(run(0, Some(vec![4]), None, true), Err(-53));
    assert_eq!(run(4, None, None, true), Err(-53));
    assert_eq!(run(2, Some(vec![4]), None, true), Err(-30));
    assert_eq!(run(1, Some(vec![4]), Some(vec![512]), true), Err(-55));
    let mut dev32 = device();
    dev32.address_bits = 32;
    let r = enqueue_ndrange_kernel(&mut q, &mut events, &mems, &k, &dev32, true, 1, Some(vec![10]),
        Some(vec![u32::MAX as usize - 5]), None, vec![], 0, vec![]);
    assert_eq!(r, Err(-56));
    let other = Kernel::new(4, "k".to_string(), vec![], internal_args_for(false, false), [0, 0, 0]);
    let r = enqueue_ndrange_kernel(&mut q, &mut events, &mems, &other, &dev, true, 1, None, None,
        None, vec![], 0, vec![]);
    assert_eq!(r, Err(-34));
    assert!(enqueue_task(&mut q, &mut events, &mems, &k, &dev, true, vec![], 0, vec![]).is_ok());
}

#[test]
fn rect_enqueues_validate_and_run() {
    let (ctx, mut q, mut events, mut mems, mut pipe) = setup();
    let b = mems.create_buffer(&ctx, CL_MEM_READ_WRITE, 64, None).unwrap();
    let region = CLVec::new([2, 2, 1]);
    let zero = CLVec::new([0, 0, 0]);
    let data: Vec<u8> = (1u8..=10).collect();
    let w = enqueue_write_buffer_rect(&mut q, &mut events, &mems, b, 0, &CLVec::new([0, 1, 0]), &zero,
        &region, 4, 0, 0, 0, data, vec![]).unwrap();
    let r = enqueue_read_buffer_rect(&mut q, &mut events, &mems, b, 1, &CLVec::new([0, 1, 0]), &zero,
        &region, 4, 0, 0, 0, 10, vec![w]).unwrap();
    finish_queue(&mut q, &mut events, &mut mems, &mut pipe);
    assert_eq!(&events.get(r).output[0..4], &[1, 2, 3, 4]);
    assert_eq!(events.get(r).output.len(), 10);
    assert_eq!(&mems.get(b).res.as_ref().unwrap()[4..10], &[1, 2, 0, 0, 3, 4]);
    // Out of bounds, bad pitch, closed host access.
    assert_eq!(enqueue_read_buffer_rect(&mut q, &mut events, &mems, b, 0, &CLVec::new([0, 16, 0]),
        &zero, &region, 4, 0, 0, 0, 10, vec![]), Err(-30));
    assert_eq!(enqueue_read_buffer_rect(&mut q, &mut events, &mems, b, 0, &zero, &zero, &region, 1,
        0, 0, 0, 10, vec![]), Err(-30));
    assert_eq!(enqueue_read_buffer_rect(&mut q, &mut events, &mems, b, 2, &zero, &zero, &region, 0,
        0, 0, 0, 10, vec![]), Err(-30));
    assert_eq!(enqueue_read_buffer_rect(&mut q, &mut events, &mems, b, 0, &zero, &zero, &region, 0,
        0, 0, 0, 9, vec![]), Err(-30));
    let hidden = mems.create_buffer(&ctx, CL_MEM_HOST_NO_ACCESS, 64, None).unwrap();
    assert_eq!(enqueue_write_buffer(&mut q, &mut events, &mems, hidden, 0, 0, vec![1], vec![]), Err(-59));
    assert!(flush_queue(&mut q).is_empty());
}

#[test]
fn copy_rect_refuses_overlap() {
    let (ctx, mut q, mut events, mut mems, mut pipe) = setup();
    let b = mems.create_buffer(&ctx, CL_MEM_READ_WRITE, 64, None).unwrap();
    let s1 = mems.create_sub_buffer(b, 0, 0, 48).unwrap();
    let s2 = mems.create_sub_buffer(b, 0, 8, 48).unwrap();
    let region = CLVec::new([8, 2, 1]);
    let zero = CLVec::new([0, 0, 0]);
    assert_eq!(enqueue_copy_buffer_rect(&mut q, &mut events, &mems, s1, s2, &zero, &zero, &region,
        8, 0, 8, 0, vec![]), Err(-8));
    assert_eq!(enqueue_copy_buffer_rect(&mut q, &mut events, &mems, b, b, &zero, &zero, &region, 8,
        0, 8, 0, vec![]), Err(-8));
    let c = mems.create_buffer(&ctx, CL_MEM_READ_WRITE, 64, None).unwrap();
    mems.write_from_user(b, 0, &(1u8..=16).collect::<Vec<u8>>());
    let e = enqueue_copy_buffer_rect(&mut q, &mut events, &mems, b, c, &zero, &zero, &region, 8, 0,
        8, 0, vec![]).unwrap();
    finish_queue(&mut q, &mut events, &mut mems, &mut pipe);
    assert_eq!(events.status(e), Some(0));
    assert_eq!(&mems.get(c).res.as_ref().unwrap()[0..16], &(1u8..=16).collect::<Vec<u8>>()[..]);
}

#[test]
fn queue_creation_rules() {
    let ctx = Context::new(3, vec![device()]);
    assert!(matches!(create_command_queue(&ctx, 1, 0), Err(-33)));
    assert!(matches!(create_command_queue(&ctx, 0, 4), Err(-30)));
    assert!(matches!(create_command_queue(&ctx, 0, 1), Err(-35)));
    let q = create_command_queue(&ctx, 0, 2).unwrap();
    assert_eq!(q.context(), 3);
    assert_eq!(q.device(), 0);
}

#[test]
fn blocking_map_then_unmap() {
    let (ctx, mut q, mut events, mut mems, mut pipe) = setup();
    let b = mems.create_buffer(&ctx, CL_MEM_READ_WRITE, 32, None).unwrap();
    let m = enqueue_marker(&mut q, &mut events);
    let addr = enqueue_map_buffer(&mut q, &mut events, &mut mems, &mut pipe, b, 1, 1, 0, 16, vec![]).unwrap();
    assert_eq!(events.status(m), Some(0));
    assert_eq!(enqueue_map_buffer(&mut q, &mut events, &mut mems, &mut pipe, b, 0, 1, 0, 16, vec![]), Err(-12));
    assert_eq!(enqueue_map_buffer(&mut q, &mut events, &mut mems, &mut pipe, b, 1, 1, 20, 16, vec![]), Err(-30));
    assert_eq!(enqueue_map_buffer(&mut q, &mut events, &mut mems, &mut pipe, b, 1, 5, 0, 16, vec![]), Err(-30));
    assert_eq!(enqueue_unmap_mem_object(&q, &events, &mut mems, b, addr + 1, &vec![]), Err(-30));
    assert_eq!(enqueue_unmap_mem_object(&q, &events, &mut mems, b, addr, &vec![m]), Err(-6));
    assert_eq!(mems.get(b).maps.len(), 1);
    assert_eq!(enqueue_unmap_mem_object(&q, &events, &mut mems, b, addr, &vec![]), Ok(()));
    assert_eq!(enqueue_unmap_mem_object(&q, &events, &mut mems, b, addr, &vec![]), Err(-30));
}

#[test]
fn blocking_map_refuses_while_queue_waits() {
    let (ctx, mut q, mut events, mut mems, mut pipe) = setup();
    let b = mems.create_buffer(&ctx, CL_MEM_READ_WRITE, 32, None).unwrap();
    let other = events.create_event(3, vec![], Command::Trivial).unwrap();
    let w = enqueue_marker_with_wait_list(&mut q, &mut events, vec![other]).unwrap();
    assert_eq!(enqueue_map_buffer(&mut q, &mut events, &mut mems, &mut pipe, b, 1, 1, 0, 16, vec![]), Err(-12));
    assert_eq!(q.len(), 1);
    assert_eq!(events.status(w), None);
    assert!(mems.get(b).maps.is_empty());
}
