use chizumu_graphics::command::CommandBuffer;
use chizumu_graphics::device::{AcquireAction, AcquireOutcome, Device, FramePhase};
use chizumu_graphics::error::GpuError;
use chizumu_graphics::frame::{FrameCounters, MAX_FRAMES};
use chizumu_graphics::resource::{BufferDescriptor, MemoryLocation};

fn run_frame(device: &mut Device) -> chizumu_graphics::device::PresentStep {
    device.frame_begin().unwrap();
    assert_eq!(device.image_acquisition(AcquireOutcome::Acquired), Ok(AcquireAction::Proceed));
    let cb = device.get_current_command_buffer().unwrap();
    device.queue_submit_commands_graphics(cb).unwrap();
    device.swapchain_present(false).unwrap()
}

#[test]
fn frame_counters_advance_one_per_present_and_cycle() {
    let mut device = Device::new();
    for n in 0..7u64 {
        assert_eq!(device.absolute_frame(), n);
        assert_eq!(device.current_frame_index() as u64, n % MAX_FRAMES as u64);
        run_frame(&mut device);
        assert_eq!(device.absolute_frame(), n + 1);
        assert_eq!(device.previous_frame_index() as u64, n % MAX_FRAMES as u64);
        assert_eq!(device.current_frame_index() as u64, (n + 1) % MAX_FRAMES as u64);
    }
}

#[test]
fn frame_counters_advance_by_hand() {
    let mut c = FrameCounters::new();
    c.advance();
    assert_eq!((c.current, c.previous, c.absolute), (1, 0, 1));
    c.advance();
    assert_eq!((c.current, c.previous, c.absolute), (0, 1, 2));
    assert_eq!(c.graphics_wait_value(), 1);
}

#[test]
fn calls_other_than_present_leave_counters_alone() {
    let mut device = Device::new();
    device.frame_begin().unwrap();
    device.image_acquisition(AcquireOutcome::Acquired).unwrap();
    let cb = device.get_current_command_buffer().unwrap();
    device.queue_submit_commands_graphics(cb).unwrap();
    assert_eq!(device.absolute_frame(), 0);
    assert_eq!(device.current_frame_index(), 0);
}

#[test]
fn frame_begin_twice_without_submit_waits_for_nothing() {
    let mut device = Device::new();
    let first = device.frame_begin().unwrap();
    assert_eq!(first.wait_timeline_value, None);
    assert_eq!(first.reset_pool, 0);
    let second = device.frame_begin().unwrap();
    assert_eq!(second.wait_timeline_value, None);
    assert_eq!(second.reset_pool, 0);
    assert_eq!(device.phase(), FramePhase::Acquiring);
}

#[test]
fn frame_begin_waits_for_the_slot_previous_occupant() {
    let mut device = Device::new();
    run_frame(&mut device);
    let plan = device.frame_begin().unwrap();
    assert_eq!(plan.wait_timeline_value, None);
    assert_eq!(plan.reset_pool, 1);
    device.image_acquisition(AcquireOutcome::Acquired).unwrap();
    let cb = device.get_current_command_buffer().unwrap();
    assert_eq!(cb.index, 1);
    let submit = device.queue_submit_commands_graphics(cb).unwrap();
    assert_eq!(submit.timeline_signal_value, 2);
    assert_eq!(submit.render_complete_semaphore, 1);
    device.swapchain_present(false).unwrap();
    let plan = device.frame_begin().unwrap();
    assert_eq!(plan.wait_timeline_value, Some(1));
    assert_eq!(plan.reset_pool, 0);
    assert!(plan.wait_timeline_value.unwrap() <= device.timeline_signaled());
    assert_eq!(device.timeline_completed(), 1);
}

#[test]
fn frame_begin_refused_while_submitted() {
    let mut device = Device::new();
    device.frame_begin().unwrap();
    device.image_acquisition(AcquireOutcome::Acquired).unwrap();
    let cb = device.get_current_command_buffer().unwrap();
    device.queue_submit_commands_graphics(cb).unwrap();
    assert_eq!(device.frame_begin(), Err(GpuError::InvalidFrameState));
}

#[test]
fn acquire_failure_recreates_once_then_errors() {
    let mut device = Device::new();
    device.frame_begin().unwrap();
    let mut recreations = 0;
    let first = device.image_acquisition(AcquireOutcome::Failed);
    if first == Ok(AcquireAction::RecreateAndRetry) {
        recreations += 1;
    }
    let second = device.image_acquisition(AcquireOutcome::Failed);
    if second == Ok(AcquireAction::RecreateAndRetry) {
        recreations += 1;
    }
    assert_eq!(recreations, 1);
    assert_eq!(second, Err(GpuError::AcquireFailed));
    assert_eq!(device.phase(), FramePhase::Idle);
    assert_eq!(device.image_acquisition(AcquireOutcome::Failed), Err(GpuError::InvalidFrameState));
}

#[test]
fn acquire_suboptimal_recreates_and_retry_proceeds() {
    let mut device = Device::new();
    device.frame_begin().unwrap();
    assert_eq!(device.image_acquisition(AcquireOutcome::Suboptimal), Ok(AcquireAction::RecreateAndRetry));
    assert_eq!(device.phase(), FramePhase::Reacquiring);
    assert_eq!(device.image_acquisition(AcquireOutcome::Suboptimal), Ok(AcquireAction::Proceed));
    assert_eq!(device.phase(), FramePhase::Recording);
}

#[test]
fn submit_checks_phase_and_command_buffer() {
    let mut device = Device::new();
    assert_eq!(device.queue_submit_commands_graphics(CommandBuffer { index: 0 }), Err(GpuError::InvalidFrameState));
    device.frame_begin().unwrap();
    device.image_acquisition(AcquireOutcome::Acquired).unwrap();
    assert_eq!(device.queue_submit_commands_graphics(CommandBuffer { index: 0 }), Err(GpuError::StaleCommandBuffer));
    let cb = device.get_current_command_buffer().unwrap();
    assert_eq!(device.get_current_command_buffer(), Err(GpuError::CommandBuffersExhausted));
    assert_eq!(device.queue_submit_commands_graphics(CommandBuffer { index: cb.index + 1 }), Err(GpuError::StaleCommandBuffer));
    let plan = device.queue_submit_commands_graphics(cb).unwrap();
    assert_eq!(plan.command_buffer, cb);
    assert_eq!(plan.timeline_signal_value, 1);
    assert_eq!(device.timeline_signaled(), 1);
}

#[test]
fn present_requires_a_submitted_frame() {
    let mut device = Device::new();
    assert!(device.swapchain_present(false).is_err());
    device.frame_begin().unwrap();
    assert!(device.swapchain_present(false).is_err());
    assert_eq!(device.absolute_frame(), 0);
}

#[test]
fn failed_present_asks_for_idle_wait_and_still_advances() {
    let mut device = Device::new();
    device.frame_begin().unwrap();
    device.image_acquisition(AcquireOutcome::Acquired).unwrap();
    let cb = device.get_current_command_buffer().unwrap();
    device.queue_submit_commands_graphics(cb).unwrap();
    let step = device.swapchain_present(true).unwrap();
    assert!(step.wait_device_idle);
    assert_eq!(device.absolute_frame(), 1);
    assert_eq!(device.phase(), FramePhase::Idle);
}

#[test]
fn retired_buffer_waits_a_full_cycle_before_release() {
    let mut device = Device::new();
    let desc = BufferDescriptor { size: 16, usage_flags: 0x80, memory_location: MemoryLocation::GpuOnly };
    let buffer = device.create_buffer(&desc, true).unwrap();
    let id = buffer.id();
    device.retire_buffer(buffer);
    assert_eq!(device.pending_destruction_buffers().len(), 1);
    assert_eq!(device.pending_destruction_buffers()[0].retired_at, 0);
    assert!(run_frame(&mut device).released.is_empty());
    assert!(run_frame(&mut device).released.is_empty());
    assert_eq!(device.pending_destruction_buffers().len(), 1);
    let step = run_frame(&mut device);
    assert_eq!(step.released.len(), 1);
    assert_eq!(step.released[0].buffer_id, id);
    assert!(step.released[0].retired_at + MAX_FRAMES as u64 + 1 <= device.absolute_frame());
    assert!(device.pending_destruction_buffers().is_empty());
}

#[test]
fn teardown_releases_everything_pending() {
    let mut device = Device::new();
    let desc = BufferDescriptor { size: 4, usage_flags: 0x10, memory_location: MemoryLocation::CpuToGpu };
    let a = device.create_buffer(&desc, true).unwrap();
    let b = device.create_buffer(&desc, true).unwrap();
    let (ia, ib) = (a.id(), b.id());
    device.retire_buffer(a);
    device.retire_buffer(b);
    let drained = device.cleanup_after_device_idle();
    assert_eq!(drained.len(), 2);
    assert_eq!(drained[0].buffer_id, ia);
    assert_eq!(drained[1].buffer_id, ib);
    assert!(device.pending_destruction_buffers().is_empty());
}
