use vstd::prelude::*;

use crate::command::{acquire_step, names_pool, CommandBuffer, CommandBufferManager, CommandBufferUsage};
use crate::descriptor::{
    bound_after, binding_position, first_write_fault, has_repeated_binding, DescriptorBindingBufferWrite,
    DescriptorBindingWrites, DescriptorSet, DescriptorSetLayout, DescriptorSetLayoutBinding,
    DescriptorSetLayoutDescriptor, DescriptorWrite,
};
use crate::error::GpuError;
use crate::frame::{next_slot, FrameCounters, MAX_FRAMES};
use crate::pipeline::{pipeline_fault, validate_pipeline, Pipeline, PipelineDescriptor};
use crate::resource::{
    Buffer, BufferDescriptor, PendingDestructionBuffer, BUFFER_USAGE_TRANSFER_DST, BUFFER_USAGE_TRANSFER_SRC,
};

verus! {

/// Number of command buffers each frame slot's pool provides per frame.
pub const COMMAND_BUFFERS_PER_FRAME: u32 = 1;

/// Number of descriptor sets the global descriptor pool can hand out.
pub const GLOBAL_DESCRIPTOR_POOL_MAX_SETS: u64 = 2048;

/// Number of descriptors of each pool size entry of the global descriptor pool.
pub const GLOBAL_DESCRIPTOR_POOL_DESCRIPTOR_COUNT: u32 = 128;

/// Where the device stands in the cycle of one frame.
#[derive(Debug, Clone, Copy, PartialEq, Eq, Structural)]
pub enum FramePhase {
    /// Between frames.
    Idle,
    /// Waiting for the first attempt to acquire a swapchain image.
    Acquiring,
    /// The swapchain was recreated; waiting for the second and last attempt.
    Reacquiring,
    /// An image is acquired and commands are being recorded.
    Recording,
    /// The frame's commands are submitted and wait to be presented.
    Submitted,
}

/// How an attempt to acquire a swapchain image went.
#[derive(Debug, Clone, Copy, PartialEq, Eq, Structural)]
pub enum AcquireOutcome {
    /// An image was acquired and the swapchain matches the surface.
    Acquired,
    /// An image was acquired but the swapchain no longer matches the surface.
    Suboptimal,
    /// No image could be acquired (for instance, the surface is out of date).
    Failed,
}

/// What the caller does after reporting an acquisition.
#[derive(Debug, Clone, Copy, PartialEq, Eq, Structural)]
pub enum AcquireAction {
    /// Go on and record the frame.
    Proceed,
    /// Recreate the swapchain, then try to acquire once more.
    RecreateAndRetry,
}

/// The work that starts a frame, in this order: wait until the graphics
/// timeline semaphore reaches `wait_timeline_value` (when there is one), reset
/// command pool `reset_pool`, then acquire a swapchain image.
#[derive(Debug, Clone, Copy, PartialEq, Eq, Structural)]
pub struct FrameBeginPlan {
    pub wait_timeline_value: Option<u64>,
    pub reset_pool: usize,
}

/// The submission of a frame's commands: run `command_buffer` after the
/// image-acquired semaphore, then signal render-complete semaphore
/// `render_complete_semaphore` and raise the graphics timeline semaphore to
/// `timeline_signal_value`.
#[derive(Debug, Clone, Copy, PartialEq, Eq, Structural)]
pub struct SubmitPlan {
    pub command_buffer: CommandBuffer,
    pub render_complete_semaphore: usize,
    pub timeline_signal_value: u64,
}

/// The work that ends a frame: when `wait_device_idle` holds the present
/// failed and the whole device is waited for, then the buffers in `released`
/// are destroyed and their memory returned to the allocator.
pub struct PresentStep {
    pub wait_device_idle: bool,
    pub released: Vec<PendingDestructionBuffer>,
}

/// What the device is: its frame counters and frame phase, the timeline values
/// signaled by submissions and known to be reached, the command buffers handed
/// out, the buffers waiting for destruction, the descriptor sets allocated and
/// the next resource identifier.
pub struct DeviceView {
    pub current: nat,
    pub previous: nat,
    pub absolute: nat,
    pub phase: FramePhase,
    pub signaled: nat,
    pub completed: nat,
    pub command_buffers: CommandBufferUsage,
    pub pending: Seq<PendingDestructionBuffer>,
    pub descriptor_sets_allocated: nat,
    pub next_resource_id: nat,
}

/// A buffer retired during frame `retired_at` may be released once the GPU
/// has finished that frame, which the timeline shows by reaching
/// `retired_at + 1`.
pub open spec fn releasable(e: PendingDestructionBuffer, completed: nat) -> bool {
    e.retired_at < completed
}

/// The entries of `pending` that may be released, in queue order.
pub open spec fn released_of(pending: Seq<PendingDestructionBuffer>, completed: nat) -> Seq<PendingDestructionBuffer>
    decreases pending.len(),
{
    if pending.len() == 0 {
        pending
    } else if releasable(pending.last(), completed) {
        released_of(pending.drop_last(), completed).push(pending.last())
    } else {
        released_of(pending.drop_last(), completed)
    }
}

/// The entries of `pending` that must still wait, in queue order.
pub open spec fn kept_of(pending: Seq<PendingDestructionBuffer>, completed: nat) -> Seq<PendingDestructionBuffer>
    decreases pending.len(),
{
    if pending.len() == 0 {
        pending
    } else if releasable(pending.last(), completed) {
        kept_of(pending.drop_last(), completed)
    } else {
        kept_of(pending.drop_last(), completed).push(pending.last())
    }
}

/// The timeline value a frame begun at `absolute` waits for before reusing its
/// slot: none for the first `MAX_FRAMES` frames, which have no predecessor in
/// their slot.
pub open spec fn frame_wait_value(absolute: nat) -> Option<nat> {
    if absolute >= MAX_FRAMES {
        Some((absolute - (MAX_FRAMES - 1)) as nat)
    } else {
        None
    }
}

/// One acquisition report in `phase`: the next phase, and the answer.
pub open spec fn acquisition_step(phase: FramePhase, outcome: AcquireOutcome) -> (FramePhase, Result<AcquireAction, GpuError>) {
    match phase {
        FramePhase::Acquiring => if outcome == AcquireOutcome::Acquired {
            (FramePhase::Recording, Ok(AcquireAction::Proceed))
        } else {
            (FramePhase::Reacquiring, Ok(AcquireAction::RecreateAndRetry))
        },
        FramePhase::Reacquiring => if outcome == AcquireOutcome::Failed {
            (FramePhase::Idle, Err(GpuError::AcquireFailed))
        } else {
            (FramePhase::Recording, Ok(AcquireAction::Proceed))
        },
        _ => (phase, Err(GpuError::InvalidFrameState)),
    }
}

impl DeviceView {
    pub open spec fn wf(self) -> bool {
        &&& self.current == self.absolute % (MAX_FRAMES as nat)
        &&& self.previous == if self.absolute == 0 {
            0
        } else {
            ((self.absolute - 1) as nat) % (MAX_FRAMES as nat)
        }
        &&& self.command_buffers.wf()
        &&& self.command_buffers.used.len() == MAX_FRAMES
        &&& self.command_buffers.buffers_per_pool == COMMAND_BUFFERS_PER_FRAME
        &&& self.completed <= self.signaled
        &&& if self.phase == FramePhase::Submitted {
            self.signaled == self.absolute + 1 && self.absolute + 2 < u64::MAX
        } else {
            self.signaled == self.absolute
        }
        &&& self.completed > 0 ==> self.completed + (MAX_FRAMES - 1) <= self.absolute
        &&& forall|k: int| 0 <= k < self.pending.len() ==> #[trigger] self.pending[k].retired_at <= self.absolute
        &&& self.descriptor_sets_allocated <= GLOBAL_DESCRIPTOR_POOL_MAX_SETS
    }
}

/// The frame synchronisation and resource lifetime engine.
///
/// One frame goes `frame_begin`, `image_acquisition` (twice when the swapchain
/// is recreated), `get_current_command_buffer`, `queue_submit_commands_graphics`,
/// `swapchain_present`. The device keeps at most `MAX_FRAMES` frames in
/// flight: a frame waits on the graphics timeline for the frame that last used
/// its slot. Retired buffers are released at a present only when the timeline
/// has shown that the GPU finished the frame in which they were retired.
pub struct Device {
    counters: FrameCounters,
    phase: FramePhase,
    signaled: u64,
    completed: u64,
    command_buffer_manager: CommandBufferManager,
    pending_destruction_buffers: Vec<PendingDestructionBuffer>,
    descriptor_sets_allocated: u64,
    next_resource_id: u64,
}

impl View for Device {
    type V = DeviceView;

    closed spec fn view(&self) -> DeviceView {
        DeviceView {
            current: self.counters.current as nat,
            previous: self.counters.previous as nat,
            absolute: self.counters.absolute as nat,
            phase: self.phase,
            signaled: self.signaled as nat,
            completed: self.completed as nat,
            command_buffers: self.command_buffer_manager@,
            pending: self.pending_destruction_buffers@,
            descriptor_sets_allocated: self.descriptor_sets_allocated as nat,
            next_resource_id: self.next_resource_id as nat,
        }
    }
}

impl Device {
    pub closed spec fn wf(&self) -> bool {
        &&& self@.wf()
        &&& self.command_buffer_manager.wf()
    }

    /// A well-formed device has a well-formed view, so the laws stated over
    /// `DeviceView` apply to it.
    pub proof fn lemma_view_wf(&self)
        requires
            self.wf(),
        ensures
            self@.wf(),
    {
    }

    /// A device at its first frame, with nothing submitted, retired or
    /// allocated.
    pub fn new() -> (r: Device)
        ensures
            r.wf(),
            r@.current == 0,
            r@.previous == 0,
            r@.absolute == 0,
            r@.phase == FramePhase::Idle,
            r@.signaled == 0,
            r@.completed == 0,
            r@.wf(),
            r@.command_buffers.buffers_per_pool == COMMAND_BUFFERS_PER_FRAME,
            r@.command_buffers.used == Seq::new(MAX_FRAMES as nat, |p: int| 0nat),
            r@.pending.len() == 0,
            r@.descriptor_sets_allocated == 0,
            r@.next_resource_id == 0,
    {
        Device {
            counters: FrameCounters::new(),
            phase: FramePhase::Idle,
            signaled: 0,
            completed: 0,
            command_buffer_manager: CommandBufferManager::new(MAX_FRAMES, COMMAND_BUFFERS_PER_FRAME),
            pending_destruction_buffers: Vec::new(),
            descriptor_sets_allocated: 0,
            next_resource_id: 0,
        }
    }

    pub fn current_frame_index(&self) -> (r: usize)
        requires
            self.wf(),
        ensures
            r == self@.current,
            r < MAX_FRAMES,
    {
        self.counters.current as usize
    }

    pub fn previous_frame_index(&self) -> (r: usize)
        requires
            self.wf(),
        ensures
            r == self@.previous,
            r < MAX_FRAMES,
    {
        self.counters.previous as usize
    }

    /// Number of frames presented so far.
    pub fn absolute_frame(&self) -> (r: u64)
        ensures
            r == self@.absolute,
    {
        self.counters.absolute
    }

    pub fn phase(&self) -> (r: FramePhase)
        ensures
            r == self@.phase,
    {
        self.phase
    }

    /// Highest value that a submission asked the graphics timeline to reach.
    pub fn timeline_signaled(&self) -> (r: u64)
        ensures
            r == self@.signaled,
    {
        self.signaled
    }

    /// Highest value of the graphics timeline that a frame has waited for.
    pub fn timeline_completed(&self) -> (r: u64)
        ensures
            r == self@.completed,
    {
        self.completed
    }

    pub fn pending_destruction_buffers(&self) -> (r: &[PendingDestructionBuffer])
        ensures
            r@ == self@.pending,
    {
        self.pending_destruction_buffers.as_slice()
    }

    pub fn descriptor_sets_allocated(&self) -> (r: u64)
        ensures
            r == self@.descriptor_sets_allocated,
    {
        self.descriptor_sets_allocated
    }
    /// Takes the next resource identifier.
    fn take_resource_id(&mut self) -> (r: Result<u64, GpuError>)
        requires
            old(self).wf(),
        ensures
            final(self).wf(),
            old(self)@.next_resource_id == u64::MAX <==> r is Err,
            r is Err ==> r == Err::<u64, GpuError>(GpuError::ResourceIdsExhausted) && final(self)@ == old(self)@,
            r is Ok ==> r.unwrap() == old(self)@.next_resource_id
                && final(self)@ == (DeviceView { next_resource_id: old(self)@.next_resource_id + 1, ..old(self)@ }),
    {
        if self.next_resource_id == u64::MAX {
            return Err(GpuError::ResourceIdsExhausted);
        }
        let id = self.next_resource_id;
        self.next_resource_id = id + 1;
        Ok(id)
    }

    /// Registers a buffer as `desc` asks for it. `memory_granted` says whether
    /// the memory allocator could back it. Fails for a buffer of zero bytes,
    /// for one the allocator could not back (or whose mapping would not fit in
    /// the address space), and when identifiers are spent.
    pub fn create_buffer(&mut self, desc: &BufferDescriptor, memory_granted: bool) -> (r: Result<Buffer, GpuError>)
        requires
            old(self).wf(),
        ensures
            final(self).wf(),
            desc.size == 0 ==> r == Err::<Buffer, GpuError>(GpuError::ZeroSizedBuffer),
            desc.size > 0 && (!memory_granted || desc.size > usize::MAX)
                ==> r == Err::<Buffer, GpuError>(GpuError::OutOfDeviceMemory),
            desc.size > 0 && memory_granted && desc.size <= usize::MAX && old(self)@.next_resource_id == u64::MAX
                ==> r == Err::<Buffer, GpuError>(GpuError::ResourceIdsExhausted),
            desc.size > 0 && memory_granted && desc.size <= usize::MAX && old(self)@.next_resource_id < u64::MAX
                ==> r is Ok,
            r is Err ==> final(self)@ == old(self)@,
            r is Ok ==> {
                let b = r.unwrap();
                &&& b.wf()
                &&& b@.id == old(self)@.next_resource_id
                &&& b@.size == desc.size
                &&& b@.usage_flags == desc.usage_flags | BUFFER_USAGE_TRANSFER_SRC | BUFFER_USAGE_TRANSFER_DST
                &&& b@.memory_location == desc.memory_location
                &&& b@.mapped is Some ==> b@.mapped.unwrap() == Seq::new(desc.size as nat, |i: int| 0u8)
                &&& final(self)@ == (DeviceView { next_resource_id: old(self)@.next_resource_id + 1, ..old(self)@ })
            },
    {
        if desc.size == 0 {
            return Err(GpuError::ZeroSizedBuffer);
        }
        if !memory_granted || desc.size > usize::MAX as u64 {
            return Err(GpuError::OutOfDeviceMemory);
        }
        let id = self.take_resource_id()?;
        Ok(Buffer::new(id, desc))
    }

    /// Creates a descriptor set layout from `desc`. Fails when a binding index
    /// occurs twice, and when identifiers are spent.
    pub fn create_descriptor_set_layout(&mut self, desc: &DescriptorSetLayoutDescriptor) -> (r: Result<DescriptorSetLayout, GpuError>)
        requires
            old(self).wf(),
        ensures
            final(self).wf(),
            has_repeated_binding(desc.bindings@) ==> r == Err::<DescriptorSetLayout, GpuError>(GpuError::DuplicateBinding),
            !has_repeated_binding(desc.bindings@) && old(self)@.next_resource_id == u64::MAX
                ==> r == Err::<DescriptorSetLayout, GpuError>(GpuError::ResourceIdsExhausted),
            !has_repeated_binding(desc.bindings@) && old(self)@.next_resource_id < u64::MAX ==> r is Ok,
            r is Err ==> final(self)@ == old(self)@,
            r is Ok ==> {
                let l = r.unwrap();
                &&& l.wf()
                &&& l.spec_id() == old(self)@.next_resource_id
                &&& l.spec_bindings() == desc.bindings@
                &&& final(self)@ == (DeviceView { next_resource_id: old(self)@.next_resource_id + 1, ..old(self)@ })
            },
    {
        let layout = DescriptorSetLayout::new(self.next_resource_id, &desc.bindings)?;
        if self.next_resource_id == u64::MAX {
            return Err(GpuError::ResourceIdsExhausted);
        }
        self.next_resource_id = self.next_resource_id + 1;
        Ok(layout)
    }

    /// Registers a descriptor set of `layout` allocated from the global
    /// descriptor pool, with nothing bound. `pool_granted` says whether the
    /// pool could hand out the set. Fails when the pool's set budget is spent
    /// or the pool refused, and when identifiers are spent; a failure counts
    /// nothing against the budget.
    pub fn create_descriptor_set(&mut self, layout: &DescriptorSetLayout, pool_granted: bool) -> (r: Result<DescriptorSet, GpuError>)
        requires
            old(self).wf(),
            layout.wf(),
        ensures
            final(self).wf(),
            old(self)@.descriptor_sets_allocated == GLOBAL_DESCRIPTOR_POOL_MAX_SETS || !pool_granted
                ==> r == Err::<DescriptorSet, GpuError>(GpuError::DescriptorPoolExhausted),
            old(self)@.descriptor_sets_allocated < GLOBAL_DESCRIPTOR_POOL_MAX_SETS && pool_granted
                && old(self)@.next_resource_id == u64::MAX
                ==> r == Err::<DescriptorSet, GpuError>(GpuError::ResourceIdsExhausted),
            old(self)@.descriptor_sets_allocated < GLOBAL_DESCRIPTOR_POOL_MAX_SETS && pool_granted
                && old(self)@.next_resource_id < u64::MAX
                ==> r is Ok,
            r is Err ==> final(self)@ == old(self)@,
            r is Ok ==> {
                let set = r.unwrap();
                &&& set.wf()
                &&& set.spec_id() == old(self)@.next_resource_id
                &&& set.spec_layout_id() == layout.spec_id()
                &&& set.spec_layout() == layout.spec_bindings()
                &&& forall|i: int| 0 <= i < set.spec_bound().len() ==> #[trigger] set.spec_bound()[i] is None
                &&& final(self)@ == (DeviceView {
                    next_resource_id: old(self)@.next_resource_id + 1,
                    descriptor_sets_allocated: old(self)@.descriptor_sets_allocated + 1,
                    ..old(self)@
                })
            },
    {
        if self.descriptor_sets_allocated >= GLOBAL_DESCRIPTOR_POOL_MAX_SETS || !pool_granted {
            return Err(GpuError::DescriptorPoolExhausted);
        }
        let id = self.take_resource_id()?;
        self.descriptor_sets_allocated = self.descriptor_sets_allocated + 1;
        Ok(DescriptorSet::new(id, layout))
    }

    /// Binds buffers to `descriptor_set`, all writes or none: a write to a
    /// binding the layout lacks, or to a binding that is not a uniform or
    /// storage buffer, fails the call and leaves every binding as it was. On
    /// success the result lists the writes for the graphics API.
    pub fn update_descriptor_set(&self, descriptor_set: &mut DescriptorSet, writes: &DescriptorBindingWrites) -> (r: Result<Vec<DescriptorWrite>, GpuError>)
        requires
            old(descriptor_set).wf(),
        ensures
            final(descriptor_set).wf(),
            final(descriptor_set).spec_id() == old(descriptor_set).spec_id(),
            final(descriptor_set).spec_layout() == old(descriptor_set).spec_layout(),
            final(descriptor_set).spec_layout_id() == old(descriptor_set).spec_layout_id(),
            match first_write_fault(old(descriptor_set).spec_layout(), writes.buffers@) {
                Some(e) => r == Err::<Vec<DescriptorWrite>, GpuError>(e)
                    && final(descriptor_set).spec_bound() == old(descriptor_set).spec_bound(),
                None => r is Ok,
            },
            r is Ok ==> forall|i: int| 0 <= i < old(descriptor_set).spec_layout().len() ==>
                #[trigger] final(descriptor_set).spec_bound()[i] == bound_after(
                    old(descriptor_set).spec_bound()[i], old(descriptor_set).spec_layout()[i].binding, writes.buffers@),
            r is Ok ==> r.unwrap()@.len() == writes.buffers@.len(),
            r is Ok ==> forall|k: int| 0 <= k < writes.buffers@.len() ==> ({
                let w = #[trigger] writes.buffers@[k];
                let p = binding_position(old(descriptor_set).spec_layout(), w.binding_index).unwrap();
                r.unwrap()@[k] == DescriptorWrite {
                    set_id: old(descriptor_set).spec_id(),
                    binding: w.binding_index,
                    descriptor_type: old(descriptor_set).spec_layout()[p].descriptor_type,
                    buffer_id: w.buffer_id,
                    offset: 0,
                    range: w.buffer_size,
                }
            }),
    {
        descriptor_set.apply_writes(writes)
    }

    /// Creates a graphics pipeline from `desc`, or reports the first fault of
    /// the description. Fails too when identifiers are spent.
    pub fn create_pipeline(&mut self, desc: PipelineDescriptor) -> (r: Result<Pipeline, GpuError>)
        requires
            old(self).wf(),
        ensures
            final(self).wf(),
            pipeline_fault(desc) is Some ==> r == Err::<Pipeline, GpuError>(pipeline_fault(desc).unwrap()),
            pipeline_fault(desc) is None && old(self)@.next_resource_id == u64::MAX
                ==> r == Err::<Pipeline, GpuError>(GpuError::ResourceIdsExhausted),
            pipeline_fault(desc) is None && old(self)@.next_resource_id < u64::MAX ==> r is Ok,
            r is Err ==> final(self)@ == old(self)@,
            r is Ok ==> {
                let p = r.unwrap();
                &&& p.spec_id() == old(self)@.next_resource_id
                &&& p.spec_layouts() == desc.descriptor_set_layouts@
                &&& p.spec_color_formats() == desc.color_attachment_formats@
                &&& p.spec_depth_format() == desc.depth_attachment_format
                &&& final(self)@ == (DeviceView { next_resource_id: old(self)@.next_resource_id + 1, ..old(self)@ })
            },
    {
        validate_pipeline(&desc)?;
        let id = self.take_resource_id()?;
        Pipeline::new(id, desc)
    }

    /// Starts a frame. Once `MAX_FRAMES` frames were presented, the frame
    /// first waits on the graphics timeline for the completion of the frame
    /// that last used its slot; that is the only back-pressure between CPU and
    /// GPU. Then the slot's command pool is reset and an image is to be
    /// acquired. Refused while a submitted frame waits to be presented.
    ///
    /// From this call on the device counts the plan's wait value as reached
    /// on the timeline: the caller performs the wait before any further call,
    /// and a failed wait ends the frame loop.
    pub fn frame_begin(&mut self) -> (r: Result<FrameBeginPlan, GpuError>)
        requires
            old(self).wf(),
        ensures
            final(self).wf(),
            final(self)@.wf(),
            old(self)@.phase == FramePhase::Submitted <==> r == Err::<FrameBeginPlan, GpuError>(GpuError::InvalidFrameState),
            old(self)@.phase != FramePhase::Submitted ==> r is Ok,
            r is Err ==> final(self)@ == old(self)@,
            r is Ok ==> {
                let plan = r.unwrap();
                let wait = frame_wait_value(old(self)@.absolute);
                &&& plan.reset_pool == old(self)@.current
                &&& plan.wait_timeline_value is Some == wait is Some
                &&& wait is Some ==> plan.wait_timeline_value.unwrap() == wait.unwrap()
                &&& wait is Some ==> wait.unwrap() <= old(self)@.signaled
                &&& final(self)@.phase == FramePhase::Acquiring
                &&& final(self)@.completed == if wait is Some && wait.unwrap() > old(self)@.completed {
                    wait.unwrap()
                } else {
                    old(self)@.completed
                }
                &&& final(self)@.command_buffers.buffers_per_pool == old(self)@.command_buffers.buffers_per_pool
                &&& final(self)@.command_buffers.used == old(self)@.command_buffers.used.update(old(self)@.current as int, 0)
                &&& final(self)@.current == old(self)@.current
                &&& final(self)@.previous == old(self)@.previous
                &&& final(self)@.absolute == old(self)@.absolute
                &&& final(self)@.signaled == old(self)@.signaled
                &&& final(self)@.pending == old(self)@.pending
                &&& final(self)@.descriptor_sets_allocated == old(self)@.descriptor_sets_allocated
                &&& final(self)@.next_resource_id == old(self)@.next_resource_id
            },
    {
        if self.phase == FramePhase::Submitted {
            return Err(GpuError::InvalidFrameState);
        }
        let wait_timeline_value = if self.counters.absolute >= MAX_FRAMES as u64 {
            let value = self.counters.graphics_wait_value();
            if value > self.completed {
                self.completed = value;
            }
            Some(value)
        } else {
            None
        };
        let pool = self.counters.current as usize;
        let pools: [usize; 1] = [pool];
        self.command_buffer_manager.reset_command_pools(pools.as_slice());
        proof {
            let old_used = old(self)@.command_buffers.used;
            let new_used = self@.command_buffers.used;
            assert(pools@.len() == 1 && pools@[0] == pool);
            assert forall|p: int| 0 <= p < old_used.len() implies
                #[trigger] names_pool(pools@, p) == (p == pool as int) by {
                if p == pool as int {
                    assert(pools@[0] as int == p);
                }
            }
            assert(new_used =~= old_used.update(pool as int, 0));
        }
        self.phase = FramePhase::Acquiring;
        assert(self@.pending == old(self)@.pending);
        Ok(FrameBeginPlan { wait_timeline_value, reset_pool: pool })
    }

    /// Takes the outcome of an attempt to acquire a swapchain image. A first
    /// attempt that fails or finds the swapchain stale asks for one recreation
    /// and retry; a retry that fails ends the frame with an error.
    pub fn image_acquisition(&mut self, outcome: AcquireOutcome) -> (r: Result<AcquireAction, GpuError>)
        requires
            old(self).wf(),
        ensures
            final(self).wf(),
            r == acquisition_step(old(self)@.phase, outcome).1,
            final(self)@ == (DeviceView { phase: acquisition_step(old(self)@.phase, outcome).0, ..old(self)@ }),
    {
        match self.phase {
            FramePhase::Acquiring => match outcome {
                AcquireOutcome::Acquired => {
                    self.phase = FramePhase::Recording;
                    Ok(AcquireAction::Proceed)
                },
                _ => {
                    self.phase = FramePhase::Reacquiring;
                    Ok(AcquireAction::RecreateAndRetry)
                },
            },
            FramePhase::Reacquiring => match outcome {
                AcquireOutcome::Failed => {
                    self.phase = FramePhase::Idle;
                    Err(GpuError::AcquireFailed)
                },
                _ => {
                    self.phase = FramePhase::Recording;
                    Ok(AcquireAction::Proceed)
                },
            },
            _ => Err(GpuError::InvalidFrameState),
        }
    }

    /// Hands out the next command buffer of the current frame slot's pool.
    pub fn get_current_command_buffer(&mut self) -> (r: Result<CommandBuffer, GpuError>)
        requires
            old(self).wf(),
        ensures
            final(self).wf(),
            final(self)@ == (DeviceView {
                command_buffers: acquire_step(old(self)@.command_buffers, old(self)@.current).0,
                ..old(self)@
            }),
            match acquire_step(old(self)@.command_buffers, old(self)@.current).1 {
                Some(b) => r == Ok::<CommandBuffer, GpuError>(CommandBuffer { index: b as usize }),
                None => r == Err::<CommandBuffer, GpuError>(GpuError::CommandBuffersExhausted),
            },
    {
        let pool = self.counters.current as usize;
        self.command_buffer_manager.get_command_buffer_at_pool(pool)
    }

    /// Submits the current frame's commands. The submission waits for the
    /// acquired image, signals the slot's render-complete semaphore and raises
    /// the graphics timeline to one past the frame number. Refused outside
    /// recording, for a command buffer not handed out by the current slot in
    /// this frame, and when the frame counter is spent.
    pub fn queue_submit_commands_graphics(&mut self, command_buffer: CommandBuffer) -> (r: Result<SubmitPlan, GpuError>)
        requires
            old(self).wf(),
        ensures
            final(self).wf(),
            old(self)@.phase != FramePhase::Recording ==> r == Err::<SubmitPlan, GpuError>(GpuError::InvalidFrameState),
            old(self)@.phase == FramePhase::Recording && !issued_this_frame(old(self)@, command_buffer.index)
                ==> r == Err::<SubmitPlan, GpuError>(GpuError::StaleCommandBuffer),
            old(self)@.phase == FramePhase::Recording && issued_this_frame(old(self)@, command_buffer.index)
                && old(self)@.absolute + 2 >= u64::MAX ==> r == Err::<SubmitPlan, GpuError>(GpuError::FrameCounterExhausted),
            old(self)@.phase == FramePhase::Recording && issued_this_frame(old(self)@, command_buffer.index)
                && old(self)@.absolute + 2 < u64::MAX ==> r is Ok,
            r is Err ==> final(self)@ == old(self)@,
            r is Ok ==> r.unwrap() == (SubmitPlan {
                command_buffer,
                render_complete_semaphore: old(self)@.current as usize,
                timeline_signal_value: (old(self)@.absolute + 1) as u64,
            }),
            r is Ok ==> final(self)@ == (DeviceView {
                phase: FramePhase::Submitted,
                signaled: old(self)@.absolute + 1,
                ..old(self)@
            }),
    {
        if self.phase != FramePhase::Recording {
            return Err(GpuError::InvalidFrameState);
        }
        let pool = self.counters.current as usize;
        if !self.command_buffer_manager.is_issued(pool, command_buffer.index) {
            return Err(GpuError::StaleCommandBuffer);
        }
        if self.counters.absolute >= u64::MAX - 2 {
            return Err(GpuError::FrameCounterExhausted);
        }
        let value = self.counters.absolute + 1;
        self.signaled = value;
        self.phase = FramePhase::Submitted;
        Ok(SubmitPlan { command_buffer, render_complete_semaphore: pool, timeline_signal_value: value })
    }

    /// Ends the submitted frame after the caller presented it, waiting on the
    /// slot's render-complete semaphore. A failed present asks for a wait on
    /// the whole device; the next frame's acquisition then recreates the
    /// swapchain. Either way the frame counters advance exactly once, and the
    /// retired buffers whose frame the timeline has shown finished are
    /// released. Refused unless a frame was submitted.
    pub fn swapchain_present(&mut self, present_failed: bool) -> (r: Result<PresentStep, GpuError>)
        requires
            old(self).wf(),
        ensures
            final(self).wf(),
            old(self)@.phase != FramePhase::Submitted <==> r is Err,
            r is Err ==> r == Err::<PresentStep, GpuError>(GpuError::InvalidFrameState) && final(self)@ == old(self)@,
            r is Ok ==> {
                let step = r.unwrap();
                &&& step.wait_device_idle == present_failed
                &&& step.released@ == released_of(old(self)@.pending, old(self)@.completed)
                &&& final(self)@.pending == kept_of(old(self)@.pending, old(self)@.completed)
                &&& final(self)@.previous == old(self)@.current
                &&& final(self)@.current == next_slot(old(self)@.current)
                &&& final(self)@.absolute == old(self)@.absolute + 1
                &&& final(self)@.phase == FramePhase::Idle
                &&& final(self)@.signaled == old(self)@.signaled
                &&& final(self)@.completed == old(self)@.completed
                &&& final(self)@.command_buffers == old(self)@.command_buffers
                &&& final(self)@.descriptor_sets_allocated == old(self)@.descriptor_sets_allocated
                &&& final(self)@.next_resource_id == old(self)@.next_resource_id
            },
    {
        if self.phase != FramePhase::Submitted {
            return Err(GpuError::InvalidFrameState);
        }
        self.counters.advance();
        self.phase = FramePhase::Idle;
        let released = self.cleanup_resources();
        proof {
            lemma_kept_retired_before(old(self)@.pending, old(self)@.completed, self@.absolute);
        }
        Ok(PresentStep { wait_device_idle: present_failed, released })
    }

    /// Splits the pending-destruction queue into the buffers that may be
    /// released now, which it returns, and those that must wait.
    fn cleanup_resources(&mut self) -> (r: Vec<PendingDestructionBuffer>)
        ensures
            r@ == released_of(old(self)@.pending, old(self)@.completed),
            final(self)@ == (DeviceView { pending: kept_of(old(self)@.pending, old(self)@.completed), ..old(self)@ }),
            final(self).command_buffer_manager == old(self).command_buffer_manager,
    {
        let mut released: Vec<PendingDestructionBuffer> = Vec::new();
        let mut kept: Vec<PendingDestructionBuffer> = Vec::new();
        let completed = self.completed;
        let mut i: usize = 0;
        while i < self.pending_destruction_buffers.len()
            invariant
                self == old(self),
                completed == self.completed,
                i <= self.pending_destruction_buffers@.len(),
                released@ == released_of(self.pending_destruction_buffers@.subrange(0, i as int), completed as nat),
                kept@ == kept_of(self.pending_destruction_buffers@.subrange(0, i as int), completed as nat),
            decreases self.pending_destruction_buffers@.len() - i,
        {
            let e = self.pending_destruction_buffers[i];
            proof {
                let s = self.pending_destruction_buffers@;
                assert(s.subrange(0, i + 1).drop_last() =~= s.subrange(0, i as int));
                assert(s.subrange(0, i + 1).last() == e);
            }
            if e.retired_at < completed {
                released.push(e);
            } else {
                kept.push(e);
            }
            i = i + 1;
        }
        proof {
            let s = self.pending_destruction_buffers@;
            assert(s.subrange(0, s.len() as int) =~= s);
        }
        self.pending_destruction_buffers = kept;
        released
    }

    /// Queues `buffer` for destruction. Its memory is released at a later
    /// present, once the GPU has finished the current frame.
    pub fn retire_buffer(&mut self, buffer: Buffer)
        requires
            old(self).wf(),
        ensures
            final(self).wf(),
            final(self)@ == (DeviceView {
                pending: old(self)@.pending.push(PendingDestructionBuffer {
                    buffer_id: buffer@.id,
                    retired_at: old(self)@.absolute as u64,
                }),
                ..old(self)@
            }),
    {
        let e = buffer.retire(self.counters.absolute);
        self.pending_destruction_buffers.push(e);
    }

    /// Empties the pending-destruction queue at teardown, once the caller has
    /// waited for the whole device to be idle, and returns what it held.
    pub fn cleanup_after_device_idle(&mut self) -> (r: Vec<PendingDestructionBuffer>)
        requires
            old(self).wf(),
        ensures
            final(self).wf(),
            r@ == old(self)@.pending,
            final(self)@ == (DeviceView { pending: Seq::empty(), ..old(self)@ }),
    {
        let mut drained: Vec<PendingDestructionBuffer> = Vec::new();
        std::mem::swap(&mut drained, &mut self.pending_destruction_buffers);
        proof {
            assert(self@.pending =~= Seq::<PendingDestructionBuffer>::empty());
        }
        drained
    }
}

/// Every entry kept back was retired no later than frame `bound` when every
/// entry of the queue was.
proof fn lemma_kept_retired_before(pending: Seq<PendingDestructionBuffer>, completed: nat, bound: nat)
    requires
        forall|k: int| 0 <= k < pending.len() ==> #[trigger] pending[k].retired_at <= bound,
    ensures
        forall|k: int| 0 <= k < kept_of(pending, completed).len() ==> #[trigger] kept_of(pending, completed)[k].retired_at <= bound,
        kept_of(pending, completed).len() <= pending.len(),
    decreases pending.len(),
{
    if pending.len() > 0 {
        let rest = pending.drop_last();
        assert(forall|k: int| 0 <= k < rest.len() ==> #[trigger] rest[k].retired_at <= bound) by {
            assert forall|k: int| 0 <= k < rest.len() implies #[trigger] rest[k].retired_at <= bound by {
                assert(rest[k] == pending[k]);
            }
        }
        lemma_kept_retired_before(rest, completed, bound);
        assert(pending.last() == pending[pending.len() - 1]);
    }
}

/// Whether command buffer `b` was handed out by the current slot's pool in the
/// current frame.
pub open spec fn issued_this_frame(v: DeviceView, b: usize) -> bool {
    let per = v.command_buffers.buffers_per_pool;
    v.current * per <= b < v.current * per + v.command_buffers.used[v.current as int]
}

/// The frame slot always follows the number of presented frames: `current` is
/// that number modulo `MAX_FRAMES` and `previous` the slot before it. Since a
/// present adds exactly one frame and every other call leaves the counters
/// alone, the slots are visited in order.
pub proof fn lemma_slot_follows_frame_count(v: DeviceView)
    requires
        v.wf(),
    ensures
        v.current == v.absolute % (MAX_FRAMES as nat),
        v.current < MAX_FRAMES,
        v.absolute > 0 ==> v.previous == ((v.absolute - 1) as nat) % (MAX_FRAMES as nat),
        v.absolute > 0 ==> v.current == next_slot(v.previous),
{
}

/// A frame never waits for a timeline value that no submission has been asked
/// to signal, so beginning a frame cannot deadlock; in particular the first
/// `MAX_FRAMES` frames wait for nothing.
pub proof fn lemma_frame_wait_is_signaled(v: DeviceView)
    requires
        v.wf(),
        v.phase != FramePhase::Submitted,
    ensures
        v.absolute < MAX_FRAMES ==> frame_wait_value(v.absolute) is None,
        frame_wait_value(v.absolute) is Some ==> frame_wait_value(v.absolute).unwrap() <= v.signaled,
{
}

/// Every buffer that a present releases belongs to a frame that the GPU has
/// finished, as the timeline shows, and was retired at least `MAX_FRAMES`
/// frames before the present: after the present's advance, more than a full
/// cycle of frames in flight lies between its retirement and its release.
pub proof fn lemma_release_after_full_cycle(v: DeviceView, k: int)
    requires
        v.wf(),
        0 <= k < released_of(v.pending, v.completed).len(),
    ensures
        released_of(v.pending, v.completed)[k].retired_at < v.completed,
        released_of(v.pending, v.completed)[k].retired_at + MAX_FRAMES <= v.absolute,
{
    lemma_released_are_releasable(v.pending, v.completed);
}

/// The released entries are releasable entries of the queue.
proof fn lemma_released_are_releasable(pending: Seq<PendingDestructionBuffer>, completed: nat)
    ensures
        forall|k: int| 0 <= k < released_of(pending, completed).len() ==> releasable(#[trigger] released_of(pending, completed)[k], completed),
        forall|k: int| 0 <= k < released_of(pending, completed).len() ==> pending.contains(#[trigger] released_of(pending, completed)[k]),
    decreases pending.len(),
{
    if pending.len() > 0 {
        let rest = pending.drop_last();
        lemma_released_are_releasable(rest, completed);
        assert forall|k: int| 0 <= k < released_of(pending, completed).len() implies pending.contains(#[trigger] released_of(pending, completed)[k]) by {
            let r = released_of(pending, completed);
            if k < released_of(rest, completed).len() {
                assert(rest.contains(r[k]));
                let j = choose|j: int| 0 <= j < rest.len() && rest[j] == r[k];
                assert(pending[j] == r[k]);
            } else {
                assert(pending[pending.len() - 1] == r[k]);
            }
        }
    }
}

/// A write to a binding index that the layout lacks makes the whole update
/// fail, so the set keeps every binding it had.
pub proof fn lemma_unknown_binding_rejects_update(
    layout: Seq<DescriptorSetLayoutBinding>,
    writes: Seq<DescriptorBindingBufferWrite>,
    k: int,
)
    requires
        0 <= k < writes.len(),
        binding_position(layout, writes[k].binding_index) is None,
    ensures
        first_write_fault(layout, writes) is Some,
    decreases writes.len(),
{
    if k < writes.len() - 1 {
        let rest = writes.drop_last();
        assert(rest[k] == writes[k]);
        lemma_unknown_binding_rejects_update(layout, rest, k);
    } else {
        assert(writes.last() == writes[k]);
    }
}

/// Acquisition settles within two reports: an image acquired at once lets the
/// frame proceed; otherwise the swapchain is recreated exactly once, and the
/// retry either proceeds or ends the frame with an error, never asking for
/// another recreation.
pub proof fn lemma_acquisition_settles(first: AcquireOutcome, second: AcquireOutcome)
    ensures
        first == AcquireOutcome::Acquired ==> acquisition_step(FramePhase::Acquiring, first)
            == (FramePhase::Recording, Ok::<AcquireAction, GpuError>(AcquireAction::Proceed)),
        first != AcquireOutcome::Acquired ==> acquisition_step(FramePhase::Acquiring, first)
            == (FramePhase::Reacquiring, Ok::<AcquireAction, GpuError>(AcquireAction::RecreateAndRetry)),
        acquisition_step(FramePhase::Reacquiring, second).1 != Ok::<AcquireAction, GpuError>(AcquireAction::RecreateAndRetry),
        second == AcquireOutcome::Failed ==> acquisition_step(FramePhase::Reacquiring, second)
            == (FramePhase::Idle, Err::<AcquireAction, GpuError>(GpuError::AcquireFailed)),
        second != AcquireOutcome::Failed ==> acquisition_step(FramePhase::Reacquiring, second)
            == (FramePhase::Recording, Ok::<AcquireAction, GpuError>(AcquireAction::Proceed)),
{
}

} // verus!
