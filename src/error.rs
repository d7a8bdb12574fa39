use vstd::prelude::*;

verus! {

/// Errors reported by the engine.
#[derive(Debug, Clone, Copy, PartialEq, Eq, Structural)]
pub enum GpuError {
    /// Every command buffer of the pool was already handed out in this cycle.
    CommandBuffersExhausted,
    /// The global descriptor pool has no set left.
    DescriptorPoolExhausted,
    /// A descriptor write names a binding that the set's layout lacks.
    UnknownBinding(u32),
    /// A descriptor write targets a binding whose type is not a uniform or
    /// storage buffer.
    UnsupportedDescriptorType(u32),
    /// A layout declares the same binding index twice.
    DuplicateBinding,
    /// The buffer was not created in host-visible memory.
    NotHostVisible,
    /// The write does not fit inside the buffer.
    WriteOutOfBounds,
    /// A buffer of zero bytes was requested.
    ZeroSizedBuffer,
    /// The memory allocator could not satisfy the request.
    OutOfDeviceMemory,
    /// The swapchain image could not be acquired even after recreation.
    AcquireFailed,
    /// The call does not fit the current stage of the frame cycle.
    InvalidFrameState,
    /// The command buffer was not handed out from the current frame's pool in
    /// this cycle.
    StaleCommandBuffer,
    /// The frame counter cannot grow any further.
    FrameCounterExhausted,
    /// Every resource identifier has been handed out.
    ResourceIdsExhausted,
    /// The number of color blend attachments differs from the number of color
    /// attachment formats.
    BlendAttachmentMismatch,
    /// The pipeline has no vertex shader stage.
    MissingVertexStage,
    /// Two shader modules of the pipeline share a stage.
    DuplicateShaderStage,
    /// A vertex attribute reads from a binding that is not declared.
    UnknownVertexBinding,
    /// Two vertex input bindings share a binding number.
    DuplicateVertexBinding,
    /// Two vertex attributes share a location.
    DuplicateVertexLocation,
}

} // verus!
