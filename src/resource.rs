use vstd::prelude::*;

use crate::error::GpuError;

verus! {

/// Where the memory of a buffer lives, as the memory allocator sees it.
#[derive(Debug, Clone, Copy, PartialEq, Eq, Structural)]
pub enum MemoryLocation {
    /// No preference: the allocator may pick memory that the host cannot map.
    Unknown,
    /// Device-local memory that the host cannot map.
    GpuOnly,
    /// Host-visible memory written by the CPU and read by the GPU.
    CpuToGpu,
    /// Host-visible memory written by the GPU and read back by the CPU.
    GpuToCpu,
}

/// Whether memory at `location` is mapped into the host's address space.
pub open spec fn host_visible(location: MemoryLocation) -> bool {
    location == MemoryLocation::CpuToGpu || location == MemoryLocation::GpuToCpu
}

impl MemoryLocation {
    pub fn is_host_visible(&self) -> (r: bool)
        ensures
            r == host_visible(*self),
    {
        match self {
            MemoryLocation::CpuToGpu => true,
            MemoryLocation::GpuToCpu => true,
            _ => false,
        }
    }
}

/// Vulkan usage bit: the buffer can be the source of a transfer.
pub const BUFFER_USAGE_TRANSFER_SRC: u32 = 0x1;

/// Vulkan usage bit: the buffer can be the destination of a transfer.
pub const BUFFER_USAGE_TRANSFER_DST: u32 = 0x2;

/// What a new buffer is asked to be.
pub struct BufferDescriptor {
    /// Size in bytes.
    pub size: u64,
    /// Vulkan buffer usage bits (vertex, index, uniform, storage, ...).
    pub usage_flags: u32,
    pub memory_location: MemoryLocation,
}

/// What a buffer is: its identifier, size, the usage it is created with,
/// memory, and for a host-visible buffer the bytes the CPU has written to its
/// mapped memory.
pub struct BufferView {
    pub id: u64,
    pub size: u64,
    pub usage_flags: u32,
    pub memory_location: MemoryLocation,
    pub mapped: Option<Seq<u8>>,
}

/// A buffer in GPU memory. Every buffer can take part in transfers besides
/// the usage asked for. A host-visible buffer carries the image of what the
/// CPU wrote to its mapped memory; the caller copies each write into the
/// mapped memory itself. What the GPU writes is not reflected here.
pub struct Buffer {
    id: u64,
    size: u64,
    usage_flags: u32,
    memory_location: MemoryLocation,
    mapped: Option<Vec<u8>>,
}

impl View for Buffer {
    type V = BufferView;

    closed spec fn view(&self) -> BufferView {
        BufferView {
            id: self.id,
            size: self.size,
            usage_flags: self.usage_flags,
            memory_location: self.memory_location,
            mapped: match &self.mapped {
                Some(v) => Some(v@),
                None => None,
            },
        }
    }
}

/// A buffer whose release was requested and that waits for the GPU to be done
/// with it. `retired_at` is the number of frames presented when it was retired.
#[derive(Debug, Clone, Copy, PartialEq, Eq, Structural)]
pub struct PendingDestructionBuffer {
    pub buffer_id: u64,
    pub retired_at: u64,
}

impl Buffer {
    /// Mapped memory exists exactly for host-visible buffers and spans the
    /// whole buffer.
    pub open spec fn wf(&self) -> bool {
        &&& self@.mapped is Some <==> host_visible(self@.memory_location)
        &&& self@.mapped is Some ==> self@.mapped.unwrap().len() == self@.size
    }

    /// A new buffer as `desc` asks for it, under identifier `id`; the mapped
    /// memory of a host-visible buffer starts zeroed.
    pub(crate) fn new(id: u64, desc: &BufferDescriptor) -> (r: Buffer)
        requires
            desc.size <= usize::MAX,
        ensures
            r.wf(),
            r@.id == id,
            r@.size == desc.size,
            r@.usage_flags == desc.usage_flags | BUFFER_USAGE_TRANSFER_SRC | BUFFER_USAGE_TRANSFER_DST,
            r@.memory_location == desc.memory_location,
            r@.mapped is Some ==> r@.mapped.unwrap() == Seq::new(desc.size as nat, |i: int| 0u8),
    {
        let mapped = if desc.memory_location.is_host_visible() {
            let mut bytes: Vec<u8> = Vec::new();
            let mut i: u64 = 0;
            while i < desc.size
                invariant
                    i <= desc.size,
                    bytes@.len() == i,
                    forall|k: int| 0 <= k < i ==> #[trigger] bytes@[k] == 0u8,
                decreases desc.size - i,
            {
                bytes.push(0u8);
                i = i + 1;
            }
            assert(bytes@ =~= Seq::new(desc.size as nat, |i: int| 0u8));
            Some(bytes)
        } else {
            None
        };
        Buffer {
            id,
            size: desc.size,
            usage_flags: desc.usage_flags | BUFFER_USAGE_TRANSFER_SRC | BUFFER_USAGE_TRANSFER_DST,
            memory_location: desc.memory_location,
            mapped,
        }
    }

    pub fn id(&self) -> (r: u64)
        ensures
            r == self@.id,
    {
        self.id
    }

    pub fn size(&self) -> (r: u64)
        ensures
            r == self@.size,
    {
        self.size
    }

    pub fn usage_flags(&self) -> (r: u32)
        ensures
            r == self@.usage_flags,
    {
        self.usage_flags
    }

    pub fn memory_location(&self) -> (r: MemoryLocation)
        ensures
            r == self@.memory_location,
    {
        self.memory_location
    }

    /// Copies `data` to the start of the buffer's mapped memory. Fails when the
    /// buffer is not host-visible or `data` is longer than the buffer; then
    /// nothing is written.
    pub fn write_data(&mut self, data: &[u8]) -> (r: Result<(), GpuError>)
        requires
            old(self).wf(),
        ensures
            final(self).wf(),
            final(self)@.id == old(self)@.id,
            final(self)@.size == old(self)@.size,
            final(self)@.usage_flags == old(self)@.usage_flags,
            final(self)@.memory_location == old(self)@.memory_location,
            !host_visible(old(self)@.memory_location) ==> r == Err::<(), GpuError>(GpuError::NotHostVisible),
            host_visible(old(self)@.memory_location) && data@.len() > old(self)@.size ==> r == Err::<(), GpuError>(GpuError::WriteOutOfBounds),
            host_visible(old(self)@.memory_location) && data@.len() <= old(self)@.size ==> r is Ok,
            r is Err ==> final(self)@ == old(self)@,
            r is Ok ==> final(self)@.mapped == Some(
                data@ + old(self)@.mapped.unwrap().subrange(data@.len() as int, old(self)@.size as int),
            ),
    {
        match &mut self.mapped {
            None => Err(GpuError::NotHostVisible),
            Some(bytes) => {
                if data.len() as u64 > self.size {
                    return Err(GpuError::WriteOutOfBounds);
                }
                let ghost before = bytes@;
                let mut i: usize = 0;
                while i < data.len()
                    invariant
                        i <= data@.len(),
                        data@.len() <= before.len(),
                        bytes@.len() == before.len(),
                        forall|k: int| 0 <= k < i ==> #[trigger] bytes@[k] == data@[k],
                        forall|k: int| i <= k < before.len() ==> #[trigger] bytes@[k] == before[k],
                    decreases data@.len() - i,
                {
                    bytes.set(i, data[i]);
                    i = i + 1;
                }
                assert(bytes@ =~= data@ + before.subrange(data@.len() as int, before.len() as int));
                Ok(())
            }
        }
    }

    /// The bytes the CPU has written to the buffer's mapped memory (zero where
    /// nothing was written), or `None` for a buffer the host cannot map.
    pub fn mapped_data(&self) -> (r: Option<&[u8]>)
        ensures
            r is Some == self@.mapped is Some,
            r is Some ==> r.unwrap()@ == self@.mapped.unwrap(),
    {
        match &self.mapped {
            Some(bytes) => Some(bytes.as_slice()),
            None => None,
        }
    }

    /// The record that stands for this buffer in the pending-destruction queue.
    pub(crate) fn retire(self, retired_at: u64) -> (r: PendingDestructionBuffer)
        ensures
            r.buffer_id == self@.id,
            r.retired_at == retired_at,
    {
        PendingDestructionBuffer { buffer_id: self.id, retired_at }
    }
}

} // verus!
