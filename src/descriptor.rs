use vstd::prelude::*;

use crate::error::GpuError;
use crate::resource::Buffer;

verus! {

/// The kind of resource a descriptor binding refers to.
#[derive(Debug, Clone, Copy, PartialEq, Eq, Structural)]
pub enum DescriptorType {
    Sampler,
    CombinedImageSampler,
    SampledImage,
    StorageImage,
    UniformTexelBuffer,
    StorageTexelBuffer,
    UniformBuffer,
    StorageBuffer,
    UniformBufferDynamic,
    StorageBufferDynamic,
    InputAttachment,
}

/// Whether buffer writes to a binding of type `t` are supported.
pub open spec fn buffer_type_supported(t: DescriptorType) -> bool {
    t == DescriptorType::UniformBuffer || t == DescriptorType::StorageBuffer
}

/// One binding of a descriptor set layout.
#[derive(Debug, Clone, Copy, PartialEq, Eq, Structural)]
pub struct DescriptorSetLayoutBinding {
    pub binding: u32,
    pub descriptor_type: DescriptorType,
    pub descriptor_count: u32,
    /// Vulkan shader stage bits that see the binding.
    pub stage_flags: u32,
}

/// What a new descriptor set layout is asked to be.
pub struct DescriptorSetLayoutDescriptor {
    pub bindings: Vec<DescriptorSetLayoutBinding>,
    /// Vulkan descriptor set layout creation bits.
    pub flags: u32,
}

/// Whether two entries of `bindings` share a binding index.
pub open spec fn has_repeated_binding(bindings: Seq<DescriptorSetLayoutBinding>) -> bool {
    exists|i: int, j: int|
        0 <= i < j < bindings.len() && #[trigger] bindings[i].binding == #[trigger] bindings[j].binding
}

/// The position of binding index `b` in `bindings`, if it is there.
pub open spec fn binding_position(bindings: Seq<DescriptorSetLayoutBinding>, b: u32) -> Option<int> {
    if exists|i: int| 0 <= i < bindings.len() && #[trigger] bindings[i].binding == b {
        Some(choose|i: int| 0 <= i < bindings.len() && #[trigger] bindings[i].binding == b)
    } else {
        None
    }
}

/// An immutable description of the bindings of a descriptor set. Binding
/// indices are unique.
pub struct DescriptorSetLayout {
    id: u64,
    bindings: Vec<DescriptorSetLayoutBinding>,
}

impl DescriptorSetLayout {
    pub closed spec fn spec_id(&self) -> u64 {
        self.id
    }

    pub closed spec fn spec_bindings(&self) -> Seq<DescriptorSetLayoutBinding> {
        self.bindings@
    }

    pub open spec fn wf(&self) -> bool {
        !has_repeated_binding(self.spec_bindings())
    }

    /// The layout that `bindings` describe, under identifier `id`. Fails when a
    /// binding index occurs twice.
    pub(crate) fn new(id: u64, bindings: &Vec<DescriptorSetLayoutBinding>) -> (r: Result<DescriptorSetLayout, GpuError>)
        ensures
            has_repeated_binding(bindings@) ==> r == Err::<DescriptorSetLayout, GpuError>(GpuError::DuplicateBinding),
            !has_repeated_binding(bindings@) ==> r is Ok,
            r is Ok ==> r.unwrap().wf() && r.unwrap().spec_id() == id && r.unwrap().spec_bindings() == bindings@,
    {
        let mut copy: Vec<DescriptorSetLayoutBinding> = Vec::new();
        let mut j: usize = 0;
        while j < bindings.len()
            invariant
                j <= bindings@.len(),
                copy@ == bindings@.subrange(0, j as int),
                !has_repeated_binding(bindings@.subrange(0, j as int)),
            decreases bindings@.len() - j,
        {
            let b = bindings[j].binding;
            let mut i: usize = 0;
            while i < j
                invariant
                    i <= j < bindings@.len(),
                    b == bindings@[j as int].binding,
                    forall|k: int| 0 <= k < i ==> #[trigger] bindings@[k].binding != b,
                decreases j - i,
            {
                if bindings[i].binding == b {
                    assert(bindings@[i as int].binding == bindings@[j as int].binding);
                    return Err(GpuError::DuplicateBinding);
                }
                i = i + 1;
            }
            copy.push(bindings[j]);
            proof {
                let prev = bindings@.subrange(0, j as int);
                let next = bindings@.subrange(0, j + 1);
                assert(copy@ =~= next);
                if has_repeated_binding(next) {
                    let (x, y) = choose|x: int, y: int|
                        0 <= x < y < next.len() && #[trigger] next[x].binding == #[trigger] next[y].binding;
                    if y < j {
                        assert(prev[x].binding == prev[y].binding);
                    } else {
                        assert(bindings@[x].binding == b);
                    }
                }
            }
            j = j + 1;
        }
        assert(bindings@.subrange(0, bindings@.len() as int) =~= bindings@);
        Ok(DescriptorSetLayout { id, bindings: copy })
    }

    pub fn id(&self) -> (r: u64)
        ensures
            r == self.spec_id(),
    {
        self.id
    }

    pub fn bindings(&self) -> (r: &[DescriptorSetLayoutBinding])
        ensures
            r@ == self.spec_bindings(),
    {
        self.bindings.as_slice()
    }

    /// The layout binding with binding index `b`, if any.
    pub fn binding(&self, b: u32) -> (r: Option<DescriptorSetLayoutBinding>)
        requires
            self.wf(),
        ensures
            r is Some <==> binding_position(self.spec_bindings(), b) is Some,
            r is Some ==> r.unwrap() == self.spec_bindings()[binding_position(self.spec_bindings(), b).unwrap()],
    {
        let mut i: usize = 0;
        while i < self.bindings.len()
            invariant
                i <= self.bindings@.len(),
                !has_repeated_binding(self.bindings@),
                forall|k: int| 0 <= k < i ==> #[trigger] self.bindings@[k].binding != b,
            decreases self.bindings@.len() - i,
        {
            if self.bindings[i].binding == b {
                proof {
                    lemma_position_unique(self.bindings@, b, i as int);
                }
                return Some(self.bindings[i]);
            }
            i = i + 1;
        }
        None
    }
}

/// A buffer bound to a descriptor: which buffer, and how many bytes of it.
#[derive(Debug, Clone, Copy, PartialEq, Eq, Structural)]
pub struct BoundBuffer {
    pub buffer_id: u64,
    pub range: u64,
}

/// A request to bind a whole buffer at a binding index of a descriptor set.
#[derive(Debug, Clone, Copy, PartialEq, Eq, Structural)]
pub struct DescriptorBindingBufferWrite {
    pub buffer_id: u64,
    pub buffer_size: u64,
    pub binding_index: u32,
}

impl DescriptorBindingBufferWrite {
    /// A write that binds all of `buffer` at `binding_index`.
    pub fn new(buffer: &Buffer, binding_index: u32) -> (r: DescriptorBindingBufferWrite)
        ensures
            r.buffer_id == buffer@.id,
            r.buffer_size == buffer@.size,
            r.binding_index == binding_index,
    {
        DescriptorBindingBufferWrite { buffer_id: buffer.id(), buffer_size: buffer.size(), binding_index }
    }
}

/// The writes of one descriptor set update, applied in order.
pub struct DescriptorBindingWrites {
    pub buffers: Vec<DescriptorBindingBufferWrite>,
}

/// One descriptor write as the graphics API receives it.
#[derive(Debug, Clone, Copy, PartialEq, Eq, Structural)]
pub struct DescriptorWrite {
    pub set_id: u64,
    pub binding: u32,
    pub descriptor_type: DescriptorType,
    pub buffer_id: u64,
    pub offset: u64,
    pub range: u64,
}

/// Why write `w` cannot be applied to a set of layout `layout`, if it cannot.
pub open spec fn write_fault(layout: Seq<DescriptorSetLayoutBinding>, w: DescriptorBindingBufferWrite) -> Option<GpuError> {
    match binding_position(layout, w.binding_index) {
        None => Some(GpuError::UnknownBinding(w.binding_index)),
        Some(p) => if buffer_type_supported(layout[p].descriptor_type) {
            None
        } else {
            Some(GpuError::UnsupportedDescriptorType(w.binding_index))
        },
    }
}

/// The fault of the first write of `writes` that cannot be applied.
pub open spec fn first_write_fault(
    layout: Seq<DescriptorSetLayoutBinding>,
    writes: Seq<DescriptorBindingBufferWrite>,
) -> Option<GpuError>
    decreases writes.len(),
{
    if writes.len() == 0 {
        None
    } else {
        match first_write_fault(layout, writes.drop_last()) {
            Some(e) => Some(e),
            None => write_fault(layout, writes.last()),
        }
    }
}

/// What binding index `b` holds after `writes` were applied in order to a set
/// where it held `before`: the last write to `b` wins.
pub open spec fn bound_after(
    before: Option<BoundBuffer>,
    b: u32,
    writes: Seq<DescriptorBindingBufferWrite>,
) -> Option<BoundBuffer>
    decreases writes.len(),
{
    if writes.len() == 0 {
        before
    } else if writes.last().binding_index == b {
        Some(BoundBuffer { buffer_id: writes.last().buffer_id, range: writes.last().buffer_size })
    } else {
        bound_after(before, b, writes.drop_last())
    }
}

/// A descriptor set allocated from the global pool: its layout's bindings, and
/// what each of them holds.
pub struct DescriptorSet {
    id: u64,
    layout_id: u64,
    layout: Vec<DescriptorSetLayoutBinding>,
    bound: Vec<Option<BoundBuffer>>,
}

impl DescriptorSet {
    pub closed spec fn spec_id(&self) -> u64 {
        self.id
    }

    pub closed spec fn spec_layout_id(&self) -> u64 {
        self.layout_id
    }

    /// The bindings of the set's layout.
    pub closed spec fn spec_layout(&self) -> Seq<DescriptorSetLayoutBinding> {
        self.layout@
    }

    /// What each binding of the layout holds, position by position.
    pub closed spec fn spec_bound(&self) -> Seq<Option<BoundBuffer>> {
        self.bound@
    }

    pub open spec fn wf(&self) -> bool {
        &&& !has_repeated_binding(self.spec_layout())
        &&& self.spec_bound().len() == self.spec_layout().len()
    }

    /// A set of `layout` under identifier `id`, with nothing bound.
    pub(crate) fn new(id: u64, layout: &DescriptorSetLayout) -> (r: DescriptorSet)
        requires
            layout.wf(),
        ensures
            r.wf(),
            r.spec_id() == id,
            r.spec_layout_id() == layout.spec_id(),
            r.spec_layout() == layout.spec_bindings(),
            forall|i: int| 0 <= i < r.spec_bound().len() ==> #[trigger] r.spec_bound()[i] is None,
    {
        let src = layout.bindings();
        let mut copy: Vec<DescriptorSetLayoutBinding> = Vec::new();
        let mut bound: Vec<Option<BoundBuffer>> = Vec::new();
        let mut i: usize = 0;
        while i < src.len()
            invariant
                i <= src@.len(),
                copy@ == src@.subrange(0, i as int),
                bound@.len() == i,
                forall|k: int| 0 <= k < i ==> #[trigger] bound@[k] is None,
            decreases src@.len() - i,
        {
            copy.push(src[i]);
            bound.push(None);
            proof {
                assert(copy@ =~= src@.subrange(0, i + 1));
            }
            i = i + 1;
        }
        assert(src@.subrange(0, src@.len() as int) =~= src@);
        DescriptorSet { id, layout_id: layout.id(), layout: copy, bound }
    }

    pub fn id(&self) -> (r: u64)
        ensures
            r == self.spec_id(),
    {
        self.id
    }

    pub fn layout_id(&self) -> (r: u64)
        ensures
            r == self.spec_layout_id(),
    {
        self.layout_id
    }

    /// What binding index `b` holds; `None` also when the layout lacks `b`.
    pub fn bound_buffer(&self, b: u32) -> (r: Option<BoundBuffer>)
        requires
            self.wf(),
        ensures
            binding_position(self.spec_layout(), b) is None ==> r is None,
            binding_position(self.spec_layout(), b) is Some ==> r == self.spec_bound()[binding_position(self.spec_layout(), b).unwrap()],
    {
        match self.position_of(b) {
            Some(p) => self.bound[p],
            None => None,
        }
    }

    fn position_of(&self, b: u32) -> (r: Option<usize>)
        requires
            self.wf(),
        ensures
            r is Some <==> binding_position(self.spec_layout(), b) is Some,
            r is Some ==> r.unwrap() as int == binding_position(self.spec_layout(), b).unwrap(),
            r is Some ==> r.unwrap() < self.spec_layout().len(),
    {
        let mut i: usize = 0;
        while i < self.layout.len()
            invariant
                i <= self.layout@.len(),
                !has_repeated_binding(self.layout@),
                forall|k: int| 0 <= k < i ==> #[trigger] self.layout@[k].binding != b,
            decreases self.layout@.len() - i,
        {
            if self.layout[i].binding == b {
                proof {
                    lemma_position_unique(self.layout@, b, i as int);
                }
                return Some(i);
            }
            i = i + 1;
        }
        None
    }

    /// Applies `writes` in order, all or nothing. Each write must name a
    /// binding of the set's layout whose type is a uniform or storage buffer;
    /// otherwise the first write that does not fails the whole call and the
    /// set keeps every binding it had. On success the result lists the writes
    /// for the graphics API, one per request.
    pub fn apply_writes(&mut self, writes: &DescriptorBindingWrites) -> (r: Result<Vec<DescriptorWrite>, GpuError>)
        requires
            old(self).wf(),
        ensures
            final(self).wf(),
            final(self).spec_id() == old(self).spec_id(),
            final(self).spec_layout_id() == old(self).spec_layout_id(),
            final(self).spec_layout() == old(self).spec_layout(),
            match first_write_fault(old(self).spec_layout(), writes.buffers@) {
                Some(e) => r == Err::<Vec<DescriptorWrite>, GpuError>(e) && final(self).spec_bound() == old(self).spec_bound(),
                None => r is Ok,
            },
            r is Ok ==> forall|i: int| 0 <= i < old(self).spec_layout().len() ==>
                #[trigger] final(self).spec_bound()[i] == bound_after(
                    old(self).spec_bound()[i], old(self).spec_layout()[i].binding, writes.buffers@),
            r is Ok ==> r.unwrap()@.len() == writes.buffers@.len(),
            r is Ok ==> forall|k: int| 0 <= k < writes.buffers@.len() ==> ({
                let w = #[trigger] writes.buffers@[k];
                let p = binding_position(old(self).spec_layout(), w.binding_index).unwrap();
                r.unwrap()@[k] == DescriptorWrite {
                    set_id: old(self).spec_id(),
                    binding: w.binding_index,
                    descriptor_type: old(self).spec_layout()[p].descriptor_type,
                    buffer_id: w.buffer_id,
                    offset: 0,
                    range: w.buffer_size,
                }
            }),
    {
        let ws = &writes.buffers;
        let ghost layout = self.layout@;
        // First pass: check every write before anything changes.
        let mut plan: Vec<DescriptorWrite> = Vec::new();
        let mut positions: Vec<usize> = Vec::new();
        let mut k: usize = 0;
        while k < ws.len()
            invariant
                self.wf(),
                self == old(self),
                layout == self.layout@,
                layout == old(self).spec_layout(),
                ws@ == writes.buffers@,
                k <= ws@.len(),
                first_write_fault(layout, ws@.subrange(0, k as int)) is None,
                plan@.len() == k,
                positions@.len() == k,
                forall|j: int| 0 <= j < k ==> {
                    let w = #[trigger] ws@[j];
                    &&& binding_position(layout, w.binding_index) is Some
                    &&& positions@[j] as int == binding_position(layout, w.binding_index).unwrap()
                    &&& positions@[j] < layout.len()
                    &&& plan@[j] == DescriptorWrite {
                        set_id: self.id,
                        binding: w.binding_index,
                        descriptor_type: layout[positions@[j] as int].descriptor_type,
                        buffer_id: w.buffer_id,
                        offset: 0,
                        range: w.buffer_size,
                    }
                },
            decreases ws@.len() - k,
        {
            let w = ws[k];
            proof {
                let pre = ws@.subrange(0, k as int);
                let next = ws@.subrange(0, k + 1);
                assert(next.drop_last() =~= pre);
                assert(next.last() == w);
            }
            match self.position_of(w.binding_index) {
                None => {
                    proof {
                        let next = ws@.subrange(0, k + 1);
                        assert(write_fault(layout, w) == Some(GpuError::UnknownBinding(w.binding_index)));
                        assert(first_write_fault(layout, next) == Some(GpuError::UnknownBinding(w.binding_index)));
                        lemma_fault_prefix(layout, ws@, (k + 1) as nat);
                    }
                    return Err(GpuError::UnknownBinding(w.binding_index));
                }
                Some(p) => {
                    let t = self.layout[p].descriptor_type;
                    match t {
                        DescriptorType::UniformBuffer => {},
                        DescriptorType::StorageBuffer => {},
                        _ => {
                            proof {
                                let next = ws@.subrange(0, k + 1);
                                assert(!buffer_type_supported(t));
                                assert(write_fault(layout, w) == Some(GpuError::UnsupportedDescriptorType(w.binding_index)));
                                assert(first_write_fault(layout, next) == Some(GpuError::UnsupportedDescriptorType(w.binding_index)));
                                lemma_fault_prefix(layout, ws@, (k + 1) as nat);
                            }
                            return Err(GpuError::UnsupportedDescriptorType(w.binding_index));
                        }
                    }
                    plan.push(DescriptorWrite {
                        set_id: self.id,
                        binding: w.binding_index,
                        descriptor_type: t,
                        buffer_id: w.buffer_id,
                        offset: 0,
                        range: w.buffer_size,
                    });
                    positions.push(p);
                }
            }
            k = k + 1;
        }
        assert(ws@.subrange(0, ws@.len() as int) =~= ws@);
        // Second pass: every write is valid, apply them in order.
        let ghost before = self.bound@;
        let mut k: usize = 0;
        while k < ws.len()
            invariant
                self.wf(),
                self.id == old(self).id,
                self.layout_id == old(self).layout_id,
                layout == self.layout@,
                before == old(self).bound@,
                k <= ws@.len(),
                positions@.len() == ws@.len(),
                forall|j: int| 0 <= j < ws@.len() ==> {
                    let w = #[trigger] ws@[j];
                    &&& positions@[j] as int == binding_position(layout, w.binding_index).unwrap()
                    &&& positions@[j] < layout.len()
                    &&& binding_position(layout, w.binding_index) is Some
                },
                forall|i: int| 0 <= i < layout.len() ==> #[trigger] self.bound@[i] == bound_after(
                    before[i], layout[i].binding, ws@.subrange(0, k as int)),
            decreases ws@.len() - k,
        {
            let w = ws[k];
            let p = positions[k];
            self.bound.set(p, Some(BoundBuffer { buffer_id: w.buffer_id, range: w.buffer_size }));
            proof {
                let pre = ws@.subrange(0, k as int);
                let next = ws@.subrange(0, k + 1);
                assert(next.drop_last() =~= pre);
                assert(next.last() == w);
                assert(ws@[k as int] == w);
                assert forall|i: int| 0 <= i < layout.len() implies #[trigger] self.bound@[i] == bound_after(
                    before[i], layout[i].binding, next) by {
                    let q = binding_position(layout, w.binding_index).unwrap();
                    assert(layout[q].binding == w.binding_index);
                    if i != p as int && layout[i].binding == w.binding_index {
                        assert(has_repeated_binding(layout)) by {
                            if i < q {
                                assert(layout[i].binding == layout[q].binding);
                            } else {
                                assert(layout[q].binding == layout[i].binding);
                            }
                        }
                    }
                }
            }
            k = k + 1;
        }
        Ok(plan)
    }
}

/// In a sequence of distinct binding indices, `b` stands at position `i` alone.
proof fn lemma_position_unique(s: Seq<DescriptorSetLayoutBinding>, b: u32, i: int)
    requires
        !has_repeated_binding(s),
        0 <= i < s.len(),
        s[i].binding == b,
    ensures
        binding_position(s, b) == Some(i),
{
    assert(exists|x: int| 0 <= x < s.len() && #[trigger] s[x].binding == b);
    let p = binding_position(s, b).unwrap();
    assert(0 <= p < s.len() && s[p].binding == b);
    if p < i {
        assert(s[p].binding == s[i].binding);
    } else if i < p {
        assert(s[i].binding == s[p].binding);
    }
}

/// When a write of `writes[0..n)` is faulty, the first fault of that prefix is
/// the first fault of any longer prefix too.
proof fn lemma_fault_prefix(layout: Seq<DescriptorSetLayoutBinding>, writes: Seq<DescriptorBindingBufferWrite>, n: nat)
    requires
        n <= writes.len(),
        first_write_fault(layout, writes.subrange(0, n as int)) is Some,
    ensures
        first_write_fault(layout, writes) == first_write_fault(layout, writes.subrange(0, n as int)),
    decreases writes.len() - n,
{
    if n < writes.len() {
        let next = writes.subrange(0, (n + 1) as int);
        assert(next.drop_last() =~= writes.subrange(0, n as int));
        lemma_fault_prefix(layout, writes, n + 1);
    } else {
        assert(writes.subrange(0, n as int) =~= writes);
    }
}

} // verus!
