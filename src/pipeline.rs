use vstd::prelude::*;

use crate::error::GpuError;

verus! {

/// The programmable stage a shader module runs in.
#[derive(Debug, Clone, Copy, PartialEq, Eq, Structural)]
pub enum ShaderStage {
    Vertex,
    Fragment,
}

/// A compiled shader module and its stage.
#[derive(Debug, Clone, Copy, PartialEq, Eq, Structural)]
pub struct ShaderModuleInfo {
    pub module_id: u64,
    pub stage: ShaderStage,
}

/// A vertex buffer binding slot of a pipeline.
#[derive(Debug, Clone, Copy, PartialEq, Eq, Structural)]
pub struct VertexInputBinding {
    pub binding: u32,
    pub stride: u32,
    pub per_instance: bool,
}

/// A vertex attribute: where the shader reads it and which binding feeds it.
#[derive(Debug, Clone, Copy, PartialEq, Eq, Structural)]
pub struct VertexInputAttribute {
    pub location: u32,
    pub binding: u32,
    /// Vulkan format of the attribute.
    pub format: i32,
    pub offset: u32,
}

/// What a new graphics pipeline is asked to be.
pub struct PipelineDescriptor {
    /// Identifiers of the descriptor set layouts of the pipeline layout, in set order.
    pub descriptor_set_layouts: Vec<u64>,
    pub shader_modules: Vec<ShaderModuleInfo>,
    pub vertex_input_attributes: Vec<VertexInputAttribute>,
    pub vertex_input_bindings: Vec<VertexInputBinding>,
    /// One blend state is needed for each color attachment.
    pub color_blend_attachment_count: usize,
    /// Vulkan formats of the color attachments rendered to.
    pub color_attachment_formats: Vec<i32>,
    /// Vulkan format of the depth attachment.
    pub depth_attachment_format: i32,
}

/// Whether two entries of `keys` are equal.
pub open spec fn has_repeat(keys: Seq<u32>) -> bool {
    exists|i: int, j: int| 0 <= i < j < keys.len() && #[trigger] keys[i] == #[trigger] keys[j]
}

pub open spec fn stage_key(s: ShaderStage) -> u32 {
    match s {
        ShaderStage::Vertex => 0,
        ShaderStage::Fragment => 1,
    }
}

pub open spec fn stage_keys(d: PipelineDescriptor) -> Seq<u32> {
    d.shader_modules@.map_values(|m: ShaderModuleInfo| stage_key(m.stage))
}

pub open spec fn binding_keys(d: PipelineDescriptor) -> Seq<u32> {
    d.vertex_input_bindings@.map_values(|b: VertexInputBinding| b.binding)
}

pub open spec fn location_keys(d: PipelineDescriptor) -> Seq<u32> {
    d.vertex_input_attributes@.map_values(|a: VertexInputAttribute| a.location)
}

/// Whether some attribute reads from a binding that `d` does not declare.
pub open spec fn reads_undeclared_binding(d: PipelineDescriptor) -> bool {
    exists|k: int| 0 <= k < d.vertex_input_attributes@.len()
        && !binding_keys(d).contains(#[trigger] d.vertex_input_attributes@[k].binding)
}

/// Why `d` describes no valid pipeline, if it does not; checks go in this
/// order: blend states against color attachments, shader stages, vertex
/// bindings, attribute locations, attribute bindings.
pub open spec fn pipeline_fault(d: PipelineDescriptor) -> Option<GpuError> {
    if d.color_blend_attachment_count != d.color_attachment_formats@.len() {
        Some(GpuError::BlendAttachmentMismatch)
    } else if has_repeat(stage_keys(d)) {
        Some(GpuError::DuplicateShaderStage)
    } else if !stage_keys(d).contains(stage_key(ShaderStage::Vertex)) {
        Some(GpuError::MissingVertexStage)
    } else if has_repeat(binding_keys(d)) {
        Some(GpuError::DuplicateVertexBinding)
    } else if has_repeat(location_keys(d)) {
        Some(GpuError::DuplicateVertexLocation)
    } else if reads_undeclared_binding(d) {
        Some(GpuError::UnknownVertexBinding)
    } else {
        None
    }
}

fn repeats(keys: &Vec<u32>) -> (r: bool)
    ensures
        r == has_repeat(keys@),
{
    let mut j: usize = 0;
    while j < keys.len()
        invariant
            j <= keys@.len(),
            !has_repeat(keys@.subrange(0, j as int)),
        decreases keys@.len() - j,
    {
        let mut i: usize = 0;
        while i < j
            invariant
                i <= j < keys@.len(),
                forall|k: int| 0 <= k < i ==> #[trigger] keys@[k] != keys@[j as int],
            decreases j - i,
        {
            if keys[i] == keys[j] {
                assert(keys@[i as int] == keys@[j as int]);
                return true;
            }
            i = i + 1;
        }
        proof {
            let prev = keys@.subrange(0, j as int);
            let next = keys@.subrange(0, j + 1);
            if has_repeat(next) {
                let (x, y) = choose|x: int, y: int| 0 <= x < y < next.len() && #[trigger] next[x] == #[trigger] next[y];
                if y < j {
                    assert(prev[x] == prev[y]);
                } else {
                    assert(keys@[x] == keys@[j as int]);
                }
            }
        }
        j = j + 1;
    }
    assert(keys@.subrange(0, keys@.len() as int) =~= keys@);
    false
}

fn contains_key(keys: &Vec<u32>, key: u32) -> (r: bool)
    ensures
        r == keys@.contains(key),
{
    let mut i: usize = 0;
    while i < keys.len()
        invariant
            i <= keys@.len(),
            forall|k: int| 0 <= k < i ==> #[trigger] keys@[k] != key,
        decreases keys@.len() - i,
    {
        if keys[i] == key {
            assert(keys@[i as int] == key);
            return true;
        }
        i = i + 1;
    }
    false
}

/// Checks `d` and reports the first fault of `pipeline_fault`.
pub fn validate_pipeline(d: &PipelineDescriptor) -> (r: Result<(), GpuError>)
    ensures
        match pipeline_fault(*d) {
            Some(e) => r == Err::<(), GpuError>(e),
            None => r is Ok,
        },
{
    if d.color_blend_attachment_count != d.color_attachment_formats.len() {
        return Err(GpuError::BlendAttachmentMismatch);
    }
    let mut stages: Vec<u32> = Vec::new();
    let mut i: usize = 0;
    while i < d.shader_modules.len()
        invariant
            i <= d.shader_modules@.len(),
            stages@ == stage_keys(*d).subrange(0, i as int),
        decreases d.shader_modules@.len() - i,
    {
        let key: u32 = match d.shader_modules[i].stage {
            ShaderStage::Vertex => 0,
            ShaderStage::Fragment => 1,
        };
        stages.push(key);
        assert(stages@ =~= stage_keys(*d).subrange(0, i + 1));
        i = i + 1;
    }
    assert(stages@ =~= stage_keys(*d));
    if repeats(&stages) {
        return Err(GpuError::DuplicateShaderStage);
    }
    if !contains_key(&stages, 0) {
        return Err(GpuError::MissingVertexStage);
    }
    let mut bindings: Vec<u32> = Vec::new();
    let mut i: usize = 0;
    while i < d.vertex_input_bindings.len()
        invariant
            i <= d.vertex_input_bindings@.len(),
            bindings@ == binding_keys(*d).subrange(0, i as int),
        decreases d.vertex_input_bindings@.len() - i,
    {
        bindings.push(d.vertex_input_bindings[i].binding);
        assert(bindings@ =~= binding_keys(*d).subrange(0, i + 1));
        i = i + 1;
    }
    assert(bindings@ =~= binding_keys(*d));
    if repeats(&bindings) {
        return Err(GpuError::DuplicateVertexBinding);
    }
    let mut locations: Vec<u32> = Vec::new();
    let mut i: usize = 0;
    while i < d.vertex_input_attributes.len()
        invariant
            i <= d.vertex_input_attributes@.len(),
            locations@ == location_keys(*d).subrange(0, i as int),
        decreases d.vertex_input_attributes@.len() - i,
    {
        locations.push(d.vertex_input_attributes[i].location);
        assert(locations@ =~= location_keys(*d).subrange(0, i + 1));
        i = i + 1;
    }
    assert(locations@ =~= location_keys(*d));
    if repeats(&locations) {
        return Err(GpuError::DuplicateVertexLocation);
    }
    let mut i: usize = 0;
    while i < d.vertex_input_attributes.len()
        invariant
            i <= d.vertex_input_attributes@.len(),
            bindings@ == binding_keys(*d),
            forall|k: int| 0 <= k < i ==> binding_keys(*d).contains(#[trigger] d.vertex_input_attributes@[k].binding),
            !has_repeat(binding_keys(*d)),
            !has_repeat(location_keys(*d)),
            !has_repeat(stage_keys(*d)),
            stage_keys(*d).contains(stage_key(ShaderStage::Vertex)),
            d.color_blend_attachment_count == d.color_attachment_formats@.len(),
        decreases d.vertex_input_attributes@.len() - i,
    {
        if !contains_key(&bindings, d.vertex_input_attributes[i].binding) {
            assert(!binding_keys(*d).contains(d.vertex_input_attributes@[i as int].binding));
            assert(reads_undeclared_binding(*d));
            return Err(GpuError::UnknownVertexBinding);
        }
        i = i + 1;
    }
    Ok(())
}

/// An immutable graphics pipeline: the layouts it was built with, which it
/// keeps alive, and the attachment formats it renders to.
pub struct Pipeline {
    id: u64,
    descriptor_set_layouts: Vec<u64>,
    color_attachment_formats: Vec<i32>,
    depth_attachment_format: i32,
}

impl Pipeline {
    pub closed spec fn spec_id(&self) -> u64 {
        self.id
    }

    pub closed spec fn spec_layouts(&self) -> Seq<u64> {
        self.descriptor_set_layouts@
    }

    pub closed spec fn spec_color_formats(&self) -> Seq<i32> {
        self.color_attachment_formats@
    }

    pub closed spec fn spec_depth_format(&self) -> i32 {
        self.depth_attachment_format
    }

    /// The pipeline that `d` describes, under identifier `id`, or the first
    /// fault of `d`.
    pub(crate) fn new(id: u64, d: PipelineDescriptor) -> (r: Result<Pipeline, GpuError>)
        ensures
            match pipeline_fault(d) {
                Some(e) => r == Err::<Pipeline, GpuError>(e),
                None => r is Ok,
            },
            r is Ok ==> r.unwrap().spec_id() == id && r.unwrap().spec_layouts() == d.descriptor_set_layouts@
                && r.unwrap().spec_color_formats() == d.color_attachment_formats@
                && r.unwrap().spec_depth_format() == d.depth_attachment_format,
    {
        match validate_pipeline(&d) {
            Err(e) => Err(e),
            Ok(()) => Ok(Pipeline {
                id,
                descriptor_set_layouts: d.descriptor_set_layouts,
                color_attachment_formats: d.color_attachment_formats,
                depth_attachment_format: d.depth_attachment_format,
            }),
        }
    }

    pub fn id(&self) -> (r: u64)
        ensures
            r == self.spec_id(),
    {
        self.id
    }

    pub fn descriptor_set_layouts(&self) -> (r: &[u64])
        ensures
            r@ == self.spec_layouts(),
    {
        self.descriptor_set_layouts.as_slice()
    }

    pub fn color_attachment_formats(&self) -> (r: &[i32])
        ensures
            r@ == self.spec_color_formats(),
    {
        self.color_attachment_formats.as_slice()
    }

    pub fn depth_attachment_format(&self) -> (r: i32)
        ensures
            r == self.spec_depth_format(),
    {
        self.depth_attachment_format
    }
}

} // verus!
