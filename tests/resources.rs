use chizumu_graphics::command::{CommandBuffer, CommandBufferManager};
use chizumu_graphics::descriptor::{
    BoundBuffer, DescriptorBindingBufferWrite, DescriptorBindingWrites, DescriptorSetLayoutBinding,
    DescriptorSetLayoutDescriptor, DescriptorType,
};
use chizumu_graphics::device::{Device, GLOBAL_DESCRIPTOR_POOL_MAX_SETS};
use chizumu_graphics::error::GpuError;
use chizumu_graphics::pipeline::{
    PipelineDescriptor, ShaderModuleInfo, ShaderStage, VertexInputAttribute, VertexInputBinding,
};
use chizumu_graphics::resource::{BufferDescriptor, MemoryLocation};

#[test]
fn pool_quota_is_enforced_until_reset() {
    let mut m = CommandBufferManager::new(2, 3);
    assert_eq!(m.get_command_buffer_at_pool(1), Ok(CommandBuffer { index: 3 }));
    assert_eq!(m.get_command_buffer_at_pool(1), Ok(CommandBuffer { index: 4 }));
    assert_eq!(m.get_command_buffer_at_pool(1), Ok(CommandBuffer { index: 5 }));
    assert_eq!(m.get_command_buffer_at_pool(1), Err(GpuError::CommandBuffersExhausted));
    assert_eq!(m.get_command_buffer_at_pool(0), Ok(CommandBuffer { index: 0 }));
    m.reset_command_pools(&[1]);
    assert_eq!(m.get_command_buffer_at_pool(1), Ok(CommandBuffer { index: 3 }));
    assert_eq!(m.get_command_buffer_at_pool(0), Ok(CommandBuffer { index: 1 }));
    assert!(m.is_issued(1, 3));
    assert!(!m.is_issued(1, 4));
}

#[test]
fn host_visible_buffer_reads_back_what_was_written() {
    let mut device = Device::new();
    let desc = BufferDescriptor { size: 8, usage_flags: 0x10, memory_location: MemoryLocation::CpuToGpu };
    let mut buffer = device.create_buffer(&desc, true).unwrap();
    assert_eq!(buffer.mapped_data(), Some(&[0u8; 8][..]));
    let values: [u8; 5] = [9, 8, 7, 6, 5];
    buffer.write_data(&values).unwrap();
    assert_eq!(buffer.mapped_data(), Some(&[9u8, 8, 7, 6, 5, 0, 0, 0][..]));
    assert_eq!(&buffer.mapped_data().unwrap()[..5], &values[..]);
}

#[test]
fn buffer_write_failures() {
    let mut device = Device::new();
    let local = BufferDescriptor { size: 8, usage_flags: 0x80, memory_location: MemoryLocation::GpuOnly };
    let mut b = device.create_buffer(&local, true).unwrap();
    assert_eq!(b.write_data(&[1, 2]), Err(GpuError::NotHostVisible));
    assert_eq!(b.mapped_data(), None);
    let visible = BufferDescriptor { size: 2, usage_flags: 0x10, memory_location: MemoryLocation::GpuToCpu };
    let mut v = device.create_buffer(&visible, true).unwrap();
    assert_eq!(v.write_data(&[1, 2, 3]), Err(GpuError::WriteOutOfBounds));
    assert_eq!(v.mapped_data(), Some(&[0u8, 0][..]));
}

#[test]
fn buffer_creation_failures_and_ids() {
    let mut device = Device::new();
    let zero = BufferDescriptor { size: 0, usage_flags: 0x10, memory_location: MemoryLocation::CpuToGpu };
    assert!(matches!(device.create_buffer(&zero, true), Err(GpuError::ZeroSizedBuffer)));
    let desc = BufferDescriptor { size: 64, usage_flags: 0x20, memory_location: MemoryLocation::Unknown };
    assert!(matches!(device.create_buffer(&desc, false), Err(GpuError::OutOfDeviceMemory)));
    let a = device.create_buffer(&desc, true).unwrap();
    let b = device.create_buffer(&desc, true).unwrap();
    assert_eq!(a.id(), 0);
    assert_eq!(b.id(), 1);
    assert_eq!(a.size(), 64);
    assert_eq!(a.usage_flags(), 0x23);
    assert_eq!(a.memory_location(), MemoryLocation::Unknown);
}

fn binding(binding: u32, descriptor_type: DescriptorType) -> DescriptorSetLayoutBinding {
    DescriptorSetLayoutBinding { binding, descriptor_type, descriptor_count: 1, stage_flags: 1 }
}

#[test]
fn descriptor_update_with_unknown_binding_changes_nothing() {
    let mut device = Device::new();
    let layout = device
        .create_descriptor_set_layout(&DescriptorSetLayoutDescriptor {
            bindings: vec![binding(0, DescriptorType::UniformBuffer), binding(2, DescriptorType::StorageBuffer)],
            flags: 0,
        })
        .unwrap();
    let mut set = device.create_descriptor_set(&layout, true).unwrap();
    let desc = BufferDescriptor { size: 32, usage_flags: 0x30, memory_location: MemoryLocation::CpuToGpu };
    let a = device.create_buffer(&desc, true).unwrap();
    let b = device.create_buffer(&desc, true).unwrap();
    let ok = DescriptorBindingWrites { buffers: vec![DescriptorBindingBufferWrite::new(&a, 0)] };
    let plan = device.update_descriptor_set(&mut set, &ok).unwrap();
    assert_eq!(plan.len(), 1);
    assert_eq!(plan[0].binding, 0);
    assert_eq!(plan[0].buffer_id, a.id());
    assert_eq!(plan[0].range, 32);
    assert_eq!(plan[0].descriptor_type, DescriptorType::UniformBuffer);
    let bad = DescriptorBindingWrites {
        buffers: vec![DescriptorBindingBufferWrite::new(&b, 2), DescriptorBindingBufferWrite::new(&b, 1)],
    };
    assert!(matches!(device.update_descriptor_set(&mut set, &bad), Err(GpuError::UnknownBinding(1))));
    assert_eq!(set.bound_buffer(0), Some(BoundBuffer { buffer_id: a.id(), range: 32 }));
    assert_eq!(set.bound_buffer(2), None);
    assert_eq!(set.bound_buffer(1), None);
}

#[test]
fn descriptor_update_rejects_unsupported_type_and_last_write_wins() {
    let mut device = Device::new();
    let layout = device
        .create_descriptor_set_layout(&DescriptorSetLayoutDescriptor {
            bindings: vec![binding(0, DescriptorType::CombinedImageSampler), binding(1, DescriptorType::StorageBuffer)],
            flags: 0,
        })
        .unwrap();
    let mut set = device.create_descriptor_set(&layout, true).unwrap();
    assert_eq!(set.layout_id(), layout.id());
    let desc = BufferDescriptor { size: 16, usage_flags: 0x20, memory_location: MemoryLocation::GpuOnly };
    let a = device.create_buffer(&desc, true).unwrap();
    let b = device.create_buffer(&desc, true).unwrap();
    let bad = DescriptorBindingWrites { buffers: vec![DescriptorBindingBufferWrite::new(&a, 0)] };
    assert!(matches!(device.update_descriptor_set(&mut set, &bad), Err(GpuError::UnsupportedDescriptorType(0))));
    let twice = DescriptorBindingWrites {
        buffers: vec![DescriptorBindingBufferWrite::new(&a, 1), DescriptorBindingBufferWrite::new(&b, 1)],
    };
    assert_eq!(device.update_descriptor_set(&mut set, &twice).unwrap().len(), 2);
    assert_eq!(set.bound_buffer(1), Some(BoundBuffer { buffer_id: b.id(), range: 16 }));
}

#[test]
fn layout_with_repeated_binding_is_refused() {
    let mut device = Device::new();
    let r = device.create_descriptor_set_layout(&DescriptorSetLayoutDescriptor {
        bindings: vec![binding(3, DescriptorType::UniformBuffer), binding(3, DescriptorType::StorageBuffer)],
        flags: 0,
    });
    assert!(matches!(r, Err(GpuError::DuplicateBinding)));
    let layout = device
        .create_descriptor_set_layout(&DescriptorSetLayoutDescriptor {
            bindings: vec![binding(3, DescriptorType::UniformBuffer)],
            flags: 0,
        })
        .unwrap();
    assert_eq!(layout.binding(3), Some(binding(3, DescriptorType::UniformBuffer)));
    assert_eq!(layout.binding(4), None);
    assert_eq!(layout.bindings().len(), 1);
}

#[test]
fn descriptor_pool_runs_out() {
    let mut device = Device::new();
    let layout = device
        .create_descriptor_set_layout(&DescriptorSetLayoutDescriptor { bindings: vec![], flags: 0 })
        .unwrap();
    for _ in 0..GLOBAL_DESCRIPTOR_POOL_MAX_SETS {
        assert!(device.create_descriptor_set(&layout, true).is_ok());
    }
    assert!(matches!(device.create_descriptor_set(&layout, true), Err(GpuError::DescriptorPoolExhausted)));
    assert_eq!(device.descriptor_sets_allocated(), GLOBAL_DESCRIPTOR_POOL_MAX_SETS);
}

#[test]
fn descriptor_pool_refusal_counts_nothing() {
    let mut device = Device::new();
    let layout = device
        .create_descriptor_set_layout(&DescriptorSetLayoutDescriptor { bindings: vec![], flags: 0 })
        .unwrap();
    assert!(matches!(device.create_descriptor_set(&layout, false), Err(GpuError::DescriptorPoolExhausted)));
    assert_eq!(device.descriptor_sets_allocated(), 0);
    let set = device.create_descriptor_set(&layout, true).unwrap();
    assert_eq!(set.id(), 1);
    assert_eq!(device.descriptor_sets_allocated(), 1);
}

fn pipeline_desc() -> PipelineDescriptor {
    PipelineDescriptor {
        descriptor_set_layouts: vec![7],
        shader_modules: vec![
            ShaderModuleInfo { module_id: 1, stage: ShaderStage::Vertex },
            ShaderModuleInfo { module_id: 2, stage: ShaderStage::Fragment },
        ],
        vertex_input_attributes: vec![VertexInputAttribute { location: 0, binding: 0, format: 106, offset: 0 }],
        vertex_input_bindings: vec![VertexInputBinding { binding: 0, stride: 12, per_instance: false }],
        color_blend_attachment_count: 1,
        color_attachment_formats: vec![44],
        depth_attachment_format: 126,
    }
}

#[test]
fn pipeline_is_created_from_a_valid_description() {
    let mut device = Device::new();
    let p = device.create_pipeline(pipeline_desc()).unwrap();
    assert_eq!(p.descriptor_set_layouts(), &[7u64][..]);
    assert_eq!(p.color_attachment_formats(), &[44i32][..]);
    assert_eq!(p.depth_attachment_format(), 126);
    assert_eq!(p.id(), 0);
}

#[test]
fn pipeline_faults_are_reported() {
    let mut device = Device::new();
    let mut d = pipeline_desc();
    d.color_blend_attachment_count = 2;
    assert!(matches!(device.create_pipeline(d), Err(GpuError::BlendAttachmentMismatch)));
    let mut d = pipeline_desc();
    d.shader_modules[1].stage = ShaderStage::Vertex;
    assert!(matches!(device.create_pipeline(d), Err(GpuError::DuplicateShaderStage)));
    let mut d = pipeline_desc();
    d.shader_modules.remove(0);
    assert!(matches!(device.create_pipeline(d), Err(GpuError::MissingVertexStage)));
    let mut d = pipeline_desc();
    d.vertex_input_bindings.push(VertexInputBinding { binding: 0, stride: 4, per_instance: true });
    assert!(matches!(device.create_pipeline(d), Err(GpuError::DuplicateVertexBinding)));
    let mut d = pipeline_desc();
    d.vertex_input_attributes.push(VertexInputAttribute { location: 0, binding: 0, format: 106, offset: 12 });
    assert!(matches!(device.create_pipeline(d), Err(GpuError::DuplicateVertexLocation)));
    let mut d = pipeline_desc();
    d.vertex_input_attributes[0].binding = 5;
    assert!(matches!(device.create_pipeline(d), Err(GpuError::UnknownVertexBinding)));
}
