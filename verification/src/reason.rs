//! Why a draw cannot be made, and why a resident target cannot be read.
//!
//! Every reason has a slug that no other has, made of characters that any log
//! takes, and a line that carries the values that bear on it.

use crate::decline::{add_field, fields_line, fields_text, line_of};
use crate::text::{decimal, decimal_text, flag, flag_text, hexadecimal, hexadecimal_text, owned};
use crate::text::{append_text, signed_decimal, signed_text};
use crate::vk::{show_vk_format, Format};
use vstd::prelude::*;

verus! {

/// Why a format of the guest has no counterpart.
#[derive(Clone, Copy, Debug, PartialEq, Eq)]
pub enum TranslateReason {
    /// The format cannot be read from a vertex buffer.
    FormatNotVertexBuffer(u64),
    /// Another untranslatable value.
    Untranslatable {
        slug: &'static str,
        value: u64,
    },
}

impl TranslateReason {
    /// The name of the reason.
    pub open spec fn slug_text(self) -> Seq<char> {
        match self {
            TranslateReason::FormatNotVertexBuffer(_) => "format_not_vertex_buffer"@,
            TranslateReason::Untranslatable { slug, .. } => slug@,
        }
    }

    /// The value that has no counterpart.
    pub open spec fn value_spec(self) -> u64 {
        match self {
            TranslateReason::FormatNotVertexBuffer(value) => value,
            TranslateReason::Untranslatable { value, .. } => value,
        }
    }

    /// The name of the reason.
    pub fn slug(&self) -> (slug: &'static str)
        ensures
            slug@ == self.slug_text(),
    {
        match self {
            TranslateReason::FormatNotVertexBuffer(_) => "format_not_vertex_buffer",
            TranslateReason::Untranslatable { slug, .. } => slug,
        }
    }

    /// The value that has no counterpart.
    pub fn value(&self) -> (value: u64)
        ensures
            value == self.value_spec(),
    {
        match self {
            TranslateReason::FormatNotVertexBuffer(value) => *value,
            TranslateReason::Untranslatable { value, .. } => *value,
        }
    }
}

/// Why a draw cannot be made.
///
/// The fields whose names end in `bits` hold the bit pattern of a
/// single-precision number.
#[derive(Clone, Copy, Debug, PartialEq, Eq)]
pub enum DrawReason {
    /// The shader is no valid SPIR-V module.
    SpirvInvalid,
    /// The driver failed this call before and is not asked again.
    DriverCallQuarantined,
    /// A resident image that is not two-dimensional is sampled.
    ResidentSampledNot2d {
        binding: u32,
    },
    /// A sampled image is null and the device has no null descriptor.
    NullSampledImageUnsupported {
        binding: u32,
    },
    /// A sampler is null and the device has no null descriptor.
    NullSamplerUnsupported {
        binding: u32,
    },
    /// More viewports are asked for than the device has.
    ViewportSlotsUnsupported {
        requested: u32,
        limit: u32,
        multi_viewport: bool,
    },
    /// Samples cannot be counted exactly.
    VisibilityCountingUnsupported {
        occlusion_query_precise: bool,
    },
    /// An attachment and the rasteriser have different sample counts.
    MultisampleAttachmentSampleCountMismatch {
        attachment: u32,
        raster: u32,
    },
    /// A multisample pass has no resident target.
    MultisampleResidentTargetMissing {
        sample_count: u32,
    },
    /// A multisample image cannot be transferred linearly.
    MultisampleLinearTransferUnsupported {
        sample_count: u32,
    },
    /// The device does not offer the sample count.
    MultisampleSampleCountUnsupported {
        requested: u32,
        limit: u32,
    },
    /// The store action cannot be kept on a multisample attachment.
    MultisampleStoreActionUnsupported {
        store_action: u16,
    },
    /// The load action cannot be kept on a multisample attachment.
    MultisampleLoadActionUnsupported {
        load_action: u16,
    },
    /// The pass has a shape that cannot be resolved.
    MultisampleResolveShapeUnsupported {
        color_targets: u32,
        depth: bool,
        color_input: bool,
    },
    /// The depth format cannot be cleared as a whole.
    AttachmentWideDepthClearUnsupported {
        format: i32,
    },
    /// More secondary attachments are asked for than a pass takes.
    SecondaryAttachmentCap {
        requested: usize,
        cap: usize,
    },
    /// The device has no anisotropic filtering.
    SamplerAnisotropyUnsupported,
    /// The device cannot mirror and clamp to the edge.
    SamplerMirrorClampToEdgeUnsupported,
    /// A sampler in pixel coordinates has two different filters.
    SamplerPixelMixedFilters,
    /// A sampler in pixel coordinates is mipmapped.
    SamplerPixelMipmapped,
    /// A sampler in pixel coordinates wraps.
    SamplerPixelAddressMode,
    /// A sampler in pixel coordinates is anisotropic.
    SamplerPixelAnisotropy,
    /// A sampler in pixel coordinates compares.
    SamplerUnnormalizedCompare,
    /// The device cannot blend from two sources.
    DualSourceBlendUnsupported,
    /// The device only fills polygons.
    FillModeNonSolidUnsupported,
    /// The device only draws lines of width one.
    WideLinesUnsupported {
        requested_bits: u32,
    },
    /// The line width is outside what the device offers.
    LineWidthOutOfRange {
        requested_bits: u32,
        min_bits: u32,
        max_bits: u32,
    },
    /// A component of the depth bias is not finite.
    DepthBiasNonFinite {
        component: u8,
        value_bits: u32,
    },
    /// The device cannot clamp the depth bias.
    DepthBiasClampUnsupported {
        clamp_bits: u32,
    },
    /// The device cannot clamp depth.
    DepthClampUnsupported,
    /// A colour attachment has a format without translation.
    ColorAttachmentFormat(TranslateReason),
    /// A vertex attribute has a format without translation.
    VertexFormat(TranslateReason),
    /// A vertex attribute never advances.
    ConstantVertexAttribute,
    /// The device has no instance rate divisor.
    InstanceRateDivisorUnsupported {
        step_rate: u32,
    },
    /// The instance rate divisor is beyond the device's limit.
    InstanceRateDivisorOverLimit {
        step_rate: u32,
        limit: u32,
    },
    /// No queue takes both graphics and compute work.
    NoCombinedGraphicsComputeQueue,
    /// A descriptor array cannot be bound on this device.
    DescriptorArrayUnsupported {
        binding: u32,
        count: u32,
        unpopulated: u32,
        required_descriptors: u32,
        descriptor_limit: u32,
        partially_bound: bool,
        null_descriptor: bool,
        dynamic_indexing: bool,
    },
    /// Two stages declare one binding differently.
    DescriptorBindingConflict {
        binding: u32,
        first_type: u32,
        first_count: u32,
        second_type: u32,
        second_count: u32,
    },
    /// No host-visible memory takes a staging buffer.
    NoHostVisibleMemoryForStaging {
        memory_type_bits: u32,
    },
    /// No host-visible memory takes a readback buffer.
    NoHostVisibleMemoryForReadback {
        memory_type_bits: u32,
    },
    /// No host-visible memory takes the statistics.
    NoHostVisibleMemoryForStats {
        memory_type_bits: u32,
    },
    /// No device memory takes a storage image.
    NoDeviceLocalMemoryForStorageImage {
        memory_type_bits: u32,
    },
    /// No device memory takes a slab.
    NoDeviceLocalMemoryForSlab {
        memory_type_bits: u32,
    },
    /// No device memory takes a secondary target.
    NoDeviceLocalMemoryForMrtSecondary {
        memory_type_bits: u32,
    },
    /// No device memory takes a depth target.
    NoDeviceLocalMemoryForDepth {
        memory_type_bits: u32,
    },
    /// No device memory takes a gathered guest buffer.
    NoDeviceLocalMemoryForGuestGather {
        memory_type_bits: u32,
    },
    /// There is no swapchain.
    SwapchainUnavailable,
    /// The queue cannot present.
    QueueCannotPresent {
        queue_family: u32,
    },
    /// The swapchain's images cannot be copied to.
    SwapchainLacksTransferDst,
    /// The surface offers no format.
    SwapchainNoSurfaceFormat,
    /// The surface offers no way to composite.
    SwapchainNoCompositeAlpha,
    /// A shader uses a binding that the layout lacks.
    UsedBindingAbsentFromLayout {
        binding: u32,
        fragment: bool,
    },
}

/// The name of the shader stage.
pub open spec fn stage_text(fragment: bool) -> Seq<char> {
    if fragment {
        "fragment"@
    } else {
        "vertex"@
    }
}

impl DrawReason {
    /// The name of the reason.
    pub open spec fn slug_text(self) -> Seq<char> {
        match self {
            DrawReason::SpirvInvalid => "spirv_module_invalid"@,
            DrawReason::DriverCallQuarantined => "driver_call_quarantined"@,
            DrawReason::ResidentSampledNot2d { .. } => "resident_sampled_not_2d"@,
            DrawReason::NullSampledImageUnsupported { .. } => "null_sampled_image_unsupported"@,
            DrawReason::NullSamplerUnsupported { .. } => "null_sampler_unsupported"@,
            DrawReason::ViewportSlotsUnsupported { .. } => "viewport_slots_unsupported"@,
            DrawReason::VisibilityCountingUnsupported { .. } => "visibility_counting_unsupported"@,
            DrawReason::MultisampleAttachmentSampleCountMismatch { .. } => "multisample_attachment_sample_count_mismatch"@,
            DrawReason::MultisampleResidentTargetMissing { .. } => "multisample_resident_target_missing"@,
            DrawReason::MultisampleLinearTransferUnsupported { .. } => "multisample_linear_transfer_unsupported"@,
            DrawReason::MultisampleSampleCountUnsupported { .. } => "multisample_sample_count_unsupported"@,
            DrawReason::MultisampleStoreActionUnsupported { .. } => "multisample_store_action_unsupported"@,
            DrawReason::MultisampleLoadActionUnsupported { .. } => "multisample_load_action_unsupported"@,
            DrawReason::MultisampleResolveShapeUnsupported { .. } => "multisample_resolve_shape_unsupported"@,
            DrawReason::AttachmentWideDepthClearUnsupported { .. } => "attachment_wide_depth_clear_unsupported"@,
            DrawReason::SecondaryAttachmentCap { .. } => "secondary_attachment_cap"@,
            DrawReason::SamplerAnisotropyUnsupported => "sampler_anisotropy_unsupported"@,
            DrawReason::SamplerMirrorClampToEdgeUnsupported => "sampler_mirror_clamp_to_edge_unsupported"@,
            DrawReason::SamplerPixelMixedFilters => "sampler_pixel_mixed_filters"@,
            DrawReason::SamplerPixelMipmapped => "sampler_pixel_mipmapped"@,
            DrawReason::SamplerPixelAddressMode => "sampler_pixel_address_mode"@,
            DrawReason::SamplerPixelAnisotropy => "sampler_pixel_anisotropy"@,
            DrawReason::SamplerUnnormalizedCompare => "sampler_unnormalized_compare"@,
            DrawReason::DualSourceBlendUnsupported => "dual_source_blend_unsupported"@,
            DrawReason::FillModeNonSolidUnsupported => "fill_mode_non_solid_unsupported"@,
            DrawReason::WideLinesUnsupported { .. } => "wide_lines_unsupported"@,
            DrawReason::LineWidthOutOfRange { .. } => "line_width_out_of_range"@,
            DrawReason::DepthBiasNonFinite { .. } => "depth_bias_non_finite"@,
            DrawReason::DepthBiasClampUnsupported { .. } => "depth_bias_clamp_unsupported"@,
            DrawReason::DepthClampUnsupported => "depth_clamp_unsupported"@,
            DrawReason::ColorAttachmentFormat(reason) => reason.slug_text(),
            DrawReason::VertexFormat(reason) => reason.slug_text(),
            DrawReason::ConstantVertexAttribute => "constant_vertex_attribute"@,
            DrawReason::InstanceRateDivisorUnsupported { .. } => "instance_rate_divisor_unsupported"@,
            DrawReason::InstanceRateDivisorOverLimit { .. } => "instance_rate_divisor_over_limit"@,
            DrawReason::NoCombinedGraphicsComputeQueue => "no_combined_graphics_compute_queue"@,
            DrawReason::DescriptorArrayUnsupported { .. } => "descriptor_array_unsupported"@,
            DrawReason::DescriptorBindingConflict { .. } => "descriptor_binding_conflict"@,
            DrawReason::NoHostVisibleMemoryForStaging { .. } => "no_host_visible_memory_for_staging"@,
            DrawReason::NoHostVisibleMemoryForReadback { .. } => "no_host_visible_memory_for_readback"@,
            DrawReason::NoHostVisibleMemoryForStats { .. } => "no_host_visible_memory_for_stats"@,
            DrawReason::NoDeviceLocalMemoryForStorageImage { .. } => "no_device_local_memory_for_storage_image"@,
            DrawReason::NoDeviceLocalMemoryForSlab { .. } => "no_device_local_memory_for_slab"@,
            DrawReason::NoDeviceLocalMemoryForMrtSecondary { .. } => "no_device_local_memory_for_mrt_secondary"@,
            DrawReason::NoDeviceLocalMemoryForDepth { .. } => "no_device_local_memory_for_depth"@,
            DrawReason::NoDeviceLocalMemoryForGuestGather { .. } => "no_device_local_memory_for_guest_gather"@,
            DrawReason::SwapchainUnavailable => "swapchain_unavailable"@,
            DrawReason::QueueCannotPresent { .. } => "queue_cannot_present"@,
            DrawReason::SwapchainLacksTransferDst => "swapchain_lacks_transfer_dst"@,
            DrawReason::SwapchainNoSurfaceFormat => "swapchain_no_surface_format"@,
            DrawReason::SwapchainNoCompositeAlpha => "swapchain_no_composite_alpha"@,
            DrawReason::UsedBindingAbsentFromLayout { .. } => "draw_used_binding_absent_from_layout"@,
        }
    }

    /// The place of the reason in the list of its kind.
    pub open spec fn term(self) -> nat {
        match self {
            DrawReason::SpirvInvalid => 0,
            DrawReason::DriverCallQuarantined => 1,
            DrawReason::ResidentSampledNot2d { .. } => 2,
            DrawReason::NullSampledImageUnsupported { .. } => 3,
            DrawReason::NullSamplerUnsupported { .. } => 4,
            DrawReason::ViewportSlotsUnsupported { .. } => 5,
            DrawReason::VisibilityCountingUnsupported { .. } => 6,
            DrawReason::MultisampleAttachmentSampleCountMismatch { .. } => 7,
            DrawReason::MultisampleResidentTargetMissing { .. } => 8,
            DrawReason::MultisampleLinearTransferUnsupported { .. } => 9,
            DrawReason::MultisampleSampleCountUnsupported { .. } => 10,
            DrawReason::MultisampleStoreActionUnsupported { .. } => 11,
            DrawReason::MultisampleLoadActionUnsupported { .. } => 12,
            DrawReason::MultisampleResolveShapeUnsupported { .. } => 13,
            DrawReason::AttachmentWideDepthClearUnsupported { .. } => 14,
            DrawReason::SecondaryAttachmentCap { .. } => 15,
            DrawReason::SamplerAnisotropyUnsupported => 16,
            DrawReason::SamplerMirrorClampToEdgeUnsupported => 17,
            DrawReason::SamplerPixelMixedFilters => 18,
            DrawReason::SamplerPixelMipmapped => 19,
            DrawReason::SamplerPixelAddressMode => 20,
            DrawReason::SamplerPixelAnisotropy => 21,
            DrawReason::SamplerUnnormalizedCompare => 22,
            DrawReason::DualSourceBlendUnsupported => 23,
            DrawReason::FillModeNonSolidUnsupported => 24,
            DrawReason::WideLinesUnsupported { .. } => 25,
            DrawReason::LineWidthOutOfRange { .. } => 26,
            DrawReason::DepthBiasNonFinite { .. } => 27,
            DrawReason::DepthBiasClampUnsupported { .. } => 28,
            DrawReason::DepthClampUnsupported => 29,
            DrawReason::ColorAttachmentFormat(_) => 30,
            DrawReason::VertexFormat(_) => 31,
            DrawReason::ConstantVertexAttribute => 32,
            DrawReason::InstanceRateDivisorUnsupported { .. } => 33,
            DrawReason::InstanceRateDivisorOverLimit { .. } => 34,
            DrawReason::NoCombinedGraphicsComputeQueue => 35,
            DrawReason::DescriptorArrayUnsupported { .. } => 36,
            DrawReason::DescriptorBindingConflict { .. } => 37,
            DrawReason::NoHostVisibleMemoryForStaging { .. } => 38,
            DrawReason::NoHostVisibleMemoryForReadback { .. } => 39,
            DrawReason::NoHostVisibleMemoryForStats { .. } => 40,
            DrawReason::NoDeviceLocalMemoryForStorageImage { .. } => 41,
            DrawReason::NoDeviceLocalMemoryForSlab { .. } => 42,
            DrawReason::NoDeviceLocalMemoryForMrtSecondary { .. } => 43,
            DrawReason::NoDeviceLocalMemoryForDepth { .. } => 44,
            DrawReason::NoDeviceLocalMemoryForGuestGather { .. } => 45,
            DrawReason::SwapchainUnavailable => 46,
            DrawReason::QueueCannotPresent { .. } => 47,
            DrawReason::SwapchainLacksTransferDst => 48,
            DrawReason::SwapchainNoSurfaceFormat => 49,
            DrawReason::SwapchainNoCompositeAlpha => 50,
            DrawReason::UsedBindingAbsentFromLayout { .. } => 51,
        }
    }

    /// The reason takes its name from the translation that failed.
    pub open spec fn is_translation(self) -> bool {
        self is ColorAttachmentFormat || self is VertexFormat
    }

    /// The bit patterns of the numbers that the line shows, in order.
    pub open spec fn numbers_spec(self) -> Seq<u32> {
        match self {
            DrawReason::WideLinesUnsupported { requested_bits } => seq![requested_bits],
            DrawReason::LineWidthOutOfRange { requested_bits, min_bits, max_bits } => seq![requested_bits, min_bits, max_bits],
            DrawReason::DepthBiasNonFinite { value_bits, .. } => seq![value_bits],
            DrawReason::DepthBiasClampUnsupported { clamp_bits } => seq![clamp_bits],
            _ => seq![],
        }
    }

    /// The values that the line carries, each under its name. `numbers` is the
    /// decimal text of each number that it shows.
    pub open spec fn line_fields(self, numbers: Seq<Seq<char>>) -> Seq<(Seq<char>, Seq<char>)> {
        let none = Seq::<(Seq<char>, Seq<char>)>::empty();
        match self {
            DrawReason::ResidentSampledNot2d { binding } => none.push(("binding"@, decimal(binding as nat))),
            DrawReason::NullSampledImageUnsupported { binding } => none.push(("binding"@, decimal(binding as nat))),
            DrawReason::NullSamplerUnsupported { binding } => none.push(("binding"@, decimal(binding as nat))),
            DrawReason::ViewportSlotsUnsupported { requested, limit, multi_viewport } => none
                .push(("requested"@, decimal(requested as nat)))
                .push(("limit"@, decimal(limit as nat)))
                .push(("multi_viewport"@, flag(multi_viewport))),
            DrawReason::VisibilityCountingUnsupported { occlusion_query_precise } => none.push(("occlusion_query_precise"@, flag(occlusion_query_precise))),
            DrawReason::MultisampleAttachmentSampleCountMismatch { attachment, raster } => none
                .push(("attachment"@, decimal(attachment as nat)))
                .push(("raster"@, decimal(raster as nat))),
            DrawReason::MultisampleResidentTargetMissing { sample_count } => none.push(("sample_count"@, decimal(sample_count as nat))),
            DrawReason::MultisampleLinearTransferUnsupported { sample_count } => none.push(("sample_count"@, decimal(sample_count as nat))),
            DrawReason::MultisampleSampleCountUnsupported { requested, limit } => none
                .push(("requested"@, decimal(requested as nat)))
                .push(("limit"@, decimal(limit as nat))),
            DrawReason::MultisampleStoreActionUnsupported { store_action } => none.push(("store_action"@, decimal(store_action as nat))),
            DrawReason::MultisampleLoadActionUnsupported { load_action } => none.push(("load_action"@, decimal(load_action as nat))),
            DrawReason::MultisampleResolveShapeUnsupported { color_targets, depth, color_input } => none
                .push(("color_targets"@, decimal(color_targets as nat)))
                .push(("depth"@, flag(depth)))
                .push(("color_input"@, flag(color_input))),
            DrawReason::AttachmentWideDepthClearUnsupported { format } => none.push(("format"@, signed_decimal(format as int))),
            DrawReason::SecondaryAttachmentCap { requested, cap } => none
                .push(("requested"@, decimal(requested as nat)))
                .push(("cap"@, decimal(cap as nat))),
            DrawReason::WideLinesUnsupported { .. } => none.push(("requested"@, numbers[0])),
            DrawReason::LineWidthOutOfRange { .. } => none
                .push(("requested"@, numbers[0]))
                .push(("min"@, numbers[1]))
                .push(("max"@, numbers[2])),
            DrawReason::DepthBiasNonFinite { component, .. } => none
                .push(("component"@, decimal(component as nat)))
                .push(("value"@, numbers[0])),
            DrawReason::DepthBiasClampUnsupported { .. } => none.push(("clamp"@, numbers[0])),
            DrawReason::ColorAttachmentFormat(reason) => none.push(("value"@, decimal(reason.value_spec() as nat))),
            DrawReason::VertexFormat(reason) => none.push(("value"@, decimal(reason.value_spec() as nat))),
            DrawReason::InstanceRateDivisorUnsupported { step_rate } => none.push(("rate"@, decimal(step_rate as nat))),
            DrawReason::InstanceRateDivisorOverLimit { step_rate, limit } => none
                .push(("rate"@, decimal(step_rate as nat)))
                .push(("limit"@, decimal(limit as nat))),
            DrawReason::DescriptorArrayUnsupported { binding, count, unpopulated, required_descriptors, descriptor_limit, partially_bound, null_descriptor, dynamic_indexing } => none
                .push(("binding"@, decimal(binding as nat)))
                .push(("count"@, decimal(count as nat)))
                .push(("unpopulated"@, decimal(unpopulated as nat)))
                .push(("required_descriptors"@, decimal(required_descriptors as nat)))
                .push(("descriptor_limit"@, decimal(descriptor_limit as nat)))
                .push(("partially_bound"@, flag(partially_bound)))
                .push(("null_descriptor"@, flag(null_descriptor)))
                .push(("dynamic_indexing"@, flag(dynamic_indexing))),
            DrawReason::DescriptorBindingConflict { binding, first_type, first_count, second_type, second_count } => none
                .push(("binding"@, decimal(binding as nat)))
                .push(("first_type"@, decimal(first_type as nat)))
                .push(("first_count"@, decimal(first_count as nat)))
                .push(("second_type"@, decimal(second_type as nat)))
                .push(("second_count"@, decimal(second_count as nat))),
            DrawReason::NoHostVisibleMemoryForStaging { memory_type_bits } => none.push(("memory_type_bits"@, hexadecimal(memory_type_bits as nat))),
            DrawReason::NoHostVisibleMemoryForReadback { memory_type_bits } => none.push(("memory_type_bits"@, hexadecimal(memory_type_bits as nat))),
            DrawReason::NoHostVisibleMemoryForStats { memory_type_bits } => none.push(("memory_type_bits"@, hexadecimal(memory_type_bits as nat))),
            DrawReason::NoDeviceLocalMemoryForStorageImage { memory_type_bits } => none.push(("memory_type_bits"@, hexadecimal(memory_type_bits as nat))),
            DrawReason::NoDeviceLocalMemoryForSlab { memory_type_bits } => none.push(("memory_type_bits"@, hexadecimal(memory_type_bits as nat))),
            DrawReason::NoDeviceLocalMemoryForMrtSecondary { memory_type_bits } => none.push(("memory_type_bits"@, hexadecimal(memory_type_bits as nat))),
            DrawReason::NoDeviceLocalMemoryForDepth { memory_type_bits } => none.push(("memory_type_bits"@, hexadecimal(memory_type_bits as nat))),
            DrawReason::NoDeviceLocalMemoryForGuestGather { memory_type_bits } => none.push(("memory_type_bits"@, hexadecimal(memory_type_bits as nat))),
            DrawReason::QueueCannotPresent { queue_family } => none.push(("queue_family"@, decimal(queue_family as nat))),
            DrawReason::UsedBindingAbsentFromLayout { binding, fragment } => none
                .push(("binding"@, decimal(binding as nat)))
                .push(("stage"@, stage_text(fragment))),
            _ => none,
        }
    }

    /// The line that reports the reason. `numbers` is the decimal text of each
    /// number that it shows.
    pub open spec fn line_text(self, numbers: Seq<Seq<char>>) -> Seq<char> {
        fields_line(self.slug_text(), self.line_fields(numbers))
    }

    /// The name of the reason.
    pub fn slug(&self) -> (slug: &'static str)
        ensures
            slug@ == self.slug_text(),
    {
        match self {
            DrawReason::SpirvInvalid => "spirv_module_invalid",
            DrawReason::DriverCallQuarantined => "driver_call_quarantined",
            DrawReason::ResidentSampledNot2d { .. } => "resident_sampled_not_2d",
            DrawReason::NullSampledImageUnsupported { .. } => "null_sampled_image_unsupported",
            DrawReason::NullSamplerUnsupported { .. } => "null_sampler_unsupported",
            DrawReason::ViewportSlotsUnsupported { .. } => "viewport_slots_unsupported",
            DrawReason::VisibilityCountingUnsupported { .. } => "visibility_counting_unsupported",
            DrawReason::MultisampleAttachmentSampleCountMismatch { .. } => "multisample_attachment_sample_count_mismatch",
            DrawReason::MultisampleResidentTargetMissing { .. } => "multisample_resident_target_missing",
            DrawReason::MultisampleLinearTransferUnsupported { .. } => "multisample_linear_transfer_unsupported",
            DrawReason::MultisampleSampleCountUnsupported { .. } => "multisample_sample_count_unsupported",
            DrawReason::MultisampleStoreActionUnsupported { .. } => "multisample_store_action_unsupported",
            DrawReason::MultisampleLoadActionUnsupported { .. } => "multisample_load_action_unsupported",
            DrawReason::MultisampleResolveShapeUnsupported { .. } => "multisample_resolve_shape_unsupported",
            DrawReason::AttachmentWideDepthClearUnsupported { .. } => "attachment_wide_depth_clear_unsupported",
            DrawReason::SecondaryAttachmentCap { .. } => "secondary_attachment_cap",
            DrawReason::SamplerAnisotropyUnsupported => "sampler_anisotropy_unsupported",
            DrawReason::SamplerMirrorClampToEdgeUnsupported => "sampler_mirror_clamp_to_edge_unsupported",
            DrawReason::SamplerPixelMixedFilters => "sampler_pixel_mixed_filters",
            DrawReason::SamplerPixelMipmapped => "sampler_pixel_mipmapped",
            DrawReason::SamplerPixelAddressMode => "sampler_pixel_address_mode",
            DrawReason::SamplerPixelAnisotropy => "sampler_pixel_anisotropy",
            DrawReason::SamplerUnnormalizedCompare => "sampler_unnormalized_compare",
            DrawReason::DualSourceBlendUnsupported => "dual_source_blend_unsupported",
            DrawReason::FillModeNonSolidUnsupported => "fill_mode_non_solid_unsupported",
            DrawReason::WideLinesUnsupported { .. } => "wide_lines_unsupported",
            DrawReason::LineWidthOutOfRange { .. } => "line_width_out_of_range",
            DrawReason::DepthBiasNonFinite { .. } => "depth_bias_non_finite",
            DrawReason::DepthBiasClampUnsupported { .. } => "depth_bias_clamp_unsupported",
            DrawReason::DepthClampUnsupported => "depth_clamp_unsupported",
            DrawReason::ColorAttachmentFormat(reason) => reason.slug(),
            DrawReason::VertexFormat(reason) => reason.slug(),
            DrawReason::ConstantVertexAttribute => "constant_vertex_attribute",
            DrawReason::InstanceRateDivisorUnsupported { .. } => "instance_rate_divisor_unsupported",
            DrawReason::InstanceRateDivisorOverLimit { .. } => "instance_rate_divisor_over_limit",
            DrawReason::NoCombinedGraphicsComputeQueue => "no_combined_graphics_compute_queue",
            DrawReason::DescriptorArrayUnsupported { .. } => "descriptor_array_unsupported",
            DrawReason::DescriptorBindingConflict { .. } => "descriptor_binding_conflict",
            DrawReason::NoHostVisibleMemoryForStaging { .. } => "no_host_visible_memory_for_staging",
            DrawReason::NoHostVisibleMemoryForReadback { .. } => "no_host_visible_memory_for_readback",
            DrawReason::NoHostVisibleMemoryForStats { .. } => "no_host_visible_memory_for_stats",
            DrawReason::NoDeviceLocalMemoryForStorageImage { .. } => "no_device_local_memory_for_storage_image",
            DrawReason::NoDeviceLocalMemoryForSlab { .. } => "no_device_local_memory_for_slab",
            DrawReason::NoDeviceLocalMemoryForMrtSecondary { .. } => "no_device_local_memory_for_mrt_secondary",
            DrawReason::NoDeviceLocalMemoryForDepth { .. } => "no_device_local_memory_for_depth",
            DrawReason::NoDeviceLocalMemoryForGuestGather { .. } => "no_device_local_memory_for_guest_gather",
            DrawReason::SwapchainUnavailable => "swapchain_unavailable",
            DrawReason::QueueCannotPresent { .. } => "queue_cannot_present",
            DrawReason::SwapchainLacksTransferDst => "swapchain_lacks_transfer_dst",
            DrawReason::SwapchainNoSurfaceFormat => "swapchain_no_surface_format",
            DrawReason::SwapchainNoCompositeAlpha => "swapchain_no_composite_alpha",
            DrawReason::UsedBindingAbsentFromLayout { .. } => "draw_used_binding_absent_from_layout",
        }
    }

    /// The named values of the reason: none, for its line carries them.
    pub fn fields(&self) -> (fields: Vec<(&'static str, String)>)
        ensures
            fields@ == Seq::<(&'static str, String)>::empty(),
    {
        Vec::new()
    }

    /// The bit patterns of the numbers that the line shows, in order.
    pub fn numbers(&self) -> (bits: Vec<u32>)
        ensures
            bits@ == self.numbers_spec(),
    {
        match self {
            DrawReason::WideLinesUnsupported { requested_bits } => vec![*requested_bits],
            DrawReason::LineWidthOutOfRange { requested_bits, min_bits, max_bits } => vec![*requested_bits, *min_bits, *max_bits],
            DrawReason::DepthBiasNonFinite { value_bits, .. } => vec![*value_bits],
            DrawReason::DepthBiasClampUnsupported { clamp_bits } => vec![*clamp_bits],
            _ => Vec::new(),
        }
    }

    /// The values that the line carries, each under its name.
    fn shown(&self, numbers: &[String]) -> (fields: Vec<(&'static str, String)>)
        requires
            numbers@.len() == self.numbers_spec().len(),
        ensures
            fields_text(fields@) == self.line_fields(numbers@.map_values(|text: String| text@)),
    {
        let mut fields: Vec<(&'static str, String)> = Vec::new();
        assert(fields_text(fields@) =~= Seq::empty());
        match self {
            DrawReason::ResidentSampledNot2d { binding } => {
                add_field(&mut fields, "binding", decimal_text(*binding as u64));
            },
            DrawReason::NullSampledImageUnsupported { binding } => {
                add_field(&mut fields, "binding", decimal_text(*binding as u64));
            },
            DrawReason::NullSamplerUnsupported { binding } => {
                add_field(&mut fields, "binding", decimal_text(*binding as u64));
            },
            DrawReason::ViewportSlotsUnsupported { requested, limit, multi_viewport } => {
                add_field(&mut fields, "requested", decimal_text(*requested as u64));
                add_field(&mut fields, "limit", decimal_text(*limit as u64));
                add_field(&mut fields, "multi_viewport", flag_text(*multi_viewport));
            },
            DrawReason::VisibilityCountingUnsupported { occlusion_query_precise } => {
                add_field(&mut fields, "occlusion_query_precise", flag_text(*occlusion_query_precise));
            },
            DrawReason::MultisampleAttachmentSampleCountMismatch { attachment, raster } => {
                add_field(&mut fields, "attachment", decimal_text(*attachment as u64));
                add_field(&mut fields, "raster", decimal_text(*raster as u64));
            },
            DrawReason::MultisampleResidentTargetMissing { sample_count } => {
                add_field(&mut fields, "sample_count", decimal_text(*sample_count as u64));
            },
            DrawReason::MultisampleLinearTransferUnsupported { sample_count } => {
                add_field(&mut fields, "sample_count", decimal_text(*sample_count as u64));
            },
            DrawReason::MultisampleSampleCountUnsupported { requested, limit } => {
                add_field(&mut fields, "requested", decimal_text(*requested as u64));
                add_field(&mut fields, "limit", decimal_text(*limit as u64));
            },
            DrawReason::MultisampleStoreActionUnsupported { store_action } => {
                add_field(&mut fields, "store_action", decimal_text(*store_action as u64));
            },
            DrawReason::MultisampleLoadActionUnsupported { load_action } => {
                add_field(&mut fields, "load_action", decimal_text(*load_action as u64));
            },
            DrawReason::MultisampleResolveShapeUnsupported { color_targets, depth, color_input } => {
                add_field(&mut fields, "color_targets", decimal_text(*color_targets as u64));
                add_field(&mut fields, "depth", flag_text(*depth));
                add_field(&mut fields, "color_input", flag_text(*color_input));
            },
            DrawReason::AttachmentWideDepthClearUnsupported { format } => {
                add_field(&mut fields, "format", signed_text(*format as i64));
            },
            DrawReason::SecondaryAttachmentCap { requested, cap } => {
                add_field(&mut fields, "requested", decimal_text(*requested as u64));
                add_field(&mut fields, "cap", decimal_text(*cap as u64));
            },
            DrawReason::WideLinesUnsupported { .. } => {
                add_field(&mut fields, "requested", owned(numbers[0].as_str()));
            },
            DrawReason::LineWidthOutOfRange { .. } => {
                add_field(&mut fields, "requested", owned(numbers[0].as_str()));
                add_field(&mut fields, "min", owned(numbers[1].as_str()));
                add_field(&mut fields, "max", owned(numbers[2].as_str()));
            },
            DrawReason::DepthBiasNonFinite { component, .. } => {
                add_field(&mut fields, "component", decimal_text(*component as u64));
                add_field(&mut fields, "value", owned(numbers[0].as_str()));
            },
            DrawReason::DepthBiasClampUnsupported { .. } => {
                add_field(&mut fields, "clamp", owned(numbers[0].as_str()));
            },
            DrawReason::ColorAttachmentFormat(reason) => {
                add_field(&mut fields, "value", decimal_text(reason.value()));
            },
            DrawReason::VertexFormat(reason) => {
                add_field(&mut fields, "value", decimal_text(reason.value()));
            },
            DrawReason::InstanceRateDivisorUnsupported { step_rate } => {
                add_field(&mut fields, "rate", decimal_text(*step_rate as u64));
            },
            DrawReason::InstanceRateDivisorOverLimit { step_rate, limit } => {
                add_field(&mut fields, "rate", decimal_text(*step_rate as u64));
                add_field(&mut fields, "limit", decimal_text(*limit as u64));
            },
            DrawReason::DescriptorArrayUnsupported { binding, count, unpopulated, required_descriptors, descriptor_limit, partially_bound, null_descriptor, dynamic_indexing } => {
                add_field(&mut fields, "binding", decimal_text(*binding as u64));
                add_field(&mut fields, "count", decimal_text(*count as u64));
                add_field(&mut fields, "unpopulated", decimal_text(*unpopulated as u64));
                add_field(&mut fields, "required_descriptors", decimal_text(*required_descriptors as u64));
                add_field(&mut fields, "descriptor_limit", decimal_text(*descriptor_limit as u64));
                add_field(&mut fields, "partially_bound", flag_text(*partially_bound));
                add_field(&mut fields, "null_descriptor", flag_text(*null_descriptor));
                add_field(&mut fields, "dynamic_indexing", flag_text(*dynamic_indexing));
            },
            DrawReason::DescriptorBindingConflict { binding, first_type, first_count, second_type, second_count } => {
                add_field(&mut fields, "binding", decimal_text(*binding as u64));
                add_field(&mut fields, "first_type", decimal_text(*first_type as u64));
                add_field(&mut fields, "first_count", decimal_text(*first_count as u64));
                add_field(&mut fields, "second_type", decimal_text(*second_type as u64));
                add_field(&mut fields, "second_count", decimal_text(*second_count as u64));
            },
            DrawReason::NoHostVisibleMemoryForStaging { memory_type_bits } => {
                add_field(&mut fields, "memory_type_bits", hexadecimal_text(*memory_type_bits as u64));
            },
            DrawReason::NoHostVisibleMemoryForReadback { memory_type_bits } => {
                add_field(&mut fields, "memory_type_bits", hexadecimal_text(*memory_type_bits as u64));
            },
            DrawReason::NoHostVisibleMemoryForStats { memory_type_bits } => {
                add_field(&mut fields, "memory_type_bits", hexadecimal_text(*memory_type_bits as u64));
            },
            DrawReason::NoDeviceLocalMemoryForStorageImage { memory_type_bits } => {
                add_field(&mut fields, "memory_type_bits", hexadecimal_text(*memory_type_bits as u64));
            },
            DrawReason::NoDeviceLocalMemoryForSlab { memory_type_bits } => {
                add_field(&mut fields, "memory_type_bits", hexadecimal_text(*memory_type_bits as u64));
            },
            DrawReason::NoDeviceLocalMemoryForMrtSecondary { memory_type_bits } => {
                add_field(&mut fields, "memory_type_bits", hexadecimal_text(*memory_type_bits as u64));
            },
            DrawReason::NoDeviceLocalMemoryForDepth { memory_type_bits } => {
                add_field(&mut fields, "memory_type_bits", hexadecimal_text(*memory_type_bits as u64));
            },
            DrawReason::NoDeviceLocalMemoryForGuestGather { memory_type_bits } => {
                add_field(&mut fields, "memory_type_bits", hexadecimal_text(*memory_type_bits as u64));
            },
            DrawReason::QueueCannotPresent { queue_family } => {
                add_field(&mut fields, "queue_family", decimal_text(*queue_family as u64));
            },
            DrawReason::UsedBindingAbsentFromLayout { binding, fragment } => {
                add_field(&mut fields, "binding", decimal_text(*binding as u64));
                let stage: &'static str = if *fragment {
                    "fragment"
                } else {
                    "vertex"
                };
                add_field(&mut fields, "stage", owned(stage));
            },
            _ => {},
        }
        fields
    }

    /// The line that reports the reason. `numbers` is the decimal text of each
    /// number that it shows.
    pub fn line(&self, numbers: &[String]) -> (line: String)
        requires
            numbers@.len() == self.numbers_spec().len(),
        ensures
            line@ == self.line_text(numbers@.map_values(|text: String| text@)),
    {
        line_of(self.slug(), &self.shown(numbers))
    }
}

/// The place in the list that a slug belongs to.
spec fn term_of(slug: Seq<char>) -> nat {
    if slug.len() == 20 {
        if slug[0] == 'q' {
            47
        } else {
            0
        }
    } else if slug.len() == 21 {
        if slug[0] == 'd' {
            27
        } else {
            46
        }
    } else if slug.len() == 22 {
        25
    } else if slug.len() == 23 {
        if slug[2] == 'i' {
            1
        } else if slug[2] == 'm' {
            19
        } else if slug[2] == 'n' {
            26
        } else if slug[2] == 'p' {
            29
        } else {
            2
        }
    } else if slug.len() == 24 {
        if slug[1] == 'a' {
            21
        } else if slug[1] == 'e' {
            15
        } else {
            4
        }
    } else if slug.len() == 25 {
        32
    } else if slug.len() == 26 {
        if slug[0] == 's' {
            20
        } else {
            5
        }
    } else if slug.len() == 27 {
        if slug[1] == 'a' {
            18
        } else if slug[1] == 'e' {
            37
        } else {
            49
        }
    } else if slug.len() == 28 {
        if slug[13] == 'a' {
            28
        } else if slug[13] == 'c' {
            50
        } else if slug[13] == 'k' {
            48
        } else if slug[13] == 'm' {
            22
        } else {
            36
        }
    } else if slug.len() == 29 {
        23
    } else if slug.len() == 30 {
        if slug[0] == 'n' {
            3
        } else {
            16
        }
    } else if slug.len() == 31 {
        if slug[0] == 'f' {
            24
        } else if slug[0] == 'n' {
            42
        } else {
            6
        }
    } else if slug.len() == 32 {
        if slug[3] == 'd' {
            44
        } else if slug[3] == 'h' {
            40
        } else {
            34
        }
    } else if slug.len() == 33 {
        33
    } else if slug.len() == 34 {
        if slug[3] == 'c' {
            35
        } else {
            38
        }
    } else if slug.len() == 35 {
        if slug[12] == 'b' {
            39
        } else if slug[12] == 'l' {
            12
        } else {
            8
        }
    } else if slug.len() == 36 {
        if slug[13] == 'a' {
            10
        } else if slug[13] == 'd' {
            51
        } else {
            11
        }
    } else if slug.len() == 37 {
        13
    } else if slug.len() == 39 {
        if slug[0] == 'a' {
            14
        } else if slug[0] == 'm' {
            9
        } else {
            45
        }
    } else if slug.len() == 40 {
        if slug[27] == 'e' {
            17
        } else if slug[27] == 'm' {
            43
        } else {
            41
        }
    } else {
        7
    }
}

/// The slug of a reason leads back to the reason.
proof fn lemma_slug_gives_term(reason: DrawReason)
    requires
        !reason.is_translation(),
    ensures
        term_of(reason.slug_text()) == reason.term(),
{
    match reason {
        DrawReason::SpirvInvalid => reveal_strlit("spirv_module_invalid"),
        DrawReason::DriverCallQuarantined => reveal_strlit("driver_call_quarantined"),
        DrawReason::ResidentSampledNot2d { .. } => reveal_strlit("resident_sampled_not_2d"),
        DrawReason::NullSampledImageUnsupported { .. } => reveal_strlit("null_sampled_image_unsupported"),
        DrawReason::NullSamplerUnsupported { .. } => reveal_strlit("null_sampler_unsupported"),
        DrawReason::ViewportSlotsUnsupported { .. } => reveal_strlit("viewport_slots_unsupported"),
        DrawReason::VisibilityCountingUnsupported { .. } => reveal_strlit("visibility_counting_unsupported"),
        DrawReason::MultisampleAttachmentSampleCountMismatch { .. } => reveal_strlit("multisample_attachment_sample_count_mismatch"),
        DrawReason::MultisampleResidentTargetMissing { .. } => reveal_strlit("multisample_resident_target_missing"),
        DrawReason::MultisampleLinearTransferUnsupported { .. } => reveal_strlit("multisample_linear_transfer_unsupported"),
        DrawReason::MultisampleSampleCountUnsupported { .. } => reveal_strlit("multisample_sample_count_unsupported"),
        DrawReason::MultisampleStoreActionUnsupported { .. } => reveal_strlit("multisample_store_action_unsupported"),
        DrawReason::MultisampleLoadActionUnsupported { .. } => reveal_strlit("multisample_load_action_unsupported"),
        DrawReason::MultisampleResolveShapeUnsupported { .. } => reveal_strlit("multisample_resolve_shape_unsupported"),
        DrawReason::AttachmentWideDepthClearUnsupported { .. } => reveal_strlit("attachment_wide_depth_clear_unsupported"),
        DrawReason::SecondaryAttachmentCap { .. } => reveal_strlit("secondary_attachment_cap"),
        DrawReason::SamplerAnisotropyUnsupported => reveal_strlit("sampler_anisotropy_unsupported"),
        DrawReason::SamplerMirrorClampToEdgeUnsupported => reveal_strlit("sampler_mirror_clamp_to_edge_unsupported"),
        DrawReason::SamplerPixelMixedFilters => reveal_strlit("sampler_pixel_mixed_filters"),
        DrawReason::SamplerPixelMipmapped => reveal_strlit("sampler_pixel_mipmapped"),
        DrawReason::SamplerPixelAddressMode => reveal_strlit("sampler_pixel_address_mode"),
        DrawReason::SamplerPixelAnisotropy => reveal_strlit("sampler_pixel_anisotropy"),
        DrawReason::SamplerUnnormalizedCompare => reveal_strlit("sampler_unnormalized_compare"),
        DrawReason::DualSourceBlendUnsupported => reveal_strlit("dual_source_blend_unsupported"),
        DrawReason::FillModeNonSolidUnsupported => reveal_strlit("fill_mode_non_solid_unsupported"),
        DrawReason::WideLinesUnsupported { .. } => reveal_strlit("wide_lines_unsupported"),
        DrawReason::LineWidthOutOfRange { .. } => reveal_strlit("line_width_out_of_range"),
        DrawReason::DepthBiasNonFinite { .. } => reveal_strlit("depth_bias_non_finite"),
        DrawReason::DepthBiasClampUnsupported { .. } => reveal_strlit("depth_bias_clamp_unsupported"),
        DrawReason::DepthClampUnsupported => reveal_strlit("depth_clamp_unsupported"),
        DrawReason::ConstantVertexAttribute => reveal_strlit("constant_vertex_attribute"),
        DrawReason::InstanceRateDivisorUnsupported { .. } => reveal_strlit("instance_rate_divisor_unsupported"),
        DrawReason::InstanceRateDivisorOverLimit { .. } => reveal_strlit("instance_rate_divisor_over_limit"),
        DrawReason::NoCombinedGraphicsComputeQueue => reveal_strlit("no_combined_graphics_compute_queue"),
        DrawReason::DescriptorArrayUnsupported { .. } => reveal_strlit("descriptor_array_unsupported"),
        DrawReason::DescriptorBindingConflict { .. } => reveal_strlit("descriptor_binding_conflict"),
        DrawReason::NoHostVisibleMemoryForStaging { .. } => reveal_strlit("no_host_visible_memory_for_staging"),
        DrawReason::NoHostVisibleMemoryForReadback { .. } => reveal_strlit("no_host_visible_memory_for_readback"),
        DrawReason::NoHostVisibleMemoryForStats { .. } => reveal_strlit("no_host_visible_memory_for_stats"),
        DrawReason::NoDeviceLocalMemoryForStorageImage { .. } => reveal_strlit("no_device_local_memory_for_storage_image"),
        DrawReason::NoDeviceLocalMemoryForSlab { .. } => reveal_strlit("no_device_local_memory_for_slab"),
        DrawReason::NoDeviceLocalMemoryForMrtSecondary { .. } => reveal_strlit("no_device_local_memory_for_mrt_secondary"),
        DrawReason::NoDeviceLocalMemoryForDepth { .. } => reveal_strlit("no_device_local_memory_for_depth"),
        DrawReason::NoDeviceLocalMemoryForGuestGather { .. } => reveal_strlit("no_device_local_memory_for_guest_gather"),
        DrawReason::SwapchainUnavailable => reveal_strlit("swapchain_unavailable"),
        DrawReason::QueueCannotPresent { .. } => reveal_strlit("queue_cannot_present"),
        DrawReason::SwapchainLacksTransferDst => reveal_strlit("swapchain_lacks_transfer_dst"),
        DrawReason::SwapchainNoSurfaceFormat => reveal_strlit("swapchain_no_surface_format"),
        DrawReason::SwapchainNoCompositeAlpha => reveal_strlit("swapchain_no_composite_alpha"),
        DrawReason::UsedBindingAbsentFromLayout { .. } => reveal_strlit("draw_used_binding_absent_from_layout"),
        _ => {},
    }
}

/// No two reasons share a slug, but for the two that take theirs from a
/// translation.
pub proof fn law_every_reason_has_its_own_slug(a: DrawReason, b: DrawReason)
    requires
        !a.is_translation(),
        !b.is_translation(),
        a.slug_text() == b.slug_text(),
    ensures
        a.term() == b.term(),
{
    lemma_slug_gives_term(a);
    lemma_slug_gives_term(b);
}

/// A character that any log takes as it is.
pub open spec fn log_safe(c: char) -> bool {
    'a' <= c <= 'z' || '0' <= c <= '9' || c == '_'
}

/// Every slug is lower-case snake case and not empty.
pub proof fn law_slugs_are_log_safe(reason: DrawReason)
    requires
        !reason.is_translation(),
    ensures
        reason.slug_text().len() > 0,
        forall|i: int|
            0 <= i < reason.slug_text().len() ==> log_safe(#[trigger] reason.slug_text()[i]),
{
    match reason {
        DrawReason::SpirvInvalid => reveal_strlit("spirv_module_invalid"),
        DrawReason::DriverCallQuarantined => reveal_strlit("driver_call_quarantined"),
        DrawReason::ResidentSampledNot2d { .. } => reveal_strlit("resident_sampled_not_2d"),
        DrawReason::NullSampledImageUnsupported { .. } => reveal_strlit("null_sampled_image_unsupported"),
        DrawReason::NullSamplerUnsupported { .. } => reveal_strlit("null_sampler_unsupported"),
        DrawReason::ViewportSlotsUnsupported { .. } => reveal_strlit("viewport_slots_unsupported"),
        DrawReason::VisibilityCountingUnsupported { .. } => reveal_strlit("visibility_counting_unsupported"),
        DrawReason::MultisampleAttachmentSampleCountMismatch { .. } => reveal_strlit("multisample_attachment_sample_count_mismatch"),
        DrawReason::MultisampleResidentTargetMissing { .. } => reveal_strlit("multisample_resident_target_missing"),
        DrawReason::MultisampleLinearTransferUnsupported { .. } => reveal_strlit("multisample_linear_transfer_unsupported"),
        DrawReason::MultisampleSampleCountUnsupported { .. } => reveal_strlit("multisample_sample_count_unsupported"),
        DrawReason::MultisampleStoreActionUnsupported { .. } => reveal_strlit("multisample_store_action_unsupported"),
        DrawReason::MultisampleLoadActionUnsupported { .. } => reveal_strlit("multisample_load_action_unsupported"),
        DrawReason::MultisampleResolveShapeUnsupported { .. } => reveal_strlit("multisample_resolve_shape_unsupported"),
        DrawReason::AttachmentWideDepthClearUnsupported { .. } => reveal_strlit("attachment_wide_depth_clear_unsupported"),
        DrawReason::SecondaryAttachmentCap { .. } => reveal_strlit("secondary_attachment_cap"),
        DrawReason::SamplerAnisotropyUnsupported => reveal_strlit("sampler_anisotropy_unsupported"),
        DrawReason::SamplerMirrorClampToEdgeUnsupported => reveal_strlit("sampler_mirror_clamp_to_edge_unsupported"),
        DrawReason::SamplerPixelMixedFilters => reveal_strlit("sampler_pixel_mixed_filters"),
        DrawReason::SamplerPixelMipmapped => reveal_strlit("sampler_pixel_mipmapped"),
        DrawReason::SamplerPixelAddressMode => reveal_strlit("sampler_pixel_address_mode"),
        DrawReason::SamplerPixelAnisotropy => reveal_strlit("sampler_pixel_anisotropy"),
        DrawReason::SamplerUnnormalizedCompare => reveal_strlit("sampler_unnormalized_compare"),
        DrawReason::DualSourceBlendUnsupported => reveal_strlit("dual_source_blend_unsupported"),
        DrawReason::FillModeNonSolidUnsupported => reveal_strlit("fill_mode_non_solid_unsupported"),
        DrawReason::WideLinesUnsupported { .. } => reveal_strlit("wide_lines_unsupported"),
        DrawReason::LineWidthOutOfRange { .. } => reveal_strlit("line_width_out_of_range"),
        DrawReason::DepthBiasNonFinite { .. } => reveal_strlit("depth_bias_non_finite"),
        DrawReason::DepthBiasClampUnsupported { .. } => reveal_strlit("depth_bias_clamp_unsupported"),
        DrawReason::DepthClampUnsupported => reveal_strlit("depth_clamp_unsupported"),
        DrawReason::ConstantVertexAttribute => reveal_strlit("constant_vertex_attribute"),
        DrawReason::InstanceRateDivisorUnsupported { .. } => reveal_strlit("instance_rate_divisor_unsupported"),
        DrawReason::InstanceRateDivisorOverLimit { .. } => reveal_strlit("instance_rate_divisor_over_limit"),
        DrawReason::NoCombinedGraphicsComputeQueue => reveal_strlit("no_combined_graphics_compute_queue"),
        DrawReason::DescriptorArrayUnsupported { .. } => reveal_strlit("descriptor_array_unsupported"),
        DrawReason::DescriptorBindingConflict { .. } => reveal_strlit("descriptor_binding_conflict"),
        DrawReason::NoHostVisibleMemoryForStaging { .. } => reveal_strlit("no_host_visible_memory_for_staging"),
        DrawReason::NoHostVisibleMemoryForReadback { .. } => reveal_strlit("no_host_visible_memory_for_readback"),
        DrawReason::NoHostVisibleMemoryForStats { .. } => reveal_strlit("no_host_visible_memory_for_stats"),
        DrawReason::NoDeviceLocalMemoryForStorageImage { .. } => reveal_strlit("no_device_local_memory_for_storage_image"),
        DrawReason::NoDeviceLocalMemoryForSlab { .. } => reveal_strlit("no_device_local_memory_for_slab"),
        DrawReason::NoDeviceLocalMemoryForMrtSecondary { .. } => reveal_strlit("no_device_local_memory_for_mrt_secondary"),
        DrawReason::NoDeviceLocalMemoryForDepth { .. } => reveal_strlit("no_device_local_memory_for_depth"),
        DrawReason::NoDeviceLocalMemoryForGuestGather { .. } => reveal_strlit("no_device_local_memory_for_guest_gather"),
        DrawReason::SwapchainUnavailable => reveal_strlit("swapchain_unavailable"),
        DrawReason::QueueCannotPresent { .. } => reveal_strlit("queue_cannot_present"),
        DrawReason::SwapchainLacksTransferDst => reveal_strlit("swapchain_lacks_transfer_dst"),
        DrawReason::SwapchainNoSurfaceFormat => reveal_strlit("swapchain_no_surface_format"),
        DrawReason::SwapchainNoCompositeAlpha => reveal_strlit("swapchain_no_composite_alpha"),
        DrawReason::UsedBindingAbsentFromLayout { .. } => reveal_strlit("draw_used_binding_absent_from_layout"),
        _ => {},
    }
}

/// How a target that was asked for differs from the one that is held.
#[derive(Clone, Copy, Debug, PartialEq, Eq, Structural)]
pub enum TargetKeyDivergence {
    /// Nothing is held.
    Absent,
    /// The generation moved.
    Generation,
    /// The size moved.
    Geometry,
    /// The name is of another kind.
    Namespace,
    /// Something else moved.
    Other,
}

impl TargetKeyDivergence {
    /// The name of the difference.
    pub open spec fn label_text(self) -> Seq<char> {
        match self {
            TargetKeyDivergence::Absent => "absent"@,
            TargetKeyDivergence::Generation => "generation"@,
            TargetKeyDivergence::Geometry => "geometry"@,
            TargetKeyDivergence::Namespace => "namespace"@,
            TargetKeyDivergence::Other => "other"@,
        }
    }

    /// The name of the difference.
    pub fn label(self) -> (label: &'static str)
        ensures
            label@ == self.label_text(),
    {
        match self {
            TargetKeyDivergence::Absent => "absent",
            TargetKeyDivergence::Generation => "generation",
            TargetKeyDivergence::Geometry => "geometry",
            TargetKeyDivergence::Namespace => "namespace",
            TargetKeyDivergence::Other => "other",
        }
    }
}

/// Why a resident target was given up.
#[derive(Clone, Copy, Debug, PartialEq, Eq)]
pub enum ResidentReclaim {
    /// The guest released the resource.
    ResourceReleased,
    /// Another cause, by its name.
    Named(&'static str),
}

impl ResidentReclaim {
    /// The name of the cause.
    pub open spec fn slug_text(self) -> Seq<char> {
        match self {
            ResidentReclaim::ResourceReleased => "resource_released"@,
            ResidentReclaim::Named(slug) => slug@,
        }
    }

    /// The name of the cause.
    pub fn slug(self) -> (slug: &'static str)
        ensures
            slug@ == self.slug_text(),
    {
        match self {
            ResidentReclaim::ResourceReleased => "resource_released",
            ResidentReclaim::Named(slug) => slug,
        }
    }
}

/// Why a resident target cannot be read.
#[derive(Clone, Copy, Debug, PartialEq, Eq)]
pub enum TargetReadDecline {
    /// No target is held under the name asked for.
    UnknownIdentity {
        asked: u64,
        held: Option<u64>,
        how: TargetKeyDivergence,
        prior: Option<ResidentReclaim>,
    },
    /// The target holds nothing yet.
    NoReadyContent,
    /// The target has more than one sample to a texel.
    MultisampleImage {
        sample_count: u32,
    },
    /// A texel of the target is not four bytes.
    TexelNotFourBytes {
        format: Format,
    },
}

impl TargetReadDecline {
    /// The name of the refusal.
    pub open spec fn slug_text(self) -> Seq<char> {
        match self {
            TargetReadDecline::UnknownIdentity { .. } => "read_target_unknown_identity"@,
            TargetReadDecline::NoReadyContent => "read_target_no_ready_content"@,
            TargetReadDecline::MultisampleImage { .. } => "read_target_multisample_image"@,
            TargetReadDecline::TexelNotFourBytes { .. } => "read_target_texel_not_four_bytes"@,
        }
    }

    /// The place of the refusal in the list of its kind.
    pub open spec fn term(self) -> nat {
        match self {
            TargetReadDecline::UnknownIdentity { .. } => 0,
            TargetReadDecline::NoReadyContent => 1,
            TargetReadDecline::MultisampleImage { .. } => 2,
            TargetReadDecline::TexelNotFourBytes { .. } => 3,
        }
    }

    /// The values that bear on the refusal.
    pub open spec fn fields_spec(self) -> Seq<(Seq<char>, Seq<char>)> {
        match self {
            TargetReadDecline::UnknownIdentity { asked, held, how, prior } => seq![
                ("diverges"@, how.label_text()),
                ("asked_gen"@, decimal(asked as nat)),
                (
                    "held_gen"@,
                    match held {
                        Some(generation) => decimal(generation as nat),
                        None => "none"@,
                    },
                ),
                (
                    "prior"@,
                    match prior {
                        Some(why) => why.slug_text(),
                        None => "none"@,
                    },
                ),
            ],
            TargetReadDecline::NoReadyContent => seq![],
            TargetReadDecline::MultisampleImage { sample_count } => seq![
                ("sample_count"@, decimal(sample_count as nat)),
            ],
            TargetReadDecline::TexelNotFourBytes { format } => seq![
                ("format"@, crate::vk::vk_format_text(format.0)),
            ],
        }
    }

    /// The name of the refusal.
    pub fn slug(&self) -> (slug: &'static str)
        ensures
            slug@ == self.slug_text(),
    {
        match self {
            TargetReadDecline::UnknownIdentity { .. } => "read_target_unknown_identity",
            TargetReadDecline::NoReadyContent => "read_target_no_ready_content",
            TargetReadDecline::MultisampleImage { .. } => "read_target_multisample_image",
            TargetReadDecline::TexelNotFourBytes { .. } => "read_target_texel_not_four_bytes",
        }
    }

    /// The values that bear on the refusal.
    pub fn fields(&self) -> (fields: Vec<(&'static str, String)>)
        ensures
            fields_text(fields@) == self.fields_spec(),
    {
        let fields: Vec<(&'static str, String)> = match self {
            TargetReadDecline::UnknownIdentity { asked, held, how, prior } => {
                let held_text = match held {
                    Some(generation) => decimal_text(*generation),
                    None => owned("none"),
                };
                let prior_text = match prior {
                    Some(why) => owned(why.slug()),
                    None => owned("none"),
                };
                vec![
                    ("diverges", owned(how.label())),
                    ("asked_gen", decimal_text(*asked)),
                    ("held_gen", held_text),
                    ("prior", prior_text),
                ]
            },
            TargetReadDecline::NoReadyContent => Vec::new(),
            TargetReadDecline::MultisampleImage { sample_count } => vec![
                ("sample_count", decimal_text(*sample_count as u64)),
            ],
            TargetReadDecline::TexelNotFourBytes { format } => vec![
                ("format", show_vk_format(format.0)),
            ],
        };
        assert(fields_text(fields@) =~= self.fields_spec());
        fields
    }

    /// The line that reports the refusal.
    pub fn line(&self) -> (line: String)
        ensures
            line@ == "reason="@ + self.slug_text(),
    {
        let mut line = owned("reason=");
        append_text(&mut line, self.slug());
        line
    }
}

/// No two refusals to read a target share a slug.
pub proof fn law_every_read_refusal_has_its_own_slug(a: TargetReadDecline, b: TargetReadDecline)
    requires
        a.slug_text() == b.slug_text(),
    ensures
        a.term() == b.term(),
{
    reveal_strlit("read_target_unknown_identity");
    reveal_strlit("read_target_no_ready_content");
    reveal_strlit("read_target_multisample_image");
    reveal_strlit("read_target_texel_not_four_bytes");
    let x = a.slug_text();
    let y = b.slug_text();
    assert(x.len() == y.len());
    assert(x[12] == y[12]);
}

/// The stages of a pipeline have their own names.
pub proof fn law_stages_have_their_own_names(a: bool, b: bool)
    ensures
        stage_text(a) == stage_text(b) <==> a == b,
        stage_text(true) == "fragment"@,
{
    reveal_strlit("fragment");
    reveal_strlit("vertex");
    assert(stage_text(true).len() != stage_text(false).len());
}

/// Every reason for refusing a draw is told by its own word.
pub proof fn law_every_reason_has_its_word(reason: DrawReason)
    ensures
        reason is SpirvInvalid ==> reason.slug_text() == "spirv_module_invalid"@,
        reason is DriverCallQuarantined ==> reason.slug_text() == "driver_call_quarantined"@,
        reason is ResidentSampledNot2d ==> reason.slug_text() == "resident_sampled_not_2d"@,
        reason is NullSampledImageUnsupported ==> reason.slug_text()
            == "null_sampled_image_unsupported"@,
        reason is NullSamplerUnsupported ==> reason.slug_text() == "null_sampler_unsupported"@,
        reason is ViewportSlotsUnsupported ==> reason.slug_text() == "viewport_slots_unsupported"@,
        reason is VisibilityCountingUnsupported ==> reason.slug_text()
            == "visibility_counting_unsupported"@,
        reason is MultisampleAttachmentSampleCountMismatch ==> reason.slug_text()
            == "multisample_attachment_sample_count_mismatch"@,
        reason is MultisampleResidentTargetMissing ==> reason.slug_text()
            == "multisample_resident_target_missing"@,
        reason is MultisampleLinearTransferUnsupported ==> reason.slug_text()
            == "multisample_linear_transfer_unsupported"@,
        reason is MultisampleSampleCountUnsupported ==> reason.slug_text()
            == "multisample_sample_count_unsupported"@,
        reason is MultisampleStoreActionUnsupported ==> reason.slug_text()
            == "multisample_store_action_unsupported"@,
        reason is MultisampleLoadActionUnsupported ==> reason.slug_text()
            == "multisample_load_action_unsupported"@,
        reason is MultisampleResolveShapeUnsupported ==> reason.slug_text()
            == "multisample_resolve_shape_unsupported"@,
        reason is AttachmentWideDepthClearUnsupported ==> reason.slug_text()
            == "attachment_wide_depth_clear_unsupported"@,
        reason is SecondaryAttachmentCap ==> reason.slug_text() == "secondary_attachment_cap"@,
        reason is SamplerAnisotropyUnsupported ==> reason.slug_text()
            == "sampler_anisotropy_unsupported"@,
        reason is SamplerMirrorClampToEdgeUnsupported ==> reason.slug_text()
            == "sampler_mirror_clamp_to_edge_unsupported"@,
        reason is SamplerPixelMixedFilters ==> reason.slug_text() == "sampler_pixel_mixed_filters"@,
        reason is SamplerPixelMipmapped ==> reason.slug_text() == "sampler_pixel_mipmapped"@,
        reason is SamplerPixelAddressMode ==> reason.slug_text() == "sampler_pixel_address_mode"@,
        reason is SamplerPixelAnisotropy ==> reason.slug_text() == "sampler_pixel_anisotropy"@,
        reason is SamplerUnnormalizedCompare ==> reason.slug_text()
            == "sampler_unnormalized_compare"@,
        reason is DualSourceBlendUnsupported ==> reason.slug_text()
            == "dual_source_blend_unsupported"@,
        reason is FillModeNonSolidUnsupported ==> reason.slug_text()
            == "fill_mode_non_solid_unsupported"@,
        reason is WideLinesUnsupported ==> reason.slug_text() == "wide_lines_unsupported"@,
        reason is LineWidthOutOfRange ==> reason.slug_text() == "line_width_out_of_range"@,
        reason is DepthBiasNonFinite ==> reason.slug_text() == "depth_bias_non_finite"@,
        reason is DepthBiasClampUnsupported ==> reason.slug_text()
            == "depth_bias_clamp_unsupported"@,
        reason is DepthClampUnsupported ==> reason.slug_text() == "depth_clamp_unsupported"@,
        reason is ConstantVertexAttribute ==> reason.slug_text() == "constant_vertex_attribute"@,
        reason is InstanceRateDivisorUnsupported ==> reason.slug_text()
            == "instance_rate_divisor_unsupported"@,
        reason is InstanceRateDivisorOverLimit ==> reason.slug_text()
            == "instance_rate_divisor_over_limit"@,
        reason is NoCombinedGraphicsComputeQueue ==> reason.slug_text()
            == "no_combined_graphics_compute_queue"@,
        reason is DescriptorArrayUnsupported ==> reason.slug_text()
            == "descriptor_array_unsupported"@,
        reason is DescriptorBindingConflict ==> reason.slug_text()
            == "descriptor_binding_conflict"@,
        reason is NoHostVisibleMemoryForStaging ==> reason.slug_text()
            == "no_host_visible_memory_for_staging"@,
        reason is NoHostVisibleMemoryForReadback ==> reason.slug_text()
            == "no_host_visible_memory_for_readback"@,
        reason is NoHostVisibleMemoryForStats ==> reason.slug_text()
            == "no_host_visible_memory_for_stats"@,
        reason is NoDeviceLocalMemoryForStorageImage ==> reason.slug_text()
            == "no_device_local_memory_for_storage_image"@,
        reason is NoDeviceLocalMemoryForSlab ==> reason.slug_text()
            == "no_device_local_memory_for_slab"@,
        reason is NoDeviceLocalMemoryForMrtSecondary ==> reason.slug_text()
            == "no_device_local_memory_for_mrt_secondary"@,
        reason is NoDeviceLocalMemoryForDepth ==> reason.slug_text()
            == "no_device_local_memory_for_depth"@,
        reason is NoDeviceLocalMemoryForGuestGather ==> reason.slug_text()
            == "no_device_local_memory_for_guest_gather"@,
        reason is SwapchainUnavailable ==> reason.slug_text() == "swapchain_unavailable"@,
        reason is QueueCannotPresent ==> reason.slug_text() == "queue_cannot_present"@,
        reason is SwapchainLacksTransferDst ==> reason.slug_text()
            == "swapchain_lacks_transfer_dst"@,
        reason is SwapchainNoSurfaceFormat ==> reason.slug_text() == "swapchain_no_surface_format"@,
        reason is SwapchainNoCompositeAlpha ==> reason.slug_text()
            == "swapchain_no_composite_alpha"@,
        reason is UsedBindingAbsentFromLayout ==> reason.slug_text()
            == "draw_used_binding_absent_from_layout"@,
{
}

/// Every way in which keys diverge is told by its own word.
pub proof fn law_every_divergence_has_its_word(divergence: TargetKeyDivergence)
    ensures
        divergence is Absent ==> divergence.label_text() == "absent"@,
        divergence is Generation ==> divergence.label_text() == "generation"@,
        divergence is Geometry ==> divergence.label_text() == "geometry"@,
        divergence is Namespace ==> divergence.label_text() == "namespace"@,
        divergence is Other ==> divergence.label_text() == "other"@,
{
}

/// Every reason for declining a read is told by its own word.
pub proof fn law_every_declined_read_has_its_word(decline: TargetReadDecline)
    ensures
        decline is UnknownIdentity ==> decline.slug_text() == "read_target_unknown_identity"@,
        decline is NoReadyContent ==> decline.slug_text() == "read_target_no_ready_content"@,
        decline is MultisampleImage ==> decline.slug_text() == "read_target_multisample_image"@,
        decline is TexelNotFourBytes ==> decline.slug_text() == "read_target_texel_not_four_bytes"@,
{
}

} // verus!
