//! Why draws are refused, and how the refusals read.

use reims_vgpu_vulkan::decline::Decline;
use reims_vgpu_vulkan::pools::slots::SubmissionIdentity;
use reims_vgpu_vulkan::reason::{
    DrawReason, ResidentReclaim, TargetKeyDivergence, TargetReadDecline, TranslateReason,
};
use reims_vgpu_vulkan::types::{
    blend_key, effective_sampler_state, sampler_state_key, BlendFactor, BlendOp,
    BlendStateResource, DeviceLostDecline, DeviceLostOp, DrawError, EngineFacadeDecline,
    InitDecline, SamplerAddressMode, SamplerBorderColor, SamplerCompareFunction, SamplerFilter,
    SamplerMipFilter, SamplerResource, SamplerStateKey, VkCall, VkOp,
};
use reims_vgpu_vulkan::vk::{
    Format, VkResult, ERROR_DEVICE_LOST, ERROR_OUT_OF_DEVICE_MEMORY, ERROR_OUT_OF_HOST_MEMORY,
};

const ALL: &[DrawReason] = &[
    DrawReason::ResidentSampledNot2d { binding: 0 },
    DrawReason::SecondaryAttachmentCap {
        requested: 0,
        cap: 0,
    },
    DrawReason::ViewportSlotsUnsupported {
        requested: 0,
        limit: 0,
        multi_viewport: false,
    },
    DrawReason::VisibilityCountingUnsupported {
        occlusion_query_precise: false,
    },
    DrawReason::MultisampleAttachmentSampleCountMismatch {
        attachment: 4,
        raster: 2,
    },
    DrawReason::MultisampleResidentTargetMissing { sample_count: 4 },
    DrawReason::MultisampleLinearTransferUnsupported { sample_count: 4 },
    DrawReason::MultisampleSampleCountUnsupported {
        requested: 4,
        limit: 1,
    },
    DrawReason::MultisampleStoreActionUnsupported { store_action: 3 },
    DrawReason::MultisampleLoadActionUnsupported { load_action: 1 },
    DrawReason::MultisampleResolveShapeUnsupported {
        color_targets: 2,
        depth: false,
        color_input: false,
    },
    DrawReason::SamplerAnisotropyUnsupported,
    DrawReason::SamplerMirrorClampToEdgeUnsupported,
    DrawReason::SamplerPixelMixedFilters,
    DrawReason::SamplerPixelMipmapped,
    DrawReason::SamplerPixelAddressMode,
    DrawReason::SamplerPixelAnisotropy,
    DrawReason::SamplerUnnormalizedCompare,
    DrawReason::ConstantVertexAttribute,
    DrawReason::InstanceRateDivisorUnsupported { step_rate: 0 },
    DrawReason::InstanceRateDivisorOverLimit {
        step_rate: 0,
        limit: 0,
    },
    DrawReason::NoCombinedGraphicsComputeQueue,
    DrawReason::DescriptorArrayUnsupported {
        binding: 0,
        count: 2,
        unpopulated: 1,
        required_descriptors: 2,
        descriptor_limit: 1,
        partially_bound: false,
        null_descriptor: false,
        dynamic_indexing: false,
    },
    DrawReason::DescriptorBindingConflict {
        binding: 0,
        first_type: 0,
        first_count: 1,
        second_type: 1,
        second_count: 2,
    },
    DrawReason::AttachmentWideDepthClearUnsupported { format: 126 },
    DrawReason::NoHostVisibleMemoryForStaging {
        memory_type_bits: 0,
    },
    DrawReason::NoHostVisibleMemoryForReadback {
        memory_type_bits: 0,
    },
    DrawReason::NoHostVisibleMemoryForStats {
        memory_type_bits: 0,
    },
    DrawReason::NoDeviceLocalMemoryForStorageImage {
        memory_type_bits: 0,
    },
    DrawReason::NoDeviceLocalMemoryForSlab {
        memory_type_bits: 0,
    },
    DrawReason::NoDeviceLocalMemoryForMrtSecondary {
        memory_type_bits: 0,
    },
    DrawReason::NoDeviceLocalMemoryForDepth {
        memory_type_bits: 0,
    },
    DrawReason::SwapchainUnavailable,
    DrawReason::QueueCannotPresent { queue_family: 0 },
    DrawReason::SwapchainLacksTransferDst,
    DrawReason::SwapchainNoSurfaceFormat,
    DrawReason::SwapchainNoCompositeAlpha,
    DrawReason::DualSourceBlendUnsupported,
    DrawReason::FillModeNonSolidUnsupported,
    DrawReason::WideLinesUnsupported {
        requested_bits: 2.0f32.to_bits(),
    },
    DrawReason::LineWidthOutOfRange {
        requested_bits: 65.0f32.to_bits(),
        min_bits: 1.0f32.to_bits(),
        max_bits: 64.0f32.to_bits(),
    },
    DrawReason::DepthBiasNonFinite {
        component: 0,
        value_bits: f32::NAN.to_bits(),
    },
    DrawReason::DepthBiasClampUnsupported {
        clamp_bits: 1.0f32.to_bits(),
    },
    DrawReason::DepthClampUnsupported,
];

#[test]
fn every_reason_has_its_own_slug() {
    let mut slugs: Vec<&str> = ALL.iter().map(|r| r.slug()).collect();
    slugs.sort_unstable();
    let before = slugs.len();
    slugs.dedup();
    assert_eq!(before, slugs.len(), "duplicate DrawReason slug");
}

#[test]
fn slugs_are_log_safe() {
    for r in ALL {
        let s = r.slug();
        assert!(!s.is_empty());
        assert!(
            s.bytes()
                .all(|b| b.is_ascii_lowercase() || b.is_ascii_digit() || b == b'_'),
            "slug {s:?} must be lowercase snake_case"
        );
    }
}

#[test]
fn the_rendered_line_carries_the_load_bearing_fields() {
    assert_eq!(
        DrawReason::ResidentSampledNot2d { binding: 34 }.line(&[]),
        "reason=resident_sampled_not_2d binding=34"
    );
    assert_eq!(
        DrawReason::InstanceRateDivisorOverLimit {
            step_rate: 9,
            limit: 4
        }
        .line(&[]),
        "reason=instance_rate_divisor_over_limit rate=9 limit=4"
    );
    assert_eq!(
        DrawReason::SecondaryAttachmentCap {
            requested: 9,
            cap: 7
        }
        .line(&[]),
        "reason=secondary_attachment_cap requested=9 cap=7"
    );
    assert_eq!(
        DrawReason::SwapchainUnavailable.line(&[]),
        "reason=swapchain_unavailable"
    );
}

#[test]
fn a_memory_type_refusal_names_its_purpose_and_carries_the_bits() {
    assert_eq!(
        DrawReason::NoHostVisibleMemoryForStaging {
            memory_type_bits: 0x5
        }
        .line(&[]),
        "reason=no_host_visible_memory_for_staging memory_type_bits=0x5"
    );
    assert_eq!(
        DrawReason::NoDeviceLocalMemoryForDepth {
            memory_type_bits: 0x82
        }
        .line(&[]),
        "reason=no_device_local_memory_for_depth memory_type_bits=0x82"
    );
    assert_ne!(
        DrawReason::NoHostVisibleMemoryForStaging {
            memory_type_bits: 0
        }
        .slug(),
        DrawReason::NoHostVisibleMemoryForReadback {
            memory_type_bits: 0
        }
        .slug()
    );
    assert_ne!(
        DrawReason::NoHostVisibleMemoryForReadback {
            memory_type_bits: 0
        }
        .slug(),
        DrawReason::NoHostVisibleMemoryForStats {
            memory_type_bits: 0
        }
        .slug()
    );
}

#[test]
fn slab_memory_refusal_carries_its_own_slug_and_bits() {
    let slab = DrawReason::NoDeviceLocalMemoryForSlab {
        memory_type_bits: 0x81,
    };
    assert_eq!(slab.slug(), "no_device_local_memory_for_slab");
    assert_eq!(
        slab.line(&[]),
        "reason=no_device_local_memory_for_slab memory_type_bits=0x81"
    );
}

#[test]
fn every_target_read_decline_has_its_own_slug() {
    let all = [
        TargetReadDecline::UnknownIdentity {
            asked: 7,
            held: None,
            how: TargetKeyDivergence::Absent,
            prior: None,
        },
        TargetReadDecline::NoReadyContent,
        TargetReadDecline::MultisampleImage { sample_count: 2 },
    ];
    let mut slugs: Vec<&str> = all.iter().map(|r| r.slug()).collect();
    slugs.sort_unstable();
    let before = slugs.len();
    slugs.dedup();
    assert_eq!(before, slugs.len(), "duplicate TargetReadDecline slug");
    for r in &all {
        assert_eq!(r.line(), format!("reason={}", r.slug()));
        if matches!(r, TargetReadDecline::NoReadyContent) {
            assert!(r.fields().is_empty(), "{r:?} carries no payload");
        }
    }
}

#[test]
fn an_absent_resident_says_whether_the_target_exists_under_another_key() {
    let nothing = TargetReadDecline::UnknownIdentity {
        asked: 4,
        held: None,
        how: TargetKeyDivergence::Absent,
        prior: Some(ResidentReclaim::ResourceReleased),
    };
    let stale = TargetReadDecline::UnknownIdentity {
        asked: 4,
        held: Some(5),
        how: TargetKeyDivergence::Generation,
        prior: None,
    };
    assert_eq!(nothing.slug(), stale.slug());
    assert_eq!(
        nothing.fields(),
        vec![
            ("diverges", "absent".to_string()),
            ("asked_gen", "4".to_string()),
            ("held_gen", "none".to_string()),
            ("prior", "resource_released".to_string())
        ]
    );
    assert_eq!(
        stale.fields(),
        vec![
            ("diverges", "generation".to_string()),
            ("asked_gen", "4".to_string()),
            ("held_gen", "5".to_string()),
            ("prior", "none".to_string())
        ]
    );
}

#[test]
fn a_vertex_format_decline_reuses_the_translation_reason() {
    let translate = TranslateReason::FormatNotVertexBuffer(97);
    let reason = DrawReason::VertexFormat(translate);
    assert_eq!(reason.slug(), translate.slug());
    assert_eq!(
        reason.line(&[]),
        "reason=format_not_vertex_buffer value=97"
    );
}

#[test]
fn a_texel_format_is_named_as_the_driver_names_it() {
    let decline = TargetReadDecline::TexelNotFourBytes {
        format: Format(ash::vk::Format::R16G16B16A16_SFLOAT.as_raw()),
    };
    assert_eq!(
        decline.fields(),
        vec![("format", "R16G16B16A16_SFLOAT".to_string())]
    );
}

/// The decimal text of the numbers that a reason shows.
fn shown(reason: &DrawReason) -> String {
    let numbers: Vec<String> = reason
        .numbers()
        .into_iter()
        .map(|bits| f32::from_bits(bits).to_string())
        .collect();
    reason.line(&numbers)
}

#[test]
fn a_number_is_shown_where_the_reason_carries_one() {
    assert_eq!(
        shown(&DrawReason::WideLinesUnsupported {
            requested_bits: 2.5f32.to_bits()
        }),
        "reason=wide_lines_unsupported requested=2.5"
    );
    assert_eq!(
        shown(&DrawReason::LineWidthOutOfRange {
            requested_bits: 65.0f32.to_bits(),
            min_bits: 1.0f32.to_bits(),
            max_bits: 64.0f32.to_bits(),
        }),
        "reason=line_width_out_of_range requested=65 min=1 max=64"
    );
}

fn worded(slug: &'static str) -> Decline {
    Decline {
        slug,
        fields: vec![("cause", "none".to_string())],
        line: format!("reason={slug}"),
    }
}

#[test]
fn only_running_out_of_memory_is_worth_a_retry() {
    let call = |raw| {
        DrawError::VkCall(VkCall::new(
            VkOp::PoolsBindTarget,
            VkResult(raw),
        ))
    };
    assert!(call(ERROR_OUT_OF_DEVICE_MEMORY).out_of_memory());
    assert!(call(ERROR_OUT_OF_HOST_MEMORY).out_of_memory());
    assert!(!call(ERROR_DEVICE_LOST).out_of_memory());
    assert!(!DrawError::FenceTimeout.out_of_memory());
    let init = |vk_result| {
        DrawError::Init(InitDecline {
            decline: worded("init_refused"),
            vk_result,
        })
    };
    assert!(init(Some(VkResult(ERROR_OUT_OF_HOST_MEMORY))).out_of_memory());
    assert!(!init(None).out_of_memory());
}

#[test]
fn an_error_is_reported_under_its_rail() {
    assert_eq!(
        DrawError::FenceTimeout.line(&[]),
        "vk_engine_fence_timeout"
    );
    assert_eq!(
        DrawError::RecordingSequenceExhausted.line(&[]),
        "vk_engine_recording_sequence_exhausted"
    );
    assert_eq!(
        DrawError::Unsupported(DrawReason::SwapchainUnavailable).line(&[]),
        "vk_engine_unsupported: reason=swapchain_unavailable"
    );
    assert_eq!(
        DrawError::TargetRead(TargetReadDecline::NoReadyContent).line(&[]),
        "vk_engine_target_read: reason=read_target_no_ready_content"
    );
    assert_eq!(
        DrawError::DrawValidation(worded("no_vertices")).line(&[]),
        "vk_engine_draw_validation: reason=no_vertices"
    );
    assert_eq!(
        DrawError::DrawValidation(worded("no_vertices")).slug(),
        "no_vertices"
    );
    assert_eq!(
        DrawError::DrawValidation(worded("no_vertices")).fields(),
        vec![("cause", "none".to_string())]
    );
    let lost = DrawError::DeviceLost(DeviceLostDecline::Driver {
        op: DeviceLostOp::Named {
            slug: "device_lost_wait",
            vk_op: VkOp::Named("wait"),
        },
        result: VkResult(ERROR_DEVICE_LOST),
    });
    assert_eq!(lost.slug(), "device_lost_wait");
    assert_eq!(
        lost.fields(),
        vec![("result", "ERROR_DEVICE_LOST".to_string())]
    );
}

#[test]
fn an_overlap_names_both_submissions() {
    let overlap = EngineFacadeDecline::EncoderSubmissionOverlap {
        active: SubmissionIdentity { id: 1, task: 2 },
        incoming: SubmissionIdentity { id: 3, task: 4 },
    };
    assert_eq!(overlap.slug(), "encoder_submission_overlap");
    assert_eq!(
        overlap.fields(),
        vec![
            ("active", "1".to_string()),
            ("active_task", "2".to_string()),
            ("incoming", "3".to_string()),
            ("incoming_task", "4".to_string())
        ]
    );
}

fn normalized_default(binding: u32) -> SamplerResource {
    SamplerResource {
        binding,
        min_filter: SamplerFilter::Linear,
        mag_filter: SamplerFilter::Linear,
        mip_filter: SamplerMipFilter::NotMipmapped,
        address_mode_u: SamplerAddressMode::ClampToEdge,
        address_mode_v: SamplerAddressMode::ClampToEdge,
        address_mode_w: SamplerAddressMode::ClampToEdge,
        border_color: SamplerBorderColor::TransparentBlack,
        compare_function: SamplerCompareFunction::Never,
        lod_min: 0.0f32.to_bits(),
        lod_max: f32::MAX.to_bits(),
        max_anisotropy: 1,
        unnormalized_coordinates: false,
    }
}

#[test]
fn sampler_cache_state_excludes_binding_but_preserves_sampler_state() {
    let first = normalized_default(3);
    let mut rebound = normalized_default(27);
    assert_eq!(sampler_state_key(&first), sampler_state_key(&rebound));
    assert_eq!(f32::from_bits(first.lod_min), 0.0);
    assert_eq!(f32::from_bits(first.lod_max), f32::MAX);

    rebound.address_mode_v = SamplerAddressMode::Repeat;
    assert_ne!(sampler_state_key(&first), sampler_state_key(&rebound));
}

fn valid_pixel_sampler() -> SamplerResource {
    let mut sampler = normalized_default(0);
    sampler.unnormalized_coordinates = true;
    sampler.lod_min = 1.0f32.to_bits();
    sampler.lod_max = 8.0f32.to_bits();
    sampler
}

#[test]
fn pixel_sampler_projection_changes_only_semantically_inactive_lod_clamps() {
    let sampler = valid_pixel_sampler();
    let raw = sampler_state_key(&sampler);
    let effective = effective_sampler_state(&sampler).expect("valid pixel sampler");
    assert_eq!(f32::from_bits(effective.lod_min), 0.0);
    assert_eq!(f32::from_bits(effective.lod_max), 0.0);
    assert_eq!(
        SamplerStateKey {
            lod_min: raw.lod_min,
            lod_max: raw.lod_max,
            ..effective
        },
        raw
    );
}

#[test]
fn pixel_sampler_projection_refuses_state_it_cannot_preserve() {
    let mut sampler = valid_pixel_sampler();
    sampler.min_filter = SamplerFilter::Nearest;
    assert_eq!(
        effective_sampler_state(&sampler).unwrap_err().slug(),
        "sampler_pixel_mixed_filters"
    );

    let mut sampler = valid_pixel_sampler();
    sampler.mip_filter = SamplerMipFilter::Linear;
    assert_eq!(
        effective_sampler_state(&sampler).unwrap_err().slug(),
        "sampler_pixel_mipmapped"
    );

    let mut sampler = valid_pixel_sampler();
    sampler.address_mode_u = SamplerAddressMode::Repeat;
    assert_eq!(
        effective_sampler_state(&sampler).unwrap_err().slug(),
        "sampler_pixel_address_mode"
    );

    let mut sampler = valid_pixel_sampler();
    sampler.max_anisotropy = 2;
    assert_eq!(
        effective_sampler_state(&sampler).unwrap_err().slug(),
        "sampler_pixel_anisotropy"
    );
}

#[test]
fn a_sampler_in_pixel_coordinates_compares_nothing() {
    let mut sampler = valid_pixel_sampler();
    sampler.compare_function = SamplerCompareFunction::Less;
    assert_eq!(
        effective_sampler_state(&sampler),
        Err(DrawReason::SamplerUnnormalizedCompare)
    );
    let plain = normalized_default(1);
    assert_eq!(
        effective_sampler_state(&plain),
        Ok(sampler_state_key(&plain)),
        "a normalized sampler is given as it is"
    );
}

#[test]
fn blend_constants_matter_only_where_a_factor_reads_them() {
    let plain = BlendStateResource {
        src_color: BlendFactor::One,
        dst_color: BlendFactor::Zero,
        color_op: BlendOp::Add,
        src_alpha: BlendFactor::One,
        dst_alpha: BlendFactor::Zero,
        alpha_op: BlendOp::Add,
    };
    assert!(!blend_key(&plain).uses_constants());
    let constant = BlendStateResource {
        dst_alpha: BlendFactor::BlendAlpha,
        ..plain
    };
    assert!(blend_key(&constant).uses_constants());
}

#[test]
fn a_line_is_its_slug_and_its_groups() {
    let reasons = [
        DrawReason::SwapchainUnavailable,
        DrawReason::AttachmentWideDepthClearUnsupported { format: -3 },
        DrawReason::DescriptorBindingConflict {
            binding: 1,
            first_type: 2,
            first_count: 3,
            second_type: 4,
            second_count: 5,
        },
        DrawReason::UsedBindingAbsentFromLayout {
            binding: 9,
            fragment: false,
        },
    ];
    let groups = [0, 1, 5, 2];
    for (reason, groups) in reasons.iter().zip(groups) {
        let line = reason.line(&[]);
        let tail = line
            .strip_prefix(&format!("reason={}", reason.slug()))
            .expect("the line begins with its slug");
        assert_eq!(tail.is_empty(), groups == 0);
        let found: Vec<&str> = tail.split(' ').skip(1).collect();
        assert_eq!(found.len(), groups);
        for group in found {
            let (name, value) = group.split_once('=').expect("a name and a value");
            assert!(!name.is_empty() && !value.is_empty());
        }
    }
}

#[test]
fn two_reasons_share_a_line_only_where_they_are_equal() {
    let mut reasons = vec![
        DrawReason::SpirvInvalid,
        DrawReason::SwapchainUnavailable,
        DrawReason::UsedBindingAbsentFromLayout {
            binding: 1,
            fragment: true,
        },
        DrawReason::UsedBindingAbsentFromLayout {
            binding: 1,
            fragment: false,
        },
        DrawReason::AttachmentWideDepthClearUnsupported { format: 12 },
        DrawReason::AttachmentWideDepthClearUnsupported { format: -12 },
        DrawReason::NoDeviceLocalMemoryForSlab {
            memory_type_bits: 0x12,
        },
        DrawReason::NoDeviceLocalMemoryForDepth {
            memory_type_bits: 0x12,
        },
    ];
    for (requested, limit) in [(1, 11), (11, 1), (111, 1), (1, 111)] {
        reasons.push(DrawReason::MultisampleSampleCountUnsupported { requested, limit });
        for multi_viewport in [false, true] {
            reasons.push(DrawReason::ViewportSlotsUnsupported {
                requested,
                limit,
                multi_viewport,
            });
        }
    }
    for (i, a) in reasons.iter().enumerate() {
        for (j, b) in reasons.iter().enumerate() {
            assert_eq!(a.line(&[]) == b.line(&[]), i == j, "{a:?} and {b:?}");
        }
    }
}
