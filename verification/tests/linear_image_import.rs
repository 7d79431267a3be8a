//! Images that alias guest memory.

use reims_vgpu_vulkan::decline::Decline;
use reims_vgpu_vulkan::format::{
    FORMAT_B8G8R8A8_SRGB, FORMAT_B8G8R8A8_UNORM, FORMAT_R16G16B16A16_SFLOAT, FORMAT_R8G8B8A8_SRGB,
    FORMAT_R8G8B8A8_UNORM, FORMAT_R8_UNORM,
};
use reims_vgpu_vulkan::pools::slots::ImportId;
use reims_vgpu_vulkan::linear_image_import::{
    admit_allocation, after_answer, after_attempt, attachment_usage, binding_allocation_len,
    binding_layout, create_allocation,
    create_with_layout, creation_refusal, driver_binding_len, explicit_linear_answer,
    explicit_linear_decline_key, fallback_binding_len, image_geometry, image_request,
    linear_modifier_usable, mutable_view_formats, note_explicit_linear_unavailable,
    plan_image_with_layout, plan_linear_window, required_features, single_plane_layout,
    validate_mip_subresource, AllocationFacts, BindingLen, CreateAllocation, CreatedImage, ExplicitLinearSupport,
    Extent3D, GuestImageAllocationLayout, GuestImageLayout, GuestImageMipLayout,
    GuestTargetBacking, ImageType, LayoutMode, MemoryRequirements, MipPlacement,
    ModifierProperties, SampledCopyCause, SubresourceLayout, SupportKey, Tiling, WindowAdmission,
    WindowPlan, WindowRefusal, EXTERNAL_DEDICATED_ONLY, EXTERNAL_IMPORTABLE,
    USAGE_ATTACHMENT_FEEDBACK_LOOP, USAGE_COLOR_ATTACHMENT, USAGE_INPUT_ATTACHMENT, USAGE_SAMPLED,
    USAGE_TRANSFER_DST, USAGE_TRANSFER_SRC,
};
use reims_vgpu_vulkan::vk::{Format, Image, VkResult, ERROR_FORMAT_NOT_SUPPORTED};

/// Every layout the guest can declare, so the table below is total rather than
/// a sample.
const EVERY_LAYOUT: [GuestImageLayout; 5] = [
    GuestImageLayout::D1 { width: 8 },
    GuestImageLayout::D1Array {
        width: 8,
        layers: 2,
        array_pitch: 32,
    },
    GuestImageLayout::D2 {
        width: 8,
        height: 8,
    },
    GuestImageLayout::D2Array {
        width: 8,
        height: 8,
        layers: 2,
        array_pitch: 256,
    },
    GuestImageLayout::D3 {
        width: 8,
        height: 8,
        depth: 2,
        depth_pitch: 256,
    },
];

#[test]
fn the_alias_rail_admits_a_two_d_allocation_at_any_mip_count() {
    for layout in EVERY_LAYOUT {
        let admitted = SampledCopyCause::of_allocation(layout).is_none();
        assert_eq!(
            admitted,
            matches!(layout, GuestImageLayout::D2 { .. }),
            "{layout:?} was admitted={admitted}"
        );
    }
}

#[test]
fn the_view_half_admits_exactly_the_allocation_s_whole_chain() {
    for mips in [1u32, 2, 9] {
        assert_eq!(
            SampledCopyCause::of_view(0, mips, mips, 0, 1),
            None,
            "a view naming all {mips} level(s) is the rail's own shape"
        );
    }
    assert_eq!(
        SampledCopyCause::of_view(2, 1, 4, 0, 1),
        Some(SampledCopyCause::ViewMip { base: 2, count: 1 })
    );
    assert_eq!(
        SampledCopyCause::of_view(0, 3, 4, 0, 1),
        Some(SampledCopyCause::ViewMip { base: 0, count: 3 }),
        "a prefix of the chain is still not the chain"
    );
    assert_eq!(
        SampledCopyCause::of_view(0, 1, 4, 5, 1),
        Some(SampledCopyCause::ViewMip { base: 0, count: 1 }),
        "level zero of a four-level allocation is a partial view, not a whole one"
    );
    assert_eq!(
        SampledCopyCause::of_view(0, 1, 1, 5, 1),
        Some(SampledCopyCause::ViewLayer { base: 5, count: 1 })
    );
    assert_eq!(
        SampledCopyCause::of_view(0, 1, 1, 0, 6),
        Some(SampledCopyCause::ViewLayer { base: 0, count: 6 })
    );
}

#[test]
fn no_two_admission_terms_share_a_reason() {
    let causes = [
        SampledCopyCause::Layout(EVERY_LAYOUT[0]),
        SampledCopyCause::Layout(EVERY_LAYOUT[1]),
        SampledCopyCause::Layout(EVERY_LAYOUT[2]),
        SampledCopyCause::Layout(EVERY_LAYOUT[3]),
        SampledCopyCause::Layout(EVERY_LAYOUT[4]),
        SampledCopyCause::IrregularMipChain { mips: 2 },
        SampledCopyCause::ViewMip { base: 1, count: 1 },
        SampledCopyCause::ViewLayer { base: 1, count: 1 },
        SampledCopyCause::ResidentUnavailable,
    ];
    let mut slugs: Vec<&str> = causes.iter().map(|cause| cause.slug()).collect();
    slugs.sort_unstable();
    let before = slugs.len();
    slugs.dedup();
    assert_eq!(before, slugs.len(), "two causes share a reason: {slugs:?}");
}

#[test]
fn the_refusal_reports_the_cause_it_carries() {
    assert_eq!(
        WindowRefusal::SampledContentRequiresCopy(SampledCopyCause::ResidentUnavailable).slug(),
        "sampled_copy_resident_unavailable"
    );
}

#[test]
fn mutable_image_format_list_contains_exactly_the_compatible_view_family() {
    assert_eq!(
        mutable_view_formats(Format(ash::vk::Format::B8G8R8A8_UNORM.as_raw())),
        vec![Format(FORMAT_B8G8R8A8_UNORM), Format(FORMAT_B8G8R8A8_SRGB)]
    );
    assert_eq!(
        mutable_view_formats(Format(ash::vk::Format::R8G8B8A8_SRGB.as_raw())),
        vec![Format(FORMAT_R8G8B8A8_UNORM), Format(FORMAT_R8G8B8A8_SRGB)]
    );
    assert_eq!(
        mutable_view_formats(Format(ash::vk::Format::R16G16B16A16_SFLOAT.as_raw())),
        vec![Format(FORMAT_R16G16B16A16_SFLOAT)]
    );
}

fn backing() -> GuestTargetBacking {
    GuestTargetBacking {
        allocation_host_ptr: 0x1000,
        allocation_len: 0x4000,
        resource_offset: 0x1000,
        resource_len: 0x3000,
        plane_offset: 0x1000,
        row_pitch: 256,
    }
}

fn host(offset: u64, row_pitch: u64) -> SubresourceLayout {
    SubresourceLayout {
        offset,
        size: 0,
        row_pitch,
        array_pitch: 0,
        depth_pitch: 0,
    }
}

#[test]
fn explicit_decline_dedupes_equal_layout_contracts_across_allocations() {
    let first = backing();
    let second = GuestTargetBacking {
        allocation_host_ptr: 0x9000,
        allocation_len: 0x8000,
        ..first
    };
    let layout = GuestImageAllocationLayout::single(
        first.plane_offset - first.resource_offset,
        first.row_pitch,
        d2(),
    );
    let key = |backing| {
        explicit_linear_decline_key(
            &WindowRefusal::RowPitchMismatch {
                mip_level: 0,
                width: 64,
                guest: 256,
                host: 512,
            },
            backing,
            &layout,
            Format(FORMAT_R8_UNORM),
            ImageType::D2,
            USAGE_SAMPLED,
        )
    };
    assert_eq!(key(first), key(second));

    let different_pitch = GuestTargetBacking {
        row_pitch: 512,
        ..first
    };
    assert_ne!(key(first), key(different_pitch));
}

fn requirements() -> MemoryRequirements {
    MemoryRequirements {
        size: 0x2000,
        alignment: 0x1000,
        memory_type_bits: 0b10,
    }
}

fn d2() -> GuestImageLayout {
    GuestImageLayout::D2 {
        width: 16,
        height: 16,
    }
}

#[test]
fn exact_driver_layout_derives_the_parent_binding_offset() {
    assert_eq!(
        plan_linear_window(
            host(0, 256),
            requirements(),
            backing(),
            d2(),
            Some(1),
            false,
            true,
        ),
        Ok(WindowPlan {
            bind_offset: 0x1000,
            required_allocation_len: 0x3000,
        })
    );
}

#[test]
fn every_binding_term_can_refuse() {
    let mut b = backing();
    let req = requirements();
    assert_eq!(
        plan_linear_window(host(0x2000, 256), req, b, d2(), Some(1), false, true),
        Err(WindowRefusal::SubresourceAfterPlane {
            plane_offset: 0x1000,
            subresource_offset: 0x2000,
        })
    );
    b.plane_offset = 0x800;
    assert_eq!(
        plan_linear_window(host(0, 256), req, b, d2(), Some(1), false, true),
        Err(WindowRefusal::BindOffsetMisaligned)
    );
    b = backing();
    assert_eq!(
        plan_linear_window(host(0, 512), req, b, d2(), Some(1), false, true),
        Err(WindowRefusal::RowPitchMismatch {
            mip_level: 0,
            width: 16,
            guest: 256,
            host: 512,
        })
    );
    b.allocation_len = 0x2000;
    assert_eq!(
        plan_linear_window(host(0, 256), req, b, d2(), Some(1), false, true),
        Err(WindowRefusal::AllocationTooShort {
            required_end: 0x3000,
            allocation_len: 0x2000,
        })
    );
    b = backing();
    assert_eq!(
        plan_linear_window(host(0, 256), req, b, d2(), Some(2), false, true),
        Err(WindowRefusal::NoMemoryType)
    );
    assert_eq!(
        plan_linear_window(host(0, 256), req, b, d2(), Some(1), true, true),
        Err(WindowRefusal::DedicatedBindingRequired)
    );
}

#[test]
fn planning_reports_the_required_tail_without_claiming_guest_bytes() {
    let mut b = backing();
    b.allocation_len = 0x2000;
    assert_eq!(
        plan_linear_window(host(0, 256), requirements(), b, d2(), None, false, false),
        Ok(WindowPlan {
            bind_offset: 0x1000,
            required_allocation_len: 0x3000,
        })
    );
    assert_eq!(
        b.allocation_len, 0x2000,
        "the guest allocation is unchanged"
    );
}

#[test]
fn a_declared_base_subresource_offset_absorbs_the_whole_plane_offset() {
    assert_eq!(
        plan_linear_window(
            host(0x1000, 256),
            requirements(),
            backing(),
            d2(),
            Some(1),
            false,
            true,
        ),
        Ok(WindowPlan {
            bind_offset: 0,
            required_allocation_len: 0x2000,
        })
    );
}

#[test]
fn array_and_volume_pitch_are_independent_binding_terms() {
    let array = GuestImageLayout::D1Array {
        width: 16,
        layers: 3,
        array_pitch: 256,
    };
    assert_eq!(
        plan_linear_window(
            SubresourceLayout {
                array_pitch: 512,
                ..host(0, 256)
            },
            requirements(),
            backing(),
            array,
            Some(1),
            false,
            true,
        ),
        Err(WindowRefusal::ArrayPitchMismatch)
    );

    let volume = GuestImageLayout::D3 {
        width: 16,
        height: 2,
        depth: 3,
        depth_pitch: 512,
    };
    assert_eq!(
        plan_linear_window(
            SubresourceLayout {
                depth_pitch: 768,
                ..host(0, 256)
            },
            requirements(),
            backing(),
            volume,
            Some(1),
            false,
            true,
        ),
        Err(WindowRefusal::DepthPitchMismatch)
    );
}

#[test]
fn image_geometry_preserves_one_and_three_dimensional_types() {
    let d1 = image_geometry(GuestImageLayout::D1 { width: 17 });
    assert_eq!(d1.image_type, ImageType::D1);
    assert_eq!(
        d1.extent,
        Extent3D {
            width: 17,
            height: 1,
            depth: 1
        }
    );
    assert_eq!(d1.array_layers, 1);

    let d3 = image_geometry(GuestImageLayout::D3 {
        width: 7,
        height: 5,
        depth: 3,
        depth_pitch: 256,
    });
    assert_eq!(d3.image_type, ImageType::D3);
    assert_eq!(
        d3.extent,
        Extent3D {
            width: 7,
            height: 5,
            depth: 3
        }
    );
    assert_eq!(d3.array_layers, 1);
}

#[test]
fn every_mip_offset_is_checked_in_the_guest_resource_namespace() {
    let guest = GuestImageMipLayout {
        resource_relative_offset: 0x240,
        row_pitch: 64,
        layout: GuestImageLayout::D1 { width: 16 },
    };
    let at_allocation_base = MipPlacement {
        image_base: 0,
        resource_base: 0,
        plane_offset: 0,
        mode: LayoutMode::DriverLinear,
    };
    assert_eq!(
        validate_mip_subresource(1, host(0x240, 64), guest, at_allocation_base),
        Ok(())
    );
    assert_eq!(
        validate_mip_subresource(
            1,
            host(0x240, 64),
            GuestImageMipLayout {
                resource_relative_offset: 0x280,
                ..guest
            },
            at_allocation_base,
        ),
        Err(WindowRefusal::MipOffsetMismatch {
            mip_level: 1,
            guest_offset: 0x280,
            host_offset: 0x240,
            image_base: 0,
            resource_base: 0,
            plane_offset: 0,
            mode: LayoutMode::DriverLinear,
        })
    );
}

#[test]
fn a_mip_offset_is_read_past_the_resource_base_not_the_allocation_base() {
    let resource_base = 0x2000_0000;
    let plane_offset = resource_base + 0x1000;
    let guest = GuestImageMipLayout {
        resource_relative_offset: plane_offset - resource_base,
        row_pitch: 64,
        layout: GuestImageLayout::D1 { width: 16 },
    };
    assert_eq!(
        validate_mip_subresource(
            0,
            host(0, 64),
            guest,
            MipPlacement {
                image_base: plane_offset,
                resource_base,
                plane_offset,
                mode: LayoutMode::ExplicitLinear,
            },
        ),
        Ok(()),
        "the plane the guest named is where the image's base subresource lands"
    );
}

#[test]
fn a_range_past_the_address_space_is_refused() {
    let far = GuestTargetBacking {
        plane_offset: u64::MAX - 0xfff,
        ..backing()
    };
    assert_eq!(
        plan_linear_window(host(0, 256), requirements(), far, d2(), None, false, false),
        Err(WindowRefusal::BindingRangeOverflow)
    );
    let guest = GuestImageMipLayout {
        resource_relative_offset: 0,
        row_pitch: 64,
        layout: GuestImageLayout::D1 { width: 16 },
    };
    let placement = MipPlacement {
        image_base: u64::MAX,
        resource_base: 0,
        plane_offset: 0,
        mode: LayoutMode::DriverLinear,
    };
    assert_eq!(
        validate_mip_subresource(0, host(1, 64), guest, placement),
        Err(WindowRefusal::BindingRangeOverflow)
    );
    let placement = MipPlacement {
        image_base: 0,
        resource_base: 1,
        ..placement
    };
    assert_eq!(
        validate_mip_subresource(0, host(0, 64), guest, placement),
        Err(WindowRefusal::BindingRangeOverflow)
    );
}

#[test]
fn a_planned_image_agrees_with_the_guest_on_every_level() {
    let layout = GuestImageAllocationLayout {
        mips: vec![
            GuestImageMipLayout {
                resource_relative_offset: 0,
                row_pitch: 256,
                layout: d2(),
            },
            GuestImageMipLayout {
                resource_relative_offset: 0x1000,
                row_pitch: 128,
                layout: GuestImageLayout::D2 {
                    width: 8,
                    height: 8,
                },
            },
        ],
    };
    let created = CreatedImage {
        requirements: requirements(),
        backing: backing(),
        parent_memory_type: Some(1),
        requires_dedicated: false,
        require_allocation_fit: true,
    };
    assert_eq!(
        plan_image_with_layout(
            created,
            &layout,
            &vec![host(0, 256), host(0x1000, 128)],
            LayoutMode::DriverLinear,
        ),
        Ok(WindowPlan {
            bind_offset: 0x1000,
            required_allocation_len: 0x3000,
        })
    );
    assert_eq!(
        plan_image_with_layout(
            created,
            &layout,
            &vec![host(0, 256), host(0x1000, 64)],
            LayoutMode::DriverLinear,
        ),
        Err(WindowRefusal::RowPitchMismatch {
            mip_level: 1,
            width: 8,
            guest: 128,
            host: 64,
        })
    );
}

#[test]
fn the_features_asked_for_follow_the_usage() {
    let sampled = ash::vk::FormatFeatureFlags::SAMPLED_IMAGE.as_raw();
    let colour = (ash::vk::FormatFeatureFlags::COLOR_ATTACHMENT
        | ash::vk::FormatFeatureFlags::COLOR_ATTACHMENT_BLEND)
        .as_raw();
    let source = ash::vk::FormatFeatureFlags::TRANSFER_SRC.as_raw();
    let sink = ash::vk::FormatFeatureFlags::TRANSFER_DST.as_raw();
    assert_eq!(required_features(0), 0);
    assert_eq!(required_features(USAGE_SAMPLED), sampled);
    assert_eq!(required_features(USAGE_COLOR_ATTACHMENT), colour);
    assert_eq!(required_features(USAGE_INPUT_ATTACHMENT), colour);
    assert_eq!(
        required_features(USAGE_SAMPLED | USAGE_TRANSFER_SRC | USAGE_TRANSFER_DST),
        sampled | source | sink
    );
}

#[test]
fn the_usage_bits_are_the_drivers() {
    assert_eq!(USAGE_TRANSFER_SRC, ash::vk::ImageUsageFlags::TRANSFER_SRC.as_raw());
    assert_eq!(USAGE_TRANSFER_DST, ash::vk::ImageUsageFlags::TRANSFER_DST.as_raw());
    assert_eq!(USAGE_SAMPLED, ash::vk::ImageUsageFlags::SAMPLED.as_raw());
    assert_eq!(
        USAGE_COLOR_ATTACHMENT,
        ash::vk::ImageUsageFlags::COLOR_ATTACHMENT.as_raw()
    );
    assert_eq!(
        USAGE_INPUT_ATTACHMENT,
        ash::vk::ImageUsageFlags::INPUT_ATTACHMENT.as_raw()
    );
    assert_eq!(
        USAGE_ATTACHMENT_FEEDBACK_LOOP,
        ash::vk::ImageUsageFlags::ATTACHMENT_FEEDBACK_LOOP_EXT.as_raw()
    );
    assert_eq!(
        EXTERNAL_IMPORTABLE,
        ash::vk::ExternalMemoryFeatureFlags::IMPORTABLE.as_raw()
    );
    assert_eq!(
        EXTERNAL_DEDICATED_ONLY,
        ash::vk::ExternalMemoryFeatureFlags::DEDICATED_ONLY.as_raw()
    );
    assert_eq!(ImageType::D1.as_raw() as i32, ash::vk::ImageType::TYPE_1D.as_raw());
    assert_eq!(ImageType::D2.as_raw() as i32, ash::vk::ImageType::TYPE_2D.as_raw());
    assert_eq!(ImageType::D3.as_raw() as i32, ash::vk::ImageType::TYPE_3D.as_raw());
}

#[test]
fn an_explicit_layout_needs_one_linear_plane_that_can_be_imported() {
    let usable = ModifierProperties {
        modifier: 0,
        plane_count: 1,
        features: required_features(USAGE_SAMPLED),
    };
    assert!(linear_modifier_usable(&vec![usable], USAGE_SAMPLED));
    assert!(!linear_modifier_usable(&Vec::new(), USAGE_SAMPLED));
    assert!(!linear_modifier_usable(
        &vec![ModifierProperties {
            modifier: 1,
            ..usable
        }],
        USAGE_SAMPLED
    ));
    assert!(!linear_modifier_usable(
        &vec![ModifierProperties {
            plane_count: 2,
            ..usable
        }],
        USAGE_SAMPLED
    ));
    assert!(!linear_modifier_usable(&vec![usable], USAGE_COLOR_ATTACHMENT));

    assert_eq!(explicit_linear_answer(Ok(EXTERNAL_IMPORTABLE)), Ok(true));
    assert_eq!(
        explicit_linear_answer(Ok(EXTERNAL_IMPORTABLE | EXTERNAL_DEDICATED_ONLY)),
        Ok(false)
    );
    assert_eq!(explicit_linear_answer(Ok(0)), Ok(false));
    assert_eq!(
        explicit_linear_answer(Err(VkResult(ERROR_FORMAT_NOT_SUPPORTED))),
        Ok(false)
    );
    assert_eq!(
        explicit_linear_answer(Err(VkResult(-1))),
        Err(WindowRefusal::ModifierQuery(VkResult(-1)))
    );
}

#[test]
fn the_driver_is_asked_once_for_each_format() {
    let mut support = ExplicitLinearSupport::new();
    let key = SupportKey {
        format: FORMAT_R8_UNORM,
        usage: USAGE_SAMPLED,
        image_type: ImageType::D2,
    };
    let other = SupportKey {
        image_type: ImageType::D3,
        ..key
    };
    assert_eq!(support.explicit_linear_supported(false, key), Some(false));
    assert_eq!(support.explicit_linear_supported(true, key), None);
    support.remember(key, true);
    assert_eq!(support.explicit_linear_supported(true, key), Some(true));
    assert_eq!(support.explicit_linear_supported(true, other), None);
    assert_eq!(support.explicit_linear_supported(false, key), Some(false));
}

#[test]
fn an_unavailable_layout_is_reported_by_its_numbers() {
    assert_eq!(
        note_explicit_linear_unavailable(Format(FORMAT_R8_UNORM), ImageType::D2, USAGE_SAMPLED),
        "sampled_guest_image_explicit_unavailable format=9 image_type=1 usage=0x4"
    );
}

#[test]
fn a_dictated_layout_is_the_guests_own() {
    let layout = GuestImageAllocationLayout::single(
        0,
        256,
        GuestImageLayout::D2Array {
            width: 16,
            height: 16,
            layers: 2,
            array_pitch: 4096,
        },
    );
    let explicit = image_request(
        &layout,
        Some(0x1000),
        Format(FORMAT_R8_UNORM),
        USAGE_SAMPLED,
        LayoutMode::ExplicitLinear,
    )
    .unwrap();
    assert_eq!(
        explicit.tiling,
        Tiling::Explicit(SubresourceLayout {
            offset: 0x1000,
            size: 0,
            row_pitch: 256,
            array_pitch: 4096,
            depth_pitch: 0,
        })
    );
    assert_eq!(explicit.geometry.array_layers, 2);
    assert_eq!(explicit.mip_levels, 1);
    assert_eq!(
        creation_refusal(&explicit, VkResult(-2)).slug(),
        "create_failed"
    );
    let linear = image_request(
        &layout,
        Some(0x1000),
        Format(FORMAT_R8_UNORM),
        USAGE_SAMPLED,
        LayoutMode::DriverLinear,
    )
    .unwrap();
    assert_eq!(linear.tiling, Tiling::Linear);
    assert_eq!(
        image_request(
            &layout,
            None,
            Format(FORMAT_R8_UNORM),
            USAGE_SAMPLED,
            LayoutMode::DriverLinear,
        ),
        Err(WindowRefusal::ResourceWindowTooShort)
    );
}

#[test]
fn an_allocation_is_refused_by_its_first_failing_term() {
    let facts = AllocationFacts {
        host_import: true,
        import_base: 0x1000,
        import_len: 0x4000,
        import_alignment: 0x1000,
        bytes_per_texel: Some(4),
        vulkan_mip_chain: true,
    };
    assert_eq!(admit_allocation(facts, backing(), &[true, true]), Ok(()));
    assert_eq!(
        admit_allocation(
            AllocationFacts {
                host_import: false,
                ..facts
            },
            backing(),
            &[true]
        ),
        Err(WindowRefusal::HostImportUnavailable)
    );
    assert_eq!(
        admit_allocation(
            AllocationFacts {
                import_len: 0x5000,
                ..facts
            },
            backing(),
            &[true]
        ),
        Err(WindowRefusal::ParentAllocationMismatch)
    );
    assert_eq!(
        admit_allocation(
            AllocationFacts {
                import_alignment: 0x2000,
                ..facts
            },
            backing(),
            &[true]
        ),
        Err(WindowRefusal::HostPointerMisaligned)
    );
    assert_eq!(
        admit_allocation(
            AllocationFacts {
                vulkan_mip_chain: false,
                ..facts
            },
            backing(),
            &[true]
        ),
        Err(WindowRefusal::ResourceWindowTooShort)
    );
    assert_eq!(
        admit_allocation(facts, backing(), &[true, false, true]),
        Err(WindowRefusal::ResourceWindowTooShort),
        "one mip level outside the resource refuses the whole"
    );
}

#[test]
fn a_plane_before_its_resource_has_no_layout() {
    let single = single_plane_layout(backing(), d2()).unwrap();
    assert_eq!(single.mips.len(), 1);
    assert_eq!(single.mips[0].resource_relative_offset, 0);
    assert_eq!(
        single_plane_layout(
            GuestTargetBacking {
                plane_offset: 0,
                ..backing()
            },
            d2()
        ),
        Err(WindowRefusal::ResourceWindowTooShort)
    );
}

#[test]
fn a_colour_attachment_may_be_read_while_it_is_written() {
    assert_eq!(
        attachment_usage(USAGE_COLOR_ATTACHMENT, true),
        USAGE_COLOR_ATTACHMENT | USAGE_ATTACHMENT_FEEDBACK_LOOP
    );
    assert_eq!(
        attachment_usage(USAGE_COLOR_ATTACHMENT, false),
        USAGE_COLOR_ATTACHMENT
    );
    assert_eq!(attachment_usage(USAGE_SAMPLED, true), USAGE_SAMPLED);
}

#[test]
fn a_declined_explicit_layout_falls_back_to_the_drivers() {
    let layout = GuestImageAllocationLayout::single(0, 256, d2());
    let parent = ImportId(9);
    assert!(matches!(
        create_allocation(Ok(()), Ok(parent), &layout),
        CreateAllocation::AskExplicit {
            image_type: ImageType::D2
        }
    ));
    assert!(matches!(
        after_answer(Ok(true)),
        CreateAllocation::Attempt {
            mode: LayoutMode::ExplicitLinear,
            declined: None
        }
    ));
    assert!(matches!(
        after_answer(Ok(false)),
        CreateAllocation::Attempt {
            mode: LayoutMode::DriverLinear,
            declined: None
        }
    ));
    assert!(matches!(
        after_answer(Err(WindowRefusal::NoMemoryType)),
        CreateAllocation::Refused(WindowRefusal::NoMemoryType)
    ));
    let second = after_attempt(
        parent,
        LayoutMode::ExplicitLinear,
        Err(WindowRefusal::NoMemoryType),
    );
    assert!(matches!(
        second,
        CreateAllocation::Attempt {
            mode: LayoutMode::DriverLinear,
            declined: Some(WindowRefusal::NoMemoryType)
        }
    ));
    let third = after_attempt(
        parent,
        LayoutMode::DriverLinear,
        create_with_layout(Image(3), Err(VkResult(-2))),
    );
    assert!(matches!(
        third,
        CreateAllocation::Refused(WindowRefusal::BindImage(VkResult(-2)))
    ));
}

#[test]
fn an_image_retains_its_parent_and_a_refusal_does_not() {
    let layout = GuestImageAllocationLayout::single(0, 256, d2());
    for mode in [LayoutMode::ExplicitLinear, LayoutMode::DriverLinear] {
        let done = after_attempt(ImportId(9), mode, create_with_layout(Image(3), Ok(())));
        assert!(matches!(
            done,
            CreateAllocation::Created {
                image: Image(3),
                retain: ImportId(9)
            }
        ));
    }
    let refused = create_allocation(
        Ok(()),
        Err(Decline {
            slug: "import_refused",
            fields: Vec::new(),
            line: String::new(),
        }),
        &layout,
    );
    assert!(matches!(
        refused,
        CreateAllocation::Refused(WindowRefusal::ParentImport(_))
    ));
    let refused = create_allocation(
        Err(WindowRefusal::HostImportUnavailable),
        Ok(ImportId(9)),
        &layout,
    );
    assert!(matches!(
        refused,
        CreateAllocation::Refused(WindowRefusal::HostImportUnavailable)
    ));
}

#[test]
fn the_length_of_an_alias_comes_from_the_first_plan_that_holds() {
    let layout = GuestImageAllocationLayout::single(0, 256, d2());
    assert!(matches!(
        binding_allocation_len(true, Some(4), true, &layout),
        BindingLen::AskExplicit {
            image_type: ImageType::D2
        }
    ));
    assert!(matches!(
        binding_layout(Ok(true)),
        BindingLen::Plan {
            mode: LayoutMode::ExplicitLinear
        }
    ));
    assert!(matches!(
        binding_layout(Err(WindowRefusal::NoMemoryType)),
        BindingLen::Known(Err(WindowRefusal::NoMemoryType))
    ));
    assert!(matches!(
        binding_allocation_len(true, Some(4), false, &layout),
        BindingLen::Known(Err(WindowRefusal::SampledContentRequiresCopy(
            SampledCopyCause::IrregularMipChain { mips: 1 }
        )))
    ));
    let volume = GuestImageAllocationLayout::single(0, 256, EVERY_LAYOUT[4]);
    assert!(matches!(
        binding_allocation_len(true, Some(4), true, &volume),
        BindingLen::Known(Err(WindowRefusal::SampledContentRequiresCopy(
            SampledCopyCause::Layout(GuestImageLayout::D3 { .. })
        )))
    ));
    let plan = WindowPlan {
        bind_offset: 0,
        required_allocation_len: 0x2000,
    };
    assert_eq!(driver_binding_len(Ok(plan)), Ok(0x2000));
    assert_eq!(
        fallback_binding_len(WindowRefusal::NoMemoryType, Ok(plan)),
        Ok(0x2000)
    );
    assert_eq!(
        fallback_binding_len(
            WindowRefusal::NoMemoryType,
            Err(WindowRefusal::BindOffsetMisaligned)
        ),
        Err(WindowRefusal::NoMemoryType)
    );
}

#[test]
fn a_refusal_carries_the_numbers_that_bear_on_it() {
    let refusal = WindowRefusal::CreateImage {
        result: VkResult(-2),
        mode: LayoutMode::ExplicitLinear,
        format: Format(FORMAT_R8_UNORM),
        image_type: ImageType::D2,
        width: 16,
        height: 8,
        depth: 1,
        mip_levels: 2,
        array_layers: 3,
        plane_offset: 4096,
        row_pitch: 256,
    };
    let fields: Vec<(&str, String)> = refusal.fields();
    let text = |name: &str| {
        fields
            .iter()
            .find(|field| field.0 == name)
            .map(|field| field.1.clone())
    };
    assert_eq!(text("result").as_deref(), Some("ERROR_OUT_OF_DEVICE_MEMORY"));
    assert_eq!(text("mode").as_deref(), Some("explicit_linear"));
    assert_eq!(text("format").as_deref(), Some("9"));
    assert_eq!(text("row_pitch").as_deref(), Some("256"));
}
