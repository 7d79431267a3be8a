//! Buffers, scratch images and what a command buffer remembers.

use reims_vgpu_vulkan::pools::buckets::buffer_bucket;
use reims_vgpu_vulkan::pools::encoder::EncoderPools;
use reims_vgpu_vulkan::pools::fence::EngineCounters;
use reims_vgpu_vulkan::pools::graphics::{
    BlendConstants, CbGraphicsState, DepthBias, PushDescriptorBinding, Rect2D, Viewport,
};
use reims_vgpu_vulkan::pools::limits::{STAGING_MISS_EMIT_EVERY, TARGET_POOL_MAX_ENTRIES};
use reims_vgpu_vulkan::pools::limits::MemoryTopology;
use reims_vgpu_vulkan::pools::making::{
    descriptor_set_allocated, readback_usage, shared_usage, ReadbackBuild, ReadbackPurpose, SlabBuild,
    SlabRange, Unmake,
};
use reims_vgpu_vulkan::pools::memo::{BoundBuffer, GuestRun};
use reims_vgpu_vulkan::pools::readback::{
    note_readback_memory, Acquired, LeaseTokens, MappedMemoryKind, ReadbackLease,
    ReadbackLeaseReturns, ReadbackMemoryNote,
};
use reims_vgpu_vulkan::pools::resource::ResourcePools;
use reims_vgpu_vulkan::pools::shared::{MultisampleTargetKey, TargetKey, TargetSlot};
use reims_vgpu_vulkan::pools::slots::{
    BufferBacking, BufferSlot, DeferredHandle, SampledKey, SampledSlot, Swizzle,
};
use reims_vgpu_vulkan::pools::staging::{
    write_staging, write_staging_from_runs, write_staging_swap_rb, RunCopy,
};
use reims_vgpu_vulkan::pools::targets::{
    image_range_bound, multisample_attachments, sampled_request, AcquiredImage, Dimension,
    ImageBinding, ImageBuild, ImagePurpose, ViewShape, IMAGE_COLOR_ATTACHMENT,
    IMAGE_INPUT_ATTACHMENT, IMAGE_SAMPLED, IMAGE_TRANSFER_DST, IMAGE_TRANSFER_SRC,
};
use reims_vgpu_vulkan::reason::DrawReason;
use reims_vgpu_vulkan::types::{DrawError, VkCall, VkOp};
use reims_vgpu_vulkan::vk::{
    Buffer, CommandBuffer, DeviceMemory, Format, Framebuffer, Image, ImageView, Pipeline,
    PipelineLayout, RenderPass, VkResult, ERROR_OUT_OF_DEVICE_MEMORY,
};


fn buffer(raw: u64, size: u64) -> BufferSlot {
    BufferSlot {
        buffer: Buffer(raw),
        memory: DeviceMemory(raw),
        size,
        mapped: 0x1000 * raw,
        backing: BufferBacking::Dedicated,
        coherent: true,
        cached: true,
    }
}

fn key(width: u32) -> SampledKey {
    SampledKey {
        width,
        height: 4,
        mip_levels: 3,
        layers: 2,
        volume: false,
        cube: false,
        arrayed: false,
        one_dim: false,
        format: Format(44),
        swizzle: Swizzle(1),
    }
}

#[test]
fn a_bucket_is_the_next_power_of_two_from_64_on() {
    assert_eq!(buffer_bucket(0), 64);
    assert_eq!(buffer_bucket(64), 64);
    assert_eq!(buffer_bucket(65), 128);
    assert_eq!(buffer_bucket(4096), 4096);
    assert_eq!(buffer_bucket(4097), 8192);
    assert_eq!(buffer_bucket(1 << 63), 1 << 63);
    assert_eq!(buffer_bucket((1 << 63) + 1), u64::MAX);
    for size in [1, 100, 70_000] {
        let bucket = buffer_bucket(size);
        assert_eq!(buffer_bucket(bucket), bucket);
    }
}

#[test]
fn the_census_counts_what_is_kept() {
    let mut encoder = EncoderPools::new();
    encoder
        .staging_free
        .put_all(vec![buffer(1, 64), buffer(2, 128), buffer(3, 64)]);
    let mut census = encoder.staging_free.census();
    census.sort_unstable();
    assert_eq!(census, vec![(64, 2), (128, 1)]);
    assert_eq!(encoder.staging_free.pop_largest(), Some(buffer(2, 128)));
    assert_eq!(encoder.staging_free.count_for(64), 2);
    assert_eq!(encoder.staging_free.drain().len(), 2);
    assert_eq!(encoder.staging_free.take(64), None);
}

#[test]
fn an_upload_buffer_comes_back_for_its_size() {
    let mut encoder = EncoderPools::new();
    assert_eq!(
        encoder.acquire_staging(100),
        Acquired::Make { bucket: 128 }
    );
    encoder.hold_staging(buffer(1, 128));
    encoder.recycle_staging();
    assert!(encoder.staging_live.is_empty());
    assert_eq!(
        encoder.acquire_staging(128),
        Acquired::Reused(buffer(1, 128))
    );
    assert_eq!(encoder.staging_hits, 1);
    assert_eq!(
        encoder.acquire_guest_gather(1),
        Acquired::Make { bucket: 64 }
    );
    encoder.hold_guest_gather(buffer(2, 64));
    assert_eq!(encoder.gather_live, vec![buffer(2, 64)]);
}

#[test]
fn every_so_often_a_miss_is_reported() {
    let mut encoder = EncoderPools::new();
    encoder.staging_free.put(128, buffer(1, 128));
    for _ in 1..STAGING_MISS_EMIT_EVERY {
        assert_eq!(encoder.note_staging_miss(64, 3), None);
    }
    let line = encoder.note_staging_miss(4096, 40).unwrap();
    assert_eq!(
        line,
        "staging_pool hits=0 misses=256 live=0 free_slots=1 free_mb=0 \
         miss_bins=64:255,4096:1 miss_us_bins=64:3,4096:40 free_bins=128:1"
    );
}

#[test]
fn staging_writes_fill_their_span() {
    let mut mapped = [9u8; 4];
    write_staging(&[], &mut mapped);
    assert_eq!(mapped, [0, 0, 0, 0]);
    let mut mapped = [9u8; 5];
    write_staging(&[1, 2, 3, 4, 5], &mut mapped);
    assert_eq!(mapped, [1, 2, 3, 4, 5]);
    let mut mapped = [9u8; 4];
    write_staging_swap_rb(&[1, 2, 3, 4], &mut mapped);
    assert_eq!(mapped, [3, 2, 1, 4]);
}

#[test]
fn guest_runs_are_copied_in_order_and_the_rest_is_zero() {
    let runs = vec![
        GuestRun {
            host_ptr: 0x1000,
            len: 16,
        },
        GuestRun {
            host_ptr: 0x5000,
            len: 16,
        },
    ];
    let plan = write_staging_from_runs(&runs, 8, 20);
    assert_eq!(
        plan.copies,
        vec![
            RunCopy {
                from: 0x1008,
                to: 0,
                len: 8
            },
            RunCopy {
                from: 0x5000,
                to: 8,
                len: 12
            },
        ]
    );
    assert_eq!((plan.zero_from, plan.zero_len), (20, 0));
    let plan = write_staging_from_runs(&runs, 20, 40);
    assert_eq!(
        plan.copies,
        vec![RunCopy {
            from: 0x5004,
            to: 0,
            len: 12
        }]
    );
    assert_eq!((plan.zero_from, plan.zero_len), (12, 28));
    let plan = write_staging_from_runs(&runs, 0, 0);
    assert!(plan.copies.is_empty());
    assert_eq!((plan.zero_from, plan.zero_len), (0, 4));
}

#[test]
fn a_lent_readback_buffer_is_reused_only_after_its_return() {
    let mut encoder = EncoderPools::new();
    assert_eq!(
        encoder.acquire_readback(64, &Vec::new()),
        Acquired::Make { bucket: 64 }
    );
    encoder.hold_readback(buffer(1, 64));
    let mut tokens = LeaseTokens { next: 7 };
    let mut returns = ReadbackLeaseReturns::new();
    assert_eq!(
        encoder.lease_readback(&mut tokens, &mut returns),
        Some(ReadbackLease {
            token: 7,
            ptr: 0x1000,
            slot_size: 64
        })
    );
    assert_eq!((tokens.next, returns.outstanding), (8, 1));
    assert_eq!(encoder.lease_readback(&mut tokens, &mut returns), None);
    assert_eq!((tokens.next, returns.outstanding), (8, 1));
    let none = returns.take_returned();
    assert_eq!(
        encoder.acquire_readback(64, &none),
        Acquired::Make { bucket: 64 }
    );
    returns.give_back(7);
    assert_eq!(returns.outstanding, 0);
    let back = returns.take_returned();
    assert_eq!(back, vec![7]);
    assert!(returns.take_returned().is_empty());
    assert_eq!(
        encoder.acquire_readback(64, &back),
        Acquired::Reused(buffer(1, 64))
    );
    assert_eq!(
        encoder.acquire_readback_extra(64),
        Acquired::Make { bucket: 64 }
    );
    encoder.hold_readback_extra(buffer(2, 64));
    encoder.recycle_readback();
    assert_eq!(encoder.readback_free.count_for(64), 2);
}

#[test]
fn no_two_lent_buffers_share_a_token() {
    let mut tokens = LeaseTokens::new();
    let mut first = EncoderPools::new();
    let mut second = EncoderPools::new();
    let mut of_first = ReadbackLeaseReturns::new();
    let mut of_second = ReadbackLeaseReturns::new();
    let mut drawn = Vec::new();
    for slot in 1..4 {
        first.hold_readback(buffer(slot, 64));
        drawn.push(first.lease_readback(&mut tokens, &mut of_first).unwrap().token);
        second.hold_readback(buffer(10 + slot, 64));
        drawn.push(second.lease_readback(&mut tokens, &mut of_second).unwrap().token);
        if slot == 2 {
            of_first.give_back(drawn[0]);
            first.reclaim_returned_readback_leases(&of_first.take_returned());
        }
    }
    let mut apart = drawn.clone();
    apart.sort_unstable();
    apart.dedup();
    assert_eq!(apart.len(), 6);
    assert_eq!((of_first.outstanding, of_second.outstanding), (2, 3));
    assert_eq!((first.readback_leased.len(), second.readback_leased.len()), (2, 3));
    assert_eq!(first.readback_free.count_for(64), 1);
}

#[test]
fn the_memory_of_a_readback_is_reported_once() {
    let cached = MappedMemoryKind {
        coherent: true,
        cached: true,
    };
    let uncached = MappedMemoryKind {
        coherent: true,
        cached: false,
    };
    assert!(matches!(
        note_readback_memory(false, 1, 2, cached, MemoryTopology::Unified),
        ReadbackMemoryNote::Silent
    ));
    match note_readback_memory(true, 1, 2, cached, MemoryTopology::Unified) {
        ReadbackMemoryNote::Cached(line) => {
            assert!(line.starts_with("readback_memory type=1 cached=1 coherent=1 topology="))
        }
        other => panic!("{other:?}"),
    }
    match note_readback_memory(true, 1, 2, uncached, MemoryTopology::Discrete) {
        ReadbackMemoryNote::Degraded(degrade, fields) => {
            assert_eq!((degrade.memory_type, degrade.type_bits), (1, 2));
            assert_eq!(fields[0], ("coherent", "1".to_string()));
            assert_eq!(degrade.fields().len(), 2);
        }
        other => panic!("{other:?}"),
    }
}

#[test]
fn a_readback_buffer_that_fails_is_released_backwards() {
    let extra = ReadbackPurpose::Extra;
    let mut counters = EngineCounters::new();
    assert!(
        ReadbackBuild::created(&mut counters, 64, extra, Err(VkResult(-1)))
            .unwrap_err()
            .release
            .is_empty()
    );
    assert_eq!(counters.created.readback_buffers, 0);
    let build = ReadbackBuild::created(&mut counters, 64, extra, Ok(Buffer(1))).unwrap();
    assert_eq!(counters.created.readback_buffers, 1);
    let typed = build.typed(None, 6).unwrap_err();
    assert_eq!(
        typed.error,
        DrawError::Unsupported(DrawReason::NoHostVisibleMemoryForReadback {
            memory_type_bits: 6
        })
    );
    assert_eq!(typed.release, vec![Unmake::DestroyBuffer(Buffer(1))]);
    assert_eq!(build.typed(Some(3), 6).unwrap(), 3);
    assert_eq!(
        build
            .allocated(&mut counters, Err(VkResult(-2)))
            .unwrap_err()
            .error,
        DrawError::VkCall(VkCall::new(VkOp::PoolsAllocReadbackExtra, VkResult(-2)))
    );
    assert_eq!(counters.allocations, 0);
    assert_eq!(
        build
            .allocated(&mut counters, Ok(DeviceMemory(2)))
            .unwrap(),
        DeviceMemory(2)
    );
    assert_eq!(counters.allocations, 1);
    assert_eq!(
        build
            .bound(DeviceMemory(2), Err(VkResult(-1)))
            .unwrap_err()
            .release,
        vec![
            Unmake::FreeMemory(DeviceMemory(2)),
            Unmake::DestroyBuffer(Buffer(1)),
        ]
    );
    let kind = MappedMemoryKind {
        coherent: false,
        cached: true,
    };
    assert_eq!(
        build
            .mapped(DeviceMemory(2), kind, Err(VkResult(-1)))
            .unwrap_err()
            .release,
        vec![
            Unmake::DestroyBuffer(Buffer(1)),
            Unmake::FreeMemory(DeviceMemory(2)),
        ]
    );
    let slot = build.mapped(DeviceMemory(2), kind, Ok(0x77)).unwrap();
    assert_eq!((slot.size, slot.mapped), (64, 0x77));
    assert!(slot.cached && !slot.coherent);
}

#[test]
fn a_buffer_of_a_shared_block_gives_its_range_back() {
    let range = SlabRange {
        memory: DeviceMemory(4),
        block: 2,
        offset: 256,
        mapped: 0x900,
    };
    let mut counters = EngineCounters::new();
    assert!(SlabBuild::created(&mut counters, true, 128, Err(VkResult(-1))).is_err());
    SlabBuild::created(&mut counters, true, 128, Ok(Buffer(9))).unwrap();
    let build = SlabBuild::created(&mut counters, false, 128, Ok(Buffer(1))).unwrap();
    assert_eq!(counters.created.staging_buffers, 1);
    assert_eq!(counters.created.gather_buffers, 1);
    assert_eq!(
        build.typed_for_staging(None, 5).unwrap_err().error,
        DrawError::Unsupported(DrawReason::NoHostVisibleMemoryForStaging {
            memory_type_bits: 5
        })
    );
    assert_eq!(
        build.ranged(Err(DrawError::FenceTimeout)).unwrap_err().error,
        DrawError::FenceTimeout
    );
    assert_eq!(build.ranged(Ok(range)).unwrap(), range);
    let failure = build.bound(range, None, Err(VkResult(-1))).unwrap_err();
    assert_eq!(
        failure.error,
        DrawError::VkCall(VkCall::new(VkOp::PoolsBindGuestGather, VkResult(-1)))
    );
    assert_eq!(
        failure.release,
        vec![
            Unmake::ReleaseRange(range),
            Unmake::DestroyBuffer(Buffer(1)),
        ]
    );
    let gather = build.bound(range, None, Ok(())).unwrap();
    assert_eq!((gather.mapped, gather.coherent, gather.cached), (0, false, false));
    let host = MappedMemoryKind {
        coherent: true,
        cached: false,
    };
    let upload = build.bound(range, Some(host), Ok(())).unwrap();
    assert_eq!((upload.mapped, upload.coherent), (0x900, true));
    assert_eq!(
        upload.backing,
        BufferBacking::Slab {
            block: 2,
            offset: 256
        }
    );
}

#[test]
fn usage_bits_are_the_drivers_own() {
    let storage = ash::vk::BufferUsageFlags::STORAGE_BUFFER;
    assert_eq!(
        readback_usage(),
        (ash::vk::BufferUsageFlags::TRANSFER_DST | storage).as_raw()
    );
    let uniform = ash::vk::BufferUsageFlags::UNIFORM_BUFFER;
    assert_eq!(
        shared_usage(uniform.as_raw()),
        (uniform
            | ash::vk::BufferUsageFlags::TRANSFER_SRC
            | ash::vk::BufferUsageFlags::TRANSFER_DST
            | ash::vk::BufferUsageFlags::VERTEX_BUFFER
            | ash::vk::BufferUsageFlags::INDEX_BUFFER
            | storage)
            .as_raw()
    );
    assert_eq!(
        IMAGE_TRANSFER_SRC,
        ash::vk::ImageUsageFlags::TRANSFER_SRC.as_raw()
    );
    assert_eq!(
        IMAGE_TRANSFER_DST,
        ash::vk::ImageUsageFlags::TRANSFER_DST.as_raw()
    );
    assert_eq!(IMAGE_SAMPLED, ash::vk::ImageUsageFlags::SAMPLED.as_raw());
    assert_eq!(
        IMAGE_COLOR_ATTACHMENT,
        ash::vk::ImageUsageFlags::COLOR_ATTACHMENT.as_raw()
    );
    assert_eq!(
        IMAGE_INPUT_ATTACHMENT,
        ash::vk::ImageUsageFlags::INPUT_ATTACHMENT.as_raw()
    );
}

#[test]
fn a_growing_arena_is_counted_and_reported() {
    let mut counters = EngineCounters::new();
    assert_eq!(descriptor_set_allocated(&mut counters, false, 2, 64), None);
    assert_eq!(counters.desc_pool_grow, 0);
    assert_eq!(
        descriptor_set_allocated(&mut counters, true, 2, 64),
        Some("desc_arena_grow blocks=2 block_max_sets=64 cause=pool_exhausted".to_string())
    );
    assert_eq!(counters.desc_pool_grow, 1);
}

#[test]
fn a_sampled_image_is_asked_for_by_its_shape() {
    let plain = sampled_request(key(4));
    assert_eq!(plain.dimension, Dimension::Two);
    assert_eq!(plain.view, ViewShape::Plane);
    assert_eq!((plain.depth, plain.array_layers), (1, 2));
    assert_eq!(plain.usage, IMAGE_SAMPLED | IMAGE_TRANSFER_DST);
    let volume = sampled_request(SampledKey {
        volume: true,
        ..key(4)
    });
    assert_eq!(volume.dimension, Dimension::Three);
    assert_eq!(volume.view, ViewShape::Volume);
    assert_eq!((volume.depth, volume.array_layers), (2, 1));
    let cube = sampled_request(SampledKey {
        cube: true,
        ..key(4)
    });
    assert!(cube.cube_compatible);
    assert_eq!(cube.view, ViewShape::Cube);
    let lines = sampled_request(SampledKey {
        one_dim: true,
        arrayed: true,
        ..key(4)
    });
    assert_eq!(lines.dimension, Dimension::One);
    assert_eq!(lines.view, ViewShape::LineArray);
}

#[test]
fn a_sampled_image_is_found_before_it_is_made() {
    let mut pools = ResourcePools::new();
    let slot = SampledSlot {
        image: Image(1),
        memory: DeviceMemory(1),
        view: ImageView(1),
        shape: key(4),
    };
    assert!(matches!(
        pools.acquire_sampled(key(4)),
        AcquiredImage::Make(_)
    ));
    pools
        .shared
        .destroy_or_recycle(vec![DeferredHandle::RecycleSampled(slot)]);
    assert!(
        matches!(
            pools.acquire_attachment_snapshot(key(4)),
            AcquiredImage::Make(_)
        ),
        "uploads and snapshots are kept apart"
    );
    assert_eq!(pools.acquire_sampled(key(4)), AcquiredImage::Have(slot));
    assert_eq!(pools.encoder.sampled_live, vec![slot]);
    pools.recycle_sampled();
    assert!(pools.encoder.sampled_live.is_empty());
    assert_eq!(pools.shared.sampled_free.count_for(&key(4)), 1);
}

fn target_slot(raw: u64) -> TargetSlot {
    TargetSlot {
        image: Image(raw),
        memory: DeviceMemory(raw),
        view: ImageView(raw),
        framebuffer: Framebuffer(raw),
    }
}

fn target_key(width: u32) -> TargetKey {
    TargetKey {
        width,
        height: 8,
        with_transfer_dst: false,
    }
}

#[test]
fn a_scratch_target_is_kept_until_it_is_the_oldest() {
    let mut pools = ResourcePools::new();
    let pass = RenderPass(1);
    let (acquired, band) = pools.shared.acquire_target(target_key(1), pass);
    match acquired {
        AcquiredImage::Make(request) => {
            assert_eq!(
                request.usage,
                IMAGE_COLOR_ATTACHMENT | IMAGE_INPUT_ATTACHMENT | IMAGE_TRANSFER_SRC
            );
        }
        AcquiredImage::Have(_) => panic!("nothing was made"),
    }
    assert_eq!(band, "target_pool_depth_q1");
    for i in 0..TARGET_POOL_MAX_ENTRIES as u64 {
        let (evicted, destroy) =
            pools
                .shared
                .hold_target(target_key(i as u32), pass, target_slot(i));
        assert!(!evicted && destroy.is_empty());
    }
    assert_eq!(
        pools.shared.acquire_target(target_key(0), pass),
        (AcquiredImage::Have(target_slot(0)), "target_pool_depth_q4")
    );
    assert!(matches!(
        pools.shared.acquire_target(target_key(0), RenderPass(2)).0,
        AcquiredImage::Make(_)
    ));
    let (evicted, destroy) = pools
        .shared
        .hold_target(target_key(1000), pass, target_slot(1000));
    assert!(evicted);
    assert_eq!(
        destroy,
        vec![
            DeferredHandle::Framebuffer(Framebuffer(0)),
            DeferredHandle::Image {
                image: Image(0),
                view: ImageView(0),
                memory: DeviceMemory(0)
            },
        ]
    );
    assert!(matches!(
        pools.shared.acquire_target(target_key(0), pass).0,
        AcquiredImage::Make(_)
    ));
}

#[test]
fn a_transient_depth_attachment_serves_one_pass() {
    let mut pools = ResourcePools::new();
    let key = MultisampleTargetKey {
        width: 8,
        height: 8,
        samples: 4,
        format: Format(37),
        resolve_view: ImageView(9),
        depth_view: None,
        transient_depth: false,
    };
    let (acquired, destroy) = pools.shared.acquire_multisample_target(key);
    assert!(matches!(acquired, AcquiredImage::Make(request) if request.samples == 4));
    assert!(destroy.is_empty());
    pools.shared.hold_multisample_target(key, target_slot(1));
    assert_eq!(
        pools.shared.acquire_multisample_target(key),
        (AcquiredImage::Have(target_slot(1)), Vec::new())
    );
    let transient = MultisampleTargetKey {
        depth_view: Some(ImageView(10)),
        transient_depth: true,
        ..key
    };
    let (acquired, destroy) = pools.shared.acquire_multisample_target(transient);
    assert!(matches!(acquired, AcquiredImage::Make(_)));
    assert_eq!(destroy.len(), 2);
    pools
        .shared
        .hold_multisample_target(transient, target_slot(2));
    assert!(matches!(
        pools.shared.acquire_multisample_target(transient).0,
        AcquiredImage::Make(_)
    ));
    assert_eq!(
        multisample_attachments(ImageView(1), &transient),
        vec![ImageView(1), ImageView(9), ImageView(10)]
    );
    assert_eq!(
        multisample_attachments(ImageView(1), &key),
        vec![ImageView(1), ImageView(9)]
    );
}

#[test]
fn an_image_that_fails_is_released_backwards() {
    let mut counters = EngineCounters::new();
    let purpose = ImagePurpose::Target;
    assert!(ImageBuild::created(&mut counters, purpose, Err(VkResult(-1)))
        .unwrap_err()
        .release
        .is_empty());
    let build = ImageBuild::created(&mut counters, purpose, Ok(Image(1))).unwrap();
    assert_eq!(
        build
            .bound(Err(DrawError::FenceTimeout))
            .unwrap_err()
            .release,
        vec![Unmake::DestroyImage(Image(1))]
    );
    assert_eq!(
        build
            .viewed(&mut counters, Err(VkResult(-1)))
            .unwrap_err()
            .release,
        vec![
            Unmake::DestroyImage(Image(1)),
            Unmake::FreeImageRange(Image(1)),
        ]
    );
    let failure = build
        .framed(
            &mut counters,
            DeviceMemory(2),
            ImageView(3),
            Err(VkResult(-1)),
        )
        .unwrap_err();
    assert_eq!(counters.created.target_images, 1);
    assert_eq!(counters.created.target_image_views, 0);
    assert_eq!(counters.created.target_framebuffers, 0);
    let sampled = ImagePurpose::Sampled;
    let image = ImageBuild::created(&mut counters, sampled, Ok(Image(8))).unwrap();
    assert_eq!(image.viewed(&mut counters, Ok(ImageView(8))).unwrap(), ImageView(8));
    assert_eq!(build.viewed(&mut counters, Ok(ImageView(3))).unwrap(), ImageView(3));
    assert_eq!(
        (
            counters.created.sampled_images,
            counters.created.sampled_image_views,
            counters.created.target_images,
            counters.created.target_image_views,
        ),
        (1, 1, 1, 1)
    );
    assert_eq!(
        failure.error,
        DrawError::VkCall(VkCall::new(VkOp::PoolsCreateFramebuffer, VkResult(-1)))
    );
    assert_eq!(
        failure.release,
        vec![
            Unmake::DestroyView(ImageView(3)),
            Unmake::DestroyImage(Image(1)),
            Unmake::FreeImageRange(Image(1)),
        ]
    );
    let range = SlabRange {
        memory: DeviceMemory(4),
        block: 2,
        offset: 256,
        mapped: 0,
    };
    assert_eq!(
        image_range_bound(range, ImagePurpose::Target, Ok(())).unwrap(),
        DeviceMemory(4)
    );
    assert_eq!(
        image_range_bound(range, ImagePurpose::Target, Err(VkResult(-1)))
            .unwrap_err()
            .release,
        vec![Unmake::ReleaseRange(range)]
    );
}

#[test]
fn memory_is_asked_for_again_only_where_something_was_freed() {
    let short = || DrawError::VkCall(VkCall::new(VkOp::PoolsBindTarget, VkResult(ERROR_OUT_OF_DEVICE_MEMORY)));
    let again = || DrawError::VkCall(VkCall::new(VkOp::PoolsBindSampled, VkResult(ERROR_OUT_OF_DEVICE_MEMORY)));
    assert!(matches!(
        ImageBinding::Untried.tried(Err(DrawError::FenceTimeout)),
        ImageBinding::Ended(Err(DrawError::FenceTimeout))
    ));
    assert!(matches!(
        ImageBinding::Untried.tried(Err(short())).reclaimed(0),
        ImageBinding::Ended(Err(_))
    ));
    let retry = ImageBinding::Untried.tried(Err(short())).reclaimed(1);
    match retry.tried(Err(again())) {
        ImageBinding::Ended(Err(error)) => assert_eq!(error, short()),
        other => panic!("{other:?}"),
    }
    let retry = ImageBinding::Untried.tried(Err(short())).reclaimed(1);
    assert!(matches!(
        retry.tried(Ok(DeviceMemory(1))),
        ImageBinding::Ended(Ok(DeviceMemory(1)))
    ));
}

#[test]
fn repeated_state_is_recorded_once() {
    let mut state = CbGraphicsState::new();
    let mut counters = EngineCounters::new();
    let cb = CommandBuffer(1);
    assert!(state.bind_graphics_pipeline(&mut counters, cb, Pipeline(1), PipelineLayout(1)));
    assert!(!state.bind_graphics_pipeline(&mut counters, cb, Pipeline(1), PipelineLayout(1)));
    assert!(state.set_dynamic_stencil_reference(&mut counters, 1, 2));
    assert!(!state.set_dynamic_stencil_reference(&mut counters, 1, 2));
    assert!(state.set_dynamic_stencil_reference(&mut counters, 2, 2));
    let bias = DepthBias {
        constant_factor: 1.0f32.to_bits(),
        slope_factor: 0,
        clamp: 0,
    };
    assert!(state.set_dynamic_depth_bias(&mut counters, bias));
    assert!(!state.set_dynamic_depth_bias(&mut counters, bias));
    assert!(
        state.set_dynamic_depth_bias(&mut counters, DepthBias {
            clamp: (-0.0f32).to_bits(),
            ..bias
        }),
        "negative zero is another bit pattern"
    );
    let constants = BlendConstants {
        r: 0,
        g: 0,
        b: 0,
        a: 0,
    };
    assert!(state.set_dynamic_blend_constants(&mut counters, constants));
    assert!(!state.set_dynamic_blend_constants(&mut counters, constants));
    state.dynamic_scratch();
    state.vp_scratch.push(Viewport {
        x: 0,
        y: 0,
        width: 8,
        height: 8,
        min_depth: 0,
        max_depth: 1,
    });
    let scissor = Rect2D {
        x: 0,
        y: 0,
        width: 8,
        height: 8,
    };
    state.sc_scratch.push(scissor);
    assert_eq!(state.set_dynamic_viewport_scissor(&mut counters), (true, true));
    assert_eq!(state.bound_scissors(), &vec![scissor]);
    let again = state.viewports[0];
    state.dynamic_scratch();
    state.vp_scratch.push(again);
    state.sc_scratch.push(scissor);
    assert_eq!(state.set_dynamic_viewport_scissor(&mut counters), (false, false));
    assert_eq!(counters.dynstate_pipeline_held, 1);
    assert_eq!(counters.dynstate_viewport_held, 1);
    assert_eq!(counters.dynstate_scissor_held, 1);
    assert_eq!(counters.dynstate_stencil_held, 1);
    assert_eq!(counters.dynstate_depth_bias_held, 1);
    assert_eq!(counters.dynstate_blend_constants_held, 1);
    state.forget();
    assert!(state.set_dynamic_stencil_reference(&mut counters, 2, 2));
}

#[test]
fn vertex_buffers_are_bound_in_runs_of_neighbours() {
    let mut state = CbGraphicsState::new();
    let mut counters = EngineCounters::new();
    let bound = |raw: u64| BoundBuffer {
        buffer: Buffer(raw),
        offset: raw * 16,
        guest_import: false,
    };
    let requested = [(3, bound(3)), (0, bound(1)), (1, bound(2))];
    let runs = state.bind_vertex_buffers(&mut counters, &requested).unwrap();
    assert_eq!(runs.iter().map(|run| run.buffers.len()).sum::<usize>(), 3);
    assert!(
        state.bind_vertex_buffers(&mut counters, &requested).is_none(),
        "what is bound already is not bound again"
    );
    assert_eq!(counters.vertex_buffer_bind_slots, 6);
    assert_eq!(counters.vertex_buffer_bind_held, 3);
    assert_eq!(counters.vertex_buffer_bind_emitted, 3);
    assert_eq!(counters.vertex_buffer_bind_calls, 2);
    state.push_descriptor_scratch();
    state.push_scratch.push(PushDescriptorBinding {
        binding: 0,
        kind: 7,
        handle: 1,
        offset: 0,
        range: 64,
    });
    assert!(state.push_descriptors_changed(&mut counters, PipelineLayout(1)));
    state.push_descriptor_scratch();
    state.push_scratch.push(PushDescriptorBinding {
        binding: 0,
        kind: 7,
        handle: 1,
        offset: 0,
        range: 64,
    });
    assert!(!state.push_descriptors_changed(&mut counters, PipelineLayout(1)));
    state.push_descriptor_scratch();
    assert!(state.push_descriptors_changed(&mut counters, PipelineLayout(1)));
    assert_eq!(counters.descriptor_push_held, 1);
}

#[test]
fn each_call_of_a_making_fails_under_its_own_name() {
    let mut counters = EngineCounters::new();
    let e = VkResult(-1);
    let slug = |failure: reims_vgpu_vulkan::pools::making::BuildFailure| failure.error.slug();
    let kind = MappedMemoryKind {
        coherent: true,
        cached: true,
    };
    let memory = DeviceMemory(2);
    for (purpose, slugs) in [
        (
            ReadbackPurpose::Primary,
            [
                "pools_create_readback",
                "pools_alloc_readback",
                "pools_bind_readback",
                "pools_map_readback",
            ],
        ),
        (
            ReadbackPurpose::Extra,
            [
                "pools_create_readback_extra",
                "pools_alloc_readback_extra",
                "pools_bind_readback_extra",
                "pools_map_readback_extra",
            ],
        ),
    ] {
        let refused = ReadbackBuild::created(&mut counters, 64, purpose, Err(e)).unwrap_err();
        assert_eq!(slug(refused), slugs[0]);
        let build = ReadbackBuild::created(&mut counters, 64, purpose, Ok(Buffer(1))).unwrap();
        assert_eq!(
            slug(build.allocated(&mut counters, Err(e)).unwrap_err()),
            slugs[1]
        );
        assert_eq!(slug(build.bound(memory, Err(e)).unwrap_err()), slugs[2]);
        assert_eq!(
            slug(build.mapped(memory, kind, Err(e)).unwrap_err()),
            slugs[3]
        );
    }
    for (upload, name) in [
        (true, "pools_create_staging"),
        (false, "pools_create_guest_gather"),
    ] {
        let refused = SlabBuild::created(&mut counters, upload, 128, Err(e)).unwrap_err();
        assert_eq!(slug(refused), name);
    }
    let range = SlabRange {
        memory,
        block: 2,
        offset: 256,
        mapped: 0x900,
    };
    let upload = SlabBuild::created(&mut counters, true, 128, Ok(Buffer(1))).unwrap();
    assert_eq!(
        slug(upload.bound(range, None, Err(e)).unwrap_err()),
        "pools_bind_staging"
    );
    for (purpose, slugs) in [
        (
            ImagePurpose::Target,
            [
                "pools_create_target_image",
                "pools_bind_target",
                "pools_create_target_view",
            ],
        ),
        (
            ImagePurpose::Sampled,
            [
                "pools_create_sampled_image",
                "pools_bind_sampled",
                "pools_create_sampled_view",
            ],
        ),
    ] {
        let refused = ImageBuild::created(&mut counters, purpose, Err(e)).unwrap_err();
        assert_eq!(slug(refused), slugs[0]);
        assert_eq!(
            slug(image_range_bound(range, purpose, Err(e)).unwrap_err()),
            slugs[1]
        );
        let build = ImageBuild::created(&mut counters, purpose, Ok(Image(1))).unwrap();
        assert_eq!(
            slug(build.viewed(&mut counters, Err(e)).unwrap_err()),
            slugs[2]
        );
    }
}
