//! Images that are made on demand: sampled images, scratch targets and the
//! source of a multisample resolve.
//!
//! Looking for one says what to make where there is none. Each step of making
//! takes what the driver answered, as for buffers.

use crate::format::FORMAT_R8G8B8A8_UNORM;
use crate::pools::created::CreateSite;
use crate::pools::encoder::EncoderPools;
use crate::pools::fence::EngineCounters;
use crate::pools::free_pool::took_out;
use crate::pools::limits::{depth_band_text, target_pool_depth_band, TARGET_POOL_MAX_ENTRIES};
use crate::pools::making::{call_failed, BuildFailure, SlabRange, Unmake};
use crate::pools::resource::ResourcePools;
use crate::pools::shared::{
    disposed, MultisampleTargetKey, MultisampleTargetSlot, PooledTarget, SharedPools, TargetKey,
    TargetSlot,
};
use crate::pools::slots::{DeferredHandle, SampledKey, SampledSlot, Swizzle};
use crate::types::{DrawError, VkCall, VkOp};
use crate::vk::{DeviceMemory, Format, Framebuffer, Image, ImageView, RenderPass, VkResult};
use vstd::prelude::*;

verus! {

/// `TRANSFER_SRC`, as its bit of `VkImageUsageFlags`.
pub const IMAGE_TRANSFER_SRC: u32 = 0x01;

/// `TRANSFER_DST`.
pub const IMAGE_TRANSFER_DST: u32 = 0x02;

/// `SAMPLED`.
pub const IMAGE_SAMPLED: u32 = 0x04;

/// `COLOR_ATTACHMENT`.
pub const IMAGE_COLOR_ATTACHMENT: u32 = 0x10;

/// `INPUT_ATTACHMENT`.
pub const IMAGE_INPUT_ATTACHMENT: u32 = 0x80;

/// The format of a scratch target, as its `VkFormat` value.
pub const RESIDENT_RGBA_FORMAT: i32 = FORMAT_R8G8B8A8_UNORM;

/// How many dimensions an image has.
#[derive(Clone, Copy, Debug, PartialEq, Eq, Structural)]
pub enum Dimension {
    /// One.
    One,
    /// Two.
    Two,
    /// Three.
    Three,
}

/// How a view shows its image.
#[derive(Clone, Copy, Debug, PartialEq, Eq, Structural)]
pub enum ViewShape {
    /// One line.
    Line,
    /// Several lines.
    LineArray,
    /// One plane.
    Plane,
    /// Several planes.
    PlaneArray,
    /// Six planes, as a cube.
    Cube,
    /// A volume.
    Volume,
}

/// An image to make, with optimal tiling and undefined contents, and its view
/// over all of it.
#[derive(Clone, Copy, Debug, PartialEq, Eq, Structural)]
pub struct ImageRequest {
    /// Whether a cube view must be possible.
    pub cube_compatible: bool,
    /// How many dimensions it has.
    pub dimension: Dimension,
    /// Its format.
    pub format: Format,
    /// Texels per row.
    pub width: u32,
    /// Rows.
    pub height: u32,
    /// Planes of a volume.
    pub depth: u32,
    /// Mip levels.
    pub mip_levels: u32,
    /// Layers.
    pub array_layers: u32,
    /// Samples per texel.
    pub samples: u32,
    /// What it is used for, as the bits of `VkImageUsageFlags`.
    pub usage: u32,
    /// How its view shows it.
    pub view: ViewShape,
    /// The component mapping of its view, where it is not the identity.
    pub swizzle: Option<Swizzle>,
}

/// What a sampled image is for.
#[derive(Clone, Copy, Debug, PartialEq, Eq, Structural)]
pub enum SampledTransientUse {
    /// Texels from the host.
    Upload,
    /// A copy of an attachment.
    AttachmentSnapshot,
}

/// An image that there was, or one to make.
#[derive(Clone, Copy, Debug, PartialEq, Eq, Structural)]
pub enum AcquiredImage<T> {
    /// One that there was.
    Have(T),
    /// None: make one.
    Make(ImageRequest),
}

/// The image to make for `key`.
pub open spec fn sampled_request_of(key: SampledKey) -> ImageRequest {
    ImageRequest {
        cube_compatible: key.cube,
        dimension: if key.one_dim {
            Dimension::One
        } else if key.volume {
            Dimension::Three
        } else {
            Dimension::Two
        },
        format: key.format,
        width: key.width,
        height: key.height,
        depth: if key.volume {
            key.layers
        } else {
            1
        },
        mip_levels: key.mip_levels,
        array_layers: if key.volume {
            1
        } else {
            key.layers
        },
        samples: 1,
        usage: IMAGE_SAMPLED | IMAGE_TRANSFER_DST,
        view: if key.one_dim && key.arrayed {
            ViewShape::LineArray
        } else if key.one_dim {
            ViewShape::Line
        } else if key.volume {
            ViewShape::Volume
        } else if key.cube {
            ViewShape::Cube
        } else if key.arrayed {
            ViewShape::PlaneArray
        } else {
            ViewShape::Plane
        },
        swizzle: Some(key.swizzle),
    }
}

/// The image to make for `key`.
pub fn sampled_request(key: SampledKey) -> (request: ImageRequest)
    ensures
        request == sampled_request_of(key),
{
    let dimension = if key.one_dim {
        Dimension::One
    } else if key.volume {
        Dimension::Three
    } else {
        Dimension::Two
    };
    let view = if key.one_dim && key.arrayed {
        ViewShape::LineArray
    } else if key.one_dim {
        ViewShape::Line
    } else if key.volume {
        ViewShape::Volume
    } else if key.cube {
        ViewShape::Cube
    } else if key.arrayed {
        ViewShape::PlaneArray
    } else {
        ViewShape::Plane
    };
    let depth: u32 = if key.volume {
        key.layers
    } else {
        1
    };
    let array_layers: u32 = if key.volume {
        1
    } else {
        key.layers
    };
    ImageRequest {
        cube_compatible: key.cube,
        dimension,
        format: key.format,
        width: key.width,
        height: key.height,
        depth,
        mip_levels: key.mip_levels,
        array_layers,
        samples: 1,
        usage: IMAGE_SAMPLED | IMAGE_TRANSFER_DST,
        view,
        swizzle: Some(key.swizzle),
    }
}

/// The image to make for a scratch target under `key`.
pub open spec fn target_request_of(key: TargetKey) -> ImageRequest {
    let usage = IMAGE_COLOR_ATTACHMENT | IMAGE_INPUT_ATTACHMENT | IMAGE_TRANSFER_SRC;
    ImageRequest {
        cube_compatible: false,
        dimension: Dimension::Two,
        format: Format(RESIDENT_RGBA_FORMAT),
        width: key.width,
        height: key.height,
        depth: 1,
        mip_levels: 1,
        array_layers: 1,
        samples: 1,
        usage: if key.with_transfer_dst {
            usage | IMAGE_TRANSFER_DST
        } else {
            usage
        },
        view: ViewShape::Plane,
        swizzle: None,
    }
}

/// The image to make for the source of a multisample resolve under `key`.
pub open spec fn multisample_request_of(key: MultisampleTargetKey) -> ImageRequest {
    ImageRequest {
        cube_compatible: false,
        dimension: Dimension::Two,
        format: key.format,
        width: key.width,
        height: key.height,
        depth: 1,
        mip_levels: 1,
        array_layers: 1,
        samples: key.samples,
        usage: IMAGE_COLOR_ATTACHMENT,
        view: ViewShape::Plane,
        swizzle: None,
    }
}

/// The attachments of the framebuffer over a multisample source: the source,
/// what it is resolved into, and the depth attachment where there is one.
pub fn multisample_attachments(view: ImageView, key: &MultisampleTargetKey) -> (attachments: Vec<
    ImageView,
>)
    ensures
        attachments@ == match key.depth_view {
            Some(depth) => seq![view, key.resolve_view, depth],
            None => seq![view, key.resolve_view],
        },
{
    let mut attachments: Vec<ImageView> = vec![view, key.resolve_view];
    if let Some(depth) = key.depth_view {
        attachments.push(depth);
    }
    attachments
}

/// What an image with its view is made for.
#[derive(Clone, Copy, Debug, PartialEq, Eq, Structural)]
pub enum ImagePurpose {
    /// To be sampled.
    Sampled,
    /// To be rendered into.
    Target,
}

impl ImagePurpose {
    /// The call that makes the image.
    pub open spec fn creates(self) -> VkOp {
        match self {
            ImagePurpose::Sampled => VkOp::PoolsCreateSampledImage,
            ImagePurpose::Target => VkOp::PoolsCreateTargetImage,
        }
    }

    /// The call that makes the image.
    pub fn create_op(self) -> (op: VkOp)
        ensures
            op == self.creates(),
    {
        match self {
            ImagePurpose::Sampled => VkOp::PoolsCreateSampledImage,
            ImagePurpose::Target => VkOp::PoolsCreateTargetImage,
        }
    }

    /// The call that binds it to its range.
    pub open spec fn binds(self) -> VkOp {
        match self {
            ImagePurpose::Sampled => VkOp::PoolsBindSampled,
            ImagePurpose::Target => VkOp::PoolsBindTarget,
        }
    }

    /// The call that binds it to its range.
    pub fn bind_op(self) -> (op: VkOp)
        ensures
            op == self.binds(),
    {
        match self {
            ImagePurpose::Sampled => VkOp::PoolsBindSampled,
            ImagePurpose::Target => VkOp::PoolsBindTarget,
        }
    }

    /// The call that makes its view.
    pub open spec fn views(self) -> VkOp {
        match self {
            ImagePurpose::Sampled => VkOp::PoolsCreateSampledView,
            ImagePurpose::Target => VkOp::PoolsCreateTargetView,
        }
    }

    /// The call that makes its view.
    pub fn view_op(self) -> (op: VkOp)
        ensures
            op == self.views(),
    {
        match self {
            ImagePurpose::Sampled => VkOp::PoolsCreateSampledView,
            ImagePurpose::Target => VkOp::PoolsCreateTargetView,
        }
    }

    /// What the image counts as.
    pub open spec fn image_site(self) -> CreateSite {
        match self {
            ImagePurpose::Sampled => CreateSite::SampledImage,
            ImagePurpose::Target => CreateSite::TargetImage,
        }
    }

    /// What the view counts as.
    pub open spec fn view_site(self) -> CreateSite {
        match self {
            ImagePurpose::Sampled => CreateSite::SampledImageView,
            ImagePurpose::Target => CreateSite::TargetImageView,
        }
    }
}

/// An image under way: the image is made.
#[derive(Clone, Copy, Debug)]
pub struct ImageBuild {
    /// What it is for.
    pub purpose: ImagePurpose,
    /// The image.
    pub image: Image,
}

impl ImageBuild {
    /// The driver answered the call that makes the image.
    pub fn created(counters: &mut EngineCounters, purpose: ImagePurpose, result: Result<Image, VkResult>) -> (step:
        Result<ImageBuild, BuildFailure>)
        ensures
            *final(counters) == old(counters).after_create(purpose.image_site(), result is Ok),
            match (result, step) {
                (Ok(made), Ok(build)) => build == (ImageBuild { purpose, image: made }),
                (Err(e), Err(failure)) => failure.is(call_failed(purpose.creates(), e), seq![]),
                _ => false,
            },
    {
        match result {
            Ok(image) => {
                counters.note_create(
                    match purpose {
                        ImagePurpose::Sampled => CreateSite::SampledImage,
                        ImagePurpose::Target => CreateSite::TargetImage,
                    },
                );
                Ok(ImageBuild { purpose, image })
            },
            Err(e) => Err(
                BuildFailure {
                    error: DrawError::VkCall(VkCall::new(purpose.create_op(), e)),
                    release: Vec::new(),
                },
            ),
        }
    }

    /// Memory was bound, or not.
    pub fn bound(&self, result: Result<DeviceMemory, DrawError>) -> (step: Result<
        DeviceMemory,
        BuildFailure,
    >)
        ensures
            match (result, step) {
                (Ok(given), Ok(memory)) => memory == given,
                (Err(error), Err(failure)) => failure.is(
                    error,
                    seq![Unmake::DestroyImage(self.image)],
                ),
                _ => false,
            },
    {
        match result {
            Ok(memory) => Ok(memory),
            Err(error) => Err(
                BuildFailure { error, release: vec![Unmake::DestroyImage(self.image)] },
            ),
        }
    }

    /// The driver answered the call that makes the view. The image goes before
    /// its memory.
    pub fn viewed(&self, counters: &mut EngineCounters, result: Result<ImageView, VkResult>) -> (step:
        Result<ImageView, BuildFailure>)
        ensures
            *final(counters) == old(counters).after_create(self.purpose.view_site(), result is Ok),
            match (result, step) {
                (Ok(made), Ok(view)) => view == made,
                (Err(e), Err(failure)) => failure.is(
                    call_failed(self.purpose.views(), e),
                    seq![Unmake::DestroyImage(self.image), Unmake::FreeImageRange(self.image)],
                ),
                _ => false,
            },
    {
        match result {
            Ok(view) => {
                counters.note_create(
                    match self.purpose {
                        ImagePurpose::Sampled => CreateSite::SampledImageView,
                        ImagePurpose::Target => CreateSite::TargetImageView,
                    },
                );
                Ok(view)
            },
            Err(e) => Err(
                BuildFailure {
                    error: DrawError::VkCall(VkCall::new(self.purpose.view_op(), e)),
                    release: vec![
                        Unmake::DestroyImage(self.image),
                        Unmake::FreeImageRange(self.image),
                    ],
                },
            ),
        }
    }

    /// The driver answered the call that makes the framebuffer. The view goes
    /// before the image, and the image before its memory.
    pub fn framed(
        self,
        counters: &mut EngineCounters,
        memory: DeviceMemory,
        view: ImageView,
        result: Result<Framebuffer, VkResult>,
    ) -> (step: Result<TargetSlot, BuildFailure>)
        ensures
            *final(counters) == old(counters).after_create(CreateSite::TargetFramebuffer, result is Ok),
            match (result, step) {
                (Ok(made), Ok(slot)) => slot == (TargetSlot {
                    image: self.image,
                    memory,
                    view,
                    framebuffer: made,
                }),
                (Err(e), Err(failure)) => failure.is(
                    call_failed(VkOp::PoolsCreateFramebuffer, e),
                    seq![
                        Unmake::DestroyView(view),
                        Unmake::DestroyImage(self.image),
                        Unmake::FreeImageRange(self.image),
                    ],
                ),
                _ => false,
            },
    {
        match result {
            Ok(framebuffer) => {
                counters.note_create(CreateSite::TargetFramebuffer);
                Ok(TargetSlot { image: self.image, memory, view, framebuffer })
            },
            Err(e) => Err(
                BuildFailure {
                    error: DrawError::VkCall(VkCall::new(VkOp::PoolsCreateFramebuffer, e)),
                    release: vec![
                        Unmake::DestroyView(view),
                        Unmake::DestroyImage(self.image),
                        Unmake::FreeImageRange(self.image),
                    ],
                },
            ),
        }
    }
}

/// The driver answered the call that binds an image to a range of a shared
/// block.
pub fn image_range_bound(range: SlabRange, purpose: ImagePurpose, result: Result<(), VkResult>) -> (step:
    Result<DeviceMemory, BuildFailure>)
    ensures
        match (result, step) {
            (Ok(_), Ok(memory)) => memory == range.memory,
            (Err(e), Err(failure)) => failure.is(
                call_failed(purpose.binds(), e),
                seq![Unmake::ReleaseRange(range)],
            ),
            _ => false,
        },
{
    match result {
        Ok(()) => Ok(range.memory),
        Err(e) => Err(
            BuildFailure {
                error: DrawError::VkCall(VkCall::new(purpose.bind_op(), e)),
                release: vec![Unmake::ReleaseRange(range)],
            },
        ),
    }
}

/// Binding memory to an image, with one more try where memory ran out.
#[derive(Debug)]
pub enum ImageBinding {
    /// It is to be tried.
    Untried,
    /// Memory ran out: the free lists are to be emptied.
    Starved(DrawError),
    /// The free lists gave something up: it is to be tried once more.
    Retrying(DrawError),
    /// It is over.
    Ended(Result<DeviceMemory, DrawError>),
}

impl ImageBinding {
    /// What a try that ended in `result` leads to.
    pub open spec fn after_try(self, result: Result<DeviceMemory, DrawError>) -> ImageBinding {
        match (self, result) {
            (ImageBinding::Untried, Err(error)) if error.is_out_of_memory() => ImageBinding::Starved(
                error,
            ),
            (ImageBinding::Retrying(first), Err(_)) => ImageBinding::Ended(Err(first)),
            _ => ImageBinding::Ended(result),
        }
    }

    /// What emptying the free lists of `freed` images leads to.
    pub open spec fn after_reclaim(self, freed: usize) -> ImageBinding {
        match self {
            ImageBinding::Starved(first) => if freed > 0 {
                ImageBinding::Retrying(first)
            } else {
                ImageBinding::Ended(Err(first))
            },
            other => other,
        }
    }

    /// It was tried.
    pub fn tried(self, result: Result<DeviceMemory, DrawError>) -> (next: ImageBinding)
        requires
            self is Untried || self is Retrying,
        ensures
            next == self.after_try(result),
    {
        match self {
            ImageBinding::Retrying(first) => match result {
                Ok(memory) => ImageBinding::Ended(Ok(memory)),
                Err(_) => ImageBinding::Ended(Err(first)),
            },
            _ => match result {
                Ok(memory) => ImageBinding::Ended(Ok(memory)),
                Err(error) => if error.out_of_memory() {
                    ImageBinding::Starved(error)
                } else {
                    ImageBinding::Ended(Err(error))
                },
            },
        }
    }

    /// The free lists were emptied.
    pub fn reclaimed(self, freed: usize) -> (next: ImageBinding)
        ensures
            next == self.after_reclaim(freed),
    {
        match self {
            ImageBinding::Starved(first) => if freed > 0 {
                ImageBinding::Retrying(first)
            } else {
                ImageBinding::Ended(Err(first))
            },
            other => other,
        }
    }
}

/// Memory is asked for twice at most. A second refusal tells the caller of the
/// first, and nothing is tried again where nothing was given up or where memory
/// did not run out.
pub proof fn law_memory_is_asked_for_twice_at_most(
    first: Result<DeviceMemory, DrawError>,
    freed: usize,
    second: Result<DeviceMemory, DrawError>,
)
    ensures
        ({
            let once = ImageBinding::Untried.after_try(first);
            let emptied = once.after_reclaim(freed);
            let twice = emptied.after_try(second);
            &&& (first is Ok || !first->Err_0.is_out_of_memory()) ==> once == ImageBinding::Ended(
                first,
            ) && emptied == once
            &&& (first matches Err(error) && error.is_out_of_memory() && freed == 0) ==> emptied
                == ImageBinding::Ended(first)
            &&& (first matches Err(error) && error.is_out_of_memory() && freed > 0)
                ==> twice == ImageBinding::Ended(
                if second is Ok {
                    second
                } else {
                    first
                },
            )
        }),
{
}

impl ResourcePools {
    /// The image of shape `key` for the command buffer under way. One that no
    /// command buffer uses is held by it from now on.
    pub fn acquire_sampled_for(&mut self, key: SampledKey, purpose: SampledTransientUse) -> (acquired:
        AcquiredImage<SampledSlot>)
        ensures
            match acquired {
                AcquiredImage::Have(slot) => match purpose {
                    SampledTransientUse::Upload => took_out(
                        old(self).shared.sampled_free,
                        final(self).shared.sampled_free,
                        key,
                        Some(slot),
                    ) && final(self).encoder.sampled_live@ == old(self).encoder.sampled_live@.push(
                        slot,
                    ),
                    SampledTransientUse::AttachmentSnapshot => took_out(
                        old(self).shared.attachment_snapshot_free,
                        final(self).shared.attachment_snapshot_free,
                        key,
                        Some(slot),
                    ) && final(self).encoder.attachment_snapshot_live@ == old(self).encoder.attachment_snapshot_live@.push(slot),
                },
                AcquiredImage::Make(request) => request == sampled_request_of(key) && final(self).encoder == old(self).encoder && match purpose {
                    SampledTransientUse::Upload => took_out(
                        old(self).shared.sampled_free,
                        final(self).shared.sampled_free,
                        key,
                        None,
                    ),
                    SampledTransientUse::AttachmentSnapshot => took_out(
                        old(self).shared.attachment_snapshot_free,
                        final(self).shared.attachment_snapshot_free,
                        key,
                        None,
                    ),
                },
            },
            match purpose {
                SampledTransientUse::Upload => {
                    &&& final(self).shared == (SharedPools {
                        sampled_free: final(self).shared.sampled_free,
                        ..old(self).shared
                    })
                    &&& final(self).encoder == (EncoderPools {
                        sampled_live: final(self).encoder.sampled_live,
                        ..old(self).encoder
                    })
                },
                SampledTransientUse::AttachmentSnapshot => {
                    &&& final(self).shared == (SharedPools {
                        attachment_snapshot_free: final(self).shared.attachment_snapshot_free,
                        ..old(self).shared
                    })
                    &&& final(self).encoder == (EncoderPools {
                        attachment_snapshot_live: final(self).encoder.attachment_snapshot_live,
                        ..old(self).encoder
                    })
                },
            },
            old(self).wf() ==> final(self).wf(),
    {
        let recycled: Option<SampledSlot> = match purpose {
            SampledTransientUse::Upload => self.shared.sampled_free.take(&key),
            SampledTransientUse::AttachmentSnapshot => self.shared.attachment_snapshot_free.take(
                &key,
            ),
        };
        match recycled {
            Some(slot) => {
                self.hold_sampled(slot, purpose);
                AcquiredImage::Have(slot)
            },
            None => AcquiredImage::Make(sampled_request(key)),
        }
    }

    /// Hold an image until the fence of the command buffer under way.
    pub fn hold_sampled(&mut self, slot: SampledSlot, purpose: SampledTransientUse)
        ensures
            final(self).shared == old(self).shared,
            match purpose {
                SampledTransientUse::Upload => final(self).encoder == (EncoderPools {
                    sampled_live: final(self).encoder.sampled_live,
                    ..old(self).encoder
                }) && final(self).encoder.sampled_live@ == old(self).encoder.sampled_live@.push(
                    slot,
                ),
                SampledTransientUse::AttachmentSnapshot => final(self).encoder == (EncoderPools {
                    attachment_snapshot_live: final(self).encoder.attachment_snapshot_live,
                    ..old(self).encoder
                }) && final(self).encoder.attachment_snapshot_live@ == old(self).encoder.attachment_snapshot_live@.push(slot),
            },
            old(self).wf() ==> final(self).wf(),
    {
        match purpose {
            SampledTransientUse::Upload => self.encoder.sampled_live.push(slot),
            SampledTransientUse::AttachmentSnapshot => self.encoder.attachment_snapshot_live.push(
                slot,
            ),
        }
    }

    /// [`acquire_sampled_for`](Self::acquire_sampled_for) texels from the host.
    pub fn acquire_sampled(&mut self, key: SampledKey) -> (acquired: AcquiredImage<SampledSlot>)
        ensures
            match acquired {
                AcquiredImage::Have(slot) => took_out(
                    old(self).shared.sampled_free,
                    final(self).shared.sampled_free,
                    key,
                    Some(slot),
                ) && final(self).encoder.sampled_live@ == old(self).encoder.sampled_live@.push(
                    slot,
                ),
                AcquiredImage::Make(request) => request == sampled_request_of(key) && final(self).encoder == old(self).encoder && took_out(
                    old(self).shared.sampled_free,
                    final(self).shared.sampled_free,
                    key,
                    None,
                ),
            },
            final(self).shared == (SharedPools {
                sampled_free: final(self).shared.sampled_free,
                ..old(self).shared
            }),
            final(self).encoder == (EncoderPools {
                sampled_live: final(self).encoder.sampled_live,
                ..old(self).encoder
            }),
            old(self).wf() ==> final(self).wf(),
    {
        self.acquire_sampled_for(key, SampledTransientUse::Upload)
    }

    /// [`acquire_sampled_for`](Self::acquire_sampled_for) a copy of an
    /// attachment.
    pub fn acquire_attachment_snapshot(&mut self, key: SampledKey) -> (acquired: AcquiredImage<
        SampledSlot,
    >)
        ensures
            match acquired {
                AcquiredImage::Have(slot) => took_out(
                    old(self).shared.attachment_snapshot_free,
                    final(self).shared.attachment_snapshot_free,
                    key,
                    Some(slot),
                ) && final(self).encoder.attachment_snapshot_live@ == old(self).encoder.attachment_snapshot_live@.push(slot),
                AcquiredImage::Make(request) => request == sampled_request_of(key) && final(self).encoder == old(self).encoder && took_out(
                    old(self).shared.attachment_snapshot_free,
                    final(self).shared.attachment_snapshot_free,
                    key,
                    None,
                ),
            },
            final(self).shared == (SharedPools {
                attachment_snapshot_free: final(self).shared.attachment_snapshot_free,
                ..old(self).shared
            }),
            final(self).encoder == (EncoderPools {
                attachment_snapshot_live: final(self).encoder.attachment_snapshot_live,
                ..old(self).encoder
            }),
            old(self).wf() ==> final(self).wf(),
    {
        self.acquire_sampled_for(key, SampledTransientUse::AttachmentSnapshot)
    }
}

/// `target` is kept under `key` for `render_pass`.
pub open spec fn target_under(target: PooledTarget, key: TargetKey, render_pass: RenderPass) -> bool {
    target.key == key && target.render_pass == render_pass
}

/// No two scratch targets are kept under one key, and there are no more than
/// there may be.
pub open spec fn targets_wf(targets: Seq<PooledTarget>) -> bool {
    &&& targets.len() <= TARGET_POOL_MAX_ENTRIES
    &&& forall|i: int, j: int|
        0 <= i < j < targets.len() ==> !target_under(
            #[trigger] targets[j],
            (#[trigger] targets[i]).key,
            targets[i].render_pass,
        )
}

/// None of `targets` is kept under `key` for `render_pass`.
pub open spec fn no_target_under(
    targets: Seq<PooledTarget>,
    key: TargetKey,
    render_pass: RenderPass,
) -> bool {
    forall|i: int| 0 <= i < targets.len() ==> !target_under(#[trigger] targets[i], key, render_pass)
}

/// What is given up with a scratch target: its framebuffer, then its image.
pub open spec fn given_up(slot: TargetSlot) -> Seq<DeferredHandle> {
    seq![
        DeferredHandle::Framebuffer(slot.framebuffer),
        DeferredHandle::Image { image: slot.image, view: slot.view, memory: slot.memory },
    ]
}

/// What is given up with a scratch target.
fn parts_of(slot: &TargetSlot) -> (parts: Vec<DeferredHandle>)
    ensures
        parts@ == given_up(*slot),
{
    vec![
        DeferredHandle::Framebuffer(slot.framebuffer),
        DeferredHandle::Image { image: slot.image, view: slot.view, memory: slot.memory },
    ]
}

impl SharedPools {
    /// The scratch target under `key` for `render_pass`, or the image to make for
    /// one; and how full the pool is, by name, whichever it is.
    pub fn acquire_target(&self, key: TargetKey, render_pass: RenderPass) -> (acquired: (
        AcquiredImage<TargetSlot>,
        &'static str,
    ))
        ensures
            match acquired.0 {
                AcquiredImage::Have(slot) => exists|i: int|
                    0 <= i < self.targets@.len() && #[trigger] self.targets@[i] == (PooledTarget {
                        key,
                        render_pass,
                        slot,
                    }) && no_target_under(self.targets@.take(i), key, render_pass),
                AcquiredImage::Make(request) => no_target_under(self.targets@, key, render_pass)
                    && request == target_request_of(key),
            },
            acquired.1@ == depth_band_text(self.targets@.len()),
    {
        let band = target_pool_depth_band(self.targets.len());
        let mut k: usize = 0;
        while k < self.targets.len()
            invariant
                k <= self.targets@.len(),
                no_target_under(self.targets@.take(k as int), key, render_pass),
                band@ == depth_band_text(self.targets@.len()),
            decreases self.targets@.len() - k,
        {
            let target: PooledTarget = self.targets[k];
            if target.key == key && target.render_pass == render_pass {
                return (AcquiredImage::Have(target.slot), band);
            }
            assert(self.targets@.take(k + 1).drop_last() =~= self.targets@.take(k as int));
            assert forall|i: int| 0 <= i < k + 1 implies !target_under(
                #[trigger] self.targets@.take(k + 1)[i],
                key,
                render_pass,
            ) by {
                if i < k {
                    assert(self.targets@.take(k + 1)[i] == self.targets@.take(k as int)[i]);
                }
            }
            k += 1;
        }
        assert(self.targets@.take(k as int) =~= self.targets@);
        let usage: u32 = IMAGE_COLOR_ATTACHMENT | IMAGE_INPUT_ATTACHMENT | IMAGE_TRANSFER_SRC;
        let usage: u32 = if key.with_transfer_dst {
            usage | IMAGE_TRANSFER_DST
        } else {
            usage
        };
        let request = ImageRequest {
            cube_compatible: false,
            dimension: Dimension::Two,
            format: Format(RESIDENT_RGBA_FORMAT),
            width: key.width,
            height: key.height,
            depth: 1,
            mip_levels: 1,
            array_layers: 1,
            samples: 1,
            usage,
            view: ViewShape::Plane,
            swizzle: None,
        };
        (AcquiredImage::Make(request), band)
    }

    /// Keep a new scratch target. Where the pool is full the oldest goes: its
    /// framebuffer, then its image, as soon as no recording can name them.
    pub fn hold_target(&mut self, key: TargetKey, render_pass: RenderPass, slot: TargetSlot) -> (gone:
        (bool, Vec<DeferredHandle>))
        requires
            old(self).wf(),
        ensures
            final(self).wf(),
            gone.0 == (old(self).targets@.len() >= TARGET_POOL_MAX_ENTRIES),
            ({
                let kept = if gone.0 {
                    old(self).targets@.remove(0)
                } else {
                    old(self).targets@
                };
                let given = if gone.0 {
                    given_up(old(self).targets@[0].slot)
                } else {
                    seq![]
                };
                &&& final(self).targets@ == kept.push(PooledTarget { key, render_pass, slot })
                &&& disposed(
                    SharedPools { targets: final(self).targets, ..*old(self) },
                    *final(self),
                    given,
                    gone.1@,
                )
            }),
            targets_wf(old(self).targets@) && no_target_under(
                old(self).targets@,
                key,
                render_pass,
            ) ==> targets_wf(final(self).targets@),
    {
        let evicts: bool = self.targets.len() >= TARGET_POOL_MAX_ENTRIES;
        let ghost before = self.targets@;
        let mut given: Vec<DeferredHandle> = Vec::new();
        if evicts {
            let oldest = self.targets.remove(0);
            given = parts_of(&oldest.slot);
        }
        self.targets.push(PooledTarget { key, render_pass, slot });
        proof {
            let kept = if evicts {
                before.remove(0)
            } else {
                before
            };
            assert(self.targets@ =~= kept.push(PooledTarget { key, render_pass, slot }));
            if targets_wf(before) && no_target_under(before, key, render_pass) {
                lemma_kept_apart(before, evicts, PooledTarget { key, render_pass, slot });
            }
        }
        let ghost middle = *self;
        let destroy = self.dispose_all(given);
        assert(middle == (SharedPools { targets: self.targets, ..*old(self) }));
        (evicts, destroy)
    }

    /// The source of a multisample resolve for `key`, or the image to make for
    /// one. There is one at a time: where it does not serve, it goes first. One
    /// whose depth attachment is the pass's own serves no second pass.
    pub fn acquire_multisample_target(&mut self, key: MultisampleTargetKey) -> (acquired: (
        AcquiredImage<TargetSlot>,
        Vec<DeferredHandle>,
    ))
        requires
            old(self).wf(),
        ensures
            final(self).wf(),
            match old(self).multisample_target {
                Some(held) if held.key == key && !key.transient_depth => acquired.0
                    == AcquiredImage::Have(held.slot) && acquired.1@.len() == 0 && *final(self) == *old(self),
                Some(held) => acquired.0 == AcquiredImage::<TargetSlot>::Make(
                    multisample_request_of(key),
                ) && disposed(
                    (SharedPools { multisample_target: None, ..*old(self) }),
                    *final(self),
                    given_up(held.slot),
                    acquired.1@,
                ),
                None => acquired.0 == AcquiredImage::<TargetSlot>::Make(
                    multisample_request_of(key),
                ) && acquired.1@.len() == 0 && *final(self) == *old(self),
            },
    {
        let mut destroy: Vec<DeferredHandle> = Vec::new();
        if let Some(held) = self.multisample_target {
            if held.key == key && !key.transient_depth {
                return (AcquiredImage::Have(held.slot), destroy);
            }
            self.multisample_target = None;
            destroy = self.dispose_all(parts_of(&held.slot));
        }
        let request = ImageRequest {
            cube_compatible: false,
            dimension: Dimension::Two,
            format: key.format,
            width: key.width,
            height: key.height,
            depth: 1,
            mip_levels: 1,
            array_layers: 1,
            samples: key.samples,
            usage: IMAGE_COLOR_ATTACHMENT,
            view: ViewShape::Plane,
            swizzle: None,
        };
        (AcquiredImage::Make(request), destroy)
    }

    /// Keep a new source of a multisample resolve.
    pub fn hold_multisample_target(&mut self, key: MultisampleTargetKey, slot: TargetSlot)
        requires
            old(self).multisample_target is None,
        ensures
            *final(self) == (SharedPools {
                multisample_target: Some(MultisampleTargetSlot { slot, key }),
                ..*old(self)
            }),
            old(self).wf() ==> final(self).wf(),
    {
        self.multisample_target = Some(MultisampleTargetSlot { slot, key });
    }
}

proof fn lemma_kept_apart(targets: Seq<PooledTarget>, evicts: bool, one: PooledTarget)
    requires
        targets_wf(targets),
        no_target_under(targets, one.key, one.render_pass),
        evicts == (targets.len() >= TARGET_POOL_MAX_ENTRIES),
    ensures
        targets_wf(
            if evicts {
                targets.remove(0)
            } else {
                targets
            }.push(one),
        ),
{
    let kept = if evicts {
        targets.remove(0)
    } else {
        targets
    };
    let after = kept.push(one);
    let shift: int = if evicts {
        1
    } else {
        0
    };
    assert forall|i: int, j: int| 0 <= i < j < after.len() implies !target_under(
        #[trigger] after[j],
        (#[trigger] after[i]).key,
        after[i].render_pass,
    ) by {
        assert(after[i] == targets[i + shift]);
        if j < kept.len() {
            assert(after[j] == targets[j + shift]);
        } else {
            assert(after[j] == one);
            assert(!target_under(targets[i + shift], one.key, one.render_pass));
        }
    }
}

/// A scratch target that was kept is found again, until it is the oldest of a
/// full pool.
pub proof fn law_a_kept_target_is_found(
    targets: Seq<PooledTarget>,
    one: PooledTarget,
    key: TargetKey,
    render_pass: RenderPass,
)
    requires
        targets_wf(targets),
        no_target_under(targets, one.key, one.render_pass),
    ensures
        ({
            let full = targets.len() >= TARGET_POOL_MAX_ENTRIES;
            let after = if full {
                targets.remove(0)
            } else {
                targets
            }.push(one);
            &&& no_target_under(after, key, render_pass) <==> !target_under(one, key, render_pass)
                && (no_target_under(targets, key, render_pass) || (full && target_under(
                targets[0],
                key,
                render_pass,
            )))
        }),
{
    let full = targets.len() >= TARGET_POOL_MAX_ENTRIES;
    let kept = if full {
        targets.remove(0)
    } else {
        targets
    };
    let after = kept.push(one);
    let shift: int = if full {
        1
    } else {
        0
    };
    assert(after[kept.len() as int] == one);
    assert forall|i: int| 0 <= i < kept.len() implies after[i] == #[trigger] targets[i + shift] by {
    }
    if !no_target_under(targets, key, render_pass) {
        let at = choose|i: int|
            0 <= i < targets.len() && target_under(#[trigger] targets[i], key, render_pass);
        if !(full && at == 0) {
            assert(after[at - shift] == targets[at]);
        }
    }
    if !no_target_under(after, key, render_pass) && !target_under(one, key, render_pass) {
        let at = choose|i: int|
            0 <= i < after.len() && target_under(#[trigger] after[i], key, render_pass);
        assert(after[at] == targets[at + shift]);
        if full && target_under(targets[0], key, render_pass) {
            assert(target_under(targets[at + 1], targets[0].key, targets[0].render_pass));
        }
    }
}

/// The image to make for a sampled key has the shape the key asks for: its
/// extent, format and mip levels, and as many planes or layers as the key has.
pub proof fn law_a_sampled_image_has_the_shape_asked_for(key: SampledKey)
    ensures
        ({
            let request = sampled_request_of(key);
            &&& request.width == key.width
            &&& request.height == key.height
            &&& request.format == key.format
            &&& request.mip_levels == key.mip_levels
            &&& request.depth * request.array_layers == key.layers
            &&& key.volume ==> request.array_layers == 1
            &&& !key.volume ==> request.depth == 1
            &&& request.samples == 1
            &&& request.cube_compatible == key.cube
            &&& request.swizzle == Some(key.swizzle)
            &&& request.dimension is One <==> key.one_dim
            &&& request.dimension is Three <==> key.volume && !key.one_dim
        }),
{
    assert(key.layers * 1 == key.layers);
    assert(1 * key.layers == key.layers);
}

/// A sampled image can be sampled and copied into, and is used for nothing else.
pub proof fn law_a_sampled_image_is_read_and_filled(key: SampledKey)
    ensures
        sampled_request_of(key).usage == 0x6,
{
    assert(0x4u32 | 0x2u32 == 0x6u32) by (bit_vector);
}

/// The view of a sampled image has as many dimensions as the image, shows an
/// array exactly where one is asked for, and a cube only of a plane image.
pub proof fn law_a_sampled_view_fits_its_image(key: SampledKey)
    ensures
        ({
            let request = sampled_request_of(key);
            &&& request.dimension is One <==> request.view is Line || request.view is LineArray
            &&& request.dimension is Three <==> request.view is Volume
            &&& request.dimension is One ==> (request.view is LineArray <==> key.arrayed)
            &&& request.dimension is Two ==> (request.view is Cube <==> key.cube)
            &&& request.dimension is Two && !key.cube ==> (request.view is PlaneArray
                <==> key.arrayed)
        }),
{
}

/// A scratch target is one plane of the size asked for, in one sample. It is
/// rendered into, read back as an input and copied from, and copied into only
/// where that is asked for.
pub proof fn law_a_target_has_the_size_asked_for(key: TargetKey)
    ensures
        ({
            let request = target_request_of(key);
            &&& request.width == key.width
            &&& request.height == key.height
            &&& request.depth == 1
            &&& request.array_layers == 1
            &&& request.mip_levels == 1
            &&& request.samples == 1
            &&& request.dimension is Two
            &&& request.view is Plane
            &&& !request.cube_compatible
            &&& request.swizzle is None
            &&& request.format == Format(RESIDENT_RGBA_FORMAT)
            &&& request.usage == if key.with_transfer_dst {
                0x93u32
            } else {
                0x91u32
            }
        }),
{
    assert(0x10u32 | 0x80u32 | 0x1u32 == 0x91u32) by (bit_vector);
    assert(0x91u32 | 0x2u32 == 0x93u32) by (bit_vector);
}

/// The source of a multisample resolve is one plane of the size, format and
/// sample count asked for, and is only rendered into.
pub proof fn law_a_multisample_source_has_the_samples_asked_for(key: MultisampleTargetKey)
    ensures
        ({
            let request = multisample_request_of(key);
            &&& request.width == key.width
            &&& request.height == key.height
            &&& request.format == key.format
            &&& request.samples == key.samples
            &&& request.depth == 1
            &&& request.array_layers == 1
            &&& request.mip_levels == 1
            &&& request.dimension is Two
            &&& request.view is Plane
            &&& !request.cube_compatible
            &&& request.swizzle is None
            &&& request.usage == 0x10
        }),
{
}

/// What is given up with a scratch target is all of it, and the framebuffer goes
/// before the image that it rests on.
pub proof fn law_a_target_is_given_up_whole(slot: TargetSlot)
    ensures
        given_up(slot).len() == 2,
        given_up(slot)[0] == DeferredHandle::Framebuffer(slot.framebuffer),
        given_up(slot)[1] == (DeferredHandle::Image {
            image: slot.image,
            view: slot.view,
            memory: slot.memory,
        }),
{
}

/// A scratch target serves the key and the render pass it was made for, and no
/// others.
pub proof fn law_a_target_serves_its_own_key(
    target: PooledTarget,
    key: TargetKey,
    render_pass: RenderPass,
)
    ensures
        target_under(target, target.key, target.render_pass),
        target_under(target, key, render_pass) ==> target.key == key && target.render_pass
            == render_pass,
        no_target_under(seq![], key, render_pass),
        no_target_under(seq![target], key, render_pass) <==> !(target.key == key
            && target.render_pass == render_pass),
{
    assert(seq![target][0] == target);
}

/// An image and its view are made, bound and counted by calls of their own, and
/// those of a sampled image are not those of a target.
pub proof fn law_each_purpose_has_its_own_calls()
    ensures
        ImagePurpose::Sampled.creates() is PoolsCreateSampledImage,
        ImagePurpose::Sampled.binds() is PoolsBindSampled,
        ImagePurpose::Sampled.views() is PoolsCreateSampledView,
        ImagePurpose::Target.creates() is PoolsCreateTargetImage,
        ImagePurpose::Target.binds() is PoolsBindTarget,
        ImagePurpose::Target.views() is PoolsCreateTargetView,
        ImagePurpose::Sampled.image_site() is SampledImage,
        ImagePurpose::Sampled.view_site() is SampledImageView,
        ImagePurpose::Target.image_site() is TargetImage,
        ImagePurpose::Target.view_site() is TargetImageView,
{
}

} // verus!
