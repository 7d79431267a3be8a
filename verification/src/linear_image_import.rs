//! Images that alias guest memory: whether the driver's idea of a linear
//! image agrees byte for byte with the guest's, and what to do where it does
//! not.

use crate::decline::{copy_fields, fields_text, Decline};
use crate::format::{
    FORMAT_B8G8R8A8_SRGB, FORMAT_B8G8R8A8_UNORM, FORMAT_R8G8B8A8_SRGB, FORMAT_R8G8B8A8_UNORM,
};
use crate::pools::slots::ImportId;
use crate::text::{
    append_decimal, append_hexadecimal, append_signed, append_text, decimal, decimal_text, flag,
    flag_text, hexadecimal, owned, signed_decimal, signed_text,
};
use crate::vk::{
    show_vk_result, vk_result_text, Format, Image, VkResult, ERROR_FORMAT_NOT_SUPPORTED,
};
use vstd::prelude::*;

verus! {

/// The DRM modifier of a linear image.
pub const DRM_FORMAT_MOD_LINEAR: u64 = 0;

/// `VK_IMAGE_USAGE_TRANSFER_SRC_BIT`.
pub const USAGE_TRANSFER_SRC: u32 = 0x1;

/// `VK_IMAGE_USAGE_TRANSFER_DST_BIT`.
pub const USAGE_TRANSFER_DST: u32 = 0x2;

/// `VK_IMAGE_USAGE_SAMPLED_BIT`.
pub const USAGE_SAMPLED: u32 = 0x4;

/// `VK_IMAGE_USAGE_COLOR_ATTACHMENT_BIT`.
pub const USAGE_COLOR_ATTACHMENT: u32 = 0x10;

/// `VK_IMAGE_USAGE_INPUT_ATTACHMENT_BIT`.
pub const USAGE_INPUT_ATTACHMENT: u32 = 0x80;

/// `VK_IMAGE_USAGE_ATTACHMENT_FEEDBACK_LOOP_BIT_EXT`.
pub const USAGE_ATTACHMENT_FEEDBACK_LOOP: u32 = 0x80000;

/// `VK_FORMAT_FEATURE_SAMPLED_IMAGE_BIT`.
pub const FEATURE_SAMPLED_IMAGE: u32 = 0x1;

/// `VK_FORMAT_FEATURE_COLOR_ATTACHMENT_BIT` and
/// `VK_FORMAT_FEATURE_COLOR_ATTACHMENT_BLEND_BIT`.
pub const FEATURE_COLOR_ATTACHMENT_AND_BLEND: u32 = 0x180;

/// `VK_FORMAT_FEATURE_TRANSFER_SRC_BIT`.
pub const FEATURE_TRANSFER_SRC: u32 = 0x4000;

/// `VK_FORMAT_FEATURE_TRANSFER_DST_BIT`.
pub const FEATURE_TRANSFER_DST: u32 = 0x8000;

/// `VK_EXTERNAL_MEMORY_FEATURE_DEDICATED_ONLY_BIT`.
pub const EXTERNAL_DEDICATED_ONLY: u32 = 0x1;

/// `VK_EXTERNAL_MEMORY_FEATURE_IMPORTABLE_BIT`.
pub const EXTERNAL_IMPORTABLE: u32 = 0x4;

/// The formats that views of an image of `format` may have.
pub open spec fn view_family(format: Format) -> Seq<Format> {
    if format.0 == FORMAT_R8G8B8A8_UNORM || format.0 == FORMAT_R8G8B8A8_SRGB {
        seq![Format(FORMAT_R8G8B8A8_UNORM), Format(FORMAT_R8G8B8A8_SRGB)]
    } else if format.0 == FORMAT_B8G8R8A8_UNORM || format.0 == FORMAT_B8G8R8A8_SRGB {
        seq![Format(FORMAT_B8G8R8A8_UNORM), Format(FORMAT_B8G8R8A8_SRGB)]
    } else {
        seq![format]
    }
}

/// The formats that views of an image of `format` may have: the format itself
/// and, for an eight-bit colour format, its other transfer function.
pub fn mutable_view_formats(format: Format) -> (formats: Vec<Format>)
    ensures
        formats@ == view_family(format),
{
    let mut formats: Vec<Format> = Vec::new();
    if format.0 == FORMAT_R8G8B8A8_UNORM || format.0 == FORMAT_R8G8B8A8_SRGB {
        formats.push(Format(FORMAT_R8G8B8A8_UNORM));
        formats.push(Format(FORMAT_R8G8B8A8_SRGB));
    } else if format.0 == FORMAT_B8G8R8A8_UNORM || format.0 == FORMAT_B8G8R8A8_SRGB {
        formats.push(Format(FORMAT_B8G8R8A8_UNORM));
        formats.push(Format(FORMAT_B8G8R8A8_SRGB));
    } else {
        formats.push(format);
    }
    assert(formats@ =~= view_family(format));
    formats
}

/// The family of every member of a family is the family itself, and it names
/// the format it was asked for.
pub proof fn law_view_family_is_closed(format: Format, member: Format)
    requires
        view_family(format).contains(member),
    ensures
        view_family(member) == view_family(format),
        view_family(format).contains(format),
{
    let family = view_family(format);
    let k = choose|k: int| 0 <= k < family.len() && family[k] == member;
    assert(family[k] == member);
    if format.0 == FORMAT_R8G8B8A8_UNORM || format.0 == FORMAT_B8G8R8A8_UNORM {
        assert(family[0] == format);
    } else if format.0 == FORMAT_R8G8B8A8_SRGB || format.0 == FORMAT_B8G8R8A8_SRGB {
        assert(family[1] == format);
    } else {
        assert(family[0] == format);
    }
}

/// The dimensions of an image in guest memory.
#[derive(Clone, Copy, Debug, PartialEq, Eq, Structural)]
pub enum GuestImageLayout {
    /// One row.
    D1 { width: u32 },
    /// Rows that each are a layer.
    D1Array { width: u32, layers: u32, array_pitch: u64 },
    /// One plane.
    D2 { width: u32, height: u32 },
    /// Planes that each are a layer.
    D2Array { width: u32, height: u32, layers: u32, array_pitch: u64 },
    /// A volume.
    D3 { width: u32, height: u32, depth: u32, depth_pitch: u64 },
}

impl GuestImageLayout {
    /// Texels per row.
    pub open spec fn width_spec(self) -> u32 {
        match self {
            GuestImageLayout::D1 { width } => width,
            GuestImageLayout::D1Array { width, .. } => width,
            GuestImageLayout::D2 { width, .. } => width,
            GuestImageLayout::D2Array { width, .. } => width,
            GuestImageLayout::D3 { width, .. } => width,
        }
    }

    /// Rows per plane.
    pub open spec fn height_spec(self) -> u32 {
        match self {
            GuestImageLayout::D1 { .. } => 1,
            GuestImageLayout::D1Array { .. } => 1,
            GuestImageLayout::D2 { height, .. } => height,
            GuestImageLayout::D2Array { height, .. } => height,
            GuestImageLayout::D3 { height, .. } => height,
        }
    }

    /// Planes per volume.
    pub open spec fn depth_spec(self) -> u32 {
        match self {
            GuestImageLayout::D3 { depth, .. } => depth,
            _ => 1,
        }
    }

    /// Layers of an array.
    pub open spec fn layers_spec(self) -> u32 {
        match self {
            GuestImageLayout::D1Array { layers, .. } => layers,
            GuestImageLayout::D2Array { layers, .. } => layers,
            _ => 1,
        }
    }

    /// Bytes from one layer to the next; zero without layers.
    pub open spec fn array_pitch_spec(self) -> u64 {
        match self {
            GuestImageLayout::D1Array { array_pitch, .. } => array_pitch,
            GuestImageLayout::D2Array { array_pitch, .. } => array_pitch,
            _ => 0,
        }
    }

    /// Bytes from one plane of a volume to the next; zero without depth.
    pub open spec fn depth_pitch_spec(self) -> u64 {
        match self {
            GuestImageLayout::D3 { depth_pitch, .. } => depth_pitch,
            _ => 0,
        }
    }

    /// Texels per row.
    pub fn width(self) -> (width: u32)
        ensures
            width == self.width_spec(),
    {
        match self {
            GuestImageLayout::D1 { width } => width,
            GuestImageLayout::D1Array { width, .. } => width,
            GuestImageLayout::D2 { width, .. } => width,
            GuestImageLayout::D2Array { width, .. } => width,
            GuestImageLayout::D3 { width, .. } => width,
        }
    }

    /// Rows per plane.
    pub fn height(self) -> (height: u32)
        ensures
            height == self.height_spec(),
    {
        match self {
            GuestImageLayout::D1 { .. } => 1,
            GuestImageLayout::D1Array { .. } => 1,
            GuestImageLayout::D2 { height, .. } => height,
            GuestImageLayout::D2Array { height, .. } => height,
            GuestImageLayout::D3 { height, .. } => height,
        }
    }

    /// Planes per volume.
    pub fn depth(self) -> (depth: u32)
        ensures
            depth == self.depth_spec(),
    {
        match self {
            GuestImageLayout::D3 { depth, .. } => depth,
            _ => 1,
        }
    }

    /// Layers of an array.
    pub fn array_layers(self) -> (layers: u32)
        ensures
            layers == self.layers_spec(),
    {
        match self {
            GuestImageLayout::D1Array { layers, .. } => layers,
            GuestImageLayout::D2Array { layers, .. } => layers,
            _ => 1,
        }
    }

    fn array_pitch(self) -> (pitch: u64)
        ensures
            pitch == self.array_pitch_spec(),
    {
        match self {
            GuestImageLayout::D1Array { array_pitch, .. } => array_pitch,
            GuestImageLayout::D2Array { array_pitch, .. } => array_pitch,
            _ => 0,
        }
    }

    fn depth_pitch(self) -> (pitch: u64)
        ensures
            pitch == self.depth_pitch_spec(),
    {
        match self {
            GuestImageLayout::D3 { depth_pitch, .. } => depth_pitch,
            _ => 0,
        }
    }

    /// Two layers or more, so that the distance between them matters.
    pub open spec fn has_layers(self) -> bool {
        self.layers_spec() > 1
    }

    /// Two planes or more, so that the distance between them matters.
    pub open spec fn has_depth(self) -> bool {
        self.depth_spec() > 1
    }
}

/// Where an image lies in a guest allocation.
#[derive(Clone, Copy, Debug, PartialEq, Eq, Structural)]
pub struct GuestTargetBacking {
    /// The host address of the allocation.
    pub allocation_host_ptr: u64,
    /// Its length.
    pub allocation_len: u64,
    /// Where the resource begins in it.
    pub resource_offset: u64,
    /// The length of the resource.
    pub resource_len: u64,
    /// Where the image's plane begins in the allocation.
    pub plane_offset: u64,
    /// Bytes from one row to the next.
    pub row_pitch: u64,
}

/// One mip level in guest memory.
#[derive(Clone, Copy, Debug, PartialEq, Eq, Structural)]
pub struct GuestImageMipLayout {
    /// Where it begins in the resource.
    pub resource_relative_offset: u64,
    /// Bytes from one row to the next.
    pub row_pitch: u64,
    /// Its dimensions.
    pub layout: GuestImageLayout,
}

/// The mip levels of an image in guest memory, largest first.
#[derive(Debug, PartialEq, Eq)]
pub struct GuestImageAllocationLayout {
    /// The levels.
    pub mips: Vec<GuestImageMipLayout>,
}

impl GuestImageAllocationLayout {
    /// The layout of an image with one level.
    pub fn single(
        resource_relative_offset: u64,
        row_pitch: u64,
        layout: GuestImageLayout,
    ) -> (single: GuestImageAllocationLayout)
        ensures
            single.mips@ == seq![
                (GuestImageMipLayout { resource_relative_offset, row_pitch, layout }),
            ],
    {
        let mut mips: Vec<GuestImageMipLayout> = Vec::new();
        mips.push(GuestImageMipLayout { resource_relative_offset, row_pitch, layout });
        assert(mips@ =~= seq![
            (GuestImageMipLayout { resource_relative_offset, row_pitch, layout }),
        ]);
        GuestImageAllocationLayout { mips }
    }
}

/// What the driver says of one subresource.
#[derive(Clone, Copy, Debug, PartialEq, Eq, Structural)]
pub struct SubresourceLayout {
    /// Where it begins in the image.
    pub offset: u64,
    /// Its length.
    pub size: u64,
    /// Bytes from one row to the next.
    pub row_pitch: u64,
    /// Bytes from one layer to the next.
    pub array_pitch: u64,
    /// Bytes from one plane to the next.
    pub depth_pitch: u64,
}

/// What the driver wants of the memory behind an image.
#[derive(Clone, Copy, Debug, PartialEq, Eq, Structural)]
pub struct MemoryRequirements {
    /// How many bytes.
    pub size: u64,
    /// At which multiple they begin.
    pub alignment: u64,
    /// One bit per memory type that serves.
    pub memory_type_bits: u32,
}

/// Where an image is bound in its allocation.
#[derive(Clone, Copy, Debug, PartialEq, Eq, Structural)]
pub struct WindowPlan {
    /// The offset it is bound at.
    pub bind_offset: u64,
    /// The end of the bound range.
    pub required_allocation_len: u64,
}

/// Everything that decides whether an image can be bound.
#[derive(Clone, Copy, Debug, PartialEq, Eq, Structural)]
pub struct WindowAdmission {
    /// The driver's base subresource.
    pub layout: SubresourceLayout,
    /// The driver's requirements.
    pub requirements: MemoryRequirements,
    /// The guest's backing.
    pub backing: GuestTargetBacking,
    /// The guest's dimensions.
    pub guest_layout: GuestImageLayout,
    /// The memory type of the allocation, once it is imported.
    pub parent_memory_type: Option<u32>,
    /// Whether the driver wants an allocation for this image alone.
    pub requires_dedicated: bool,
    /// Whether the bound range has to lie in the allocation.
    pub require_allocation_fit: bool,
}

/// What is known of a created image besides the driver's layout of it.
#[derive(Clone, Copy, Debug, PartialEq, Eq, Structural)]
pub struct CreatedImage {
    /// The driver's requirements.
    pub requirements: MemoryRequirements,
    /// The guest's backing.
    pub backing: GuestTargetBacking,
    /// The memory type of the allocation, once it is imported.
    pub parent_memory_type: Option<u32>,
    /// Whether the driver wants an allocation for this image alone.
    pub requires_dedicated: bool,
    /// Whether the bound range has to lie in the allocation.
    pub require_allocation_fit: bool,
}

impl CreatedImage {
    /// What decides whether the image can be bound, where the driver lays out its
    /// base mip as `layout` and the guest as `guest_layout`.
    pub open spec fn admission(
        self,
        layout: SubresourceLayout,
        guest_layout: GuestImageLayout,
    ) -> WindowAdmission {
        WindowAdmission {
            layout,
            requirements: self.requirements,
            backing: self.backing,
            guest_layout,
            parent_memory_type: self.parent_memory_type,
            requires_dedicated: self.requires_dedicated,
            require_allocation_fit: self.require_allocation_fit,
        }
    }
}

/// How the image's memory layout is chosen.
#[derive(Clone, Copy, Debug, PartialEq, Eq, Structural)]
pub enum LayoutMode {
    /// The driver lays the image out.
    DriverLinear,
    /// The guest's layout is dictated.
    ExplicitLinear,
}

impl LayoutMode {
    /// The name of the mode.
    pub open spec fn slug_text(self) -> Seq<char> {
        match self {
            LayoutMode::DriverLinear => "driver_linear"@,
            LayoutMode::ExplicitLinear => "explicit_linear"@,
        }
    }

    /// The name of the mode.
    pub fn slug(self) -> (slug: &'static str)
        ensures
            slug@ == self.slug_text(),
    {
        match self {
            LayoutMode::DriverLinear => "driver_linear",
            LayoutMode::ExplicitLinear => "explicit_linear",
        }
    }
}

/// The dimensionality of a Vulkan image.
#[derive(Clone, Copy, Debug, PartialEq, Eq, Structural)]
pub enum ImageType {
    /// `VK_IMAGE_TYPE_1D`.
    D1,
    /// `VK_IMAGE_TYPE_2D`.
    D2,
    /// `VK_IMAGE_TYPE_3D`.
    D3,
}

impl ImageType {
    /// The `VkImageType` value.
    pub open spec fn raw_value(self) -> nat {
        match self {
            ImageType::D1 => 0,
            ImageType::D2 => 1,
            ImageType::D3 => 2,
        }
    }

    /// The `VkImageType` value.
    pub fn as_raw(self) -> (raw: u32)
        ensures
            raw == self.raw_value(),
    {
        match self {
            ImageType::D1 => 0,
            ImageType::D2 => 1,
            ImageType::D3 => 2,
        }
    }
}

/// Why sampled content has to be copied rather than aliased.
#[derive(Clone, Copy, Debug, PartialEq, Eq, Structural)]
pub enum SampledCopyCause {
    /// The allocation is no single plane.
    Layout(GuestImageLayout),
    /// The mip levels form no chain that Vulkan knows.
    IrregularMipChain { mips: usize },
    /// The view names some of the mip levels.
    ViewMip { base: u32, count: u32 },
    /// The view names some layer beyond the first.
    ViewLayer { base: u32, count: u32 },
    /// No resident holds the content.
    ResidentUnavailable,
}

impl SampledCopyCause {
    /// An allocation can be aliased when it is one plane, at any number of mip
    /// levels.
    pub fn of_allocation(base: GuestImageLayout) -> (cause: Option<SampledCopyCause>)
        ensures
            cause == if base is D2 {
                None
            } else {
                Some(SampledCopyCause::Layout(base))
            },
    {
        match base {
            GuestImageLayout::D2 { .. } => None,
            other => Some(SampledCopyCause::Layout(other)),
        }
    }

    /// A view can be aliased when it names every mip level and the first layer.
    pub fn of_view(
        base_mip: u32,
        mip_count: u32,
        allocation_mips: u32,
        base_layer: u32,
        layer_count: u32,
    ) -> (cause: Option<SampledCopyCause>)
        ensures
            cause == if !(base_mip == 0 && mip_count == allocation_mips) {
                Some(SampledCopyCause::ViewMip { base: base_mip, count: mip_count })
            } else if !(base_layer == 0 && layer_count == 1) {
                Some(SampledCopyCause::ViewLayer { base: base_layer, count: layer_count })
            } else {
                None
            },
    {
        if base_mip != 0 || mip_count != allocation_mips {
            return Some(SampledCopyCause::ViewMip { base: base_mip, count: mip_count });
        }
        if base_layer != 0 || layer_count != 1 {
            return Some(SampledCopyCause::ViewLayer { base: base_layer, count: layer_count });
        }
        None
    }

    /// The name of the cause.
    pub open spec fn slug_text(self) -> Seq<char> {
        match self {
            SampledCopyCause::Layout(layout) => match layout {
                GuestImageLayout::D1 { .. } => "sampled_copy_layout_1d"@,
                GuestImageLayout::D1Array { .. } => "sampled_copy_layout_1d_array"@,
                GuestImageLayout::D2 { .. } => "sampled_copy_layout_2d"@,
                GuestImageLayout::D2Array { .. } => "sampled_copy_layout_2d_array"@,
                GuestImageLayout::D3 { .. } => "sampled_copy_layout_3d"@,
            },
            SampledCopyCause::IrregularMipChain { .. } => "sampled_copy_irregular_mip_chain"@,
            SampledCopyCause::ViewMip { .. } => "sampled_copy_view_mip"@,
            SampledCopyCause::ViewLayer { .. } => "sampled_copy_view_layer"@,
            SampledCopyCause::ResidentUnavailable => "sampled_copy_resident_unavailable"@,
        }
    }

    /// The name of the cause.
    pub fn slug(self) -> (slug: &'static str)
        ensures
            slug@ == self.slug_text(),
    {
        match self {
            SampledCopyCause::Layout(layout) => match layout {
                GuestImageLayout::D1 { .. } => "sampled_copy_layout_1d",
                GuestImageLayout::D1Array { .. } => "sampled_copy_layout_1d_array",
                GuestImageLayout::D2 { .. } => "sampled_copy_layout_2d",
                GuestImageLayout::D2Array { .. } => "sampled_copy_layout_2d_array",
                GuestImageLayout::D3 { .. } => "sampled_copy_layout_3d",
            },
            SampledCopyCause::IrregularMipChain { .. } => "sampled_copy_irregular_mip_chain",
            SampledCopyCause::ViewMip { .. } => "sampled_copy_view_mip",
            SampledCopyCause::ViewLayer { .. } => "sampled_copy_view_layer",
            SampledCopyCause::ResidentUnavailable => "sampled_copy_resident_unavailable",
        }
    }

    /// Which admission term the cause belongs to.
    pub open spec fn term(self) -> nat {
        match self {
            SampledCopyCause::Layout(layout) => match layout {
                GuestImageLayout::D1 { .. } => 0,
                GuestImageLayout::D1Array { .. } => 1,
                GuestImageLayout::D2 { .. } => 2,
                GuestImageLayout::D2Array { .. } => 3,
                GuestImageLayout::D3 { .. } => 4,
            },
            SampledCopyCause::IrregularMipChain { .. } => 5,
            SampledCopyCause::ViewMip { .. } => 6,
            SampledCopyCause::ViewLayer { .. } => 7,
            SampledCopyCause::ResidentUnavailable => 8,
        }
    }
}

/// No two admission terms share a name, so a census can tell them apart.
pub proof fn law_copy_causes_have_their_own_slugs(a: SampledCopyCause, b: SampledCopyCause)
    requires
        a.slug_text() == b.slug_text(),
    ensures
        a.term() == b.term(),
{
    reveal_strlit("sampled_copy_layout_1d");
    reveal_strlit("sampled_copy_layout_1d_array");
    reveal_strlit("sampled_copy_layout_2d");
    reveal_strlit("sampled_copy_layout_2d_array");
    reveal_strlit("sampled_copy_layout_3d");
    reveal_strlit("sampled_copy_irregular_mip_chain");
    reveal_strlit("sampled_copy_view_mip");
    reveal_strlit("sampled_copy_view_layer");
    reveal_strlit("sampled_copy_resident_unavailable");
    let x = a.slug_text();
    let y = b.slug_text();
    assert(x.len() == y.len());
    assert(x[20] == y[20]);
    assert(x[13] == y[13]);
}

/// Why an image cannot alias guest memory.
#[derive(Debug, PartialEq, Eq)]
pub enum WindowRefusal {
    /// The device cannot import host memory.
    HostImportUnavailable,
    /// The sampled alias is switched off.
    SampledAliasDisabledByEnv,
    /// The image has a shape that no alias can take.
    UnsupportedImageShape {
        layers: u32,
        volume: bool,
        cube: bool,
        arrayed: bool,
        one_dim: bool,
    },
    /// The sampled content has to be copied, for the cause given.
    SampledContentRequiresCopy(SampledCopyCause),
    /// Host writes would not reach the alias.
    SampledAliasHostWritesNotCoherent {
        memory_type_index: u32,
    },
    /// The row pitch is no whole number of texels.
    SampledAliasRowPitchNotTexelMultiple {
        row_pitch: u64,
        bytes_per_texel: u64,
    },
    /// More than one resident backs the range.
    AmbiguousResidentBacking {
        matches: usize,
    },
    /// The import is not the allocation that backs the image.
    ParentAllocationMismatch,
    /// The parent allocation could not be imported.
    ParentImport(Decline),
    /// The allocation is not aligned for import.
    HostPointerMisaligned,
    /// The guest resource does not hold the image.
    ResourceWindowTooShort,
    /// The driver places the image's first byte past the plane.
    SubresourceAfterPlane {
        plane_offset: u64,
        subresource_offset: u64,
    },
    /// The binding offset is not aligned.
    BindOffsetMisaligned,
    /// Guest and driver disagree on a row pitch.
    RowPitchMismatch {
        mip_level: u32,
        width: u32,
        guest: u64,
        host: u64,
    },
    /// Guest and driver disagree on the array pitch.
    ArrayPitchMismatch,
    /// Guest and driver disagree on the depth pitch.
    DepthPitchMismatch,
    /// Guest and driver disagree on where a mip begins.
    MipOffsetMismatch {
        mip_level: u32,
        guest_offset: u64,
        host_offset: u64,
        image_base: u64,
        resource_base: u64,
        plane_offset: u64,
        mode: LayoutMode,
    },
    /// The bound range does not fit in 64 bits.
    BindingRangeOverflow,
    /// The bound range runs past the allocation.
    AllocationTooShort {
        required_end: u64,
        allocation_len: u64,
    },
    /// The image cannot use the allocation's memory type.
    NoMemoryType,
    /// The image wants an allocation of its own.
    DedicatedBindingRequired,
    /// The driver failed to answer a format query.
    ModifierQuery(VkResult),
    /// The driver refused to create the image.
    CreateImage {
        result: VkResult,
        mode: LayoutMode,
        format: Format,
        image_type: ImageType,
        width: u32,
        height: u32,
        depth: u32,
        mip_levels: u32,
        array_layers: u32,
        plane_offset: u64,
        row_pitch: u64,
    },
    /// The driver refused to create the view.
    CreateView(VkResult),
    /// The driver refused to bind the image.
    BindImage(VkResult),
}

impl WindowRefusal {
    /// The name of the refusal.
    pub open spec fn slug_text(self) -> Seq<char> {
        match self {
            WindowRefusal::HostImportUnavailable => "no_host_import"@,
            WindowRefusal::SampledAliasDisabledByEnv => "sampled_alias_disabled_by_env"@,
            WindowRefusal::UnsupportedImageShape { .. } => "unsupported_image_shape"@,
            WindowRefusal::SampledContentRequiresCopy(cause) => cause.slug_text(),
            WindowRefusal::SampledAliasHostWritesNotCoherent { .. } => "sampled_alias_host_writes_not_coherent"@,
            WindowRefusal::SampledAliasRowPitchNotTexelMultiple { .. } => "sampled_alias_row_pitch_not_texel_multiple"@,
            WindowRefusal::AmbiguousResidentBacking { .. } => "ambiguous_resident_backing"@,
            WindowRefusal::ParentAllocationMismatch => "parent_allocation_mismatch"@,
            WindowRefusal::ParentImport(inner) => inner.slug@,
            WindowRefusal::HostPointerMisaligned => "host_pointer_misaligned"@,
            WindowRefusal::ResourceWindowTooShort => "resource_window_too_short"@,
            WindowRefusal::SubresourceAfterPlane { .. } => "subresource_after_plane"@,
            WindowRefusal::BindOffsetMisaligned => "bind_offset_misaligned"@,
            WindowRefusal::RowPitchMismatch { .. } => "row_pitch_mismatch"@,
            WindowRefusal::ArrayPitchMismatch => "array_pitch_mismatch"@,
            WindowRefusal::DepthPitchMismatch => "depth_pitch_mismatch"@,
            WindowRefusal::MipOffsetMismatch { .. } => "mip_offset_mismatch"@,
            WindowRefusal::BindingRangeOverflow => "binding_range_overflow"@,
            WindowRefusal::AllocationTooShort { .. } => "allocation_too_short"@,
            WindowRefusal::NoMemoryType => "no_memory_type"@,
            WindowRefusal::DedicatedBindingRequired => "dedicated_binding_required"@,
            WindowRefusal::ModifierQuery(_) => "modifier_query_failed"@,
            WindowRefusal::CreateImage { .. } => "create_failed"@,
            WindowRefusal::CreateView(_) => "view_create_failed"@,
            WindowRefusal::BindImage(_) => "bind_failed"@,
        }
    }

    /// The values that bear on the refusal.
    pub open spec fn fields_spec(self) -> Seq<(Seq<char>, Seq<char>)> {
        match self {
            WindowRefusal::UnsupportedImageShape { layers, volume, cube, arrayed, one_dim } => seq![
                ("layers"@, decimal(layers as nat)),
                ("volume"@, flag(volume)),
                ("cube"@, flag(cube)),
                ("arrayed"@, flag(arrayed)),
                ("one_dim"@, flag(one_dim)),
            ],
            WindowRefusal::SampledAliasHostWritesNotCoherent { memory_type_index } => seq![
                ("memory_type"@, decimal(memory_type_index as nat)),
            ],
            WindowRefusal::SampledAliasRowPitchNotTexelMultiple { row_pitch, bytes_per_texel } => seq![
                ("row_pitch"@, decimal(row_pitch as nat)),
                ("bytes_per_texel"@, decimal(bytes_per_texel as nat)),
            ],
            WindowRefusal::AmbiguousResidentBacking { matches } => seq![
                ("matches"@, decimal(matches as nat)),
            ],
            WindowRefusal::ParentImport(inner) => inner.text(),
            WindowRefusal::SubresourceAfterPlane { plane_offset, subresource_offset } => seq![
                ("plane_offset"@, decimal(plane_offset as nat)),
                ("subresource_offset"@, decimal(subresource_offset as nat)),
            ],
            WindowRefusal::RowPitchMismatch { mip_level, width, guest, host } => seq![
                ("mip"@, decimal(mip_level as nat)),
                ("width"@, decimal(width as nat)),
                ("guest_pitch"@, decimal(guest as nat)),
                ("host_pitch"@, decimal(host as nat)),
            ],
            WindowRefusal::MipOffsetMismatch { mip_level, guest_offset, host_offset, image_base, resource_base, plane_offset, mode } => seq![
                ("mip"@, decimal(mip_level as nat)),
                ("guest_offset"@, decimal(guest_offset as nat)),
                ("host_offset"@, decimal(host_offset as nat)),
                ("image_base"@, decimal(image_base as nat)),
                ("resource_base"@, decimal(resource_base as nat)),
                ("plane_offset"@, decimal(plane_offset as nat)),
                ("mode"@, mode.slug_text()),
            ],
            WindowRefusal::AllocationTooShort { required_end, allocation_len } => seq![
                ("required_end"@, decimal(required_end as nat)),
                ("allocation_len"@, decimal(allocation_len as nat)),
            ],
            WindowRefusal::ModifierQuery(result) => seq![
                ("result"@, vk_result_text(result.0)),
            ],
            WindowRefusal::CreateImage { result, mode, format, image_type, width, height, depth, mip_levels, array_layers, plane_offset, row_pitch } => seq![
                ("result"@, vk_result_text(result.0)),
                ("mode"@, mode.slug_text()),
                ("format"@, signed_decimal(format.0 as int)),
                ("image_type"@, decimal(image_type.raw_value())),
                ("width"@, decimal(width as nat)),
                ("height"@, decimal(height as nat)),
                ("depth"@, decimal(depth as nat)),
                ("mips"@, decimal(mip_levels as nat)),
                ("layers"@, decimal(array_layers as nat)),
                ("plane_offset"@, decimal(plane_offset as nat)),
                ("row_pitch"@, decimal(row_pitch as nat)),
            ],
            WindowRefusal::CreateView(result) => seq![
                ("result"@, vk_result_text(result.0)),
            ],
            WindowRefusal::BindImage(result) => seq![
                ("result"@, vk_result_text(result.0)),
            ],
            _ => Seq::empty(),
        }
    }

    /// The name of the refusal.
    pub fn slug(&self) -> (slug: &'static str)
        ensures
            slug@ == self.slug_text(),
    {
        match self {
            WindowRefusal::HostImportUnavailable => "no_host_import",
            WindowRefusal::SampledAliasDisabledByEnv => "sampled_alias_disabled_by_env",
            WindowRefusal::UnsupportedImageShape { .. } => "unsupported_image_shape",
            WindowRefusal::SampledContentRequiresCopy(cause) => cause.slug(),
            WindowRefusal::SampledAliasHostWritesNotCoherent { .. } => "sampled_alias_host_writes_not_coherent",
            WindowRefusal::SampledAliasRowPitchNotTexelMultiple { .. } => "sampled_alias_row_pitch_not_texel_multiple",
            WindowRefusal::AmbiguousResidentBacking { .. } => "ambiguous_resident_backing",
            WindowRefusal::ParentAllocationMismatch => "parent_allocation_mismatch",
            WindowRefusal::ParentImport(inner) => inner.slug,
            WindowRefusal::HostPointerMisaligned => "host_pointer_misaligned",
            WindowRefusal::ResourceWindowTooShort => "resource_window_too_short",
            WindowRefusal::SubresourceAfterPlane { .. } => "subresource_after_plane",
            WindowRefusal::BindOffsetMisaligned => "bind_offset_misaligned",
            WindowRefusal::RowPitchMismatch { .. } => "row_pitch_mismatch",
            WindowRefusal::ArrayPitchMismatch => "array_pitch_mismatch",
            WindowRefusal::DepthPitchMismatch => "depth_pitch_mismatch",
            WindowRefusal::MipOffsetMismatch { .. } => "mip_offset_mismatch",
            WindowRefusal::BindingRangeOverflow => "binding_range_overflow",
            WindowRefusal::AllocationTooShort { .. } => "allocation_too_short",
            WindowRefusal::NoMemoryType => "no_memory_type",
            WindowRefusal::DedicatedBindingRequired => "dedicated_binding_required",
            WindowRefusal::ModifierQuery(_) => "modifier_query_failed",
            WindowRefusal::CreateImage { .. } => "create_failed",
            WindowRefusal::CreateView(_) => "view_create_failed",
            WindowRefusal::BindImage(_) => "bind_failed",
        }
    }

    /// The values that bear on the refusal, under their names.
    pub fn fields(&self) -> (fields: Vec<(&'static str, String)>)
        ensures
            fields_text(fields@) == self.fields_spec(),
    {
        let mut fields: Vec<(&'static str, String)> = Vec::new();
        match self {
            WindowRefusal::UnsupportedImageShape { layers, volume, cube, arrayed, one_dim } => {
                fields.push(("layers", decimal_text(*layers as u64)));
                fields.push(("volume", flag_text(*volume)));
                fields.push(("cube", flag_text(*cube)));
                fields.push(("arrayed", flag_text(*arrayed)));
                fields.push(("one_dim", flag_text(*one_dim)));
            },
            WindowRefusal::SampledAliasHostWritesNotCoherent { memory_type_index } => {
                fields.push(("memory_type", decimal_text(*memory_type_index as u64)));
            },
            WindowRefusal::SampledAliasRowPitchNotTexelMultiple { row_pitch, bytes_per_texel } => {
                fields.push(("row_pitch", decimal_text(*row_pitch as u64)));
                fields.push(("bytes_per_texel", decimal_text(*bytes_per_texel as u64)));
            },
            WindowRefusal::AmbiguousResidentBacking { matches } => {
                fields.push(("matches", decimal_text(*matches as u64)));
            },
            WindowRefusal::ParentImport(inner) => {
                fields = copy_fields(&inner.fields);
            },
            WindowRefusal::SubresourceAfterPlane { plane_offset, subresource_offset } => {
                fields.push(("plane_offset", decimal_text(*plane_offset as u64)));
                fields.push(("subresource_offset", decimal_text(*subresource_offset as u64)));
            },
            WindowRefusal::RowPitchMismatch { mip_level, width, guest, host } => {
                fields.push(("mip", decimal_text(*mip_level as u64)));
                fields.push(("width", decimal_text(*width as u64)));
                fields.push(("guest_pitch", decimal_text(*guest as u64)));
                fields.push(("host_pitch", decimal_text(*host as u64)));
            },
            WindowRefusal::MipOffsetMismatch { mip_level, guest_offset, host_offset, image_base, resource_base, plane_offset, mode } => {
                fields.push(("mip", decimal_text(*mip_level as u64)));
                fields.push(("guest_offset", decimal_text(*guest_offset as u64)));
                fields.push(("host_offset", decimal_text(*host_offset as u64)));
                fields.push(("image_base", decimal_text(*image_base as u64)));
                fields.push(("resource_base", decimal_text(*resource_base as u64)));
                fields.push(("plane_offset", decimal_text(*plane_offset as u64)));
                fields.push(("mode", owned(mode.slug())));
            },
            WindowRefusal::AllocationTooShort { required_end, allocation_len } => {
                fields.push(("required_end", decimal_text(*required_end as u64)));
                fields.push(("allocation_len", decimal_text(*allocation_len as u64)));
            },
            WindowRefusal::ModifierQuery(result) => {
                fields.push(("result", show_vk_result(result.0)));
            },
            WindowRefusal::CreateImage { result, mode, format, image_type, width, height, depth, mip_levels, array_layers, plane_offset, row_pitch } => {
                fields.push(("result", show_vk_result(result.0)));
                fields.push(("mode", owned(mode.slug())));
                fields.push(("format", signed_text(format.0 as i64)));
                fields.push(("image_type", decimal_text(image_type.as_raw() as u64)));
                fields.push(("width", decimal_text(*width as u64)));
                fields.push(("height", decimal_text(*height as u64)));
                fields.push(("depth", decimal_text(*depth as u64)));
                fields.push(("mips", decimal_text(*mip_levels as u64)));
                fields.push(("layers", decimal_text(*array_layers as u64)));
                fields.push(("plane_offset", decimal_text(*plane_offset as u64)));
                fields.push(("row_pitch", decimal_text(*row_pitch as u64)));
            },
            WindowRefusal::CreateView(result) => {
                fields.push(("result", show_vk_result(result.0)));
            },
            WindowRefusal::BindImage(result) => {
                fields.push(("result", show_vk_result(result.0)));
            },
            _ => {},
        }
        assert(fields_text(fields@) =~= self.fields_spec());
        fields
    }
}

/// What the pitches of a subresource refuse, if anything.
pub open spec fn pitch_refusal(
    host: SubresourceLayout,
    guest: GuestImageLayout,
) -> Option<WindowRefusal> {
    if guest.has_layers() && host.array_pitch != guest.array_pitch_spec() {
        Some(WindowRefusal::ArrayPitchMismatch)
    } else if guest.has_depth() && host.depth_pitch != guest.depth_pitch_spec() {
        Some(WindowRefusal::DepthPitchMismatch)
    } else {
        None
    }
}

fn check_pitches(host: SubresourceLayout, guest: GuestImageLayout) -> (refusal: Option<
    WindowRefusal,
>)
    ensures
        refusal == pitch_refusal(host, guest),
{
    if guest.array_layers() > 1 && host.array_pitch != guest.array_pitch() {
        Some(WindowRefusal::ArrayPitchMismatch)
    } else if guest.depth() > 1 && host.depth_pitch != guest.depth_pitch() {
        Some(WindowRefusal::DepthPitchMismatch)
    } else {
        None
    }
}

/// Whether memory type `index` is among `bits`.
pub open spec fn type_serves(bits: u32, index: u32) -> bool {
    index < 32 && bits & (1u32 << index) != 0
}

/// What binding at `bind_offset` comes to: the first term that refuses, or the
/// bound range.
pub open spec fn common_outcome(
    admission: WindowAdmission,
    bind_offset: u64,
) -> Result<WindowPlan, WindowRefusal> {
    let end = bind_offset + admission.requirements.size;
    if admission.layout.row_pitch != admission.backing.row_pitch {
        Err(
            WindowRefusal::RowPitchMismatch {
                mip_level: 0,
                width: admission.guest_layout.width_spec(),
                guest: admission.backing.row_pitch,
                host: admission.layout.row_pitch,
            },
        )
    } else if pitch_refusal(admission.layout, admission.guest_layout) is Some {
        Err(pitch_refusal(admission.layout, admission.guest_layout)->0)
    } else if end > u64::MAX {
        Err(WindowRefusal::BindingRangeOverflow)
    } else if admission.requirements.alignment == 0 || (admission.require_allocation_fit && end
        > admission.backing.allocation_len) {
        Err(
            WindowRefusal::AllocationTooShort {
                required_end: end as u64,
                allocation_len: admission.backing.allocation_len,
            },
        )
    } else if admission.parent_memory_type is Some && !type_serves(
        admission.requirements.memory_type_bits,
        admission.parent_memory_type->0,
    ) {
        Err(WindowRefusal::NoMemoryType)
    } else if admission.requires_dedicated {
        Err(WindowRefusal::DedicatedBindingRequired)
    } else {
        Ok(WindowPlan { bind_offset, required_allocation_len: end as u64 })
    }
}

/// What planning a window comes to.
pub open spec fn window_outcome(admission: WindowAdmission) -> Result<WindowPlan, WindowRefusal> {
    if admission.layout.offset > admission.backing.plane_offset {
        Err(
            WindowRefusal::SubresourceAfterPlane {
                plane_offset: admission.backing.plane_offset,
                subresource_offset: admission.layout.offset,
            },
        )
    } else if admission.requirements.alignment == 0 || (admission.backing.plane_offset
        - admission.layout.offset) % admission.requirements.alignment as int != 0 {
        Err(WindowRefusal::BindOffsetMisaligned)
    } else {
        common_outcome(
            admission,
            (admission.backing.plane_offset - admission.layout.offset) as u64,
        )
    }
}

/// Where an image binds so that the driver's base subresource lands on the
/// guest's plane, or the first term that refuses.
pub fn plan_linear_window(
    layout: SubresourceLayout,
    requirements: MemoryRequirements,
    backing: GuestTargetBacking,
    guest_layout: GuestImageLayout,
    parent_memory_type: Option<u32>,
    requires_dedicated: bool,
    require_allocation_fit: bool,
) -> (plan: Result<WindowPlan, WindowRefusal>)
    ensures
        plan == window_outcome(
            (WindowAdmission {
                layout,
                requirements,
                backing,
                guest_layout,
                parent_memory_type,
                requires_dedicated,
                require_allocation_fit,
            }),
        ),
{
    if layout.offset > backing.plane_offset {
        return Err(
            WindowRefusal::SubresourceAfterPlane {
                plane_offset: backing.plane_offset,
                subresource_offset: layout.offset,
            },
        );
    }
    let bind_offset: u64 = backing.plane_offset - layout.offset;
    if requirements.alignment == 0 || bind_offset % requirements.alignment != 0 {
        return Err(WindowRefusal::BindOffsetMisaligned);
    }
    validate_common(
        WindowAdmission {
            layout,
            requirements,
            backing,
            guest_layout,
            parent_memory_type,
            requires_dedicated,
            require_allocation_fit,
        },
        bind_offset,
    )
}

/// Check every term that does not depend on how the binding offset was found.
pub fn validate_common(admission: WindowAdmission, bind_offset: u64) -> (plan: Result<
    WindowPlan,
    WindowRefusal,
>)
    ensures
        plan == common_outcome(admission, bind_offset),
{
    let WindowAdmission {
        layout,
        requirements,
        backing,
        guest_layout,
        parent_memory_type,
        requires_dedicated,
        require_allocation_fit,
    } = admission;
    if layout.row_pitch != backing.row_pitch {
        return Err(
            WindowRefusal::RowPitchMismatch {
                mip_level: 0,
                width: guest_layout.width(),
                guest: backing.row_pitch,
                host: layout.row_pitch,
            },
        );
    }
    if let Some(refusal) = check_pitches(layout, guest_layout) {
        return Err(refusal);
    }
    let required_end: u64 = match bind_offset.checked_add(requirements.size) {
        Some(end) => end,
        None => {
            return Err(WindowRefusal::BindingRangeOverflow);
        },
    };
    if requirements.alignment == 0 || (require_allocation_fit && required_end
        > backing.allocation_len) {
        return Err(
            WindowRefusal::AllocationTooShort {
                required_end,
                allocation_len: backing.allocation_len,
            },
        );
    }
    if let Some(parent) = parent_memory_type {
        if parent >= 32 || requirements.memory_type_bits & (1u32 << parent) == 0 {
            return Err(WindowRefusal::NoMemoryType);
        }
    }
    if requires_dedicated {
        return Err(WindowRefusal::DedicatedBindingRequired);
    }
    Ok(WindowPlan { bind_offset, required_allocation_len: required_end })
}

/// A window is admitted exactly when every term agrees; then the driver's base
/// subresource lands on the guest's plane, aligned, inside the allocation
/// where that is asked for.
pub proof fn law_admitted_window_lands_on_the_plane(admission: WindowAdmission)
    ensures
        window_outcome(admission) is Ok <==> {
            let bind = admission.backing.plane_offset - admission.layout.offset;
            let end = bind + admission.requirements.size;
            &&& bind >= 0
            &&& admission.requirements.alignment != 0
            &&& bind % admission.requirements.alignment as int == 0
            &&& admission.layout.row_pitch == admission.backing.row_pitch
            &&& admission.guest_layout.has_layers() ==> admission.layout.array_pitch
                == admission.guest_layout.array_pitch_spec()
            &&& admission.guest_layout.has_depth() ==> admission.layout.depth_pitch
                == admission.guest_layout.depth_pitch_spec()
            &&& end <= u64::MAX
            &&& admission.require_allocation_fit ==> end <= admission.backing.allocation_len
            &&& admission.parent_memory_type matches Some(parent) ==> type_serves(
                admission.requirements.memory_type_bits,
                parent,
            )
            &&& !admission.requires_dedicated
        },
        window_outcome(admission) matches Ok(plan) ==> {
            &&& plan.bind_offset + admission.layout.offset == admission.backing.plane_offset
            &&& plan.required_allocation_len == plan.bind_offset + admission.requirements.size
        },
{
}

/// How the offsets of an image's mip levels are counted.
#[derive(Clone, Copy, Debug, PartialEq, Eq, Structural)]
pub struct MipPlacement {
    /// Where the image is bound in the allocation.
    pub image_base: u64,
    /// Where the resource begins in the allocation.
    pub resource_base: u64,
    /// Where the image's plane begins in the allocation.
    pub plane_offset: u64,
    /// How the layout was chosen.
    pub mode: LayoutMode,
}

/// `value`, if it fits in 64 bits.
pub open spec fn in_u64(value: int) -> Option<u64> {
    if 0 <= value <= u64::MAX {
        Some(value as u64)
    } else {
        None
    }
}

impl MipPlacement {
    /// Where an offset in the image lies in the resource.
    pub open spec fn relative(self, host_offset: u64) -> Option<u64> {
        if self.image_base + host_offset > u64::MAX {
            None
        } else {
            in_u64(self.image_base + host_offset - self.resource_base)
        }
    }

    /// Where an offset in the image lies in the resource, unless it lies before
    /// it or past 64 bits.
    pub fn resource_relative(self, host_offset: u64) -> (offset: Option<u64>)
        ensures
            offset == self.relative(host_offset),
    {
        match self.image_base.checked_add(host_offset) {
            Some(offset) => offset.checked_sub(self.resource_base),
            None => None,
        }
    }
}

/// What one mip level refuses, if anything.
pub open spec fn mip_refusal(
    mip_level: u32,
    host: SubresourceLayout,
    guest: GuestImageMipLayout,
    placement: MipPlacement,
) -> Option<WindowRefusal> {
    match placement.relative(host.offset) {
        None => Some(WindowRefusal::BindingRangeOverflow),
        Some(host_offset) => if host_offset != guest.resource_relative_offset {
            Some(
                WindowRefusal::MipOffsetMismatch {
                    mip_level,
                    guest_offset: guest.resource_relative_offset,
                    host_offset,
                    image_base: placement.image_base,
                    resource_base: placement.resource_base,
                    plane_offset: placement.plane_offset,
                    mode: placement.mode,
                },
            )
        } else if host.row_pitch != guest.row_pitch {
            Some(
                WindowRefusal::RowPitchMismatch {
                    mip_level,
                    width: guest.layout.width_spec(),
                    guest: guest.row_pitch,
                    host: host.row_pitch,
                },
            )
        } else {
            pitch_refusal(host, guest.layout)
        },
    }
}

/// `Ok` unless something refuses.
pub open spec fn unless_refused(refusal: Option<WindowRefusal>) -> Result<(), WindowRefusal> {
    match refusal {
        Some(refusal) => Err(refusal),
        None => Ok(()),
    }
}

/// Whether the driver places one mip level where the guest has it.
pub fn validate_mip_subresource(
    mip_level: u32,
    host: SubresourceLayout,
    guest: GuestImageMipLayout,
    placement: MipPlacement,
) -> (verdict: Result<(), WindowRefusal>)
    ensures
        verdict == unless_refused(mip_refusal(mip_level, host, guest, placement)),
{
    let host_offset: u64 = match placement.resource_relative(host.offset) {
        Some(offset) => offset,
        None => {
            return Err(WindowRefusal::BindingRangeOverflow);
        },
    };
    if host_offset != guest.resource_relative_offset {
        return Err(
            WindowRefusal::MipOffsetMismatch {
                mip_level,
                guest_offset: guest.resource_relative_offset,
                host_offset,
                image_base: placement.image_base,
                resource_base: placement.resource_base,
                plane_offset: placement.plane_offset,
                mode: placement.mode,
            },
        );
    }
    if host.row_pitch != guest.row_pitch {
        return Err(
            WindowRefusal::RowPitchMismatch {
                mip_level,
                width: guest.layout.width(),
                guest: guest.row_pitch,
                host: host.row_pitch,
            },
        );
    }
    match check_pitches(host, guest.layout) {
        Some(refusal) => Err(refusal),
        None => Ok(()),
    }
}

/// A mip level that is admitted begins at the same byte of the allocation for
/// the guest and for the driver, counted from the resource and not from the
/// allocation.
pub proof fn law_admitted_mip_shares_its_first_byte(
    mip_level: u32,
    host: SubresourceLayout,
    guest: GuestImageMipLayout,
    placement: MipPlacement,
)
    requires
        mip_refusal(mip_level, host, guest, placement) is None,
    ensures
        placement.image_base + host.offset == placement.resource_base
            + guest.resource_relative_offset,
        host.row_pitch == guest.row_pitch,
{
}

/// The format features that `usage` needs.
pub open spec fn features_for(usage: u32) -> u32 {
    (if usage & USAGE_SAMPLED != 0 {
        FEATURE_SAMPLED_IMAGE
    } else {
        0u32
    }) | (if usage & (USAGE_COLOR_ATTACHMENT | USAGE_INPUT_ATTACHMENT) != 0 {
        FEATURE_COLOR_ATTACHMENT_AND_BLEND
    } else {
        0u32
    }) | (if usage & USAGE_TRANSFER_SRC != 0 {
        FEATURE_TRANSFER_SRC
    } else {
        0u32
    }) | (if usage & USAGE_TRANSFER_DST != 0 {
        FEATURE_TRANSFER_DST
    } else {
        0u32
    })
}

/// The format features that `usage` needs.
pub fn required_features(usage: u32) -> (features: u32)
    ensures
        features == features_for(usage),
{
    let sampled: u32 = if usage & USAGE_SAMPLED != 0 {
        FEATURE_SAMPLED_IMAGE
    } else {
        0
    };
    let attachment: u32 = if usage & (USAGE_COLOR_ATTACHMENT | USAGE_INPUT_ATTACHMENT) != 0 {
        FEATURE_COLOR_ATTACHMENT_AND_BLEND
    } else {
        0
    };
    let source: u32 = if usage & USAGE_TRANSFER_SRC != 0 {
        FEATURE_TRANSFER_SRC
    } else {
        0
    };
    let destination: u32 = if usage & USAGE_TRANSFER_DST != 0 {
        FEATURE_TRANSFER_DST
    } else {
        0
    };
    sampled | attachment | source | destination
}

/// What the driver says of one DRM modifier of a format.
#[derive(Clone, Copy, Debug, PartialEq, Eq, Structural)]
pub struct ModifierProperties {
    /// The modifier.
    pub modifier: u64,
    /// How many planes an image with it has.
    pub plane_count: u32,
    /// The format features it keeps.
    pub features: u32,
}

/// Whether an image of one linear plane with `usage` can have this modifier.
pub open spec fn modifier_serves(modifier: ModifierProperties, usage: u32) -> bool {
    &&& modifier.modifier == DRM_FORMAT_MOD_LINEAR
    &&& modifier.plane_count == 1
    &&& modifier.features & features_for(usage) == features_for(usage)
}

/// Whether the driver offers a linear modifier of one plane that `usage` can
/// have.
pub fn linear_modifier_usable(modifiers: &Vec<ModifierProperties>, usage: u32) -> (usable: bool)
    ensures
        usable == exists|k: int|
            0 <= k < modifiers@.len() && modifier_serves(#[trigger] modifiers@[k], usage),
{
    let required: u32 = required_features(usage);
    let mut k: usize = 0;
    while k < modifiers.len()
        invariant
            k <= modifiers@.len(),
            required == features_for(usage),
            forall|j: int| 0 <= j < k ==> !modifier_serves(#[trigger] modifiers@[j], usage),
        decreases modifiers@.len() - k,
    {
        let modifier: ModifierProperties = modifiers[k];
        if modifier.modifier == DRM_FORMAT_MOD_LINEAR && modifier.plane_count == 1
            && modifier.features & required == required {
            assert(modifier_serves(modifiers@[k as int], usage));
            return true;
        }
        k += 1;
    }
    false
}

/// What the driver's word on an explicit linear image means: `query` holds the
/// external memory features, or the error.
pub fn explicit_linear_answer(query: Result<u32, VkResult>) -> (answer: Result<
    bool,
    WindowRefusal,
>)
    ensures
        answer == match query {
            Err(error) => if error.0 == ERROR_FORMAT_NOT_SUPPORTED {
                Ok(false)
            } else {
                Err(WindowRefusal::ModifierQuery(error))
            },
            Ok(features) => Ok(
                features & EXTERNAL_IMPORTABLE != 0 && features & EXTERNAL_DEDICATED_ONLY == 0,
            ),
        },
{
    match query {
        Err(error) => if error.0 == ERROR_FORMAT_NOT_SUPPORTED {
            Ok(false)
        } else {
            Err(WindowRefusal::ModifierQuery(error))
        },
        Ok(features) => Ok(
            features & EXTERNAL_IMPORTABLE != 0 && features & EXTERNAL_DEDICATED_ONLY == 0,
        ),
    }
}

/// What the driver is asked about once: a format, a usage and an image type.
#[derive(Clone, Copy, Debug, PartialEq, Eq, Structural)]
pub struct SupportKey {
    /// The format.
    pub format: i32,
    /// The usage.
    pub usage: u32,
    /// The image type.
    pub image_type: ImageType,
}

/// The driver's answers on explicit linear images.
#[derive(Debug)]
pub struct ExplicitLinearSupport {
    answers: Vec<(SupportKey, bool)>,
}

/// The answer that `answers` holds for `key`; the first one counts.
pub open spec fn answer_for(answers: Seq<(SupportKey, bool)>, key: SupportKey) -> Option<bool>
    decreases answers.len(),
{
    if answers.len() == 0 {
        None
    } else if answers[0].0 == key {
        Some(answers[0].1)
    } else {
        answer_for(answers.drop_first(), key)
    }
}

impl View for ExplicitLinearSupport {
    type V = spec_fn(SupportKey) -> Option<bool>;

    closed spec fn view(&self) -> spec_fn(SupportKey) -> Option<bool> {
        |key: SupportKey| answer_for(self.answers@, key)
    }
}

proof fn lemma_answer_scan(answers: Seq<(SupportKey, bool)>, key: SupportKey, at: int)
    requires
        0 <= at < answers.len(),
        answers[at].0 == key,
        forall|j: int| 0 <= j < at ==> (#[trigger] answers[j]).0 != key,
    ensures
        answer_for(answers, key) == Some(answers[at].1),
    decreases answers.len(),
{
    if at > 0 {
        assert(answers[0].0 != key);
        assert forall|j: int| 0 <= j < at - 1 implies (
        #[trigger] answers.drop_first()[j]).0 != key by {
            assert(answers.drop_first()[j] == answers[j + 1]);
        }
        lemma_answer_scan(answers.drop_first(), key, at - 1);
    }
}

proof fn lemma_answer_absent(answers: Seq<(SupportKey, bool)>, key: SupportKey)
    requires
        forall|j: int| 0 <= j < answers.len() ==> (#[trigger] answers[j]).0 != key,
    ensures
        answer_for(answers, key) is None,
    decreases answers.len(),
{
    if answers.len() > 0 {
        assert(answers[0].0 != key);
        assert forall|j: int| 0 <= j < answers.len() - 1 implies (
        #[trigger] answers.drop_first()[j]).0 != key by {
            assert(answers.drop_first()[j] == answers[j + 1]);
        }
        lemma_answer_absent(answers.drop_first(), key);
    }
}

impl ExplicitLinearSupport {
    /// No answers yet.
    pub fn new() -> (support: ExplicitLinearSupport)
        ensures
            forall|key: SupportKey| (#[trigger] (support@)(key)) is None,
    {
        ExplicitLinearSupport { answers: Vec::new() }
    }

    /// The answer known for `key`: no without the device feature, else what the
    /// driver said. Nothing where the driver still has to be asked.
    pub fn explicit_linear_supported(&self, feature: bool, key: SupportKey) -> (answer: Option<
        bool,
    >)
        ensures
            answer == if feature {
                (self@)(key)
            } else {
                Some(false)
            },
    {
        if !feature {
            return Some(false);
        }
        let mut k: usize = 0;
        while k < self.answers.len()
            invariant
                feature,
                k <= self.answers@.len(),
                forall|j: int| 0 <= j < k ==> (#[trigger] self.answers@[j]).0 != key,
            decreases self.answers@.len() - k,
        {
            if self.answers[k].0 == key {
                proof {
                    lemma_answer_scan(self.answers@, key, k as int);
                }
                return Some(self.answers[k].1);
            }
            k += 1;
        }
        proof {
            lemma_answer_absent(self.answers@, key);
        }
        None
    }

    /// Keep the driver's answer on `key`.
    pub fn remember(&mut self, key: SupportKey, answer: bool)
        ensures
            forall|other: SupportKey| #[trigger]
                (final(self)@)(other) == if other == key {
                    Some(answer)
                } else {
                    (old(self)@)(other)
                },
    {
        let ghost before = self.answers@;
        self.answers.insert(0, (key, answer));
        proof {
            assert(self.answers@.drop_first() =~= before);
            assert forall|other: SupportKey| #[trigger]
                (self@)(other) == if other == key {
                    Some(answer)
                } else {
                    (old(self)@)(other)
                } by {
                assert(self.answers@[0].0 == key);
            }
        }
    }
}

/// The extent of an image.
#[derive(Clone, Copy, Debug, PartialEq, Eq, Structural)]
pub struct Extent3D {
    /// Texels per row.
    pub width: u32,
    /// Rows per plane.
    pub height: u32,
    /// Planes.
    pub depth: u32,
}

/// The shape of a Vulkan image.
#[derive(Clone, Copy, Debug, PartialEq, Eq, Structural)]
pub struct ImageGeometry {
    /// Its dimensionality.
    pub image_type: ImageType,
    /// Its extent.
    pub extent: Extent3D,
    /// Its layers.
    pub array_layers: u32,
}

/// The shape of the image that has the guest's dimensions.
pub open spec fn geometry_of(layout: GuestImageLayout) -> ImageGeometry {
    ImageGeometry {
        image_type: match layout {
            GuestImageLayout::D1 { .. } => ImageType::D1,
            GuestImageLayout::D1Array { .. } => ImageType::D1,
            GuestImageLayout::D2 { .. } => ImageType::D2,
            GuestImageLayout::D2Array { .. } => ImageType::D2,
            GuestImageLayout::D3 { .. } => ImageType::D3,
        },
        extent: Extent3D {
            width: layout.width_spec(),
            height: layout.height_spec(),
            depth: layout.depth_spec(),
        },
        array_layers: layout.layers_spec(),
    }
}

/// The shape of the image that has the guest's dimensions.
pub fn image_geometry(layout: GuestImageLayout) -> (geometry: ImageGeometry)
    ensures
        geometry == geometry_of(layout),
{
    ImageGeometry {
        image_type: match layout {
            GuestImageLayout::D1 { .. } => ImageType::D1,
            GuestImageLayout::D1Array { .. } => ImageType::D1,
            GuestImageLayout::D2 { .. } => ImageType::D2,
            GuestImageLayout::D2Array { .. } => ImageType::D2,
            GuestImageLayout::D3 { .. } => ImageType::D3,
        },
        extent: Extent3D {
            width: layout.width(),
            height: layout.height(),
            depth: layout.depth(),
        },
        array_layers: layout.array_layers(),
    }
}

/// What makes two declined explicit layouts the same contract.
#[derive(Debug, PartialEq, Eq)]
pub struct ExplicitDeclineKey {
    /// The name of the refusal.
    pub slug: &'static str,
    /// Where the resource begins in its allocation.
    pub resource_offset: u64,
    /// The length of the resource.
    pub resource_len: u64,
    /// Where the plane begins.
    pub plane_offset: u64,
    /// Bytes from one row to the next.
    pub row_pitch: u64,
    /// The mip levels.
    pub mips: Vec<GuestImageMipLayout>,
    /// The format.
    pub format: i32,
    /// The image type.
    pub image_type: ImageType,
    /// The usage.
    pub usage: u32,
}

/// The key under which a declined explicit layout is reported once. The
/// allocation is no part of it: equal layouts in two allocations are one
/// contract.
pub fn explicit_linear_decline_key(
    decline: &WindowRefusal,
    backing: GuestTargetBacking,
    allocation_layout: &GuestImageAllocationLayout,
    format: Format,
    image_type: ImageType,
    usage: u32,
) -> (key: ExplicitDeclineKey)
    ensures
        key.slug@ == decline.slug_text(),
        key.resource_offset == backing.resource_offset,
        key.resource_len == backing.resource_len,
        key.plane_offset == backing.plane_offset,
        key.row_pitch == backing.row_pitch,
        key.mips@ == allocation_layout.mips@,
        key.format == format.0,
        key.image_type == image_type,
        key.usage == usage,
{
    let mut mips: Vec<GuestImageMipLayout> = Vec::new();
    let mut k: usize = 0;
    while k < allocation_layout.mips.len()
        invariant
            k <= allocation_layout.mips@.len(),
            mips@ == allocation_layout.mips@.take(k as int),
        decreases allocation_layout.mips@.len() - k,
    {
        mips.push(allocation_layout.mips[k]);
        k += 1;
        assert(mips@ =~= allocation_layout.mips@.take(k as int));
    }
    assert(mips@ =~= allocation_layout.mips@);
    ExplicitDeclineKey {
        slug: decline.slug(),
        resource_offset: backing.resource_offset,
        resource_len: backing.resource_len,
        plane_offset: backing.plane_offset,
        row_pitch: backing.row_pitch,
        mips,
        format: format.0,
        image_type,
        usage,
    }
}

/// The line for a format that has no explicit linear layout.
pub open spec fn unavailable_text(format: Format, image_type: ImageType, usage: u32) -> Seq<char> {
    "sampled_guest_image_explicit_unavailable format="@ + signed_decimal(format.0 as int)
        + " image_type="@ + decimal(image_type.raw_value()) + " usage="@ + hexadecimal(usage as nat)
}

/// The line for a format that has no explicit linear layout.
pub fn note_explicit_linear_unavailable(format: Format, image_type: ImageType, usage: u32) -> (line:
    String)
    ensures
        line@ == unavailable_text(format, image_type, usage),
{
    let mut line = owned("sampled_guest_image_explicit_unavailable format=");
    append_signed(&mut line, format.0 as i64);
    append_text(&mut line, " image_type=");
    append_decimal(&mut line, image_type.as_raw() as u64);
    append_text(&mut line, " usage=");
    append_hexadecimal(&mut line, usage as u64);
    line
}

/// How the memory of an image is laid out when it is created.
#[derive(Clone, Copy, Debug, PartialEq, Eq, Structural)]
pub enum Tiling {
    /// By the driver, linearly.
    Linear,
    /// As told, with the linear modifier.
    Explicit(SubresourceLayout),
}

/// The image that is asked of the driver.
#[derive(Debug, PartialEq, Eq)]
pub struct ImageRequest {
    /// The format.
    pub format: Format,
    /// The shape.
    pub geometry: ImageGeometry,
    /// The number of mip levels.
    pub mip_levels: u32,
    /// The usage.
    pub usage: u32,
    /// The formats that views may have.
    pub view_formats: Vec<Format>,
    /// The memory layout.
    pub tiling: Tiling,
    /// How the layout was chosen.
    pub mode: LayoutMode,
    /// Where the base mip begins in the allocation.
    pub base_plane: u64,
    /// The row pitch of the base mip.
    pub row_pitch: u64,
}

/// The layout that is dictated to the driver: the base mip where the guest has
/// it.
pub open spec fn dictated_layout(base: GuestImageMipLayout, base_plane: u64) -> SubresourceLayout {
    SubresourceLayout {
        offset: base_plane,
        size: 0,
        row_pitch: base.row_pitch,
        array_pitch: base.layout.array_pitch_spec(),
        depth_pitch: base.layout.depth_pitch_spec(),
    }
}

/// The image to ask the driver for. `base_plane` is where the base mip begins
/// in the allocation, if it lies in it.
pub fn image_request(
    allocation_layout: &GuestImageAllocationLayout,
    base_plane: Option<u64>,
    format: Format,
    usage: u32,
    mode: LayoutMode,
) -> (request: Result<ImageRequest, WindowRefusal>)
    ensures
        match request {
            Err(refusal) => refusal is ResourceWindowTooShort && (allocation_layout.mips@.len() == 0
                || base_plane is None || allocation_layout.mips@.len() > u32::MAX),
            Ok(request) => {
                let base = allocation_layout.mips@[0];
                &&& 0 < allocation_layout.mips@.len() <= u32::MAX
                &&& base_plane == Some(request.base_plane)
                &&& request.format == format
                &&& request.geometry == geometry_of(base.layout)
                &&& request.mip_levels == allocation_layout.mips@.len()
                &&& request.usage == usage
                &&& request.view_formats@ == view_family(format)
                &&& request.mode == mode
                &&& request.row_pitch == base.row_pitch
                &&& request.tiling == match mode {
                    LayoutMode::DriverLinear => Tiling::Linear,
                    LayoutMode::ExplicitLinear => Tiling::Explicit(
                        dictated_layout(base, request.base_plane),
                    ),
                }
            },
        },
{
    if allocation_layout.mips.len() == 0 {
        return Err(WindowRefusal::ResourceWindowTooShort);
    }
    let base: GuestImageMipLayout = allocation_layout.mips[0];
    let base_plane: u64 = match base_plane {
        Some(offset) => offset,
        None => {
            return Err(WindowRefusal::ResourceWindowTooShort);
        },
    };
    if allocation_layout.mips.len() > u32::MAX as usize {
        return Err(WindowRefusal::ResourceWindowTooShort);
    }
    let tiling = match mode {
        LayoutMode::DriverLinear => Tiling::Linear,
        LayoutMode::ExplicitLinear => Tiling::Explicit(
            SubresourceLayout {
                offset: base_plane,
                size: 0,
                row_pitch: base.row_pitch,
                array_pitch: base.layout.array_pitch(),
                depth_pitch: base.layout.depth_pitch(),
            },
        ),
    };
    Ok(
        ImageRequest {
            format,
            geometry: image_geometry(base.layout),
            mip_levels: allocation_layout.mips.len() as u32,
            usage,
            view_formats: mutable_view_formats(format),
            tiling,
            mode,
            base_plane,
            row_pitch: base.row_pitch,
        },
    )
}

/// The refusal that a failed creation of `request` becomes.
pub fn creation_refusal(request: &ImageRequest, result: VkResult) -> (refusal: WindowRefusal)
    ensures
        refusal == (WindowRefusal::CreateImage {
            result,
            mode: request.mode,
            format: request.format,
            image_type: request.geometry.image_type,
            width: request.geometry.extent.width,
            height: request.geometry.extent.height,
            depth: request.geometry.extent.depth,
            mip_levels: request.mip_levels,
            array_layers: request.geometry.array_layers,
            plane_offset: request.base_plane,
            row_pitch: request.row_pitch,
        }),
{
    WindowRefusal::CreateImage {
        result,
        mode: request.mode,
        format: request.format,
        image_type: request.geometry.image_type,
        width: request.geometry.extent.width,
        height: request.geometry.extent.height,
        depth: request.geometry.extent.depth,
        mip_levels: request.mip_levels,
        array_layers: request.geometry.array_layers,
        plane_offset: request.base_plane,
        row_pitch: request.row_pitch,
    }
}

/// The refusal of the first mip level, from `from` on, that is not where the
/// guest has it.
pub open spec fn first_mip_refusal(
    mips: Seq<GuestImageMipLayout>,
    hosts: Seq<SubresourceLayout>,
    placement: MipPlacement,
    from: int,
) -> Option<WindowRefusal>
    decreases mips.len() - from,
{
    if from < 0 || from >= mips.len() {
        None
    } else if mip_refusal(from as u32, hosts[from], mips[from], placement) is Some {
        mip_refusal(from as u32, hosts[from], mips[from], placement)
    } else {
        first_mip_refusal(mips, hosts, placement, from + 1)
    }
}

/// Where the mip levels of an image bound at `bind_offset` are counted from.
pub open spec fn placement_at(
    bind_offset: u64,
    backing: GuestTargetBacking,
    mode: LayoutMode,
) -> MipPlacement {
    MipPlacement {
        image_base: bind_offset,
        resource_base: backing.resource_offset,
        plane_offset: backing.plane_offset,
        mode,
    }
}

/// What planning a created image comes to: the window of its base mip first, then
/// every mip level in order.
pub open spec fn image_outcome(
    created: CreatedImage,
    mips: Seq<GuestImageMipLayout>,
    hosts: Seq<SubresourceLayout>,
    mode: LayoutMode,
) -> Result<WindowPlan, WindowRefusal> {
    match window_outcome(created.admission(hosts[0], mips[0].layout)) {
        Err(refusal) => Err(refusal),
        Ok(plan) => match first_mip_refusal(
            mips,
            hosts,
            placement_at(plan.bind_offset, created.backing, mode),
            0,
        ) {
            Some(refusal) => Err(refusal),
            None => Ok(plan),
        },
    }
}

/// Where a created image binds, once the driver's layout of each of its mip levels
/// is known, the base mip first. An image that is refused has to be destroyed.
pub fn plan_image_with_layout(
    created: CreatedImage,
    allocation_layout: &GuestImageAllocationLayout,
    hosts: &Vec<SubresourceLayout>,
    mode: LayoutMode,
) -> (plan: Result<WindowPlan, WindowRefusal>)
    requires
        hosts@.len() == allocation_layout.mips@.len(),
        0 < allocation_layout.mips@.len() <= u32::MAX,
    ensures
        plan == image_outcome(created, allocation_layout.mips@, hosts@, mode),
{
    let window = plan_linear_window(
        hosts[0],
        created.requirements,
        created.backing,
        allocation_layout.mips[0].layout,
        created.parent_memory_type,
        created.requires_dedicated,
        created.require_allocation_fit,
    );
    let plan: WindowPlan = match window {
        Ok(plan) => plan,
        Err(refusal) => {
            return Err(refusal);
        },
    };
    let placement = MipPlacement {
        image_base: plan.bind_offset,
        resource_base: created.backing.resource_offset,
        plane_offset: created.backing.plane_offset,
        mode,
    };
    let mut k: usize = 0;
    while k < allocation_layout.mips.len()
        invariant
            k <= allocation_layout.mips@.len(),
            hosts@.len() == allocation_layout.mips@.len(),
            allocation_layout.mips@.len() <= u32::MAX,
            window_outcome(created.admission(hosts@[0], allocation_layout.mips@[0].layout))
                == Ok::<WindowPlan, WindowRefusal>(plan),
            placement == placement_at(plan.bind_offset, created.backing, mode),
            first_mip_refusal(allocation_layout.mips@, hosts@, placement, 0)
                == first_mip_refusal(allocation_layout.mips@, hosts@, placement, k as int),
        decreases allocation_layout.mips@.len() - k,
    {
        let verdict = validate_mip_subresource(
            k as u32,
            hosts[k],
            allocation_layout.mips[k],
            placement,
        );
        if let Err(refusal) = verdict {
            return Err(refusal);
        }
        k += 1;
    }
    Ok(plan)
}

/// Every mip level of an image that is planned is where the guest has it.
pub proof fn law_planned_image_agrees_on_every_mip(
    created: CreatedImage,
    mips: Seq<GuestImageMipLayout>,
    hosts: Seq<SubresourceLayout>,
    mode: LayoutMode,
    level: int,
)
    requires
        hosts.len() == mips.len(),
        0 <= level < mips.len() <= u32::MAX,
        image_outcome(created, mips, hosts, mode) is Ok,
    ensures
        ({
            let plan = image_outcome(created, mips, hosts, mode)->Ok_0;
            plan.bind_offset + hosts[level].offset == created.backing.resource_offset
                + mips[level].resource_relative_offset
        }),
        hosts[level].row_pitch == mips[level].row_pitch,
{
    let plan = image_outcome(created, mips, hosts, mode)->Ok_0;
    let placement = placement_at(plan.bind_offset, created.backing, mode);
    lemma_no_mip_refuses(mips, hosts, placement, 0, level);
    law_admitted_mip_shares_its_first_byte(level as u32, hosts[level], mips[level], placement);
}

proof fn lemma_no_mip_refuses(
    mips: Seq<GuestImageMipLayout>,
    hosts: Seq<SubresourceLayout>,
    placement: MipPlacement,
    from: int,
    level: int,
)
    requires
        0 <= from <= level < mips.len(),
        first_mip_refusal(mips, hosts, placement, from) is None,
    ensures
        mip_refusal(level as u32, hosts[level], mips[level], placement) is None,
    decreases mips.len() - from,
{
    if from < level {
        lemma_no_mip_refuses(mips, hosts, placement, from + 1, level);
    }
}

/// What is known of an allocation before it is imported.
#[derive(Clone, Copy, Debug, PartialEq, Eq, Structural)]
pub struct AllocationFacts {
    /// Whether the device can import host memory.
    pub host_import: bool,
    /// The host address of the import.
    pub import_base: u64,
    /// The length of the import.
    pub import_len: u64,
    /// The alignment that imports need.
    pub import_alignment: u64,
    /// The size of a texel, if the format has one.
    pub bytes_per_texel: Option<u64>,
    /// Whether the mip levels form a chain that Vulkan knows.
    pub vulkan_mip_chain: bool,
}

/// What an allocation refuses before it is imported, if anything. `visible` says
/// of each mip level whether it lies in the resource.
pub open spec fn allocation_refusal(
    facts: AllocationFacts,
    backing: GuestTargetBacking,
    visible: Seq<bool>,
) -> Option<WindowRefusal> {
    if !facts.host_import {
        Some(WindowRefusal::HostImportUnavailable)
    } else if facts.import_base != backing.allocation_host_ptr || facts.import_len
        != backing.allocation_len {
        Some(WindowRefusal::ParentAllocationMismatch)
    } else if facts.import_alignment == 0 || backing.allocation_host_ptr as int
        % facts.import_alignment as int != 0 || backing.allocation_len as int
        % facts.import_alignment as int != 0 {
        Some(WindowRefusal::HostPointerMisaligned)
    } else if facts.bytes_per_texel is None || !facts.vulkan_mip_chain || visible.contains(false) {
        Some(WindowRefusal::ResourceWindowTooShort)
    } else {
        None
    }
}

/// Whether an image of the allocation may be created at all. `visible` says of
/// each mip level whether it lies in the resource.
pub fn admit_allocation(facts: AllocationFacts, backing: GuestTargetBacking, visible: &[bool]) -> (verdict:
    Result<(), WindowRefusal>)
    ensures
        verdict == unless_refused(allocation_refusal(facts, backing, visible@)),
{
    if !facts.host_import {
        return Err(WindowRefusal::HostImportUnavailable);
    }
    if facts.import_base != backing.allocation_host_ptr || facts.import_len
        != backing.allocation_len {
        return Err(WindowRefusal::ParentAllocationMismatch);
    }
    if facts.import_alignment == 0 || backing.allocation_host_ptr % facts.import_alignment != 0
        || backing.allocation_len % facts.import_alignment != 0 {
        return Err(WindowRefusal::HostPointerMisaligned);
    }
    if facts.bytes_per_texel.is_none() || !facts.vulkan_mip_chain {
        return Err(WindowRefusal::ResourceWindowTooShort);
    }
    let mut level: usize = 0;
    while level < visible.len()
        invariant
            level <= visible@.len(),
            !visible@.take(level as int).contains(false),
            allocation_refusal(facts, backing, visible@) == if visible@.contains(false) {
                Some(WindowRefusal::ResourceWindowTooShort)
            } else {
                None
            },
        decreases visible@.len() - level,
    {
        if !visible[level] {
            assert(visible@[level as int] == false);
            return Err(WindowRefusal::ResourceWindowTooShort);
        }
        proof {
            assert forall|i: int| 0 <= i < level + 1 implies #[trigger] visible@.take(
                level + 1,
            )[i] by {
                if i < level {
                    assert(visible@.take(level as int)[i] == visible@[i]);
                    assert(visible@.take(level as int).contains(visible@[i]));
                }
            }
        }
        level += 1;
    }
    assert(visible@.take(level as int) =~= visible@);
    Ok(())
}

/// The layout of a single plane that lies in its resource.
pub fn single_plane_layout(backing: GuestTargetBacking, layout: GuestImageLayout) -> (single:
    Result<GuestImageAllocationLayout, WindowRefusal>)
    ensures
        match single {
            Ok(single) => backing.resource_offset <= backing.plane_offset && single.mips@ == seq![
                (GuestImageMipLayout {
                    resource_relative_offset: (backing.plane_offset
                        - backing.resource_offset) as u64,
                    row_pitch: backing.row_pitch,
                    layout,
                }),
            ],
            Err(refusal) => refusal is ResourceWindowTooShort && backing.resource_offset
                > backing.plane_offset,
        },
{
    if backing.resource_offset > backing.plane_offset {
        return Err(WindowRefusal::ResourceWindowTooShort);
    }
    Ok(
        GuestImageAllocationLayout::single(
            backing.plane_offset - backing.resource_offset,
            backing.row_pitch,
            layout,
        ),
    )
}

/// The usage of an image of the allocation: a colour attachment may also be
/// read while it is written, where the device has that.
pub fn attachment_usage(usage: u32, feedback_loop: bool) -> (effective: u32)
    ensures
        effective == if feedback_loop && usage & USAGE_COLOR_ATTACHMENT != 0 {
            usage | USAGE_ATTACHMENT_FEEDBACK_LOOP
        } else {
            usage
        },
{
    if feedback_loop && usage & USAGE_COLOR_ATTACHMENT != 0 {
        usage | USAGE_ATTACHMENT_FEEDBACK_LOOP
    } else {
        usage
    }
}

/// Where the creation of an image of an imported allocation stands.
#[derive(Debug)]
pub enum CreateAllocation {
    /// Ask whether the driver takes an explicit linear layout for images of this
    /// type.
    AskExplicit {
        /// The type.
        image_type: ImageType,
    },
    /// Try to create the image in this mode. The refusal of an explicit layout,
    /// if there was one, is to be reported.
    Attempt {
        /// How the layout is chosen.
        mode: LayoutMode,
        /// Why the dictated layout was declined.
        declined: Option<WindowRefusal>,
    },
    /// The image exists, and its parent is to be retained for it.
    Created {
        /// The image.
        image: Image,
        /// The parent.
        retain: ImportId,
    },
    /// There is no image.
    Refused(WindowRefusal),
}

impl CreateAllocation {
    /// The parent that the step retains.
    pub open spec fn retains(self) -> Option<ImportId> {
        match self {
            CreateAllocation::Created { retain, .. } => Some(retain),
            _ => None,
        }
    }
}

/// How the creation begins.
pub open spec fn allocation_begun(
    admitted: Result<(), WindowRefusal>,
    parent: Result<ImportId, Decline>,
    mips: Seq<GuestImageMipLayout>,
) -> CreateAllocation {
    match (admitted, parent) {
        (Err(refusal), _) => CreateAllocation::Refused(refusal),
        (Ok(_), Err(decline)) => CreateAllocation::Refused(WindowRefusal::ParentImport(decline)),
        (Ok(_), Ok(_)) => if mips.len() == 0 {
            CreateAllocation::Refused(WindowRefusal::ResourceWindowTooShort)
        } else {
            CreateAllocation::AskExplicit { image_type: geometry_of(mips[0].layout).image_type }
        },
    }
}

/// Begin: the import of the parent decides, and then the driver's word on
/// explicit layouts.
pub fn create_allocation(
    admitted: Result<(), WindowRefusal>,
    parent: Result<ImportId, Decline>,
    allocation_layout: &GuestImageAllocationLayout,
) -> (step: CreateAllocation)
    ensures
        step == allocation_begun(admitted, parent, allocation_layout.mips@),
{
    if let Err(refusal) = admitted {
        return CreateAllocation::Refused(refusal);
    }
    if let Err(decline) = parent {
        return CreateAllocation::Refused(WindowRefusal::ParentImport(decline));
    }
    if allocation_layout.mips.len() == 0 {
        return CreateAllocation::Refused(WindowRefusal::ResourceWindowTooShort);
    }
    CreateAllocation::AskExplicit {
        image_type: image_geometry(allocation_layout.mips[0].layout).image_type,
    }
}

/// The layout that is tried first: the explicit one where the driver has it.
pub open spec fn first_mode(explicit: bool) -> LayoutMode {
    if explicit {
        LayoutMode::ExplicitLinear
    } else {
        LayoutMode::DriverLinear
    }
}

/// How the creation goes on once the driver answered.
pub open spec fn allocation_answered(explicit: Result<bool, WindowRefusal>) -> CreateAllocation {
    match explicit {
        Err(refusal) => CreateAllocation::Refused(refusal),
        Ok(explicit) => CreateAllocation::Attempt { mode: first_mode(explicit), declined: None },
    }
}

/// Go on once the driver answered whether it takes an explicit layout.
pub fn after_answer(explicit: Result<bool, WindowRefusal>) -> (step: CreateAllocation)
    ensures
        step == allocation_answered(explicit),
{
    match explicit {
        Err(refusal) => CreateAllocation::Refused(refusal),
        Ok(explicit) => CreateAllocation::Attempt {
            mode: if explicit {
                LayoutMode::ExplicitLinear
            } else {
                LayoutMode::DriverLinear
            },
            declined: None,
        },
    }
}

/// How the creation goes on after an attempt.
pub open spec fn allocation_attempted(
    parent: ImportId,
    mode: LayoutMode,
    attempt: Result<Image, WindowRefusal>,
) -> CreateAllocation {
    match attempt {
        Ok(image) => CreateAllocation::Created { image, retain: parent },
        Err(refusal) => match mode {
            LayoutMode::ExplicitLinear => CreateAllocation::Attempt {
                mode: LayoutMode::DriverLinear,
                declined: Some(refusal),
            },
            LayoutMode::DriverLinear => CreateAllocation::Refused(refusal),
        },
    }
}

/// Go on after an attempt: a declined explicit layout falls back to the
/// driver's, whose own refusal is final. An image retains its parent.
pub fn after_attempt(
    parent: ImportId,
    mode: LayoutMode,
    attempt: Result<Image, WindowRefusal>,
) -> (step: CreateAllocation)
    ensures
        step == allocation_attempted(parent, mode, attempt),
{
    match attempt {
        Ok(image) => CreateAllocation::Created { image, retain: parent },
        Err(refusal) => match mode {
            LayoutMode::ExplicitLinear => CreateAllocation::Attempt {
                mode: LayoutMode::DriverLinear,
                declined: Some(refusal),
            },
            LayoutMode::DriverLinear => CreateAllocation::Refused(refusal),
        },
    }
}

/// What a creation comes to: its last step, and how often its steps retained the
/// parent. `first` and `second` are what the attempts come to that are made.
pub open spec fn allocation_run(
    begun: CreateAllocation,
    parent: ImportId,
    explicit: Result<bool, WindowRefusal>,
    first: Result<Image, WindowRefusal>,
    second: Result<Image, WindowRefusal>,
) -> (CreateAllocation, nat) {
    let asked = if begun is AskExplicit {
        allocation_answered(explicit)
    } else {
        begun
    };
    let once = match asked {
        CreateAllocation::Attempt { mode, .. } => allocation_attempted(parent, mode, first),
        other => other,
    };
    let twice = match once {
        CreateAllocation::Attempt { mode, .. } => allocation_attempted(parent, mode, second),
        other => other,
    };
    let retained = |step: CreateAllocation| if step.retains() is Some { 1nat } else { 0nat };
    (
        twice,
        retained(begun) + (if begun is AskExplicit { retained(asked) } else { 0nat })
            + (if asked is Attempt { retained(once) } else { 0nat })
            + (if once is Attempt { retained(twice) } else { 0nat }),
    )
}

/// A creation ends after two attempts at most. It retains the parent exactly
/// once where there is an image and never where there is none, and there is an
/// image only over an import that is the guest's whole allocation, at an
/// alignment that imports need.
pub proof fn law_an_image_retains_its_parent_once(
    facts: AllocationFacts,
    backing: GuestTargetBacking,
    visible: Seq<bool>,
    imported: Result<ImportId, Decline>,
    mips: Seq<GuestImageMipLayout>,
    parent: ImportId,
    explicit: Result<bool, WindowRefusal>,
    first: Result<Image, WindowRefusal>,
    second: Result<Image, WindowRefusal>,
)
    ensures
        ({
            let begun = allocation_begun(
                unless_refused(allocation_refusal(facts, backing, visible)),
                imported,
                mips,
            );
            let (last, retained) = allocation_run(begun, parent, explicit, first, second);
            &&& last is Created || last is Refused
            &&& retained == if last is Created {
                1nat
            } else {
                0nat
            }
            &&& last is Created ==> {
                &&& last.retains() == Some(parent)
                &&& imported is Ok
                &&& facts.host_import
                &&& facts.import_base == backing.allocation_host_ptr
                &&& facts.import_len == backing.allocation_len
                &&& facts.import_alignment != 0
                &&& facts.import_base as int % facts.import_alignment as int == 0
                &&& facts.import_len as int % facts.import_alignment as int == 0
                &&& !visible.contains(false)
            }
        }),
{
}

/// What an attempt comes to once the planned image was bound. An image that
/// was not bound has to be destroyed.
pub fn create_with_layout(image: Image, bound: Result<(), VkResult>) -> (attempt: Result<
    Image,
    WindowRefusal,
>)
    ensures
        attempt == match bound {
            Ok(_) => Ok(image),
            Err(result) => Err(WindowRefusal::BindImage(result)),
        },
{
    match bound {
        Ok(()) => Ok(image),
        Err(result) => Err(WindowRefusal::BindImage(result)),
    }
}

/// What decides the length of the allocation that an alias would need.
#[derive(Debug)]
pub enum BindingLen {
    /// Ask whether the driver takes an explicit linear layout for images of this
    /// type.
    AskExplicit {
        /// The type.
        image_type: ImageType,
    },
    /// Plan an image in this mode and destroy it again.
    Plan {
        /// How the layout is chosen.
        mode: LayoutMode,
    },
    /// The length, or why there is none.
    Known(Result<u64, WindowRefusal>),
}

/// Begin: whether the sampled content can be aliased at all.
pub fn binding_allocation_len(
    host_import: bool,
    bytes_per_texel: Option<u64>,
    vulkan_mip_chain: bool,
    allocation_layout: &GuestImageAllocationLayout,
) -> (step: BindingLen)
    ensures
        step == binding_start(
            host_import,
            bytes_per_texel,
            vulkan_mip_chain,
            allocation_layout.mips@,
        ),
{
    if !host_import {
        return BindingLen::Known(Err(WindowRefusal::HostImportUnavailable));
    }
    if bytes_per_texel.is_none() {
        return BindingLen::Known(Err(WindowRefusal::ResourceWindowTooShort));
    }
    if !vulkan_mip_chain {
        return BindingLen::Known(
            Err(
                WindowRefusal::SampledContentRequiresCopy(
                    SampledCopyCause::IrregularMipChain { mips: allocation_layout.mips.len() },
                ),
            ),
        );
    }
    if allocation_layout.mips.len() == 0 {
        return BindingLen::Known(Err(WindowRefusal::ResourceWindowTooShort));
    }
    if let Some(cause) = SampledCopyCause::of_allocation(allocation_layout.mips[0].layout) {
        return BindingLen::Known(Err(WindowRefusal::SampledContentRequiresCopy(cause)));
    }
    BindingLen::AskExplicit {
        image_type: image_geometry(allocation_layout.mips[0].layout).image_type,
    }
}

/// How the search for the length begins.
pub open spec fn binding_start(
    host_import: bool,
    bytes_per_texel: Option<u64>,
    vulkan_mip_chain: bool,
    mips: Seq<GuestImageMipLayout>,
) -> BindingLen {
    if !host_import {
        BindingLen::Known(Err(WindowRefusal::HostImportUnavailable))
    } else if bytes_per_texel is None {
        BindingLen::Known(Err(WindowRefusal::ResourceWindowTooShort))
    } else if !vulkan_mip_chain {
        BindingLen::Known(
            Err(
                WindowRefusal::SampledContentRequiresCopy(
                    SampledCopyCause::IrregularMipChain { mips: mips.len() as usize },
                ),
            ),
        )
    } else if mips.len() == 0 {
        BindingLen::Known(Err(WindowRefusal::ResourceWindowTooShort))
    } else if !(mips[0].layout is D2) {
        BindingLen::Known(
            Err(
                WindowRefusal::SampledContentRequiresCopy(
                    SampledCopyCause::Layout(mips[0].layout),
                ),
            ),
        )
    } else {
        BindingLen::AskExplicit { image_type: geometry_of(mips[0].layout).image_type }
    }
}

/// Go on once the driver answered: the layout that creation would try first is
/// planned first.
pub fn binding_layout(explicit: Result<bool, WindowRefusal>) -> (step: BindingLen)
    ensures
        step == match explicit {
            Err(refusal) => BindingLen::Known(Err(refusal)),
            Ok(explicit) => BindingLen::Plan { mode: first_mode(explicit) },
        },
{
    match explicit {
        Err(refusal) => BindingLen::Known(Err(refusal)),
        Ok(explicit) => BindingLen::Plan {
            mode: if explicit {
                LayoutMode::ExplicitLinear
            } else {
                LayoutMode::DriverLinear
            },
        },
    }
}

/// The length that a plan without an explicit layout gives.
pub fn driver_binding_len(driver: Result<WindowPlan, WindowRefusal>) -> (len: Result<
    u64,
    WindowRefusal,
>)
    ensures
        len == match driver {
            Ok(plan) => Ok(plan.required_allocation_len),
            Err(refusal) => Err(refusal),
        },
{
    match driver {
        Ok(plan) => Ok(plan.required_allocation_len),
        Err(refusal) => Err(refusal),
    }
}

/// The length when the explicit layout was planned first and declined: the
/// driver's layout may still give one, and where it does not the explicit
/// refusal is the one told.
pub fn fallback_binding_len(
    explicit_refusal: WindowRefusal,
    driver: Result<WindowPlan, WindowRefusal>,
) -> (len: Result<u64, WindowRefusal>)
    ensures
        len == match driver {
            Ok(plan) => Ok(plan.required_allocation_len),
            Err(_) => Err(explicit_refusal),
        },
{
    match driver {
        Ok(plan) => Ok(plan.required_allocation_len),
        Err(_) => Err(explicit_refusal),
    }
}

/// An image has the guest's own dimensions: rows stay rows, planes of a volume
/// are depth, layers are layers, and what a shape lacks it has once.
pub proof fn law_an_image_has_the_guests_dimensions(
    width: u32,
    height: u32,
    depth: u32,
    layers: u32,
    pitch: u64,
)
    ensures
        geometry_of(GuestImageLayout::D1 { width }) == (ImageGeometry {
            image_type: ImageType::D1,
            extent: Extent3D { width, height: 1, depth: 1 },
            array_layers: 1,
        }),
        geometry_of(GuestImageLayout::D1Array { width, layers, array_pitch: pitch }) == (
        ImageGeometry {
            image_type: ImageType::D1,
            extent: Extent3D { width, height: 1, depth: 1 },
            array_layers: layers,
        }),
        geometry_of(GuestImageLayout::D2 { width, height }) == (ImageGeometry {
            image_type: ImageType::D2,
            extent: Extent3D { width, height, depth: 1 },
            array_layers: 1,
        }),
        geometry_of(GuestImageLayout::D2Array { width, height, layers, array_pitch: pitch }) == (
        ImageGeometry {
            image_type: ImageType::D2,
            extent: Extent3D { width, height, depth: 1 },
            array_layers: layers,
        }),
        geometry_of(GuestImageLayout::D3 { width, height, depth, depth_pitch: pitch }) == (
        ImageGeometry {
            image_type: ImageType::D3,
            extent: Extent3D { width, height, depth },
            array_layers: 1,
        }),
{
}

/// Each accessor of a layout tells of the image that the layout describes, and
/// only an array has an array pitch and only a volume a depth pitch.
pub proof fn law_a_layout_tells_of_its_image(layout: GuestImageLayout)
    ensures
        ({
            let image = geometry_of(layout);
            &&& layout.width_spec() == image.extent.width
            &&& layout.height_spec() == image.extent.height
            &&& layout.depth_spec() == image.extent.depth
            &&& layout.layers_spec() == image.array_layers
            &&& layout.has_layers() <==> image.array_layers > 1
            &&& layout.has_depth() <==> image.extent.depth > 1
        }),
        match layout {
            GuestImageLayout::D1Array { array_pitch, .. } => layout.array_pitch_spec()
                == array_pitch && layout.depth_pitch_spec() == 0,
            GuestImageLayout::D2Array { array_pitch, .. } => layout.array_pitch_spec()
                == array_pitch && layout.depth_pitch_spec() == 0,
            GuestImageLayout::D3 { depth_pitch, .. } => layout.array_pitch_spec() == 0
                && layout.depth_pitch_spec() == depth_pitch,
            _ => layout.array_pitch_spec() == 0 && layout.depth_pitch_spec() == 0,
        },
{
}

/// The number of an image type is one less than the number of its dimensions.
pub proof fn law_image_types_count_dimensions()
    ensures
        ImageType::D1.raw_value() + 1 == 1,
        ImageType::D2.raw_value() + 1 == 2,
        ImageType::D3.raw_value() + 1 == 3,
{
}

/// An eight-bit colour format may be viewed with either transfer function and in
/// its own channel order only; every other format is viewed as itself.
pub proof fn law_views_change_the_transfer_function_alone(format: Format, other: Format)
    ensures
        view_family(format).contains(other) <==> {
            ||| other == format
            ||| (format.0 == 37 || format.0 == 43) && (other.0 == 37 || other.0 == 43)
            ||| (format.0 == 44 || format.0 == 50) && (other.0 == 44 || other.0 == 50)
        },
        view_family(format).no_duplicates(),
{
    let family = view_family(format);
    if format.0 == 37 || format.0 == 43 {
        assert(family[0] == Format(37));
        assert(family[1] == Format(43));
    } else if format.0 == 44 || format.0 == 50 {
        assert(family[0] == Format(44));
        assert(family[1] == Format(50));
    } else {
        assert(family[0] == format);
    }
}

/// The driver agrees with the guest on the distance between layers and between
/// planes of a volume, wherever there are two or more of them.
pub open spec fn pitches_agree(host: SubresourceLayout, guest: GuestImageLayout) -> bool {
    match guest {
        GuestImageLayout::D1Array { layers, array_pitch, .. } => layers > 1 ==> host.array_pitch
            == array_pitch,
        GuestImageLayout::D2Array { layers, array_pitch, .. } => layers > 1 ==> host.array_pitch
            == array_pitch,
        GuestImageLayout::D3 { depth, depth_pitch, .. } => depth > 1 ==> host.depth_pitch
            == depth_pitch,
        _ => true,
    }
}

/// Pitches refuse exactly where guest and driver disagree on one that matters.
pub proof fn law_pitches_refuse_only_a_disagreement(
    host: SubresourceLayout,
    guest: GuestImageLayout,
)
    ensures
        pitch_refusal(host, guest) is None <==> match guest {
            GuestImageLayout::D1Array { layers, array_pitch, .. } => layers > 1 ==> host.array_pitch
                == array_pitch,
            GuestImageLayout::D2Array { layers, array_pitch, .. } => layers > 1 ==> host.array_pitch
                == array_pitch,
            GuestImageLayout::D3 { depth, depth_pitch, .. } => depth > 1 ==> host.depth_pitch
                == depth_pitch,
            _ => true,
        },
        pitch_refusal(host, guest) is None <==> pitches_agree(host, guest),
        pitch_refusal(host, guest) matches Some(refusal) ==> if guest is D3 {
            refusal is DepthPitchMismatch
        } else {
            refusal is ArrayPitchMismatch
        },
{
}

/// An offset in the image and its place in the resource name one byte of the
/// allocation; there is no place where that byte lies past 64 bits or before
/// the resource.
pub proof fn law_a_place_in_the_resource_is_the_same_byte(
    placement: MipPlacement,
    host_offset: u64,
    place: u64,
)
    ensures
        placement.relative(host_offset) == Some(place) <==> placement.image_base + host_offset
            == placement.resource_base + place && placement.image_base + host_offset <= u64::MAX,
        placement.relative(host_offset) is None <==> placement.image_base + host_offset > u64::MAX
            || placement.image_base + host_offset < placement.resource_base,
{
}

/// A mip level is refused exactly where guest and driver disagree on it: it
/// begins at another byte of the allocation, or its rows, layers or planes lie
/// at another distance. A refusal tells the level and the two values that
/// differ.
pub proof fn law_a_mip_is_refused_only_for_a_disagreement(
    mip_level: u32,
    host: SubresourceLayout,
    guest: GuestImageMipLayout,
    placement: MipPlacement,
)
    ensures
        mip_refusal(mip_level, host, guest, placement) is None <==> {
            &&& placement.image_base + host.offset <= u64::MAX
            &&& placement.image_base + host.offset == placement.resource_base
                + guest.resource_relative_offset
            &&& host.row_pitch == guest.row_pitch
            &&& match guest.layout {
                GuestImageLayout::D1Array { layers, array_pitch, .. } => layers > 1
                    ==> host.array_pitch == array_pitch,
                GuestImageLayout::D2Array { layers, array_pitch, .. } => layers > 1
                    ==> host.array_pitch == array_pitch,
                GuestImageLayout::D3 { depth, depth_pitch, .. } => depth > 1 ==> host.depth_pitch
                    == depth_pitch,
                _ => true,
            }
        },
        unless_refused(mip_refusal(mip_level, host, guest, placement)) is Ok <==> mip_refusal(
            mip_level,
            host,
            guest,
            placement,
        ) is None,
        match mip_refusal(mip_level, host, guest, placement) {
            None => true,
            Some(WindowRefusal::BindingRangeOverflow) => placement.image_base + host.offset
                > u64::MAX || placement.image_base + host.offset < placement.resource_base,
            Some(
                WindowRefusal::MipOffsetMismatch {
                    mip_level: level,
                    guest_offset,
                    host_offset,
                    image_base,
                    resource_base,
                    plane_offset,
                    mode,
                },
            ) => {
                &&& level == mip_level
                &&& guest_offset == guest.resource_relative_offset
                &&& resource_base + host_offset == image_base + host.offset
                &&& guest_offset != host_offset
                &&& image_base == placement.image_base
                &&& resource_base == placement.resource_base
                &&& plane_offset == placement.plane_offset
                &&& mode == placement.mode
            },
            Some(WindowRefusal::RowPitchMismatch { mip_level: level, width, guest: told, host: found }) => {
                &&& level == mip_level
                &&& width == geometry_of(guest.layout).extent.width
                &&& told == guest.row_pitch
                &&& found == host.row_pitch
                &&& told != found
            },
            Some(WindowRefusal::ArrayPitchMismatch) => !(guest.layout is D3),
            Some(WindowRefusal::DepthPitchMismatch) => guest.layout is D3,
            _ => false,
        },
{
}

/// A memory type serves where its bit is set.
pub proof fn law_a_memory_type_serves_by_its_bit(bits: u32, index: u32)
    ensures
        type_serves(bits, index) <==> index < 32 && (bits >> index) % 2 == 1,
{
    if index < 32 {
        assert((bits & (1u32 << index) != 0) == ((bits >> index) % 2 == 1)) by (bit_vector)
            requires
                index < 32,
        ;
    }
}

/// What refuses a window is a fault that the window has.
pub proof fn law_a_window_is_refused_for_a_fault_it_has(admission: WindowAdmission)
    ensures
        ({
            let bind = admission.backing.plane_offset - admission.layout.offset;
            let end = bind + admission.requirements.size;
            match window_outcome(admission) {
                Ok(plan) => plan.bind_offset == bind && plan.required_allocation_len == end,
                Err(WindowRefusal::SubresourceAfterPlane { plane_offset, subresource_offset }) => {
                    &&& plane_offset == admission.backing.plane_offset
                    &&& subresource_offset == admission.layout.offset
                    &&& subresource_offset > plane_offset
                },
                Err(WindowRefusal::BindOffsetMisaligned) => admission.requirements.alignment == 0
                    || bind % admission.requirements.alignment as int != 0,
                Err(WindowRefusal::RowPitchMismatch { mip_level, width, guest, host }) => {
                    &&& mip_level == 0
                    &&& width == geometry_of(admission.guest_layout).extent.width
                    &&& guest == admission.backing.row_pitch
                    &&& host == admission.layout.row_pitch
                    &&& guest != host
                },
                Err(WindowRefusal::ArrayPitchMismatch) => geometry_of(
                    admission.guest_layout,
                ).array_layers > 1,
                Err(WindowRefusal::DepthPitchMismatch) => geometry_of(
                    admission.guest_layout,
                ).extent.depth > 1,
                Err(WindowRefusal::BindingRangeOverflow) => end > u64::MAX,
                Err(WindowRefusal::AllocationTooShort { required_end, allocation_len }) => {
                    &&& required_end == end
                    &&& allocation_len == admission.backing.allocation_len
                    &&& admission.require_allocation_fit && required_end > allocation_len
                },
                Err(WindowRefusal::NoMemoryType) => admission.parent_memory_type matches Some(
                    parent,
                ) && !(parent < 32 && (admission.requirements.memory_type_bits >> parent) % 2
                    == 1),
                Err(WindowRefusal::DedicatedBindingRequired) => admission.requires_dedicated,
                _ => false,
            }
        }),
{
    if let Some(parent) = admission.parent_memory_type {
        law_a_memory_type_serves_by_its_bit(admission.requirements.memory_type_bits, parent);
    }
}

/// An image is planned exactly where its base mip can be bound so that it lands
/// on the guest's plane, in memory that serves, and guest and driver agree on
/// every mip level.
pub proof fn law_an_image_is_planned_where_every_mip_agrees(
    created: CreatedImage,
    mips: Seq<GuestImageMipLayout>,
    hosts: Seq<SubresourceLayout>,
    mode: LayoutMode,
)
    requires
        hosts.len() == mips.len(),
        0 < mips.len() <= u32::MAX,
    ensures
        ({
            let bind = created.backing.plane_offset - hosts[0].offset;
            let end = bind + created.requirements.size;
            let planned = image_outcome(created, mips, hosts, mode);
            &&& planned is Ok <==> {
                &&& bind >= 0
                &&& created.requirements.alignment != 0
                &&& bind % created.requirements.alignment as int == 0
                &&& hosts[0].row_pitch == created.backing.row_pitch
                &&& end <= u64::MAX
                &&& created.require_allocation_fit ==> end <= created.backing.allocation_len
                &&& created.parent_memory_type matches Some(parent) ==> parent < 32 && (
                created.requirements.memory_type_bits >> parent) % 2 == 1
                &&& !created.requires_dedicated
                &&& forall|level: int|
                    #![trigger hosts[level]]
                    0 <= level < mips.len() ==> {
                        &&& bind + hosts[level].offset <= u64::MAX
                        &&& bind + hosts[level].offset == created.backing.resource_offset
                            + mips[level].resource_relative_offset
                        &&& hosts[level].row_pitch == mips[level].row_pitch
                        &&& pitches_agree(hosts[level], mips[level].layout)
                    }
            }
            &&& planned matches Ok(plan) ==> plan.bind_offset == bind
                && plan.required_allocation_len == end
        }),
{
    let admission = created.admission(hosts[0], mips[0].layout);
    law_admitted_window_lands_on_the_plane(admission);
    law_a_window_is_refused_for_a_fault_it_has(admission);
    law_pitches_refuse_only_a_disagreement(hosts[0], mips[0].layout);
    if let Some(parent) = created.parent_memory_type {
        law_a_memory_type_serves_by_its_bit(created.requirements.memory_type_bits, parent);
    }
    if let Ok(plan) = window_outcome(admission) {
        let placement = placement_at(plan.bind_offset, created.backing, mode);
        lemma_every_mip_decides(mips, hosts, placement, 0);
        assert forall|level: int|
            #![trigger hosts[level]]
            0 <= level < mips.len() implies (mip_refusal(
            level as u32,
            hosts[level],
            mips[level],
            placement,
        ) is None <==> {
            &&& plan.bind_offset + hosts[level].offset <= u64::MAX
            &&& plan.bind_offset + hosts[level].offset == created.backing.resource_offset
                + mips[level].resource_relative_offset
            &&& hosts[level].row_pitch == mips[level].row_pitch
            &&& pitches_agree(hosts[level], mips[level].layout)
        }) by {
            law_a_mip_is_refused_only_for_a_disagreement(
                level as u32,
                hosts[level],
                mips[level],
                placement,
            );
        }
    } else {
        assert(hosts[0].row_pitch == hosts[0].row_pitch);
    }
}

/// No mip level from `from` on refuses exactly where none of them does.
proof fn lemma_every_mip_decides(
    mips: Seq<GuestImageMipLayout>,
    hosts: Seq<SubresourceLayout>,
    placement: MipPlacement,
    from: int,
)
    requires
        0 <= from <= mips.len(),
    ensures
        first_mip_refusal(mips, hosts, placement, from) is None <==> forall|level: int|
            #![trigger hosts[level]]
            from <= level < mips.len() ==> mip_refusal(
                level as u32,
                hosts[level],
                mips[level],
                placement,
            ) is None,
    decreases mips.len() - from,
{
    if from < mips.len() {
        lemma_every_mip_decides(mips, hosts, placement, from + 1);
        assert(hosts[from] == hosts[from]);
    }
}

/// Where the base window is admitted, an image is refused for its first mip
/// level on which guest and driver disagree.
pub proof fn law_the_first_mip_that_disagrees_is_told(
    created: CreatedImage,
    mips: Seq<GuestImageMipLayout>,
    hosts: Seq<SubresourceLayout>,
    mode: LayoutMode,
    level: int,
)
    requires
        hosts.len() == mips.len(),
        0 <= level < mips.len() <= u32::MAX,
        window_outcome(created.admission(hosts[0], mips[0].layout)) is Ok,
        ({
            let bind = created.backing.plane_offset - hosts[0].offset;
            &&& bind + hosts[level].offset != created.backing.resource_offset
                + mips[level].resource_relative_offset
            &&& forall|before: int|
                #![trigger hosts[before]]
                0 <= before < level ==> {
                    &&& bind + hosts[before].offset <= u64::MAX
                    &&& bind + hosts[before].offset == created.backing.resource_offset
                        + mips[before].resource_relative_offset
                    &&& hosts[before].row_pitch == mips[before].row_pitch
                    &&& pitches_agree(hosts[before], mips[before].layout)
                }
        }),
    ensures
        match image_outcome(created, mips, hosts, mode) {
            Err(WindowRefusal::MipOffsetMismatch { mip_level, guest_offset, .. }) => mip_level
                == level && guest_offset == mips[level].resource_relative_offset,
            Err(WindowRefusal::BindingRangeOverflow) => true,
            _ => false,
        },
{
    let admission = created.admission(hosts[0], mips[0].layout);
    law_a_window_is_refused_for_a_fault_it_has(admission);
    let plan = window_outcome(admission)->Ok_0;
    let placement = placement_at(plan.bind_offset, created.backing, mode);
    assert forall|before: int|
        #![trigger hosts[before]]
        0 <= before < level implies mip_refusal(
        before as u32,
        hosts[before],
        mips[before],
        placement,
    ) is None by {
        law_a_mip_is_refused_only_for_a_disagreement(
            before as u32,
            hosts[before],
            mips[before],
            placement,
        );
    }
    lemma_first_refusal_is_at(mips, hosts, placement, 0, level);
    law_a_mip_is_refused_only_for_a_disagreement(
        level as u32,
        hosts[level],
        mips[level],
        placement,
    );
}

proof fn lemma_first_refusal_is_at(
    mips: Seq<GuestImageMipLayout>,
    hosts: Seq<SubresourceLayout>,
    placement: MipPlacement,
    from: int,
    level: int,
)
    requires
        0 <= from <= level < mips.len(),
        forall|before: int|
            #![trigger hosts[before]]
            from <= before < level ==> mip_refusal(
                before as u32,
                hosts[before],
                mips[before],
                placement,
            ) is None,
        mip_refusal(level as u32, hosts[level], mips[level], placement) is Some,
    ensures
        first_mip_refusal(mips, hosts, placement, from) == mip_refusal(
            level as u32,
            hosts[level],
            mips[level],
            placement,
        ),
    decreases level - from,
{
    if from < level {
        assert(hosts[from] == hosts[from]);
        lemma_first_refusal_is_at(mips, hosts, placement, from + 1, level);
    }
}

/// The layout that is dictated is the guest's own: its base mip begins at its
/// plane, with the guest's distances between rows, layers and planes.
pub proof fn law_a_dictated_layout_is_the_guests(base: GuestImageMipLayout, base_plane: u64)
    ensures
        ({
            let dictated = dictated_layout(base, base_plane);
            &&& dictated.offset == base_plane
            &&& dictated.size == 0
            &&& dictated.row_pitch == base.row_pitch
            &&& dictated.array_pitch == match base.layout {
                GuestImageLayout::D1Array { array_pitch, .. } => array_pitch,
                GuestImageLayout::D2Array { array_pitch, .. } => array_pitch,
                _ => 0,
            }
            &&& dictated.depth_pitch == match base.layout {
                GuestImageLayout::D3 { depth_pitch, .. } => depth_pitch,
                _ => 0,
            }
            &&& pitches_agree(dictated, base.layout)
        }),
{
}

/// A usage needs the features of each thing it is used for, and no others.
pub proof fn law_features_follow_the_usage(usage: u32)
    ensures
        (features_for(usage) & 0x1 != 0) == (usage & 0x4 != 0),
        (features_for(usage) & 0x80 != 0) == (usage & 0x90 != 0),
        (features_for(usage) & 0x100 != 0) == (usage & 0x90 != 0),
        (features_for(usage) & 0x4000 != 0) == (usage & 0x1 != 0),
        (features_for(usage) & 0x8000 != 0) == (usage & 0x2 != 0),
        features_for(usage) & !0xc181u32 == 0,
{
    assert(0x10u32 | 0x80u32 == 0x90u32) by (bit_vector);
    let a: u32 = if usage & 0x4 != 0 {
        0x1
    } else {
        0
    };
    let b: u32 = if usage & 0x90 != 0 {
        0x180
    } else {
        0
    };
    let c: u32 = if usage & 0x1 != 0 {
        0x4000
    } else {
        0
    };
    let d: u32 = if usage & 0x2 != 0 {
        0x8000
    } else {
        0
    };
    let all: u32 = a | b | c | d;
    assert(all == features_for(usage));
    assert({
        &&& (all & 0x1 != 0) == (a != 0)
        &&& (all & 0x80 != 0) == (b != 0)
        &&& (all & 0x100 != 0) == (b != 0)
        &&& (all & 0x4000 != 0) == (c != 0)
        &&& (all & 0x8000 != 0) == (d != 0)
        &&& all & !0xc181u32 == 0
    }) by (bit_vector)
        requires
            all == a | b | c | d,
            a == 0 || a == 0x1,
            b == 0 || b == 0x180,
            c == 0 || c == 0x4000,
            d == 0 || d == 0x8000,
    ;
}

/// A modifier serves where it is the linear one, of one plane, and keeps every
/// feature that the usage needs.
pub proof fn law_a_modifier_serves_a_usage_it_keeps(modifier: ModifierProperties, usage: u32)
    ensures
        modifier_serves(modifier, usage) <==> {
            &&& modifier.modifier == 0
            &&& modifier.plane_count == 1
            &&& usage & 0x4 != 0 ==> modifier.features & 0x1 != 0
            &&& usage & 0x90 != 0 ==> modifier.features & 0x80 != 0 && modifier.features & 0x100
                != 0
            &&& usage & 0x1 != 0 ==> modifier.features & 0x4000 != 0
            &&& usage & 0x2 != 0 ==> modifier.features & 0x8000 != 0
        },
{
    law_features_follow_the_usage(usage);
    let has = modifier.features;
    let needs = features_for(usage);
    assert((has & needs == needs) == {
        &&& needs & 0x1 != 0 ==> has & 0x1 != 0
        &&& needs & 0x80 != 0 ==> has & 0x80 != 0
        &&& needs & 0x100 != 0 ==> has & 0x100 != 0
        &&& needs & 0x4000 != 0 ==> has & 0x4000 != 0
        &&& needs & 0x8000 != 0 ==> has & 0x8000 != 0
    }) by (bit_vector)
        requires
            needs & !0xc181u32 == 0,
    ;
}

/// An allocation is refused exactly where the device cannot import it as it is,
/// or where the image does not lie in it; the refusal tells which.
pub proof fn law_an_allocation_is_refused_for_a_fault_it_has(
    facts: AllocationFacts,
    backing: GuestTargetBacking,
    visible: Seq<bool>,
)
    ensures
        allocation_refusal(facts, backing, visible) is None <==> {
            &&& facts.host_import
            &&& facts.import_base == backing.allocation_host_ptr
            &&& facts.import_len == backing.allocation_len
            &&& facts.import_alignment > 0
            &&& facts.import_base as int % facts.import_alignment as int == 0
            &&& facts.import_len as int % facts.import_alignment as int == 0
            &&& facts.bytes_per_texel is Some
            &&& facts.vulkan_mip_chain
            &&& forall|level: int| 0 <= level < visible.len() ==> #[trigger] visible[level]
        },
        match allocation_refusal(facts, backing, visible) {
            None => true,
            Some(WindowRefusal::HostImportUnavailable) => !facts.host_import,
            Some(WindowRefusal::ParentAllocationMismatch) => facts.import_base
                != backing.allocation_host_ptr || facts.import_len != backing.allocation_len,
            Some(WindowRefusal::HostPointerMisaligned) => facts.import_alignment == 0
                || facts.import_base as int % facts.import_alignment as int != 0
                || facts.import_len as int % facts.import_alignment as int != 0,
            Some(WindowRefusal::ResourceWindowTooShort) => facts.bytes_per_texel is None
                || !facts.vulkan_mip_chain || exists|level: int|
                0 <= level < visible.len() && !#[trigger] visible[level],
            _ => false,
        },
        !facts.host_import ==> allocation_refusal(facts, backing, visible) == Some(
            WindowRefusal::HostImportUnavailable,
        ),
{
    if visible.contains(false) {
        let level = choose|level: int| 0 <= level < visible.len() && visible[level] == false;
        assert(!visible[level]);
    }
    assert forall|level: int| 0 <= level < visible.len() && !visible.contains(
        false,
    ) implies #[trigger] visible[level] by {
        if !visible[level] {
            assert(visible[level] == false);
        }
    }
}

/// What a creation comes to: the first image that an attempt gives. The driver's
/// layout is tried after a declined explicit one, whose refusal is told on, and
/// its own refusal is final.
pub proof fn law_a_creation_gives_the_first_image_it_can(
    imported: ImportId,
    mips: Seq<GuestImageMipLayout>,
    explicit: bool,
    first: Result<Image, WindowRefusal>,
    second: Result<Image, WindowRefusal>,
)
    requires
        mips.len() > 0,
    ensures
        allocation_begun(Ok(()), Ok(imported), mips) is AskExplicit,
        allocation_begun(Ok(()), Ok(imported), mips)->AskExplicit_image_type == geometry_of(
            mips[0].layout,
        ).image_type,
        ({
            let tried = allocation_answered(Ok(explicit));
            &&& tried is Attempt
            &&& tried->declined is None
            &&& tried->mode is ExplicitLinear <==> explicit
            &&& first matches Ok(image) ==> allocation_attempted(imported, tried->mode, first) == (
            CreateAllocation::Created { image, retain: imported })
            &&& first matches Err(refusal) ==> {
                let next = allocation_attempted(imported, tried->mode, first);
                if explicit {
                    &&& next is Attempt
                    &&& next->mode is DriverLinear
                    &&& next->declined == Some(refusal)
                    &&& allocation_attempted(imported, next->mode, second) == match second {
                        Ok(image) => CreateAllocation::Created { image, retain: imported },
                        Err(last) => CreateAllocation::Refused(last),
                    }
                } else {
                    next == CreateAllocation::Refused(refusal)
                }
            }
        }),
{
}

/// A creation that is refused before an attempt tells the first refusal it met.
pub proof fn law_a_creation_tells_its_first_refusal(
    admitted: Result<(), WindowRefusal>,
    imported: Result<ImportId, Decline>,
    mips: Seq<GuestImageMipLayout>,
    explicit: Result<bool, WindowRefusal>,
)
    ensures
        admitted matches Err(refusal) ==> allocation_begun(admitted, imported, mips)
            == CreateAllocation::Refused(refusal),
        admitted is Ok && imported is Err ==> allocation_begun(admitted, imported, mips)
            == CreateAllocation::Refused(WindowRefusal::ParentImport(imported->Err_0)),
        admitted is Ok && imported is Ok && mips.len() == 0 ==> allocation_begun(
            admitted,
            imported,
            mips,
        ) == CreateAllocation::Refused(WindowRefusal::ResourceWindowTooShort),
        explicit matches Err(refusal) ==> allocation_answered(explicit)
            == CreateAllocation::Refused(refusal),
{
}

/// The length of a binding is looked for exactly where the content is one plane
/// with a known texel and mip chain on a device that can import it.
pub proof fn law_a_length_is_looked_for_where_content_can_be_aliased(
    host_import: bool,
    bytes_per_texel: Option<u64>,
    vulkan_mip_chain: bool,
    mips: Seq<GuestImageMipLayout>,
)
    requires
        mips.len() <= usize::MAX,
    ensures
        ({
            let start = binding_start(host_import, bytes_per_texel, vulkan_mip_chain, mips);
            &&& start is AskExplicit <==> {
                &&& host_import
                &&& bytes_per_texel is Some
                &&& vulkan_mip_chain
                &&& mips.len() > 0
                &&& mips[0].layout is D2
            }
            &&& match start {
                BindingLen::AskExplicit { image_type } => image_type is D2,
                BindingLen::Plan { .. } => false,
                BindingLen::Known(Ok(_)) => false,
                BindingLen::Known(Err(refusal)) => match refusal {
                    WindowRefusal::HostImportUnavailable => !host_import,
                    WindowRefusal::ResourceWindowTooShort => host_import && (bytes_per_texel is None
                        || mips.len() == 0),
                    WindowRefusal::SampledContentRequiresCopy(cause) => match cause {
                        SampledCopyCause::IrregularMipChain { mips: told } => !vulkan_mip_chain
                            && told == mips.len(),
                        SampledCopyCause::Layout(layout) => mips.len() > 0 && layout
                            == mips[0].layout && !(layout is D2),
                        _ => false,
                    },
                    _ => false,
                },
            }
        }),
        first_mode(true) is ExplicitLinear,
        first_mode(false) is DriverLinear,
{
}

/// An answer that was given stands: the first one for a key is the one told, and a key
/// without one has none.
pub proof fn law_the_first_answer_stands(
    answers: Seq<(SupportKey, bool)>,
    key: SupportKey,
    more: (SupportKey, bool),
)
    ensures
        answer_for(Seq::<(SupportKey, bool)>::empty(), key) is None,
        answer_for(answers, key) is Some ==> answer_for(answers.push(more), key) == answer_for(
            answers,
            key,
        ),
        answer_for(answers, key) is None && more.0 == key ==> answer_for(answers.push(more), key)
            == Some(more.1),
        answer_for(answers, key) is None && more.0 != key ==> answer_for(answers.push(more), key)
            is None,
    decreases answers.len(),
{
    if answers.len() == 0 {
        assert(answers.push(more).drop_first() =~= answers);
        assert(answers.push(more)[0] == more);
    } else {
        law_the_first_answer_stands(answers.drop_first(), key, more);
        assert(answers.push(more).drop_first() =~= answers.drop_first().push(more));
        assert(answers.push(more)[0] == answers[0]);
    }
}

/// Mips are placed from where the image is bound, against the resource and the plane that the
/// backing names.
pub proof fn law_mips_are_placed_from_the_binding(
    bind_offset: u64,
    backing: GuestTargetBacking,
    mode: LayoutMode,
)
    ensures
        placement_at(bind_offset, backing, mode).image_base == bind_offset,
        placement_at(bind_offset, backing, mode).resource_base == backing.resource_offset,
        placement_at(bind_offset, backing, mode).plane_offset == backing.plane_offset,
        placement_at(bind_offset, backing, mode).mode == mode,
{
}

/// A number fits exactly where it is neither negative nor too large.
pub proof fn law_a_number_fits_or_is_refused(value: int)
    ensures
        in_u64(value) matches Some(fitting) ==> fitting == value,
        in_u64(value) is None <==> value < 0 || value > 0xFFFF_FFFF_FFFF_FFFF,
{
}

/// Every way to lay an image out is told by its own word.
pub proof fn law_every_layout_mode_has_its_word(mode: LayoutMode)
    ensures
        mode is DriverLinear ==> mode.slug_text() == "driver_linear"@,
        mode is ExplicitLinear ==> mode.slug_text() == "explicit_linear"@,
{
}

/// Every refusal of a window is told by its own word.
pub proof fn law_every_refusal_has_its_word(refusal: WindowRefusal)
    ensures
        refusal is HostImportUnavailable ==> refusal.slug_text() == "no_host_import"@,
        refusal is SampledAliasDisabledByEnv ==> refusal.slug_text()
            == "sampled_alias_disabled_by_env"@,
        refusal is UnsupportedImageShape ==> refusal.slug_text() == "unsupported_image_shape"@,
        refusal is SampledAliasHostWritesNotCoherent ==> refusal.slug_text()
            == "sampled_alias_host_writes_not_coherent"@,
        refusal is SampledAliasRowPitchNotTexelMultiple ==> refusal.slug_text()
            == "sampled_alias_row_pitch_not_texel_multiple"@,
        refusal is AmbiguousResidentBacking ==> refusal.slug_text()
            == "ambiguous_resident_backing"@,
        refusal is ParentAllocationMismatch ==> refusal.slug_text()
            == "parent_allocation_mismatch"@,
        refusal is HostPointerMisaligned ==> refusal.slug_text() == "host_pointer_misaligned"@,
        refusal is ResourceWindowTooShort ==> refusal.slug_text() == "resource_window_too_short"@,
        refusal is SubresourceAfterPlane ==> refusal.slug_text() == "subresource_after_plane"@,
        refusal is BindOffsetMisaligned ==> refusal.slug_text() == "bind_offset_misaligned"@,
        refusal is RowPitchMismatch ==> refusal.slug_text() == "row_pitch_mismatch"@,
        refusal is ArrayPitchMismatch ==> refusal.slug_text() == "array_pitch_mismatch"@,
        refusal is DepthPitchMismatch ==> refusal.slug_text() == "depth_pitch_mismatch"@,
        refusal is MipOffsetMismatch ==> refusal.slug_text() == "mip_offset_mismatch"@,
        refusal is BindingRangeOverflow ==> refusal.slug_text() == "binding_range_overflow"@,
        refusal is AllocationTooShort ==> refusal.slug_text() == "allocation_too_short"@,
        refusal is NoMemoryType ==> refusal.slug_text() == "no_memory_type"@,
        refusal is DedicatedBindingRequired ==> refusal.slug_text()
            == "dedicated_binding_required"@,
        refusal is ModifierQuery ==> refusal.slug_text() == "modifier_query_failed"@,
        refusal is CreateImage ==> refusal.slug_text() == "create_failed"@,
        refusal is CreateView ==> refusal.slug_text() == "view_create_failed"@,
        refusal is BindImage ==> refusal.slug_text() == "bind_failed"@,
{
}

/// Every cause of a copy is told by its own word, a layout by its dimensions.
pub proof fn law_every_cause_of_a_copy_has_its_word(cause: SampledCopyCause)
    ensures
        cause is IrregularMipChain ==> cause.slug_text() == "sampled_copy_irregular_mip_chain"@,
        cause is ViewMip ==> cause.slug_text() == "sampled_copy_view_mip"@,
        cause is ViewLayer ==> cause.slug_text() == "sampled_copy_view_layer"@,
        cause is ResidentUnavailable ==> cause.slug_text() == "sampled_copy_resident_unavailable"@,
        cause matches SampledCopyCause::Layout(layout) ==> {
            &&& layout is D1 ==> cause.slug_text() == "sampled_copy_layout_1d"@
            &&& layout is D1Array ==> cause.slug_text() == "sampled_copy_layout_1d_array"@
            &&& layout is D2 ==> cause.slug_text() == "sampled_copy_layout_2d"@
            &&& layout is D2Array ==> cause.slug_text() == "sampled_copy_layout_2d_array"@
            &&& layout is D3 ==> cause.slug_text() == "sampled_copy_layout_3d"@
        },
{
}

} // verus!
