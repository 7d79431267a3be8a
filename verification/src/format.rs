//! Vulkan representation of backend-independent texel storage layouts.

use crate::vk::Format;
use vstd::prelude::*;

verus! {

/// `VK_FORMAT_UNDEFINED`.
pub const FORMAT_UNDEFINED: i32 = 0;

/// `VK_FORMAT_R8G8B8A8_UNORM`.
pub const FORMAT_R8G8B8A8_UNORM: i32 = 37;

/// `VK_FORMAT_B8G8R8A8_UNORM`.
pub const FORMAT_B8G8R8A8_UNORM: i32 = 44;

/// `VK_FORMAT_R8_UNORM`.
pub const FORMAT_R8_UNORM: i32 = 9;

/// `VK_FORMAT_R8G8_UNORM`.
pub const FORMAT_R8G8_UNORM: i32 = 16;

/// `VK_FORMAT_R16_SFLOAT`.
pub const FORMAT_R16_SFLOAT: i32 = 76;

/// `VK_FORMAT_R32_SFLOAT`.
pub const FORMAT_R32_SFLOAT: i32 = 100;

/// `VK_FORMAT_R16_UNORM`.
pub const FORMAT_R16_UNORM: i32 = 70;

/// `VK_FORMAT_R16G16_UNORM`.
pub const FORMAT_R16G16_UNORM: i32 = 77;

/// `VK_FORMAT_R16G16B16A16_UNORM`.
pub const FORMAT_R16G16B16A16_UNORM: i32 = 91;

/// `VK_FORMAT_R16G16B16A16_SFLOAT`.
pub const FORMAT_R16G16B16A16_SFLOAT: i32 = 97;

/// `VK_FORMAT_R16G16_SFLOAT`.
pub const FORMAT_R16G16_SFLOAT: i32 = 83;

/// `VK_FORMAT_A2B10G10R10_UNORM_PACK32`.
pub const FORMAT_A2B10G10R10_UNORM_PACK32: i32 = 64;

/// `VK_FORMAT_A2R10G10B10_UNORM_PACK32`.
pub const FORMAT_A2R10G10B10_UNORM_PACK32: i32 = 58;

/// `VK_FORMAT_B10G11R11_UFLOAT_PACK32`.
pub const FORMAT_B10G11R11_UFLOAT_PACK32: i32 = 122;

/// `VK_FORMAT_R32G32B32A32_SFLOAT`.
pub const FORMAT_R32G32B32A32_SFLOAT: i32 = 109;

/// `VK_FORMAT_R16_UINT`.
pub const FORMAT_R16_UINT: i32 = 74;

/// `VK_FORMAT_R16G16B16A16_UINT`.
pub const FORMAT_R16G16B16A16_UINT: i32 = 95;

/// `VK_FORMAT_R8G8B8A8_UINT`.
pub const FORMAT_R8G8B8A8_UINT: i32 = 41;

/// `VK_FORMAT_R8G8B8A8_SINT`.
pub const FORMAT_R8G8B8A8_SINT: i32 = 42;

/// `VK_FORMAT_R32G32B32A32_UINT`.
pub const FORMAT_R32G32B32A32_UINT: i32 = 107;

/// `VK_FORMAT_R32G32B32A32_SINT`.
pub const FORMAT_R32G32B32A32_SINT: i32 = 108;

/// `VK_FORMAT_R32_UINT`.
pub const FORMAT_R32_UINT: i32 = 98;

/// `VK_FORMAT_R32_SINT`.
pub const FORMAT_R32_SINT: i32 = 99;

/// `VK_FORMAT_E5B9G9R9_UFLOAT_PACK32`.
pub const FORMAT_E5B9G9R9_UFLOAT_PACK32: i32 = 123;

/// `VK_FORMAT_R8G8B8A8_SRGB`.
pub const FORMAT_R8G8B8A8_SRGB: i32 = 43;

/// `VK_FORMAT_B8G8R8A8_SRGB`.
pub const FORMAT_B8G8R8A8_SRGB: i32 = 50;

/// How the texels of a guest image are stored.
#[derive(Clone, Copy, Debug, PartialEq, Eq, Structural)]
pub enum TexelLayout {
    Rgba8,
    Bgra8,
    R8,
    Rg8,
    R16Float,
    R32Float,
    R16Unorm,
    Rg16Unorm,
    Rgba16Unorm,
    Rgba16Float,
    Rg16Float,
    Rgb10a2Unorm,
    Bgr10a2Unorm,
    Rg11b10Float,
}

impl TexelLayout {
    /// Whether the layout has an sRGB encoding.
    pub open spec fn srgb_capable(self) -> bool {
        self is Rgba8 || self is Bgra8
    }

    /// Whether the layout has an sRGB encoding.
    pub fn has_srgb_encoding(self) -> (capable: bool)
        ensures
            capable == self.srgb_capable(),
    {
        match self {
            TexelLayout::Rgba8 => true,
            TexelLayout::Bgra8 => true,
            _ => false,
        }
    }

    /// Every layout.
    pub fn all() -> (layouts: Vec<TexelLayout>)
        ensures
            forall|layout: TexelLayout| layouts@.contains(layout),
    {
        let layouts: Vec<TexelLayout> = vec![
            TexelLayout::Rgba8,
            TexelLayout::Bgra8,
            TexelLayout::R8,
            TexelLayout::Rg8,
            TexelLayout::R16Float,
            TexelLayout::R32Float,
            TexelLayout::R16Unorm,
            TexelLayout::Rg16Unorm,
            TexelLayout::Rgba16Unorm,
            TexelLayout::Rgba16Float,
            TexelLayout::Rg16Float,
            TexelLayout::Rgb10a2Unorm,
            TexelLayout::Bgr10a2Unorm,
            TexelLayout::Rg11b10Float,
        ];
        assert forall|layout: TexelLayout| layouts@.contains(layout) by {
            match layout {
                TexelLayout::Rgba8 => assert(layouts@[0] == layout),
                TexelLayout::Bgra8 => assert(layouts@[1] == layout),
                TexelLayout::R8 => assert(layouts@[2] == layout),
                TexelLayout::Rg8 => assert(layouts@[3] == layout),
                TexelLayout::R16Float => assert(layouts@[4] == layout),
                TexelLayout::R32Float => assert(layouts@[5] == layout),
                TexelLayout::R16Unorm => assert(layouts@[6] == layout),
                TexelLayout::Rg16Unorm => assert(layouts@[7] == layout),
                TexelLayout::Rgba16Unorm => assert(layouts@[8] == layout),
                TexelLayout::Rgba16Float => assert(layouts@[9] == layout),
                TexelLayout::Rg16Float => assert(layouts@[10] == layout),
                TexelLayout::Rgb10a2Unorm => assert(layouts@[11] == layout),
                TexelLayout::Bgr10a2Unorm => assert(layouts@[12] == layout),
                TexelLayout::Rg11b10Float => assert(layouts@[13] == layout),
            }
        }
        layouts
    }
}

/// How a texel value relates to the stored one.
#[derive(Clone, Copy, Debug, PartialEq, Eq, Structural)]
pub enum TransferFunction {
    /// They are the same.
    Linear,
    /// The stored value is sRGB-encoded.
    Srgb,
}

/// A texel layout with the transfer function it is viewed through.
#[derive(Clone, Copy, Debug, PartialEq, Eq, Structural)]
pub struct ImageFormat {
    layout: TexelLayout,
    transfer: TransferFunction,
}

impl ImageFormat {
    /// The layout.
    pub closed spec fn layout_spec(self) -> TexelLayout {
        self.layout
    }

    /// The transfer function.
    pub closed spec fn transfer_spec(self) -> TransferFunction {
        self.transfer
    }

    /// Only a layout with an sRGB encoding is viewed through it.
    pub open spec fn wf(self) -> bool {
        self.transfer_spec() is Srgb ==> self.layout_spec().srgb_capable()
    }

    /// The layout viewed as it is stored.
    pub fn linear(layout: TexelLayout) -> (format: ImageFormat)
        ensures
            format.wf(),
            format.layout_spec() == layout,
            format.transfer_spec() is Linear,
    {
        ImageFormat { layout, transfer: TransferFunction::Linear }
    }

    /// The layout viewed through its sRGB encoding, if it has one.
    pub fn srgb(layout: TexelLayout) -> (format: Option<ImageFormat>)
        ensures
            match format {
                Some(format) => layout.srgb_capable() && format.wf() && format.layout_spec()
                    == layout && format.transfer_spec() is Srgb,
                None => !layout.srgb_capable(),
            },
    {
        if layout.has_srgb_encoding() {
            Some(ImageFormat { layout, transfer: TransferFunction::Srgb })
        } else {
            None
        }
    }

    /// The layout.
    pub fn layout(self) -> (layout: TexelLayout)
        ensures
            layout == self.layout_spec(),
    {
        self.layout
    }

    /// The transfer function.
    pub fn transfer(self) -> (transfer: TransferFunction)
        ensures
            transfer == self.transfer_spec(),
    {
        self.transfer
    }
}

/// How the texels of a storage image are stored.
#[derive(Clone, Copy, Debug, PartialEq, Eq, Structural)]
pub enum StorageImageFormat {
    Rgba32Float,
    Rgba16Float,
    R16Float,
    R16Uint,
    Rgba16Uint,
    Rgba8Uint,
    Rgba8Sint,
    Rgba8Unorm,
    Bgra8Unorm,
    Rg16Float,
    R8Unorm,
    Rg8Unorm,
    Rgba32Uint,
    Rgba32Sint,
    R32Uint,
    R32Sint,
    R32Float,
    Rgb9e5Ufloat,
    R16Unorm,
    Rg16Unorm,
    Rgba16Unorm,
    Rgb10a2Unorm,
    Bgr10a2Unorm,
    Rg11b10Float,
}

/// A storage format with the transfer function it is sampled through.
#[derive(Clone, Copy, Debug, PartialEq, Eq, Structural)]
pub struct SampledImageFormat {
    storage: StorageImageFormat,
    transfer: TransferFunction,
}

impl SampledImageFormat {
    /// The storage format.
    pub closed spec fn storage_spec(self) -> StorageImageFormat {
        self.storage
    }

    /// The transfer function.
    pub closed spec fn transfer_spec(self) -> TransferFunction {
        self.transfer
    }

    /// Only the two eight-bit colour formats are sampled through sRGB.
    pub open spec fn wf(self) -> bool {
        self.transfer_spec() is Srgb ==> (self.storage_spec() is Rgba8Unorm || self.storage_spec() is Bgra8Unorm)
    }

    /// The format sampled as it is stored.
    pub fn linear(storage: StorageImageFormat) -> (format: SampledImageFormat)
        ensures
            format.wf(),
            format.storage_spec() == storage,
            format.transfer_spec() is Linear,
    {
        SampledImageFormat { storage, transfer: TransferFunction::Linear }
    }

    /// The format sampled through its sRGB encoding, if it has one.
    pub fn srgb(storage: StorageImageFormat) -> (format: Option<SampledImageFormat>)
        ensures
            match format {
                Some(format) => format.wf() && format.storage_spec() == storage
                    && format.transfer_spec() is Srgb,
                None => !(storage is Rgba8Unorm || storage is Bgra8Unorm),
            },
    {
        match storage {
            StorageImageFormat::Rgba8Unorm | StorageImageFormat::Bgra8Unorm => Some(
                SampledImageFormat { storage, transfer: TransferFunction::Srgb },
            ),
            _ => None,
        }
    }

    /// The storage format.
    pub fn storage(self) -> (storage: StorageImageFormat)
        ensures
            storage == self.storage_spec(),
    {
        self.storage
    }

    /// The transfer function.
    pub fn transfer(self) -> (transfer: TransferFunction)
        ensures
            transfer == self.transfer_spec(),
    {
        self.transfer
    }
}

/// Vulkan's linear format of a texel layout.
pub open spec fn linear_format(layout: TexelLayout) -> Format {
    match layout {
        TexelLayout::Rgba8 => Format(FORMAT_R8G8B8A8_UNORM),
        TexelLayout::Bgra8 => Format(FORMAT_B8G8R8A8_UNORM),
        TexelLayout::R8 => Format(FORMAT_R8_UNORM),
        TexelLayout::Rg8 => Format(FORMAT_R8G8_UNORM),
        TexelLayout::R16Float => Format(FORMAT_R16_SFLOAT),
        TexelLayout::R32Float => Format(FORMAT_R32_SFLOAT),
        TexelLayout::R16Unorm => Format(FORMAT_R16_UNORM),
        TexelLayout::Rg16Unorm => Format(FORMAT_R16G16_UNORM),
        TexelLayout::Rgba16Unorm => Format(FORMAT_R16G16B16A16_UNORM),
        TexelLayout::Rgba16Float => Format(FORMAT_R16G16B16A16_SFLOAT),
        TexelLayout::Rg16Float => Format(FORMAT_R16G16_SFLOAT),
        TexelLayout::Rgb10a2Unorm => Format(FORMAT_A2B10G10R10_UNORM_PACK32),
        TexelLayout::Bgr10a2Unorm => Format(FORMAT_A2R10G10B10_UNORM_PACK32),
        TexelLayout::Rg11b10Float => Format(FORMAT_B10G11R11_UFLOAT_PACK32),
    }
}

/// Vulkan's sRGB format of a texel layout, if it defines one.
pub open spec fn srgb_format(layout: TexelLayout) -> Option<Format> {
    match layout {
        TexelLayout::Rgba8 => Some(Format(FORMAT_R8G8B8A8_SRGB)),
        TexelLayout::Bgra8 => Some(Format(FORMAT_B8G8R8A8_SRGB)),
        _ => None,
    }
}

/// Vulkan's format of a storage image.
pub open spec fn storage_format(format: StorageImageFormat) -> Format {
    match format {
        StorageImageFormat::Rgba32Float => Format(FORMAT_R32G32B32A32_SFLOAT),
        StorageImageFormat::Rgba16Float => Format(FORMAT_R16G16B16A16_SFLOAT),
        StorageImageFormat::R16Float => Format(FORMAT_R16_SFLOAT),
        StorageImageFormat::R16Uint => Format(FORMAT_R16_UINT),
        StorageImageFormat::Rgba16Uint => Format(FORMAT_R16G16B16A16_UINT),
        StorageImageFormat::Rgba8Uint => Format(FORMAT_R8G8B8A8_UINT),
        StorageImageFormat::Rgba8Sint => Format(FORMAT_R8G8B8A8_SINT),
        StorageImageFormat::Rgba8Unorm => Format(FORMAT_R8G8B8A8_UNORM),
        StorageImageFormat::Bgra8Unorm => Format(FORMAT_B8G8R8A8_UNORM),
        StorageImageFormat::Rg16Float => Format(FORMAT_R16G16_SFLOAT),
        StorageImageFormat::R8Unorm => Format(FORMAT_R8_UNORM),
        StorageImageFormat::Rg8Unorm => Format(FORMAT_R8G8_UNORM),
        StorageImageFormat::Rgba32Uint => Format(FORMAT_R32G32B32A32_UINT),
        StorageImageFormat::Rgba32Sint => Format(FORMAT_R32G32B32A32_SINT),
        StorageImageFormat::R32Uint => Format(FORMAT_R32_UINT),
        StorageImageFormat::R32Sint => Format(FORMAT_R32_SINT),
        StorageImageFormat::R32Float => Format(FORMAT_R32_SFLOAT),
        StorageImageFormat::Rgb9e5Ufloat => Format(FORMAT_E5B9G9R9_UFLOAT_PACK32),
        StorageImageFormat::R16Unorm => Format(FORMAT_R16_UNORM),
        StorageImageFormat::Rg16Unorm => Format(FORMAT_R16G16_UNORM),
        StorageImageFormat::Rgba16Unorm => Format(FORMAT_R16G16B16A16_UNORM),
        StorageImageFormat::Rgb10a2Unorm => Format(FORMAT_A2B10G10R10_UNORM_PACK32),
        StorageImageFormat::Bgr10a2Unorm => Format(FORMAT_A2R10G10B10_UNORM_PACK32),
        StorageImageFormat::Rg11b10Float => Format(FORMAT_B10G11R11_UFLOAT_PACK32),
    }
}

/// Vulkan's linear format spelling for one guest texel layout.
pub fn vk_texel_layout(layout: TexelLayout) -> (format: Format)
    ensures
        format == linear_format(layout),
{
    match layout {
        TexelLayout::Rgba8 => Format(FORMAT_R8G8B8A8_UNORM),
        TexelLayout::Bgra8 => Format(FORMAT_B8G8R8A8_UNORM),
        TexelLayout::R8 => Format(FORMAT_R8_UNORM),
        TexelLayout::Rg8 => Format(FORMAT_R8G8_UNORM),
        TexelLayout::R16Float => Format(FORMAT_R16_SFLOAT),
        TexelLayout::R32Float => Format(FORMAT_R32_SFLOAT),
        TexelLayout::R16Unorm => Format(FORMAT_R16_UNORM),
        TexelLayout::Rg16Unorm => Format(FORMAT_R16G16_UNORM),
        TexelLayout::Rgba16Unorm => Format(FORMAT_R16G16B16A16_UNORM),
        TexelLayout::Rgba16Float => Format(FORMAT_R16G16B16A16_SFLOAT),
        TexelLayout::Rg16Float => Format(FORMAT_R16G16_SFLOAT),
        TexelLayout::Rgb10a2Unorm => Format(FORMAT_A2B10G10R10_UNORM_PACK32),
        TexelLayout::Bgr10a2Unorm => Format(FORMAT_A2R10G10B10_UNORM_PACK32),
        TexelLayout::Rg11b10Float => Format(FORMAT_B10G11R11_UFLOAT_PACK32),
    }
}

/// Vulkan's sRGB spelling for layouts that define one.
pub fn srgb_texel_layout(layout: TexelLayout) -> (format: Option<Format>)
    ensures
        format == srgb_format(layout),
        format is Some <==> layout.srgb_capable(),
{
    match layout {
        TexelLayout::Rgba8 => Some(Format(FORMAT_R8G8B8A8_SRGB)),
        TexelLayout::Bgra8 => Some(Format(FORMAT_B8G8R8A8_SRGB)),
        _ => None,
    }
}

/// Vulkan representation of a semantic image-view format.
pub fn vk_image_format(format: ImageFormat) -> (vk: Format)
    requires
        format.wf(),
    ensures
        vk == match format.transfer_spec() {
            TransferFunction::Linear => linear_format(format.layout_spec()),
            TransferFunction::Srgb => srgb_format(format.layout_spec())->0,
        },
{
    match format.transfer() {
        TransferFunction::Linear => vk_texel_layout(format.layout()),
        TransferFunction::Srgb => match srgb_texel_layout(format.layout()) {
            Some(vk) => vk,
            None => vk_texel_layout(format.layout()),
        },
    }
}

/// Vulkan representation of a semantic sampled or storage image format.
pub fn vk_storage_image(format: StorageImageFormat) -> (vk: Format)
    ensures
        vk == storage_format(format),
{
    match format {
        StorageImageFormat::Rgba32Float => Format(FORMAT_R32G32B32A32_SFLOAT),
        StorageImageFormat::Rgba16Float => Format(FORMAT_R16G16B16A16_SFLOAT),
        StorageImageFormat::R16Float => Format(FORMAT_R16_SFLOAT),
        StorageImageFormat::R16Uint => Format(FORMAT_R16_UINT),
        StorageImageFormat::Rgba16Uint => Format(FORMAT_R16G16B16A16_UINT),
        StorageImageFormat::Rgba8Uint => Format(FORMAT_R8G8B8A8_UINT),
        StorageImageFormat::Rgba8Sint => Format(FORMAT_R8G8B8A8_SINT),
        StorageImageFormat::Rgba8Unorm => Format(FORMAT_R8G8B8A8_UNORM),
        StorageImageFormat::Bgra8Unorm => Format(FORMAT_B8G8R8A8_UNORM),
        StorageImageFormat::Rg16Float => Format(FORMAT_R16G16_SFLOAT),
        StorageImageFormat::R8Unorm => Format(FORMAT_R8_UNORM),
        StorageImageFormat::Rg8Unorm => Format(FORMAT_R8G8_UNORM),
        StorageImageFormat::Rgba32Uint => Format(FORMAT_R32G32B32A32_UINT),
        StorageImageFormat::Rgba32Sint => Format(FORMAT_R32G32B32A32_SINT),
        StorageImageFormat::R32Uint => Format(FORMAT_R32_UINT),
        StorageImageFormat::R32Sint => Format(FORMAT_R32_SINT),
        StorageImageFormat::R32Float => Format(FORMAT_R32_SFLOAT),
        StorageImageFormat::Rgb9e5Ufloat => Format(FORMAT_E5B9G9R9_UFLOAT_PACK32),
        StorageImageFormat::R16Unorm => Format(FORMAT_R16_UNORM),
        StorageImageFormat::Rg16Unorm => Format(FORMAT_R16G16_UNORM),
        StorageImageFormat::Rgba16Unorm => Format(FORMAT_R16G16B16A16_UNORM),
        StorageImageFormat::Rgb10a2Unorm => Format(FORMAT_A2B10G10R10_UNORM_PACK32),
        StorageImageFormat::Bgr10a2Unorm => Format(FORMAT_A2R10G10B10_UNORM_PACK32),
        StorageImageFormat::Rg11b10Float => Format(FORMAT_B10G11R11_UFLOAT_PACK32),
    }
}

/// The sRGB format that a storage image is sampled through.
pub open spec fn sampled_srgb_format(storage: StorageImageFormat) -> Format {
    if storage is Bgra8Unorm {
        Format(FORMAT_B8G8R8A8_SRGB)
    } else {
        Format(FORMAT_R8G8B8A8_SRGB)
    }
}

/// Vulkan view format for a semantic sampled image.
pub fn vk_sampled_image(format: SampledImageFormat) -> (vk: Format)
    requires
        format.wf(),
    ensures
        vk == match format.transfer_spec() {
            TransferFunction::Linear => storage_format(format.storage_spec()),
            TransferFunction::Srgb => sampled_srgb_format(format.storage_spec()),
        },
{
    match format.transfer() {
        TransferFunction::Linear => vk_storage_image(format.storage()),
        TransferFunction::Srgb => match format.storage() {
            StorageImageFormat::Bgra8Unorm => Format(FORMAT_B8G8R8A8_SRGB),
            _ => Format(FORMAT_R8G8B8A8_SRGB),
        },
    }
}

/// Every semantic format has a defined Vulkan format, and no two layouts or
/// storage formats share one.
pub proof fn law_formats_are_defined_and_distinct(
    a: TexelLayout,
    b: TexelLayout,
    c: StorageImageFormat,
    d: StorageImageFormat,
)
    ensures
        linear_format(a).0 != FORMAT_UNDEFINED,
        storage_format(c).0 != FORMAT_UNDEFINED,
        linear_format(a) == linear_format(b) ==> a == b,
        storage_format(c) == storage_format(d) ==> c == d,
{
}

/// Viewing a layout through its sRGB encoding changes the view and not the
/// layout: the linear view of the same layout differs.
pub proof fn law_transfer_selects_the_view(layout: TexelLayout)
    ensures
        srgb_format(layout) is Some <==> layout.srgb_capable(),
        srgb_format(layout) matches Some(format) ==> format != linear_format(layout),
{
}

/// Each texel layout has the Vulkan format of its components: where a storage image has the
/// same texels, it has the same format.
pub proof fn law_equal_texels_have_one_format()
    ensures
        linear_format(TexelLayout::Rgba8) == storage_format(StorageImageFormat::Rgba8Unorm),
        linear_format(TexelLayout::Bgra8) == storage_format(StorageImageFormat::Bgra8Unorm),
        linear_format(TexelLayout::R8) == storage_format(StorageImageFormat::R8Unorm),
        linear_format(TexelLayout::Rg8) == storage_format(StorageImageFormat::Rg8Unorm),
        linear_format(TexelLayout::R16Float) == storage_format(StorageImageFormat::R16Float),
        linear_format(TexelLayout::R32Float) == storage_format(StorageImageFormat::R32Float),
        linear_format(TexelLayout::R16Unorm) == storage_format(StorageImageFormat::R16Unorm),
        linear_format(TexelLayout::Rg16Unorm) == storage_format(StorageImageFormat::Rg16Unorm),
        linear_format(TexelLayout::Rgba16Unorm) == storage_format(StorageImageFormat::Rgba16Unorm),
        linear_format(TexelLayout::Rgba16Float) == storage_format(StorageImageFormat::Rgba16Float),
        linear_format(TexelLayout::Rg16Float) == storage_format(StorageImageFormat::Rg16Float),
        linear_format(TexelLayout::Rgb10a2Unorm) == storage_format(
            StorageImageFormat::Rgb10a2Unorm,
        ),
        linear_format(TexelLayout::Bgr10a2Unorm) == storage_format(
            StorageImageFormat::Bgr10a2Unorm,
        ),
        linear_format(TexelLayout::Rg11b10Float) == storage_format(
            StorageImageFormat::Rg11b10Float,
        ),
        srgb_format(TexelLayout::Rgba8) == Some(
            sampled_srgb_format(StorageImageFormat::Rgba8Unorm),
        ),
        srgb_format(TexelLayout::Bgra8) == Some(
            sampled_srgb_format(StorageImageFormat::Bgra8Unorm),
        ),
{
}

/// The numbers of the formats are Vulkan's own.
pub proof fn law_formats_have_vulkans_numbers()
    ensures
        linear_format(TexelLayout::R8).0 == 9,
        linear_format(TexelLayout::Rg8).0 == 16,
        linear_format(TexelLayout::Rgba8).0 == 37,
        linear_format(TexelLayout::Bgra8).0 == 44,
        linear_format(TexelLayout::Bgr10a2Unorm).0 == 58,
        linear_format(TexelLayout::Rgb10a2Unorm).0 == 64,
        linear_format(TexelLayout::R16Unorm).0 == 70,
        linear_format(TexelLayout::R16Float).0 == 76,
        linear_format(TexelLayout::Rg16Unorm).0 == 77,
        linear_format(TexelLayout::Rg16Float).0 == 83,
        linear_format(TexelLayout::Rgba16Unorm).0 == 91,
        linear_format(TexelLayout::Rgba16Float).0 == 97,
        linear_format(TexelLayout::R32Float).0 == 100,
        linear_format(TexelLayout::Rg11b10Float).0 == 122,
        srgb_format(TexelLayout::Rgba8) == Some(Format(43)),
        srgb_format(TexelLayout::Bgra8) == Some(Format(50)),
        storage_format(StorageImageFormat::Rgba8Uint).0 == 41,
        storage_format(StorageImageFormat::Rgba8Sint).0 == 42,
        storage_format(StorageImageFormat::R16Uint).0 == 74,
        storage_format(StorageImageFormat::Rgba16Uint).0 == 95,
        storage_format(StorageImageFormat::R32Uint).0 == 98,
        storage_format(StorageImageFormat::R32Sint).0 == 99,
        storage_format(StorageImageFormat::Rgba32Uint).0 == 107,
        storage_format(StorageImageFormat::Rgba32Sint).0 == 108,
        storage_format(StorageImageFormat::Rgba32Float).0 == 109,
        storage_format(StorageImageFormat::Rgb9e5Ufloat).0 == 123,
{
}

} // verus!
