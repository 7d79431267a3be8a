//! Texel formats, the embedded kernel and the driver's numbers.

use reims_vgpu_vulkan::format::{
    srgb_texel_layout, vk_image_format, vk_sampled_image, vk_storage_image, vk_texel_layout,
    ImageFormat, SampledImageFormat, StorageImageFormat, TexelLayout, TransferFunction,
    FORMAT_UNDEFINED,
};
use reims_vgpu_vulkan::scatter_shader::GUEST_SCATTER_SPIRV;
use reims_vgpu_vulkan::types::{DrawError, VkCall, VkOp};
use reims_vgpu_vulkan::vk::{
    Format, VkResult, ERROR_DEVICE_LOST, ERROR_FORMAT_NOT_SUPPORTED,
    ERROR_OUT_OF_DEVICE_MEMORY, ERROR_OUT_OF_HOST_MEMORY, TIMEOUT,
};

fn of(format: ash::vk::Format) -> Format {
    Format(format.as_raw())
}

#[test]
fn every_semantic_layout_has_one_vulkan_storage_format() {
    for layout in TexelLayout::all() {
        assert_ne!(vk_texel_layout(layout), Format(FORMAT_UNDEFINED));
        assert_eq!(
            srgb_texel_layout(layout).is_some(),
            layout.has_srgb_encoding()
        );
    }
}

#[test]
fn semantic_image_formats_map_without_an_undefined_fallback() {
    let formats = [
        StorageImageFormat::Rgba32Float,
        StorageImageFormat::Rgba8Unorm,
        StorageImageFormat::R16Unorm,
        StorageImageFormat::Bgr10a2Unorm,
    ];
    for format in formats {
        assert_ne!(vk_storage_image(format), of(ash::vk::Format::UNDEFINED));
    }
}

#[test]
fn image_view_transfer_selects_the_native_view_without_changing_storage() {
    let linear = ImageFormat::linear(TexelLayout::Bgra8);
    let srgb = ImageFormat::srgb(TexelLayout::Bgra8).unwrap();
    assert_eq!(
        vk_image_format(linear),
        of(ash::vk::Format::B8G8R8A8_UNORM)
    );
    assert_eq!(vk_image_format(srgb), of(ash::vk::Format::B8G8R8A8_SRGB));
    assert_eq!(srgb.layout(), TexelLayout::Bgra8);
    assert_eq!(srgb.transfer(), TransferFunction::Srgb);
    assert!(ImageFormat::srgb(TexelLayout::R8).is_none());
}

#[test]
fn each_layout_names_the_drivers_format() {
    let expected = [
        (TexelLayout::Rgba8, ash::vk::Format::R8G8B8A8_UNORM),
        (TexelLayout::Bgra8, ash::vk::Format::B8G8R8A8_UNORM),
        (TexelLayout::R8, ash::vk::Format::R8_UNORM),
        (TexelLayout::Rg8, ash::vk::Format::R8G8_UNORM),
        (TexelLayout::R16Float, ash::vk::Format::R16_SFLOAT),
        (TexelLayout::R32Float, ash::vk::Format::R32_SFLOAT),
        (TexelLayout::R16Unorm, ash::vk::Format::R16_UNORM),
        (TexelLayout::Rg16Unorm, ash::vk::Format::R16G16_UNORM),
        (TexelLayout::Rgba16Unorm, ash::vk::Format::R16G16B16A16_UNORM),
        (TexelLayout::Rgba16Float, ash::vk::Format::R16G16B16A16_SFLOAT),
        (TexelLayout::Rg16Float, ash::vk::Format::R16G16_SFLOAT),
        (TexelLayout::Rgb10a2Unorm, ash::vk::Format::A2B10G10R10_UNORM_PACK32),
        (TexelLayout::Bgr10a2Unorm, ash::vk::Format::A2R10G10B10_UNORM_PACK32),
        (TexelLayout::Rg11b10Float, ash::vk::Format::B10G11R11_UFLOAT_PACK32),
    ];
    for (layout, format) in expected {
        assert_eq!(vk_texel_layout(layout), of(format), "{layout:?}");
    }
    assert_eq!(
        srgb_texel_layout(TexelLayout::Rgba8),
        Some(of(ash::vk::Format::R8G8B8A8_SRGB))
    );
}

#[test]
fn each_storage_format_names_the_drivers_format() {
    let expected = [
        (StorageImageFormat::Rgba32Float, ash::vk::Format::R32G32B32A32_SFLOAT),
        (StorageImageFormat::Rgba16Float, ash::vk::Format::R16G16B16A16_SFLOAT),
        (StorageImageFormat::R16Float, ash::vk::Format::R16_SFLOAT),
        (StorageImageFormat::R16Uint, ash::vk::Format::R16_UINT),
        (StorageImageFormat::Rgba16Uint, ash::vk::Format::R16G16B16A16_UINT),
        (StorageImageFormat::Rgba8Uint, ash::vk::Format::R8G8B8A8_UINT),
        (StorageImageFormat::Rgba8Sint, ash::vk::Format::R8G8B8A8_SINT),
        (StorageImageFormat::Rgba8Unorm, ash::vk::Format::R8G8B8A8_UNORM),
        (StorageImageFormat::Bgra8Unorm, ash::vk::Format::B8G8R8A8_UNORM),
        (StorageImageFormat::Rg16Float, ash::vk::Format::R16G16_SFLOAT),
        (StorageImageFormat::R8Unorm, ash::vk::Format::R8_UNORM),
        (StorageImageFormat::Rg8Unorm, ash::vk::Format::R8G8_UNORM),
        (StorageImageFormat::Rgba32Uint, ash::vk::Format::R32G32B32A32_UINT),
        (StorageImageFormat::Rgba32Sint, ash::vk::Format::R32G32B32A32_SINT),
        (StorageImageFormat::R32Uint, ash::vk::Format::R32_UINT),
        (StorageImageFormat::R32Sint, ash::vk::Format::R32_SINT),
        (StorageImageFormat::R32Float, ash::vk::Format::R32_SFLOAT),
        (StorageImageFormat::Rgb9e5Ufloat, ash::vk::Format::E5B9G9R9_UFLOAT_PACK32),
        (StorageImageFormat::R16Unorm, ash::vk::Format::R16_UNORM),
        (StorageImageFormat::Rg16Unorm, ash::vk::Format::R16G16_UNORM),
        (StorageImageFormat::Rgba16Unorm, ash::vk::Format::R16G16B16A16_UNORM),
        (StorageImageFormat::Rgb10a2Unorm, ash::vk::Format::A2B10G10R10_UNORM_PACK32),
        (StorageImageFormat::Bgr10a2Unorm, ash::vk::Format::A2R10G10B10_UNORM_PACK32),
        (StorageImageFormat::Rg11b10Float, ash::vk::Format::B10G11R11_UFLOAT_PACK32),
    ];
    for (format, vulkan) in expected {
        assert_eq!(vk_storage_image(format), of(vulkan), "{format:?}");
        assert_eq!(
            vk_sampled_image(SampledImageFormat::linear(format)),
            of(vulkan)
        );
    }
    let srgb = SampledImageFormat::srgb(StorageImageFormat::Bgra8Unorm).unwrap();
    assert_eq!(vk_sampled_image(srgb), of(ash::vk::Format::B8G8R8A8_SRGB));
    assert!(SampledImageFormat::srgb(StorageImageFormat::R8Unorm).is_none());
}

#[test]
fn the_embedded_scatter_spirv_is_a_spirv_module() {
    assert_eq!(GUEST_SCATTER_SPIRV[0], 0x0723_0203, "SPIR-V magic word");
}

#[test]
fn result_codes_are_the_drivers() {
    assert_eq!(TIMEOUT, ash::vk::Result::TIMEOUT.as_raw());
    assert_eq!(ERROR_DEVICE_LOST, ash::vk::Result::ERROR_DEVICE_LOST.as_raw());
    assert_eq!(
        ERROR_FORMAT_NOT_SUPPORTED,
        ash::vk::Result::ERROR_FORMAT_NOT_SUPPORTED.as_raw()
    );
    assert_eq!(
        ERROR_OUT_OF_HOST_MEMORY,
        ash::vk::Result::ERROR_OUT_OF_HOST_MEMORY.as_raw()
    );
    assert_eq!(
        ERROR_OUT_OF_DEVICE_MEMORY,
        ash::vk::Result::ERROR_OUT_OF_DEVICE_MEMORY.as_raw()
    );
}

#[test]
fn a_result_code_is_shown_by_its_name() {
    let shown = |raw: i32| {
        let call = VkCall::new(VkOp::Named("op"), VkResult(raw));
        DrawError::VkCall(call).fields()
    };
    assert_eq!(
        shown(ERROR_DEVICE_LOST),
        vec![("result", "ERROR_DEVICE_LOST".to_string())]
    );
    assert_eq!(shown(-123_456), vec![("result", "-123456".to_string())]);
}
