use ktx2_rw::format::{
    KTX_TTF_ASTC_4x4_RGBA, KTX_TTF_BC1_RGB, KTX_TTF_BC3_RGBA, KTX_TTF_BC4_R, KTX_TTF_BC5_RG,
    KTX_TTF_BC7_RGBA, KTX_TTF_BGR565, KTX_TTF_ETC1_RGB, KTX_TTF_ETC2_RGBA, KTX_TTF_PVRTC1_4_RGB,
    KTX_TTF_PVRTC1_4_RGBA, KTX_TTF_RGB565, KTX_TTF_RGBA32, KTX_TTF_RGBA4444,
};
use ktx2_rw::{TranscodeFormat, VkFormat};

#[test]
fn test_transcode_format_conversion() {
    let format = TranscodeFormat::Bc7Rgba;
    let ktx_format: u32 = format.into();
    assert_eq!(ktx_format, KTX_TTF_BC7_RGBA);
}

#[test]
fn test_all_transcode_format_conversions() {
    let test_cases = [
        (TranscodeFormat::Etc1Rgb, KTX_TTF_ETC1_RGB),
        (TranscodeFormat::Etc2Rgba, KTX_TTF_ETC2_RGBA),
        (TranscodeFormat::Bc1Rgb, KTX_TTF_BC1_RGB),
        (TranscodeFormat::Bc3Rgba, KTX_TTF_BC3_RGBA),
        (TranscodeFormat::Bc4R, KTX_TTF_BC4_R),
        (TranscodeFormat::Bc5Rg, KTX_TTF_BC5_RG),
        (TranscodeFormat::Bc7Rgba, KTX_TTF_BC7_RGBA),
        (TranscodeFormat::Pvrtc1_4_Rgb, KTX_TTF_PVRTC1_4_RGB),
        (TranscodeFormat::Pvrtc1_4_Rgba, KTX_TTF_PVRTC1_4_RGBA),
        (TranscodeFormat::Astc_4x4_Rgba, KTX_TTF_ASTC_4x4_RGBA),
        (TranscodeFormat::Rgba32, KTX_TTF_RGBA32),
        (TranscodeFormat::Rgb565, KTX_TTF_RGB565),
        (TranscodeFormat::Bgr565, KTX_TTF_BGR565),
        (TranscodeFormat::Rgba4444, KTX_TTF_RGBA4444),
    ];

    for (format, expected_ktx_format) in test_cases {
        let ktx_format: u32 = format.into();
        assert_eq!(ktx_format, expected_ktx_format);
    }
}

#[test]
fn test_transcode_format_debug() {
    let format = TranscodeFormat::Bc7Rgba;
    let debug_str = format!("{format:?}");
    assert_eq!(debug_str, "Bc7Rgba");
}

#[test]
fn test_transcode_format_clone() {
    let format = TranscodeFormat::Etc2Rgba;
    let cloned = format;
    assert_eq!(format, cloned);
}

#[test]
fn test_vk_format_as_raw() {
    assert_eq!(VkFormat::R8G8B8A8Unorm.as_raw(), 37);
    assert_eq!(VkFormat::Undefined.as_raw(), 0);
    assert_eq!(VkFormat::Bc7UnormBlock.as_raw(), 145);
}

#[test]
fn test_vk_format_from_raw() {
    assert_eq!(VkFormat::from_raw(37), Some(VkFormat::R8G8B8A8Unorm));
    assert_eq!(VkFormat::from_raw(145), Some(VkFormat::Bc7UnormBlock));
    assert_eq!(VkFormat::from_raw(1234), None);
}

#[test]
fn test_vk_format_round_trip_all() {
    let formats = [
        VkFormat::Undefined,
        VkFormat::R8Unorm,
        VkFormat::R8G8Unorm,
        VkFormat::R8G8B8Unorm,
        VkFormat::R8G8B8A8Unorm,
        VkFormat::R8G8B8A8Srgb,
        VkFormat::B8G8R8Unorm,
        VkFormat::B8G8R8A8Unorm,
        VkFormat::B8G8R8A8Srgb,
        VkFormat::R32Sfloat,
        VkFormat::R32G32Sfloat,
        VkFormat::R32G32B32A32Sfloat,
        VkFormat::R16Sfloat,
        VkFormat::R16G16Sfloat,
        VkFormat::R16G16B16A16Sfloat,
        VkFormat::Bc1RgbUnormBlock,
        VkFormat::Bc1RgbaUnormBlock,
        VkFormat::Bc1RgbaSrgbBlock,
        VkFormat::Bc3UnormBlock,
        VkFormat::Bc3SrgbBlock,
        VkFormat::Bc4UnormBlock,
        VkFormat::Bc5UnormBlock,
        VkFormat::Bc7UnormBlock,
        VkFormat::Bc7SrgbBlock,
        VkFormat::Etc2R8G8B8UnormBlock,
        VkFormat::Etc2R8G8B8SrgbBlock,
        VkFormat::Etc2R8G8B8A1UnormBlock,
        VkFormat::Etc2R8G8B8A1SrgbBlock,
        VkFormat::Etc2R8G8B8A8UnormBlock,
        VkFormat::Etc2R8G8B8A8SrgbBlock,
        VkFormat::Astc4x4UnormBlock,
        VkFormat::Astc4x4SrgbBlock,
        VkFormat::Astc8x8UnormBlock,
        VkFormat::Astc8x8SrgbBlock,
    ];
    for format in formats {
        assert_eq!(VkFormat::from_raw(format.as_raw()), Some(format));
    }
}
