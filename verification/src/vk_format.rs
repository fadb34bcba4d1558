//! Vulkan pixel-format definitions.
//!
//! The pixel-format code space follows the Vulkan format numbering
//! convention. Only the most common formats are included; unknown raw codes
//! decode to `None`.

use vstd::prelude::*;

verus! {

/// Vulkan pixel format.
#[derive(Debug, Clone, Copy, PartialEq, Eq, Hash, Structural)]
pub enum VkFormat {
    /// Undefined format
    Undefined,
    /// 8-bit R component, unsigned normalized
    R8Unorm,
    /// 8-bit R and G components, unsigned normalized
    R8G8Unorm,
    /// 8-bit R, G and B components, unsigned normalized
    R8G8B8Unorm,
    /// 8-bit R, G, B and A components, unsigned normalized
    R8G8B8A8Unorm,
    /// 8-bit R, G, B and A components, sRGB
    R8G8B8A8Srgb,
    /// 8-bit B, G and R components, unsigned normalized
    B8G8R8Unorm,
    /// 8-bit B, G, R and A components, unsigned normalized
    B8G8R8A8Unorm,
    /// 8-bit B, G, R and A components, sRGB
    B8G8R8A8Srgb,
    /// 32-bit R component, signed float
    R32Sfloat,
    /// 32-bit R and G components, signed float
    R32G32Sfloat,
    /// 32-bit R, G, B and A components, signed float
    R32G32B32A32Sfloat,
    /// 16-bit R component, signed float
    R16Sfloat,
    /// 16-bit R and G components, signed float
    R16G16Sfloat,
    /// 16-bit R, G, B and A components, signed float
    R16G16B16A16Sfloat,
    /// BC1 compressed format (DXT1)
    Bc1RgbUnormBlock,
    /// BC1 compressed format with alpha (DXT1)
    Bc1RgbaUnormBlock,
    /// BC1 compressed format with alpha (DXT1), sRGB
    Bc1RgbaSrgbBlock,
    /// BC3 compressed format (DXT5)
    Bc3UnormBlock,
    /// BC3 compressed format (DXT5), sRGB
    Bc3SrgbBlock,
    /// BC4 compressed format (unsigned)
    Bc4UnormBlock,
    /// BC5 compressed format (unsigned)
    Bc5UnormBlock,
    /// BC7 compressed format
    Bc7UnormBlock,
    /// BC7 compressed format (sRGB)
    Bc7SrgbBlock,
    /// ETC2 compressed format (RGB)
    Etc2R8G8B8UnormBlock,
    /// ETC2 compressed format (RGB, sRGB)
    Etc2R8G8B8SrgbBlock,
    /// ETC2 compressed format with alpha
    Etc2R8G8B8A1UnormBlock,
    /// ETC2 compressed format with alpha (sRGB)
    Etc2R8G8B8A1SrgbBlock,
    /// ETC2 compressed format with EAC alpha
    Etc2R8G8B8A8UnormBlock,
    /// ETC2 compressed format with EAC alpha (sRGB)
    Etc2R8G8B8A8SrgbBlock,
    /// ASTC 4x4 compressed format
    Astc4x4UnormBlock,
    /// ASTC 4x4 compressed format (sRGB)
    Astc4x4SrgbBlock,
    /// ASTC 8x8 compressed format
    Astc8x8UnormBlock,
    /// ASTC 8x8 compressed format (sRGB)
    Astc8x8SrgbBlock,
}

/// The raw Vulkan code of each pixel format.
pub open spec fn vk_raw_spec(format: VkFormat) -> u32 {
    match format {
        VkFormat::Undefined => 0,
        VkFormat::R8Unorm => 9,
        VkFormat::R8G8Unorm => 16,
        VkFormat::R8G8B8Unorm => 23,
        VkFormat::R8G8B8A8Unorm => 37,
        VkFormat::R8G8B8A8Srgb => 43,
        VkFormat::B8G8R8Unorm => 30,
        VkFormat::B8G8R8A8Unorm => 44,
        VkFormat::B8G8R8A8Srgb => 50,
        VkFormat::R32Sfloat => 100,
        VkFormat::R32G32Sfloat => 103,
        VkFormat::R32G32B32A32Sfloat => 109,
        VkFormat::R16Sfloat => 70,
        VkFormat::R16G16Sfloat => 73,
        VkFormat::R16G16B16A16Sfloat => 97,
        VkFormat::Bc1RgbUnormBlock => 131,
        VkFormat::Bc1RgbaUnormBlock => 132,
        VkFormat::Bc1RgbaSrgbBlock => 134,
        VkFormat::Bc3UnormBlock => 136,
        VkFormat::Bc3SrgbBlock => 138,
        VkFormat::Bc4UnormBlock => 137,
        VkFormat::Bc5UnormBlock => 140,
        VkFormat::Bc7UnormBlock => 145,
        VkFormat::Bc7SrgbBlock => 146,
        VkFormat::Etc2R8G8B8UnormBlock => 147,
        VkFormat::Etc2R8G8B8SrgbBlock => 148,
        VkFormat::Etc2R8G8B8A1UnormBlock => 149,
        VkFormat::Etc2R8G8B8A1SrgbBlock => 150,
        VkFormat::Etc2R8G8B8A8UnormBlock => 151,
        VkFormat::Etc2R8G8B8A8SrgbBlock => 152,
        VkFormat::Astc4x4UnormBlock => 157,
        VkFormat::Astc4x4SrgbBlock => 158,
        VkFormat::Astc8x8UnormBlock => 165,
        VkFormat::Astc8x8SrgbBlock => 172,
    }
}

/// The pixel format a raw Vulkan code decodes to, `None` for codes outside
/// the known set.
pub open spec fn vk_from_raw_spec(value: u32) -> Option<VkFormat> {
    if value == 0 {
        Some(VkFormat::Undefined)
    } else if value == 9 {
        Some(VkFormat::R8Unorm)
    } else if value == 16 {
        Some(VkFormat::R8G8Unorm)
    } else if value == 23 {
        Some(VkFormat::R8G8B8Unorm)
    } else if value == 37 {
        Some(VkFormat::R8G8B8A8Unorm)
    } else if value == 43 {
        Some(VkFormat::R8G8B8A8Srgb)
    } else if value == 30 {
        Some(VkFormat::B8G8R8Unorm)
    } else if value == 44 {
        Some(VkFormat::B8G8R8A8Unorm)
    } else if value == 50 {
        Some(VkFormat::B8G8R8A8Srgb)
    } else if value == 100 {
        Some(VkFormat::R32Sfloat)
    } else if value == 103 {
        Some(VkFormat::R32G32Sfloat)
    } else if value == 109 {
        Some(VkFormat::R32G32B32A32Sfloat)
    } else if value == 70 {
        Some(VkFormat::R16Sfloat)
    } else if value == 73 {
        Some(VkFormat::R16G16Sfloat)
    } else if value == 97 {
        Some(VkFormat::R16G16B16A16Sfloat)
    } else if value == 131 {
        Some(VkFormat::Bc1RgbUnormBlock)
    } else if value == 132 {
        Some(VkFormat::Bc1RgbaUnormBlock)
    } else if value == 134 {
        Some(VkFormat::Bc1RgbaSrgbBlock)
    } else if value == 136 {
        Some(VkFormat::Bc3UnormBlock)
    } else if value == 138 {
        Some(VkFormat::Bc3SrgbBlock)
    } else if value == 137 {
        Some(VkFormat::Bc4UnormBlock)
    } else if value == 140 {
        Some(VkFormat::Bc5UnormBlock)
    } else if value == 145 {
        Some(VkFormat::Bc7UnormBlock)
    } else if value == 146 {
        Some(VkFormat::Bc7SrgbBlock)
    } else if value == 147 {
        Some(VkFormat::Etc2R8G8B8UnormBlock)
    } else if value == 148 {
        Some(VkFormat::Etc2R8G8B8SrgbBlock)
    } else if value == 149 {
        Some(VkFormat::Etc2R8G8B8A1UnormBlock)
    } else if value == 150 {
        Some(VkFormat::Etc2R8G8B8A1SrgbBlock)
    } else if value == 151 {
        Some(VkFormat::Etc2R8G8B8A8UnormBlock)
    } else if value == 152 {
        Some(VkFormat::Etc2R8G8B8A8SrgbBlock)
    } else if value == 157 {
        Some(VkFormat::Astc4x4UnormBlock)
    } else if value == 158 {
        Some(VkFormat::Astc4x4SrgbBlock)
    } else if value == 165 {
        Some(VkFormat::Astc8x8UnormBlock)
    } else if value == 172 {
        Some(VkFormat::Astc8x8SrgbBlock)
    } else {
        None
    }
}

impl VkFormat {
    /// Get the raw Vulkan code of this format.
    pub fn as_raw(&self) -> (r: u32)
        ensures
            r == vk_raw_spec(*self),
    {
        match self {
            VkFormat::Undefined => 0,
            VkFormat::R8Unorm => 9,
            VkFormat::R8G8Unorm => 16,
            VkFormat::R8G8B8Unorm => 23,
            VkFormat::R8G8B8A8Unorm => 37,
            VkFormat::R8G8B8A8Srgb => 43,
            VkFormat::B8G8R8Unorm => 30,
            VkFormat::B8G8R8A8Unorm => 44,
            VkFormat::B8G8R8A8Srgb => 50,
            VkFormat::R32Sfloat => 100,
            VkFormat::R32G32Sfloat => 103,
            VkFormat::R32G32B32A32Sfloat => 109,
            VkFormat::R16Sfloat => 70,
            VkFormat::R16G16Sfloat => 73,
            VkFormat::R16G16B16A16Sfloat => 97,
            VkFormat::Bc1RgbUnormBlock => 131,
            VkFormat::Bc1RgbaUnormBlock => 132,
            VkFormat::Bc1RgbaSrgbBlock => 134,
            VkFormat::Bc3UnormBlock => 136,
            VkFormat::Bc3SrgbBlock => 138,
            VkFormat::Bc4UnormBlock => 137,
            VkFormat::Bc5UnormBlock => 140,
            VkFormat::Bc7UnormBlock => 145,
            VkFormat::Bc7SrgbBlock => 146,
            VkFormat::Etc2R8G8B8UnormBlock => 147,
            VkFormat::Etc2R8G8B8SrgbBlock => 148,
            VkFormat::Etc2R8G8B8A1UnormBlock => 149,
            VkFormat::Etc2R8G8B8A1SrgbBlock => 150,
            VkFormat::Etc2R8G8B8A8UnormBlock => 151,
            VkFormat::Etc2R8G8B8A8SrgbBlock => 152,
            VkFormat::Astc4x4UnormBlock => 157,
            VkFormat::Astc4x4SrgbBlock => 158,
            VkFormat::Astc8x8UnormBlock => 165,
            VkFormat::Astc8x8SrgbBlock => 172,
        }
    }

    /// Create a `VkFormat` from a raw Vulkan code.
    ///
    /// Returns `None` if the code does not correspond to a known format.
    pub fn from_raw(value: u32) -> (r: Option<VkFormat>)
        ensures
            r == vk_from_raw_spec(value),
    {
        if value == 0 {
            Some(VkFormat::Undefined)
        } else if value == 9 {
            Some(VkFormat::R8Unorm)
        } else if value == 16 {
            Some(VkFormat::R8G8Unorm)
        } else if value == 23 {
            Some(VkFormat::R8G8B8Unorm)
        } else if value == 37 {
            Some(VkFormat::R8G8B8A8Unorm)
        } else if value == 43 {
            Some(VkFormat::R8G8B8A8Srgb)
        } else if value == 30 {
            Some(VkFormat::B8G8R8Unorm)
        } else if value == 44 {
            Some(VkFormat::B8G8R8A8Unorm)
        } else if value == 50 {
            Some(VkFormat::B8G8R8A8Srgb)
        } else if value == 100 {
            Some(VkFormat::R32Sfloat)
        } else if value == 103 {
            Some(VkFormat::R32G32Sfloat)
        } else if value == 109 {
            Some(VkFormat::R32G32B32A32Sfloat)
        } else if value == 70 {
            Some(VkFormat::R16Sfloat)
        } else if value == 73 {
            Some(VkFormat::R16G16Sfloat)
        } else if value == 97 {
            Some(VkFormat::R16G16B16A16Sfloat)
        } else if value == 131 {
            Some(VkFormat::Bc1RgbUnormBlock)
        } else if value == 132 {
            Some(VkFormat::Bc1RgbaUnormBlock)
        } else if value == 134 {
            Some(VkFormat::Bc1RgbaSrgbBlock)
        } else if value == 136 {
            Some(VkFormat::Bc3UnormBlock)
        } else if value == 138 {
            Some(VkFormat::Bc3SrgbBlock)
        } else if value == 137 {
            Some(VkFormat::Bc4UnormBlock)
        } else if value == 140 {
            Some(VkFormat::Bc5UnormBlock)
        } else if value == 145 {
            Some(VkFormat::Bc7UnormBlock)
        } else if value == 146 {
            Some(VkFormat::Bc7SrgbBlock)
        } else if value == 147 {
            Some(VkFormat::Etc2R8G8B8UnormBlock)
        } else if value == 148 {
            Some(VkFormat::Etc2R8G8B8SrgbBlock)
        } else if value == 149 {
            Some(VkFormat::Etc2R8G8B8A1UnormBlock)
        } else if value == 150 {
            Some(VkFormat::Etc2R8G8B8A1SrgbBlock)
        } else if value == 151 {
            Some(VkFormat::Etc2R8G8B8A8UnormBlock)
        } else if value == 152 {
            Some(VkFormat::Etc2R8G8B8A8SrgbBlock)
        } else if value == 157 {
            Some(VkFormat::Astc4x4UnormBlock)
        } else if value == 158 {
            Some(VkFormat::Astc4x4SrgbBlock)
        } else if value == 165 {
            Some(VkFormat::Astc8x8UnormBlock)
        } else if value == 172 {
            Some(VkFormat::Astc8x8SrgbBlock)
        } else {
            None
        }
    }
}

/// Encoding a pixel format to its raw code and decoding it again yields the
/// same format: the two mappings are mutually inverse over the known set.
pub proof fn lemma_vk_raw_round_trip(format: VkFormat)
    ensures
        vk_from_raw_spec(vk_raw_spec(format)) == Some(format),
{
}

/// Decoding a raw code and re-encoding the result yields the same code.
pub proof fn lemma_vk_from_raw_round_trip(value: u32)
    requires
        vk_from_raw_spec(value) is Some,
    ensures
        vk_raw_spec(vk_from_raw_spec(value).unwrap()) == value,
{
}

} // verus!
