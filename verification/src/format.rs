//! Transcode target formats.
//!
//! A closed enumeration of GPU block-compression and raw formats that a
//! Basis-Universal-compressed texture can be transcoded into, with its
//! mapping onto the native transcode-format code space.

use vstd::prelude::*;

verus! {

/// Native transcode-format code for ETC1 RGB.
pub const KTX_TTF_ETC1_RGB: u32 = 0;

/// Native transcode-format code for ETC2 RGBA.
pub const KTX_TTF_ETC2_RGBA: u32 = 1;

/// Native transcode-format code for BC1 RGB.
pub const KTX_TTF_BC1_RGB: u32 = 2;

/// Native transcode-format code for BC3 RGBA.
pub const KTX_TTF_BC3_RGBA: u32 = 3;

/// Native transcode-format code for BC4 R.
pub const KTX_TTF_BC4_R: u32 = 4;

/// Native transcode-format code for BC5 RG.
pub const KTX_TTF_BC5_RG: u32 = 5;

/// Native transcode-format code for BC7 RGBA.
pub const KTX_TTF_BC7_RGBA: u32 = 6;

/// Native transcode-format code for PVRTC1 4bpp RGB.
pub const KTX_TTF_PVRTC1_4_RGB: u32 = 8;

/// Native transcode-format code for PVRTC1 4bpp RGBA.
pub const KTX_TTF_PVRTC1_4_RGBA: u32 = 9;

/// Native transcode-format code for ASTC 4x4 RGBA.
pub const KTX_TTF_ASTC_4x4_RGBA: u32 = 10;

/// Native transcode-format code for uncompressed RGBA32.
pub const KTX_TTF_RGBA32: u32 = 13;

/// Native transcode-format code for RGB565.
pub const KTX_TTF_RGB565: u32 = 14;

/// Native transcode-format code for BGR565.
pub const KTX_TTF_BGR565: u32 = 15;

/// Native transcode-format code for RGBA4444.
pub const KTX_TTF_RGBA4444: u32 = 16;

/// GPU texture formats supported as transcode targets.
#[allow(non_camel_case_types)]
#[derive(Debug, Clone, Copy, PartialEq, Eq, Structural)]
pub enum TranscodeFormat {
    /// ETC1 RGB format (mobile)
    Etc1Rgb,
    /// ETC2 RGBA format (mobile)
    Etc2Rgba,
    /// BC1 RGB format (desktop)
    Bc1Rgb,
    /// BC3 RGBA format (desktop)
    Bc3Rgba,
    /// BC4 R format (desktop)
    Bc4R,
    /// BC5 RG format (desktop)
    Bc5Rg,
    /// BC7 RGBA format (desktop, high quality)
    Bc7Rgba,
    /// PVRTC1 4bpp RGB format (iOS)
    Pvrtc1_4_Rgb,
    /// PVRTC1 4bpp RGBA format (iOS)
    Pvrtc1_4_Rgba,
    /// ASTC 4x4 RGBA format (modern mobile)
    Astc_4x4_Rgba,
    /// Uncompressed RGBA32 format (universal)
    Rgba32,
    /// RGB565 format (mobile, low memory)
    Rgb565,
    /// BGR565 format
    Bgr565,
    /// RGBA4444 format (mobile, low memory)
    Rgba4444,
}

/// The native transcode-format code of each target format.
pub open spec fn transcode_code_spec(format: TranscodeFormat) -> u32 {
    match format {
        TranscodeFormat::Etc1Rgb => KTX_TTF_ETC1_RGB,
        TranscodeFormat::Etc2Rgba => KTX_TTF_ETC2_RGBA,
        TranscodeFormat::Bc1Rgb => KTX_TTF_BC1_RGB,
        TranscodeFormat::Bc3Rgba => KTX_TTF_BC3_RGBA,
        TranscodeFormat::Bc4R => KTX_TTF_BC4_R,
        TranscodeFormat::Bc5Rg => KTX_TTF_BC5_RG,
        TranscodeFormat::Bc7Rgba => KTX_TTF_BC7_RGBA,
        TranscodeFormat::Pvrtc1_4_Rgb => KTX_TTF_PVRTC1_4_RGB,
        TranscodeFormat::Pvrtc1_4_Rgba => KTX_TTF_PVRTC1_4_RGBA,
        TranscodeFormat::Astc_4x4_Rgba => KTX_TTF_ASTC_4x4_RGBA,
        TranscodeFormat::Rgba32 => KTX_TTF_RGBA32,
        TranscodeFormat::Rgb565 => KTX_TTF_RGB565,
        TranscodeFormat::Bgr565 => KTX_TTF_BGR565,
        TranscodeFormat::Rgba4444 => KTX_TTF_RGBA4444,
    }
}

impl From<TranscodeFormat> for u32 {
    /// Maps a transcode target onto its native code.
    fn from(format: TranscodeFormat) -> (r: u32) {
        match format {
            TranscodeFormat::Etc1Rgb => KTX_TTF_ETC1_RGB,
            TranscodeFormat::Etc2Rgba => KTX_TTF_ETC2_RGBA,
            TranscodeFormat::Bc1Rgb => KTX_TTF_BC1_RGB,
            TranscodeFormat::Bc3Rgba => KTX_TTF_BC3_RGBA,
            TranscodeFormat::Bc4R => KTX_TTF_BC4_R,
            TranscodeFormat::Bc5Rg => KTX_TTF_BC5_RG,
            TranscodeFormat::Bc7Rgba => KTX_TTF_BC7_RGBA,
            TranscodeFormat::Pvrtc1_4_Rgb => KTX_TTF_PVRTC1_4_RGB,
            TranscodeFormat::Pvrtc1_4_Rgba => KTX_TTF_PVRTC1_4_RGBA,
            TranscodeFormat::Astc_4x4_Rgba => KTX_TTF_ASTC_4x4_RGBA,
            TranscodeFormat::Rgba32 => KTX_TTF_RGBA32,
            TranscodeFormat::Rgb565 => KTX_TTF_RGB565,
            TranscodeFormat::Bgr565 => KTX_TTF_BGR565,
            TranscodeFormat::Rgba4444 => KTX_TTF_RGBA4444,
        }
    }
}

impl vstd::std_specs::convert::FromSpecImpl<TranscodeFormat> for u32 {
    open spec fn obeys_from_spec() -> bool {
        true
    }

    open spec fn from_spec(format: TranscodeFormat) -> u32 {
        transcode_code_spec(format)
    }
}

/// The mapping onto native transcode-format codes is injective: distinct
/// target formats never share a native code.
pub proof fn lemma_transcode_code_injective(a: TranscodeFormat, b: TranscodeFormat)
    requires
        transcode_code_spec(a) == transcode_code_spec(b),
    ensures
        a == b,
{
}

} // verus!
