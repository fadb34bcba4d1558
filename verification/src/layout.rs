//! Image-region accounting.
//!
//! A texture stores one image per (level, layer, face) triple in a single
//! contiguous backing buffer. This module defines the byte sizes of texel
//! blocks per pixel format, the mip-chain extents, and the offset of every
//! image region inside the buffer, together with the bounds proofs that let
//! a region be read or written without ever leaving the buffer.

use vstd::prelude::*;

use crate::vk_format::VkFormat;

verus! {

/// Largest width, height or depth accepted when creating a texture.
pub const MAX_DIMENSION: u32 = 65536;

/// Cap on the total byte size of a texture's image-data buffer.
pub const MAX_TEXTURE_BYTES: u64 = 0x4000_0000;

/// Width in texels of one texel block of the format.
pub open spec fn block_width_spec(f: VkFormat) -> int {
    match f {
        VkFormat::Astc8x8UnormBlock => 8,
        VkFormat::Astc8x8SrgbBlock => 8,
        VkFormat::Bc1RgbUnormBlock => 4,
        VkFormat::Bc1RgbaUnormBlock => 4,
        VkFormat::Bc1RgbaSrgbBlock => 4,
        VkFormat::Bc3UnormBlock => 4,
        VkFormat::Bc3SrgbBlock => 4,
        VkFormat::Bc4UnormBlock => 4,
        VkFormat::Bc5UnormBlock => 4,
        VkFormat::Bc7UnormBlock => 4,
        VkFormat::Bc7SrgbBlock => 4,
        VkFormat::Etc2R8G8B8UnormBlock => 4,
        VkFormat::Etc2R8G8B8SrgbBlock => 4,
        VkFormat::Etc2R8G8B8A1UnormBlock => 4,
        VkFormat::Etc2R8G8B8A1SrgbBlock => 4,
        VkFormat::Etc2R8G8B8A8UnormBlock => 4,
        VkFormat::Etc2R8G8B8A8SrgbBlock => 4,
        VkFormat::Astc4x4UnormBlock => 4,
        VkFormat::Astc4x4SrgbBlock => 4,
        _ => 1,
    }
}

/// Height in texels of one texel block of the format.
pub open spec fn block_height_spec(f: VkFormat) -> int {
    block_width_spec(f)
}

/// Byte size of one texel block of the format (for uncompressed formats,
/// of one texel). The undefined format has no block layout; it is assigned
/// size 1 here but is rejected by every constructor.
pub open spec fn block_size_spec(f: VkFormat) -> int {
    match f {
        VkFormat::Undefined => 1,
        VkFormat::R8Unorm => 1,
        VkFormat::R8G8Unorm => 2,
        VkFormat::R8G8B8Unorm => 3,
        VkFormat::R8G8B8A8Unorm => 4,
        VkFormat::R8G8B8A8Srgb => 4,
        VkFormat::B8G8R8Unorm => 3,
        VkFormat::B8G8R8A8Unorm => 4,
        VkFormat::B8G8R8A8Srgb => 4,
        VkFormat::R32Sfloat => 4,
        VkFormat::R32G32Sfloat => 8,
        VkFormat::R32G32B32A32Sfloat => 16,
        VkFormat::R16Sfloat => 2,
        VkFormat::R16G16Sfloat => 4,
        VkFormat::R16G16B16A16Sfloat => 8,
        VkFormat::Bc1RgbUnormBlock => 8,
        VkFormat::Bc1RgbaUnormBlock => 8,
        VkFormat::Bc1RgbaSrgbBlock => 8,
        VkFormat::Bc3UnormBlock => 16,
        VkFormat::Bc3SrgbBlock => 16,
        VkFormat::Bc4UnormBlock => 8,
        VkFormat::Bc5UnormBlock => 16,
        VkFormat::Bc7UnormBlock => 16,
        VkFormat::Bc7SrgbBlock => 16,
        VkFormat::Etc2R8G8B8UnormBlock => 8,
        VkFormat::Etc2R8G8B8SrgbBlock => 8,
        VkFormat::Etc2R8G8B8A1UnormBlock => 8,
        VkFormat::Etc2R8G8B8A1SrgbBlock => 8,
        VkFormat::Etc2R8G8B8A8UnormBlock => 16,
        VkFormat::Etc2R8G8B8A8SrgbBlock => 16,
        VkFormat::Astc4x4UnormBlock => 16,
        VkFormat::Astc4x4SrgbBlock => 16,
        VkFormat::Astc8x8UnormBlock => 16,
        VkFormat::Astc8x8SrgbBlock => 16,
    }
}

/// Byte size of the underlying data type, as recorded in the container
/// header (1 for byte-oriented and block-compressed formats).
pub open spec fn type_size_spec(f: VkFormat) -> int {
    match f {
        VkFormat::R32Sfloat => 4,
        VkFormat::R32G32Sfloat => 4,
        VkFormat::R32G32B32A32Sfloat => 4,
        VkFormat::R16Sfloat => 2,
        VkFormat::R16G16Sfloat => 2,
        VkFormat::R16G16B16A16Sfloat => 2,
        _ => 1,
    }
}

/// Whether the format is a block-compressed GPU format: its texel blocks
/// cover more than one texel.
pub open spec fn is_block_compressed_spec(f: VkFormat) -> bool {
    block_width_spec(f) > 1
}

/// Block extents and block byte size of the format, as one exec lookup.
pub fn block_info(f: VkFormat) -> (r: (u64, u64, u64))
    ensures
        r.0 == block_width_spec(f),
        r.1 == block_height_spec(f),
        r.2 == block_size_spec(f),
{
    match f {
        VkFormat::Undefined => (1, 1, 1),
        VkFormat::R8Unorm => (1, 1, 1),
        VkFormat::R8G8Unorm => (1, 1, 2),
        VkFormat::R8G8B8Unorm => (1, 1, 3),
        VkFormat::R8G8B8A8Unorm => (1, 1, 4),
        VkFormat::R8G8B8A8Srgb => (1, 1, 4),
        VkFormat::B8G8R8Unorm => (1, 1, 3),
        VkFormat::B8G8R8A8Unorm => (1, 1, 4),
        VkFormat::B8G8R8A8Srgb => (1, 1, 4),
        VkFormat::R32Sfloat => (1, 1, 4),
        VkFormat::R32G32Sfloat => (1, 1, 8),
        VkFormat::R32G32B32A32Sfloat => (1, 1, 16),
        VkFormat::R16Sfloat => (1, 1, 2),
        VkFormat::R16G16Sfloat => (1, 1, 4),
        VkFormat::R16G16B16A16Sfloat => (1, 1, 8),
        VkFormat::Bc1RgbUnormBlock => (4, 4, 8),
        VkFormat::Bc1RgbaUnormBlock => (4, 4, 8),
        VkFormat::Bc1RgbaSrgbBlock => (4, 4, 8),
        VkFormat::Bc3UnormBlock => (4, 4, 16),
        VkFormat::Bc3SrgbBlock => (4, 4, 16),
        VkFormat::Bc4UnormBlock => (4, 4, 8),
        VkFormat::Bc5UnormBlock => (4, 4, 16),
        VkFormat::Bc7UnormBlock => (4, 4, 16),
        VkFormat::Bc7SrgbBlock => (4, 4, 16),
        VkFormat::Etc2R8G8B8UnormBlock => (4, 4, 8),
        VkFormat::Etc2R8G8B8SrgbBlock => (4, 4, 8),
        VkFormat::Etc2R8G8B8A1UnormBlock => (4, 4, 8),
        VkFormat::Etc2R8G8B8A1SrgbBlock => (4, 4, 8),
        VkFormat::Etc2R8G8B8A8UnormBlock => (4, 4, 16),
        VkFormat::Etc2R8G8B8A8SrgbBlock => (4, 4, 16),
        VkFormat::Astc4x4UnormBlock => (4, 4, 16),
        VkFormat::Astc4x4SrgbBlock => (4, 4, 16),
        VkFormat::Astc8x8UnormBlock => (8, 8, 16),
        VkFormat::Astc8x8SrgbBlock => (8, 8, 16),
    }
}

/// Header type size of the format, as one exec lookup.
pub fn type_size(f: VkFormat) -> (r: u32)
    ensures
        r == type_size_spec(f),
{
    match f {
        VkFormat::R32Sfloat => 4,
        VkFormat::R32G32Sfloat => 4,
        VkFormat::R32G32B32A32Sfloat => 4,
        VkFormat::R16Sfloat => 2,
        VkFormat::R16G16Sfloat => 2,
        VkFormat::R16G16B16A16Sfloat => 2,
        _ => 1,
    }
}

/// Whether the format is block-compressed, as an exec query.
pub fn is_block_compressed(f: VkFormat) -> (r: bool)
    ensures
        r == is_block_compressed_spec(f),
{
    let info = block_info(f);
    info.0 > 1
}

/// An extent halved, clamped to 1: the step from one mip level's extent to
/// the next.
pub open spec fn half_extent(e: int) -> int {
    if e / 2 >= 1 {
        e / 2
    } else {
        1
    }
}

/// The extent of mip level `l` of a base extent: halved `l` times,
/// clamped to 1.
pub open spec fn mip_extent(base: u32, l: int) -> int
    decreases l,
{
    if l <= 0 {
        base as int
    } else {
        half_extent(mip_extent(base, l - 1))
    }
}

/// Number of texel blocks covering an extent.
pub open spec fn blocks_of(e: int, b: int) -> int {
    (e + b - 1) / b
}

/// Byte size of one image (one layer/face of one level).
pub open spec fn image_size(w: u32, h: u32, d: u32, f: VkFormat, l: int) -> int {
    blocks_of(mip_extent(w, l), block_width_spec(f)) * blocks_of(
        mip_extent(h, l),
        block_height_spec(f),
    ) * mip_extent(d, l) * block_size_spec(f)
}

/// Byte size of one whole level: one image per layer and face.
pub open spec fn level_size(w: u32, h: u32, d: u32, layers: u32, faces: u32, f: VkFormat, l: int) -> int {
    image_size(w, h, d, f, l) * (layers as int) * (faces as int)
}

/// Byte offset of level `l` inside the backing buffer: the levels are laid
/// out contiguously in ascending order.
pub open spec fn level_offset(
    w: u32,
    h: u32,
    d: u32,
    layers: u32,
    faces: u32,
    f: VkFormat,
    l: int,
) -> int
    decreases l,
{
    if l <= 0 {
        0
    } else {
        level_offset(w, h, d, layers, faces, f, l - 1) + level_size(w, h, d, layers, faces, f, l - 1)
    }
}

/// Total byte size of the backing buffer: all levels together.
pub open spec fn total_size(
    w: u32,
    h: u32,
    d: u32,
    layers: u32,
    faces: u32,
    levels: u32,
    f: VkFormat,
) -> int {
    level_offset(w, h, d, layers, faces, f, levels as int)
}

/// Byte offset of the image at (level, layer, face): inside its level the
/// images are laid out layer-major, then face.
pub open spec fn image_offset(
    w: u32,
    h: u32,
    d: u32,
    layers: u32,
    faces: u32,
    f: VkFormat,
    l: int,
    layer: int,
    face: int,
) -> int {
    level_offset(w, h, d, layers, faces, f, l) + (layer * (faces as int) + face) * image_size(
        w,
        h,
        d,
        f,
        l,
    )
}

/// A mip extent of a positive base is positive.
pub proof fn lemma_mip_extent_pos(base: u32, l: int)
    requires
        base >= 1,
    ensures
        mip_extent(base, l) >= 1,
    decreases l,
{
    if l > 0 {
        lemma_mip_extent_pos(base, l - 1);
    }
}

/// A positive extent is covered by at least one block.
pub proof fn lemma_blocks_pos(e: int, b: int)
    requires
        e >= 1,
        b >= 1,
    ensures
        blocks_of(e, b) >= 1,
{
    assert((e + b - 1) / b >= 1) by (nonlinear_arith)
        requires
            e >= 1,
            b >= 1,
    ;
}

/// Every image of a well-formed geometry occupies at least one byte.
pub proof fn lemma_image_size_pos(w: u32, h: u32, d: u32, f: VkFormat, l: int)
    requires
        w >= 1,
        h >= 1,
        d >= 1,
    ensures
        image_size(w, h, d, f, l) >= 1,
{
    lemma_mip_extent_pos(w, l);
    lemma_mip_extent_pos(h, l);
    lemma_mip_extent_pos(d, l);
    lemma_blocks_pos(mip_extent(w, l), block_width_spec(f));
    lemma_blocks_pos(mip_extent(h, l), block_height_spec(f));
    let bx = blocks_of(mip_extent(w, l), block_width_spec(f));
    let by = blocks_of(mip_extent(h, l), block_height_spec(f));
    let dz = mip_extent(d, l);
    let bs = block_size_spec(f);
    assert(bx * by * dz * bs >= 1) by (nonlinear_arith)
        requires
            bx >= 1,
            by >= 1,
            dz >= 1,
            bs >= 1,
    ;
}

/// Every level of a well-formed geometry occupies at least one byte, and at
/// least as many as one of its images, and at least `layers * faces`.
pub proof fn lemma_level_size_bounds(
    w: u32,
    h: u32,
    d: u32,
    layers: u32,
    faces: u32,
    f: VkFormat,
    l: int,
)
    requires
        w >= 1,
        h >= 1,
        d >= 1,
        layers >= 1,
        faces >= 1,
    ensures
        level_size(w, h, d, layers, faces, f, l) >= image_size(w, h, d, f, l),
        level_size(w, h, d, layers, faces, f, l) >= (layers as int) * (faces as int),
        level_size(w, h, d, layers, faces, f, l) >= 1,
{
    lemma_image_size_pos(w, h, d, f, l);
    let im = image_size(w, h, d, f, l);
    let ly = layers as int;
    let fc = faces as int;
    assert(im * ly * fc >= im && im * ly * fc >= ly * fc && im * ly * fc >= 1) by (nonlinear_arith)
        requires
            im >= 1,
            ly >= 1,
            fc >= 1,
    ;
}

/// Level offsets never decrease along the mip chain.
pub proof fn lemma_level_offset_nondecreasing(
    w: u32,
    h: u32,
    d: u32,
    layers: u32,
    faces: u32,
    f: VkFormat,
    l1: int,
    l2: int,
)
    requires
        w >= 1,
        h >= 1,
        d >= 1,
        layers >= 1,
        faces >= 1,
        l1 <= l2,
    ensures
        level_offset(w, h, d, layers, faces, f, l1) <= level_offset(w, h, d, layers, faces, f, l2),
    decreases l2 - l1,
{
    if l1 < l2 {
        lemma_level_offset_nondecreasing(w, h, d, layers, faces, f, l1, l2 - 1);
        lemma_level_size_bounds(w, h, d, layers, faces, f, l2 - 1);
    }
}

/// Level offsets are never negative.
pub proof fn lemma_level_offset_nonneg(
    w: u32,
    h: u32,
    d: u32,
    layers: u32,
    faces: u32,
    f: VkFormat,
    l: int,
)
    requires
        w >= 1,
        h >= 1,
        d >= 1,
        layers >= 1,
        faces >= 1,
    ensures
        level_offset(w, h, d, layers, faces, f, l) >= 0,
    decreases l,
{
    if l > 0 {
        lemma_level_offset_nonneg(w, h, d, layers, faces, f, l - 1);
        lemma_level_size_bounds(w, h, d, layers, faces, f, l - 1);
    }
}

/// Bounds on two nonnegative factors bound their product.
pub proof fn lemma_mul_le(a: int, b: int, ab: int, bb: int)
    requires
        0 <= a <= ab,
        0 <= b <= bb,
    ensures
        a * b <= ab * bb,
{
    assert(a * b <= ab * bb) by (nonlinear_arith)
        requires
            0 <= a <= ab,
            0 <= b <= bb,
    ;
}

/// Dividing a nonnegative value by a positive divisor never increases it.
pub proof fn lemma_div_le(a: int, b: int)
    requires
        0 <= a,
        1 <= b,
    ensures
        0 <= a / b <= a,
{
    assert(0 <= a / b <= a) by (nonlinear_arith)
        requires
            0 <= a,
            1 <= b,
    ;
}

/// The total buffer size is at least the size of any single level.
pub proof fn lemma_total_ge_level_size(
    w: u32,
    h: u32,
    d: u32,
    layers: u32,
    faces: u32,
    levels: u32,
    f: VkFormat,
    l: int,
)
    requires
        w >= 1,
        h >= 1,
        d >= 1,
        layers >= 1,
        faces >= 1,
        0 <= l < levels,
    ensures
        total_size(w, h, d, layers, faces, levels, f) >= level_size(w, h, d, layers, faces, f, l),
{
    lemma_level_offset_nonneg(w, h, d, layers, faces, f, l);
    lemma_level_offset_nondecreasing(w, h, d, layers, faces, f, l + 1, levels as int);
}

/// Computes the total byte size of the backing buffer, `None` when it
/// would exceed the texture-size cap. The intermediate products are guarded
/// so that no machine arithmetic overflows.
pub fn compute_total_size(
    w: u32,
    h: u32,
    d: u32,
    layers: u32,
    faces: u32,
    levels: u32,
    f: VkFormat,
) -> (r: Option<u64>)
    requires
        w >= 1,
        h >= 1,
        d >= 1,
        layers >= 1,
        1 <= faces <= 6,
        levels >= 1,
    ensures
        match r {
            Some(t) => t == total_size(w, h, d, layers, faces, levels, f) && t
                <= MAX_TEXTURE_BYTES,
            None => total_size(w, h, d, layers, faces, levels, f) > MAX_TEXTURE_BYTES,
        },
{
    let info = block_info(f);
    let bw = info.0;
    let bh = info.1;
    let bs = info.2;
    proof {
        lemma_mul_le(layers as int, faces as int, u32::MAX as int, 6);
    }
    let lf: u64 = (layers as u64) * (faces as u64);
    if lf > MAX_TEXTURE_BYTES {
        proof {
            lemma_level_size_bounds(w, h, d, layers, faces, f, 0);
            lemma_total_ge_level_size(w, h, d, layers, faces, levels, f, 0);
        }
        return None;
    }
    let mut wl: u64 = w as u64;
    let mut hl: u64 = h as u64;
    let mut dl: u64 = d as u64;
    let mut total: u64 = 0;
    let mut l: u32 = 0;
    while l < levels
        invariant
            1 <= faces <= 6,
            w >= 1,
            h >= 1,
            d >= 1,
            layers >= 1,
            levels >= 1,
            l <= levels,
            1 <= wl <= u32::MAX,
            1 <= hl <= u32::MAX,
            1 <= dl <= u32::MAX,
            wl == mip_extent(w, l as int),
            hl == mip_extent(h, l as int),
            dl == mip_extent(d, l as int),
            bw == block_width_spec(f),
            bh == block_height_spec(f),
            bs == block_size_spec(f),
            1 <= bw <= 8,
            1 <= bh <= 8,
            1 <= bs <= 16,
            lf == (layers as int) * (faces as int),
            lf <= MAX_TEXTURE_BYTES,
            total == level_offset(w, h, d, layers, faces, f, l as int),
            total <= MAX_TEXTURE_BYTES,
        decreases levels - l,
    {
        let ghost li = l as int;
        let bx = (wl + bw - 1) / bw;
        let by = (hl + bh - 1) / bh;
        proof {
            assert(bx == blocks_of(mip_extent(w, li), block_width_spec(f)));
            assert(by == blocks_of(mip_extent(h, li), block_height_spec(f)));
            assert(bx >= 1 && by >= 1) by {
                lemma_blocks_pos(mip_extent(w, li), block_width_spec(f));
                lemma_blocks_pos(mip_extent(h, li), block_height_spec(f));
            }
        }
        let ghost bxs = bx as int;
        let ghost bys = by as int;
        let ghost dls = dl as int;
        let ghost bss = bs as int;
        if bx > MAX_TEXTURE_BYTES {
            proof {
                assert(bxs * bys * dls * bss >= bxs) by (nonlinear_arith)
                    requires
                        bxs >= 1,
                        bys >= 1,
                        dls >= 1,
                        bss >= 1,
                ;
                lemma_level_size_bounds(w, h, d, layers, faces, f, li);
                lemma_total_ge_level_size(w, h, d, layers, faces, levels, f, li);
            }
            return None;
        }
        proof {
            lemma_div_le(hl as int + bh as int - 1, bh as int);
            lemma_mul_le(bx as int, by as int, MAX_TEXTURE_BYTES as int, u32::MAX as int + 7);
        }
        let s1 = bx * by;
        if s1 > MAX_TEXTURE_BYTES {
            proof {
                assert(bxs * bys * dls * bss >= bxs * bys) by (nonlinear_arith)
                    requires
                        bxs >= 1,
                        bys >= 1,
                        dls >= 1,
                        bss >= 1,
                ;
                lemma_level_size_bounds(w, h, d, layers, faces, f, li);
                lemma_total_ge_level_size(w, h, d, layers, faces, levels, f, li);
            }
            return None;
        }
        proof {
            lemma_mul_le(s1 as int, dl as int, MAX_TEXTURE_BYTES as int, u32::MAX as int);
        }
        let s2 = s1 * dl;
        if s2 > MAX_TEXTURE_BYTES {
            proof {
                assert(bxs * bys * dls * bss >= bxs * bys * dls) by (nonlinear_arith)
                    requires
                        bxs >= 1,
                        bys >= 1,
                        dls >= 1,
                        bss >= 1,
                ;
                lemma_level_size_bounds(w, h, d, layers, faces, f, li);
                lemma_total_ge_level_size(w, h, d, layers, faces, levels, f, li);
            }
            return None;
        }
        proof {
            lemma_mul_le(s2 as int, bs as int, MAX_TEXTURE_BYTES as int, 16);
        }
        let img = s2 * bs;
        proof {
            assert(img == image_size(w, h, d, f, li));
        }
        if img > MAX_TEXTURE_BYTES {
            proof {
                lemma_level_size_bounds(w, h, d, layers, faces, f, li);
                lemma_total_ge_level_size(w, h, d, layers, faces, levels, f, li);
            }
            return None;
        }
        proof {
            lemma_mul_le(img as int, lf as int, MAX_TEXTURE_BYTES as int, MAX_TEXTURE_BYTES as int);
        }
        let ls = img * lf;
        proof {
            assert((img as int) * ((layers as int) * (faces as int)) == (img as int) * (
            layers as int) * (faces as int)) by (nonlinear_arith);
            assert(ls == level_size(w, h, d, layers, faces, f, li));
        }
        let nt = total + ls;
        if nt > MAX_TEXTURE_BYTES {
            proof {
                lemma_level_offset_nondecreasing(w, h, d, layers, faces, f, li + 1, levels as int);
            }
            return None;
        }
        total = nt;
        wl = if wl > 1 {
            wl / 2
        } else {
            1
        };
        hl = if hl > 1 {
            hl / 2
        } else {
            1
        };
        dl = if dl > 1 {
            dl / 2
        } else {
            1
        };
        l = l + 1;
    }
    Some(total)
}

/// Computes the byte offset and byte size of the image at (level, layer,
/// face) inside a buffer whose total size respects the cap. The bounds
/// proofs guarantee that no machine arithmetic overflows and that the
/// region lies inside the buffer.
pub fn compute_image_region(
    w: u32,
    h: u32,
    d: u32,
    layers: u32,
    faces: u32,
    levels: u32,
    f: VkFormat,
    level: u32,
    layer: u32,
    face: u32,
) -> (r: (u64, u64))
    requires
        w >= 1,
        h >= 1,
        d >= 1,
        layers >= 1,
        1 <= faces <= 6,
        levels >= 1,
        total_size(w, h, d, layers, faces, levels, f) <= MAX_TEXTURE_BYTES,
        level < levels,
        layer < layers,
        face < faces,
    ensures
        r.0 == image_offset(w, h, d, layers, faces, f, level as int, layer as int, face as int),
        r.1 == image_size(w, h, d, f, level as int),
        r.0 + r.1 <= total_size(w, h, d, layers, faces, levels, f),
        r.1 >= 1,
{
    let info = block_info(f);
    let bw = info.0;
    let bh = info.1;
    let bs = info.2;
    let mut wl: u64 = w as u64;
    let mut hl: u64 = h as u64;
    let mut dl: u64 = d as u64;
    let mut off: u64 = 0;
    let mut l: u32 = 0;
    proof {
        lemma_level_offset_nonneg(w, h, d, layers, faces, f, levels as int);
    }
    while l < level
        invariant
            1 <= faces <= 6,
            w >= 1,
            h >= 1,
            d >= 1,
            layers >= 1,
            levels >= 1,
            level < levels,
            l <= level,
            1 <= wl <= u32::MAX,
            1 <= hl <= u32::MAX,
            1 <= dl <= u32::MAX,
            wl == mip_extent(w, l as int),
            hl == mip_extent(h, l as int),
            dl == mip_extent(d, l as int),
            bw == block_width_spec(f),
            bh == block_height_spec(f),
            bs == block_size_spec(f),
            1 <= bw <= 8,
            1 <= bh <= 8,
            1 <= bs <= 16,
            total_size(w, h, d, layers, faces, levels, f) <= MAX_TEXTURE_BYTES,
            off == level_offset(w, h, d, layers, faces, f, l as int),
            off <= MAX_TEXTURE_BYTES,
        decreases level - l,
    {
        let ghost li = l as int;
        let img = level_image_size_exec(wl, hl, dl, bw, bh, bs, f, w, h, d, layers, faces, levels, Ghost(li));
        proof {
            lemma_mul_le(layers as int, faces as int, u32::MAX as int, 6);
            assert((img as int) * ((layers as int) * (faces as int)) == (img as int) * (
            layers as int) * (faces as int)) by (nonlinear_arith);
            lemma_total_ge_level_size(w, h, d, layers, faces, levels, f, li);
            lemma_level_offset_nonneg(w, h, d, layers, faces, f, li);
            lemma_level_offset_nondecreasing(w, h, d, layers, faces, f, li + 1, levels as int);
        }
        let lf: u64 = (layers as u64) * (faces as u64);
        let ls = img * lf;
        off = off + ls;
        wl = if wl > 1 {
            wl / 2
        } else {
            1
        };
        hl = if hl > 1 {
            hl / 2
        } else {
            1
        };
        dl = if dl > 1 {
            dl / 2
        } else {
            1
        };
        l = l + 1;
    }
    let ghost li = level as int;
    let img = level_image_size_exec(wl, hl, dl, bw, bh, bs, f, w, h, d, layers, faces, levels, Ghost(li));
    proof {
        lemma_image_region_in_bounds(
            w,
            h,
            d,
            layers,
            faces,
            levels,
            f,
            li,
            layer as int,
            face as int,
        );
        lemma_level_offset_nonneg(w, h, d, layers, faces, f, li);
        lemma_image_size_pos(w, h, d, f, li);
        lemma_level_offset_nondecreasing(w, h, d, layers, faces, f, li, levels as int);
        lemma_mul_le(layer as int, faces as int, u32::MAX as int, 6);
    }
    let idx: u64 = (layer as u64) * (faces as u64) + (face as u64);
    let region_off = off + idx * img;
    (region_off, img)
}

/// Computes the byte size of one image of the level whose mip extents are
/// `wl`, `hl`, `dl`, under a total-size cap that rules out overflow.
pub fn level_image_size_exec(
    wl: u64,
    hl: u64,
    dl: u64,
    bw: u64,
    bh: u64,
    bs: u64,
    f: VkFormat,
    w: u32,
    h: u32,
    d: u32,
    layers: u32,
    faces: u32,
    levels: u32,
    Ghost(li): Ghost<int>,
) -> (r: u64)
    requires
        w >= 1,
        h >= 1,
        d >= 1,
        layers >= 1,
        faces >= 1,
        0 <= li < levels,
        1 <= wl <= u32::MAX,
        1 <= hl <= u32::MAX,
        1 <= dl <= u32::MAX,
        wl == mip_extent(w, li),
        hl == mip_extent(h, li),
        dl == mip_extent(d, li),
        bw == block_width_spec(f),
        bh == block_height_spec(f),
        bs == block_size_spec(f),
        1 <= bw <= 8,
        1 <= bh <= 8,
        1 <= bs <= 16,
        total_size(w, h, d, layers, faces, levels, f) <= MAX_TEXTURE_BYTES,
    ensures
        r == image_size(w, h, d, f, li),
        1 <= r <= MAX_TEXTURE_BYTES,
{
    let bx = (wl + bw - 1) / bw;
    let by = (hl + bh - 1) / bh;
    proof {
        lemma_blocks_pos(mip_extent(w, li), block_width_spec(f));
        lemma_blocks_pos(mip_extent(h, li), block_height_spec(f));
        lemma_div_le(wl as int + bw as int - 1, bw as int);
        lemma_div_le(hl as int + bh as int - 1, bh as int);
        let bxs = bx as int;
        let bys = by as int;
        let dls = dl as int;
        let bss = bs as int;
        assert(bxs * bys <= bxs * bys * dls && bxs * bys * dls <= bxs * bys * dls * bss && bxs
            <= bxs * bys && bxs * bys * dls * bss >= 1) by (nonlinear_arith)
            requires
                bxs >= 1,
                bys >= 1,
                dls >= 1,
                bss >= 1,
        ;
        lemma_level_size_bounds(w, h, d, layers, faces, f, li);
        lemma_total_ge_level_size(w, h, d, layers, faces, levels, f, li);
    }
    let s1 = bx * by;
    let s2 = s1 * dl;
    let img = s2 * bs;
    img
}

/// The image region at any in-range (level, layer, face) triple lies
/// entirely inside the backing buffer: its offset is past the level's start
/// and offset plus size stay within the total.
pub proof fn lemma_image_region_in_bounds(
    w: u32,
    h: u32,
    d: u32,
    layers: u32,
    faces: u32,
    levels: u32,
    f: VkFormat,
    l: int,
    layer: int,
    face: int,
)
    requires
        w >= 1,
        h >= 1,
        d >= 1,
        layers >= 1,
        faces >= 1,
        0 <= l < levels,
        0 <= layer < layers,
        0 <= face < faces,
    ensures
        image_offset(w, h, d, layers, faces, f, l, layer, face) >= level_offset(
            w,
            h,
            d,
            layers,
            faces,
            f,
            l,
        ),
        image_offset(w, h, d, layers, faces, f, l, layer, face) + image_size(w, h, d, f, l)
            <= total_size(w, h, d, layers, faces, levels, f),
{
    let im = image_size(w, h, d, f, l);
    let ly = layers as int;
    let fc = faces as int;
    let idx = layer * fc + face;
    lemma_image_size_pos(w, h, d, f, l);
    assert(0 <= layer * fc + face && layer * fc + face + 1 <= ly * fc) by (nonlinear_arith)
        requires
            0 <= layer < ly,
            0 <= face < fc,
    ;
    assert(0 <= idx * im && idx * im + im <= ly * fc * im && ly * fc * im == im * ly * fc) by (
    nonlinear_arith)
        requires
            0 <= idx,
            idx + 1 <= ly * fc,
            im >= 1,
    ;
    // the level ends within the buffer
    lemma_level_offset_nondecreasing(w, h, d, layers, faces, f, l + 1, levels as int);
}

} // verus!
