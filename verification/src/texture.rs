//! The texture handle.
//!
//! [`Ktx2Texture`] owns exactly one texture resource: its geometry, pixel
//! format, one contiguous image-data buffer holding every (level, layer,
//! face) image, and a key/value metadata list. The handle is move-only —
//! it is never copied implicitly, so the resource is owned once and
//! released exactly once when the handle is dropped; a second,
//! independently-owned handle can only be re-derived, e.g. by reloading
//! serialized bytes. Every operation validates its inputs before touching
//! the resource and reports failures through the [`Error`] taxonomy; no
//! operation panics.

use vstd::prelude::*;

use crate::bytes::{
    dec32_exec, dec64_exec, enc32_all, enc64_all, lemma_enc32_all_take_step,
    lemma_enc64_all_take_step, push_bytes, push_u32, push_u64,
};
use crate::codec::{
    data_base, entry_bytes, find_first_zero, header_fields, kvd_prefix_ok, kvd_spec, level_fields,
    level_index_ok, lemma_kvd_spec_take_step, lemma_parse_kvd_props, lemma_serialize_len,
    parse_kvd, parse_spec, serialize_spec, sig_matches, sig_spec,
};
use crate::error::Error;
use crate::format::TranscodeFormat;
use crate::layout::{
    block_info, block_height_spec, block_size_spec, block_width_spec, compute_image_region,
    compute_total_size, image_offset, image_size, is_block_compressed, is_block_compressed_spec,
    lemma_image_region_in_bounds, lemma_level_offset_nonneg, lemma_mul_le, level_offset,
    level_size, mip_extent, total_size, type_size, MAX_DIMENSION, MAX_TEXTURE_BYTES,
};
use crate::metadata::{
    entry_size, entry_size_exec, kvd_size, lemma_entry_size_pos, lemma_kvd_size_nonneg,
    lemma_kvd_size_set, lemma_kvd_size_set_ge_entry, lemma_kvd_size_take_all,
    lemma_kvd_size_take_le, lemma_kvd_size_take_step, lemma_meta_first_match, lemma_meta_no_match,
    lemma_meta_set_keys_wf, meta_lookup, meta_set, meta_wf, MAX_METADATA_BYTES,
};
use crate::vk_format::VkFormat;
use vstd::string::StringSliceAdditionalSpecFns;

verus! {

/// One metadata entry as stored in the handle.
#[derive(Debug)]
struct MetaEntry {
    key: Vec<u8>,
    value: Vec<u8>,
}

/// The mathematical model of a texture: its geometry and format, the
/// contents of the contiguous image-data buffer, and the metadata list.
#[verifier::ext_equal]
pub struct TexView {
    pub width: u32,
    pub height: u32,
    pub depth: u32,
    pub layers: u32,
    pub faces: u32,
    pub levels: u32,
    pub format: VkFormat,
    pub data: Seq<u8>,
    pub meta: Seq<(Seq<u8>, Seq<u8>)>,
}

/// The largest of the three base extents.
pub open spec fn max_dim3(w: u32, h: u32, d: u32) -> u64 {
    if w >= h && w >= d {
        w as u64
    } else if h >= d {
        h as u64
    } else {
        d as u64
    }
}

impl TexView {
    /// Total byte size of the image-data buffer that this geometry calls
    /// for.
    pub open spec fn total(&self) -> int {
        total_size(self.width, self.height, self.depth, self.layers, self.faces, self.levels, self.format)
    }

    /// Well-formedness: positive geometry, a face count of one or six
    /// (six only for two-dimensional cubemaps), a defined format, a mip
    /// chain no deeper than the largest extent allows, a buffer of exactly
    /// the called-for size within the cap, and well-formed metadata.
    pub open spec fn wf(&self) -> bool {
        &&& self.width >= 1
        &&& self.height >= 1
        &&& self.depth >= 1
        &&& self.layers >= 1
        &&& self.levels >= 1
        &&& (self.faces == 1 || self.faces == 6)
        &&& (self.faces == 6 ==> self.depth == 1)
        &&& self.format != VkFormat::Undefined
        &&& self.levels <= 32
        &&& (1u64 << ((self.levels - 1) as u64)) <= max_dim3(self.width, self.height, self.depth)
        &&& self.total() <= MAX_TEXTURE_BYTES
        &&& self.data.len() == self.total()
        &&& meta_wf(self.meta)
    }

    /// Whether a handle with this model still needs transcoding before its
    /// images are in a GPU-consumable format. Only a Basis-Universal
    /// payload (carried under the undefined pixel format) needs it, and no
    /// constructor of this crate produces one.
    pub open spec fn needs_transcoding(&self) -> bool {
        self.format == VkFormat::Undefined
    }
}

/// The outcome that `create` owes for every input: each validation step
/// with its error, in order, and the freshly zeroed model on success.
pub open spec fn create_spec(
    width: u32,
    height: u32,
    depth: u32,
    layers: u32,
    faces: u32,
    levels: u32,
    format: VkFormat,
) -> Result<TexView, Error> {
    if width == 0 || height == 0 {
        Err(Error::InvalidValue)
    } else if depth == 0 || layers == 0 || faces == 0 || levels == 0 {
        Err(Error::InvalidValue)
    } else if width > MAX_DIMENSION || height > MAX_DIMENSION || depth > MAX_DIMENSION {
        Err(Error::InvalidValue)
    } else if format == VkFormat::Undefined {
        Err(Error::InvalidValue)
    } else if faces != 1 && faces != 6 {
        Err(Error::InvalidValue)
    } else if faces == 6 && depth != 1 {
        Err(Error::InvalidOperation)
    } else if !(levels <= 32 && (1u64 << ((levels - 1) as u64)) <= max_dim3(width, height, depth)) {
        Err(Error::InvalidOperation)
    } else if total_size(width, height, depth, layers, faces, levels, format)
        > MAX_TEXTURE_BYTES {
        Err(Error::OutOfMemory)
    } else {
        Ok(
            TexView {
                width,
                height,
                depth,
                layers,
                faces,
                levels,
                format,
                data: Seq::new(
                    total_size(width, height, depth, layers, faces, levels, format) as nat,
                    |i: int| 0u8,
                ),
                meta: Seq::empty(),
            },
        )
    }
}

/// The bytes of the image stored at (level, layer, face).
pub open spec fn image_region_of(v: TexView, level: u32, layer: u32, face: u32) -> Seq<u8> {
    let off = image_offset(
        v.width,
        v.height,
        v.depth,
        v.layers,
        v.faces,
        v.format,
        level as int,
        layer as int,
        face as int,
    );
    let sz = image_size(v.width, v.height, v.depth, v.format, level as int);
    v.data.subrange(off, off + sz)
}

/// The outcome that `get_image_data` owes: `InvalidValue` for any index at
/// or past its count, the stored image bytes otherwise.
pub open spec fn get_image_spec(v: TexView, level: u32, layer: u32, face: u32) -> Result<
    Seq<u8>,
    Error,
> {
    if level >= v.levels || layer >= v.layers || face >= v.faces {
        Err(Error::InvalidValue)
    } else {
        Ok(image_region_of(v, level, layer, face))
    }
}

/// The outcome that `set_image_data` owes: `InvalidValue` for an
/// out-of-range index or an empty payload, `InvalidOperation` for a
/// payload that does not match the image's byte size, and otherwise the
/// model with exactly that image's bytes replaced.
pub open spec fn set_image_spec(
    v: TexView,
    level: u32,
    layer: u32,
    face: u32,
    bytes: Seq<u8>,
) -> Result<TexView, Error> {
    if level >= v.levels || layer >= v.layers || face >= v.faces {
        Err(Error::InvalidValue)
    } else if bytes.len() == 0 {
        Err(Error::InvalidValue)
    } else if bytes.len() != image_size(v.width, v.height, v.depth, v.format, level as int) {
        Err(Error::InvalidOperation)
    } else {
        let off = image_offset(
            v.width,
            v.height,
            v.depth,
            v.layers,
            v.faces,
            v.format,
            level as int,
            layer as int,
            face as int,
        );
        Ok(
            TexView {
                data: v.data.subrange(0, off) + bytes + v.data.subrange(
                    off + bytes.len(),
                    v.data.len() as int,
                ),
                ..v
            },
        )
    }
}

/// The outcome that `get_metadata` owes: `InvalidValue` for a key with an
/// embedded null (the native key representation is null-terminated),
/// `NotFound` for an absent key, and the stored value bytes otherwise.
pub open spec fn get_metadata_spec(v: TexView, key: Seq<u8>) -> Result<Seq<u8>, Error> {
    if key.contains(0u8) {
        Err(Error::InvalidValue)
    } else {
        match meta_lookup(v.meta, key) {
            Some(value) => Ok(value),
            None => Err(Error::NotFound),
        }
    }
}

/// The outcome that `set_metadata` owes: `InvalidValue` for a key with an
/// embedded null or an entry that would push the metadata block past its
/// cap, and otherwise the model with the value stored under the key.
pub open spec fn set_metadata_spec(v: TexView, key: Seq<u8>, value: Seq<u8>) -> Result<
    TexView,
    Error,
> {
    if key.contains(0u8) {
        Err(Error::InvalidValue)
    } else if kvd_size(meta_set(v.meta, key, value)) > MAX_METADATA_BYTES {
        Err(Error::InvalidValue)
    } else {
        Ok(TexView { meta: meta_set(v.meta, key, value), ..v })
    }
}

/// Whether a byte slice holds a zero byte.
fn contains_zero(s: &[u8]) -> (r: bool)
    ensures
        r == s@.contains(0u8),
{
    let n = s.len();
    let mut i: usize = 0;
    while i < n
        invariant
            i <= n,
            n == s@.len(),
            forall|j: int| 0 <= j < i ==> s@[j] != 0u8,
        decreases n - i,
    {
        if *vstd::slice::slice_index_get(s, i) == 0u8 {
            assert(s@.contains(0u8)) by {
                assert(s@[i as int] == 0u8);
            }
            return true;
        }
        i = i + 1;
    }
    assert(!s@.contains(0u8));
    false
}

/// Whether two byte slices hold the same bytes.
fn bytes_eq(a: &[u8], b: &[u8]) -> (r: bool)
    ensures
        r == (a@ == b@),
{
    let n = a.len();
    if n != b.len() {
        assert(a@ != b@) by {
            assert(a@.len() != b@.len());
        }
        return false;
    }
    let mut i: usize = 0;
    while i < n
        invariant
            i <= n,
            n == a@.len(),
            n == b@.len(),
            forall|j: int| 0 <= j < i ==> a@[j] == b@[j],
        decreases n - i,
    {
        if *vstd::slice::slice_index_get(a, i) != *vstd::slice::slice_index_get(b, i) {
            assert(a@ != b@) by {
                assert(a@[i as int] != b@[i as int]);
            }
            return false;
        }
        i = i + 1;
    }
    assert(a@ =~= b@);
    true
}

/// Checks every level-index entry of a byte stream against the canonical
/// offsets and the recomputed level sizes.
fn check_level_index(
    data: &[u8],
    width: u32,
    height: u32,
    depth: u32,
    layers: u32,
    faces: u32,
    levels: u32,
    format: VkFormat,
    base: u64,
) -> (r: bool)
    requires
        width >= 1,
        height >= 1,
        depth >= 1,
        layers >= 1,
        1 <= faces <= 6,
        levels >= 1,
        levels <= 32,
        total_size(width, height, depth, layers, faces, levels, format) <= MAX_TEXTURE_BYTES,
        80 + 24 * (levels as int) <= data@.len(),
        base <= 0x200000000u64,
    ensures
        r == level_index_ok(data@, width, height, depth, layers, faces, levels, format, base as int),
{
    let ghost b = data@;
    let info = block_info(format);
    let bw = info.0;
    let bh = info.1;
    let bs = info.2;
    proof {
        lemma_mul_le(layers as int, faces as int, u32::MAX as int, 6);
    }
    let lfa: u64 = (layers as u64) * (faces as u64);
    let mut wl: u64 = width as u64;
    let mut hl: u64 = height as u64;
    let mut dl: u64 = depth as u64;
    let mut off: u64 = 0;
    let mut l: u32 = 0;
    while l < levels
        invariant
            l <= levels,
            width >= 1,
            height >= 1,
            depth >= 1,
            layers >= 1,
            1 <= faces <= 6,
            1 <= levels <= 32,
            b == data@,
            80 + 24 * (levels as int) <= b.len(),
            base <= 0x200000000u64,
            total_size(width, height, depth, layers, faces, levels, format) <= MAX_TEXTURE_BYTES,
            bw == block_width_spec(format),
            bh == block_height_spec(format),
            bs == block_size_spec(format),
            1 <= bw <= 8,
            1 <= bh <= 8,
            1 <= bs <= 16,
            lfa == (layers as int) * (faces as int),
            1 <= wl <= u32::MAX,
            1 <= hl <= u32::MAX,
            1 <= dl <= u32::MAX,
            wl == mip_extent(width, l as int),
            hl == mip_extent(height, l as int),
            dl == mip_extent(depth, l as int),
            off == level_offset(width, height, depth, layers, faces, format, l as int),
            off <= MAX_TEXTURE_BYTES,
            forall|j: int|
                0 <= j < l ==> #[trigger] crate::codec::level_entry_ok(
                    b,
                    width,
                    height,
                    depth,
                    layers,
                    faces,
                    format,
                    base as int,
                    j,
                ),
        decreases levels - l,
    {
        let ghost li = l as int;
        let img = crate::layout::level_image_size_exec(
            wl,
            hl,
            dl,
            bw,
            bh,
            bs,
            format,
            width,
            height,
            depth,
            layers,
            faces,
            levels,
            Ghost(li),
        );
        proof {
            assert((img as int) * ((layers as int) * (faces as int)) == (img as int) * (
            layers as int) * (faces as int)) by (nonlinear_arith);
            crate::layout::lemma_total_ge_level_size(
                width,
                height,
                depth,
                layers,
                faces,
                levels,
                format,
                li,
            );
            lemma_level_offset_nonneg(width, height, depth, layers, faces, format, li);
            crate::layout::lemma_level_offset_nondecreasing(
                width,
                height,
                depth,
                layers,
                faces,
                format,
                li + 1,
                levels as int,
            );
        }
        let ls = img * lfa;
        proof {
            assert(ls == level_size(width, height, depth, layers, faces, format, li));
        }
        let idx_off: usize = 80 + 24 * (l as usize);
        let e0 = dec64_exec(data, idx_off);
        let e1 = dec64_exec(data, idx_off + 8);
        let e2 = dec64_exec(data, idx_off + 16);
        if e0 != base + off || e1 != ls || e2 != ls {
            proof {
                assert(!crate::codec::level_entry_ok(
                    b,
                    width,
                    height,
                    depth,
                    layers,
                    faces,
                    format,
                    base as int,
                    li,
                ));
            }
            return false;
        }
        proof {
            assert(crate::codec::level_entry_ok(
                b,
                width,
                height,
                depth,
                layers,
                faces,
                format,
                base as int,
                li,
            ));
        }
        off = off + ls;
        wl = if wl > 1 {
            wl / 2
        } else {
            1
        };
        hl = if hl > 1 {
            hl / 2
        } else {
            1
        };
        dl = if dl > 1 {
            dl / 2
        } else {
            1
        };
        l = l + 1;
    }
    true
}

/// Reads the key/value block of a byte stream into owned entries.
fn parse_kvd_exec(data: &[u8], start: usize, kend: usize) -> (r: Option<Vec<MetaEntry>>)
    requires
        start <= kend,
        kend <= data@.len(),
    ensures
        match r {
            Some(m) => parse_kvd(data@, start as int, kend as int) == Some(meta_views(m@)),
            None => parse_kvd(data@, start as int, kend as int) is None,
        },
{
    let ghost b = data@;
    let mut meta: Vec<MetaEntry> = Vec::new();
    let mut pos: usize = start;
    proof {
        assert(meta_views(meta@) =~= Seq::<(Seq<u8>, Seq<u8>)>::empty());
        if parse_kvd(b, start as int, kend as int) is Some {
            let rest = parse_kvd(b, start as int, kend as int).unwrap();
            assert(meta_views(meta@) + rest =~= rest);
        }
        assert(kvd_prefix_ok(b, start as int, start as int, kend as int, meta_views(meta@)));
    }
    while pos < kend
        invariant
            start <= pos <= kend,
            kend <= b.len(),
            b == data@,
            kvd_prefix_ok(b, start as int, pos as int, kend as int, meta_views(meta@)),
        decreases kend - pos,
    {
        if kend - pos < 4 {
            return None;
        }
        let kvlen64 = dec32_exec(data, pos);
        if kvlen64 < 1 {
            return None;
        }
        if kvlen64 > (kend - pos - 4) as u64 {
            return None;
        }
        let kvlen = kvlen64 as usize;
        let content = vstd::slice::slice_subrange(data, pos + 4, pos + 4 + kvlen);
        let zi = match find_first_zero(content) {
            Some(z) => z,
            None => {
                return None;
            },
        };
        let key = vstd::slice::slice_to_vec(vstd::slice::slice_subrange(content, 0, zi));
        let value = vstd::slice::slice_to_vec(
            vstd::slice::slice_subrange(content, zi + 1, kvlen),
        );
        let pad: usize = if kvlen % 4 == 0 {
            0
        } else {
            4 - kvlen % 4
        };
        let body_end: usize = pos + 4 + kvlen;
        if pad > kend - body_end {
            return None;
        }
        let next: usize = body_end + pad;
        let p0: u8 = if pad >= 1 {
            *vstd::slice::slice_index_get(data, body_end)
        } else {
            0
        };
        let p1: u8 = if pad >= 2 {
            *vstd::slice::slice_index_get(data, body_end + 1)
        } else {
            0
        };
        let p2: u8 = if pad >= 3 {
            *vstd::slice::slice_index_get(data, body_end + 2)
        } else {
            0
        };
        if p0 != 0 || p1 != 0 || p2 != 0 {
            proof {
                let sub = b.subrange(body_end as int, body_end + pad);
                if p0 != 0 {
                    assert(sub[0] != 0u8);
                } else if p1 != 0 {
                    assert(sub[1] != 0u8);
                } else {
                    assert(sub[2] != 0u8);
                }
                assert(sub != crate::bytes::zeros(pad as int));
            }
            return None;
        }
        proof {
            assert(b.subrange(body_end as int, body_end + pad) =~= crate::bytes::zeros(pad as int));
        }
        let ghost old_meta_views = meta_views(meta@);
        meta.push(MetaEntry { key, value });
        proof {
            let e = (b.subrange(pos + 4, pos + 4 + kvlen as int).subrange(0, zi as int), b.subrange(
                pos + 4,
                pos + 4 + kvlen as int,
            ).subrange(zi + 1, kvlen as int));
            assert(meta_views(meta@) =~~= old_meta_views + seq![e]);
            if parse_kvd(b, next as int, kend as int) is Some {
                let rest = parse_kvd(b, next as int, kend as int).unwrap();
                assert(parse_kvd(b, pos as int, kend as int) == Some(seq![e] + rest));
                assert(old_meta_views + (seq![e] + rest) =~= (old_meta_views + seq![e]) + rest);
            } else {
                assert(parse_kvd(b, pos as int, kend as int) is None);
            }
            assert(kvd_prefix_ok(b, start as int, next as int, kend as int, meta_views(meta@)));
        }
        pos = next;
    }
    proof {
        assert(parse_kvd(b, pos as int, kend as int) == Some(Seq::<(Seq<u8>, Seq<u8>)>::empty()));
        assert(meta_views(meta@) + Seq::<(Seq<u8>, Seq<u8>)>::empty() =~= meta_views(meta@));
    }
    Some(meta)
}

/// An owned KTX2 texture.
///
/// The handle is the sole owner of its resource; it cannot be cloned, and
/// dropping it releases the resource exactly once. All reachable handles
/// are well-formed: every constructor establishes [`TexView::wf`] and
/// every operation preserves it.
#[derive(Debug)]
pub struct Ktx2Texture {
    width: u32,
    height: u32,
    depth: u32,
    layers: u32,
    faces: u32,
    levels: u32,
    format: VkFormat,
    data: Vec<u8>,
    meta: Vec<MetaEntry>,
}

/// The model of a stored metadata list: each entry as its key and value
/// byte sequences.
spec fn meta_views(m: Seq<MetaEntry>) -> Seq<(Seq<u8>, Seq<u8>)> {
    Seq::new(m.len(), |i: int| (m[i].key@, m[i].value@))
}

impl View for Ktx2Texture {
    type V = TexView;

    closed spec fn view(&self) -> TexView {
        TexView {
            width: self.width,
            height: self.height,
            depth: self.depth,
            layers: self.layers,
            faces: self.faces,
            levels: self.levels,
            format: self.format,
            data: self.data@,
            meta: meta_views(self.meta@),
        }
    }
}

/// Computes the serialized byte size of a stored metadata list that
/// respects the metadata cap.
fn kvd_total(meta: &Vec<MetaEntry>) -> (r: u64)
    requires
        kvd_size(meta_views(meta@)) <= MAX_METADATA_BYTES,
    ensures
        r == kvd_size(meta_views(meta@)),
{
    let ghost mv = meta_views(meta@);
    let n = meta.len();
    let mut sum: u64 = 0;
    let mut i: usize = 0;
    proof {
        assert(mv.take(0) =~= Seq::<(Seq<u8>, Seq<u8>)>::empty());
        assert(kvd_size(Seq::<(Seq<u8>, Seq<u8>)>::empty()) == 0);
    }
    while i < n
        invariant
            i <= n,
            n == meta@.len(),
            mv == meta_views(meta@),
            kvd_size(mv) <= MAX_METADATA_BYTES,
            sum == kvd_size(mv.take(i as int)),
            sum <= MAX_METADATA_BYTES,
        decreases n - i,
    {
        proof {
            lemma_kvd_size_take_step(mv, i as int);
            lemma_kvd_size_take_le(mv, i as int + 1);
            lemma_kvd_size_nonneg(mv.take(i as int));
            lemma_entry_size_pos(mv[i as int].0, mv[i as int].1);
        }
        let klen = meta[i].key.len();
        let vlen = meta[i].value.len();
        let e = entry_size_exec(klen as u64, vlen as u64);
        sum = sum + e;
        i = i + 1;
    }
    proof {
        lemma_kvd_size_take_all(mv);
    }
    sum
}

impl Ktx2Texture {
    /// Creates a texture with zero-initialized image storage.
    ///
    /// Zero or oversized extents, a zero count, the undefined format and a
    /// face count other than one or six are rejected with `InvalidValue`;
    /// a cubemap face count on a three-dimensional texture and a mip chain
    /// deeper than the largest extent allows with `InvalidOperation` (the
    /// container's own constraints); and a geometry whose storage would
    /// exceed the texture-size cap with `OutOfMemory`. Exactly
    /// [`create_spec`] pins which outcome each input receives.
    pub fn create(
        width: u32,
        height: u32,
        depth: u32,
        layers: u32,
        faces: u32,
        levels: u32,
        vk_format: VkFormat,
    ) -> (r: Result<Ktx2Texture, Error>)
        ensures
            match r {
                Ok(t) => create_spec(width, height, depth, layers, faces, levels, vk_format)
                    == Ok::<TexView, Error>(t@) && t@.wf(),
                Err(e) => create_spec(width, height, depth, layers, faces, levels, vk_format)
                    == Err::<TexView, Error>(e),
            },
    {
        if width == 0 || height == 0 {
            return Err(Error::InvalidValue);
        }
        if depth == 0 || layers == 0 || faces == 0 || levels == 0 {
            return Err(Error::InvalidValue);
        }
        if width > MAX_DIMENSION || height > MAX_DIMENSION || depth > MAX_DIMENSION {
            return Err(Error::InvalidValue);
        }
        if vk_format == VkFormat::Undefined {
            return Err(Error::InvalidValue);
        }
        if faces != 1 && faces != 6 {
            return Err(Error::InvalidValue);
        }
        if faces == 6 && depth != 1 {
            return Err(Error::InvalidOperation);
        }
        let max_dim: u64 = if width >= height && width >= depth {
            width as u64
        } else if height >= depth {
            height as u64
        } else {
            depth as u64
        };
        if levels > 32 || (1u64 << ((levels - 1) as u64)) > max_dim {
            return Err(Error::InvalidOperation);
        }
        let total = match compute_total_size(width, height, depth, layers, faces, levels, vk_format) {
            Some(t) => t,
            None => {
                return Err(Error::OutOfMemory);
            },
        };
        let data = vec![0u8; total as usize];
        let texture = Ktx2Texture {
            width,
            height,
            depth,
            layers,
            faces,
            levels,
            format: vk_format,
            data,
            meta: Vec::new(),
        };
        proof {
            let spec_view = create_spec(width, height, depth, layers, faces, levels, vk_format).unwrap();
            assert(kvd_size(Seq::<(Seq<u8>, Seq<u8>)>::empty()) == 0);
            assert(texture@.meta =~= Seq::<(Seq<u8>, Seq<u8>)>::empty());
            assert(texture@.data =~= spec_view.data);
            assert(texture@ =~= spec_view);
        }
        Ok(texture)
    }

    /// Reconstructs a texture from serialized container bytes.
    ///
    /// Bytes too short for the signature, or not starting with it, are
    /// not a KTX2 container (`UnknownFileFormat`). A supercompressed
    /// stream needs decoding components this build does not carry
    /// (`UnsupportedFeature`); an unknown or undefined pixel format is an
    /// unsupported texture type. Any structural damage — impossible
    /// geometry, a level index that does not match the recomputed layout,
    /// a malformed key/value block, or a length mismatch — surfaces as
    /// `FileDataError`. Exactly [`parse_spec`] pins the outcome; no input
    /// panics.
    #[verifier::rlimit(60)]
    pub fn from_memory(data: &[u8]) -> (r: Result<Ktx2Texture, Error>)
        ensures
            match r {
                Ok(t) => parse_spec(data@) == Ok::<TexView, Error>(t@) && t@.wf(),
                Err(e) => parse_spec(data@) == Err::<TexView, Error>(e),
            },
    {
        let ghost b = data@;
        let n = data.len();
        if n < 12 {
            return Err(Error::UnknownFileFormat);
        }
        if !sig_matches(data) {
            return Err(Error::UnknownFileFormat);
        }
        if n < 80 {
            return Err(Error::FileDataError);
        }
        if dec32_exec(data, 44) != 0 {
            return Err(Error::UnsupportedFeature);
        }
        let fmt_raw = dec32_exec(data, 12) as u32;
        let format = match VkFormat::from_raw(fmt_raw) {
            Some(f) => f,
            None => {
                return Err(Error::UnsupportedTextureType);
            },
        };
        if format == VkFormat::Undefined {
            return Err(Error::UnsupportedTextureType);
        }
        let width = dec32_exec(data, 20) as u32;
        let h_raw = dec32_exec(data, 24) as u32;
        let height = if h_raw == 0 {
            1
        } else {
            h_raw
        };
        let d_raw = dec32_exec(data, 28) as u32;
        let depth = if d_raw == 0 {
            1
        } else {
            d_raw
        };
        let ly_raw = dec32_exec(data, 32) as u32;
        let layers = if ly_raw == 0 {
            1
        } else {
            ly_raw
        };
        let faces = dec32_exec(data, 36) as u32;
        let lv_raw = dec32_exec(data, 40) as u32;
        let levels = if lv_raw == 0 {
            1
        } else {
            lv_raw
        };
        if width == 0 {
            return Err(Error::FileDataError);
        }
        if faces != 1 && faces != 6 {
            return Err(Error::FileDataError);
        }
        if faces == 6 && depth != 1 {
            return Err(Error::FileDataError);
        }
        let max_dim: u64 = if width >= height && width >= depth {
            width as u64
        } else if height >= depth {
            height as u64
        } else {
            depth as u64
        };
        if levels > 32 || (1u64 << ((levels - 1) as u64)) > max_dim {
            return Err(Error::FileDataError);
        }
        let total = match compute_total_size(width, height, depth, layers, faces, levels, format) {
            Some(t) => t,
            None => {
                return Err(Error::FileDataError);
            },
        };
        if 80 + 24 * (levels as u64) > n as u64 {
            return Err(Error::FileDataError);
        }
        let kvd_off = dec32_exec(data, 56);
        let kvd_len = dec32_exec(data, 60);
        let base: u64 = 80 + 24 * (levels as u64) + kvd_len;
        if kvd_len > MAX_METADATA_BYTES {
            return Err(Error::FileDataError);
        }
        if kvd_len > 0 && kvd_off != 80 + 24 * (levels as u64) {
            return Err(Error::FileDataError);
        }
        if base + total != n as u64 {
            return Err(Error::FileDataError);
        }
        if !check_level_index(data, width, height, depth, layers, faces, levels, format, base) {
            return Err(Error::FileDataError);
        }
        let start: usize = 80 + 24 * (levels as usize);
        let kend: usize = start + kvd_len as usize;
        let meta = match parse_kvd_exec(data, start, kend) {
            Some(m) => m,
            None => {
                return Err(Error::FileDataError);
            },
        };
        let dvec = vstd::slice::slice_to_vec(
            vstd::slice::slice_subrange(data, kend, kend + total as usize),
        );
        let texture = Ktx2Texture {
            width,
            height,
            depth,
            layers,
            faces,
            levels,
            format,
            data: dvec,
            meta,
        };
        proof {
            let spec_view = parse_spec(b).unwrap();
            assert(texture@.data =~= spec_view.data);
            assert(texture@ =~= spec_view);
            lemma_parse_kvd_props(b, start as int, kend as int);
            assert(texture@.wf());
        }
        Ok(texture)
    }

    /// Width in texels of the base level.
    pub fn width(&self) -> (r: u32)
        ensures
            r == self@.width,
    {
        self.width
    }

    /// Height in texels of the base level.
    pub fn height(&self) -> (r: u32)
        ensures
            r == self@.height,
    {
        self.height
    }

    /// Depth in texels of the base level.
    pub fn depth(&self) -> (r: u32)
        ensures
            r == self@.depth,
    {
        self.depth
    }

    /// Number of array layers.
    pub fn layers(&self) -> (r: u32)
        ensures
            r == self@.layers,
    {
        self.layers
    }

    /// Number of faces: six for a cubemap, one otherwise.
    pub fn faces(&self) -> (r: u32)
        ensures
            r == self@.faces,
    {
        self.faces
    }

    /// Number of mip levels.
    pub fn levels(&self) -> (r: u32)
        ensures
            r == self@.levels,
    {
        self.levels
    }

    /// The pixel format.
    pub fn vk_format(&self) -> (r: VkFormat)
        ensures
            r == self@.format,
    {
        self.format
    }

    /// Whether the texture is an array texture: more than one layer.
    pub fn is_array(&self) -> (r: bool)
        ensures
            r == (self@.layers > 1),
    {
        self.layers > 1
    }

    /// Whether the texture is a cubemap: six faces.
    pub fn is_cubemap(&self) -> (r: bool)
        ensures
            r == (self@.faces == 6),
    {
        self.faces == 6
    }

    /// Whether the pixel format is a block-compressed GPU format.
    pub fn is_compressed(&self) -> (r: bool)
        ensures
            r == is_block_compressed_spec(self@.format),
    {
        is_block_compressed(self.format)
    }

    /// Borrows the raw bytes of the image at (level, layer, face).
    ///
    /// Out-of-range indices are rejected with `InvalidValue`; each of the
    /// three positions is checked against its own count. On success the
    /// returned view aliases the backing buffer — it is scoped to the
    /// handle's lifetime by borrowing and never copies.
    pub fn get_image_data(&self, level: u32, layer: u32, face: u32) -> (r: Result<&[u8], Error>)
        requires
            self@.wf(),
        ensures
            match r {
                Ok(s) => get_image_spec(self@, level, layer, face) == Ok::<Seq<u8>, Error>(s@),
                Err(e) => get_image_spec(self@, level, layer, face) == Err::<Seq<u8>, Error>(e),
            },
    {
        if level >= self.levels || layer >= self.layers || face >= self.faces {
            return Err(Error::InvalidValue);
        }
        let region = compute_image_region(
            self.width,
            self.height,
            self.depth,
            self.layers,
            self.faces,
            self.levels,
            self.format,
            level,
            layer,
            face,
        );
        let off = region.0 as usize;
        let len = region.1 as usize;
        let slice = vstd::slice::slice_subrange(self.data.as_slice(), off, off + len);
        Ok(slice)
    }

    /// Replaces the bytes of the image at (level, layer, face).
    ///
    /// Out-of-range indices and an empty payload are rejected with
    /// `InvalidValue`; a payload whose length differs from the image's
    /// exact byte size with `InvalidOperation` (the storage's own size
    /// check). On failure the texture is left unchanged; on success
    /// exactly the addressed region of the backing buffer is replaced.
    pub fn set_image_data(&mut self, level: u32, layer: u32, face: u32, data: &[u8]) -> (r:
        Result<(), Error>)
        requires
            old(self)@.wf(),
        ensures
            match r {
                Ok(_) => set_image_spec(old(self)@, level, layer, face, data@) == Ok::<
                    TexView,
                    Error,
                >(final(self)@) && final(self)@.wf(),
                Err(e) => final(self)@ == old(self)@ && set_image_spec(
                    old(self)@,
                    level,
                    layer,
                    face,
                    data@,
                ) == Err::<TexView, Error>(e),
            },
    {
        if level >= self.levels || layer >= self.layers || face >= self.faces {
            return Err(Error::InvalidValue);
        }
        if data.len() == 0 {
            return Err(Error::InvalidValue);
        }
        let region = compute_image_region(
            self.width,
            self.height,
            self.depth,
            self.layers,
            self.faces,
            self.levels,
            self.format,
            level,
            layer,
            face,
        );
        let off = region.0 as usize;
        let len = region.1 as usize;
        if data.len() != len {
            return Err(Error::InvalidOperation);
        }
        let ghost old_view = self@;
        let dlen = self.data.len();
        let mut i: usize = 0;
        while i < len
            invariant
                i <= len,
                off + len <= dlen,
                dlen == self.data@.len(),
                data@.len() == len,
                self.data@.len() == old_view.data.len(),
                self.width == old_view.width,
                self.height == old_view.height,
                self.depth == old_view.depth,
                self.layers == old_view.layers,
                self.faces == old_view.faces,
                self.levels == old_view.levels,
                self.format == old_view.format,
                self@.meta == old_view.meta,
                forall|j: int| 0 <= j < off ==> self.data@[j] == old_view.data[j],
                forall|j: int|
                    off <= j < off + i ==> self.data@[j] == data@[j - off],
                forall|j: int|
                    off + i <= j < self.data@.len() ==> self.data@[j] == old_view.data[j],
            decreases len - i,
        {
            let b = *vstd::slice::slice_index_get(data, i);
            self.data[off + i] = b;
            i = i + 1;
        }
        proof {
            let expected = old_view.data.subrange(0, off as int) + data@ + old_view.data.subrange(
                off as int + len as int,
                old_view.data.len() as int,
            );
            assert(self.data@ =~= expected);
            let spec_view = set_image_spec(old_view, level, layer, face, data@).unwrap();
            assert(self@.meta =~= spec_view.meta);
            assert(self@ =~= spec_view);
        }
        Ok(())
    }

    /// Returns an owned copy of the value stored under a metadata key.
    ///
    /// A key holding an embedded null is rejected with `InvalidValue`
    /// before the store is consulted (the native key representation is
    /// null-terminated); an absent key surfaces as `NotFound`. The value
    /// is copied, not borrowed: the store's backing memory is not tied to
    /// the caller's usage window the way image data is.
    pub fn get_metadata(&self, key: &str) -> (r: Result<Vec<u8>, Error>)
        ensures
            match r {
                Ok(value) => get_metadata_spec(self@, key.spec_bytes()) == Ok::<Seq<u8>, Error>(
                    value@,
                ),
                Err(e) => get_metadata_spec(self@, key.spec_bytes()) == Err::<Seq<u8>, Error>(e),
            },
    {
        let kb = key.as_bytes();
        if contains_zero(kb) {
            return Err(Error::InvalidValue);
        }
        let n = self.meta.len();
        let mut i: usize = 0;
        while i < n
            invariant
                i <= n,
                n == self.meta@.len(),
                kb@ == key.spec_bytes(),
                !kb@.contains(0u8),
                forall|j: int| 0 <= j < i ==> (#[trigger] self@.meta[j]).0 != kb@,
            decreases n - i,
        {
            let hit = bytes_eq(self.meta[i].key.as_slice(), kb);
            proof {
                assert(self@.meta[i as int] == (self.meta@[i as int].key@, self.meta@[
                i as int].value@));
            }
            if hit {
                proof {
                    lemma_meta_first_match(self@.meta, kb@, Seq::<u8>::empty(), i as int);
                }
                return Ok(vstd::slice::slice_to_vec(self.meta[i].value.as_slice()));
            }
            i = i + 1;
        }
        proof {
            lemma_meta_no_match(self@.meta, kb@, Seq::<u8>::empty());
        }
        Err(Error::NotFound)
    }

    /// Stores a value under a metadata key, replacing any value the key
    /// already holds.
    ///
    /// A key holding an embedded null is rejected with `InvalidValue`
    /// before the store is touched; so is an entry that would push the
    /// serialized metadata block past its cap. The value may be any byte
    /// sequence, the empty one included, and is always copied into the
    /// store. On failure the texture is left unchanged.
    pub fn set_metadata(&mut self, key: &str, value: &[u8]) -> (r: Result<(), Error>)
        requires
            old(self)@.wf(),
        ensures
            match r {
                Ok(_) => set_metadata_spec(old(self)@, key.spec_bytes(), value@) == Ok::<
                    TexView,
                    Error,
                >(final(self)@) && final(self)@.wf(),
                Err(e) => final(self)@ == old(self)@ && set_metadata_spec(
                    old(self)@,
                    key.spec_bytes(),
                    value@,
                ) == Err::<TexView, Error>(e),
            },
    {
        let kb = key.as_bytes();
        if contains_zero(kb) {
            return Err(Error::InvalidValue);
        }
        let ghost old_meta = self@.meta;
        if kb.len() as u64 > MAX_METADATA_BYTES || value.len() as u64 > MAX_METADATA_BYTES {
            proof {
                lemma_kvd_size_set_ge_entry(old_meta, kb@, value@);
                lemma_entry_size_pos(kb@, value@);
            }
            return Err(Error::InvalidValue);
        }
        let new_entry = entry_size_exec(kb.len() as u64, value.len() as u64);
        let cur = kvd_total(&self.meta);
        let n = self.meta.len();
        let mut i: usize = 0;
        while i < n
            invariant
                i <= n,
                n == self.meta@.len(),
                kb@ == key.spec_bytes(),
                !kb@.contains(0u8),
                old_meta == self@.meta,
                old(self)@ == self@,
                old(self)@.wf(),
                cur == kvd_size(old_meta),
                new_entry == entry_size(kb@, value@),
                kb@.len() <= MAX_METADATA_BYTES,
                value@.len() <= MAX_METADATA_BYTES,
                forall|j: int| 0 <= j < i ==> (#[trigger] self@.meta[j]).0 != kb@,
            decreases n - i,
        {
            let hit = bytes_eq(self.meta[i].key.as_slice(), kb);
            proof {
                assert(self@.meta[i as int] == (self.meta@[i as int].key@, self.meta@[
                i as int].value@));
            }
            if hit {
                proof {
                    lemma_meta_first_match(old_meta, kb@, value@, i as int);
                    lemma_kvd_size_take_step(old_meta, i as int);
                    lemma_kvd_size_take_le(old_meta, i as int + 1);
                    lemma_kvd_size_nonneg(old_meta.take(i as int));
                    lemma_entry_size_pos(old_meta[i as int].0, old_meta[i as int].1);
                }
                let klen0 = self.meta[i].key.len();
                let vlen0 = self.meta[i].value.len();
                let old_entry = entry_size_exec(klen0 as u64, vlen0 as u64);
                let new_kvd = cur - old_entry + new_entry;
                proof {
                    lemma_kvd_size_set(old_meta, kb@, value@);
                }
                if new_kvd > MAX_METADATA_BYTES {
                    return Err(Error::InvalidValue);
                }
                let new_key = vstd::slice::slice_to_vec(kb);
                let new_value = vstd::slice::slice_to_vec(value);
                self.meta[i] = MetaEntry { key: new_key, value: new_value };
                proof {
                    lemma_meta_set_keys_wf(old_meta, kb@, value@);
                    assert(self@.meta =~~= old_meta.update(i as int, (kb@, value@)));
                    let spec_view = set_metadata_spec(old(self)@, kb@, value@).unwrap();
                    assert(self@ =~~= spec_view);
                }
                return Ok(());
            }
            i = i + 1;
        }
        proof {
            lemma_meta_no_match(old_meta, kb@, value@);
            lemma_kvd_size_set(old_meta, kb@, value@);
        }
        let new_kvd = cur + new_entry;
        if new_kvd > MAX_METADATA_BYTES {
            return Err(Error::InvalidValue);
        }
        let new_key = vstd::slice::slice_to_vec(kb);
        let new_value = vstd::slice::slice_to_vec(value);
        self.meta.push(MetaEntry { key: new_key, value: new_value });
        proof {
            lemma_meta_set_keys_wf(old_meta, kb@, value@);
            assert(self@.meta =~~= old_meta.push((kb@, value@)));
            let spec_view = set_metadata_spec(old(self)@, kb@, value@).unwrap();
            assert(self@ =~~= spec_view);
        }
        Ok(())
    }

    /// Serializes the texture into a freshly owned byte buffer.
    ///
    /// Serialization of a well-formed texture always succeeds, and the
    /// output is exactly the canonical container layout of
    /// [`serialize_spec`]; in particular its first twelve bytes are always
    /// the fixed KTX2 signature.
    pub fn write_to_memory(&self) -> (r: Result<Vec<u8>, Error>)
        requires
            self@.wf(),
        ensures
            r is Ok,
            r matches Ok(bytes) ==> bytes@ == serialize_spec(self@) && bytes@.len() >= 12
                && bytes@.subrange(0, 12) == sig_spec(),
    {
        let ghost v = self@;
        let mut out: Vec<u8> = Vec::new();
        out.push(0xAB);
        out.push(0x4B);
        out.push(0x54);
        out.push(0x58);
        out.push(0x20);
        out.push(0x32);
        out.push(0x30);
        out.push(0xBB);
        out.push(0x0D);
        out.push(0x0A);
        out.push(0x1A);
        out.push(0x0A);
        proof {
            assert(out@ =~= sig_spec());
        }
        let kvd_len_total = kvd_total(&self.meta);
        let kvd_off: u32 = if self.meta.len() == 0 {
            0
        } else {
            80 + 24 * self.levels
        };
        let mut fields: Vec<u32> = Vec::new();
        fields.push(self.format.as_raw());
        fields.push(type_size(self.format));
        fields.push(self.width);
        fields.push(
            if self.height == 1 && self.depth == 1 {
                0
            } else {
                self.height
            },
        );
        fields.push(
            if self.depth == 1 {
                0
            } else {
                self.depth
            },
        );
        fields.push(
            if self.layers == 1 {
                0
            } else {
                self.layers
            },
        );
        fields.push(self.faces);
        fields.push(self.levels);
        fields.push(0);
        fields.push(0);
        fields.push(0);
        fields.push(kvd_off);
        fields.push(kvd_len_total as u32);
        fields.push(0);
        fields.push(0);
        fields.push(0);
        fields.push(0);
        proof {
            assert(fields@ =~= header_fields(v));
        }
        let nf = fields.len();
        let mut i: usize = 0;
        proof {
            assert(fields@.take(0) =~= Seq::<u32>::empty());
            assert(enc32_all(Seq::<u32>::empty()) =~= Seq::<u8>::empty());
            assert(out@ =~= sig_spec() + enc32_all(fields@.take(0)));
        }
        while i < nf
            invariant
                i <= nf,
                nf == fields@.len(),
                fields@ == header_fields(v),
                out@ == sig_spec() + enc32_all(fields@.take(i as int)),
            decreases nf - i,
        {
            proof {
                lemma_enc32_all_take_step(fields@, i as int);
            }
            let x = fields[i];
            push_u32(&mut out, x);
            proof {
                assert(out@ =~= sig_spec() + enc32_all(fields@.take(i as int + 1)));
            }
            i = i + 1;
        }
        proof {
            assert(fields@.take(nf as int) =~= fields@);
        }
        // level index
        let ghost lf = level_fields(v);
        let info = block_info(self.format);
        let bw = info.0;
        let bh = info.1;
        let bs = info.2;
        proof {
            lemma_mul_le(self.layers as int, self.faces as int, u32::MAX as int, 6);
        }
        let lfa: u64 = (self.layers as u64) * (self.faces as u64);
        let base: u64 = 80 + 24 * (self.levels as u64) + kvd_len_total;
        let mut wl: u64 = self.width as u64;
        let mut hl: u64 = self.height as u64;
        let mut dl: u64 = self.depth as u64;
        let mut off: u64 = 0;
        let mut l: u32 = 0;
        proof {
            assert(lf.take(0) =~= Seq::<u64>::empty());
            assert(enc64_all(Seq::<u64>::empty()) =~= Seq::<u8>::empty());
            assert(out@ =~= sig_spec() + enc32_all(header_fields(v)) + enc64_all(lf.take(0)));
        }
        while l < self.levels
            invariant
                l <= self.levels,
                self@ == v,
                v.wf(),
                lf == level_fields(v),
                base == data_base(v),
                bw == block_width_spec(v.format),
                bh == block_height_spec(v.format),
                bs == block_size_spec(v.format),
                1 <= bw <= 8,
                1 <= bh <= 8,
                1 <= bs <= 16,
                lfa == (v.layers as int) * (v.faces as int),
                1 <= wl <= u32::MAX,
                1 <= hl <= u32::MAX,
                1 <= dl <= u32::MAX,
                wl == mip_extent(v.width, l as int),
                hl == mip_extent(v.height, l as int),
                dl == mip_extent(v.depth, l as int),
                off == level_offset(v.width, v.height, v.depth, v.layers, v.faces, v.format, l as int),
                off <= MAX_TEXTURE_BYTES,
                out@ == sig_spec() + enc32_all(header_fields(v)) + enc64_all(lf.take(3 * l as int)),
            decreases self.levels - l,
        {
            let ghost li = l as int;
            let img = crate::layout::level_image_size_exec(
                wl,
                hl,
                dl,
                bw,
                bh,
                bs,
                self.format,
                self.width,
                self.height,
                self.depth,
                self.layers,
                self.faces,
                self.levels,
                Ghost(li),
            );
            proof {
                assert((img as int) * ((v.layers as int) * (v.faces as int)) == (img as int) * (
                v.layers as int) * (v.faces as int)) by (nonlinear_arith);
                crate::layout::lemma_total_ge_level_size(
                    v.width,
                    v.height,
                    v.depth,
                    v.layers,
                    v.faces,
                    v.levels,
                    v.format,
                    li,
                );
                lemma_level_offset_nonneg(v.width, v.height, v.depth, v.layers, v.faces, v.format, li);
                crate::layout::lemma_level_offset_nondecreasing(
                    v.width,
                    v.height,
                    v.depth,
                    v.layers,
                    v.faces,
                    v.format,
                    li + 1,
                    v.levels as int,
                );
            }
            let ls = img * lfa;
            proof {
                assert((3 * li) / 3 == li && (3 * li) % 3 == 0 && (3 * li + 1) / 3 == li && (3 * li
                    + 1) % 3 == 1 && (3 * li + 2) / 3 == li && (3 * li + 2) % 3 == 2) by (nonlinear_arith);
                assert(lf[3 * li] == (data_base(v) + level_offset(
                    v.width,
                    v.height,
                    v.depth,
                    v.layers,
                    v.faces,
                    v.format,
                    li,
                )) as u64);
                assert(lf[3 * li + 1] == level_size(
                    v.width,
                    v.height,
                    v.depth,
                    v.layers,
                    v.faces,
                    v.format,
                    li,
                ) as u64);
                assert(lf[3 * li + 2] == level_size(
                    v.width,
                    v.height,
                    v.depth,
                    v.layers,
                    v.faces,
                    v.format,
                    li,
                ) as u64);
                lemma_enc64_all_take_step(lf, 3 * li);
                lemma_enc64_all_take_step(lf, 3 * li + 1);
                lemma_enc64_all_take_step(lf, 3 * li + 2);
            }
            push_u64(&mut out, base + off);
            push_u64(&mut out, ls);
            push_u64(&mut out, ls);
            proof {
                assert(out@ =~= sig_spec() + enc32_all(header_fields(v)) + enc64_all(
                    lf.take(3 * (li + 1)),
                ));
            }
            off = off + ls;
            wl = if wl > 1 {
                wl / 2
            } else {
                1
            };
            hl = if hl > 1 {
                hl / 2
            } else {
                1
            };
            dl = if dl > 1 {
                dl / 2
            } else {
                1
            };
            l = l + 1;
        }
        proof {
            assert(lf.take(3 * self.levels as int) =~= lf);
        }
        // key/value block
        let ghost mv = v.meta;
        let nm = self.meta.len();
        let mut m: usize = 0;
        proof {
            assert(mv.take(0) =~= Seq::<(Seq<u8>, Seq<u8>)>::empty());
            assert(kvd_spec(Seq::<(Seq<u8>, Seq<u8>)>::empty()) =~= Seq::<u8>::empty());
            assert(out@ =~= sig_spec() + enc32_all(header_fields(v)) + enc64_all(lf) + kvd_spec(
                mv.take(0),
            ));
        }
        while m < nm
            invariant
                m <= nm,
                nm == self.meta@.len(),
                self@ == v,
                mv == v.meta,
                lf == level_fields(v),
                kvd_size(mv) <= MAX_METADATA_BYTES,
                out@ == sig_spec() + enc32_all(header_fields(v)) + enc64_all(lf) + kvd_spec(
                    mv.take(m as int),
                ),
            decreases nm - m,
        {
            let ghost mi = m as int;
            proof {
                lemma_kvd_size_take_step(mv, mi);
                lemma_kvd_size_take_le(mv, mi + 1);
                lemma_kvd_size_nonneg(mv.take(mi));
                lemma_entry_size_pos(mv[mi].0, mv[mi].1);
                assert(mv[mi] == (self.meta@[mi].key@, self.meta@[mi].value@));
            }
            let klen = self.meta[m].key.len();
            let vlen = self.meta[m].value.len();
            let kvlen: u64 = klen as u64 + 1 + vlen as u64;
            let ghost before = out@;
            push_u32(&mut out, kvlen as u32);
            push_bytes(&mut out, self.meta[m].key.as_slice());
            out.push(0u8);
            push_bytes(&mut out, self.meta[m].value.as_slice());
            let pad: u64 = if kvlen % 4 == 0 {
                0
            } else {
                4 - kvlen % 4
            };
            if pad >= 1 {
                out.push(0u8);
            }
            if pad >= 2 {
                out.push(0u8);
            }
            if pad >= 3 {
                out.push(0u8);
            }
            proof {
                assert(out@ =~= before + entry_bytes(mv[mi].0, mv[mi].1));
                lemma_kvd_spec_take_step(mv, mi);
                assert(out@ =~= sig_spec() + enc32_all(header_fields(v)) + enc64_all(lf)
                    + kvd_spec(mv.take(mi + 1)));
            }
            m = m + 1;
        }
        proof {
            assert(mv.take(nm as int) =~= mv);
        }
        push_bytes(&mut out, self.data.as_slice());
        proof {
            assert(out@ =~= serialize_spec(v));
            lemma_serialize_len(v);
            lemma_kvd_size_nonneg(v.meta);
            assert(out@.subrange(0, 12) =~= sig_spec());
        }
        Ok(out)
    }

    /// Whether the images still need transcoding before they are in a
    /// GPU-consumable format.
    ///
    /// Only a Basis-Universal payload needs transcoding; such a payload is
    /// carried under the undefined pixel format, which no constructor of
    /// this crate produces, so the answer is false for every reachable
    /// handle rather than an error.
    pub fn needs_transcoding(&self) -> (r: bool)
        ensures
            r == self@.needs_transcoding(),
    {
        self.format == VkFormat::Undefined
    }

    /// Compresses the image data with the Basis Universal encoder under
    /// the full parameter record's defaults at the given quality.
    ///
    /// A texture whose format is already block-compressed cannot be
    /// encoded and is rejected with `InvalidOperation`. The encoder
    /// itself is a native component that is not linked into this build,
    /// so an otherwise valid request fails with `LibraryNotLinked`.
    /// Either way the texture is left exactly as it was: a failed
    /// compression never partially mutates visible state.
    pub fn compress_basis_simple(&mut self, quality: u32) -> (r: Result<(), Error>)
        ensures
            final(self)@ == old(self)@,
            r == Err::<(), Error>(
                if is_block_compressed_spec(old(self)@.format) {
                    Error::InvalidOperation
                } else {
                    Error::LibraryNotLinked
                },
            ),
    {
        if is_block_compressed(self.format) {
            return Err(Error::InvalidOperation);
        }
        Err(Error::LibraryNotLinked)
    }

    /// Transcodes a Basis-compressed texture into the target GPU format,
    /// always over all levels, layers and faces.
    ///
    /// Only a texture that still needs transcoding can be transcoded;
    /// anything else is rejected with `InvalidOperation`. A texture that
    /// does need it would require the native transcoder, which is not
    /// linked into this build (`LibraryNotLinked`) — and no constructor of
    /// this crate produces such a texture. The texture is never mutated.
    pub fn transcode_basis(&mut self, format: TranscodeFormat) -> (r: Result<(), Error>)
        ensures
            final(self)@ == old(self)@,
            r == Err::<(), Error>(
                if old(self)@.needs_transcoding() {
                    Error::LibraryNotLinked
                } else {
                    Error::InvalidOperation
                },
            ),
    {
        let _ = format;
        if self.format == VkFormat::Undefined {
            return Err(Error::LibraryNotLinked);
        }
        Err(Error::InvalidOperation)
    }
}

/// A freshly created handle with an uncompressed pixel format reports
/// neither block compression nor a pending transcode.
pub proof fn lemma_fresh_texture_uncompressed(
    width: u32,
    height: u32,
    depth: u32,
    layers: u32,
    faces: u32,
    levels: u32,
    format: VkFormat,
)
    requires
        create_spec(width, height, depth, layers, faces, levels, format) is Ok,
        !is_block_compressed_spec(format),
    ensures
        !is_block_compressed_spec(
            create_spec(width, height, depth, layers, faces, levels, format).unwrap().format,
        ),
        !create_spec(width, height, depth, layers, faces, levels, format).unwrap().needs_transcoding(),
{
}

/// Storing a metadata value and reading the same key back yields exactly
/// that value, byte for byte; lookups of every other key are unchanged.
pub proof fn lemma_metadata_round_trip(v: TexView, key: Seq<u8>, value: Seq<u8>, other: Seq<u8>)
    requires
        set_metadata_spec(v, key, value) is Ok,
        other != key,
    ensures
        get_metadata_spec(set_metadata_spec(v, key, value).unwrap(), key) == Ok::<Seq<u8>, Error>(
            value,
        ),
        !other.contains(0u8) ==> get_metadata_spec(set_metadata_spec(v, key, value).unwrap(), other)
            == get_metadata_spec(v, other),
{
    crate::metadata::lemma_meta_round_trip(v.meta, key, value);
    crate::metadata::lemma_meta_set_preserves_others(v.meta, key, value, other);
}

/// Each image index is checked against its own count: any one of level,
/// layer or face at or past its count fails the access, read or write,
/// with `InvalidValue`.
pub proof fn lemma_image_index_validation(
    v: TexView,
    level: u32,
    layer: u32,
    face: u32,
    bytes: Seq<u8>,
)
    requires
        level >= v.levels || layer >= v.layers || face >= v.faces,
    ensures
        get_image_spec(v, level, layer, face) == Err::<Seq<u8>, Error>(Error::InvalidValue),
        set_image_spec(v, level, layer, face, bytes) == Err::<TexView, Error>(Error::InvalidValue),
{
}

/// Writing an image and reading the same (level, layer, face) back yields
/// exactly the written bytes.
pub proof fn lemma_image_data_round_trip(
    v: TexView,
    level: u32,
    layer: u32,
    face: u32,
    bytes: Seq<u8>,
)
    requires
        v.wf(),
        set_image_spec(v, level, layer, face, bytes) is Ok,
    ensures
        get_image_spec(set_image_spec(v, level, layer, face, bytes).unwrap(), level, layer, face)
            == Ok::<Seq<u8>, Error>(bytes),
{
    let off = image_offset(
        v.width,
        v.height,
        v.depth,
        v.layers,
        v.faces,
        v.format,
        level as int,
        layer as int,
        face as int,
    );
    let sz = image_size(v.width, v.height, v.depth, v.format, level as int);
    lemma_image_region_in_bounds(
        v.width,
        v.height,
        v.depth,
        v.layers,
        v.faces,
        v.levels,
        v.format,
        level as int,
        layer as int,
        face as int,
    );
    lemma_level_offset_nonneg(v.width, v.height, v.depth, v.layers, v.faces, v.format, level as int);
    let updated = set_image_spec(v, level, layer, face, bytes).unwrap();
    assert(updated.data.subrange(off, off + sz) =~= bytes);
}

} // verus!
