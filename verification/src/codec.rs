//! Container serialization model.
//!
//! A serialized texture is laid out as: the fixed 12-byte KTX2 signature;
//! seventeen 32-bit header words (pixel format, type size, extents, layer,
//! face and level counts, supercompression scheme, descriptor and
//! key/value block placement, and the supercompression-global words, the
//! unused ones zero); the level index of three 64-bit words per level; the
//! key/value block; and the image data of all levels, ascending and
//! contiguous, at the offsets the level index records. The reader accepts
//! exactly this canonical layout and recomputes every size it trusts, so a
//! damaged or foreign byte stream surfaces as a typed error and the
//! round-trip theorem at the end of this module holds for every
//! well-formed texture.

use vstd::prelude::*;

use crate::bytes::{
    dec32, dec64, enc32, enc32_all, enc64, enc64_all, lemma_concat_prefix_subrange,
    lemma_concat_suffix_subrange, lemma_dec32_of_enc32, lemma_dec64_of_enc64,
    lemma_enc32_all_index, lemma_enc32_all_len, lemma_enc64_all_index, lemma_enc64_all_len, zeros,
};
use crate::error::Error;
use crate::layout::{
    lemma_level_offset_nondecreasing, lemma_level_offset_nonneg, lemma_level_size_bounds,
    level_offset, level_size, total_size, MAX_TEXTURE_BYTES,
};
use crate::metadata::{
    entry_size, kvd_size, lemma_entry_size_pos, lemma_kvd_size_nonneg, meta_wf, pad4,
    MAX_METADATA_BYTES,
};
use crate::texture::{max_dim3, TexView};
use crate::vk_format::{vk_from_raw_spec, vk_raw_spec, VkFormat};

verus! {

/// The fixed 12-byte KTX2 file signature.
pub open spec fn sig_spec() -> Seq<u8> {
    seq![0xABu8, 0x4Bu8, 0x54u8, 0x58u8, 0x20u8, 0x32u8, 0x30u8, 0xBBu8, 0x0Du8, 0x0Au8, 0x1Au8, 0x0Au8]
}

/// The stored height word: zero marks a one-dimensional texture.
pub open spec fn stored_height(v: TexView) -> u32 {
    if v.height == 1 && v.depth == 1 {
        0
    } else {
        v.height
    }
}

/// The stored depth word: zero marks a texture without depth.
pub open spec fn stored_depth(v: TexView) -> u32 {
    if v.depth == 1 {
        0
    } else {
        v.depth
    }
}

/// The stored layer-count word: zero marks a non-array texture.
pub open spec fn stored_layers(v: TexView) -> u32 {
    if v.layers == 1 {
        0
    } else {
        v.layers
    }
}

/// The stored offset of the key/value block, zero when the block is
/// empty.
pub open spec fn kvd_offset_field(v: TexView) -> u32 {
    if v.meta.len() == 0 {
        0
    } else {
        (80 + 24 * v.levels) as u32
    }
}

/// The seventeen 32-bit header words that follow the signature.
pub open spec fn header_fields(v: TexView) -> Seq<u32> {
    seq![
        vk_raw_spec(v.format),
        type_size_word(v),
        v.width,
        stored_height(v),
        stored_depth(v),
        stored_layers(v),
        v.faces,
        v.levels,
        0u32,
        0u32,
        0u32,
        kvd_offset_field(v),
        kvd_size(v.meta) as u32,
        0u32,
        0u32,
        0u32,
        0u32,
    ]
}

/// The stored type-size word of the pixel format.
pub open spec fn type_size_word(v: TexView) -> u32 {
    crate::layout::type_size_spec(v.format) as u32
}

/// Byte offset at which the image data of level 0 begins.
pub open spec fn data_base(v: TexView) -> int {
    80 + 24 * v.levels + kvd_size(v.meta)
}

/// The level index: for each level its absolute byte offset, its byte
/// length, and the same length again as the uncompressed byte length (no
/// supercompression is applied).
pub open spec fn level_fields(v: TexView) -> Seq<u64> {
    Seq::new(
        (3 * v.levels) as nat,
        |i: int|
            {
                let l = i / 3;
                if i % 3 == 0 {
                    (data_base(v) + level_offset(v.width, v.height, v.depth, v.layers, v.faces, v.format, l)) as u64
                } else {
                    level_size(v.width, v.height, v.depth, v.layers, v.faces, v.format, l) as u64
                }
            },
    )
}

/// The serialized bytes of one key/value entry: length prefix, key, null
/// terminator, value, and zero padding to the next 4-byte boundary.
pub open spec fn entry_bytes(key: Seq<u8>, value: Seq<u8>) -> Seq<u8> {
    enc32((key.len() + 1 + value.len()) as u32) + key + seq![0u8] + value + zeros(
        pad4(key.len() + 1 + value.len() as int),
    )
}

/// The serialized key/value block: the entries in storage order.
pub open spec fn kvd_spec(meta: Seq<(Seq<u8>, Seq<u8>)>) -> Seq<u8>
    decreases meta.len(),
{
    if meta.len() == 0 {
        Seq::empty()
    } else {
        entry_bytes(meta[0].0, meta[0].1) + kvd_spec(meta.drop_first())
    }
}

/// The complete serialized container of a texture.
pub open spec fn serialize_spec(v: TexView) -> Seq<u8> {
    sig_spec() + enc32_all(header_fields(v)) + enc64_all(level_fields(v)) + kvd_spec(v.meta)
        + v.data
}

/// The key/value block occupies exactly the serialized metadata size.
pub proof fn lemma_kvd_spec_len(meta: Seq<(Seq<u8>, Seq<u8>)>)
    ensures
        kvd_spec(meta).len() == kvd_size(meta),
    decreases meta.len(),
{
    if meta.len() > 0 {
        lemma_kvd_spec_len(meta.drop_first());
    }
}

/// Extending a metadata list appends the new entry's bytes to the block.
pub proof fn lemma_kvd_spec_take_step(meta: Seq<(Seq<u8>, Seq<u8>)>, i: int)
    requires
        0 <= i < meta.len(),
    ensures
        kvd_spec(meta.take(i + 1)) == kvd_spec(meta.take(i)) + entry_bytes(meta[i].0, meta[i].1),
    decreases i,
{
    if i == 0 {
        assert(meta.take(1).drop_first() =~= meta.take(0));
        assert(meta.take(1)[0] == meta[0]);
        assert(kvd_spec(meta.take(1)) =~= kvd_spec(meta.take(0)) + entry_bytes(meta[0].0, meta[0].1));
    } else {
        lemma_kvd_spec_take_step(meta.drop_first(), i - 1);
        assert(meta.take(i + 1).drop_first() =~= meta.drop_first().take(i));
        assert(meta.take(i).drop_first() =~= meta.drop_first().take(i - 1));
        assert(meta.take(i + 1)[0] == meta[0]);
        assert(meta.take(i)[0] == meta[0]);
        assert(meta.drop_first()[i - 1] == meta[i]);
        assert(kvd_spec(meta.take(i + 1)) =~= kvd_spec(meta.take(i)) + entry_bytes(
            meta[i].0,
            meta[i].1,
        ));
    }
}

/// Byte length of the complete serialized container.
pub proof fn lemma_serialize_len(v: TexView)
    ensures
        serialize_spec(v).len() == data_base(v) + v.data.len(),
{
    lemma_enc32_all_len(header_fields(v));
    lemma_enc64_all_len(level_fields(v));
    lemma_kvd_spec_len(v.meta);
}

/// The index of the first zero byte of a sequence that holds one.
pub open spec fn first_zero(s: Seq<u8>) -> int
    decreases s.len(),
{
    if s.len() == 0 {
        0
    } else if s[0] == 0u8 {
        0
    } else {
        1 + first_zero(s.drop_first())
    }
}

/// For a sequence holding a zero, `first_zero` points at a zero and
/// nothing before it is one.
pub proof fn lemma_first_zero(s: Seq<u8>)
    requires
        s.contains(0u8),
    ensures
        0 <= first_zero(s) < s.len(),
        s[first_zero(s)] == 0u8,
        forall|j: int| 0 <= j < first_zero(s) ==> s[j] != 0u8,
    decreases s.len(),
{
    if s[0] == 0u8 {
    } else {
        let i = choose|i: int| 0 <= i < s.len() && s[i] == 0u8;
        assert(s.drop_first()[i - 1] == s[i]);
        assert(s.drop_first().contains(0u8));
        lemma_first_zero(s.drop_first());
        assert(forall|j: int|
            1 <= j < first_zero(s) ==> s[j] == s.drop_first()[j - 1]);
    }
}

/// A key with no embedded zero, followed by its terminator and the value,
/// has its first zero exactly at the key's end.
pub proof fn lemma_first_zero_of_entry(key: Seq<u8>, value: Seq<u8>)
    requires
        !key.contains(0u8),
    ensures
        (key + seq![0u8] + value).contains(0u8),
        first_zero(key + seq![0u8] + value) == key.len(),
    decreases key.len(),
{
    let s = key + seq![0u8] + value;
    assert(s[key.len() as int] == 0u8);
    assert(s.contains(0u8));
    if key.len() == 0 {
    } else {
        assert(key[0] != 0u8) by {
            assert(key.contains(0u8) <== key[0] == 0u8);
        }
        assert(s[0] == key[0]);
        lemma_first_zero_of_entry(key.drop_first(), value);
        assert(s.drop_first() =~= key.drop_first() + seq![0u8] + value);
    }
}

/// The outcome of reading a key/value block: the entries in order, or
/// nothing when the bytes do not form a valid block.
pub open spec fn parse_kvd(b: Seq<u8>, pos: int, end: int) -> Option<Seq<(Seq<u8>, Seq<u8>)>>
    decreases end - pos,
{
    if pos == end {
        Some(Seq::empty())
    } else if pos + 4 > end {
        None
    } else {
        let kvlen = dec32(b, pos);
        if kvlen < 1 || pos + 4 + kvlen > end {
            None
        } else {
            let content = b.subrange(pos + 4, pos + 4 + kvlen);
            if !content.contains(0u8) {
                None
            } else {
                let zi = first_zero(content);
                let key = content.subrange(0, zi);
                let value = content.subrange(zi + 1, kvlen);
                let next = pos + 4 + kvlen + pad4(kvlen);
                if next > end || b.subrange(pos + 4 + kvlen, next) != zeros(pad4(kvlen)) {
                    None
                } else {
                    match parse_kvd(b, next, end) {
                        Some(rest) => Some(seq![(key, value)] + rest),
                        None => None,
                    }
                }
            }
        }
    }
}

/// Whether a byte stream starts with the fixed KTX2 signature.
pub fn sig_matches(b: &[u8]) -> (r: bool)
    requires
        b@.len() >= 12,
    ensures
        r == (b@.subrange(0, 12) == sig_spec()),
{
    let mut expected: Vec<u8> = Vec::new();
    expected.push(0xAB);
    expected.push(0x4B);
    expected.push(0x54);
    expected.push(0x58);
    expected.push(0x20);
    expected.push(0x32);
    expected.push(0x30);
    expected.push(0xBB);
    expected.push(0x0D);
    expected.push(0x0A);
    expected.push(0x1A);
    expected.push(0x0A);
    proof {
        assert(expected@ =~= sig_spec());
    }
    let mut i: usize = 0;
    while i < 12
        invariant
            i <= 12,
            b@.len() >= 12,
            expected@ == sig_spec(),
            forall|j: int| 0 <= j < i ==> b@[j] == sig_spec()[j],
        decreases 12 - i,
    {
        let e = expected[i];
        if *vstd::slice::slice_index_get(b, i) != e {
            assert(b@.subrange(0, 12) != sig_spec()) by {
                assert(b@.subrange(0, 12)[i as int] != sig_spec()[i as int]);
            }
            return false;
        }
        i = i + 1;
    }
    assert(b@.subrange(0, 12) =~= sig_spec());
    true
}

/// Finds the first zero byte of a slice.
pub fn find_first_zero(s: &[u8]) -> (r: Option<usize>)
    ensures
        match r {
            Some(i) => s@.contains(0u8) && i == first_zero(s@) && i < s@.len(),
            None => !s@.contains(0u8),
        },
{
    let n = s.len();
    let mut i: usize = 0;
    while i < n
        invariant
            i <= n,
            n == s@.len(),
            forall|j: int| 0 <= j < i ==> s@[j] != 0u8,
        decreases n - i,
    {
        if *vstd::slice::slice_index_get(s, i) == 0u8 {
            proof {
                assert(s@.contains(0u8)) by {
                    assert(s@[i as int] == 0u8);
                }
                lemma_first_zero(s@);
                assert(i == first_zero(s@)) by {
                    if first_zero(s@) < i {
                        assert(s@[first_zero(s@)] == 0u8);
                    }
                }
            }
            return Some(i);
        }
        i = i + 1;
    }
    assert(!s@.contains(0u8));
    None
}

/// The outcome that reading a byte stream owes: a stream too short for
/// the signature, or not carrying it, is not a KTX2 container at all;
/// structural damage past the signature is a file-data error; a
/// supercompressed stream needs components this build does not carry; and
/// an unknown or undefined pixel format is an unsupported texture type.
pub open spec fn parse_spec(b: Seq<u8>) -> Result<TexView, Error> {
    if b.len() < 12 || b.subrange(0, 12) != sig_spec() {
        Err(Error::UnknownFileFormat)
    } else if b.len() < 80 {
        Err(Error::FileDataError)
    } else if dec32(b, 44) != 0 {
        Err(Error::UnsupportedFeature)
    } else if vk_from_raw_spec(dec32(b, 12) as u32) is None || vk_from_raw_spec(
        dec32(b, 12) as u32,
    ) == Some(VkFormat::Undefined) {
        Err(Error::UnsupportedTextureType)
    } else {
        let format = vk_from_raw_spec(dec32(b, 12) as u32).unwrap();
        let width = dec32(b, 20) as u32;
        let height = if dec32(b, 24) == 0 {
            1u32
        } else {
            dec32(b, 24) as u32
        };
        let depth = if dec32(b, 28) == 0 {
            1u32
        } else {
            dec32(b, 28) as u32
        };
        let layers = if dec32(b, 32) == 0 {
            1u32
        } else {
            dec32(b, 32) as u32
        };
        let faces = dec32(b, 36) as u32;
        let levels = if dec32(b, 40) == 0 {
            1u32
        } else {
            dec32(b, 40) as u32
        };
        if width == 0 {
            Err(Error::FileDataError)
        } else if faces != 1 && faces != 6 {
            Err(Error::FileDataError)
        } else if faces == 6 && depth != 1 {
            Err(Error::FileDataError)
        } else if !(levels <= 32 && (1u64 << ((levels - 1) as u64)) <= max_dim3(
            width,
            height,
            depth,
        )) {
            Err(Error::FileDataError)
        } else if total_size(width, height, depth, layers, faces, levels, format)
            > MAX_TEXTURE_BYTES {
            Err(Error::FileDataError)
        } else if 80 + 24 * levels > b.len() {
            Err(Error::FileDataError)
        } else {
            let kvd_off = dec32(b, 56);
            let kvd_len = dec32(b, 60);
            let base = 80 + 24 * levels + kvd_len;
            let total = total_size(width, height, depth, layers, faces, levels, format);
            if kvd_len > MAX_METADATA_BYTES {
                Err(Error::FileDataError)
            } else if kvd_len > 0 && kvd_off != 80 + 24 * levels {
                Err(Error::FileDataError)
            } else if base + total != b.len() {
                Err(Error::FileDataError)
            } else if !level_index_ok(b, width, height, depth, layers, faces, levels, format, base) {
                Err(Error::FileDataError)
            } else {
                match parse_kvd(b, 80 + 24 * levels, base) {
                    None => Err(Error::FileDataError),
                    Some(meta) => Ok(
                        TexView {
                            width,
                            height,
                            depth,
                            layers,
                            faces,
                            levels,
                            format,
                            data: b.subrange(base, base + total),
                            meta,
                        },
                    ),
                }
            }
        }
    }
}

/// How a partially read key/value block relates to the whole block: the
/// entries read so far, prepended to whatever the rest parses to, parse
/// from the block's start.
pub open spec fn kvd_prefix_ok(
    b: Seq<u8>,
    start: int,
    pos: int,
    end: int,
    built: Seq<(Seq<u8>, Seq<u8>)>,
) -> bool {
    match parse_kvd(b, pos, end) {
        Some(rest) => parse_kvd(b, start, end) == Some(built + rest),
        None => parse_kvd(b, start, end) is None,
    }
}

/// A block that parses occupies exactly its byte range and yields only
/// null-free keys.
pub proof fn lemma_parse_kvd_props(b: Seq<u8>, pos: int, end: int)
    requires
        0 <= pos <= end <= b.len(),
        parse_kvd(b, pos, end) is Some,
    ensures
        kvd_size(parse_kvd(b, pos, end).unwrap()) == end - pos,
        forall|i: int|
            0 <= i < parse_kvd(b, pos, end).unwrap().len() ==> !(#[trigger] parse_kvd(
                b,
                pos,
                end,
            ).unwrap()[i].0).contains(0u8),
    decreases end - pos,
{
    if pos == end {
    } else {
        let kvlen = dec32(b, pos);
        let content = b.subrange(pos + 4, pos + 4 + kvlen);
        let zi = first_zero(content);
        let key = content.subrange(0, zi);
        let value = content.subrange(zi + 1, kvlen);
        let next = pos + 4 + kvlen + pad4(kvlen);
        lemma_first_zero(content);
        assert(content.len() == kvlen);
        assert(0 <= zi < kvlen);
        assert(key.len() == zi);
        assert(value.len() == kvlen - zi - 1);
        lemma_parse_kvd_props(b, next, end);
        let rest = parse_kvd(b, next, end).unwrap();
        let whole = parse_kvd(b, pos, end).unwrap();
        assert(whole =~= seq![(key, value)] + rest);
        assert(whole.drop_first() =~= rest);
        assert(whole[0] == (key, value));
        assert(!key.contains(0u8)) by {
            if key.contains(0u8) {
                let j = choose|j: int| 0 <= j < key.len() && key[j] == 0u8;
                assert(content[j] == 0u8);
            }
        }
        assert(key.len() + 1 + value.len() == kvlen);
        assert(kvd_size(whole) == entry_size(key, value) + kvd_size(rest));
        assert(forall|i: int|
            1 <= i < whole.len() ==> (#[trigger] whole[i]) == rest[i - 1]);
    }
}

/// Whether one level-index entry records the canonical offset, the
/// recomputed level size, and that same size uncompressed.
pub open spec fn level_entry_ok(
    b: Seq<u8>,
    width: u32,
    height: u32,
    depth: u32,
    layers: u32,
    faces: u32,
    format: VkFormat,
    base: int,
    l: int,
) -> bool {
    &&& dec64(b, 80 + 24 * l) == base + level_offset(width, height, depth, layers, faces, format, l)
    &&& dec64(b, 80 + 24 * l + 8) == level_size(width, height, depth, layers, faces, format, l)
    &&& dec64(b, 80 + 24 * l + 16) == level_size(width, height, depth, layers, faces, format, l)
}

/// Whether every level-index entry is canonical.
pub open spec fn level_index_ok(
    b: Seq<u8>,
    width: u32,
    height: u32,
    depth: u32,
    layers: u32,
    faces: u32,
    levels: u32,
    format: VkFormat,
    base: int,
) -> bool {
    forall|l: int|
        0 <= l < levels ==> #[trigger] level_entry_ok(
            b,
            width,
            height,
            depth,
            layers,
            faces,
            format,
            base,
            l,
        )
}

/// A subrange of bytes known to equal `s` reads back any part of `s`.
proof fn lemma_subrange_of_eq(b: Seq<u8>, pos: int, s: Seq<u8>, x: int, y: int)
    requires
        0 <= pos,
        pos + s.len() <= b.len(),
        b.subrange(pos, pos + s.len()) == s,
        0 <= x <= y <= s.len(),
    ensures
        b.subrange(pos + x, pos + y) == s.subrange(x, y),
{
    assert forall|i: int| 0 <= i < y - x implies b.subrange(pos + x, pos + y)[i] == s.subrange(
        x,
        y,
    )[i] by {
        assert(b.subrange(pos, pos + s.len())[x + i] == b[pos + x + i]);
    }
    assert(b.subrange(pos + x, pos + y) =~= s.subrange(x, y));
}

/// The five segments of a serialized container stand at their canonical
/// offsets.
proof fn lemma_serialize_segments(v: TexView)
    requires
        v.wf(),
    ensures
        serialize_spec(v).len() == data_base(v) + v.data.len(),
        serialize_spec(v).subrange(0, 12) == sig_spec(),
        serialize_spec(v).subrange(12, 80) == enc32_all(header_fields(v)),
        serialize_spec(v).subrange(80, 80 + 24 * (v.levels as int)) == enc64_all(level_fields(v)),
        serialize_spec(v).subrange(80 + 24 * (v.levels as int), data_base(v)) == kvd_spec(v.meta),
        serialize_spec(v).subrange(data_base(v), data_base(v) + v.data.len() as int) == v.data,
{
    let sig = sig_spec();
    let h32 = enc32_all(header_fields(v));
    let l64 = enc64_all(level_fields(v));
    let kv = kvd_spec(v.meta);
    let a = sig + h32;
    let b1 = a + l64;
    let c = b1 + kv;
    let s = serialize_spec(v);
    lemma_enc32_all_len(header_fields(v));
    lemma_enc64_all_len(level_fields(v));
    lemma_kvd_spec_len(v.meta);
    lemma_kvd_size_nonneg(v.meta);
    assert(s =~= c + v.data);
    assert(a.len() == 80);
    assert(b1.len() == 80 + 24 * (v.levels as int));
    assert(c.len() == data_base(v));
    // signature
    lemma_concat_prefix_subrange(c, v.data, 0, 12);
    lemma_concat_prefix_subrange(b1, kv, 0, 12);
    lemma_concat_prefix_subrange(a, l64, 0, 12);
    lemma_concat_prefix_subrange(sig, h32, 0, 12);
    assert(sig.subrange(0, 12) =~= sig);
    // header words
    lemma_concat_prefix_subrange(c, v.data, 12, 80);
    lemma_concat_prefix_subrange(b1, kv, 12, 80);
    lemma_concat_prefix_subrange(a, l64, 12, 80);
    lemma_concat_suffix_subrange(sig, h32, 0, h32.len() as int);
    assert(h32.subrange(0, h32.len() as int) =~= h32);
    // level index
    lemma_concat_prefix_subrange(c, v.data, 80, 80 + 24 * (v.levels as int));
    lemma_concat_prefix_subrange(b1, kv, 80, 80 + 24 * (v.levels as int));
    lemma_concat_suffix_subrange(a, l64, 0, l64.len() as int);
    assert(l64.subrange(0, l64.len() as int) =~= l64);
    // key/value block
    lemma_concat_prefix_subrange(c, v.data, 80 + 24 * (v.levels as int), data_base(v));
    lemma_concat_suffix_subrange(b1, kv, 0, kv.len() as int);
    assert(kv.subrange(0, kv.len() as int) =~= kv);
    // image data
    lemma_concat_suffix_subrange(c, v.data, 0, v.data.len() as int);
    assert(v.data.subrange(0, v.data.len() as int) =~= v.data);
}

/// Each header word of a serialized container decodes to its field.
proof fn lemma_header_field(v: TexView, k: int)
    requires
        v.wf(),
        0 <= k < 17,
    ensures
        dec32(serialize_spec(v), 12 + 4 * k) == header_fields(v)[k],
{
    let s = serialize_spec(v);
    let hf = header_fields(v);
    let h32 = enc32_all(hf);
    lemma_serialize_segments(v);
    lemma_enc32_all_len(hf);
    lemma_kvd_size_nonneg(v.meta);
    lemma_subrange_of_eq(s, 12, h32, 4 * k, 4 * k + 4);
    lemma_enc32_all_index(hf, k);
    lemma_dec32_of_enc32(s, 12 + 4 * k, hf[k]);
}

/// A byte range holding a serialized key/value block parses back to
/// exactly its entries.
proof fn lemma_parse_kvd_of_spec(b: Seq<u8>, pos: int, meta: Seq<(Seq<u8>, Seq<u8>)>)
    requires
        0 <= pos,
        pos + kvd_size(meta) <= b.len(),
        b.subrange(pos, pos + kvd_size(meta)) == kvd_spec(meta),
        meta_wf(meta),
    ensures
        parse_kvd(b, pos, pos + kvd_size(meta)) == Some(meta),
    decreases meta.len(),
{
    lemma_kvd_spec_len(meta);
    if meta.len() == 0 {
    } else {
        let key = meta[0].0;
        let value = meta[0].1;
        let rest = meta.drop_first();
        let e0 = entry_size(key, value);
        let kvlen = key.len() + 1 + value.len() as int;
        let kvlenw = kvlen as u32;
        let kv = kvd_spec(meta);
        let eb = entry_bytes(key, value);
        let mid = key + seq![0u8] + value;
        lemma_kvd_size_nonneg(rest);
        lemma_entry_size_pos(key, value);
        lemma_kvd_spec_len(rest);
        assert(kvd_size(meta) == e0 + kvd_size(rest));
        assert(kvd_size(rest) <= MAX_METADATA_BYTES) by {
            assert(forall|i: int|
                0 <= i < rest.len() ==> (#[trigger] rest[i]) == meta[i + 1]);
        }
        assert(meta_wf(rest)) by {
            assert(forall|i: int|
                0 <= i < rest.len() ==> (#[trigger] rest[i]) == meta[i + 1]);
        }
        assert(kvlen < 4294967296);
        assert(kvlenw as int == kvlen);
        // layout of the first entry's bytes
        assert(eb =~= enc32(kvlenw) + mid + zeros(pad4(kvlen)));
        assert(eb.len() == e0);
        assert(kv =~= eb + kvd_spec(rest));
        // length prefix
        lemma_subrange_of_eq(b, pos, kv, 0, 4);
        lemma_concat_prefix_subrange(enc32(kvlenw) + mid, zeros(pad4(kvlen)), 0, 4);
        lemma_concat_prefix_subrange(enc32(kvlenw), mid, 0, 4);
        lemma_concat_prefix_subrange(eb, kvd_spec(rest), 0, 4);
        assert(enc32(kvlenw).subrange(0, 4) =~= enc32(kvlenw));
        assert(kv.subrange(0, 4) == enc32(kvlenw));
        lemma_dec32_of_enc32(b, pos, kvlenw);
        assert(dec32(b, pos) == kvlen);
        // content: key, terminator, value
        lemma_subrange_of_eq(b, pos, kv, 4, 4 + kvlen);
        lemma_concat_prefix_subrange(eb, kvd_spec(rest), 4, 4 + kvlen);
        lemma_concat_prefix_subrange(enc32(kvlenw) + mid, zeros(pad4(kvlen)), 4, 4 + kvlen);
        lemma_concat_suffix_subrange(enc32(kvlenw), mid, 0, kvlen);
        assert(mid.subrange(0, kvlen) =~= mid);
        let content = b.subrange(pos + 4, pos + 4 + kvlen);
        assert(content == mid);
        assert(!key.contains(0u8)) by {
            assert(meta[0].0 == key);
        }
        lemma_first_zero_of_entry(key, value);
        assert(first_zero(content) == key.len());
        assert(content.subrange(0, key.len() as int) =~= key);
        assert(content.subrange(key.len() + 1 as int, kvlen) =~= value);
        // padding
        let next = pos + 4 + kvlen + pad4(kvlen);
        assert(next == pos + e0);
        lemma_subrange_of_eq(b, pos, kv, 4 + kvlen, e0);
        lemma_concat_prefix_subrange(eb, kvd_spec(rest), 4 + kvlen, e0);
        lemma_concat_suffix_subrange(enc32(kvlenw) + mid, zeros(pad4(kvlen)), 0, pad4(kvlen));
        assert(zeros(pad4(kvlen)).subrange(0, pad4(kvlen)) =~= zeros(pad4(kvlen)));
        assert(b.subrange(pos + 4 + kvlen, next) == zeros(pad4(kvlen)));
        // the rest of the block
        lemma_subrange_of_eq(b, pos, kv, e0, kvd_size(meta));
        lemma_concat_suffix_subrange(eb, kvd_spec(rest), 0, kvd_size(rest));
        assert(kvd_spec(rest).subrange(0, kvd_size(rest)) =~= kvd_spec(rest));
        assert(b.subrange(next, next + kvd_size(rest)) == kvd_spec(rest));
        lemma_parse_kvd_of_spec(b, next, rest);
        assert(parse_kvd(b, next, pos + kvd_size(meta)) == Some(rest));
        assert(seq![(key, value)] + rest =~= meta);
    }
}

/// Serializing a well-formed texture and reading the bytes back yields
/// the same texture: the writer and the reader are mutually inverse over
/// every reachable handle.
#[verifier::rlimit(100)]
pub proof fn lemma_serialize_parse_round_trip(v: TexView)
    requires
        v.wf(),
    ensures
        parse_spec(serialize_spec(v)) == Ok::<TexView, Error>(v),
{
    let s = serialize_spec(v);
    let hf = header_fields(v);
    let lf = level_fields(v);
    let levels = v.levels as int;
    let kvd_len = kvd_size(v.meta);
    let base = data_base(v);
    let total = v.data.len() as int;
    lemma_serialize_segments(v);
    lemma_kvd_size_nonneg(v.meta);
    lemma_header_field(v, 0);
    lemma_header_field(v, 2);
    lemma_header_field(v, 3);
    lemma_header_field(v, 4);
    lemma_header_field(v, 5);
    lemma_header_field(v, 6);
    lemma_header_field(v, 7);
    lemma_header_field(v, 8);
    lemma_header_field(v, 11);
    lemma_header_field(v, 12);
    assert(dec32(s, 44) == 0);
    assert(dec32(s, 12) == vk_raw_spec(v.format));
    crate::vk_format::lemma_vk_raw_round_trip(v.format);
    assert(vk_from_raw_spec(dec32(s, 12) as u32) == Some(v.format));
    assert(dec32(s, 20) == v.width);
    assert(dec32(s, 24) == stored_height(v));
    assert(dec32(s, 28) == stored_depth(v));
    assert(dec32(s, 32) == stored_layers(v));
    assert(dec32(s, 36) == v.faces);
    assert(dec32(s, 40) == v.levels);
    assert(dec32(s, 56) == kvd_offset_field(v));
    assert(dec32(s, 60) == kvd_size(v.meta) as u32);
    // the level index decodes to the canonical entries
    assert forall|l: int| 0 <= l < levels implies #[trigger] level_entry_ok(
        s,
        v.width,
        v.height,
        v.depth,
        v.layers,
        v.faces,
        v.format,
        base,
        l,
    ) by {
        let l64 = enc64_all(lf);
        lemma_enc64_all_len(lf);
        lemma_level_offset_nonneg(v.width, v.height, v.depth, v.layers, v.faces, v.format, l);
        lemma_level_size_bounds(v.width, v.height, v.depth, v.layers, v.faces, v.format, l);
        lemma_level_offset_nondecreasing(
            v.width,
            v.height,
            v.depth,
            v.layers,
            v.faces,
            v.format,
            l + 1,
            levels,
        );
        assert((3 * l) / 3 == l && (3 * l) % 3 == 0 && (3 * l + 1) / 3 == l && (3 * l + 1) % 3 == 1
            && (3 * l + 2) / 3 == l && (3 * l + 2) % 3 == 2) by (nonlinear_arith);
        let off_w = (base + level_offset(v.width, v.height, v.depth, v.layers, v.faces, v.format, l)) as u64;
        let size_w = level_size(v.width, v.height, v.depth, v.layers, v.faces, v.format, l) as u64;
        assert(lf[3 * l] == off_w);
        assert(lf[3 * l + 1] == size_w);
        assert(lf[3 * l + 2] == size_w);
        lemma_subrange_of_eq(s, 80, l64, 8 * (3 * l), 8 * (3 * l) + 8);
        lemma_subrange_of_eq(s, 80, l64, 8 * (3 * l + 1), 8 * (3 * l + 1) + 8);
        lemma_subrange_of_eq(s, 80, l64, 8 * (3 * l + 2), 8 * (3 * l + 2) + 8);
        lemma_enc64_all_index(lf, 3 * l);
        lemma_enc64_all_index(lf, 3 * l + 1);
        lemma_enc64_all_index(lf, 3 * l + 2);
        lemma_dec64_of_enc64(s, 80 + 24 * l, off_w);
        lemma_dec64_of_enc64(s, 80 + 24 * l + 8, size_w);
        lemma_dec64_of_enc64(s, 80 + 24 * l + 16, size_w);
    }
    // the key/value block parses back to the stored entries
    lemma_parse_kvd_of_spec(s, 80 + 24 * levels, v.meta);
    // the parsed view is the serialized one
    let parsed = parse_spec(s).unwrap();
    assert(parsed.data =~= v.data);
    assert(parsed =~= v);
}

/// Serialization is injective: two well-formed textures with the same
/// serialized bytes are the same texture.
pub proof fn lemma_serialize_injective(v1: TexView, v2: TexView)
    requires
        v1.wf(),
        v2.wf(),
        serialize_spec(v1) == serialize_spec(v2),
    ensures
        v1 == v2,
{
    lemma_serialize_parse_round_trip(v1);
    lemma_serialize_parse_round_trip(v2);
}

} // verus!
