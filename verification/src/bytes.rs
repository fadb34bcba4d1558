//! Little-endian byte encoding of the container's scalar fields.
//!
//! The container stores its header words, level index and length prefixes
//! as little-endian unsigned integers. Encoding and decoding are defined
//! arithmetically (base-256 digits) and proved mutually inverse; the
//! sequence encoders for whole field lists carry the indexing lemmas that
//! the serializer and parser proofs are built from.

use vstd::prelude::*;
use vstd::arithmetic::div_mod::{
    lemma_basic_div, lemma_div_denominator, lemma_fundamental_div_mod,
    lemma_mod_division_less_than_divisor,
};

verus! {

/// The four little-endian base-256 digits of a 32-bit word.
pub open spec fn enc32(x: u32) -> Seq<u8> {
    seq![
        (x as int % 256) as u8,
        (x as int / 256 % 256) as u8,
        (x as int / 65536 % 256) as u8,
        (x as int / 16777216 % 256) as u8,
    ]
}

/// The eight little-endian base-256 digits of a 64-bit word.
pub open spec fn enc64(x: u64) -> Seq<u8> {
    seq![
        (x as int % 256) as u8,
        (x as int / 256 % 256) as u8,
        (x as int / 65536 % 256) as u8,
        (x as int / 16777216 % 256) as u8,
        (x as int / 4294967296 % 256) as u8,
        (x as int / 1099511627776 % 256) as u8,
        (x as int / 281474976710656 % 256) as u8,
        (x as int / 72057594037927936 % 256) as u8,
    ]
}

/// The value of the four little-endian bytes at `off`.
pub open spec fn dec32(b: Seq<u8>, off: int) -> int {
    (b[off] as int) + 256 * (b[off + 1] as int) + 65536 * (b[off + 2] as int) + 16777216 * (b[off
        + 3] as int)
}

/// The value of the eight little-endian bytes at `off`.
pub open spec fn dec64(b: Seq<u8>, off: int) -> int {
    (b[off] as int) + 256 * (b[off + 1] as int) + 65536 * (b[off + 2] as int) + 16777216 * (b[off
        + 3] as int) + 4294967296 * (b[off + 4] as int) + 1099511627776 * (b[off + 5] as int)
        + 281474976710656 * (b[off + 6] as int) + 72057594037927936 * (b[off + 7] as int)
}

/// A run of zero bytes.
pub open spec fn zeros(n: int) -> Seq<u8> {
    Seq::new(n as nat, |i: int| 0u8)
}

/// A 32-bit word is the weighted sum of its base-256 digits.
proof fn lemma_u32_digits(x: u32)
    ensures
        x as int == x as int % 256 + 256 * (x as int / 256 % 256) + 65536 * (x as int / 65536 % 256)
            + 16777216 * (x as int / 16777216 % 256),
{
    let xi = x as int;
    lemma_fundamental_div_mod(xi, 256);
    lemma_fundamental_div_mod(xi / 256, 256);
    lemma_fundamental_div_mod(xi / 65536, 256);
    lemma_div_denominator(xi, 256, 256);
    lemma_div_denominator(xi, 65536, 256);
    lemma_basic_div(xi / 16777216, 256);
    assert(xi / 16777216 < 256) by (nonlinear_arith)
        requires
            0 <= xi < 4294967296,
    ;
}

/// A 64-bit word is the weighted sum of its base-256 digits.
proof fn lemma_u64_digits(x: u64)
    ensures
        x as int == x as int % 256 + 256 * (x as int / 256 % 256) + 65536 * (x as int / 65536 % 256)
            + 16777216 * (x as int / 16777216 % 256) + 4294967296 * (x as int / 4294967296 % 256)
            + 1099511627776 * (x as int / 1099511627776 % 256) + 281474976710656 * (x as int
            / 281474976710656 % 256) + 72057594037927936 * (x as int / 72057594037927936 % 256),
{
    let xi = x as int;
    lemma_fundamental_div_mod(xi, 256);
    lemma_fundamental_div_mod(xi / 256, 256);
    lemma_fundamental_div_mod(xi / 65536, 256);
    lemma_fundamental_div_mod(xi / 16777216, 256);
    lemma_fundamental_div_mod(xi / 4294967296, 256);
    lemma_fundamental_div_mod(xi / 1099511627776, 256);
    lemma_fundamental_div_mod(xi / 281474976710656, 256);
    lemma_div_denominator(xi, 256, 256);
    lemma_div_denominator(xi, 65536, 256);
    lemma_div_denominator(xi, 16777216, 256);
    lemma_div_denominator(xi, 4294967296, 256);
    lemma_div_denominator(xi, 1099511627776, 256);
    lemma_div_denominator(xi, 281474976710656, 256);
    lemma_basic_div(xi / 72057594037927936, 256);
    assert(xi / 72057594037927936 < 256) by (nonlinear_arith)
        requires
            0 <= xi < 18446744073709551616,
    ;
}

/// Bounds of each base-256 digit.
proof fn lemma_digit_bounds(xi: int, d: int)
    requires
        0 <= xi,
        1 <= d,
    ensures
        0 <= xi / d % 256 < 256,
{
    assert(xi / d >= 0) by (nonlinear_arith)
        requires
            0 <= xi,
            1 <= d,
    ;
    lemma_mod_division_less_than_divisor(xi / d, 256);
}

/// Decoding four bytes that encode a word yields the word back.
pub proof fn lemma_dec32_of_enc32(b: Seq<u8>, off: int, x: u32)
    requires
        0 <= off,
        off + 4 <= b.len(),
        b.subrange(off, off + 4) == enc32(x),
    ensures
        dec32(b, off) == x,
{
    let sub = b.subrange(off, off + 4);
    assert(b[off] == sub[0] && b[off + 1] == sub[1] && b[off + 2] == sub[2]);
    assert(b[off + 3] == sub[3]);
    let xi = x as int;
    lemma_digit_bounds(xi, 1);
    lemma_digit_bounds(xi, 256);
    lemma_digit_bounds(xi, 65536);
    lemma_digit_bounds(xi, 16777216);
    assert(xi / 1 == xi);
    lemma_u32_digits(x);
}

/// Decoding eight bytes that encode a word yields the word back.
pub proof fn lemma_dec64_of_enc64(b: Seq<u8>, off: int, x: u64)
    requires
        0 <= off,
        off + 8 <= b.len(),
        b.subrange(off, off + 8) == enc64(x),
    ensures
        dec64(b, off) == x,
{
    let sub = b.subrange(off, off + 8);
    assert(b[off] == sub[0] && b[off + 1] == sub[1] && b[off + 2] == sub[2] && b[off + 3] == sub[3]
        && b[off + 4] == sub[4] && b[off + 5] == sub[5] && b[off + 6] == sub[6] && b[off + 7]
        == sub[7]);
    let xi = x as int;
    lemma_digit_bounds(xi, 1);
    lemma_digit_bounds(xi, 256);
    lemma_digit_bounds(xi, 65536);
    lemma_digit_bounds(xi, 16777216);
    lemma_digit_bounds(xi, 4294967296);
    lemma_digit_bounds(xi, 1099511627776);
    lemma_digit_bounds(xi, 281474976710656);
    lemma_digit_bounds(xi, 72057594037927936);
    assert(xi / 1 == xi);
    lemma_u64_digits(x);
}

/// The concatenation of the encodings of a list of 32-bit words.
pub open spec fn enc32_all(fs: Seq<u32>) -> Seq<u8>
    decreases fs.len(),
{
    if fs.len() == 0 {
        Seq::empty()
    } else {
        enc32(fs[0]) + enc32_all(fs.drop_first())
    }
}

/// The concatenation of the encodings of a list of 64-bit words.
pub open spec fn enc64_all(fs: Seq<u64>) -> Seq<u8>
    decreases fs.len(),
{
    if fs.len() == 0 {
        Seq::empty()
    } else {
        enc64(fs[0]) + enc64_all(fs.drop_first())
    }
}

/// Each word of a list occupies four bytes of its encoding.
pub proof fn lemma_enc32_all_len(fs: Seq<u32>)
    ensures
        enc32_all(fs).len() == 4 * fs.len(),
    decreases fs.len(),
{
    if fs.len() > 0 {
        lemma_enc32_all_len(fs.drop_first());
    }
}

/// Each word of a list occupies eight bytes of its encoding.
pub proof fn lemma_enc64_all_len(fs: Seq<u64>)
    ensures
        enc64_all(fs).len() == 8 * fs.len(),
    decreases fs.len(),
{
    if fs.len() > 0 {
        lemma_enc64_all_len(fs.drop_first());
    }
}

/// The bytes of the `k`-th word stand at offset `4 * k` of the encoding.
pub proof fn lemma_enc32_all_index(fs: Seq<u32>, k: int)
    requires
        0 <= k < fs.len(),
    ensures
        enc32_all(fs).subrange(4 * k, 4 * k + 4) == enc32(fs[k]),
    decreases k,
{
    lemma_enc32_all_len(fs);
    lemma_enc32_all_len(fs.drop_first());
    if k == 0 {
        assert(enc32_all(fs).subrange(0, 4) =~= enc32(fs[0]));
    } else {
        lemma_enc32_all_index(fs.drop_first(), k - 1);
        assert(fs.drop_first()[k - 1] == fs[k]);
        assert(enc32_all(fs).subrange(4 * k, 4 * k + 4) =~= enc32_all(fs.drop_first()).subrange(
            4 * (k - 1),
            4 * (k - 1) + 4,
        ));
    }
}

/// The bytes of the `k`-th word stand at offset `8 * k` of the encoding.
pub proof fn lemma_enc64_all_index(fs: Seq<u64>, k: int)
    requires
        0 <= k < fs.len(),
    ensures
        enc64_all(fs).subrange(8 * k, 8 * k + 8) == enc64(fs[k]),
    decreases k,
{
    lemma_enc64_all_len(fs);
    lemma_enc64_all_len(fs.drop_first());
    if k == 0 {
        assert(enc64_all(fs).subrange(0, 8) =~= enc64(fs[0]));
    } else {
        lemma_enc64_all_index(fs.drop_first(), k - 1);
        assert(fs.drop_first()[k - 1] == fs[k]);
        assert(enc64_all(fs).subrange(8 * k, 8 * k + 8) =~= enc64_all(fs.drop_first()).subrange(
            8 * (k - 1),
            8 * (k - 1) + 8,
        ));
    }
}

/// Extending a word list appends the new word's bytes to the encoding.
pub proof fn lemma_enc32_all_take_step(fs: Seq<u32>, i: int)
    requires
        0 <= i < fs.len(),
    ensures
        enc32_all(fs.take(i + 1)) == enc32_all(fs.take(i)) + enc32(fs[i]),
    decreases i,
{
    if i == 0 {
        assert(fs.take(1).drop_first() =~= fs.take(0));
        assert(fs.take(1)[0] == fs[0]);
        assert(enc32_all(fs.take(1)) =~= enc32_all(fs.take(0)) + enc32(fs[0]));
    } else {
        lemma_enc32_all_take_step(fs.drop_first(), i - 1);
        assert(fs.take(i + 1).drop_first() =~= fs.drop_first().take(i));
        assert(fs.take(i).drop_first() =~= fs.drop_first().take(i - 1));
        assert(fs.take(i + 1)[0] == fs[0]);
        assert(fs.take(i)[0] == fs[0]);
        assert(fs.drop_first()[i - 1] == fs[i]);
        assert(enc32_all(fs.take(i + 1)) =~= enc32_all(fs.take(i)) + enc32(fs[i]));
    }
}

/// Extending a word list appends the new word's bytes to the encoding.
pub proof fn lemma_enc64_all_take_step(fs: Seq<u64>, i: int)
    requires
        0 <= i < fs.len(),
    ensures
        enc64_all(fs.take(i + 1)) == enc64_all(fs.take(i)) + enc64(fs[i]),
    decreases i,
{
    if i == 0 {
        assert(fs.take(1).drop_first() =~= fs.take(0));
        assert(fs.take(1)[0] == fs[0]);
        assert(enc64_all(fs.take(1)) =~= enc64_all(fs.take(0)) + enc64(fs[0]));
    } else {
        lemma_enc64_all_take_step(fs.drop_first(), i - 1);
        assert(fs.take(i + 1).drop_first() =~= fs.drop_first().take(i));
        assert(fs.take(i).drop_first() =~= fs.drop_first().take(i - 1));
        assert(fs.take(i + 1)[0] == fs[0]);
        assert(fs.take(i)[0] == fs[0]);
        assert(fs.drop_first()[i - 1] == fs[i]);
        assert(enc64_all(fs.take(i + 1)) =~= enc64_all(fs.take(i)) + enc64(fs[i]));
    }
}

/// A subrange inside the left part of a concatenation reads from it alone.
pub proof fn lemma_concat_prefix_subrange(a: Seq<u8>, b: Seq<u8>, x: int, y: int)
    requires
        0 <= x <= y <= a.len(),
    ensures
        (a + b).subrange(x, y) == a.subrange(x, y),
{
    assert((a + b).subrange(x, y) =~= a.subrange(x, y));
}

/// A subrange inside the right part of a concatenation reads from it
/// alone.
pub proof fn lemma_concat_suffix_subrange(a: Seq<u8>, b: Seq<u8>, x: int, y: int)
    requires
        0 <= x <= y <= b.len(),
    ensures
        (a + b).subrange(a.len() + x, a.len() + y) == b.subrange(x, y),
{
    assert((a + b).subrange(a.len() + x, a.len() + y) =~= b.subrange(x, y));
}

/// Appends the little-endian bytes of a 32-bit word.
pub fn push_u32(out: &mut Vec<u8>, x: u32)
    ensures
        final(out)@ == old(out)@ + enc32(x),
{
    out.push((x % 256) as u8);
    out.push((x / 256 % 256) as u8);
    out.push((x / 65536 % 256) as u8);
    out.push((x / 16777216 % 256) as u8);
    assert(final(out)@ =~= old(out)@ + enc32(x));
}

/// Appends the little-endian bytes of a 64-bit word.
pub fn push_u64(out: &mut Vec<u8>, x: u64)
    ensures
        final(out)@ == old(out)@ + enc64(x),
{
    out.push((x % 256) as u8);
    out.push((x / 256 % 256) as u8);
    out.push((x / 65536 % 256) as u8);
    out.push((x / 16777216 % 256) as u8);
    out.push((x / 4294967296 % 256) as u8);
    out.push((x / 1099511627776 % 256) as u8);
    out.push((x / 281474976710656 % 256) as u8);
    out.push((x / 72057594037927936 % 256) as u8);
    assert(final(out)@ =~= old(out)@ + enc64(x));
}

/// Appends a whole byte slice.
pub fn push_bytes(out: &mut Vec<u8>, s: &[u8])
    ensures
        final(out)@ == old(out)@ + s@,
{
    let n = s.len();
    let mut i: usize = 0;
    proof {
        assert(old(out)@ + s@.take(0) =~= old(out)@);
    }
    while i < n
        invariant
            i <= n,
            n == s@.len(),
            out@ == old(out)@ + s@.take(i as int),
        decreases n - i,
    {
        out.push(*vstd::slice::slice_index_get(s, i));
        proof {
            assert(old(out)@ + s@.take(i as int + 1) =~= (old(out)@ + s@.take(i as int)).push(
                s@[i as int],
            ));
        }
        i = i + 1;
    }
    proof {
        assert(s@.take(n as int) =~= s@);
    }
}

/// Reads the 32-bit word whose little-endian bytes stand at `off`.
pub fn dec32_exec(b: &[u8], off: usize) -> (r: u64)
    requires
        off + 4 <= b@.len(),
    ensures
        r == dec32(b@, off as int),
        r < 4294967296,
{
    let n = b.len();
    let b0 = *vstd::slice::slice_index_get(b, off) as u64;
    let b1 = *vstd::slice::slice_index_get(b, off + 1) as u64;
    let b2 = *vstd::slice::slice_index_get(b, off + 2) as u64;
    let b3 = *vstd::slice::slice_index_get(b, off + 3) as u64;
    b0 + 256 * b1 + 65536 * b2 + 16777216 * b3
}

/// Reads the 64-bit word whose little-endian bytes stand at `off`.
pub fn dec64_exec(b: &[u8], off: usize) -> (r: u64)
    requires
        off + 8 <= b@.len(),
    ensures
        r == dec64(b@, off as int),
{
    let n = b.len();
    let b0 = *vstd::slice::slice_index_get(b, off) as u64;
    let b1 = *vstd::slice::slice_index_get(b, off + 1) as u64;
    let b2 = *vstd::slice::slice_index_get(b, off + 2) as u64;
    let b3 = *vstd::slice::slice_index_get(b, off + 3) as u64;
    let b4 = *vstd::slice::slice_index_get(b, off + 4) as u64;
    let b5 = *vstd::slice::slice_index_get(b, off + 5) as u64;
    let b6 = *vstd::slice::slice_index_get(b, off + 6) as u64;
    let b7 = *vstd::slice::slice_index_get(b, off + 7) as u64;
    b0 + 256 * b1 + 65536 * b2 + 16777216 * b3 + 4294967296 * b4 + 1099511627776 * b5
        + 281474976710656 * b6 + 72057594037927936 * b7
}

} // verus!
