//! Key/value metadata model.
//!
//! Metadata is a list of entries mapping a key (bytes of a string with no
//! embedded null, the native representation being null-terminated) to an
//! opaque byte value. Lookup returns the first entry with the key; insertion
//! replaces the first matching entry or appends a new one. The entry sizes
//! defined here are the exact byte costs of the container's key/value-data
//! block: a 4-byte length prefix, the key, its null terminator, the value,
//! and zero padding to the next 4-byte boundary.

use vstd::prelude::*;

verus! {

/// Cap on the total byte size of the serialized key/value-data block.
pub const MAX_METADATA_BYTES: u64 = 0x1000_0000;

/// Bytes of zero padding that follow `n` bytes to reach a 4-byte boundary.
pub open spec fn pad4(n: int) -> int {
    if n % 4 == 0 {
        0
    } else {
        4 - n % 4
    }
}

/// Serialized byte size of one metadata entry with the given key and
/// value lengths.
pub open spec fn entry_size_of(klen: int, vlen: int) -> int {
    4 + klen + 1 + vlen + pad4(klen + 1 + vlen)
}

/// Serialized byte size of one metadata entry.
pub open spec fn entry_size(key: Seq<u8>, value: Seq<u8>) -> int {
    entry_size_of(key.len() as int, value.len() as int)
}

/// Computes the serialized byte size of one entry from its key and value
/// lengths.
pub fn entry_size_exec(klen: u64, vlen: u64) -> (r: u64)
    requires
        klen <= MAX_METADATA_BYTES,
        vlen <= MAX_METADATA_BYTES,
    ensures
        r == entry_size_of(klen as int, vlen as int),
{
    let kv = klen + 1 + vlen;
    let pad = if kv % 4 == 0 {
        0
    } else {
        4 - kv % 4
    };
    4 + kv + pad
}

/// Serialized byte size of a whole metadata list.
pub open spec fn kvd_size(meta: Seq<(Seq<u8>, Seq<u8>)>) -> int
    decreases meta.len(),
{
    if meta.len() == 0 {
        0
    } else {
        entry_size(meta[0].0, meta[0].1) + kvd_size(meta.drop_first())
    }
}

/// The value stored under a key: the first entry whose key matches.
pub open spec fn meta_lookup(meta: Seq<(Seq<u8>, Seq<u8>)>, key: Seq<u8>) -> Option<Seq<u8>>
    decreases meta.len(),
{
    if meta.len() == 0 {
        None
    } else if meta[0].0 == key {
        Some(meta[0].1)
    } else {
        meta_lookup(meta.drop_first(), key)
    }
}

/// The list after storing a value under a key: the first matching entry is
/// replaced, or a new entry is appended when the key is absent.
pub open spec fn meta_set(meta: Seq<(Seq<u8>, Seq<u8>)>, key: Seq<u8>, value: Seq<u8>) -> Seq<
    (Seq<u8>, Seq<u8>),
>
    decreases meta.len(),
{
    if meta.len() == 0 {
        seq![(key, value)]
    } else if meta[0].0 == key {
        meta.update(0, (key, value))
    } else {
        seq![meta[0]] + meta_set(meta.drop_first(), key, value)
    }
}

/// Well-formedness of a metadata list: no key holds an embedded null, and
/// the serialized block stays within the cap.
pub open spec fn meta_wf(meta: Seq<(Seq<u8>, Seq<u8>)>) -> bool {
    &&& forall|i: int| 0 <= i < meta.len() ==> !(#[trigger] meta[i].0).contains(0u8)
    &&& kvd_size(meta) <= MAX_METADATA_BYTES
}

/// Entry sizes are positive, so a list's serialized size bounds each part.
pub proof fn lemma_entry_size_pos(key: Seq<u8>, value: Seq<u8>)
    ensures
        entry_size(key, value) >= 5 + key.len() + value.len(),
{
}

/// The serialized size of a list is never negative.
pub proof fn lemma_kvd_size_nonneg(meta: Seq<(Seq<u8>, Seq<u8>)>)
    ensures
        kvd_size(meta) >= 0,
    decreases meta.len(),
{
    if meta.len() > 0 {
        lemma_kvd_size_nonneg(meta.drop_first());
        lemma_entry_size_pos(meta[0].0, meta[0].1);
    }
}

/// The serialized size of a prefix grows by exactly one entry size per
/// element taken.
pub proof fn lemma_kvd_size_take_step(meta: Seq<(Seq<u8>, Seq<u8>)>, i: int)
    requires
        0 <= i < meta.len(),
    ensures
        kvd_size(meta.take(i + 1)) == kvd_size(meta.take(i)) + entry_size(meta[i].0, meta[i].1),
    decreases i,
{
    if i == 0 {
        assert(meta.take(1).drop_first() =~= meta.take(0));
        assert(meta.take(1)[0] == meta[0]);
        assert(kvd_size(meta.take(0)) == 0);
    } else {
        lemma_kvd_size_take_step(meta.drop_first(), i - 1);
        assert(meta.take(i + 1).drop_first() =~= meta.drop_first().take(i));
        assert(meta.take(i).drop_first() =~= meta.drop_first().take(i - 1));
        assert(meta.take(i + 1)[0] == meta[0]);
        assert(meta.take(i)[0] == meta[0]);
        assert(meta.drop_first()[i - 1] == meta[i]);
    }
}

/// A whole list is its own length-long prefix.
pub proof fn lemma_kvd_size_take_all(meta: Seq<(Seq<u8>, Seq<u8>)>)
    ensures
        kvd_size(meta.take(meta.len() as int)) == kvd_size(meta),
{
    assert(meta.take(meta.len() as int) =~= meta);
}

/// Prefix sizes never exceed the size of the whole list.
pub proof fn lemma_kvd_size_take_le(meta: Seq<(Seq<u8>, Seq<u8>)>, i: int)
    requires
        0 <= i <= meta.len(),
    ensures
        kvd_size(meta.take(i)) <= kvd_size(meta),
    decreases meta.len() - i,
{
    if i == meta.len() {
        lemma_kvd_size_take_all(meta);
    } else {
        lemma_kvd_size_take_step(meta, i);
        lemma_kvd_size_take_le(meta, i + 1);
        lemma_entry_size_pos(meta[i].0, meta[i].1);
    }
}

/// When the first matching key stands at position `i`, lookup returns that
/// entry's value and insertion updates exactly that entry.
pub proof fn lemma_meta_first_match(
    meta: Seq<(Seq<u8>, Seq<u8>)>,
    key: Seq<u8>,
    value: Seq<u8>,
    i: int,
)
    requires
        0 <= i < meta.len(),
        meta[i].0 == key,
        forall|j: int| 0 <= j < i ==> (#[trigger] meta[j]).0 != key,
    ensures
        meta_lookup(meta, key) == Some(meta[i].1),
        meta_set(meta, key, value) == meta.update(i, (key, value)),
    decreases i,
{
    if i == 0 {
    } else {
        lemma_meta_first_match(meta.drop_first(), key, value, i - 1);
        assert(meta.drop_first()[i - 1] == meta[i]);
        assert(forall|j: int|
            0 <= j < i - 1 ==> (#[trigger] meta.drop_first()[j]).0 == meta[j + 1].0);
        assert(meta[0].0 != key);
        assert(meta_set(meta, key, value) == seq![meta[0]] + meta_set(
            meta.drop_first(),
            key,
            value,
        ));
        assert(seq![meta[0]] + meta.drop_first().update(i - 1, (key, value)) =~= meta.update(
            i,
            (key, value),
        ));
    }
}

/// When no entry holds the key, lookup misses and insertion appends.
pub proof fn lemma_meta_no_match(meta: Seq<(Seq<u8>, Seq<u8>)>, key: Seq<u8>, value: Seq<u8>)
    requires
        forall|j: int| 0 <= j < meta.len() ==> (#[trigger] meta[j]).0 != key,
    ensures
        meta_lookup(meta, key) is None,
        meta_set(meta, key, value) == meta.push((key, value)),
    decreases meta.len(),
{
    if meta.len() == 0 {
        assert(meta_set(meta, key, value) =~= meta.push((key, value)));
    } else {
        lemma_meta_no_match(meta.drop_first(), key, value);
        assert(forall|j: int|
            0 <= j < meta.drop_first().len() ==> (#[trigger] meta.drop_first()[j]).0 == meta[j
                + 1].0);
        assert(seq![meta[0]] + meta.drop_first().push((key, value)) =~= meta.push((key, value)));
    }
}

/// Storing a value changes the serialized size by the difference between
/// the new entry and the entry it replaces, or by one whole entry when the
/// key was absent.
pub proof fn lemma_kvd_size_set(meta: Seq<(Seq<u8>, Seq<u8>)>, key: Seq<u8>, value: Seq<u8>)
    ensures
        kvd_size(meta_set(meta, key, value)) == (match meta_lookup(meta, key) {
            Some(old_value) => kvd_size(meta) - entry_size(key, old_value) + entry_size(key, value),
            None => kvd_size(meta) + entry_size(key, value),
        }),
    decreases meta.len(),
{
    if meta.len() == 0 {
        assert(kvd_size(Seq::<(Seq<u8>, Seq<u8>)>::empty()) == 0);
        assert(meta_set(meta, key, value).drop_first() =~= Seq::<(Seq<u8>, Seq<u8>)>::empty());
        assert(meta_set(meta, key, value)[0] == (key, value));
        assert(kvd_size(meta_set(meta, key, value)) == entry_size(key, value));
    } else if meta[0].0 == key {
        let updated = meta.update(0, (key, value));
        assert(updated.drop_first() =~= meta.drop_first());
        assert(updated[0] == (key, value));
        assert(kvd_size(updated) == entry_size(key, value) + kvd_size(meta.drop_first()));
        assert(kvd_size(meta) == entry_size(meta[0].0, meta[0].1) + kvd_size(meta.drop_first()));
        assert(entry_size(meta[0].0, meta[0].1) == entry_size(key, meta[0].1));
    } else {
        lemma_kvd_size_set(meta.drop_first(), key, value);
        let rest = meta_set(meta.drop_first(), key, value);
        assert((seq![meta[0]] + rest).drop_first() =~= rest);
        assert((seq![meta[0]] + rest)[0] == meta[0]);
        assert(kvd_size(seq![meta[0]] + rest) == entry_size(meta[0].0, meta[0].1) + kvd_size(rest));
    }
}

/// The serialized size after storing a value is at least the new entry's
/// size.
pub proof fn lemma_kvd_size_set_ge_entry(meta: Seq<(Seq<u8>, Seq<u8>)>, key: Seq<u8>, value: Seq<u8>)
    ensures
        kvd_size(meta_set(meta, key, value)) >= entry_size(key, value),
    decreases meta.len(),
{
    lemma_kvd_size_set(meta, key, value);
    match meta_lookup(meta, key) {
        Some(old_value) => {
            lemma_kvd_size_lookup_part(meta, key);
        },
        None => {
            lemma_kvd_size_nonneg(meta);
        },
    }
}

/// The serialized size of a list covers the entry any lookup hit comes
/// from.
pub proof fn lemma_kvd_size_lookup_part(meta: Seq<(Seq<u8>, Seq<u8>)>, key: Seq<u8>)
    requires
        meta_lookup(meta, key) is Some,
    ensures
        kvd_size(meta) >= entry_size(key, meta_lookup(meta, key).unwrap()),
    decreases meta.len(),
{
    if meta.len() > 0 {
        if meta[0].0 == key {
            lemma_kvd_size_nonneg(meta.drop_first());
        } else {
            lemma_kvd_size_lookup_part(meta.drop_first(), key);
            lemma_entry_size_pos(meta[0].0, meta[0].1);
        }
    }
}

/// Storing a value and reading the same key back yields exactly that value.
pub proof fn lemma_meta_round_trip(meta: Seq<(Seq<u8>, Seq<u8>)>, key: Seq<u8>, value: Seq<u8>)
    ensures
        meta_lookup(meta_set(meta, key, value), key) == Some(value),
    decreases meta.len(),
{
    if meta.len() == 0 {
    } else if meta[0].0 == key {
        assert(meta_set(meta, key, value)[0] == (key, value));
    } else {
        lemma_meta_round_trip(meta.drop_first(), key, value);
        let rest = meta_set(meta.drop_first(), key, value);
        assert((seq![meta[0]] + rest).drop_first() =~= rest);
        assert((seq![meta[0]] + rest)[0] == meta[0]);
    }
}

/// Storing a value under one key leaves every other key's lookup unchanged.
pub proof fn lemma_meta_set_preserves_others(
    meta: Seq<(Seq<u8>, Seq<u8>)>,
    key: Seq<u8>,
    value: Seq<u8>,
    other: Seq<u8>,
)
    requires
        other != key,
    ensures
        meta_lookup(meta_set(meta, key, value), other) == meta_lookup(meta, other),
    decreases meta.len(),
{
    if meta.len() == 0 {
        let s = meta_set(meta, key, value);
        assert(s[0] == (key, value));
        assert(s.drop_first() =~= Seq::<(Seq<u8>, Seq<u8>)>::empty());
        assert(s[0].0 == key);
        assert(meta_lookup(s, other) == meta_lookup(s.drop_first(), other));
    } else if meta[0].0 == key {
        let updated = meta.update(0, (key, value));
        assert(updated[0] == (key, value));
        assert(updated.drop_first() =~= meta.drop_first());
        assert(updated.len() == meta.len());
        assert(meta_lookup(updated, other) == meta_lookup(meta.drop_first(), other));
        assert(meta_lookup(meta, other) == meta_lookup(meta.drop_first(), other));
    } else {
        lemma_meta_set_preserves_others(meta.drop_first(), key, value, other);
        let rest = meta_set(meta.drop_first(), key, value);
        assert((seq![meta[0]] + rest).drop_first() =~= rest);
        assert((seq![meta[0]] + rest)[0] == meta[0]);
        assert(rest.len() > 0);
        assert((seq![meta[0]] + rest).len() > 0);
        if meta[0].0 == other {
            assert(meta_lookup(seq![meta[0]] + rest, other) == Some(meta[0].1));
        } else {
            assert(meta_lookup(seq![meta[0]] + rest, other) == meta_lookup(rest, other));
        }
    }
}

/// Storing a well-formed entry into a well-formed list keeps every key
/// null-free; the size cap is re-checked by the caller.
pub proof fn lemma_meta_set_keys_wf(meta: Seq<(Seq<u8>, Seq<u8>)>, key: Seq<u8>, value: Seq<u8>)
    requires
        forall|i: int| 0 <= i < meta.len() ==> !(#[trigger] meta[i].0).contains(0u8),
        !key.contains(0u8),
    ensures
        forall|i: int|
            0 <= i < meta_set(meta, key, value).len() ==> !(#[trigger] meta_set(meta, key, value)[i].0).contains(0u8),
    decreases meta.len(),
{
    if meta.len() == 0 {
    } else if meta[0].0 == key {
    } else {
        lemma_meta_set_keys_wf(meta.drop_first(), key, value);
        let rest = meta_set(meta.drop_first(), key, value);
        assert(forall|i: int|
            1 <= i < (seq![meta[0]] + rest).len() ==> (#[trigger] (seq![meta[0]] + rest)[i])
                == rest[i - 1]);
        assert((seq![meta[0]] + rest)[0] == meta[0]);
    }
}

} // verus!
