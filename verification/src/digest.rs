//! Content hashes of configuration snapshots.
//!
//! Every entry of a snapshot is written, field by field, into a hasher of
//! its own, which gives the digest of that entry. The hash of the snapshot
//! is the sum of the digests modulo 2^64, so it does not depend on the
//! order of the entries.

use crate::text_map::{
    lemma_index_of_entry, lemma_map_of_remove, spec_distinct_keys, spec_has_key, spec_index_of,
    spec_map_of,
};
use std::collections::hash_map::DefaultHasher;
use std::hash::Hasher;
use vstd::bytes::{spec_u32_to_le_bytes, spec_u64_to_le_bytes, u32_to_le_bytes, u64_to_le_bytes};
use vstd::prelude::*;
use vstd::utf8::encode_utf8;

verus! {

/// The bytes that stand for a text: the number of bytes of its UTF-8
/// encoding, as a count, and then the encoding. The count in front keeps
/// two texts that follow each other apart.
pub open spec fn spec_text_bytes(text: Seq<char>) -> Seq<u8> {
    spec_count_bytes(encode_utf8(text).len()) + encode_utf8(text)
}

/// The byte that stands for a truth value.
pub open spec fn spec_bool_bytes(flag: bool) -> Seq<u8> {
    seq![if flag { 1u8 } else { 0u8 }]
}

/// The bytes that stand for a 32-bit signed number: the number is moved up
/// by 2^31 and written as four bytes, the lowest first.
pub open spec fn spec_i32_bytes(number: i32) -> Seq<u8> {
    spec_u32_to_le_bytes((number + 0x8000_0000) as u32)
}

/// The bytes that stand for a count: eight bytes, the lowest first.
pub open spec fn spec_count_bytes(count: nat) -> Seq<u8> {
    spec_u64_to_le_bytes(count as u64)
}

/// Writes a text into a hasher: its length in bytes and then its bytes,
/// in one piece.
pub fn write_text(hasher: &mut DefaultHasher, text: &str)
    ensures
        final(hasher)@ == old(hasher)@.push(spec_text_bytes(text@)),
{
    let encoded = text.as_bytes();
    let mut bytes = u64_to_le_bytes(encoded.len() as u64);
    let ghost count = bytes@;
    bytes.extend_from_slice(encoded);
    assert(bytes@ =~= count + encoded@);
    hasher.write(bytes.as_slice());
}

/// Writes one byte into a hasher.
pub fn write_byte(hasher: &mut DefaultHasher, byte: u8)
    ensures
        final(hasher)@ == old(hasher)@.push(seq![byte]),
{
    let mut bytes: Vec<u8> = Vec::new();
    bytes.push(byte);
    assert(bytes@ =~= seq![byte]);
    hasher.write(bytes.as_slice());
}

/// Writes a truth value into a hasher.
pub fn write_bool(hasher: &mut DefaultHasher, flag: bool)
    ensures
        final(hasher)@ == old(hasher)@.push(spec_bool_bytes(flag)),
{
    write_byte(hasher, if flag { 1u8 } else { 0u8 });
}

/// Writes a 32-bit signed number into a hasher.
pub fn write_i32(hasher: &mut DefaultHasher, number: i32)
    ensures
        final(hasher)@ == old(hasher)@.push(spec_i32_bytes(number)),
{
    let moved: u32 = ((number as i64) + 0x8000_0000i64) as u32;
    let bytes = u32_to_le_bytes(moved);
    hasher.write(bytes.as_slice());
}

/// Writes a count into a hasher.
pub fn write_count(hasher: &mut DefaultHasher, count: usize)
    ensures
        final(hasher)@ == old(hasher)@.push(spec_count_bytes(count as nat)),
{
    let bytes = u64_to_le_bytes(count as u64);
    hasher.write(bytes.as_slice());
}

/// The sum of the weights of the entries.
pub open spec fn spec_weight_sum<V>(
    entries: Seq<(Seq<char>, V)>,
    weight: spec_fn(Seq<char>, V) -> u64,
) -> int
    decreases entries.len(),
{
    if entries.len() == 0 {
        0
    } else {
        spec_weight_sum(entries.drop_last(), weight) + weight(entries.last().0, entries.last().1)
    }
}

/// A sum of digests as a 64-bit hash: the sum modulo 2^64.
pub open spec fn spec_fold_sum(sum: int) -> u64 {
    (sum % 0x1_0000_0000_0000_0000) as u64
}

/// Adds one digest to a hash.
pub(crate) fn add_digest(hash: u64, digest: u64, Ghost(sum): Ghost<int>) -> (next: u64)
    requires
        hash == spec_fold_sum(sum),
    ensures
        next == spec_fold_sum(sum + digest),
{
    hash.wrapping_add(digest)
}

/// The sum of the weights is the weight of one entry and the sum of the
/// weights of the others.
pub proof fn lemma_weight_sum_remove<V>(
    entries: Seq<(Seq<char>, V)>,
    weight: spec_fn(Seq<char>, V) -> u64,
    at: int,
)
    requires
        0 <= at < entries.len(),
    ensures
        spec_weight_sum(entries, weight) == spec_weight_sum(entries.remove(at), weight) + weight(
            entries[at].0,
            entries[at].1,
        ),
    decreases entries.len(),
{
    if at == entries.len() - 1 {
        assert(entries.remove(at) =~= entries.drop_last());
    } else {
        lemma_weight_sum_remove(entries.drop_last(), weight, at);
        assert(entries.remove(at).drop_last() =~= entries.drop_last().remove(at));
        assert(entries.remove(at).last() == entries.last());
    }
}

/// Two lists of entries that stand for the same map have the same sum of
/// weights, whatever the order of their entries.
pub proof fn lemma_weight_sum_of_map<V>(
    first: Seq<(Seq<char>, V)>,
    second: Seq<(Seq<char>, V)>,
    weight: spec_fn(Seq<char>, V) -> u64,
)
    requires
        spec_distinct_keys(first),
        spec_distinct_keys(second),
        spec_map_of(first) == spec_map_of(second),
    ensures
        spec_weight_sum(first, weight) == spec_weight_sum(second, weight),
    decreases first.len(),
{
    if first.len() == 0 {
        if second.len() > 0 {
            assert(spec_has_key(second, second[0].0));
            assert(spec_map_of(second).dom().contains(second[0].0));
            assert(spec_map_of(first).dom().contains(second[0].0));
        }
    } else {
        let last = first.len() - 1;
        let key = first[last].0;
        lemma_index_of_entry(first, last);
        assert(spec_map_of(second).dom().contains(key));
        let at = spec_index_of(second, key);
        lemma_index_of_entry(second, at);
        assert(second[at] == first[last]);
        lemma_map_of_remove(first, last);
        lemma_map_of_remove(second, at);
        assert(first.remove(last) =~= first.drop_last());
        lemma_weight_sum_of_map(first.drop_last(), second.remove(at), weight);
        lemma_weight_sum_remove(second, weight, at);
    }
}

} // verus!
