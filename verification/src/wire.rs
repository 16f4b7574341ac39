//! The layout of values in instruction bytes and in the bytes of a cell:
//! integers are little-endian, and a byte string follows its own length,
//! which takes four bytes.

use vstd::prelude::*;
use vstd::slice::{slice_subrange, slice_to_vec};
use crate::little_endian::{
    le_bytes, le_value, lemma_le_bytes_len, lemma_le_bytes_of_value, lemma_le_value_bound,
    lemma_le_value_of_bytes, lemma_radix_of_machine_words, u32_from_le_bytes, u32_to_le_bytes,
    u64_from_le_bytes, u64_to_le_bytes,
};

verus! {

/// The longest byte string that has a layout.
pub const MAX_STRING_LEN: usize = 0xffff_ffff;

/// A byte string behind its length.
pub open spec fn prefixed(data: Seq<u8>) -> Seq<u8> {
    le_bytes(data.len(), 4) + data
}

/// The byte string that `bytes` lay out, if they lay out one and nothing more.
pub open spec fn prefixed_decoding(bytes: Seq<u8>) -> Option<Seq<u8>> {
    if bytes.len() >= 4 && le_value(bytes.take(4)) == bytes.len() - 4 {
        Some(bytes.skip(4))
    } else {
        None
    }
}

/// Two integers of eight bytes each, one behind the other.
pub open spec fn pair(first: u64, second: u64) -> Seq<u8> {
    le_bytes(first as nat, 8) + le_bytes(second as nat, 8)
}

/// The two integers that `bytes` lay out, if they lay out two and nothing more.
pub open spec fn pair_decoding(bytes: Seq<u8>) -> Option<(u64, u64)> {
    if bytes.len() == 16 {
        Some((le_value(bytes.take(8)) as u64, le_value(bytes.skip(8)) as u64))
    } else {
        None
    }
}

/// Reading the layout of a byte string gives the byte string.
pub proof fn lemma_prefixed_round_trip(data: Seq<u8>)
    requires
        data.len() <= MAX_STRING_LEN,
    ensures
        prefixed(data).len() == data.len() + 4,
        prefixed_decoding(prefixed(data)) == Some(data),
{
    let head = le_bytes(data.len(), 4);
    lemma_le_bytes_len(data.len(), 4);
    lemma_radix_of_machine_words();
    lemma_le_value_of_bytes(data.len(), 4);
    assert(prefixed(data).take(4) =~= head);
}

/// Bytes that lay out a byte string are the layout of what is read from them.
pub proof fn lemma_prefixed_is_unique(bytes: Seq<u8>)
    requires
        prefixed_decoding(bytes) is Some,
    ensures
        prefixed(prefixed_decoding(bytes).unwrap()) == bytes,
        prefixed_decoding(bytes).unwrap().len() <= MAX_STRING_LEN,
{
    let head = bytes.take(4);
    lemma_le_bytes_of_value(head);
    lemma_le_value_bound(head);
    lemma_radix_of_machine_words();
}

/// Reading the layout of two integers gives the two integers.
pub proof fn lemma_pair_round_trip(first: u64, second: u64)
    ensures
        pair(first, second).len() == 16,
        pair_decoding(pair(first, second)) == Some((first, second)),
{
    lemma_le_bytes_len(first as nat, 8);
    lemma_le_bytes_len(second as nat, 8);
    lemma_radix_of_machine_words();
    lemma_le_value_of_bytes(first as nat, 8);
    lemma_le_value_of_bytes(second as nat, 8);
    assert(pair(first, second).take(8) =~= le_bytes(first as nat, 8));
    assert(pair(first, second).skip(8) =~= le_bytes(second as nat, 8));
}

/// Bytes that lay out two integers are the layout of what is read from them.
pub proof fn lemma_pair_is_unique(bytes: Seq<u8>)
    requires
        pair_decoding(bytes) is Some,
    ensures
        pair(pair_decoding(bytes).unwrap().0, pair_decoding(bytes).unwrap().1) == bytes,
{
    lemma_le_bytes_of_value(bytes.take(8));
    lemma_le_bytes_of_value(bytes.skip(8));
    lemma_le_value_bound(bytes.take(8));
    lemma_le_value_bound(bytes.skip(8));
    lemma_radix_of_machine_words();
}

/// Lays out a byte string. `None` where it is longer than `MAX_STRING_LEN`.
pub fn encode_prefixed(data: &[u8]) -> (r: Option<Vec<u8>>)
    ensures
        match r {
            Some(out) => data@.len() <= MAX_STRING_LEN && out@ == prefixed(data@),
            None => data@.len() > MAX_STRING_LEN,
        },
{
    if data.len() > MAX_STRING_LEN {
        return None;
    }
    let mut out = u32_to_le_bytes(data.len() as u32);
    out.extend_from_slice(data);
    Some(out)
}

/// Reads a byte string that takes all of `bytes`.
pub fn decode_prefixed(bytes: &[u8]) -> (r: Option<Vec<u8>>)
    ensures
        match r {
            Some(data) => prefixed_decoding(bytes@) == Some(data@),
            None => prefixed_decoding(bytes@) is None,
        },
{
    if bytes.len() < 4 {
        return None;
    }
    let announced = u32_from_le_bytes(slice_subrange(bytes, 0, 4));
    if announced as usize != bytes.len() - 4 {
        return None;
    }
    Some(slice_to_vec(slice_subrange(bytes, 4, bytes.len())))
}

/// Lays out two integers.
pub fn encode_pair(first: u64, second: u64) -> (out: Vec<u8>)
    ensures
        out@ == pair(first, second),
{
    let mut out = u64_to_le_bytes(first);
    let tail = u64_to_le_bytes(second);
    out.extend_from_slice(tail.as_slice());
    out
}

/// Reads two integers that take all of `bytes`.
pub fn decode_pair(bytes: &[u8]) -> (r: Option<(u64, u64)>)
    ensures
        r == pair_decoding(bytes@),
{
    if bytes.len() != 16 {
        return None;
    }
    let first = u64_from_le_bytes(slice_subrange(bytes, 0, 8));
    let second = u64_from_le_bytes(slice_subrange(bytes, 8, 16));
    Some((first, second))
}

} // verus!
