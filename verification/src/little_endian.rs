//! Unsigned integers as little-endian byte strings.

use vstd::prelude::*;

verus! {

/// `256` to the power `digits`: the number of values that `digits` bytes can hold.
pub open spec fn radix(digits: nat) -> nat
    decreases digits,
{
    if digits == 0 {
        1
    } else {
        256 * radix((digits - 1) as nat)
    }
}

/// The `width` lowest base-256 digits of `value`, lowest first.
pub open spec fn le_bytes(value: nat, width: nat) -> Seq<u8>
    decreases width,
{
    if width == 0 {
        Seq::empty()
    } else {
        seq![(value % 256) as u8] + le_bytes(value / 256, (width - 1) as nat)
    }
}

/// The number whose base-256 digits, lowest first, are `bytes`.
pub open spec fn le_value(bytes: Seq<u8>) -> nat
    decreases bytes.len(),
{
    if bytes.len() == 0 {
        0
    } else {
        bytes[0] as nat + 256 * le_value(bytes.skip(1))
    }
}

/// An encoding has as many bytes as were asked for.
pub proof fn lemma_le_bytes_len(value: nat, width: nat)
    ensures
        le_bytes(value, width).len() == width,
    decreases width,
{
    if width > 0 {
        lemma_le_bytes_len(value / 256, (width - 1) as nat);
    }
}

/// A byte string of `n` bytes stands for a number below `256^n`.
pub proof fn lemma_le_value_bound(bytes: Seq<u8>)
    ensures
        le_value(bytes) < radix(bytes.len()),
    decreases bytes.len(),
{
    if bytes.len() > 0 {
        lemma_le_value_bound(bytes.skip(1));
    }
}

/// Decoding an encoding gives the number back, as far as it fits the width.
pub proof fn lemma_le_value_of_bytes(value: nat, width: nat)
    requires
        value < radix(width),
    ensures
        le_value(le_bytes(value, width)) == value,
    decreases width,
{
    if width > 0 {
        let rest = le_bytes(value / 256, (width - 1) as nat);
        let all = le_bytes(value, width);
        assert(all.skip(1) =~= rest);
        lemma_le_value_of_bytes(value / 256, (width - 1) as nat);
    }
}

/// Encoding what a byte string stands for gives the byte string back.
pub proof fn lemma_le_bytes_of_value(bytes: Seq<u8>)
    ensures
        le_bytes(le_value(bytes), bytes.len()) == bytes,
    decreases bytes.len(),
{
    if bytes.len() > 0 {
        lemma_le_bytes_of_value(bytes.skip(1));
    }
}

/// `256^4` and `256^8` are the number of values of a `u32` and of a `u64`.
pub proof fn lemma_radix_of_machine_words()
    ensures
        radix(1) == 0x100,
        radix(4) == 0x1_0000_0000,
        radix(8) == 0x1_0000_0000_0000_0000,
{
    reveal_with_fuel(radix, 9);
}

/// The `width` little-endian bytes of `value`.
fn to_le_bytes(value: u64, width: usize) -> (out: Vec<u8>)
    ensures
        out@ == le_bytes(value as nat, width as nat),
{
    let mut out: Vec<u8> = Vec::new();
    let mut rest: u64 = value;
    let mut i: usize = 0;
    while i < width
        invariant
            i <= width,
            out@.len() == i,
            out@ + le_bytes(rest as nat, (width - i) as nat) == le_bytes(
                value as nat,
                width as nat,
            ),
        decreases width - i,
    {
        out.push((rest % 256) as u8);
        rest = rest / 256;
        i = i + 1;
    }
    out
}

/// The number that the little-endian `bytes` stand for.
fn from_le_bytes(bytes: &[u8]) -> (value: u64)
    requires
        bytes@.len() <= 8,
    ensures
        value as nat == le_value(bytes@),
{
    let mut value: u64 = 0;
    let mut i: usize = bytes.len();
    while i > 0
        invariant
            i <= bytes@.len() <= 8,
            value as nat == le_value(bytes@.skip(i as int)),
        decreases i,
    {
        proof {
            let here = bytes@.skip(i - 1);
            lemma_le_value_bound(bytes@.skip(i as int));
            lemma_radix_step_bound((bytes@.len() - i) as nat);
            assert(here.skip(1) =~= bytes@.skip(i as int));
        }
        i = i - 1;
        value = value * 256 + bytes[i] as u64;
    }
    assert(bytes@.skip(0) =~= bytes@);
    value
}

/// Up to seven bytes stand for a number that leaves room for one more byte in a `u64`.
proof fn lemma_radix_step_bound(digits: nat)
    requires
        digits < 8,
    ensures
        radix(digits) * 256 <= 0x1_0000_0000_0000_0000,
{
    reveal_with_fuel(radix, 9);
}

/// The eight little-endian bytes of `value`.
pub fn u64_to_le_bytes(value: u64) -> (out: Vec<u8>)
    ensures
        out@ == le_bytes(value as nat, 8),
        out@.len() == 8,
{
    proof {
        lemma_le_bytes_len(value as nat, 8);
    }
    to_le_bytes(value, 8)
}

/// The four little-endian bytes of `value`.
pub fn u32_to_le_bytes(value: u32) -> (out: Vec<u8>)
    ensures
        out@ == le_bytes(value as nat, 4),
        out@.len() == 4,
{
    proof {
        lemma_le_bytes_len(value as nat, 4);
    }
    to_le_bytes(value as u64, 4)
}

/// The `u64` that eight little-endian bytes stand for.
pub fn u64_from_le_bytes(bytes: &[u8]) -> (value: u64)
    requires
        bytes@.len() == 8,
    ensures
        value as nat == le_value(bytes@),
{
    from_le_bytes(bytes)
}

/// The `u32` that four little-endian bytes stand for.
pub fn u32_from_le_bytes(bytes: &[u8]) -> (value: u32)
    requires
        bytes@.len() == 4,
    ensures
        value as nat == le_value(bytes@),
{
    proof {
        lemma_le_value_bound(bytes@);
        lemma_radix_of_machine_words();
    }
    let wide = from_le_bytes(bytes);
    wide as u32
}

} // verus!
