//! Morton (Z-order) keys for lattice coordinates.

use vstd::prelude::*;
use crate::vector::IntVector2;

verus! {

/// Bit `i` of a 32-bit word.
pub open spec fn bit32(v: u32, i: u32) -> bool {
    (v >> i) & 1 == 1
}

/// Bit `i` of a 64-bit word.
pub open spec fn bit64(v: u64, i: u64) -> bool {
    (v >> i) & 1 == 1
}

/// Bit `2 * i + 1` of a key: the slot that holds bit `i` of the first coordinate.
pub open spec fn odd_bit(key: u64, i: u32) -> bool {
    bit64(key, (2 * i + 1) as u64)
}

/// Bit `2 * i` of a key: the slot that holds bit `i` of the second coordinate.
pub open spec fn even_bit(key: u64, i: u32) -> bool {
    bit64(key, (2 * i) as u64)
}

/// `key` holds the bits of `x` in its odd positions and those of `y` in its
/// even positions.
pub open spec fn interleaves(key: u64, x: u32, y: u32) -> bool {
    forall|i: u32|
        #![trigger odd_bit(key, i)]
        #![trigger even_bit(key, i)]
        #![trigger bit32(x, i)]
        #![trigger bit32(y, i)]
        i < 32 ==> odd_bit(key, i) == bit32(x, i) && even_bit(key, i) == bit32(y, i)
}

/// Spreads the bits of `v` over the even positions of a 64-bit word.
pub open spec fn spread(v: u32) -> u64 {
    let a = v as u64;
    let b = (a | (a << 16)) & 0x0000_ffff_0000_ffff;
    let c = (b | (b << 8)) & 0x00ff_00ff_00ff_00ff;
    let d = (c | (c << 4)) & 0x0f0f_0f0f_0f0f_0f0f;
    let e = (d | (d << 2)) & 0x3333_3333_3333_3333;
    (e | (e << 1)) & 0x5555_5555_5555_5555
}

/// The Morton key of two unsigned coordinates.
pub open spec fn morton_key(x: u32, y: u32) -> u64 {
    (spread(x) << 1) | spread(y)
}

/// Gathers the bits at the even positions of `key` into a 32-bit word.
pub open spec fn compact(key: u64) -> u32 {
    let a = key & 0x5555_5555_5555_5555;
    let b = (a | (a >> 1)) & 0x3333_3333_3333_3333;
    let c = (b | (b >> 2)) & 0x0f0f_0f0f_0f0f_0f0f;
    let d = (c | (c >> 4)) & 0x00ff_00ff_00ff_00ff;
    let e = (d | (d >> 8)) & 0x0000_ffff_0000_ffff;
    ((e | (e >> 16)) & 0xffff_ffff) as u32
}

/// The first coordinate held by a Morton key.
pub open spec fn morton_x(key: u64) -> u32 {
    compact(key >> 1)
}

/// The second coordinate held by a Morton key.
pub open spec fn morton_y(key: u64) -> u32 {
    compact(key)
}

proof fn lemma_spread_bits(x: u32, y: u32, i: u32)
    by (bit_vector)
    requires
        i < 32,
    ensures
        ((morton_key(x, y) >> ((2 * i + 1) as u64)) & 1 == 1) == ((x >> i) & 1 == 1),
        ((morton_key(x, y) >> ((2 * i) as u64)) & 1 == 1) == ((y >> i) & 1 == 1),
{
}

proof fn lemma_compact_bits(key: u64, i: u32)
    by (bit_vector)
    requires
        i < 32,
    ensures
        ((key >> ((2 * i + 1) as u64)) & 1 == 1) == ((morton_x(key) >> i) & 1 == 1),
        ((key >> ((2 * i) as u64)) & 1 == 1) == ((morton_y(key) >> i) & 1 == 1),
{
}

/// The closed form `morton_key` interleaves its arguments.
pub proof fn lemma_morton_key_interleaves(x: u32, y: u32)
    ensures
        interleaves(morton_key(x, y), x, y),
{
    assert forall|i: u32| i < 32 implies odd_bit(morton_key(x, y), i) == bit32(x, i) && even_bit(
        morton_key(x, y),
        i,
    ) == bit32(y, i) by {
        lemma_spread_bits(x, y, i);
    }
}

/// Every key interleaves the two coordinates that `morton_x` and `morton_y`
/// read from it.
pub proof fn lemma_morton_coords_interleave(key: u64)
    ensures
        interleaves(key, morton_x(key), morton_y(key)),
{
    assert forall|i: u32| i < 32 implies odd_bit(key, i) == bit32(morton_x(key), i) && even_bit(
        key,
        i,
    ) == bit32(morton_y(key), i) by {
        lemma_compact_bits(key, i);
    }
}

/// Two 32-bit words with the same bits are equal.
pub proof fn lemma_bits_determine_u32(a: u32, b: u32)
    requires
        forall|i: u32| #![trigger bit32(a, i)] i < 32 ==> bit32(a, i) == bit32(b, i),
    ensures
        a == b,
{
    assert(bit32(a, 0u32) == bit32(b, 0u32));
    assert(bit32(a, 1u32) == bit32(b, 1u32));
    assert(bit32(a, 2u32) == bit32(b, 2u32));
    assert(bit32(a, 3u32) == bit32(b, 3u32));
    assert(bit32(a, 4u32) == bit32(b, 4u32));
    assert(bit32(a, 5u32) == bit32(b, 5u32));
    assert(bit32(a, 6u32) == bit32(b, 6u32));
    assert(bit32(a, 7u32) == bit32(b, 7u32));
    assert(bit32(a, 8u32) == bit32(b, 8u32));
    assert(bit32(a, 9u32) == bit32(b, 9u32));
    assert(bit32(a, 10u32) == bit32(b, 10u32));
    assert(bit32(a, 11u32) == bit32(b, 11u32));
    assert(bit32(a, 12u32) == bit32(b, 12u32));
    assert(bit32(a, 13u32) == bit32(b, 13u32));
    assert(bit32(a, 14u32) == bit32(b, 14u32));
    assert(bit32(a, 15u32) == bit32(b, 15u32));
    assert(bit32(a, 16u32) == bit32(b, 16u32));
    assert(bit32(a, 17u32) == bit32(b, 17u32));
    assert(bit32(a, 18u32) == bit32(b, 18u32));
    assert(bit32(a, 19u32) == bit32(b, 19u32));
    assert(bit32(a, 20u32) == bit32(b, 20u32));
    assert(bit32(a, 21u32) == bit32(b, 21u32));
    assert(bit32(a, 22u32) == bit32(b, 22u32));
    assert(bit32(a, 23u32) == bit32(b, 23u32));
    assert(bit32(a, 24u32) == bit32(b, 24u32));
    assert(bit32(a, 25u32) == bit32(b, 25u32));
    assert(bit32(a, 26u32) == bit32(b, 26u32));
    assert(bit32(a, 27u32) == bit32(b, 27u32));
    assert(bit32(a, 28u32) == bit32(b, 28u32));
    assert(bit32(a, 29u32) == bit32(b, 29u32));
    assert(bit32(a, 30u32) == bit32(b, 30u32));
    assert(bit32(a, 31u32) == bit32(b, 31u32));
    assert(a == b) by (bit_vector)
        requires
                ((a >> 0u32) & 1 == 1) == ((b >> 0u32) & 1 == 1),
                ((a >> 1u32) & 1 == 1) == ((b >> 1u32) & 1 == 1),
                ((a >> 2u32) & 1 == 1) == ((b >> 2u32) & 1 == 1),
                ((a >> 3u32) & 1 == 1) == ((b >> 3u32) & 1 == 1),
                ((a >> 4u32) & 1 == 1) == ((b >> 4u32) & 1 == 1),
                ((a >> 5u32) & 1 == 1) == ((b >> 5u32) & 1 == 1),
                ((a >> 6u32) & 1 == 1) == ((b >> 6u32) & 1 == 1),
                ((a >> 7u32) & 1 == 1) == ((b >> 7u32) & 1 == 1),
                ((a >> 8u32) & 1 == 1) == ((b >> 8u32) & 1 == 1),
                ((a >> 9u32) & 1 == 1) == ((b >> 9u32) & 1 == 1),
                ((a >> 10u32) & 1 == 1) == ((b >> 10u32) & 1 == 1),
                ((a >> 11u32) & 1 == 1) == ((b >> 11u32) & 1 == 1),
                ((a >> 12u32) & 1 == 1) == ((b >> 12u32) & 1 == 1),
                ((a >> 13u32) & 1 == 1) == ((b >> 13u32) & 1 == 1),
                ((a >> 14u32) & 1 == 1) == ((b >> 14u32) & 1 == 1),
                ((a >> 15u32) & 1 == 1) == ((b >> 15u32) & 1 == 1),
                ((a >> 16u32) & 1 == 1) == ((b >> 16u32) & 1 == 1),
                ((a >> 17u32) & 1 == 1) == ((b >> 17u32) & 1 == 1),
                ((a >> 18u32) & 1 == 1) == ((b >> 18u32) & 1 == 1),
                ((a >> 19u32) & 1 == 1) == ((b >> 19u32) & 1 == 1),
                ((a >> 20u32) & 1 == 1) == ((b >> 20u32) & 1 == 1),
                ((a >> 21u32) & 1 == 1) == ((b >> 21u32) & 1 == 1),
                ((a >> 22u32) & 1 == 1) == ((b >> 22u32) & 1 == 1),
                ((a >> 23u32) & 1 == 1) == ((b >> 23u32) & 1 == 1),
                ((a >> 24u32) & 1 == 1) == ((b >> 24u32) & 1 == 1),
                ((a >> 25u32) & 1 == 1) == ((b >> 25u32) & 1 == 1),
                ((a >> 26u32) & 1 == 1) == ((b >> 26u32) & 1 == 1),
                ((a >> 27u32) & 1 == 1) == ((b >> 27u32) & 1 == 1),
                ((a >> 28u32) & 1 == 1) == ((b >> 28u32) & 1 == 1),
                ((a >> 29u32) & 1 == 1) == ((b >> 29u32) & 1 == 1),
                ((a >> 30u32) & 1 == 1) == ((b >> 30u32) & 1 == 1),
                ((a >> 31u32) & 1 == 1) == ((b >> 31u32) & 1 == 1),
    ;
}

/// Two keys with the same bits in all odd and even slots are equal.
pub proof fn lemma_bits_determine_u64(a: u64, b: u64)
    requires
        forall|i: u32|
            #![trigger odd_bit(a, i)]
            #![trigger even_bit(a, i)]
            i < 32 ==> odd_bit(a, i) == odd_bit(b, i) && even_bit(a, i) == even_bit(b, i),
    ensures
        a == b,
{
    assert(odd_bit(a, 0u32) == odd_bit(b, 0u32) && even_bit(a, 0u32) == even_bit(b, 0u32));
    assert(odd_bit(a, 1u32) == odd_bit(b, 1u32) && even_bit(a, 1u32) == even_bit(b, 1u32));
    assert(odd_bit(a, 2u32) == odd_bit(b, 2u32) && even_bit(a, 2u32) == even_bit(b, 2u32));
    assert(odd_bit(a, 3u32) == odd_bit(b, 3u32) && even_bit(a, 3u32) == even_bit(b, 3u32));
    assert(odd_bit(a, 4u32) == odd_bit(b, 4u32) && even_bit(a, 4u32) == even_bit(b, 4u32));
    assert(odd_bit(a, 5u32) == odd_bit(b, 5u32) && even_bit(a, 5u32) == even_bit(b, 5u32));
    assert(odd_bit(a, 6u32) == odd_bit(b, 6u32) && even_bit(a, 6u32) == even_bit(b, 6u32));
    assert(odd_bit(a, 7u32) == odd_bit(b, 7u32) && even_bit(a, 7u32) == even_bit(b, 7u32));
    assert(odd_bit(a, 8u32) == odd_bit(b, 8u32) && even_bit(a, 8u32) == even_bit(b, 8u32));
    assert(odd_bit(a, 9u32) == odd_bit(b, 9u32) && even_bit(a, 9u32) == even_bit(b, 9u32));
    assert(odd_bit(a, 10u32) == odd_bit(b, 10u32) && even_bit(a, 10u32) == even_bit(b, 10u32));
    assert(odd_bit(a, 11u32) == odd_bit(b, 11u32) && even_bit(a, 11u32) == even_bit(b, 11u32));
    assert(odd_bit(a, 12u32) == odd_bit(b, 12u32) && even_bit(a, 12u32) == even_bit(b, 12u32));
    assert(odd_bit(a, 13u32) == odd_bit(b, 13u32) && even_bit(a, 13u32) == even_bit(b, 13u32));
    assert(odd_bit(a, 14u32) == odd_bit(b, 14u32) && even_bit(a, 14u32) == even_bit(b, 14u32));
    assert(odd_bit(a, 15u32) == odd_bit(b, 15u32) && even_bit(a, 15u32) == even_bit(b, 15u32));
    assert(odd_bit(a, 16u32) == odd_bit(b, 16u32) && even_bit(a, 16u32) == even_bit(b, 16u32));
    assert(odd_bit(a, 17u32) == odd_bit(b, 17u32) && even_bit(a, 17u32) == even_bit(b, 17u32));
    assert(odd_bit(a, 18u32) == odd_bit(b, 18u32) && even_bit(a, 18u32) == even_bit(b, 18u32));
    assert(odd_bit(a, 19u32) == odd_bit(b, 19u32) && even_bit(a, 19u32) == even_bit(b, 19u32));
    assert(odd_bit(a, 20u32) == odd_bit(b, 20u32) && even_bit(a, 20u32) == even_bit(b, 20u32));
    assert(odd_bit(a, 21u32) == odd_bit(b, 21u32) && even_bit(a, 21u32) == even_bit(b, 21u32));
    assert(odd_bit(a, 22u32) == odd_bit(b, 22u32) && even_bit(a, 22u32) == even_bit(b, 22u32));
    assert(odd_bit(a, 23u32) == odd_bit(b, 23u32) && even_bit(a, 23u32) == even_bit(b, 23u32));
    assert(odd_bit(a, 24u32) == odd_bit(b, 24u32) && even_bit(a, 24u32) == even_bit(b, 24u32));
    assert(odd_bit(a, 25u32) == odd_bit(b, 25u32) && even_bit(a, 25u32) == even_bit(b, 25u32));
    assert(odd_bit(a, 26u32) == odd_bit(b, 26u32) && even_bit(a, 26u32) == even_bit(b, 26u32));
    assert(odd_bit(a, 27u32) == odd_bit(b, 27u32) && even_bit(a, 27u32) == even_bit(b, 27u32));
    assert(odd_bit(a, 28u32) == odd_bit(b, 28u32) && even_bit(a, 28u32) == even_bit(b, 28u32));
    assert(odd_bit(a, 29u32) == odd_bit(b, 29u32) && even_bit(a, 29u32) == even_bit(b, 29u32));
    assert(odd_bit(a, 30u32) == odd_bit(b, 30u32) && even_bit(a, 30u32) == even_bit(b, 30u32));
    assert(odd_bit(a, 31u32) == odd_bit(b, 31u32) && even_bit(a, 31u32) == even_bit(b, 31u32));
    assert(a == b) by (bit_vector)
        requires
                ((a >> 0u64) & 1 == 1) == ((b >> 0u64) & 1 == 1),
                ((a >> 1u64) & 1 == 1) == ((b >> 1u64) & 1 == 1),
                ((a >> 2u64) & 1 == 1) == ((b >> 2u64) & 1 == 1),
                ((a >> 3u64) & 1 == 1) == ((b >> 3u64) & 1 == 1),
                ((a >> 4u64) & 1 == 1) == ((b >> 4u64) & 1 == 1),
                ((a >> 5u64) & 1 == 1) == ((b >> 5u64) & 1 == 1),
                ((a >> 6u64) & 1 == 1) == ((b >> 6u64) & 1 == 1),
                ((a >> 7u64) & 1 == 1) == ((b >> 7u64) & 1 == 1),
                ((a >> 8u64) & 1 == 1) == ((b >> 8u64) & 1 == 1),
                ((a >> 9u64) & 1 == 1) == ((b >> 9u64) & 1 == 1),
                ((a >> 10u64) & 1 == 1) == ((b >> 10u64) & 1 == 1),
                ((a >> 11u64) & 1 == 1) == ((b >> 11u64) & 1 == 1),
                ((a >> 12u64) & 1 == 1) == ((b >> 12u64) & 1 == 1),
                ((a >> 13u64) & 1 == 1) == ((b >> 13u64) & 1 == 1),
                ((a >> 14u64) & 1 == 1) == ((b >> 14u64) & 1 == 1),
                ((a >> 15u64) & 1 == 1) == ((b >> 15u64) & 1 == 1),
                ((a >> 16u64) & 1 == 1) == ((b >> 16u64) & 1 == 1),
                ((a >> 17u64) & 1 == 1) == ((b >> 17u64) & 1 == 1),
                ((a >> 18u64) & 1 == 1) == ((b >> 18u64) & 1 == 1),
                ((a >> 19u64) & 1 == 1) == ((b >> 19u64) & 1 == 1),
                ((a >> 20u64) & 1 == 1) == ((b >> 20u64) & 1 == 1),
                ((a >> 21u64) & 1 == 1) == ((b >> 21u64) & 1 == 1),
                ((a >> 22u64) & 1 == 1) == ((b >> 22u64) & 1 == 1),
                ((a >> 23u64) & 1 == 1) == ((b >> 23u64) & 1 == 1),
                ((a >> 24u64) & 1 == 1) == ((b >> 24u64) & 1 == 1),
                ((a >> 25u64) & 1 == 1) == ((b >> 25u64) & 1 == 1),
                ((a >> 26u64) & 1 == 1) == ((b >> 26u64) & 1 == 1),
                ((a >> 27u64) & 1 == 1) == ((b >> 27u64) & 1 == 1),
                ((a >> 28u64) & 1 == 1) == ((b >> 28u64) & 1 == 1),
                ((a >> 29u64) & 1 == 1) == ((b >> 29u64) & 1 == 1),
                ((a >> 30u64) & 1 == 1) == ((b >> 30u64) & 1 == 1),
                ((a >> 31u64) & 1 == 1) == ((b >> 31u64) & 1 == 1),
                ((a >> 32u64) & 1 == 1) == ((b >> 32u64) & 1 == 1),
                ((a >> 33u64) & 1 == 1) == ((b >> 33u64) & 1 == 1),
                ((a >> 34u64) & 1 == 1) == ((b >> 34u64) & 1 == 1),
                ((a >> 35u64) & 1 == 1) == ((b >> 35u64) & 1 == 1),
                ((a >> 36u64) & 1 == 1) == ((b >> 36u64) & 1 == 1),
                ((a >> 37u64) & 1 == 1) == ((b >> 37u64) & 1 == 1),
                ((a >> 38u64) & 1 == 1) == ((b >> 38u64) & 1 == 1),
                ((a >> 39u64) & 1 == 1) == ((b >> 39u64) & 1 == 1),
                ((a >> 40u64) & 1 == 1) == ((b >> 40u64) & 1 == 1),
                ((a >> 41u64) & 1 == 1) == ((b >> 41u64) & 1 == 1),
                ((a >> 42u64) & 1 == 1) == ((b >> 42u64) & 1 == 1),
                ((a >> 43u64) & 1 == 1) == ((b >> 43u64) & 1 == 1),
                ((a >> 44u64) & 1 == 1) == ((b >> 44u64) & 1 == 1),
                ((a >> 45u64) & 1 == 1) == ((b >> 45u64) & 1 == 1),
                ((a >> 46u64) & 1 == 1) == ((b >> 46u64) & 1 == 1),
                ((a >> 47u64) & 1 == 1) == ((b >> 47u64) & 1 == 1),
                ((a >> 48u64) & 1 == 1) == ((b >> 48u64) & 1 == 1),
                ((a >> 49u64) & 1 == 1) == ((b >> 49u64) & 1 == 1),
                ((a >> 50u64) & 1 == 1) == ((b >> 50u64) & 1 == 1),
                ((a >> 51u64) & 1 == 1) == ((b >> 51u64) & 1 == 1),
                ((a >> 52u64) & 1 == 1) == ((b >> 52u64) & 1 == 1),
                ((a >> 53u64) & 1 == 1) == ((b >> 53u64) & 1 == 1),
                ((a >> 54u64) & 1 == 1) == ((b >> 54u64) & 1 == 1),
                ((a >> 55u64) & 1 == 1) == ((b >> 55u64) & 1 == 1),
                ((a >> 56u64) & 1 == 1) == ((b >> 56u64) & 1 == 1),
                ((a >> 57u64) & 1 == 1) == ((b >> 57u64) & 1 == 1),
                ((a >> 58u64) & 1 == 1) == ((b >> 58u64) & 1 == 1),
                ((a >> 59u64) & 1 == 1) == ((b >> 59u64) & 1 == 1),
                ((a >> 60u64) & 1 == 1) == ((b >> 60u64) & 1 == 1),
                ((a >> 61u64) & 1 == 1) == ((b >> 61u64) & 1 == 1),
                ((a >> 62u64) & 1 == 1) == ((b >> 62u64) & 1 == 1),
                ((a >> 63u64) & 1 == 1) == ((b >> 63u64) & 1 == 1),
    ;
}

/// A key determines the coordinates it interleaves, and they determine it.
pub proof fn lemma_interleaves_unique(key: u64, x: u32, y: u32)
    requires
        interleaves(key, x, y),
    ensures
        key == morton_key(x, y),
        x == morton_x(key),
        y == morton_y(key),
{
    lemma_morton_key_interleaves(x, y);
    lemma_morton_coords_interleave(key);
    let k2 = morton_key(x, y);
    assert forall|i: u32|
        #![trigger odd_bit(key, i)]
        #![trigger even_bit(key, i)]
        i < 32 implies odd_bit(key, i) == odd_bit(k2, i) && even_bit(key, i) == even_bit(k2, i) by {
        assert(odd_bit(key, i) == bit32(x, i));
        assert(even_bit(key, i) == bit32(y, i));
        assert(odd_bit(k2, i) == bit32(x, i));
        assert(even_bit(k2, i) == bit32(y, i));
    }
    lemma_bits_determine_u64(key, k2);
    assert forall|i: u32| #![trigger bit32(x, i)] i < 32 implies bit32(x, i) == bit32(
        morton_x(key),
        i,
    ) by {
        assert(odd_bit(key, i) == bit32(x, i));
        assert(odd_bit(key, i) == bit32(morton_x(key), i));
    }
    lemma_bits_determine_u32(x, morton_x(key));
    assert forall|i: u32| #![trigger bit32(y, i)] i < 32 implies bit32(y, i) == bit32(
        morton_y(key),
        i,
    ) by {
        assert(even_bit(key, i) == bit32(y, i));
        assert(even_bit(key, i) == bit32(morton_y(key), i));
    }
    lemma_bits_determine_u32(y, morton_y(key));
}

/// Interleaves two unsigned coordinates into one key by `morton_encoding::morton_encode`.
/// Trusted: the key carries the bits of `x` in its odd positions and the bits
/// of `y` in its even positions, as that crate's bit interleaving places the
/// first array element one position above the second.
#[verifier::external_body]
fn interleave_coordinates(x: u32, y: u32) -> (key: u64)
    ensures
        interleaves(key, x, y),
{
    morton_encoding::morton_encode([x, y])
}

/// Splits a key into its two coordinates by `morton_encoding::morton_decode`.
/// Trusted: the first coordinate is read from the odd positions of the key,
/// the second from the even positions.
#[verifier::external_body]
fn split_key(key: u64) -> (r: (u32, u32))
    ensures
        interleaves(key, r.0, r.1),
{
    let [x, y] = morton_encoding::morton_decode(key);
    (x, y)
}

/// Shifts a signed coordinate into unsigned space: adds `i32::MAX`, wrapping
/// around for `i32::MIN`.
pub open spec fn translated(val: i32) -> u32 {
    if val == i32::MIN {
        u32::MAX
    } else {
        (val + i32::MAX) as u32
    }
}

/// Inverse of `translated`.
pub open spec fn untranslated(val: u32) -> i32 {
    if val == u32::MAX {
        i32::MIN
    } else {
        (val - i32::MAX) as i32
    }
}

/// The key under which a coordinate is stored.
pub open spec fn encoded(p: IntVector2) -> u64 {
    morton_key(translated(p.x), translated(p.y))
}

/// The coordinate that a key stands for.
pub open spec fn decoded(key: u64) -> IntVector2 {
    IntVector2 { x: untranslated(morton_x(key)), y: untranslated(morton_y(key)) }
}

/// An encoder for points of the lattice.
pub trait PositionEncoder {
    spec fn spec_encode(&self) -> u64;

    spec fn spec_translate(val: i32) -> u32;

    fn encode(&self) -> (key: u64)
        ensures
            key == self.spec_encode(),
    ;

    fn translate(val: i32) -> (r: u32)
        ensures
            r == Self::spec_translate(val),
    ;
}

/// A decoder from keys back to points of the lattice.
pub trait PositionDecoder {
    spec fn spec_decode(self) -> IntVector2;

    spec fn spec_untranslate(val: u32) -> i32;

    fn decode(self) -> (p: IntVector2)
        ensures
            p == self.spec_decode(),
    ;

    fn untranslate(val: u32) -> (r: i32)
        ensures
            r == Self::spec_untranslate(val),
    ;
}

impl PositionEncoder for IntVector2 {
    open spec fn spec_encode(&self) -> u64 {
        encoded(*self)
    }

    open spec fn spec_translate(val: i32) -> u32 {
        translated(val)
    }

    fn encode(&self) -> (key: u64) {
        let x = Self::translate(self.x);
        let y = Self::translate(self.y);
        let key = interleave_coordinates(x, y);
        proof {
            lemma_interleaves_unique(key, x, y);
            assert(self.spec_encode() == encoded(*self));
        }
        key
    }

    #[inline]
    fn translate(val: i32) -> (r: u32) {
        assert(Self::spec_translate(val) == translated(val));
        if val == i32::MIN {
            u32::MAX
        } else {
            (val as i64 + i32::MAX as i64) as u32
        }
    }
}

impl PositionDecoder for u64 {
    open spec fn spec_decode(self) -> IntVector2 {
        decoded(self)
    }

    open spec fn spec_untranslate(val: u32) -> i32 {
        untranslated(val)
    }

    fn decode(self) -> (p: IntVector2) {
        let (x, y) = split_key(self);
        proof {
            lemma_interleaves_unique(self, x, y);
            assert(self.spec_decode() == decoded(self));
        }
        IntVector2::new(Self::untranslate(x), Self::untranslate(y))
    }

    #[inline]
    fn untranslate(val: u32) -> (r: i32) {
        assert(Self::spec_untranslate(val) == untranslated(val));
        if val == u32::MAX {
            i32::MIN
        } else {
            (val as i64 - i32::MAX as i64) as i32
        }
    }
}

/// Decoding an encoded coordinate gives the coordinate back.
pub proof fn lemma_decode_encode(p: IntVector2)
    ensures
        decoded(encoded(p)) == p,
{
    let x = translated(p.x);
    let y = translated(p.y);
    lemma_morton_key_interleaves(x, y);
    lemma_interleaves_unique(morton_key(x, y), x, y);
}

/// Encoding a decoded key gives the key back.
pub proof fn lemma_encode_decode(key: u64)
    ensures
        encoded(decoded(key)) == key,
{
    lemma_morton_coords_interleave(key);
    lemma_interleaves_unique(key, morton_x(key), morton_y(key));
}

/// Distinct coordinates have distinct keys.
pub proof fn lemma_encode_injective(p: IntVector2, q: IntVector2)
    requires
        encoded(p) == encoded(q),
    ensures
        p == q,
{
    lemma_decode_encode(p);
    lemma_decode_encode(q);
}

} // verus!
