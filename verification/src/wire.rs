//! Little-endian encoding of 64-bit values.

use vstd::prelude::*;

verus! {

/// The eight bytes of `value`, least significant first.
pub open spec fn le_bytes(value: u64) -> Seq<u8> {
    seq![
        (value % 0x100) as u8,
        ((value / 0x100) % 0x100) as u8,
        ((value / 0x1_0000) % 0x100) as u8,
        ((value / 0x100_0000) % 0x100) as u8,
        ((value / 0x1_0000_0000) % 0x100) as u8,
        ((value / 0x100_0000_0000) % 0x100) as u8,
        ((value / 0x1_0000_0000_0000) % 0x100) as u8,
        ((value / 0x100_0000_0000_0000) % 0x100) as u8,
    ]
}

/// The number whose little-endian encoding is the first eight bytes of `bytes`.
pub open spec fn le_value(bytes: Seq<u8>) -> int
    recommends
        bytes.len() >= 8,
{
    bytes[0] + 0x100 * bytes[1] + 0x1_0000 * bytes[2] + 0x100_0000 * bytes[3] + 0x1_0000_0000
        * bytes[4] + 0x100_0000_0000 * bytes[5] + 0x1_0000_0000_0000 * bytes[6]
        + 0x100_0000_0000_0000 * bytes[7]
}

/// Eight bytes joined by shifts, least significant first.
pub open spec fn joined(b0: u64, b1: u64, b2: u64, b3: u64, b4: u64, b5: u64, b6: u64, b7: u64) -> u64 {
    (b7 << 56) | (b6 << 48) | (b5 << 40) | (b4 << 32) | (b3 << 24) | (b2 << 16) | (b1 << 8) | b0
}

proof fn lemma_joined_is_sum(b0: u64, b1: u64, b2: u64, b3: u64, b4: u64, b5: u64, b6: u64, b7: u64)
    by (bit_vector)
    requires
        b0 < 0x100,
        b1 < 0x100,
        b2 < 0x100,
        b3 < 0x100,
        b4 < 0x100,
        b5 < 0x100,
        b6 < 0x100,
        b7 < 0x100,
    ensures
        joined(b0, b1, b2, b3, b4, b5, b6, b7) == b0 + 0x100 * b1 + 0x1_0000 * b2 + 0x100_0000 * b3
            + 0x1_0000_0000 * b4 + 0x100_0000_0000 * b5 + 0x1_0000_0000_0000 * b6
            + 0x100_0000_0000_0000 * b7,
{
}

proof fn lemma_split_joined(b0: u64, b1: u64, b2: u64, b3: u64, b4: u64, b5: u64, b6: u64, b7: u64)
    by (bit_vector)
    requires
        b0 < 0x100,
        b1 < 0x100,
        b2 < 0x100,
        b3 < 0x100,
        b4 < 0x100,
        b5 < 0x100,
        b6 < 0x100,
        b7 < 0x100,
    ensures
        ({
            let v = joined(b0, b1, b2, b3, b4, b5, b6, b7);
            &&& v % 0x100 == b0
            &&& (v / 0x100) % 0x100 == b1
            &&& (v / 0x1_0000) % 0x100 == b2
            &&& (v / 0x100_0000) % 0x100 == b3
            &&& (v / 0x1_0000_0000) % 0x100 == b4
            &&& (v / 0x100_0000_0000) % 0x100 == b5
            &&& (v / 0x1_0000_0000_0000) % 0x100 == b6
            &&& (v / 0x100_0000_0000_0000) % 0x100 == b7
        }),
{
}

proof fn lemma_join_split(v: u64)
    by (bit_vector)
    ensures
        joined(
            v % 0x100,
            (v / 0x100) % 0x100,
            (v / 0x1_0000) % 0x100,
            (v / 0x100_0000) % 0x100,
            (v / 0x1_0000_0000) % 0x100,
            (v / 0x100_0000_0000) % 0x100,
            (v / 0x1_0000_0000_0000) % 0x100,
            (v / 0x100_0000_0000_0000) % 0x100,
        ) == v,
{
}

/// Decoding undoes encoding.
pub proof fn lemma_value_of_bytes(value: u64)
    ensures
        le_bytes(value).len() == 8,
        le_value(le_bytes(value)) == value,
{
    let b0 = value % 0x100;
    let b1 = (value / 0x100) % 0x100;
    let b2 = (value / 0x1_0000) % 0x100;
    let b3 = (value / 0x100_0000) % 0x100;
    let b4 = (value / 0x1_0000_0000) % 0x100;
    let b5 = (value / 0x100_0000_0000) % 0x100;
    let b6 = (value / 0x1_0000_0000_0000) % 0x100;
    let b7 = (value / 0x100_0000_0000_0000) % 0x100;
    lemma_join_split(value);
    lemma_joined_is_sum(
        b0 as u64,
        b1 as u64,
        b2 as u64,
        b3 as u64,
        b4 as u64,
        b5 as u64,
        b6 as u64,
        b7 as u64,
    );
    let s = le_bytes(value);
    assert(s[0] == b0 && s[1] == b1 && s[2] == b2 && s[3] == b3);
    assert(s[4] == b4 && s[5] == b5 && s[6] == b6 && s[7] == b7);
}

/// Encoding undoes decoding: eight bytes name a 64-bit value, and that value's
/// encoding is the same eight bytes.
pub proof fn lemma_bytes_of_value(bytes: Seq<u8>)
    requires
        bytes.len() == 8,
    ensures
        0 <= le_value(bytes) <= u64::MAX,
        le_bytes(le_value(bytes) as u64) =~= bytes,
{
    let b0 = bytes[0] as u64;
    let b1 = bytes[1] as u64;
    let b2 = bytes[2] as u64;
    let b3 = bytes[3] as u64;
    let b4 = bytes[4] as u64;
    let b5 = bytes[5] as u64;
    let b6 = bytes[6] as u64;
    let b7 = bytes[7] as u64;
    lemma_joined_is_sum(b0, b1, b2, b3, b4, b5, b6, b7);
    lemma_split_joined(b0, b1, b2, b3, b4, b5, b6, b7);
    let v = joined(b0, b1, b2, b3, b4, b5, b6, b7);
    assert(le_value(bytes) == v);
    let s = le_bytes(v);
    assert(s[0] == bytes[0] && s[1] == bytes[1] && s[2] == bytes[2] && s[3] == bytes[3]);
    assert(s[4] == bytes[4] && s[5] == bytes[5] && s[6] == bytes[6] && s[7] == bytes[7]);
}

/// Splits `value` into its eight bytes, least significant first.
pub fn u64_to_u8arr(value: u64) -> (ret: [u8; 8])
    ensures
        ret@ == le_bytes(value),
{
    assert((value & 0xFF) == value % 0x100) by (bit_vector);
    assert(((value & (0xFFu64 << 8)) >> 8) == (value / 0x100) % 0x100) by (bit_vector);
    assert(((value & (0xFFu64 << 16)) >> 16) == (value / 0x1_0000) % 0x100) by (bit_vector);
    assert(((value & (0xFFu64 << 24)) >> 24) == (value / 0x100_0000) % 0x100) by (bit_vector);
    assert(((value & (0xFFu64 << 32)) >> 32) == (value / 0x1_0000_0000) % 0x100) by (bit_vector);
    assert(((value & (0xFFu64 << 40)) >> 40) == (value / 0x100_0000_0000) % 0x100)
        by (bit_vector);
    assert(((value & (0xFFu64 << 48)) >> 48) == (value / 0x1_0000_0000_0000) % 0x100)
        by (bit_vector);
    assert(((value & (0xFFu64 << 56)) >> 56) == (value / 0x100_0000_0000_0000) % 0x100)
        by (bit_vector);
    let ret: [u8; 8] = [
        (value & 0xFF) as u8,
        ((value & (0xFFu64 << 8)) >> 8) as u8,
        ((value & (0xFFu64 << 16)) >> 16) as u8,
        ((value & (0xFFu64 << 24)) >> 24) as u8,
        ((value & (0xFFu64 << 32)) >> 32) as u8,
        ((value & (0xFFu64 << 40)) >> 40) as u8,
        ((value & (0xFFu64 << 48)) >> 48) as u8,
        ((value & (0xFFu64 << 56)) >> 56) as u8,
    ];
    assert(ret@ =~= le_bytes(value));
    ret
}

/// Joins eight bytes, least significant first, into the value they encode.
pub fn u8arr_to_u64(value: [u8; 8]) -> (ret: u64)
    ensures
        ret == le_value(value@),
{
    let b0: u64 = value[0] as u64;
    let b1: u64 = value[1] as u64;
    let b2: u64 = value[2] as u64;
    let b3: u64 = value[3] as u64;
    let b4: u64 = value[4] as u64;
    let b5: u64 = value[5] as u64;
    let b6: u64 = value[6] as u64;
    let b7: u64 = value[7] as u64;
    proof {
        lemma_joined_is_sum(b0, b1, b2, b3, b4, b5, b6, b7);
    }
    (b7 << 56) | (b6 << 48) | (b5 << 40) | (b4 << 32) | (b3 << 24) | (b2 << 16) | (b1 << 8) | b0
}

} // verus!
