//! Fixed offsets of the save image format and its big-endian fields.
use vstd::prelude::*;

verus! {

/// Length of a whole memory-card image, in bytes.
pub const IMAGE_LEN: usize = 221248;

/// Offset of the image-global region byte.
pub const REGION_OFFSET: usize = 3;

/// Length of a save slot, counted from its signature.
pub const SLOT_LEN: usize = 0xC000;

/// Length of the part of a slot that the checksum covers; the trailer follows.
pub const PAYLOAD_LEN: usize = 0xBFFC;

/// Slot-relative offset of the displayed currency total.
pub const DISPLAY_POKO_COUNT_OFFSET: usize = 0x2C;

/// Slot-relative offset of the actual currency total.
pub const ACTUAL_POKO_COUNT_OFFSET: usize = 0x834;

/// Slot-relative offset of the collectible-status table.
pub const TREASURE_LIST_OFFSET: usize = 0x4CF;

/// Number of entries in the collectible-status table.
pub const TREASURE_LIST_LEN: usize = 188;

/// Number of slots an image may hold.
pub const SLOT_COUNT: usize = 3;

/// The big-endian 32-bit value stored at `o`.
pub open spec fn be_u32(b: Seq<u8>, o: int) -> u32 {
    ((b[o] as u32) << 24u32) | ((b[o + 1] as u32) << 16u32) | ((b[o + 2] as u32) << 8u32) | (
    b[o + 3] as u32)
}

/// `b` with the big-endian encoding of `v` stored at `o`.
pub open spec fn put_be_u32(b: Seq<u8>, o: int, v: u32) -> Seq<u8> {
    b.update(o, (v >> 24u32) as u8).update(o + 1, (v >> 16u32) as u8).update(
        o + 2,
        (v >> 8u32) as u8,
    ).update(o + 3, v as u8)
}

/// `b` with the big-endian encoding of `v` stored at `o`.
pub open spec fn put_be_u16(b: Seq<u8>, o: int, v: u16) -> Seq<u8> {
    b.update(o, (v >> 8u16) as u8).update(o + 1, v as u8)
}

/// The signed reading of a 32-bit field (two's complement).
pub open spec fn as_i32(v: u32) -> int {
    if v < 0x8000_0000 {
        v as int
    } else {
        v - 0x1_0000_0000
    }
}

/// The signed 32-bit big-endian value stored at `o`.
pub open spec fn be_i32(b: Seq<u8>, o: int) -> int {
    as_i32(be_u32(b, o))
}

/// Reading back a stored big-endian value gives that value.
pub proof fn lemma_be_u32_round_trip(b: Seq<u8>, o: int, v: u32)
    requires
        0 <= o,
        o + 4 <= b.len(),
    ensures
        be_u32(put_be_u32(b, o, v), o) == v,
        put_be_u32(b, o, v).len() == b.len(),
{
    let p = put_be_u32(b, o, v);
    assert(p[o] == (v >> 24u32) as u8);
    assert(p[o + 1] == (v >> 16u32) as u8);
    assert(p[o + 2] == (v >> 8u32) as u8);
    assert(p[o + 3] == v as u8);
    assert((((v >> 24u32) as u8 as u32) << 24u32) | (((v >> 16u32) as u8 as u32) << 16u32) | (((v
        >> 8u32) as u8 as u32) << 8u32) | (v as u8 as u32) == v) by (bit_vector);
}

/// Storing the value that is already there changes nothing.
pub proof fn lemma_put_be_u32_same(b: Seq<u8>, o: int)
    requires
        0 <= o,
        o + 4 <= b.len(),
    ensures
        put_be_u32(b, o, be_u32(b, o)) == b,
{
    let v = be_u32(b, o);
    let (b0, b1, b2, b3) = (b[o], b[o + 1], b[o + 2], b[o + 3]);
    assert(((((b0 as u32) << 24u32) | ((b1 as u32) << 16u32) | ((b2 as u32) << 8u32) | (b3 as u32))
        >> 24u32) as u8 == b0) by (bit_vector);
    assert(((((b0 as u32) << 24u32) | ((b1 as u32) << 16u32) | ((b2 as u32) << 8u32) | (b3 as u32))
        >> 16u32) as u8 == b1) by (bit_vector);
    assert(((((b0 as u32) << 24u32) | ((b1 as u32) << 16u32) | ((b2 as u32) << 8u32) | (b3 as u32))
        >> 8u32) as u8 == b2) by (bit_vector);
    assert((((b0 as u32) << 24u32) | ((b1 as u32) << 16u32) | ((b2 as u32) << 8u32) | (b3 as u32))
        as u8 == b3) by (bit_vector);
    assert(put_be_u32(b, o, v) =~= b);
}

/// Reads the big-endian 32-bit value at `o`.
pub fn read_be_u32(b: &Vec<u8>, o: usize) -> (r: u32)
    requires
        o + 4 <= b@.len(),
    ensures
        r == be_u32(b@, o as int),
{
    let _len = b.len();
    ((b[o] as u32) << 24u32) | ((b[o + 1] as u32) << 16u32) | ((b[o + 2] as u32) << 8u32) | (b[o
        + 3] as u32)
}

/// Stores `v` big-endian at `o`.
pub fn write_be_u32(b: &mut Vec<u8>, o: usize, v: u32)
    requires
        o + 4 <= old(b)@.len(),
    ensures
        final(b)@ == put_be_u32(old(b)@, o as int, v),
        final(b)@.len() == old(b)@.len(),
{
    let _len = b.len();
    b.set(o, #[verifier::truncate] ((v >> 24u32) as u8));
    b.set(o + 1, #[verifier::truncate] ((v >> 16u32) as u8));
    b.set(o + 2, #[verifier::truncate] ((v >> 8u32) as u8));
    b.set(o + 3, #[verifier::truncate] (v as u8));
}

/// Stores `v` big-endian at `o`.
pub fn write_be_u16(b: &mut Vec<u8>, o: usize, v: u16)
    requires
        o + 2 <= old(b)@.len(),
    ensures
        final(b)@ == put_be_u16(old(b)@, o as int, v),
        final(b)@.len() == old(b)@.len(),
{
    let _len = b.len();
    b.set(o, #[verifier::truncate] ((v >> 8u16) as u8));
    b.set(o + 1, #[verifier::truncate] (v as u8));
}

/// The signed reading of a 32-bit field.
pub fn to_i32(v: u32) -> (r: i32)
    ensures
        r as int == as_i32(v),
{
    if v < 0x8000_0000 {
        v as i32
    } else {
        (v as i64 - 0x1_0000_0000i64) as i32
    }
}

} // verus!
