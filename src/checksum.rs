//! The two-accumulator checksum that closes every save slot.
use vstd::prelude::*;
use vstd::arithmetic::div_mod::lemma_add_mod_noop_right;
use itertools::Itertools;
use crate::layout::{PAYLOAD_LEN, put_be_u16, write_be_u16};
use crate::slots::slot_fits;

verus! {

/// The `k`-th big-endian 16-bit word of `s`.
pub open spec fn word(s: Seq<u8>, k: int) -> int {
    s[2 * k] * 256 + s[2 * k + 1]
}

/// The sum of the first `k` words of `s`.
pub open spec fn word_sum(s: Seq<u8>, k: nat) -> int
    decreases k,
{
    if k == 0 {
        0
    } else {
        word_sum(s, (k - 1) as nat) + word(s, k - 1)
    }
}

/// The sum of the 16-bit complements (`0xFFFF - w`) of the first `k` words of `s`.
pub open spec fn complement_sum(s: Seq<u8>, k: nat) -> int
    decreases k,
{
    if k == 0 {
        0
    } else {
        complement_sum(s, (k - 1) as nat) + (0xFFFF - word(s, k - 1))
    }
}

/// An accumulator as stored: the value 0xFFFF is written as 0.
pub open spec fn clamp(c: int) -> u16 {
    if c == 0xFFFF {
        0
    } else {
        c as u16
    }
}

/// The checksum pair of a payload: the word sum and the complement sum, each
/// modulo 65536 and clamped. A trailing odd byte is not part of any word.
pub open spec fn checksum_of(s: Seq<u8>) -> (u16, u16) {
    let k = s.len() / 2;
    (clamp(word_sum(s, k) % 65536), clamp(complement_sum(s, k) % 65536))
}

/// The payload of the slot at `o`: the bytes the checksum covers.
pub open spec fn payload(b: Seq<u8>, o: int) -> Seq<u8> {
    b.subrange(o, o + PAYLOAD_LEN)
}

/// `b` with the trailer of the slot at `o` set to the checksum of its payload.
pub open spec fn with_slot_checksum(b: Seq<u8>, o: int) -> Seq<u8> {
    let c = checksum_of(payload(b, o));
    put_be_u16(put_be_u16(b, o + PAYLOAD_LEN, c.0), o + PAYLOAD_LEN + 2, c.1)
}

/// Relies on itertools' `Itertools::tuples`: consecutive items grouped in
/// pairs, a leftover odd item dropped.
#[verifier::external_body]
fn word_pairs(bytes: &Vec<u8>, start: usize, len: usize) -> (r: Vec<(u8, u8)>)
    requires
        start + len <= bytes@.len(),
    ensures
        r@.len() == len / 2,
        forall|k: int|
            0 <= k < len / 2 ==> #[trigger] r@[k] == (bytes@[start + 2 * k], bytes@[start + 2 * k
                + 1]),
{
    bytes[start..start + len].iter().copied().tuples().collect()
}

/// The checksum pair of the `len` bytes of `bytes` from `start` on.
pub fn checksum(bytes: &Vec<u8>, start: usize, len: usize) -> (r: (u16, u16))
    requires
        start + len <= bytes@.len(),
    ensures
        r == checksum_of(bytes@.subrange(start as int, start + len)),
{
    let ghost s = bytes@.subrange(start as int, start + len);
    let pairs = word_pairs(bytes, start, len);
    let mut c1: u32 = 0;
    let mut c2: u32 = 0;
    let mut k: usize = 0;
    while k < pairs.len()
        invariant
            s == bytes@.subrange(start as int, start + len),
            start + len <= bytes@.len(),
            pairs@.len() == len / 2,
            forall|j: int|
                0 <= j < len / 2 ==> #[trigger] pairs@[j] == (bytes@[start + 2 * j], bytes@[start
                    + 2 * j + 1]),
            k <= pairs@.len(),
            c1 == word_sum(s, k as nat) % 65536,
            c2 == complement_sum(s, k as nat) % 65536,
        decreases pairs@.len() - k,
    {
        let (hi, lo) = pairs[k];
        let w: u32 = (hi as u32) * 256 + lo as u32;
        assert(w == word(s, k as int)) by {
            assert(pairs@[k as int] == (bytes@[start + 2 * k], bytes@[start + 2 * k + 1]));
        }
        proof {
            lemma_add_mod_noop_right(w as int, word_sum(s, k as nat), 65536);
            lemma_add_mod_noop_right(0xFFFF - w, complement_sum(s, k as nat), 65536);
        }
        c1 = (c1 + w) % 65536;
        c2 = (c2 + (0xFFFF - w)) % 65536;
        k += 1;
    }
    let r1: u16 = if c1 == 0xFFFF { 0 } else { c1 as u16 };
    let r2: u16 = if c2 == 0xFFFF { 0 } else { c2 as u16 };
    (r1, r2)
}

/// Sets the trailer of the slot at `o` to the checksum of its payload.
pub fn write_slot_checksum(b: &mut Vec<u8>, o: usize)
    requires
        slot_fits(old(b)@, o as int),
    ensures
        final(b)@ == with_slot_checksum(old(b)@, o as int),
        final(b)@.len() == old(b)@.len(),
{
    let _len = b.len();
    let c = checksum(b, o, PAYLOAD_LEN);
    write_be_u16(b, o + PAYLOAD_LEN, c.0);
    write_be_u16(b, o + PAYLOAD_LEN + 2, c.1);
}

/// The checksum depends on the payload alone, and the trailer lies outside
/// the payload: recomputing the trailer of a slot that was just checksummed
/// changes nothing.
pub proof fn lemma_slot_checksum_idempotent(b: Seq<u8>, o: int)
    requires
        slot_fits(b, o),
    ensures
        with_slot_checksum(with_slot_checksum(b, o), o) == with_slot_checksum(b, o),
{
    let b1 = with_slot_checksum(b, o);
    assert(payload(b1, o) =~= payload(b, o));
    assert(with_slot_checksum(b1, o) =~= b1);
}

} // verus!
