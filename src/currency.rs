//! Recalculating a slot's currency total for another region.
use vstd::prelude::*;
use vstd::arithmetic::div_mod::{lemma_add_mod_noop_right, lemma_mod_multiples_vanish, lemma_small_mod};
use crate::layout::{
    ACTUAL_POKO_COUNT_OFFSET, DISPLAY_POKO_COUNT_OFFSET, TREASURE_LIST_LEN, TREASURE_LIST_OFFSET,
    as_i32, be_u32, be_i32, put_be_u32, lemma_be_u32_round_trip, lemma_put_be_u32_same,
    read_be_u32, to_i32, write_be_u32,
};
use crate::region::{Region, value_index};
use crate::slots::slot_fits;

verus! {

/// Whether collectible `k` has been obtained in the slot at `o`.
pub open spec fn collected(b: Seq<u8>, o: int, k: int) -> bool {
    b[o + TREASURE_LIST_OFFSET + k] != 0
}

/// What the first `k` collectibles of the slot at `o` add to its total when
/// their values move from table column `from` to column `to`.
pub open spec fn value_delta(b: Seq<u8>, o: int, t: Seq<[i32; 3]>, from: int, to: int, k: nat) -> int
    decreases k,
{
    if k == 0 {
        0
    } else {
        value_delta(b, o, t, from, to, (k - 1) as nat) + if collected(b, o, k - 1) {
            t[k - 1]@[to] - t[k - 1]@[from]
        } else {
            0
        }
    }
}

/// The total of the slot at `o` after conversion from region `from` to region
/// `to`: the stored actual total plus the value change of every collected
/// item, as a 32-bit two's-complement field (modulo 2^32).
pub open spec fn recalculated_total(b: Seq<u8>, o: int, t: Seq<[i32; 3]>, from: Region, to: Region) -> u32 {
    ((be_u32(b, o + ACTUAL_POKO_COUNT_OFFSET) + value_delta(
        b,
        o,
        t,
        value_index(from) as int,
        value_index(to) as int,
        TREASURE_LIST_LEN as nat,
    )) % 0x1_0000_0000) as u32
}

/// `b` with the recalculated total written to both the actual and the
/// displayed total of the slot at `o`.
pub open spec fn with_recalculated_total(b: Seq<u8>, o: int, t: Seq<[i32; 3]>, from: Region, to: Region) -> Seq<u8> {
    let v = recalculated_total(b, o, t, from, to);
    put_be_u32(put_be_u32(b, o + ACTUAL_POKO_COUNT_OFFSET, v), o + DISPLAY_POKO_COUNT_OFFSET, v)
}

proof fn lemma_value_delta_bounds(b: Seq<u8>, o: int, t: Seq<[i32; 3]>, from: int, to: int, k: nat)
    requires
        k <= t.len(),
        0 <= from < 3,
        0 <= to < 3,
    ensures
        -(k * 0x1_0000_0000) <= value_delta(b, o, t, from, to, k) <= k * 0x1_0000_0000,
    decreases k,
{
    if k > 0 {
        lemma_value_delta_bounds(b, o, t, from, to, (k - 1) as nat);
    }
}

proof fn lemma_value_delta_frame(b1: Seq<u8>, b2: Seq<u8>, o: int, t: Seq<[i32; 3]>, from: int, to: int, k: nat)
    requires
        forall|j: int| 0 <= j < k ==> collected(b1, o, j) == collected(b2, o, j),
    ensures
        value_delta(b1, o, t, from, to, k) == value_delta(b2, o, t, from, to, k),
    decreases k,
{
    if k > 0 {
        lemma_value_delta_frame(b1, b2, o, t, from, to, (k - 1) as nat);
    }
}

proof fn lemma_value_delta_antisymmetric(b: Seq<u8>, o: int, t: Seq<[i32; 3]>, from: int, to: int, k: nat)
    ensures
        value_delta(b, o, t, to, from, k) == -value_delta(b, o, t, from, to, k),
    decreases k,
{
    if k > 0 {
        lemma_value_delta_antisymmetric(b, o, t, from, to, (k - 1) as nat);
    }
}

/// Recalculates the total of the slot at `o` for a move from region `from`
/// to region `to`, writes it to the actual and the displayed total, and
/// returns the signed totals before and after.
pub fn recalculate_slot(b: &mut Vec<u8>, o: usize, table: &Vec<[i32; 3]>, from: Region, to: Region) -> (r: (i32, i32))
    requires
        slot_fits(old(b)@, o as int),
        table@.len() == TREASURE_LIST_LEN,
    ensures
        final(b)@ == with_recalculated_total(old(b)@, o as int, table@, from, to),
        final(b)@.len() == old(b)@.len(),
        r.0 as int == be_i32(old(b)@, o + ACTUAL_POKO_COUNT_OFFSET),
        r.1 as int == as_i32(recalculated_total(old(b)@, o as int, table@, from, to)),
{
    let len = b.len();
    let old_total = read_be_u32(b, o + ACTUAL_POKO_COUNT_OFFSET);
    let fi = from.to_index();
    let ti = to.to_index();
    let mut delta: i64 = 0;
    let mut k: usize = 0;
    while k < TREASURE_LIST_LEN
        invariant
            len == b@.len(),
            slot_fits(b@, o as int),
            table@.len() == TREASURE_LIST_LEN,
            fi == value_index(from),
            ti == value_index(to),
            k <= TREASURE_LIST_LEN,
            delta == value_delta(b@, o as int, table@, fi as int, ti as int, k as nat),
        decreases TREASURE_LIST_LEN - k,
    {
        proof {
            lemma_value_delta_bounds(b@, o as int, table@, fi as int, ti as int, k as nat);
        }
        if b[o + TREASURE_LIST_OFFSET + k] != 0 {
            delta = delta + (table[k][ti] as i64 - table[k][fi] as i64);
        }
        k += 1;
    }
    proof {
        lemma_value_delta_bounds(b@, o as int, table@, fi as int, ti as int, k as nat);
    }
    let shifted: i64 = old_total as i64 + delta + 0x100_0000_0000i64;
    let new_total: u32 = (shifted as u64 % 0x1_0000_0000u64) as u32;
    proof {
        lemma_mod_multiples_vanish(256, old_total + delta, 0x1_0000_0000);
    }
    write_be_u32(b, o + ACTUAL_POKO_COUNT_OFFSET, new_total);
    write_be_u32(b, o + DISPLAY_POKO_COUNT_OFFSET, new_total);
    (to_i32(old_total), to_i32(new_total))
}

/// Converting a slot from one region to another and back restores its actual
/// total, and leaves the displayed total equal to it; where the two totals
/// agreed before, the image comes back byte for byte.
pub proof fn lemma_round_trip(b: Seq<u8>, o: int, t: Seq<[i32; 3]>, a: Region, z: Region)
    requires
        slot_fits(b, o),
        t.len() == TREASURE_LIST_LEN,
    ensures
        ({
            let b2 = with_recalculated_total(with_recalculated_total(b, o, t, a, z), o, t, z, a);
            &&& be_u32(b2, o + ACTUAL_POKO_COUNT_OFFSET) == be_u32(b, o + ACTUAL_POKO_COUNT_OFFSET)
            &&& be_u32(b2, o + DISPLAY_POKO_COUNT_OFFSET) == be_u32(b, o + ACTUAL_POKO_COUNT_OFFSET)
            &&& be_u32(b, o + DISPLAY_POKO_COUNT_OFFSET) == be_u32(b, o + ACTUAL_POKO_COUNT_OFFSET)
                ==> b2 == b
        }),
{
    let act = o + ACTUAL_POKO_COUNT_OFFSET;
    let dis = o + DISPLAY_POKO_COUNT_OFFSET;
    let m: int = 0x1_0000_0000;
    let ia = value_index(a) as int;
    let iz = value_index(z) as int;
    let n = TREASURE_LIST_LEN as nat;
    let u0 = be_u32(b, act);
    let v1 = recalculated_total(b, o, t, a, z);
    let b1 = with_recalculated_total(b, o, t, a, z);
    let x1 = put_be_u32(b, act, v1);
    lemma_be_u32_round_trip(b, act, v1);
    lemma_be_u32_round_trip(x1, dis, v1);
    assert(be_u32(b1, act) == v1);
    assert forall|j: int| 0 <= j < n implies collected(b1, o, j) == collected(b, o, j) by {}
    lemma_value_delta_frame(b1, b, o, t, iz, ia, n);
    lemma_value_delta_antisymmetric(b, o, t, ia, iz, n);
    let d = value_delta(b, o, t, ia, iz, n);
    let v2 = recalculated_total(b1, o, t, z, a);
    assert(v2 == u0) by {
        lemma_add_mod_noop_right(-d, u0 + d, m);
        lemma_small_mod(u0 as nat, m as nat);
        assert(-d + (u0 + d) == u0);
    }
    let b2 = with_recalculated_total(b1, o, t, z, a);
    let x2 = put_be_u32(b1, act, v2);
    lemma_be_u32_round_trip(b1, act, v2);
    lemma_be_u32_round_trip(x2, dis, v2);
    if be_u32(b, dis) == u0 {
        lemma_put_be_u32_same(b, act);
        lemma_put_be_u32_same(b, dis);
        assert(b2 =~= b);
    }
}

} // verus!
