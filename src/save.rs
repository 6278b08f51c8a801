//! The save image: an owned byte arena whose slots are offsets into it.
use vstd::prelude::*;
use crate::checksum::{with_slot_checksum, write_slot_checksum};
use crate::currency::{recalculate_slot, recalculated_total, with_recalculated_total};
use crate::error::SaveError;
use crate::layout::{
    ACTUAL_POKO_COUNT_OFFSET, IMAGE_LEN, REGION_OFFSET, SLOT_COUNT, TREASURE_LIST_LEN, as_i32,
    be_i32, put_be_u32, write_be_u32,
};
use crate::region::{
    Region, lemma_region_codec_bijective, lemma_region_encodings_injective, region_byte,
    region_of_byte,
};
use crate::slots::{find_slot, lemma_slot_discovery, slot_offset};

verus! {

/// One step of the automatic recalculation: slot `n`, if present, converted
/// from region `from` to region `to`.
pub open spec fn recalc_step(b: Seq<u8>, n: int, t: Seq<[i32; 3]>, from: Region, to: Region) -> Seq<u8> {
    match slot_offset(b, n) {
        Some(o) => with_recalculated_total(b, o, t, from, to),
        None => b,
    }
}

/// The image after the automatic recalculation of slots `0..k`, in order.
pub open spec fn recalc_upto(b: Seq<u8>, k: nat, t: Seq<[i32; 3]>, from: Region, to: Region) -> Seq<u8>
    decreases k,
{
    if k == 0 {
        b
    } else {
        recalc_step(recalc_upto(b, (k - 1) as nat, t, from, to), k - 1, t, from, to)
    }
}

/// What the recalculation of slots `0..k` reports: for each present slot, its
/// index and its signed total before and after.
pub open spec fn recalc_report(b: Seq<u8>, k: nat, t: Seq<[i32; 3]>, from: Region, to: Region) -> Seq<(usize, i32, i32)>
    decreases k,
{
    if k == 0 {
        seq![]
    } else {
        let prev = recalc_upto(b, (k - 1) as nat, t, from, to);
        let earlier = recalc_report(b, (k - 1) as nat, t, from, to);
        match slot_offset(prev, k - 1) {
            Some(o) => earlier.push(
                (
                    (k - 1) as usize,
                    be_i32(prev, o + ACTUAL_POKO_COUNT_OFFSET) as i32,
                    as_i32(recalculated_total(prev, o, t, from, to)) as i32,
                ),
            ),
            None => earlier,
        }
    }
}

/// The image after the manual totals `c[0..k]` were stored in the actual
/// totals of slots `0..k`, in order; displayed totals are left alone.
pub open spec fn manual_upto(b: Seq<u8>, c: Seq<u32>, k: nat) -> Seq<u8>
    decreases k,
{
    if k == 0 {
        b
    } else {
        let prev = manual_upto(b, c, (k - 1) as nat);
        match slot_offset(prev, k - 1) {
            Some(o) => put_be_u32(prev, o + ACTUAL_POKO_COUNT_OFFSET, c[k - 1]),
            None => prev,
        }
    }
}

/// The image after the trailers of slots `0..k` were recomputed, in order.
pub open spec fn checksum_upto(b: Seq<u8>, k: nat) -> Seq<u8>
    decreases k,
{
    if k == 0 {
        b
    } else {
        let prev = checksum_upto(b, (k - 1) as nat);
        match slot_offset(prev, k - 1) {
            Some(o) => with_slot_checksum(prev, o),
            None => prev,
        }
    }
}

/// The automatic recalculation writes inside slots only, which start at the
/// earliest at offset 0: the image-global region byte and the length stay.
pub proof fn lemma_recalc_keeps_region(b: Seq<u8>, k: nat, t: Seq<[i32; 3]>, from: Region, to: Region)
    requires
        b.len() == IMAGE_LEN,
    ensures
        recalc_upto(b, k, t, from, to).len() == IMAGE_LEN,
        recalc_upto(b, k, t, from, to)[REGION_OFFSET as int] == b[REGION_OFFSET as int],
    decreases k,
{
    if k > 0 {
        let prev = recalc_upto(b, (k - 1) as nat, t, from, to);
        lemma_recalc_keeps_region(b, (k - 1) as nat, t, from, to);
        lemma_slot_discovery(prev, k - 1);
    }
}

/// Storing manual totals writes inside slots only: the image-global region
/// byte and the length stay.
pub proof fn lemma_manual_keeps_region(b: Seq<u8>, c: Seq<u32>, k: nat)
    requires
        b.len() == IMAGE_LEN,
        k <= c.len(),
    ensures
        manual_upto(b, c, k).len() == IMAGE_LEN,
        manual_upto(b, c, k)[REGION_OFFSET as int] == b[REGION_OFFSET as int],
    decreases k,
{
    if k > 0 {
        let prev = manual_upto(b, c, (k - 1) as nat);
        lemma_manual_keeps_region(b, c, (k - 1) as nat);
        lemma_slot_discovery(prev, k - 1);
    }
}

/// A memory-card save image. Built only by `read`, it always has the fixed
/// length, which its methods ask for and keep.
pub struct SaveFile {
    bytes: Vec<u8>,
}

impl View for SaveFile {
    type V = Seq<u8>;

    closed spec fn view(&self) -> Seq<u8> {
        self.bytes@
    }
}

impl SaveFile {
    /// Takes the raw bytes of an image; any other length than the fixed one
    /// is refused.
    pub fn read(bytes: Vec<u8>) -> (r: Result<SaveFile, SaveError>)
        ensures
            bytes@.len() == IMAGE_LEN ==> (r matches Ok(f) && f@ == bytes@),
            bytes@.len() != IMAGE_LEN ==> r == Err::<SaveFile, SaveError>(SaveError::LengthMismatch),
    {
        if bytes.len() != IMAGE_LEN {
            Err(SaveError::LengthMismatch)
        } else {
            Ok(SaveFile { bytes })
        }
    }

    /// Recomputes the checksum of every present slot and hands back the bytes
    /// to persist.
    pub fn write(&mut self) -> (r: Vec<u8>)
        requires
            old(self)@.len() == IMAGE_LEN,
        ensures
            final(self)@.len() == IMAGE_LEN,
            final(self)@ == checksum_upto(old(self)@, SLOT_COUNT as nat),
            r@ == final(self)@,
    {
        self.recalculate_checksum();
        let mut out: Vec<u8> = Vec::new();
        let len = self.bytes.len();
        let mut i: usize = 0;
        while i < len
            invariant
                len == self.bytes@.len(),
                i <= len,
                out@ == self.bytes@.subrange(0, i as int),
            decreases len - i,
        {
            out.push(self.bytes[i]);
            i += 1;
        }
        assert(out@ =~= self.bytes@);
        out
    }

    /// Converts the currency total of every present slot from the region the
    /// image holds to `region`, writing it to the actual and the displayed
    /// total, and reports each slot's total before and after.
    pub fn recalculate_pokos(&mut self, region: &Region, values: &Vec<[i32; 3]>) -> (r: Result<
        Vec<(usize, i32, i32)>,
        SaveError,
    >)
        requires
            old(self)@.len() == IMAGE_LEN,
            values@.len() == TREASURE_LIST_LEN,
        ensures
            final(self)@.len() == IMAGE_LEN,
            region_of_byte(old(self)@[REGION_OFFSET as int]) is None ==> r == Err::<
                Vec<(usize, i32, i32)>,
                SaveError,
            >(SaveError::UnknownRegion) && final(self)@ == old(self)@,
            region_of_byte(old(self)@[REGION_OFFSET as int]) matches Some(from) ==> (r matches Ok(
                report) && final(self)@ == recalc_upto(old(self)@, SLOT_COUNT as nat, values@, from,
                *region) && report@ == recalc_report(old(self)@, SLOT_COUNT as nat, values@, from,
                *region)),
    {
        let from = match Region::from_byte(self.bytes[REGION_OFFSET]) {
            Ok(r) => r,
            Err(e) => {
                return Err(e);
            },
        };
        let ghost b0 = self.bytes@;
        let mut report: Vec<(usize, i32, i32)> = Vec::new();
        let mut n: usize = 0;
        while n < SLOT_COUNT
            invariant
                n <= SLOT_COUNT,
                values@.len() == TREASURE_LIST_LEN,
                self.bytes@.len() == IMAGE_LEN,
                self.bytes@ == recalc_upto(b0, n as nat, values@, from, *region),
                report@ == recalc_report(b0, n as nat, values@, from, *region),
            decreases SLOT_COUNT - n,
        {
            match find_slot(&self.bytes, n) {
                Some(o) => {
                    let (before, after) = recalculate_slot(&mut self.bytes, o, values, from, *region);
                    report.push((n, before, after));
                },
                None => {},
            }
            n += 1;
        }
        Ok(report)
    }

    /// Stores `counts[n]` in the actual total of each present slot `n`,
    /// leaving the displayed totals as they are. Exactly one value per slot
    /// is required.
    pub fn set_pokos_manually(&mut self, counts: &Vec<u32>) -> (r: Result<(), SaveError>)
        requires
            old(self)@.len() == IMAGE_LEN,
        ensures
            final(self)@.len() == IMAGE_LEN,
            counts@.len() != SLOT_COUNT ==> r == Err::<(), SaveError>(
                SaveError::MalformedOverrideCount,
            ) && final(self)@ == old(self)@,
            counts@.len() == SLOT_COUNT ==> r == Ok::<(), SaveError>(()) && final(self)@
                == manual_upto(old(self)@, counts@, SLOT_COUNT as nat),
    {
        if counts.len() != SLOT_COUNT {
            return Err(SaveError::MalformedOverrideCount);
        }
        let ghost b0 = self.bytes@;
        let mut n: usize = 0;
        while n < SLOT_COUNT
            invariant
                n <= SLOT_COUNT,
                counts@.len() == SLOT_COUNT,
                self.bytes@.len() == IMAGE_LEN,
                self.bytes@ == manual_upto(b0, counts@, n as nat),
            decreases SLOT_COUNT - n,
        {
            match find_slot(&self.bytes, n) {
                Some(o) => {
                    write_be_u32(&mut self.bytes, o + ACTUAL_POKO_COUNT_OFFSET, counts[n]);
                },
                None => {},
            }
            n += 1;
        }
        Ok(())
    }

    /// Stores `region`'s byte as the image's region; asking for the region
    /// the image already holds is refused.
    pub fn set_region(&mut self, region: &Region) -> (r: Result<(), SaveError>)
        requires
            old(self)@.len() == IMAGE_LEN,
        ensures
            final(self)@.len() == IMAGE_LEN,
            old(self)@[REGION_OFFSET as int] == region_byte(*region) ==> r == Err::<(), SaveError>(
                SaveError::RegionUnchanged,
            ) && final(self)@ == old(self)@,
            old(self)@[REGION_OFFSET as int] != region_byte(*region) ==> r == Ok::<(), SaveError>(())
                && final(self)@ == old(self)@.update(REGION_OFFSET as int, region_byte(*region)),
    {
        let byte = region.as_byte();
        if self.bytes[REGION_OFFSET] == byte {
            return Err(SaveError::RegionUnchanged);
        }
        self.bytes.set(REGION_OFFSET, byte);
        Ok(())
    }

    /// Converts the image to `region`: either stores the manual totals
    /// `manual` (one per slot) or recalculates every present slot's total
    /// from the region the image holds, then stores the new region byte.
    /// On success it returns the automatic recalculation's report (empty for
    /// manual totals).
    pub fn convert(&mut self, region: &Region, values: &Vec<[i32; 3]>, manual: &Option<Vec<u32>>) -> (r:
        Result<Vec<(usize, i32, i32)>, SaveError>)
        requires
            old(self)@.len() == IMAGE_LEN,
            values@.len() == TREASURE_LIST_LEN,
        ensures
            final(self)@.len() == IMAGE_LEN,
            manual matches Some(c) ==> (c@.len() != SLOT_COUNT ==> r == Err::<
                Vec<(usize, i32, i32)>,
                SaveError,
            >(SaveError::MalformedOverrideCount)),
            manual matches Some(c) ==> (c@.len() == SLOT_COUNT ==> if old(self)@[REGION_OFFSET as int]
                == region_byte(*region) {
                r == Err::<Vec<(usize, i32, i32)>, SaveError>(SaveError::RegionUnchanged)
            } else {
                r matches Ok(report) && report@.len() == 0 && final(self)@ == manual_upto(
                    old(self)@,
                    c@,
                    SLOT_COUNT as nat,
                ).update(REGION_OFFSET as int, region_byte(*region))
            }),
            manual is None ==> (region_of_byte(old(self)@[REGION_OFFSET as int]) is None ==> r
                == Err::<Vec<(usize, i32, i32)>, SaveError>(SaveError::UnknownRegion)),
            manual is None ==> (region_of_byte(old(self)@[REGION_OFFSET as int]) matches Some(from)
                ==> if from == *region {
                r == Err::<Vec<(usize, i32, i32)>, SaveError>(SaveError::RegionUnchanged)
            } else {
                r matches Ok(report) && report@ == recalc_report(
                    old(self)@,
                    SLOT_COUNT as nat,
                    values@,
                    from,
                    *region,
                ) && final(self)@ == recalc_upto(old(self)@, SLOT_COUNT as nat, values@, from, *region).update(
                    REGION_OFFSET as int,
                    region_byte(*region),
                )
            }),
    {
        let ghost b0 = self@;
        let report = match manual {
            Some(counts) => {
                match self.set_pokos_manually(counts) {
                    Ok(()) => {},
                    Err(e) => {
                        return Err(e);
                    },
                }
                proof {
                    lemma_manual_keeps_region(b0, counts@, SLOT_COUNT as nat);
                }
                Vec::new()
            },
            None => {
                let rep = self.recalculate_pokos(region, values);
                match rep {
                    Ok(rep) => {
                        proof {
                            let from = region_of_byte(b0[REGION_OFFSET as int])->0;
                            lemma_recalc_keeps_region(b0, SLOT_COUNT as nat, values@, from, *region);
                            lemma_region_codec_bijective(from, 0);
                            lemma_region_encodings_injective(from, *region);
                        }
                        rep
                    },
                    Err(e) => {
                        return Err(e);
                    },
                }
            },
        };
        match self.set_region(region) {
            Ok(()) => Ok(report),
            Err(e) => Err(e),
        }
    }

    /// Recomputes the checksum trailer of every present slot.
    pub fn recalculate_checksum(&mut self)
        requires
            old(self)@.len() == IMAGE_LEN,
        ensures
            final(self)@.len() == IMAGE_LEN,
            final(self)@ == checksum_upto(old(self)@, SLOT_COUNT as nat),
    {
        let ghost b0 = self.bytes@;
        let mut n: usize = 0;
        while n < SLOT_COUNT
            invariant
                n <= SLOT_COUNT,
                self.bytes@.len() == IMAGE_LEN,
                self.bytes@ == checksum_upto(b0, n as nat),
            decreases SLOT_COUNT - n,
        {
            match find_slot(&self.bytes, n) {
                Some(o) => {
                    write_slot_checksum(&mut self.bytes, o);
                },
                None => {},
            }
            n += 1;
        }
    }

    /// The offset of slot `file_num`, or `None` when the image holds no such slot.
    pub fn save_slot_data(&self, file_num: usize) -> (r: Option<usize>)
        ensures
            r matches Some(o) ==> slot_offset(self@, file_num as int) == Some(o as int),
            r is None ==> slot_offset(self@, file_num as int) is None,
    {
        find_slot(&self.bytes, file_num)
    }
}

} // verus!
