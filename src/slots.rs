//! Locating save slots by their signature.
use vstd::prelude::*;
use crate::layout::SLOT_LEN;

verus! {

/// Whether the slot signature ("PlVa0003", then the slot index `n`) starts at `i`.
pub open spec fn signature_at(b: Seq<u8>, i: int, n: int) -> bool {
    &&& 0 <= i
    &&& i + 9 <= b.len()
    &&& b[i] == 0x50u8 && b[i + 1] == 0x6Cu8 && b[i + 2] == 0x56u8 && b[i + 3] == 0x61u8
    &&& b[i + 4] == 0x30u8 && b[i + 5] == 0x30u8 && b[i + 6] == 0x30u8 && b[i + 7] == 0x33u8
    &&& b[i + 8] == n
}

/// Whether a whole slot starting at `i` lies inside the image.
pub open spec fn slot_fits(b: Seq<u8>, i: int) -> bool {
    0 <= i && i + SLOT_LEN <= b.len()
}

/// The lowest offset from `i` on where slot `n` starts, if any.
pub open spec fn first_slot_from(b: Seq<u8>, n: int, i: int) -> Option<int>
    decreases b.len() - i,
{
    if !slot_fits(b, i) {
        None
    } else if signature_at(b, i, n) {
        Some(i)
    } else {
        first_slot_from(b, n, i + 1)
    }
}

/// Where slot `n` starts: the lowest offset holding its signature with a
/// whole slot behind it. A signature too close to the end of the image to
/// hold a slot does not count.
pub open spec fn slot_offset(b: Seq<u8>, n: int) -> Option<int> {
    first_slot_from(b, n, 0)
}

proof fn lemma_first_slot_from(b: Seq<u8>, n: int, i: int)
    requires
        0 <= i,
    ensures
        first_slot_from(b, n, i) is Some ==> {
            let o = first_slot_from(b, n, i)->0;
            &&& i <= o
            &&& slot_fits(b, o)
            &&& signature_at(b, o, n)
            &&& forall|j: int| i <= j < o ==> !signature_at(b, j, n)
        },
        first_slot_from(b, n, i) is None ==> forall|j: int|
            i <= j && slot_fits(b, j) ==> !signature_at(b, j, n),
    decreases b.len() - i,
{
    if slot_fits(b, i) && !signature_at(b, i, n) {
        lemma_first_slot_from(b, n, i + 1);
    }
}

/// A slot is found for index `n` exactly when its signature stands somewhere
/// with a whole slot behind it, and then the lowest such offset is the one found.
pub proof fn lemma_slot_discovery(b: Seq<u8>, n: int)
    ensures
        slot_offset(b, n) is Some <==> exists|i: int| slot_fits(b, i) && signature_at(b, i, n),
        slot_offset(b, n) is Some ==> {
            let o = slot_offset(b, n)->0;
            &&& slot_fits(b, o)
            &&& signature_at(b, o, n)
            &&& forall|j: int| 0 <= j < o ==> !signature_at(b, j, n)
        },
{
    lemma_first_slot_from(b, n, 0);
    if slot_offset(b, n) is Some {
        let o = slot_offset(b, n)->0;
        assert(slot_fits(b, o) && signature_at(b, o, n));
    }
}

/// Whether the slot signature for slot `n` starts at `i`.
fn is_signature(b: &Vec<u8>, i: usize, n: usize) -> (r: bool)
    requires
        i + 9 <= b@.len(),
    ensures
        r == signature_at(b@, i as int, n as int),
{
    let _len = b.len();
    b[i] == 0x50u8 && b[i + 1] == 0x6Cu8 && b[i + 2] == 0x56u8 && b[i + 3] == 0x61u8 && b[i + 4]
        == 0x30u8 && b[i + 5] == 0x30u8 && b[i + 6] == 0x30u8 && b[i + 7] == 0x33u8 && b[i + 8]
        as usize == n
}

/// Scans the image for slot `n`: the offset of its first signature, or `None`
/// when the image holds no such slot.
pub fn find_slot(b: &Vec<u8>, n: usize) -> (r: Option<usize>)
    ensures
        r matches Some(o) ==> slot_offset(b@, n as int) == Some(o as int) && slot_fits(b@, o as int),
        r is None ==> slot_offset(b@, n as int) is None,
{
    let len = b.len();
    if len < SLOT_LEN {
        assert(!slot_fits(b@, 0));
        return None;
    }
    let mut i: usize = 0;
    while i <= len - SLOT_LEN
        invariant
            len == b@.len(),
            SLOT_LEN <= len,
            i <= len - SLOT_LEN + 1,
            first_slot_from(b@, n as int, 0) == first_slot_from(b@, n as int, i as int),
        decreases len - i,
    {
        if is_signature(b, i, n) {
            return Some(i);
        }
        i += 1;
    }
    None
}

} // verus!
