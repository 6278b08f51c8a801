use p2saveconvert::checksum::checksum;
use p2saveconvert::layout::{
    ACTUAL_POKO_COUNT_OFFSET, DISPLAY_POKO_COUNT_OFFSET, IMAGE_LEN, PAYLOAD_LEN, SLOT_LEN,
    TREASURE_LIST_LEN, TREASURE_LIST_OFFSET,
};
use p2saveconvert::{Region, SaveError, SaveFile};

const MAGIC: &[u8; 8] = b"PlVa0003";

fn blank_image(region: u8) -> Vec<u8> {
    let mut b = vec![0u8; IMAGE_LEN];
    b[3] = region;
    b
}

fn put_signature(b: &mut Vec<u8>, at: usize, slot: u8) {
    b[at..at + 8].copy_from_slice(MAGIC);
    b[at + 8] = slot;
}

fn put_i32(b: &mut Vec<u8>, at: usize, v: i32) {
    b[at..at + 4].copy_from_slice(&v.to_be_bytes());
}

fn get_i32(b: &[u8], at: usize) -> i32 {
    i32::from_be_bytes([b[at], b[at + 1], b[at + 2], b[at + 3]])
}

fn zero_table() -> Vec<[i32; 3]> {
    vec![[0, 0, 0]; TREASURE_LIST_LEN]
}

#[test]
fn region_bytes_and_indices() {
    assert_eq!(Region::US.as_byte(), b'E');
    assert_eq!(Region::JP.as_byte(), b'J');
    assert_eq!(Region::PAL.as_byte(), b'P');
    assert_eq!(Region::US.to_index(), 0);
    assert_eq!(Region::PAL.to_index(), 1);
    assert_eq!(Region::JP.to_index(), 2);
}

#[test]
fn region_codec_round_trips() {
    for r in [Region::US, Region::JP, Region::PAL] {
        assert_eq!(Region::from_byte(r.as_byte()), Ok(r));
    }
    for b in 0u8..=255 {
        if b != b'E' && b != b'J' && b != b'P' {
            assert_eq!(Region::from_byte(b), Err(SaveError::UnknownRegion));
        }
    }
}

#[test]
fn region_names() {
    for n in ["j", "jp", "JPN", "ntsc-j", "NTSC_J"] {
        assert_eq!(Region::from_name(n), Ok(Region::JP));
    }
    for n in ["u", "US", "usa", "ntsc-u", "ntsc_u"] {
        assert_eq!(Region::from_name(n), Ok(Region::US));
    }
    for n in ["p", "E", "pal", "Eur"] {
        assert_eq!(Region::from_name(n), Ok(Region::PAL));
    }
    for n in ["", "japan", "pa", "ntsc", "usa "] {
        assert_eq!(Region::from_name(n), Err(SaveError::UnknownRegion));
    }
    assert_eq!("Pal".parse::<Region>(), Ok(Region::PAL));
}

#[test]
fn load_rejects_wrong_length() {
    assert!(matches!(SaveFile::read(vec![0u8; 100]), Err(SaveError::LengthMismatch)));
    assert!(matches!(SaveFile::read(vec![0u8; IMAGE_LEN + 1]), Err(SaveError::LengthMismatch)));
    assert!(SaveFile::read(vec![0u8; IMAGE_LEN]).is_ok());
}

#[test]
fn slot_discovery() {
    let mut b = blank_image(b'E');
    put_signature(&mut b, 0x2000, 0);
    put_signature(&mut b, 0x20000, 2);
    put_signature(&mut b, 0x1000, 3);
    let f = SaveFile::read(b).ok().unwrap();
    assert_eq!(f.save_slot_data(0), Some(0x2000));
    assert_eq!(f.save_slot_data(1), None);
    assert_eq!(f.save_slot_data(2), Some(0x20000));
    assert_eq!(f.save_slot_data(3), Some(0x1000));
}

#[test]
fn slot_discovery_first_match_wins() {
    let mut b = blank_image(b'E');
    put_signature(&mut b, 0x8000, 1);
    put_signature(&mut b, 0x400, 1);
    let f = SaveFile::read(b).ok().unwrap();
    assert_eq!(f.save_slot_data(1), Some(0x400));
}

#[test]
fn slot_discovery_needs_room_for_a_slot() {
    let mut b = blank_image(b'E');
    put_signature(&mut b, IMAGE_LEN - SLOT_LEN + 1, 0);
    put_signature(&mut b, IMAGE_LEN - SLOT_LEN, 1);
    let f = SaveFile::read(b).ok().unwrap();
    assert_eq!(f.save_slot_data(0), None);
    assert_eq!(f.save_slot_data(1), Some(IMAGE_LEN - SLOT_LEN));
}

#[test]
fn currency_math_us_to_pal() {
    let o = 0x100;
    let mut b = blank_image(b'E');
    put_signature(&mut b, o, 0);
    put_i32(&mut b, o + ACTUAL_POKO_COUNT_OFFSET, 1000);
    put_i32(&mut b, o + DISPLAY_POKO_COUNT_OFFSET, 1000);
    b[o + TREASURE_LIST_OFFSET + 7] = 1;
    let mut table = zero_table();
    table[7] = [50, 40, 45];
    table[8] = [1000, 2000, 3000];
    let mut f = SaveFile::read(b).ok().unwrap();
    let report = f.recalculate_pokos(&Region::PAL, &table).ok().unwrap();
    assert_eq!(report, vec![(0, 1000, 990)]);
    let out = f.write();
    assert_eq!(get_i32(&out, o + ACTUAL_POKO_COUNT_OFFSET), 990);
    assert_eq!(get_i32(&out, o + DISPLAY_POKO_COUNT_OFFSET), 990);
}

#[test]
fn currency_math_jp_to_us_over_several_items() {
    let o = 0x4000;
    let mut b = blank_image(b'J');
    put_signature(&mut b, o, 1);
    put_i32(&mut b, o + ACTUAL_POKO_COUNT_OFFSET, 5);
    put_i32(&mut b, o + DISPLAY_POKO_COUNT_OFFSET, 77);
    b[o + TREASURE_LIST_OFFSET] = 1;
    b[o + TREASURE_LIST_OFFSET + 187] = 200;
    let mut table = zero_table();
    table[0] = [10, 20, 30];
    table[187] = [100, 0, 1];
    table[5] = [9, 9, 9];
    let mut f = SaveFile::read(b).ok().unwrap();
    let report = f.recalculate_pokos(&Region::US, &table).ok().unwrap();
    // 5 - 30 + 10 - 1 + 100
    assert_eq!(report, vec![(1, 5, 84)]);
    let out = f.write();
    assert_eq!(get_i32(&out, o + ACTUAL_POKO_COUNT_OFFSET), 84);
    assert_eq!(get_i32(&out, o + DISPLAY_POKO_COUNT_OFFSET), 84);
}

#[test]
fn currency_total_wraps_as_a_32_bit_field() {
    let o = 0x10;
    let mut b = blank_image(b'E');
    put_signature(&mut b, o, 2);
    put_i32(&mut b, o + ACTUAL_POKO_COUNT_OFFSET, i32::MAX);
    b[o + TREASURE_LIST_OFFSET + 3] = 1;
    let mut table = zero_table();
    table[3] = [0, 1, 0];
    let mut f = SaveFile::read(b).ok().unwrap();
    let report = f.recalculate_pokos(&Region::PAL, &table).ok().unwrap();
    assert_eq!(report, vec![(2, i32::MAX, i32::MIN)]);
}

#[test]
fn recalculation_needs_a_known_region() {
    let mut b = blank_image(b'X');
    put_signature(&mut b, 0x100, 0);
    let mut f = SaveFile::read(b.clone()).ok().unwrap();
    assert_eq!(f.recalculate_pokos(&Region::US, &zero_table()), Err(SaveError::UnknownRegion));
    assert_eq!(f.write()[..PAYLOAD_LEN], b[..PAYLOAD_LEN]);
}

#[test]
fn recalculation_without_slots_reports_nothing() {
    let b = blank_image(b'P');
    let mut f = SaveFile::read(b.clone()).ok().unwrap();
    assert_eq!(f.recalculate_pokos(&Region::JP, &zero_table()), Ok(vec![]));
    assert_eq!(f.write(), b);
}

#[test]
fn checksum_of_two_bytes() {
    assert_eq!(checksum(&vec![0x00, 0x01], 0, 2), (1, 0xFFFE));
    let (c1, c2) = checksum(&vec![0x00, 0x01], 0, 2);
    let mut trailer = c1.to_be_bytes().to_vec();
    trailer.extend_from_slice(&c2.to_be_bytes());
    assert_eq!(trailer, vec![0x00, 0x01, 0xFF, 0xFE]);
}

#[test]
fn checksum_clamps_all_ones() {
    assert_eq!(checksum(&vec![0xFF, 0xFF], 0, 2), (0, 0));
    assert_eq!(checksum(&vec![0x00, 0x00], 0, 2), (0, 0));
    assert_eq!(checksum(&vec![0x12, 0x34, 0x00, 0x01], 0, 4), (0x1235, 0xEDC9));
    assert_eq!(checksum(&vec![9, 0x12, 0x34, 0x00, 0x01, 7], 1, 4), (0x1235, 0xEDC9));
    assert_eq!(checksum(&vec![0xFF, 0xFF, 0x00, 0x02], 0, 4), (1, 0xFFFD));
    assert_eq!(checksum(&vec![0x00, 0x01, 0x05], 0, 3), (1, 0xFFFE));
}

#[test]
fn write_fills_the_trailer() {
    let o = 0x1000;
    let mut b = blank_image(b'E');
    put_signature(&mut b, o, 0);
    let mut f = SaveFile::read(b.clone()).ok().unwrap();
    let out = f.write();
    let (c1, c2) = checksum(&b, o, PAYLOAD_LEN);
    let t = o + PAYLOAD_LEN;
    assert_eq!(out[t..t + 4], [(c1 >> 8) as u8, c1 as u8, (c2 >> 8) as u8, c2 as u8]);
    // the payload words are the signature's and the zeros
    let words: u32 = 0x506C + 0x5661 + 0x3030 + 0x3033;
    let n_words: u32 = (PAYLOAD_LEN / 2) as u32;
    assert_eq!(c1 as u32, words % 65536);
    assert_eq!(c2 as u32, (n_words * 0xFFFF - words) % 65536);
    assert_ne!(out, b);
}

#[test]
fn checksum_is_idempotent() {
    let o = 0x20;
    let mut b = blank_image(b'E');
    put_signature(&mut b, o, 0);
    b[o + 0x300] = 0xAB;
    let mut f = SaveFile::read(b).ok().unwrap();
    let first = f.write();
    let second = f.write();
    assert_eq!(first, second);
}

#[test]
fn manual_override_leaves_displayed_totals() {
    let offsets = [0x100usize, 0xD000, 0x1A000];
    let mut b = blank_image(b'E');
    for (n, o) in offsets.iter().enumerate() {
        put_signature(&mut b, *o, n as u8);
        put_i32(&mut b, o + ACTUAL_POKO_COUNT_OFFSET, 500);
        put_i32(&mut b, o + DISPLAY_POKO_COUNT_OFFSET, 600 + n as i32);
    }
    let mut f = SaveFile::read(b).ok().unwrap();
    assert_eq!(f.set_pokos_manually(&vec![10, 20, 30]), Ok(()));
    let out = f.write();
    for (n, o) in offsets.iter().enumerate() {
        assert_eq!(get_i32(&out, o + ACTUAL_POKO_COUNT_OFFSET), 10 * (n as i32 + 1));
        assert_eq!(get_i32(&out, o + DISPLAY_POKO_COUNT_OFFSET), 600 + n as i32);
    }
}

#[test]
fn manual_override_needs_three_values() {
    let b = blank_image(b'E');
    let mut f = SaveFile::read(b).ok().unwrap();
    assert_eq!(f.set_pokos_manually(&vec![1, 2]), Err(SaveError::MalformedOverrideCount));
    assert_eq!(f.set_pokos_manually(&vec![1, 2, 3, 4]), Err(SaveError::MalformedOverrideCount));
    let mut f2 = SaveFile::read(blank_image(b'E')).ok().unwrap();
    assert_eq!(
        f2.convert(&Region::JP, &zero_table(), &Some(vec![1])),
        Err(SaveError::MalformedOverrideCount)
    );
}

#[test]
fn set_region_rejects_same_region() {
    let mut f = SaveFile::read(blank_image(b'P')).ok().unwrap();
    assert_eq!(f.set_region(&Region::PAL), Err(SaveError::RegionUnchanged));
    assert_eq!(f.set_region(&Region::US), Ok(()));
    assert_eq!(f.write()[3], b'E');
}

#[test]
fn convert_rejects_same_region() {
    let mut b = blank_image(b'J');
    put_signature(&mut b, 0x100, 0);
    let mut f = SaveFile::read(b).ok().unwrap();
    assert_eq!(f.convert(&Region::JP, &zero_table(), &None), Err(SaveError::RegionUnchanged));
    let mut g = SaveFile::read(blank_image(b'J')).ok().unwrap();
    assert_eq!(
        g.convert(&Region::JP, &zero_table(), &Some(vec![1, 2, 3])),
        Err(SaveError::RegionUnchanged)
    );
}

#[test]
fn convert_round_trip_restores_totals() {
    let o = 0x600;
    let mut b = blank_image(b'E');
    put_signature(&mut b, o, 0);
    put_i32(&mut b, o + ACTUAL_POKO_COUNT_OFFSET, 1234);
    put_i32(&mut b, o + DISPLAY_POKO_COUNT_OFFSET, 1234);
    for k in [0usize, 4, 99, 187] {
        b[o + TREASURE_LIST_OFFSET + k] = 1;
    }
    let mut table = zero_table();
    for k in 0..TREASURE_LIST_LEN {
        table[k] = [k as i32 * 3, k as i32 * 5 - 100, 7 - k as i32];
    }
    let mut f = SaveFile::read(b.clone()).ok().unwrap();
    let there = f.convert(&Region::JP, &table, &None).ok().unwrap();
    assert_eq!(there, vec![(0, 1234, 1234 - (0 + 12 + 297 + 561) + (7 + 3 - 92 - 180))]);
    let back = f.convert(&Region::US, &table, &None).ok().unwrap();
    assert_eq!(back, vec![(0, 1234 - (0 + 12 + 297 + 561) + (7 + 3 - 92 - 180), 1234)]);
    let out = f.write();
    assert_eq!(get_i32(&out, o + ACTUAL_POKO_COUNT_OFFSET), 1234);
    assert_eq!(get_i32(&out, o + DISPLAY_POKO_COUNT_OFFSET), 1234);
    assert_eq!(out[..o + PAYLOAD_LEN], b[..o + PAYLOAD_LEN]);
}

#[test]
fn error_messages_are_not_empty() {
    for e in [
        SaveError::LengthMismatch,
        SaveError::UnknownRegion,
        SaveError::RegionUnchanged,
        SaveError::DestinationExists,
        SaveError::MalformedOverrideCount,
        SaveError::WriteError,
    ] {
        assert!(!e.message().is_empty());
    }
}
