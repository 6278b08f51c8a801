use vstd::prelude::*;
use vstd::string::StringSliceAdditionalSpecFns;
use crate::error::SaveError;

verus! {

/// A game release region.
#[derive(Debug, Clone, Copy, PartialEq, Eq, Hash, Structural)]
pub enum Region {
    US,
    JP,
    PAL,
}

/// The byte that encodes a region at the image's region offset.
pub open spec fn region_byte(r: Region) -> u8 {
    match r {
        Region::US => 0x45u8,  // 'E'
        Region::JP => 0x4Au8,  // 'J'
        Region::PAL => 0x50u8,  // 'P'
    }
}

/// The column of a region in the treasure value table, whose columns are
/// ordered US, PAL, JP.
pub open spec fn value_index(r: Region) -> nat {
    match r {
        Region::US => 0,
        Region::PAL => 1,
        Region::JP => 2,
    }
}

/// The region a byte encodes, if any.
pub open spec fn region_of_byte(b: u8) -> Option<Region> {
    if b == 0x45u8 {
        Some(Region::US)
    } else if b == 0x4Au8 {
        Some(Region::JP)
    } else if b == 0x50u8 {
        Some(Region::PAL)
    } else {
        None
    }
}


/// ASCII lower-casing of one byte; other bytes are kept.
pub open spec fn ascii_lower(c: u8) -> u8 {
    if 0x41u8 <= c && c <= 0x5Au8 {
        (c + 32) as u8
    } else {
        c
    }
}

/// Whether `s` spells `w` when upper-case ASCII letters are read as lower-case.
pub open spec fn spells(s: Seq<u8>, w: Seq<u8>) -> bool {
    s.len() == w.len() && forall|i: int| 0 <= i < s.len() ==> ascii_lower(#[trigger] s[i]) == w[i]
}

/// Whether `s` is a name of JP: "j", "jp", "jpn", "ntsc-j", "ntsc_j", in any ASCII case.
pub open spec fn names_jp(s: Seq<u8>) -> bool {
    ||| spells(s, seq![0x6Au8])  // "j"
    ||| spells(s, seq![0x6Au8, 0x70u8])  // "jp"
    ||| spells(s, seq![0x6Au8, 0x70u8, 0x6Eu8])  // "jpn"
    ||| spells(s, seq![0x6Eu8, 0x74u8, 0x73u8, 0x63u8, 0x2Du8, 0x6Au8])  // "ntsc-j"
    ||| spells(s, seq![0x6Eu8, 0x74u8, 0x73u8, 0x63u8, 0x5Fu8, 0x6Au8])  // "ntsc_j"
}

/// Whether `s` is a name of US: "u", "us", "usa", "ntsc-u", "ntsc_u", in any ASCII case.
pub open spec fn names_us(s: Seq<u8>) -> bool {
    ||| spells(s, seq![0x75u8])  // "u"
    ||| spells(s, seq![0x75u8, 0x73u8])  // "us"
    ||| spells(s, seq![0x75u8, 0x73u8, 0x61u8])  // "usa"
    ||| spells(s, seq![0x6Eu8, 0x74u8, 0x73u8, 0x63u8, 0x2Du8, 0x75u8])  // "ntsc-u"
    ||| spells(s, seq![0x6Eu8, 0x74u8, 0x73u8, 0x63u8, 0x5Fu8, 0x75u8])  // "ntsc_u"
}

/// Whether `s` is a name of PAL: "p", "e", "pal", "eur", in any ASCII case.
pub open spec fn names_pal(s: Seq<u8>) -> bool {
    ||| spells(s, seq![0x70u8])  // "p"
    ||| spells(s, seq![0x65u8])  // "e"
    ||| spells(s, seq![0x70u8, 0x61u8, 0x6Cu8])  // "pal"
    ||| spells(s, seq![0x65u8, 0x75u8, 0x72u8])  // "eur"
}

/// The region a free-form name denotes, ignoring ASCII case.
pub open spec fn region_of_name(s: Seq<u8>) -> Option<Region> {
    if names_jp(s) {
        Some(Region::JP)
    } else if names_us(s) {
        Some(Region::US)
    } else if names_pal(s) {
        Some(Region::PAL)
    } else {
        None
    }
}

fn lower(c: u8) -> (r: u8)
    ensures
        r == ascii_lower(c),
{
    if 0x41u8 <= c && c <= 0x5Au8 {
        c + 32
    } else {
        c
    }
}

fn spells_word(s: &[u8], w: &Vec<u8>) -> (r: bool)
    ensures
        r == spells(s@, w@),
{
    if s.len() != w.len() {
        return false;
    }
    let mut i: usize = 0;
    while i < s.len()
        invariant
            s@.len() == w@.len(),
            i <= s@.len(),
            forall|j: int| 0 <= j < i ==> ascii_lower(#[trigger] s@[j]) == w@[j],
        decreases s@.len() - i,
    {
        if lower(s[i]) != w[i] {
            return false;
        }
        i += 1;
    }
    true
}

fn is_jp_name(s: &[u8]) -> (r: bool)
    ensures
        r == names_jp(s@),
{
    spells_word(s, &vec![0x6Au8])  // "j"
        || spells_word(s, &vec![0x6Au8, 0x70u8])  // "jp"
        || spells_word(s, &vec![0x6Au8, 0x70u8, 0x6Eu8])  // "jpn"
        || spells_word(s, &vec![0x6Eu8, 0x74u8, 0x73u8, 0x63u8, 0x2Du8, 0x6Au8])  // "ntsc-j"
        || spells_word(s, &vec![0x6Eu8, 0x74u8, 0x73u8, 0x63u8, 0x5Fu8, 0x6Au8])  // "ntsc_j"
}

fn is_us_name(s: &[u8]) -> (r: bool)
    ensures
        r == names_us(s@),
{
    spells_word(s, &vec![0x75u8])  // "u"
        || spells_word(s, &vec![0x75u8, 0x73u8])  // "us"
        || spells_word(s, &vec![0x75u8, 0x73u8, 0x61u8])  // "usa"
        || spells_word(s, &vec![0x6Eu8, 0x74u8, 0x73u8, 0x63u8, 0x2Du8, 0x75u8])  // "ntsc-u"
        || spells_word(s, &vec![0x6Eu8, 0x74u8, 0x73u8, 0x63u8, 0x5Fu8, 0x75u8])  // "ntsc_u"
}

fn is_pal_name(s: &[u8]) -> (r: bool)
    ensures
        r == names_pal(s@),
{
    spells_word(s, &vec![0x70u8])  // "p"
        || spells_word(s, &vec![0x65u8])  // "e"
        || spells_word(s, &vec![0x70u8, 0x61u8, 0x6Cu8])  // "pal"
        || spells_word(s, &vec![0x65u8, 0x75u8, 0x72u8])  // "eur"
}

impl Region {
    pub fn as_byte(&self) -> (r: u8)
        ensures
            r == region_byte(*self),
    {
        match self {
            Region::US => 0x45u8,
            Region::JP => 0x4Au8,
            Region::PAL => 0x50u8,
        }
    }

    pub fn to_index(&self) -> (r: usize)
        ensures
            r == value_index(*self),
            r < 3,
    {
        match self {
            Region::US => 0,
            Region::PAL => 1,
            Region::JP => 2,
        }
    }

    pub fn from_byte(byte: u8) -> (r: Result<Region, SaveError>)
        ensures
            region_of_byte(byte) is Some ==> r == Ok::<Region, SaveError>(region_of_byte(byte)->0),
            region_of_byte(byte) is None ==> r == Err::<Region, SaveError>(SaveError::UnknownRegion),
    {
        match byte {
            0x45u8 => Ok(Region::US),
            0x4Au8 => Ok(Region::JP),
            0x50u8 => Ok(Region::PAL),
            _ => Err(SaveError::UnknownRegion),
        }
    }
    /// Reads a free-form region name, ignoring ASCII case.
    pub fn from_name(name: &str) -> (r: Result<Region, SaveError>)
        ensures
            region_of_name(name.spec_bytes()) matches Some(g) ==> r == Ok::<Region, SaveError>(g),
            region_of_name(name.spec_bytes()) is None ==> r == Err::<Region, SaveError>(
                SaveError::UnknownRegion,
            ),
    {
        let s = name.as_bytes();
        if is_jp_name(s) {
            Ok(Region::JP)
        } else if is_us_name(s) {
            Ok(Region::US)
        } else if is_pal_name(s) {
            Ok(Region::PAL)
        } else {
            Err(SaveError::UnknownRegion)
        }
    }
}

impl std::str::FromStr for Region {
    type Err = SaveError;

    fn from_str(s: &str) -> Result<Region, SaveError> {
        Region::from_name(s)
    }
}

/// Decoding a region's byte gives the region back, and exactly the three
/// region bytes decode at all.
pub proof fn lemma_region_codec_bijective(r: Region, b: u8)
    ensures
        region_of_byte(region_byte(r)) == Some(r),
        region_of_byte(b) is Some <==> (b == 0x45u8 || b == 0x4Au8 || b == 0x50u8),
        region_of_byte(b) is Some ==> region_byte(region_of_byte(b)->0) == b,
{
}

/// Distinct regions have distinct bytes and distinct value-table columns.
pub proof fn lemma_region_encodings_injective(r1: Region, r2: Region)
    ensures
        region_byte(r1) == region_byte(r2) <==> r1 == r2,
        value_index(r1) == value_index(r2) <==> r1 == r2,
{
}

} // verus!
