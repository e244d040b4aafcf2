use vstd::prelude::*;

verus! {

/// An exact fraction `num / den` as recorded in image metadata. A zero
/// denominator stands for a value that is not finite.
#[derive(Clone, Copy, Debug, PartialEq, Eq, Structural)]
pub struct Ratio {
    pub num: i64,
    pub den: i64,
}

/// The metadata tags that exposure grouping reads; every other tag is `Other`.
#[derive(Clone, Copy, Debug, PartialEq, Eq, Structural)]
pub enum Tag {
    FNumber,
    ExposureTime,
    IsoSpeedRatings,
    Other,
}

/// The typed payload of a metadata entry. Every payload is a sequence of
/// components. Text, opaque bytes and floating-point payloads are `Other`:
/// this library holds no floating-point values, so it reads no number from them.
pub enum TagValue {
    U8(Vec<u8>),
    U16(Vec<u16>),
    U32(Vec<u32>),
    I8(Vec<i8>),
    I16(Vec<i16>),
    I32(Vec<i32>),
    /// Unsigned fractions, as (numerator, denominator).
    URational(Vec<(u32, u32)>),
    /// Signed fractions, as (numerator, denominator).
    IRational(Vec<(i32, i32)>),
    Other,
}

/// One tagged metadata entry of an image.
pub struct Entry {
    pub tag: Tag,
    pub value: TagValue,
}

/// The exposure settings of one image, as recorded.
#[derive(Clone, Copy, Debug, PartialEq, Eq, Structural)]
pub struct Exposure {
    /// The f-number.
    pub aperture: Ratio,
    /// The exposure time in seconds.
    pub shutter: Ratio,
    /// The sensitivity (ISO speed).
    pub iso: u32,
}

/// The first component of a payload as a number, if it has one.
pub open spec fn number_of(v: TagValue) -> Option<Ratio> {
    match v {
        TagValue::U8(xs) => if xs@.len() > 0 { Some(Ratio { num: xs@[0] as i64, den: 1 }) } else { None },
        TagValue::U16(xs) => if xs@.len() > 0 { Some(Ratio { num: xs@[0] as i64, den: 1 }) } else { None },
        TagValue::U32(xs) => if xs@.len() > 0 { Some(Ratio { num: xs@[0] as i64, den: 1 }) } else { None },
        TagValue::I8(xs) => if xs@.len() > 0 { Some(Ratio { num: xs@[0] as i64, den: 1 }) } else { None },
        TagValue::I16(xs) => if xs@.len() > 0 { Some(Ratio { num: xs@[0] as i64, den: 1 }) } else { None },
        TagValue::I32(xs) => if xs@.len() > 0 { Some(Ratio { num: xs@[0] as i64, den: 1 }) } else { None },
        TagValue::URational(xs) => if xs@.len() > 0 {
            Some(Ratio { num: xs@[0].0 as i64, den: xs@[0].1 as i64 })
        } else {
            None
        },
        TagValue::IRational(xs) => if xs@.len() > 0 {
            Some(Ratio { num: xs@[0].0 as i64, den: xs@[0].1 as i64 })
        } else {
            None
        },
        TagValue::Other => None,
    }
}

/// The first component of a 16- or 32-bit unsigned payload, widened.
pub open spec fn sensitivity_of(v: TagValue) -> Option<u32> {
    match v {
        TagValue::U16(xs) => if xs@.len() > 0 { Some(xs@[0] as u32) } else { None },
        TagValue::U32(xs) => if xs@.len() > 0 { Some(xs@[0]) } else { None },
        _ => None,
    }
}

/// The number read from the first entry tagged `tag`; none when there is no
/// such entry or its payload has no number. Later entries with the tag are
/// never read.
pub open spec fn find_number(s: Seq<Entry>, tag: Tag) -> Option<Ratio>
    decreases s.len(),
{
    if s.len() == 0 {
        None
    } else if s[0].tag == tag {
        number_of(s[0].value)
    } else {
        find_number(s.drop_first(), tag)
    }
}

/// The sensitivity read from the first sensitivity entry; none when there is
/// no such entry or its payload is not a non-empty 16- or 32-bit unsigned one.
/// Later sensitivity entries are never read.
pub open spec fn find_sensitivity(s: Seq<Entry>) -> Option<u32>
    decreases s.len(),
{
    if s.len() == 0 {
        None
    } else if s[0].tag == Tag::IsoSpeedRatings {
        sensitivity_of(s[0].value)
    } else {
        find_sensitivity(s.drop_first())
    }
}

/// The first entry tagged `tag`, if any.
pub open spec fn first_tagged(s: Seq<Entry>, tag: Tag) -> Option<Entry>
    decreases s.len(),
{
    if s.len() == 0 {
        None
    } else if s[0].tag == tag {
        Some(s[0])
    } else {
        first_tagged(s.drop_first(), tag)
    }
}

pub proof fn lemma_find_number_first(s: Seq<Entry>, tag: Tag)
    ensures
        find_number(s, tag) == match first_tagged(s, tag) {
            Some(e) => number_of(e.value),
            None => None,
        },
    decreases s.len(),
{
    if s.len() > 0 && s[0].tag != tag {
        lemma_find_number_first(s.drop_first(), tag);
    }
}

pub proof fn lemma_find_sensitivity_first(s: Seq<Entry>)
    ensures
        find_sensitivity(s) == match first_tagged(s, Tag::IsoSpeedRatings) {
            Some(e) => sensitivity_of(e.value),
            None => None,
        },
    decreases s.len(),
{
    if s.len() > 0 && s[0].tag != Tag::IsoSpeedRatings {
        lemma_find_sensitivity_first(s.drop_first());
    }
}

/// Only the first entry of each of the three tags decides what is extracted:
/// two entry lists that agree on those agree on the result, whatever else
/// they hold and in whatever order.
pub proof fn lemma_only_first_entries_matter(s1: Seq<Entry>, s2: Seq<Entry>)
    requires
        first_tagged(s1, Tag::FNumber) == first_tagged(s2, Tag::FNumber),
        first_tagged(s1, Tag::ExposureTime) == first_tagged(s2, Tag::ExposureTime),
        first_tagged(s1, Tag::IsoSpeedRatings) == first_tagged(s2, Tag::IsoSpeedRatings),
    ensures
        exposure_of(s1) == exposure_of(s2),
{
    lemma_find_number_first(s1, Tag::FNumber);
    lemma_find_number_first(s2, Tag::FNumber);
    lemma_find_number_first(s1, Tag::ExposureTime);
    lemma_find_number_first(s2, Tag::ExposureTime);
    lemma_find_sensitivity_first(s1);
    lemma_find_sensitivity_first(s2);
}

/// The exposure settings of an image: present only when all three are.
pub open spec fn exposure_of(s: Seq<Entry>) -> Option<Exposure> {
    match (find_number(s, Tag::FNumber), find_number(s, Tag::ExposureTime), find_sensitivity(s)) {
        (Some(a), Some(t), Some(i)) => Some(Exposure { aperture: a, shutter: t, iso: i }),
        _ => None,
    }
}

/// The first component of a payload as a number, if it has one.
pub fn read_number(v: &TagValue) -> (r: Option<Ratio>)
    ensures
        r == number_of(*v),
{
    match v {
        TagValue::U8(xs) => if xs.len() > 0 { Some(Ratio { num: xs[0] as i64, den: 1 }) } else { None },
        TagValue::U16(xs) => if xs.len() > 0 { Some(Ratio { num: xs[0] as i64, den: 1 }) } else { None },
        TagValue::U32(xs) => if xs.len() > 0 { Some(Ratio { num: xs[0] as i64, den: 1 }) } else { None },
        TagValue::I8(xs) => if xs.len() > 0 { Some(Ratio { num: xs[0] as i64, den: 1 }) } else { None },
        TagValue::I16(xs) => if xs.len() > 0 { Some(Ratio { num: xs[0] as i64, den: 1 }) } else { None },
        TagValue::I32(xs) => if xs.len() > 0 { Some(Ratio { num: xs[0] as i64, den: 1 }) } else { None },
        TagValue::URational(xs) => if xs.len() > 0 {
            Some(Ratio { num: xs[0].0 as i64, den: xs[0].1 as i64 })
        } else {
            None
        },
        TagValue::IRational(xs) => if xs.len() > 0 {
            Some(Ratio { num: xs[0].0 as i64, den: xs[0].1 as i64 })
        } else {
            None
        },
        TagValue::Other => None,
    }
}

/// The first component of a 16- or 32-bit unsigned payload, widened.
pub fn read_sensitivity(v: &TagValue) -> (r: Option<u32>)
    ensures
        r == sensitivity_of(*v),
{
    match v {
        TagValue::U16(xs) => if xs.len() > 0 { Some(xs[0] as u32) } else { None },
        TagValue::U32(xs) => if xs.len() > 0 { Some(xs[0]) } else { None },
        _ => None,
    }
}

/// The number read from the first entry tagged `tag`, if it has one.
pub fn first_number(entries: &Vec<Entry>, tag: Tag) -> (r: Option<Ratio>)
    ensures
        r == find_number(entries@, tag),
{
    let mut i: usize = 0;
    assert(entries@.subrange(0, entries@.len() as int) =~= entries@);
    while i < entries.len()
        invariant
            i <= entries@.len(),
            find_number(entries@, tag) == find_number(entries@.subrange(i as int, entries@.len() as int), tag),
        decreases entries@.len() - i,
    {
        let ghost rest = entries@.subrange(i as int, entries@.len() as int);
        assert(rest.drop_first() =~= entries@.subrange(i + 1, entries@.len() as int));
        if entries[i].tag == tag {
            return read_number(&entries[i].value);
        }
        i += 1;
    }
    None
}

/// The sensitivity read from the first sensitivity entry, if it has one.
pub fn first_sensitivity(entries: &Vec<Entry>) -> (r: Option<u32>)
    ensures
        r == find_sensitivity(entries@),
{
    let mut i: usize = 0;
    assert(entries@.subrange(0, entries@.len() as int) =~= entries@);
    while i < entries.len()
        invariant
            i <= entries@.len(),
            find_sensitivity(entries@) == find_sensitivity(entries@.subrange(i as int, entries@.len() as int)),
        decreases entries@.len() - i,
    {
        let ghost rest = entries@.subrange(i as int, entries@.len() as int);
        assert(rest.drop_first() =~= entries@.subrange(i + 1, entries@.len() as int));
        if entries[i].tag == Tag::IsoSpeedRatings {
            return read_sensitivity(&entries[i].value);
        }
        i += 1;
    }
    None
}

/// Reads the aperture, exposure time and sensitivity of one image from its
/// metadata entries; nothing unless all three are there.
pub fn extract(entries: &Vec<Entry>) -> (r: Option<Exposure>)
    ensures
        r == exposure_of(entries@),
{
    let aperture = first_number(entries, Tag::FNumber);
    let shutter = first_number(entries, Tag::ExposureTime);
    let iso = first_sensitivity(entries);
    match (aperture, shutter, iso) {
        (Some(a), Some(t), Some(i)) => Some(Exposure { aperture: a, shutter: t, iso: i }),
        _ => None,
    }
}

} // verus!
