use exposure_groups::groups::{aperture_of, group_key, group_of, tally, Aperture, GroupKey, GroupTable};
use exposure_groups::metadata::{Entry, Exposure, Ratio, Tag, TagValue};
use exposure_groups::shutter::shutter_label;

fn image(f: (u32, u32), t: (u32, u32), iso: u32) -> Vec<Entry> {
    vec![
        Entry { tag: Tag::FNumber, value: TagValue::URational(vec![f]) },
        Entry { tag: Tag::ExposureTime, value: TagValue::URational(vec![t]) },
        Entry { tag: Tag::IsoSpeedRatings, value: TagValue::U32(vec![iso]) },
    ]
}

fn ap(num: i128, den: i128) -> Aperture {
    Aperture { num, den }
}

fn sorted(t: &GroupTable) -> Vec<(GroupKey, usize)> {
    let mut v = t.groups().clone();
    v.sort_by_key(|(k, _)| (k.aperture.num, k.aperture.den, k.shutter, k.iso));
    v
}

#[test]
fn aperture_identity_is_the_reduced_fraction() {
    assert_eq!(aperture_of(Ratio { num: 28, den: 10 }), ap(14, 5));
    assert_eq!(aperture_of(Ratio { num: 280, den: 100 }), ap(14, 5));
    assert_eq!(aperture_of(Ratio { num: -3, den: -6 }), ap(1, 2));
    assert_eq!(aperture_of(Ratio { num: 3, den: -6 }), ap(-1, 2));
    assert_eq!(aperture_of(Ratio { num: 7, den: 1 }), ap(7, 1));
}

#[test]
fn aperture_identity_keeps_signed_zero_and_infinity() {
    assert_eq!(aperture_of(Ratio { num: 0, den: 5 }), ap(0, 1));
    assert_eq!(aperture_of(Ratio { num: 0, den: -5 }), ap(0, -1));
    assert_eq!(aperture_of(Ratio { num: 9, den: 0 }), ap(1, 0));
    assert_eq!(aperture_of(Ratio { num: -9, den: 0 }), ap(-1, 0));
    assert_eq!(aperture_of(Ratio { num: 0, den: 0 }), ap(0, 0));
    assert_eq!(aperture_of(Ratio { num: i64::MIN, den: -1 }), ap(-(i64::MIN as i128), 1));
}

#[test]
fn group_key_snaps_the_shutter() {
    let e = Exposure { aperture: Ratio { num: 28, den: 10 }, shutter: Ratio { num: 81, den: 10000 }, iso: 100 };
    let k = group_key(&e);
    assert_eq!(k, GroupKey { aperture: ap(14, 5), shutter: 6, iso: 100 });
    assert_eq!(shutter_label(k.shutter), "1/125");
}

#[test]
fn group_of_skips_incomplete_images() {
    let mut entries = image((28, 10), (1, 125), 100);
    entries.pop();
    assert_eq!(group_of(&entries), None);
}

#[test]
fn record_inserts_then_increments() {
    let mut t = GroupTable::new();
    let k = GroupKey { aperture: ap(2, 1), shutter: 3, iso: 50 };
    let other = GroupKey { aperture: ap(2, 1), shutter: 4, iso: 50 };
    assert_eq!(t.count(&k), 0);
    t.record(k);
    assert_eq!(t.count(&k), 1);
    t.record(k);
    assert_eq!(t.count(&k), 2);
    t.record(other);
    assert_eq!(t.count(&k), 2);
    assert_eq!(t.count(&other), 1);
    assert_eq!(t.groups().len(), 2);
}

#[test]
fn nearby_shutter_speeds_collapse_into_one_group() {
    let files = vec![image((28, 10), (8, 1000), 100), image((28, 10), (81, 10000), 100)];
    let t = tally(&files);
    let key = GroupKey { aperture: ap(14, 5), shutter: 6, iso: 100 };
    assert_eq!(t.groups().len(), 1);
    assert_eq!(t.count(&key), 2);
    assert_eq!(shutter_label(t.groups()[0].0.shutter), "1/125");
}

#[test]
fn image_without_iso_leaves_the_table_alone() {
    let mut no_iso = image((28, 10), (1, 125), 100);
    no_iso.pop();
    let files = vec![image((28, 10), (1, 125), 100), no_iso];
    let t = tally(&files);
    assert_eq!(t.groups().len(), 1);
    assert_eq!(t.groups()[0].1, 1);
    assert!(tally(&Vec::new()).groups().is_empty());
}

#[test]
fn three_images_make_two_groups() {
    let files = vec![
        image((14, 10), (5, 10000), 200),
        image((14, 10), (52, 100000), 200),
        image((14, 10), (5, 10000), 400),
    ];
    let t = tally(&files);
    let g = sorted(&t);
    assert_eq!(g.len(), 2);
    assert_eq!(g[0], (GroupKey { aperture: ap(7, 5), shutter: 2, iso: 200 }, 2));
    assert_eq!(g[1], (GroupKey { aperture: ap(7, 5), shutter: 2, iso: 400 }, 1));
    assert_eq!(shutter_label(g[0].0.shutter), "1/2000");
}

#[test]
fn rerun_and_reordering_give_the_same_table() {
    let files = vec![
        image((14, 10), (5, 10000), 200),
        image((28, 10), (1, 60), 800),
        image((14, 10), (52, 100000), 200),
        image((40, 10), (2, 1), 100),
        image((14, 10), (5, 10000), 400),
    ];
    let first = sorted(&tally(&files));
    let again = sorted(&tally(&files));
    assert_eq!(first, again);
    let reversed: Vec<Vec<Entry>> = files.into_iter().rev().collect();
    assert_eq!(sorted(&tally(&reversed)), first);
}

#[test]
fn equal_fractions_share_a_group() {
    let files = vec![image((28, 10), (1, 125), 100), image((14, 5), (1, 125), 100)];
    let t = tally(&files);
    assert_eq!(t.groups().len(), 1);
    assert_eq!(t.groups()[0].1, 2);
}
