use vstd::multiset::Multiset;
use vstd::prelude::*;

use crate::metadata::{exposure_of, extract, Entry, Exposure, Ratio};
use crate::shutter::{abs, nearest, nearest_index, SHUTTER_COUNT};

verus! {

/// The identity of an aperture within a group: the recorded fraction in
/// lowest terms with a non-negative denominator. The sign of a zero value and
/// of an infinite one (zero denominator) is kept, and 0/0 stays 0/0. Apertures
/// are grouped by their exact value; this is finer than comparing the bits of
/// a rounded floating-point quotient, which can merge distinct fractions with
/// very large terms.
#[derive(Clone, Copy, Debug, PartialEq, Eq, Structural)]
pub struct Aperture {
    pub num: i128,
    pub den: i128,
}

/// The key that images are grouped by.
#[derive(Clone, Copy, Debug, PartialEq, Eq, Structural)]
pub struct GroupKey {
    pub aperture: Aperture,
    /// Index of the conventional shutter speed, below `SHUTTER_COUNT`.
    pub shutter: usize,
    pub iso: u32,
}

pub open spec fn sign(v: int) -> int {
    if v < 0 { -1 } else if v == 0 { 0 } else { 1 }
}

/// Greatest common divisor, by Euclid's algorithm.
pub open spec fn gcd(a: nat, b: nat) -> nat
    decreases b,
{
    if b == 0 { a } else { gcd(b, a % b) }
}

/// The group identity of a recorded aperture fraction.
pub open spec fn aperture_key(r: Ratio) -> Aperture {
    let n = r.num as int;
    let d = r.den as int;
    if d == 0 {
        Aperture { num: sign(n) as i128, den: 0 }
    } else if n == 0 {
        Aperture { num: 0, den: sign(d) as i128 }
    } else {
        let g = gcd(abs(n) as nat, abs(d) as nat) as int;
        let q = abs(n) / g;
        Aperture { num: (if (n < 0) == (d < 0) { q } else { -q }) as i128, den: (abs(d) / g) as i128 }
    }
}

/// The group an image with exposure settings `e` belongs to.
pub open spec fn group_key_of(e: Exposure) -> GroupKey {
    GroupKey { aperture: aperture_key(e.aperture), shutter: nearest(e.shutter) as usize, iso: e.iso }
}

/// The group of an image with metadata entries `s`, if its settings are all there.
pub open spec fn file_key(s: Seq<Entry>) -> Option<GroupKey> {
    match exposure_of(s) {
        Some(e) => Some(group_key_of(e)),
        None => None,
    }
}

pub open spec fn add_key(m: Multiset<GroupKey>, k: Option<GroupKey>) -> Multiset<GroupKey> {
    match k {
        Some(k) => m.insert(k),
        None => m,
    }
}

/// The groups of a sequence of images, one occurrence per image that has one.
pub open spec fn keys_of(files: Seq<Seq<Entry>>) -> Multiset<GroupKey>
    decreases files.len(),
{
    if files.len() == 0 {
        Multiset::empty()
    } else {
        add_key(keys_of(files.drop_last()), file_key(files.last()))
    }
}

/// The count table of a collection of group keys.
pub open spec fn tally_of(m: Multiset<GroupKey>) -> Map<GroupKey, nat> {
    Map::new(|k: GroupKey| m.count(k) > 0, |k: GroupKey| m.count(k))
}

pub proof fn lemma_gcd_positive(a: nat, b: nat)
    requires
        a > 0 || b > 0,
    ensures
        gcd(a, b) > 0,
    decreases b,
{
    if b > 0 {
        lemma_gcd_positive(b, a % b);
    }
}

fn gcd_u128(a: u128, b: u128) -> (g: u128)
    ensures
        g == gcd(a as nat, b as nat),
{
    let mut x: u128 = a;
    let mut y: u128 = b;
    while y != 0
        invariant
            gcd(x as nat, y as nat) == gcd(a as nat, b as nat),
        decreases y,
    {
        let t = x % y;
        x = y;
        y = t;
    }
    x
}

/// The group identity of a recorded aperture fraction.
pub fn aperture_of(r: Ratio) -> (k: Aperture)
    ensures
        k == aperture_key(r),
{
    let n: i128 = r.num as i128;
    let d: i128 = r.den as i128;
    if d == 0 {
        let s: i128 = if n < 0 { -1 } else if n == 0 { 0 } else { 1 };
        return Aperture { num: s, den: 0 };
    }
    if n == 0 {
        let s: i128 = if d < 0 { -1 } else { 1 };
        return Aperture { num: 0, den: s };
    }
    let an: u128 = if n < 0 { (-n) as u128 } else { n as u128 };
    let ad: u128 = if d < 0 { (-d) as u128 } else { d as u128 };
    let g = gcd_u128(an, ad);
    proof {
        lemma_gcd_positive(an as nat, ad as nat);
    }
    let q: i128 = (an / g) as i128;
    let den: i128 = (ad / g) as i128;
    assert(an / g <= an) by (nonlinear_arith)
        requires g > 0;
    assert(ad / g <= ad) by (nonlinear_arith)
        requires g > 0;
    let num: i128 = if (n < 0) == (d < 0) { q } else { -q };
    Aperture { num, den }
}

/// The group an image with exposure settings `e` belongs to.
pub fn group_key(e: &Exposure) -> (k: GroupKey)
    ensures
        k == group_key_of(*e),
        k.shutter < SHUTTER_COUNT,
{
    GroupKey { aperture: aperture_of(e.aperture), shutter: nearest_index(e.shutter), iso: e.iso }
}

/// The group of an image with metadata entries `entries`, if its settings are
/// all there.
pub fn group_of(entries: &Vec<Entry>) -> (k: Option<GroupKey>)
    ensures
        k == file_key(entries@),
{
    match extract(entries) {
        Some(e) => Some(group_key(&e)),
        None => None,
    }
}

/// Counts of images per group. Each group appears once, with a positive count.
pub struct GroupTable {
    groups: Vec<(GroupKey, usize)>,
    counts: Ghost<Map<GroupKey, nat>>,
}

impl View for GroupTable {
    type V = Map<GroupKey, nat>;

    closed spec fn view(&self) -> Map<GroupKey, nat> {
        self.counts@
    }
}

impl GroupTable {
    /// The listed groups are distinct, have positive counts, and are exactly
    /// the groups of the table.
    pub closed spec fn wf(&self) -> bool {
        &&& forall|i: int|
            0 <= i < self.groups@.len() ==> {
                &&& self.counts@.contains_key(#[trigger] self.groups@[i].0)
                &&& self.counts@[self.groups@[i].0] == self.groups@[i].1 as nat
                &&& self.groups@[i].1 > 0
            }
        &&& forall|k: GroupKey|
            #[trigger] self.counts@.contains_key(k) ==> exists|i: int|
                0 <= i < self.groups@.len() && self.groups@[i].0 == k
        &&& forall|i: int, j: int|
            0 <= i < self.groups@.len() && 0 <= j < self.groups@.len() && i != j
                ==> self.groups@[i].0 != self.groups@[j].0
    }

    /// An empty table.
    pub fn new() -> (t: GroupTable)
        ensures
            t.wf(),
            t@ == Map::<GroupKey, nat>::empty(),
    {
        GroupTable { groups: Vec::new(), counts: Ghost(Map::empty()) }
    }

    fn position(&self, k: &GroupKey) -> (r: Option<usize>)
        requires
            self.wf(),
        ensures
            match r {
                Some(i) => i < self.groups@.len() && self.groups@[i as int].0 == *k,
                None => !self@.contains_key(*k),
            },
    {
        let mut i: usize = 0;
        while i < self.groups.len()
            invariant
                self.wf(),
                i <= self.groups@.len(),
                forall|j: int| 0 <= j < i ==> self.groups@[j].0 != *k,
            decreases self.groups@.len() - i,
        {
            if self.groups[i].0 == *k {
                return Some(i);
            }
            i += 1;
        }
        None
    }

    /// The number of images counted in group `k`.
    pub fn count(&self, k: &GroupKey) -> (r: usize)
        requires
            self.wf(),
        ensures
            r as nat == (if self@.contains_key(*k) { self@[*k] } else { 0 }),
    {
        match self.position(k) {
            Some(i) => self.groups[i].1,
            None => 0,
        }
    }

    /// Every group with its count, each group once.
    pub fn groups(&self) -> (r: &Vec<(GroupKey, usize)>)
        requires
            self.wf(),
        ensures
            forall|i: int|
                0 <= i < r@.len() ==> self@.contains_key(#[trigger] r@[i].0) && self@[r@[i].0] == r@[i].1 as nat,
            forall|k: GroupKey| #[trigger] self@.contains_key(k) ==> exists|i: int| 0 <= i < r@.len() && r@[i].0 == k,
            forall|i: int, j: int| 0 <= i < r@.len() && 0 <= j < r@.len() && i != j ==> r@[i].0 != r@[j].0,
    {
        &self.groups
    }

    /// Counts one more image in group `k`: a new group starts at one.
    pub fn record(&mut self, k: GroupKey)
        requires
            old(self).wf(),
            old(self)@.contains_key(k) ==> old(self)@[k] < usize::MAX,
        ensures
            final(self).wf(),
            final(self)@ == old(self)@.insert(
                k,
                if old(self)@.contains_key(k) { old(self)@[k] + 1 } else { 1 },
            ),
    {
        let ghost old_groups = self.groups@;
        match self.position(&k) {
            Some(i) => {
                let c = self.groups[i].1;
                self.groups.set(i, (k, c + 1));
                self.counts = Ghost(self.counts@.insert(k, (c + 1) as nat));
                assert forall|j: int| 0 <= j < self.groups@.len() && j != i
                    implies self.groups@[j] == old_groups[j] by {}
                assert forall|q: GroupKey| #[trigger] self.counts@.contains_key(q) implies exists|j: int|
                    0 <= j < self.groups@.len() && self.groups@[j].0 == q by {
                    if q != k {
                        let j = choose|j: int| 0 <= j < old_groups.len() && old_groups[j].0 == q;
                        assert(self.groups@[j].0 == q);
                    } else {
                        assert(self.groups@[i as int].0 == q);
                    }
                }
            },
            None => {
                self.groups.push((k, 1));
                self.counts = Ghost(self.counts@.insert(k, 1));
                let ghost n = old_groups.len() as int;
                assert forall|q: GroupKey| #[trigger] self.counts@.contains_key(q) implies exists|j: int|
                    0 <= j < self.groups@.len() && self.groups@[j].0 == q by {
                    if q != k {
                        let j = choose|j: int| 0 <= j < old_groups.len() && old_groups[j].0 == q;
                        assert(self.groups@[j].0 == q);
                    } else {
                        assert(self.groups@[n].0 == q);
                    }
                }
            },
        }
    }
}

/// No group holds more images than were looked at.
pub proof fn lemma_keys_count_bound(files: Seq<Seq<Entry>>, k: GroupKey)
    ensures
        keys_of(files).count(k) <= files.len(),
    decreases files.len(),
{
    if files.len() > 0 {
        lemma_keys_count_bound(files.drop_last(), k);
    }
}

/// The groups of the images with one image taken out, plus that image's group.
pub proof fn lemma_keys_remove(files: Seq<Seq<Entry>>, j: int)
    requires
        0 <= j < files.len(),
    ensures
        keys_of(files) == add_key(keys_of(files.remove(j)), file_key(files[j])),
    decreases files.len(),
{
    let last = files.len() - 1;
    if j == last {
        assert(files.remove(j) =~= files.drop_last());
    } else {
        let rest = files.remove(j);
        assert(rest.drop_last() =~= files.drop_last().remove(j));
        assert(rest.last() == files.last());
        lemma_keys_remove(files.drop_last(), j);
        let m = keys_of(files.drop_last().remove(j));
        let x = file_key(files[j]);
        let y = file_key(files.last());
        assert(add_key(add_key(m, x), y) =~= add_key(add_key(m, y), x));
    }
}

/// Processing the same images in any order, or again, gives the same groups
/// with the same counts.
pub proof fn lemma_order_independent(a: Seq<Seq<Entry>>, b: Seq<Seq<Entry>>)
    requires
        a.to_multiset() == b.to_multiset(),
    ensures
        keys_of(a) == keys_of(b),
        tally_of(keys_of(a)) == tally_of(keys_of(b)),
    decreases a.len(),
{
    broadcast use vstd::seq_lib::group_to_multiset_ensures;

    if a.len() == 0 {
        assert(b.to_multiset().len() == 0);
        assert(b.len() == 0);
        assert(a =~= b);
    } else {
        let x = a.last();
        assert(a.to_multiset().count(x) > 0);
        assert(b.to_multiset().contains(x));
        let j = choose|j: int| 0 <= j < b.len() && b[j] == x;
        let last = a.len() - 1;
        assert(a.remove(last) =~= a.drop_last());
        vstd::seq_lib::to_multiset_remove(a, last);
        vstd::seq_lib::to_multiset_remove(b, j);
        lemma_order_independent(a.drop_last(), b.remove(j));
        lemma_keys_remove(b, j);
    }
}

/// Counts the images of `files` per group, skipping those whose settings are
/// not all there.
pub fn tally(files: &Vec<Vec<Entry>>) -> (t: GroupTable)
    ensures
        t.wf(),
        t@ == tally_of(keys_of(files@.map_values(|f: Vec<Entry>| f@))),
{
    let ghost all = files@.map_values(|f: Vec<Entry>| f@);
    let mut t = GroupTable::new();
    let mut i: usize = 0;
    assert(all.subrange(0, 0) =~= Seq::<Seq<Entry>>::empty());
    assert(tally_of(Multiset::empty()) =~= Map::<GroupKey, nat>::empty());
    while i < files.len()
        invariant
            i <= files@.len(),
            all == files@.map_values(|f: Vec<Entry>| f@),
            t.wf(),
            t@ == tally_of(keys_of(all.subrange(0, i as int))),
        decreases files@.len() - i,
    {
        let ghost before = all.subrange(0, i as int);
        let ghost after = all.subrange(0, i + 1);
        assert(after.drop_last() =~= before);
        assert(after.last() == files@[i as int]@);
        if let Some(k) = group_of(&files[i]) {
            proof {
                lemma_keys_count_bound(before, k);
            }
            t.record(k);
            assert(t@ =~= tally_of(keys_of(after)));
        } else {
            assert(keys_of(after) == keys_of(before));
        }
        i += 1;
    }
    assert(all.subrange(0, files@.len() as int) =~= all);
    t
}

} // verus!
