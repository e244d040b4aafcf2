use vstd::prelude::*;

use crate::metadata::Ratio;

verus! {

/// Number of conventional shutter speeds.
pub const SHUTTER_COUNT: usize = 19;

/// The time unit of the reference table: every conventional shutter speed is
/// a whole number of 1/24000 second.
pub const TICKS_PER_SECOND: i128 = 24000;

/// The conventional shutter speeds, shortest first, in 1/24000 second.
pub open spec fn reference_ticks(i: int) -> int {
    if i == 0 { 3 }
    else if i == 1 { 6 }
    else if i == 2 { 12 }
    else if i == 3 { 24 }
    else if i == 4 { 48 }
    else if i == 5 { 96 }
    else if i == 6 { 192 }
    else if i == 7 { 400 }
    else if i == 8 { 800 }
    else if i == 9 { 1600 }
    else if i == 10 { 3000 }
    else if i == 11 { 6000 }
    else if i == 12 { 12000 }
    else if i == 13 { 24000 }
    else if i == 14 { 48000 }
    else if i == 15 { 96000 }
    else if i == 16 { 192000 }
    else if i == 17 { 360000 }
    else { 720000 }
}

/// The display label of each conventional shutter speed.
pub open spec fn label_text(i: int) -> Seq<char> {
    if i == 0 { "1/8000"@ }
    else if i == 1 { "1/4000"@ }
    else if i == 2 { "1/2000"@ }
    else if i == 3 { "1/1000"@ }
    else if i == 4 { "1/500"@ }
    else if i == 5 { "1/250"@ }
    else if i == 6 { "1/125"@ }
    else if i == 7 { "1/60"@ }
    else if i == 8 { "1/30"@ }
    else if i == 9 { "1/15"@ }
    else if i == 10 { "1/8"@ }
    else if i == 11 { "1/4"@ }
    else if i == 12 { "1/2"@ }
    else if i == 13 { "1"@ }
    else if i == 14 { "2"@ }
    else if i == 15 { "4"@ }
    else if i == 16 { "8"@ }
    else if i == 17 { "15"@ }
    else { "30"@ }
}

/// Absolute value.
pub open spec fn abs(v: int) -> int {
    if v < 0 { -v } else { v }
}

/// The distance between `x` seconds and the `i`-th conventional speed,
/// scaled by `TICKS_PER_SECOND * |x.den|` so that it stays an integer.
pub open spec fn scaled_distance(x: Ratio, i: int) -> int {
    abs(TICKS_PER_SECOND * x.num - reference_ticks(i) * x.den)
}

/// `r` indexes the conventional speed closest to `x`, the shortest one on a
/// tie. A value that is not finite goes to the first entry.
pub open spec fn is_nearest(x: Ratio, r: int) -> bool {
    &&& 0 <= r < SHUTTER_COUNT
    &&& if x.den == 0 {
        r == 0
    } else {
        &&& forall|j: int| 0 <= j < SHUTTER_COUNT ==> scaled_distance(x, r) <= scaled_distance(x, j)
        &&& forall|j: int| 0 <= j < r ==> scaled_distance(x, j) > scaled_distance(x, r)
    }
}

/// The index of the conventional speed closest to `x`.
pub open spec fn nearest(x: Ratio) -> int {
    choose|r: int| is_nearest(x, r)
}

/// At most one index is the nearest to a value.
pub proof fn lemma_nearest_unique(x: Ratio, r1: int, r2: int)
    requires
        is_nearest(x, r1),
        is_nearest(x, r2),
    ensures
        r1 == r2,
{
    if x.den != 0 {
        if r1 < r2 {
            assert(scaled_distance(x, r1) > scaled_distance(x, r2));
        } else if r2 < r1 {
            assert(scaled_distance(x, r2) > scaled_distance(x, r1));
        }
    }
}

/// A value that is exactly one of the conventional speeds snaps to that speed.
pub proof fn lemma_exact_reference(x: Ratio, i: int)
    requires
        0 <= i < SHUTTER_COUNT,
        x.den != 0,
        TICKS_PER_SECOND * x.num == reference_ticks(i) * x.den,
    ensures
        nearest(x) == i,
{
    assert(scaled_distance(x, i) == 0);
    assert forall|j: int| 0 <= j < SHUTTER_COUNT && j != i implies scaled_distance(x, j) > 0 by {
        let tj = reference_ticks(j);
        let ti = reference_ticks(i);
        let d = x.den as int;
        assert(tj != ti);
        assert(TICKS_PER_SECOND * x.num - tj * d == (ti - tj) * d) by (nonlinear_arith)
            requires
                TICKS_PER_SECOND * x.num == ti * d;
        assert((ti - tj) * d != 0) by (nonlinear_arith)
            requires
                ti - tj != 0,
                d != 0;
    }
    assert(is_nearest(x, i));
    lemma_nearest_unique(x, i, nearest(x));
}

/// The reference table entry `i`, in 1/24000 second.
pub fn reference_tick(i: usize) -> (t: i128)
    requires
        i < SHUTTER_COUNT,
    ensures
        t == reference_ticks(i as int),
{
    if i == 0 { 3 }
    else if i == 1 { 6 }
    else if i == 2 { 12 }
    else if i == 3 { 24 }
    else if i == 4 { 48 }
    else if i == 5 { 96 }
    else if i == 6 { 192 }
    else if i == 7 { 400 }
    else if i == 8 { 800 }
    else if i == 9 { 1600 }
    else if i == 10 { 3000 }
    else if i == 11 { 6000 }
    else if i == 12 { 12000 }
    else if i == 13 { 24000 }
    else if i == 14 { 48000 }
    else if i == 15 { 96000 }
    else if i == 16 { 192000 }
    else if i == 17 { 360000 }
    else { 720000 }
}

/// The display label of the `i`-th conventional speed.
pub fn shutter_label(i: usize) -> (r: &'static str)
    requires
        i < SHUTTER_COUNT,
    ensures
        r@ == label_text(i as int),
{
    proof {
        reveal_strlit("1/8000");
    }
    if i == 0 { "1/8000" }
    else if i == 1 { "1/4000" }
    else if i == 2 { "1/2000" }
    else if i == 3 { "1/1000" }
    else if i == 4 { "1/500" }
    else if i == 5 { "1/250" }
    else if i == 6 { "1/125" }
    else if i == 7 { "1/60" }
    else if i == 8 { "1/30" }
    else if i == 9 { "1/15" }
    else if i == 10 { "1/8" }
    else if i == 11 { "1/4" }
    else if i == 12 { "1/2" }
    else if i == 13 { "1" }
    else if i == 14 { "2" }
    else if i == 15 { "4" }
    else if i == 16 { "8" }
    else if i == 17 { "15" }
    else { "30" }
}

fn abs_i128(v: i128) -> (r: i128)
    requires
        v > i128::MIN,
    ensures
        r == abs(v as int),
{
    if v < 0 { -v } else { v }
}

/// Index of the conventional shutter speed closest to `x` seconds: a linear
/// scan that keeps the earliest entry among equally close ones.
pub fn nearest_index(x: Ratio) -> (r: usize)
    ensures
        is_nearest(x, r as int),
        r as int == nearest(x),
{
    if x.den == 0 {
        proof {
            assert(is_nearest(x, 0));
            lemma_nearest_unique(x, 0, nearest(x));
        }
        return 0;
    }
    let scaled: i128 = TICKS_PER_SECOND * (x.num as i128);
    let den: i128 = x.den as i128;
    let mut best: usize = 0;
    let mut best_dist: i128 = abs_i128(scaled - 3 * den);
    let mut i: usize = 1;
    while i < SHUTTER_COUNT
        invariant
            1 <= i <= SHUTTER_COUNT,
            best < i,
            x.den != 0,
            scaled == TICKS_PER_SECOND * x.num,
            den == x.den,
            best_dist == scaled_distance(x, best as int),
            forall|j: int| 0 <= j < i ==> scaled_distance(x, best as int) <= scaled_distance(x, j),
            forall|j: int| 0 <= j < best ==> scaled_distance(x, j) > scaled_distance(x, best as int),
        decreases SHUTTER_COUNT - i,
    {
        let t = reference_tick(i);
        let d = abs_i128(scaled - t * den);
        if d < best_dist {
            best = i;
            best_dist = d;
        }
        i += 1;
    }
    proof {
        assert(is_nearest(x, best as int));
        lemma_nearest_unique(x, best as int, nearest(x));
    }
    best
}

/// The label of the conventional shutter speed closest to `x` seconds.
pub fn normalize(x: Ratio) -> (r: &'static str)
    ensures
        r@ == label_text(nearest(x)),
{
    shutter_label(nearest_index(x))
}

} // verus!
