use vstd::prelude::*;
use crate::clock::utc_now_seconds;
use crate::text::text_is;

verus! {

/// Bucket width in seconds and number of buckets of a reporting unit; an
/// unknown unit reads as `day`.
pub open spec fn fragment_of(unit: Seq<char>) -> (u32, u32) {
    if unit == "week"@ {
        (86400, 7)
    } else if unit == "month"@ {
        (648000, 4)
    } else if unit == "year"@ {
        (7884000, 4)
    } else {
        (14400, 6)
    }
}

/// Bucket width and count for a reporting unit (`day`, `week`, `month`,
/// `year`).
pub fn get_fragment(unit: &str) -> (r: (u32, u32))
    ensures
        r == fragment_of(unit@),
{
    if text_is(unit, "week") {
        (86400, 7)
    } else if text_is(unit, "month") {
        (648000, 4)
    } else if text_is(unit, "year") {
        (7884000, 4)
    } else {
        (14400, 6)
    }
}

/// Start of the reporting range that ends at `now`: `count` buckets of
/// `width` seconds back, floored at `i64::MIN`.
pub open spec fn range_start(now: i64, fragment: (u32, u32)) -> i64 {
    let s = now - fragment.0 * fragment.1;
    if s < i64::MIN {
        i64::MIN
    } else {
        s as i64
    }
}

/// Start of the reporting range that ends at `now` (seconds).
pub fn start_from(now: i64, fragment: (u32, u32)) -> (r: i64)
    ensures
        r == range_start(now, fragment),
{
    let (width, count) = fragment;
    assert(width as int * count as int <= 0xffff_ffffint * 0xffff_ffffint) by (nonlinear_arith)
        requires
            width <= 0xffff_ffffint,
            count <= 0xffff_ffffint,
    ;
    let span: u64 = width as u64 * count as u64;
    let s: i128 = now as i128 - span as i128;
    if s < i64::MIN as i128 {
        i64::MIN
    } else {
        s as i64
    }
}

/// Start of the reporting range that ends now, by the UTC clock.
pub fn get_start(fragment: (u32, u32)) -> (r: i64)
    ensures
        exists|now: i64| r == range_start(now, fragment),
{
    let now = utc_now_seconds();
    start_from(now, fragment)
}

/// Start time of bucket `index` of a range beginning at `start`, with buckets
/// `width` seconds wide, held within the range of `i64`.
pub open spec fn bucket_time(start: i64, width: u32, index: u32) -> i64 {
    let t = start + width * index;
    if t > i64::MAX {
        i64::MAX
    } else {
        t as i64
    }
}

pub fn bucket_start(start: i64, width: u32, index: u32) -> (r: i64)
    ensures
        r == bucket_time(start, width, index),
{
    assert(width as int * index as int <= 0xffff_ffffint * 0xffff_ffffint) by (nonlinear_arith)
        requires
            width <= 0xffff_ffffint,
            index <= 0xffff_ffffint,
    ;
    let t: i128 = start as i128 + (width as u64 * index as u64) as i128;
    if t > i64::MAX as i128 {
        i64::MAX
    } else {
        t as i64
    }
}

/// The bucket indices below `count` that no entry of `present` names, in
/// ascending order; these buckets are filled with the overall average.
pub fn missing_buckets(present: &Vec<u32>, count: u32) -> (r: Vec<u32>)
    ensures
        forall|i: int| 0 <= i < r@.len() ==> r@[i] < count && !present@.contains(#[trigger] r@[i]),
        forall|b: u32| b < count && !present@.contains(b) ==> r@.contains(b),
        forall|i: int, j: int| 0 <= i < j < r@.len() ==> r@[i] < r@[j],
{
    let mut r: Vec<u32> = Vec::new();
    let mut b: u32 = 0;
    while b < count
        invariant
            b <= count,
            forall|i: int| 0 <= i < r@.len() ==> r@[i] < b && !present@.contains(#[trigger] r@[i]),
            forall|c: u32| c < b && !present@.contains(c) ==> r@.contains(c),
            forall|i: int, j: int| 0 <= i < j < r@.len() ==> r@[i] < r@[j],
        decreases count - b,
    {
        let mut found = false;
        let mut k: usize = 0;
        while k < present.len()
            invariant
                k <= present@.len(),
                found == exists|j: int| 0 <= j < k && present@[j] == b,
            decreases present@.len() - k,
        {
            if present[k] == b {
                found = true;
            }
            k = k + 1;
        }
        if !found {
            let ghost old_r = r@;
            r.push(b);
            assert forall|c: u32| c < b + 1 && !present@.contains(c) implies r@.contains(c) by {
                if c < b {
                    let i = choose|i: int| 0 <= i < old_r.len() && old_r[i] == c;
                    assert(r@[i] == c);
                } else {
                    assert(r@[old_r.len() as int] == c);
                }
            }
        } else {
            assert(present@.contains(b));
        }
        b = b + 1;
    }
    r
}

} // verus!
