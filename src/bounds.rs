//! Axis bounds of a series: the exact extent of its values on each axis.

use vstd::prelude::*;

verus! {

/// The upper end of an empty axis, ten, in units.
pub const DEFAULT_MAX_UNITS: i128 = 10_000_000_000;

/// The lower and upper end of one axis, in units.
#[derive(Debug, Clone, Copy, PartialEq, Eq, Structural)]
pub struct AxisBounds {
    pub min: i128,
    pub max: i128,
}

pub open spec fn coord(p: (i128, i128), horizontal: bool) -> i128 {
    if horizontal {
        p.0
    } else {
        p.1
    }
}

/// `b` is the exact extent of the points on one axis: every value lies
/// within it and each end is the value of some point. With no points, it is
/// the default range from 0 to 10.
pub open spec fn is_extent(points: Seq<(i128, i128)>, horizontal: bool, b: AxisBounds) -> bool {
    if points.len() == 0 {
        b.min == 0 && b.max == DEFAULT_MAX_UNITS
    } else {
        &&& forall|i: int|
            0 <= i < points.len() ==> b.min <= #[trigger] coord(points[i], horizontal) <= b.max
        &&& exists|i: int| 0 <= i < points.len() && #[trigger] coord(points[i], horizontal) == b.min
        &&& exists|j: int| 0 <= j < points.len() && #[trigger] coord(points[j], horizontal) == b.max
    }
}

fn extent(points: &Vec<(i128, i128)>, horizontal: bool) -> (r: AxisBounds)
    ensures
        is_extent(points@, horizontal, r),
{
    if points.len() == 0 {
        return AxisBounds { min: 0, max: DEFAULT_MAX_UNITS };
    }
    let first = if horizontal {
        points[0].0
    } else {
        points[0].1
    };
    let mut lo = first;
    let mut hi = first;
    let ghost mut lo_at: int = 0;
    let ghost mut hi_at: int = 0;
    let mut i: usize = 1;
    while i < points.len()
        invariant
            1 <= i <= points@.len(),
            0 <= lo_at < i,
            0 <= hi_at < i,
            coord(points@[lo_at], horizontal) == lo,
            coord(points@[hi_at], horizontal) == hi,
            forall|k: int| 0 <= k < i ==> lo <= #[trigger] coord(points@[k], horizontal) <= hi,
        decreases points@.len() - i,
    {
        let v = if horizontal {
            points[i].0
        } else {
            points[i].1
        };
        if v < lo {
            lo = v;
            proof {
                lo_at = i as int;
            }
        }
        if v > hi {
            hi = v;
            proof {
                hi_at = i as int;
            }
        }
        i = i + 1;
    }
    AxisBounds { min: lo, max: hi }
}

/// The extent of the series on the horizontal axis.
pub fn x_bounds(points: &Vec<(i128, i128)>) -> (r: AxisBounds)
    ensures
        is_extent(points@, true, r),
{
    extent(points, true)
}

/// The extent of the series on the vertical axis.
pub fn y_bounds(points: &Vec<(i128, i128)>) -> (r: AxisBounds)
    ensures
        is_extent(points@, false, r),
{
    extent(points, false)
}

} // verus!
