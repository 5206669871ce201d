//! Control-point selection for clamped, non-looping Catmull-Rom splines.
//!
//! A spline through `len` control points has `len - 1` segments; segment `k`
//! runs from point `k` to point `k + 1`. Evaluating it needs the two
//! neighbours as well, which do not exist at either end of the sequence: there
//! the window repeats the first or the last point, so the curve starts and
//! stops exactly on them.

use vstd::prelude::*;

verus! {

/// The segment that is evaluated for `segment_id`: the segment itself, or the
/// last one when `segment_id` lies beyond it.
pub open spec fn clamped_segment(segment_id: int, len: int) -> int {
    if segment_id < len - 2 {
        segment_id
    } else {
        len - 2
    }
}

/// The four control-point indices around segment `segment_id` of a sequence
/// of `len` points: nominally `k - 1, k, k + 1, k + 2`, with the first index
/// held at `0` and the last at `len - 1`.
pub open spec fn control_window(segment_id: int, len: int) -> (int, int, int, int) {
    let k = clamped_segment(segment_id, len);
    (
        if k == 0 {
            0
        } else {
            k - 1
        },
        k,
        k + 1,
        if k + 2 < len {
            k + 2
        } else {
            len - 1
        },
    )
}

/// Every index of a window addresses one of the `len` points, the indices
/// never decrease, and the two in the middle are the ends of the segment.
pub proof fn lemma_control_window_in_bounds(segment_id: int, len: int)
    requires
        0 <= segment_id,
        2 <= len,
    ensures
        ({
            let w = control_window(segment_id, len);
            &&& 0 <= w.0 <= w.1 < w.2 <= w.3 < len
            &&& w.2 == w.1 + 1
            &&& w.1 - w.0 <= 1
            &&& w.3 - w.2 <= 1
        }),
        segment_id < len - 1 ==> control_window(segment_id, len).1 == segment_id,
{
}

/// Splines over points in three-dimensional space.
pub struct Spline3;

impl Spline3 {
    /// Selects the control points for one segment of a sequence of `len`
    /// points.
    pub fn get_control_points_for_segment(segment_id: usize, len: usize) -> (window: (
        usize,
        usize,
        usize,
        usize,
    ))
        requires
            len >= 2,
        ensures
            (window.0 as int, window.1 as int, window.2 as int, window.3 as int) == control_window(
                segment_id as int,
                len as int,
            ),
    {
        let k: usize = if segment_id < len - 2 {
            segment_id
        } else {
            len - 2
        };
        let first: usize = if k == 0 {
            0
        } else {
            k - 1
        };
        let last: usize = if k + 2 < len {
            k + 2
        } else {
            len - 1
        };
        (first, k, k + 1, last)
    }

    /// The control points for one segment, picked out of the sequence of
    /// points itself.
    pub fn control_points_for_segment<T>(values: &Vec<T>, segment_id: usize) -> (points: (
        &T,
        &T,
        &T,
        &T,
    ))
        requires
            values.len() >= 2,
        ensures
            ({
                let window = control_window(segment_id as int, values.len() as int);
                &&& *points.0 == values@[window.0]
                &&& *points.1 == values@[window.1]
                &&& *points.2 == values@[window.2]
                &&& *points.3 == values@[window.3]
            }),
    {
        let window = Self::get_control_points_for_segment(segment_id, values.len());
        (&values[window.0], &values[window.1], &values[window.2], &values[window.3])
    }
}

} // verus!
