//! Frame pacing along a camera path: the table of pacing lengths and the
//! iterator that walks it one frame at a time.

use vstd::prelude::*;
use crate::pacing::{length_before, pacing_lengths, Pacing};
use crate::spline::Spline3;

verus! {

/// Why a path cannot be traversed.
#[derive(Clone, Copy, Debug, PartialEq, Eq, Structural)]
pub enum PathError {
    /// The origin and the target spline differ in their number of segments.
    SegmentCountMismatch,
    /// The path has fewer than two keyframes, and so no segment.
    TooFewKeyframes,
    /// The path asks for zero frames per unit of length.
    ZeroFrameRate,
    /// Lengths are given in ticks of which zero make a unit.
    ZeroTickRate,
    /// The keyframes cannot be counted in `usize`, or the paces of the whole
    /// path not in `u64`.
    PathTooLong,
}

/// The pacing length of one segment, tagged with the spline that set it: the
/// camera origin and the look-at target each trace a spline, and the longer
/// of the two paces the segment.
#[derive(Clone, Copy, Debug, PartialEq, Eq, Structural)]
pub enum LongerSegment {
    /// The origin spline is at least as long as the target spline.
    Origin(u64),
    /// The target spline is strictly longer than the origin spline.
    Target(u64),
}

impl LongerSegment {
    /// The pacing length in ticks, whichever spline set it.
    pub open spec fn value(self) -> nat {
        match self {
            LongerSegment::Origin(v) => v as nat,
            LongerSegment::Target(v) => v as nat,
        }
    }

    /// The pacing length of a segment whose origin and target splines
    /// measure `origin` and `target` ticks.
    pub open spec fn longer_of(origin: u64, target: u64) -> LongerSegment {
        if origin >= target {
            LongerSegment::Origin(origin)
        } else {
            LongerSegment::Target(target)
        }
    }

    /// The pacing length of a segment is the greater of its two spline
    /// lengths, so neither the origin nor the target outruns the pacing.
    pub proof fn lemma_longer_of_is_max(origin: u64, target: u64)
        ensures
            Self::longer_of(origin, target).value() >= origin,
            Self::longer_of(origin, target).value() >= target,
            Self::longer_of(origin, target).value() == origin || Self::longer_of(
                origin,
                target,
            ).value() == target,
    {
    }

    /// Picks the longer of the two spline lengths of one segment.
    pub fn longer(origin: u64, target: u64) -> (segment: LongerSegment)
        ensures
            segment == Self::longer_of(origin, target),
    {
        if origin >= target {
            LongerSegment::Origin(origin)
        } else {
            LongerSegment::Target(target)
        }
    }

    /// The pacing length in ticks.
    pub fn as_value(&self) -> (v: u64)
        ensures
            v == self.value(),
    {
        match self {
            LongerSegment::Origin(v) => *v,
            LongerSegment::Target(v) => *v,
        }
    }
}

/// One place on a path: a segment, how far into it, and the keyframes that
/// shape the splines there. The local spline parameter is `offset / span`.
#[derive(Clone, Copy, Debug, PartialEq, Eq)]
pub struct PathSample {
    /// Index of the segment, counted from zero.
    pub segment: usize,
    /// Paces between the start of the segment and this place.
    pub offset: u64,
    /// Paces between the start of the segment and its end; more than `offset`.
    pub span: u64,
    /// Indices of the four keyframes that are control points of the segment.
    pub control_points: (usize, usize, usize, usize),
}

/// The pacing that `PacingTable::new` is asked to build.
pub open spec fn requested_pacing(
    origin_lengths: Seq<u64>,
    target_lengths: Seq<u64>,
    frames_per_unit: u8,
    ticks_per_unit: u64,
) -> Pacing {
    Pacing {
        segments: pacing_lengths(origin_lengths, target_lengths),
        frames_per_unit: frames_per_unit as nat,
        ticks_per_unit: ticks_per_unit as nat,
    }
}

/// The first fault of a requested pacing, if it has one.
pub open spec fn path_error(
    origin_lengths: Seq<u64>,
    target_lengths: Seq<u64>,
    frames_per_unit: u8,
    ticks_per_unit: u64,
) -> Option<PathError> {
    let pacing = requested_pacing(origin_lengths, target_lengths, frames_per_unit, ticks_per_unit);
    if origin_lengths.len() != target_lengths.len() {
        Some(PathError::SegmentCountMismatch)
    } else if origin_lengths.len() == 0 {
        Some(PathError::TooFewKeyframes)
    } else if frames_per_unit == 0 {
        Some(PathError::ZeroFrameRate)
    } else if ticks_per_unit == 0 {
        Some(PathError::ZeroTickRate)
    } else if pacing.key_frames() > usize::MAX || pacing.total_paces() > u64::MAX {
        Some(PathError::PathTooLong)
    } else {
        None
    }
}

/// The pacing length of every segment of a path, with the two rates that
/// turn lengths into frames.
#[derive(Debug)]
pub struct PacingTable {
    segments: Vec<LongerSegment>,
    path_length: u64,
    total_paces: u64,
    frames_per_unit: u8,
    ticks_per_unit: u64,
}

impl View for PacingTable {
    type V = Pacing;

    closed spec fn view(&self) -> Pacing {
        Pacing {
            segments: self.segments@,
            frames_per_unit: self.frames_per_unit as nat,
            ticks_per_unit: self.ticks_per_unit as nat,
        }
    }
}

impl PacingTable {
    /// The table describes a path that can be traversed, and its cached sums
    /// are those of its segments.
    pub closed spec fn wf(&self) -> bool {
        &&& self@.wf()
        &&& self@.key_frames() <= usize::MAX
        &&& self.path_length == self@.path_length()
        &&& self.total_paces == self@.total_paces()
    }

    /// Builds the table of a path from the arc lengths, in ticks, of the
    /// segments of its origin spline and of its target spline. A path of `n`
    /// keyframes has `n - 1` segments; the longer of the two lengths paces
    /// each.
    pub fn new(
        origin_lengths: &Vec<u64>,
        target_lengths: &Vec<u64>,
        frames_per_unit: u8,
        ticks_per_unit: u64,
    ) -> (table: Result<PacingTable, PathError>)
        ensures
            match table {
                Ok(t) => {
                    &&& path_error(
                        origin_lengths@,
                        target_lengths@,
                        frames_per_unit,
                        ticks_per_unit,
                    ) is None
                    &&& t.wf()
                    &&& t@ == requested_pacing(
                        origin_lengths@,
                        target_lengths@,
                        frames_per_unit,
                        ticks_per_unit,
                    )
                },
                Err(e) => path_error(
                    origin_lengths@,
                    target_lengths@,
                    frames_per_unit,
                    ticks_per_unit,
                ) == Some(e),
            },
            origin_lengths@.len() == 0 || target_lengths@.len() == 0 ==> table is Err,
            frames_per_unit == 0 ==> table is Err,
    {
        let count: usize = origin_lengths.len();
        if count != target_lengths.len() {
            return Err(PathError::SegmentCountMismatch);
        }
        if count == 0 {
            return Err(PathError::TooFewKeyframes);
        }
        if frames_per_unit == 0 {
            return Err(PathError::ZeroFrameRate);
        }
        if ticks_per_unit == 0 {
            return Err(PathError::ZeroTickRate);
        }
        let ghost pacing = requested_pacing(
            origin_lengths@,
            target_lengths@,
            frames_per_unit,
            ticks_per_unit,
        );
        if count == usize::MAX {
            return Err(PathError::PathTooLong);
        }
        let mut segments: Vec<LongerSegment> = Vec::new();
        let mut path_length: u64 = 0;
        let mut total_paces: u64 = 0;
        let mut i: usize = 0;
        while i < count
            invariant
                count == origin_lengths.len(),
                count == target_lengths.len(),
                1 <= count < usize::MAX,
                frames_per_unit >= 1,
                ticks_per_unit >= 1,
                pacing == requested_pacing(
                    origin_lengths@,
                    target_lengths@,
                    frames_per_unit,
                    ticks_per_unit,
                ),
                i <= count,
                segments@ == pacing.segments.take(i as int),
                path_length == length_before(pacing.segments, i as int),
                total_paces == pacing.paces_before(i as int),
            decreases count - i,
        {
            let segment = LongerSegment::longer(origin_lengths[i], target_lengths[i]);
            proof {
                pacing.lemma_paces_monotone(i + 1, count as int);
                pacing.lemma_paces_scale(i + 1);
                assert(length_before(pacing.segments, i + 1) <= pacing.paces_before(i + 1))
                    by (nonlinear_arith)
                    requires
                        pacing.paces_before(i + 1) == length_before(pacing.segments, i + 1)
                            * pacing.frames_per_unit,
                        pacing.frames_per_unit >= 1,
                ;
            }
            let span: u64 = match segment.as_value().checked_mul(frames_per_unit as u64) {
                Some(span) => span,
                None => {
                    return Err(PathError::PathTooLong);
                },
            };
            total_paces = match total_paces.checked_add(span) {
                Some(sum) => sum,
                None => {
                    return Err(PathError::PathTooLong);
                },
            };
            path_length = path_length + segment.as_value();
            segments.push(segment);
            i = i + 1;
        }
        assert(segments@ == pacing.segments);
        Ok(PacingTable { segments, path_length, total_paces, frames_per_unit, ticks_per_unit })
    }

    /// Number of segments of the path.
    pub fn segment_count(&self) -> (count: usize)
        requires
            self.wf(),
        ensures
            count == self@.segments.len(),
            count >= 1,
    {
        self.segments.len()
    }

    /// Number of keyframes of the path.
    pub fn key_frames(&self) -> (count: usize)
        requires
            self.wf(),
        ensures
            count == self@.key_frames(),
            count >= 2,
    {
        self.segments.len() + 1
    }

    /// The pacing length of segment `index`.
    pub fn segment(&self, index: usize) -> (segment: Option<LongerSegment>)
        ensures
            index < self@.segments.len() ==> segment == Some(self@.segments[index as int]),
            index >= self@.segments.len() ==> segment is None,
    {
        if index < self.segments.len() {
            Some(self.segments[index])
        } else {
            None
        }
    }

    /// Pacing length of the whole path, in ticks: the sum over its segments.
    pub fn path_length(&self) -> (length: u64)
        requires
            self.wf(),
        ensures
            length == self@.path_length(),
    {
        self.path_length
    }

    /// Output frames per unit of length.
    pub fn frames_per_unit(&self) -> (rate: u8)
        ensures
            rate == self@.frames_per_unit,
    {
        self.frames_per_unit
    }

    /// Ticks per unit of length.
    pub fn ticks_per_unit(&self) -> (rate: u64)
        ensures
            rate == self@.ticks_per_unit,
    {
        self.ticks_per_unit
    }

    /// Starts a traversal at the beginning of the path. The traversal works
    /// on a copy of the table, which stays available for further ones.
    pub fn iter(&self) -> (iter: FrustumPathIterator)
        requires
            self.wf(),
        ensures
            iter.wf(),
            iter.pacing() == self@,
            iter.travelled() == 0,
    {
        let segments = self.segments.clone();
        let table = PacingTable {
            segments,
            path_length: self.path_length,
            total_paces: self.total_paces,
            frames_per_unit: self.frames_per_unit,
            ticks_per_unit: self.ticks_per_unit,
        };
        table.into_iter()
    }

    /// Starts a traversal at the beginning of the path.
    pub fn into_iter(self) -> (iter: FrustumPathIterator)
        requires
            self.wf(),
        ensures
            iter.wf(),
            iter.pacing() == self@,
            iter.travelled() == 0,
    {
        FrustumPathIterator { table: self, segment: 0, offset: 0, travelled: 0 }
    }
}

/// A traversal of a path, one frame per step.
#[derive(Debug)]
pub struct FrustumPathIterator {
    table: PacingTable,
    segment: usize,
    offset: u64,
    travelled: u64,
}

impl FrustumPathIterator {
    /// The pacing of the path that is traversed.
    pub closed spec fn pacing(&self) -> Pacing {
        self.table@
    }

    /// Paces between the start of the path and the current position.
    pub closed spec fn travelled(&self) -> nat {
        self.travelled as nat
    }

    /// The position lies on the path or at its end, in the segment and at
    /// the offset that the traversal has reached.
    pub closed spec fn wf(&self) -> bool {
        &&& self.table.wf()
        &&& self.segment <= self.table@.segments.len()
        &&& self.travelled == self.table@.paces_before(self.segment as int) + self.offset
        &&& self.segment < self.table@.segments.len() ==> self.offset <= self.table@.span(
            self.segment as int,
        )
        &&& self.segment == self.table@.segments.len() ==> self.offset == 0
    }

    /// The table of the path that is traversed.
    pub fn table(&self) -> (table: &PacingTable)
        requires
            self.wf(),
        ensures
            table.wf(),
            table@ == self.pacing(),
    {
        &self.table
    }

    /// The position never passes the end of the path.
    pub proof fn lemma_travelled_within_path(&self)
        requires
            self.wf(),
        ensures
            self.travelled() <= self.pacing().total_paces(),
            self.pacing().wf(),
            self.pacing().total_paces() <= u64::MAX,
    {
        if self.segment < self.table@.segments.len() {
            self.table@.lemma_segment_within_path(self.segment as int);
        }
    }

    /// Advances by one frame: `1 / frames_per_unit` of a unit of pacing
    /// length, carried across segment joints and over empty segments. Returns
    /// the place that is reached, or `None` once the step reaches or passes
    /// the end of the path; the traversal then rests at the end. Each call
    /// that returns a place uses up one of the frames that remained.
    pub fn next(&mut self) -> (sample: Option<PathSample>)
        requires
            old(self).wf(),
        ensures
            final(self).wf(),
            final(self).pacing() == old(self).pacing(),
            sample is Some <==> old(self).pacing().frames_after(old(self).travelled() as int) > 0,
            old(self).pacing().frames_after(old(self).travelled() as int)
                == final(self).pacing().frames_after(final(self).travelled() as int)
                + if sample is Some { 1nat } else { 0nat },
            match sample {
                Some(s) => {
                    &&& old(self).travelled() + old(self).pacing().step()
                        < old(self).pacing().total_paces()
                    &&& final(self).travelled()
                        == old(self).travelled() + old(self).pacing().step()
                    &&& old(self).pacing().is_sample_at(s, final(self).travelled() as int)
                },
                None => {
                    &&& old(self).travelled() + old(self).pacing().step()
                        >= old(self).pacing().total_paces()
                    &&& final(self).travelled() == old(self).pacing().total_paces()
                },
            },
    {
        let ghost pacing = self.table@;
        let ghost start = self.travelled as int;
        proof {
            pacing.lemma_frames_after_step(start);
        }
        let count: usize = self.table.segments.len();
        let step: u64 = self.table.ticks_per_unit;
        let rate: u64 = self.table.frames_per_unit as u64;
        let total: u64 = self.table.total_paces;
        let mut segment: usize = self.segment;
        let mut offset: u64 = self.offset;
        let mut remaining: u64 = step;
        while segment < count
            invariant
                self.table.wf(),
                self.table == old(self).table,
                pacing == self.table@,
                start == old(self).travelled,
                count == pacing.segments.len(),
                rate == pacing.frames_per_unit,
                step == pacing.step(),
                total == pacing.total_paces(),
                segment <= count,
                segment < count ==> offset <= pacing.span(segment as int),
                segment == count ==> offset == 0,
                pacing.paces_before(segment as int) + offset + remaining == start + step,
                self.travelled == start,
            decreases count - segment,
        {
            proof {
                pacing.lemma_segment_within_path(segment as int);
                pacing.lemma_frames_after_step(start);
            }
            let span: u64 = self.table.segments[segment].as_value() * rate;
            let left: u64 = span - offset;
            if left > remaining {
                offset = offset + remaining;
                let control_points = Spline3::get_control_points_for_segment(segment, count + 1);
                self.segment = segment;
                self.offset = offset;
                self.travelled = self.travelled + step;
                return Some(PathSample { segment, offset, span, control_points });
            }
            remaining = remaining - left;
            segment = segment + 1;
            offset = 0;
        }
        self.segment = count;
        self.offset = 0;
        self.travelled = total;
        None
    }

    /// Number of frames that the traversal will still yield.
    pub fn remaining_frames(&self) -> (frames: u64)
        requires
            self.wf(),
        ensures
            frames == self.pacing().frames_after(self.travelled() as int),
    {
        proof {
            self.lemma_travelled_within_path();
        }
        let total: u64 = self.table.total_paces;
        if self.travelled < total {
            (total - self.travelled - 1) / self.table.ticks_per_unit
        } else {
            0
        }
    }

    /// Bounds on the number of frames still to come. With `L` the length in
    /// units of what is left of the path and `N` the frames per unit, the
    /// upper bound is `L * N` rounded up and the lower bound `L * N` rounded
    /// down. Where `L * N` is a whole number the frame on the very end of the
    /// path is not yielded, so the lower bound is one less: it is always the
    /// exact number of frames. A bound that `usize` cannot hold is reported
    /// as `usize::MAX` below and as `None` above.
    pub fn size_hint(&self) -> (hint: (usize, Option<usize>))
        requires
            self.wf(),
        ensures
            hint.0 == if self.pacing().hint_lower(self.travelled() as int) <= usize::MAX {
                self.pacing().hint_lower(self.travelled() as int)
            } else {
                usize::MAX as int
            },
            self.pacing().hint_upper(self.travelled() as int) <= usize::MAX ==> hint.1 == Some(
                self.pacing().hint_upper(self.travelled() as int) as usize,
            ),
            self.pacing().hint_upper(self.travelled() as int) > usize::MAX ==> hint.1 is None,
            self.pacing().hint_lower(self.travelled() as int) == self.pacing().frames_after(
                self.travelled() as int,
            ),
            0 <= self.pacing().hint_lower(self.travelled() as int) <= self.pacing().hint_upper(
                self.travelled() as int,
            ),
            self.travelled() >= self.pacing().total_paces() ==> hint.0 == 0 && hint.1 == Some(
                0usize,
            ),
    {
        proof {
            self.lemma_travelled_within_path();
            self.pacing().lemma_hint_bounds(self.travelled as int);
        }
        let frames: u64 = self.remaining_frames();
        let most: u64 = if self.travelled < self.table.total_paces {
            frames + 1
        } else {
            0
        };
        let lower: usize = if frames <= usize::MAX as u64 {
            frames as usize
        } else {
            usize::MAX
        };
        let upper: Option<usize> = if most <= usize::MAX as u64 {
            Some(most as usize)
        } else {
            None
        };
        (lower, upper)
    }
}

} // verus!
