//! The mathematical model of frame pacing along a camera path.
//!
//! Arc lengths are whole numbers of *ticks*, `ticks_per_unit` of which make
//! one unit of length. Consecutive frames lie `1 / frames_per_unit` of a unit
//! apart, which need not be a whole number of ticks, so positions are counted
//! in *paces* instead: one tick is `frames_per_unit` paces, and one frame is
//! therefore exactly `ticks_per_unit` paces.
//!
//! Segments are half-open: a position that falls on the joint of two segments
//! belongs to the later one, and the far end of the path belongs to none.

use vstd::prelude::*;
use vstd::arithmetic::div_mod::{lemma_fundamental_div_mod, lemma_fundamental_div_mod_converse};
use crate::frustum_path::{LongerSegment, PathSample};
use crate::spline::control_window;

verus! {

/// The pacing lengths of a path, segment by segment, from the lengths of its
/// origin and target splines.
pub open spec fn pacing_lengths(origin: Seq<u64>, target: Seq<u64>) -> Seq<LongerSegment> {
    Seq::new(origin.len(), |i: int| LongerSegment::longer_of(origin[i], target[i]))
}

/// The summed pacing length, in ticks, of the first `k` segments.
pub open spec fn length_before(segments: Seq<LongerSegment>, k: int) -> nat
    decreases k,
{
    if k <= 0 {
        0
    } else {
        length_before(segments, k - 1) + segments[k - 1].value()
    }
}

/// What determines the pacing of a path.
pub struct Pacing {
    /// Pacing length of each segment, in path order.
    pub segments: Seq<LongerSegment>,
    /// Output frames per unit of length.
    pub frames_per_unit: nat,
    /// Ticks per unit of length.
    pub ticks_per_unit: nat,
}

impl Pacing {
    /// A path has a segment to travel, and both rates are positive.
    pub open spec fn wf(self) -> bool {
        &&& self.segments.len() >= 1
        &&& self.frames_per_unit >= 1
        &&& self.ticks_per_unit >= 1
    }

    /// Number of keyframes: one more than there are segments.
    pub open spec fn key_frames(self) -> nat {
        self.segments.len() + 1
    }

    /// Summed pacing length of all segments, in ticks.
    pub open spec fn path_length(self) -> nat {
        length_before(self.segments, self.segments.len() as int)
    }

    /// Paces from one frame to the next.
    pub open spec fn step(self) -> nat {
        self.ticks_per_unit
    }

    /// Paces in segment `i`.
    pub open spec fn span(self, i: int) -> nat {
        self.segments[i].value() * self.frames_per_unit
    }

    /// Paces between the start of the path and the start of segment `k`.
    pub open spec fn paces_before(self, k: int) -> nat
        decreases k,
    {
        if k <= 0 {
            0
        } else {
            self.paces_before(k - 1) + self.span(k - 1)
        }
    }

    /// Paces between the start of the path and its end.
    pub open spec fn total_paces(self) -> nat {
        self.paces_before(self.segments.len() as int)
    }

    /// `sample` is the place `travelled` paces from the start of the path.
    pub open spec fn is_sample_at(self, sample: PathSample, travelled: int) -> bool {
        &&& sample.segment < self.segments.len()
        &&& self.paces_before(sample.segment as int) + sample.offset == travelled
        &&& sample.offset < sample.span
        &&& sample.span == self.span(sample.segment as int)
        &&& (
            sample.control_points.0 as int,
            sample.control_points.1 as int,
            sample.control_points.2 as int,
            sample.control_points.3 as int,
        ) == control_window(sample.segment as int, self.key_frames() as int)
    }

    /// Number of frames still to come after `travelled` paces: those at
    /// `travelled + j * step()` for `j >= 1` that lie before the end of the
    /// path.
    pub open spec fn frames_after(self, travelled: int) -> nat {
        if travelled < self.total_paces() {
            ((self.total_paces() - travelled - 1) / (self.step() as int)) as nat
        } else {
            0
        }
    }

    /// Number of frames of a whole traversal.
    pub open spec fn frame_count(self) -> nat {
        self.frames_after(0)
    }

    /// Paces between a position `travelled` paces from the start and the end
    /// of the path.
    pub open spec fn rest(self, travelled: int) -> int {
        if travelled < self.total_paces() {
            self.total_paces() - travelled
        } else {
            0
        }
    }

    /// The lower bound that a traversal reports of the frames still to come:
    /// the rest of the path in units, times the frame rate, rounded down,
    /// which in paces is `rest / step()`. Where that product is a whole
    /// number of frames, the last of them would fall on the end of the path,
    /// which belongs to no segment; it is not yielded, and the bound is one
    /// less.
    pub open spec fn hint_lower(self, travelled: int) -> int {
        let rest = self.rest(travelled);
        if rest == 0 {
            0
        } else if rest % (self.step() as int) == 0 {
            rest / (self.step() as int) - 1
        } else {
            rest / (self.step() as int)
        }
    }

    /// The upper bound that a traversal reports of the frames still to come:
    /// the rest of the path in units, times the frame rate, rounded up.
    pub open spec fn hint_upper(self, travelled: int) -> int {
        (self.rest(travelled) + self.step() - 1) / (self.step() as int)
    }

    /// The start of a segment is never farther than the start of a later one.
    pub proof fn lemma_paces_monotone(self, i: int, j: int)
        requires
            i <= j,
        ensures
            self.paces_before(i) <= self.paces_before(j),
        decreases j - i,
    {
        if i < j {
            self.lemma_paces_monotone(i, j - 1);
        }
    }

    /// Paces are ticks times the frame rate, for sums as for single segments.
    pub proof fn lemma_paces_scale(self, k: int)
        ensures
            self.paces_before(k) == length_before(self.segments, k) * self.frames_per_unit,
        decreases k,
    {
        if k > 0 {
            self.lemma_paces_scale(k - 1);
            let a = length_before(self.segments, k - 1);
            let b = self.segments[k - 1].value();
            let n = self.frames_per_unit;
            assert((a + b) * n == a * n + b * n) by (nonlinear_arith);
        } else {
            assert(length_before(self.segments, k) == 0);
        }
    }

    /// A segment ends no later than the path does.
    pub proof fn lemma_segment_within_path(self, i: int)
        requires
            0 <= i < self.segments.len(),
        ensures
            self.paces_before(i) + self.span(i) <= self.total_paces(),
    {
        self.lemma_paces_monotone(i + 1, self.segments.len() as int);
    }

    /// At most one place lies a given number of paces from the start: the
    /// half-open segments do not overlap, and empty segments hold no place.
    pub proof fn lemma_sample_unique(self, a: PathSample, b: PathSample, travelled: int)
        requires
            self.is_sample_at(a, travelled),
            self.is_sample_at(b, travelled),
        ensures
            a == b,
    {
        if a.segment < b.segment {
            self.lemma_paces_monotone(a.segment + 1, b.segment as int);
        } else if b.segment < a.segment {
            self.lemma_paces_monotone(b.segment + 1, a.segment as int);
        }
    }

    /// A place lies in a segment of positive length, strictly before the end
    /// of that segment and of the path: segments without length are passed
    /// over, and the local parameter `offset / span` stays below one.
    pub proof fn lemma_sample_in_segment(self, sample: PathSample, travelled: int)
        requires
            self.is_sample_at(sample, travelled),
        ensures
            self.segments[sample.segment as int].value() > 0,
            self.paces_before(sample.segment as int) <= travelled < self.paces_before(
                sample.segment + 1,
            ),
            travelled < self.total_paces(),
    {
        self.lemma_segment_within_path(sample.segment as int);
    }

    /// One step of a traversal: if the next frame position lies before the end
    /// of the path, a frame is due and one frame fewer remains after it;
    /// otherwise none remains.
    pub proof fn lemma_frames_after_step(self, travelled: int)
        requires
            self.wf(),
            0 <= travelled,
        ensures
            travelled + self.step() < self.total_paces() ==> self.frames_after(travelled)
                == self.frames_after(travelled + self.step()) + 1,
            travelled + self.step() >= self.total_paces() ==> self.frames_after(travelled) == 0,
    {
        let total = self.total_paces() as int;
        let step = self.step() as int;
        if travelled + step < total {
            let rest = total - travelled - step - 1;
            assert((rest + step) / step == rest / step + 1) by (nonlinear_arith)
                requires
                    step > 0,
                    rest >= 0,
            ;
        } else if travelled < total {
            let rest = total - travelled - 1;
            assert(rest / step == 0) by (nonlinear_arith)
                requires
                    0 <= rest < step,
            ;
        }
    }

    /// The reported bounds enclose the number of frames still to come: the
    /// lower bound is that number, and the upper bound is one more until the
    /// end of the path is reached.
    pub proof fn lemma_hint_bounds(self, travelled: int)
        requires
            self.wf(),
            0 <= travelled,
        ensures
            self.hint_lower(travelled) == self.frames_after(travelled),
            self.hint_upper(travelled) == self.frames_after(travelled) + if travelled
                < self.total_paces() {
                1nat
            } else {
                0nat
            },
            self.frames_after(travelled) < self.rest(travelled) || self.rest(travelled) == 0,
            0 <= self.hint_lower(travelled) <= self.hint_upper(travelled),
    {
        let step = self.step() as int;
        let rest = self.rest(travelled);
        let q = rest / step;
        let r = rest % step;
        lemma_fundamental_div_mod(rest, step);
        assert(step * q == q * step && step * (q - 1) == q * step - step && step * (q + 1) == q
            * step + step) by (nonlinear_arith);
        if rest > 0 {
            assert(q <= rest) by (nonlinear_arith)
                requires
                    rest == step * q + r,
                    0 <= r,
                    step >= 1,
                    q * step == step * q,
                    rest > 0,
            ;
            if r == 0 {
                lemma_fundamental_div_mod_converse(rest - 1, step, q - 1, step - 1);
                lemma_fundamental_div_mod_converse(rest + step - 1, step, q, step - 1);
            } else {
                lemma_fundamental_div_mod_converse(rest - 1, step, q, r - 1);
                lemma_fundamental_div_mod_converse(rest + step - 1, step, q + 1, r - 1);
            }
        } else {
            lemma_fundamental_div_mod_converse(step - 1, step, 0, step - 1);
        }
    }

    /// Both reported bounds count down by one with every frame that is
    /// yielded.
    pub proof fn lemma_hint_step(self, travelled: int)
        requires
            self.wf(),
            0 <= travelled,
            travelled + self.step() < self.total_paces(),
        ensures
            self.hint_lower(travelled) == self.hint_lower(travelled + self.step()) + 1,
            self.hint_upper(travelled) == self.hint_upper(travelled + self.step()) + 1,
    {
        self.lemma_hint_bounds(travelled);
        self.lemma_hint_bounds(travelled + self.step());
        self.lemma_frames_after_step(travelled);
    }

    /// A traversal from the start of a path of `L` units at `N` frames per
    /// unit emits within one frame of `L * N` frames: never more than its
    /// floor, and exactly one fewer than its ceiling unless the path is empty.
    /// In paces, `L * N` is `total_paces() / step()`.
    pub proof fn lemma_frame_count_bounds(self)
        requires
            self.wf(),
        ensures
            self.frame_count() <= self.total_paces() / self.step(),
            self.frame_count() + 1 >= self.total_paces() / self.step(),
            self.total_paces() > 0 ==> self.frame_count() + 1 == (self.total_paces() + self.step()
                - 1) / (self.step() as int),
            self.total_paces() == 0 ==> self.frame_count() == 0,
            self.frame_count() * self.step() <= self.total_paces(),
    {
        let total = self.total_paces() as int;
        let step = self.step() as int;
        if total > 0 {
            let rest = total - 1;
            assert((rest + step) / step == rest / step + 1) by (nonlinear_arith)
                requires
                    step > 0,
                    rest >= 0,
            ;
            assert(rest / step <= (rest + 1) / step && (rest + 1) / step <= rest / step + 1
                && (rest / step) * step <= rest) by (nonlinear_arith)
                requires
                    step > 0,
                    rest >= 0,
            ;
        } else {
            assert(0int / step == 0) by (nonlinear_arith)
                requires
                    step > 0,
            ;
        }
    }

    /// The frames of a traversal, in order: frame `j`, counted from one, lies
    /// `j * step()` paces from the start, before the end of the path, for
    /// every `j` up to `frame_count()`; the position after the last frame is
    /// at or past the end, so the traversal stops there.
    pub proof fn lemma_frame_positions(self, j: int)
        requires
            self.wf(),
            1 <= j,
        ensures
            j <= self.frame_count() <==> j * self.step() < self.total_paces(),
            self.frames_after(j * self.step()) == if j <= self.frame_count() {
                self.frame_count() - j
            } else {
                0
            },
        decreases j,
    {
        let step = self.step() as int;
        assert((j - 1) * step + step == j * step) by (nonlinear_arith);
        assert((j - 1) * step >= 0) by (nonlinear_arith)
            requires
                j >= 1,
                step >= 1,
        ;
        if j > 1 {
            self.lemma_frame_positions(j - 1);
        } else {
            assert(0 * step == 0);
        }
        self.lemma_frames_after_step((j - 1) * step);
    }
}

} // verus!
