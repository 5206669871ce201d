//! The pixel domain as divisible work: a producer owns a run of consecutive
//! linear indices and can be split, as often as wanted, into two producers
//! that own the two parts of the run. No pixel is shared between producers
//! and none is lost, so the parts can be consumed concurrently without
//! synchronisation.

use vstd::prelude::*;
use vstd::seq_lib::lemma_flatten_concat;
use crate::grid::{FrustumIterator, Pixel, PixelGrid};

verus! {

/// A producer of the pixels with linear indices `lo()` to `hi()`, both
/// included. A producer that owns no pixel has `hi() == lo() - 1`.
#[derive(Clone, Copy, Debug)]
pub struct FrustumParallelIterator {
    grid: PixelGrid,
    start: usize,
    end: usize,
}

impl View for FrustumParallelIterator {
    type V = Seq<Pixel>;

    /// The pixels that the producer owns, in row-major order.
    closed spec fn view(&self) -> Seq<Pixel> {
        self.grid.pixels().subrange(self.start as int, self.end as int)
    }
}

/// How a producer is to be split: not at all, or into the first `at` pixels
/// and the rest, each part split further in its turn.
pub enum SplitPlan {
    /// The producer stays whole.
    Whole,
    /// The producer is split at `at`, and its parts as `left` and `right` say.
    Split { at: nat, left: Box<SplitPlan>, right: Box<SplitPlan> },
}

impl SplitPlan {
    /// Every split point of the plan lies within the run that it divides,
    /// for a producer of `len` pixels.
    pub open spec fn fits(self, len: nat) -> bool
        decreases self,
    {
        match self {
            SplitPlan::Whole => true,
            SplitPlan::Split { at, left, right } => {
                &&& at <= len
                &&& left.fits(at)
                &&& right.fits((len - at) as nat)
            },
        }
    }
}

impl FrustumParallelIterator {
    /// The grid whose pixels are produced.
    pub closed spec fn grid(&self) -> PixelGrid {
        self.grid
    }

    /// Linear index of the first pixel that the producer owns.
    pub closed spec fn lo(&self) -> int {
        self.start as int
    }

    /// Linear index of the last pixel that the producer owns.
    pub closed spec fn hi(&self) -> int {
        self.end as int - 1
    }

    /// The run lies on the grid.
    pub closed spec fn wf(&self) -> bool {
        &&& self.grid.wf()
        &&& self.start <= self.end <= self.grid.pixel_count()
    }

    /// The producer that owns every pixel of `grid`.
    pub closed spec fn whole(grid: PixelGrid) -> FrustumParallelIterator {
        FrustumParallelIterator { grid, start: 0, end: grid.pixel_count() }
    }

    /// The two producers that a split at `index` leaves.
    pub closed spec fn split_spec(self, index: int) -> (
        FrustumParallelIterator,
        FrustumParallelIterator,
    ) {
        (
            FrustumParallelIterator {
                grid: self.grid,
                start: self.start,
                end: (self.start + index) as usize,
            },
            FrustumParallelIterator {
                grid: self.grid,
                start: (self.start + index) as usize,
                end: self.end,
            },
        )
    }

    /// The producers that are left when the producer is split as `plan`
    /// says, in the order of their pixels.
    pub open spec fn leaves(self, plan: SplitPlan) -> Seq<FrustumParallelIterator>
        decreases plan,
    {
        match plan {
            SplitPlan::Whole => seq![self],
            SplitPlan::Split { at, left, right } => {
                let halves = self.split_spec(at as int);
                halves.0.leaves(*left) + halves.1.leaves(*right)
            },
        }
    }

    /// The pixels of a sequence of producers, one producer after the other.
    pub open spec fn produced(leaves: Seq<FrustumParallelIterator>) -> Seq<Pixel> {
        leaves.map_values(|leaf: FrustumParallelIterator| leaf@).flatten()
    }

    /// A producer owns the pixels of its grid from `lo()` to `hi()`, and
    /// `hi() - lo() + 1` of them.
    pub proof fn lemma_view(&self)
        requires
            self.wf(),
        ensures
            self.grid().wf(),
            0 <= self.lo() <= self.hi() + 1 <= self.grid().pixel_count(),
            self@ == self.grid().pixels().subrange(self.lo(), self.hi() + 1),
            self@.len() == self.hi() - self.lo() + 1,
            forall|i: int|
                0 <= i < self@.len() ==> self@[i] == #[trigger] self.grid().pixel_at(
                    self.lo() + i,
                ),
    {
    }

    /// The producer of a whole grid owns all its pixels.
    pub proof fn lemma_whole(grid: PixelGrid)
        requires
            grid.wf(),
        ensures
            Self::whole(grid).wf(),
            Self::whole(grid).grid() == grid,
            Self::whole(grid).lo() == 0,
            Self::whole(grid).hi() == grid.pixel_count() - 1,
            Self::whole(grid)@ == grid.pixels(),
    {
    }

    /// A split at `index` leaves the first `index` pixels to the one producer
    /// and the others to the other: `[lo, lo + index - 1]` and
    /// `[lo + index, hi]`, with no overlap and no gap.
    pub proof fn lemma_split(self, index: int)
        requires
            self.wf(),
            0 <= index <= self@.len(),
        ensures
            ({
                let (left, right) = self.split_spec(index);
                &&& left.wf()
                &&& right.wf()
                &&& left.grid() == self.grid()
                &&& right.grid() == self.grid()
                &&& left.lo() == self.lo()
                &&& left.hi() == self.lo() + index - 1
                &&& right.lo() == self.lo() + index
                &&& right.hi() == self.hi()
                &&& left@ == self@.take(index)
                &&& right@ == self@.skip(index)
                &&& left@ + right@ == self@
            }),
    {
    }

    /// However a producer is split, and however often, the producers that
    /// are left own what it owned: taken in order, they produce the same
    /// pixels in the same order, each exactly once.
    pub proof fn lemma_partition_complete(self, plan: SplitPlan)
        requires
            self.wf(),
            plan.fits(self@.len()),
        ensures
            Self::produced(self.leaves(plan)) == self@,
            forall|j: int|
                0 <= j < self.leaves(plan).len() ==> (#[trigger] self.leaves(plan)[j]).wf()
                    && self.leaves(plan)[j].grid() == self.grid(),
        decreases plan,
    {
        let view_of = |leaf: FrustumParallelIterator| leaf@;
        match plan {
            SplitPlan::Whole => {
                assert(self.leaves(plan).map_values(view_of) == seq![self@]);
                assert(seq![self@].flatten() == self@) by {
                    seq![self@].lemma_flatten_singleton();
                }
            },
            SplitPlan::Split { at, left, right } => {
                let halves = self.split_spec(at as int);
                self.lemma_split(at as int);
                halves.0.lemma_partition_complete(*left);
                halves.1.lemma_partition_complete(*right);
                let first = halves.0.leaves(*left);
                let second = halves.1.leaves(*right);
                assert((first + second).map_values(view_of) == first.map_values(view_of)
                    + second.map_values(view_of));
                lemma_flatten_concat(first.map_values(view_of), second.map_values(view_of));
            },
        }
    }

    /// However the pixel domain of a grid is split, the producers that are
    /// left cover it: in order they produce the linear indices `0`, `1`, ...
    /// up to the last, so each pixel once and none twice.
    pub proof fn lemma_grid_partition(grid: PixelGrid, plan: SplitPlan)
        requires
            grid.wf(),
            plan.fits(grid.pixel_count() as nat),
        ensures
            Self::produced(Self::whole(grid).leaves(plan)) == grid.pixels(),
            Self::produced(Self::whole(grid).leaves(plan)).len() == grid.pixel_count(),
            forall|i: int|
                0 <= i < grid.pixel_count() ==> (#[trigger] Self::produced(
                    Self::whole(grid).leaves(plan),
                )[i]).index == i,
    {
        Self::lemma_whole(grid);
        Self::whole(grid).lemma_partition_complete(plan);
    }

    /// Number of pixels that the producer owns.
    pub fn len(&self) -> (len: usize)
        requires
            self.wf(),
        ensures
            len == self@.len(),
            len == self.hi() - self.lo() + 1,
    {
        self.end - self.start
    }

    /// Divides the producer into one that owns its first `index` pixels and
    /// one that owns the others.
    pub fn split_at(self, index: usize) -> (halves: (
        FrustumParallelIterator,
        FrustumParallelIterator,
    ))
        requires
            self.wf(),
            index <= self@.len(),
        ensures
            halves == self.split_spec(index as int),
            halves.0.wf(),
            halves.1.wf(),
            halves.0.grid() == self.grid(),
            halves.1.grid() == self.grid(),
            halves.0.lo() == self.lo(),
            halves.0.hi() == self.lo() + index - 1,
            halves.1.lo() == self.lo() + index,
            halves.1.hi() == self.hi(),
            halves.0@ == self@.take(index as int),
            halves.1@ == self@.skip(index as int),
            halves.0@ + halves.1@ == self@,
    {
        proof {
            self.lemma_split(index as int);
        }
        let middle: usize = self.start + index;
        (
            FrustumParallelIterator { grid: self.grid, start: self.start, end: middle },
            FrustumParallelIterator { grid: self.grid, start: middle, end: self.end },
        )
    }

    /// Turns the producer into the walk over its pixels.
    pub fn into_iter(self) -> (iter: FrustumIterator)
        requires
            self.wf(),
        ensures
            iter.wf(),
            iter.grid() == self.grid(),
            iter@ == self@,
    {
        FrustumIterator::over(self.grid, self.start, self.end)
    }
}

impl PixelGrid {
    /// The producer of all pixels of the grid.
    pub fn into_par_iter(self) -> (producer: FrustumParallelIterator)
        requires
            self.wf(),
        ensures
            producer == FrustumParallelIterator::whole(self),
            producer.wf(),
            producer.grid() == self,
            producer.lo() == 0,
            producer.hi() == self.pixel_count() - 1,
            producer@ == self.pixels(),
    {
        proof {
            FrustumParallelIterator::lemma_whole(self);
        }
        FrustumParallelIterator { grid: self, start: 0, end: self.pixel_count() }
    }

    /// The producer of all pixels of the grid.
    pub fn par_iter(&self) -> (producer: FrustumParallelIterator)
        requires
            self.wf(),
        ensures
            producer == FrustumParallelIterator::whole(*self),
            producer.wf(),
            producer.grid() == *self,
            producer.lo() == 0,
            producer.hi() == self.pixel_count() - 1,
            producer@ == self.pixels(),
    {
        self.into_par_iter()
    }
}

} // verus!
