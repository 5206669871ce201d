//! The pixel domain of a frustum: the grid `[0, width) x [0, height)`,
//! addressed in row-major order by one linear index, and the iterator that
//! walks it from either end.

use vstd::prelude::*;
use vstd::arithmetic::div_mod::lemma_fundamental_div_mod_converse;

verus! {

/// Why a resolution spans no usable pixel grid.
#[derive(Clone, Copy, Debug, PartialEq, Eq, Structural)]
pub enum GridError {
    /// The width or the height is zero: the grid has no area.
    Empty,
    /// The number of pixels cannot be counted in `usize`.
    TooLarge,
}

/// One pixel: its linear index, and its column `x` and row `y`.
#[derive(Clone, Copy, Debug, PartialEq, Eq, Structural)]
pub struct Pixel {
    /// Position in row-major order, counted from zero.
    pub index: usize,
    /// Column, counted from the left.
    pub x: usize,
    /// Row, counted from the top.
    pub y: usize,
}

/// The fault of a resolution, if it has one.
pub open spec fn grid_error(width: usize, height: usize) -> Option<GridError> {
    if width == 0 || height == 0 {
        Some(GridError::Empty)
    } else if width * height > usize::MAX {
        Some(GridError::TooLarge)
    } else {
        None
    }
}

/// The pixel grid of a frustum of a given resolution.
#[derive(Clone, Copy, Debug, PartialEq, Eq, Structural)]
pub struct PixelGrid {
    width: usize,
    height: usize,
}

impl PixelGrid {
    /// Number of columns.
    pub closed spec fn spec_width(&self) -> usize {
        self.width
    }

    /// Number of rows.
    pub closed spec fn spec_height(&self) -> usize {
        self.height
    }

    /// The grid has at least one pixel and no more than `usize` can count.
    pub open spec fn wf(&self) -> bool {
        &&& self.width() >= 1
        &&& self.height() >= 1
        &&& self.width() * self.height() <= usize::MAX
    }

    /// Number of pixels.
    pub open spec fn spec_pixel_count(&self) -> usize {
        (self.width() * self.height()) as usize
    }

    /// The pixel with linear index `index`: its column is the remainder and
    /// its row the quotient of the index by the width.
    pub open spec fn pixel_at(&self, index: int) -> Pixel {
        Pixel {
            index: index as usize,
            x: (index % (self.width() as int)) as usize,
            y: (index / (self.width() as int)) as usize,
        }
    }

    /// The linear index of the pixel in column `x` of row `y`.
    pub open spec fn index_at(&self, x: int, y: int) -> int {
        y * self.width() + x
    }

    /// All pixels in row-major order.
    pub open spec fn pixels(&self) -> Seq<Pixel> {
        Seq::new(self.pixel_count() as nat, |i: int| self.pixel_at(i))
    }

    /// Every pixel lies on the grid, and the linear index and the column and
    /// row address each other: neither mapping loses or merges a pixel.
    pub proof fn lemma_linear_index(&self, index: int)
        requires
            self.wf(),
            0 <= index < self.pixel_count(),
        ensures
            self.pixel_at(index).index == index,
            self.pixel_at(index).x < self.width(),
            self.pixel_at(index).y < self.height(),
            self.index_at(self.pixel_at(index).x as int, self.pixel_at(index).y as int) == index,
    {
        let w = self.width() as int;
        let h = self.height() as int;
        assert(0 <= index % w < w && index == w * (index / w) + index % w && 0 <= index / w < h)
            by (nonlinear_arith)
            requires
                w >= 1,
                0 <= index < w * h,
        ;
        assert((index / w) * w == w * (index / w)) by (nonlinear_arith);
    }

    /// The pixel in column `x` of row `y` has a linear index on the grid,
    /// and that index leads back to the same column and row.
    pub proof fn lemma_column_row(&self, x: int, y: int)
        requires
            self.wf(),
            0 <= x < self.width(),
            0 <= y < self.height(),
        ensures
            0 <= self.index_at(x, y) < self.pixel_count(),
            self.pixel_at(self.index_at(x, y)).x == x,
            self.pixel_at(self.index_at(x, y)).y == y,
    {
        let w = self.width() as int;
        let h = self.height() as int;
        assert(0 <= y * w && y * w + w <= h * w && h * w == w * h) by (nonlinear_arith)
            requires
                w >= 1,
                0 <= y < h,
        ;
        lemma_fundamental_div_mod_converse(y * w + x, w, y, x);
    }

    /// The grid of a frustum that is `width` pixels wide and `height` high.
    pub fn new(width: usize, height: usize) -> (grid: Result<PixelGrid, GridError>)
        ensures
            match grid {
                Ok(g) => {
                    &&& grid_error(width, height) is None
                    &&& g.wf()
                    &&& g.width() == width
                    &&& g.height() == height
                },
                Err(e) => grid_error(width, height) == Some(e),
            },
    {
        if width == 0 || height == 0 {
            return Err(GridError::Empty);
        }
        match width.checked_mul(height) {
            Some(_) => Ok(PixelGrid { width, height }),
            None => Err(GridError::TooLarge),
        }
    }

    /// Number of columns.
    #[verifier::when_used_as_spec(spec_width)]
    pub fn width(&self) -> (width: usize)
        ensures
            width == self.width(),
    {
        self.width
    }

    /// Number of rows.
    #[verifier::when_used_as_spec(spec_height)]
    pub fn height(&self) -> (height: usize)
        ensures
            height == self.height(),
    {
        self.height
    }

    /// Number of pixels.
    #[verifier::when_used_as_spec(spec_pixel_count)]
    pub fn pixel_count(&self) -> (count: usize)
        requires
            self.wf(),
        ensures
            count == self.pixel_count(),
            count == self.width() * self.height(),
            count >= 1,
    {
        assert(self.width * self.height >= 1) by (nonlinear_arith)
            requires
                self.width >= 1,
                self.height >= 1,
        ;
        self.width * self.height
    }

    /// The pixel with linear index `index`, or `None` where the index lies
    /// beyond the grid.
    pub fn pixel(&self, index: usize) -> (pixel: Option<Pixel>)
        requires
            self.wf(),
        ensures
            index < self.pixel_count() ==> pixel == Some(self.pixel_at(index as int)),
            index >= self.pixel_count() ==> pixel is None,
    {
        if index < self.pixel_count() {
            Some(Pixel { index, x: index % self.width, y: index / self.width })
        } else {
            None
        }
    }

    /// The linear index of the pixel in column `x` of row `y`, or `None`
    /// where that lies beyond the grid.
    pub fn index_of(&self, x: usize, y: usize) -> (index: Option<usize>)
        requires
            self.wf(),
        ensures
            x < self.width() && y < self.height() ==> index == Some(
                self.index_at(x as int, y as int) as usize,
            ) && self.index_at(x as int, y as int) < self.pixel_count(),
            x >= self.width() || y >= self.height() ==> index is None,
    {
        if x < self.width && y < self.height {
            proof {
                self.lemma_column_row(x as int, y as int);
            }
            Some(y * self.width + x)
        } else {
            None
        }
    }

    /// Walks all pixels of the grid.
    pub fn iter(&self) -> (iter: FrustumIterator)
        requires
            self.wf(),
        ensures
            iter.wf(),
            iter.grid() == *self,
            iter@ == self.pixels(),
    {
        let count: usize = self.pixel_count();
        FrustumIterator { grid: *self, front: 0, back: count }
    }
}

/// A walk over a run of consecutive pixels of a grid, which can be consumed
/// from the front and from the back at once until the two ends meet.
#[derive(Clone, Copy, Debug)]
pub struct FrustumIterator {
    grid: PixelGrid,
    front: usize,
    back: usize,
}

impl View for FrustumIterator {
    type V = Seq<Pixel>;

    /// The pixels that are still to come, front to back.
    closed spec fn view(&self) -> Seq<Pixel> {
        self.grid.pixels().subrange(self.front as int, self.back as int)
    }
}

impl FrustumIterator {
    /// The grid that is walked.
    pub closed spec fn grid(&self) -> PixelGrid {
        self.grid
    }

    /// Linear index of the next pixel from the front.
    pub closed spec fn front(&self) -> int {
        self.front as int
    }

    /// One more than the linear index of the next pixel from the back.
    pub closed spec fn back(&self) -> int {
        self.back as int
    }

    /// The two ends have not crossed and lie on the grid.
    pub closed spec fn wf(&self) -> bool {
        &&& self.grid.wf()
        &&& self.front <= self.back <= self.grid.pixel_count()
    }

    /// What is still to come is the run of pixels between the two ends.
    pub proof fn lemma_view(&self)
        requires
            self.wf(),
        ensures
            0 <= self.front() <= self.back() <= self.grid().pixel_count(),
            self@ == self.grid().pixels().subrange(self.front(), self.back()),
            self@.len() == self.back() - self.front(),
            forall|i: int|
                0 <= i < self@.len() ==> self@[i] == #[trigger] self.grid().pixel_at(
                    self.front() + i,
                ),
    {
    }

    /// The walk over the pixels of `grid` with linear indices from `front`
    /// up to, but not including, `back`.
    pub(crate) fn over(grid: PixelGrid, front: usize, back: usize) -> (iter: FrustumIterator)
        requires
            grid.wf(),
            front <= back <= grid.pixel_count(),
        ensures
            iter.wf(),
            iter.grid() == grid,
            iter.front() == front,
            iter.back() == back,
            iter@ == grid.pixels().subrange(front as int, back as int),
    {
        FrustumIterator { grid, front, back }
    }

    /// Takes the next pixel from the front.
    pub fn next(&mut self) -> (pixel: Option<Pixel>)
        requires
            old(self).wf(),
        ensures
            final(self).wf(),
            final(self).grid() == old(self).grid(),
            final(self).back() == old(self).back(),
            old(self)@.len() == 0 ==> pixel is None && final(self)@ == old(self)@,
            old(self)@.len() > 0 ==> {
                &&& pixel == Some(old(self)@.first())
                &&& final(self)@ == old(self)@.drop_first()
                &&& final(self).front() == old(self).front() + 1
            },
    {
        if self.front >= self.back {
            return None;
        }
        let index: usize = self.front;
        let pixel = Pixel { index, x: index % self.grid.width, y: index / self.grid.width };
        self.front = index + 1;
        Some(pixel)
    }

    /// Takes the next pixel from the back.
    pub fn next_back(&mut self) -> (pixel: Option<Pixel>)
        requires
            old(self).wf(),
        ensures
            final(self).wf(),
            final(self).grid() == old(self).grid(),
            final(self).front() == old(self).front(),
            old(self)@.len() == 0 ==> pixel is None && final(self)@ == old(self)@,
            old(self)@.len() > 0 ==> {
                &&& pixel == Some(old(self)@.last())
                &&& final(self)@ == old(self)@.drop_last()
                &&& final(self).back() == old(self).back() - 1
            },
    {
        if self.front >= self.back {
            return None;
        }
        let index: usize = self.back - 1;
        let pixel = Pixel { index, x: index % self.grid.width, y: index / self.grid.width };
        self.back = index;
        Some(pixel)
    }

    /// Number of pixels still to come.
    pub fn len(&self) -> (len: usize)
        requires
            self.wf(),
        ensures
            len == self@.len(),
    {
        self.back - self.front
    }

    /// Bounds on the number of pixels still to come: both are exact.
    pub fn size_hint(&self) -> (hint: (usize, Option<usize>))
        requires
            self.wf(),
        ensures
            hint.0 == self@.len(),
            hint.1 == Some(hint.0),
    {
        let len: usize = self.len();
        (len, Some(len))
    }
}

} // verus!
