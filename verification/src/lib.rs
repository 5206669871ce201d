//! The discrete core of a pinhole-camera library: which pixels a frustum
//! covers and in what order they are visited, how that pixel domain is split
//! for concurrent consumers, which keyframes shape each segment of a camera
//! path, and where along the path each output frame falls.
//!
//! Everything here is exact integer arithmetic. Rays, transforms and spline
//! values are real-valued and are computed by the caller from the indices and
//! fractions that this crate hands out.
//!
//! - [`grid`]: the pixel grid of a frustum, its row-major linear index, and
//!   the walk over its pixels from either end.
//! - [`parallel`]: the pixel grid as work that can be split again and again,
//!   and the proof that no split loses or repeats a pixel.
//! - [`spline`]: which keyframes are the control points of a spline segment.
//! - [`frustum_path`]: the table of pacing lengths of a camera path and the
//!   traversal that yields one place per output frame.
//! - [`pacing`]: the arithmetic of that traversal, and the proofs of how many
//!   frames it yields and where they lie.

pub mod frustum_path;
pub mod grid;
pub mod pacing;
pub mod parallel;
pub mod spline;

pub use crate::frustum_path::{
    FrustumPathIterator, LongerSegment, PacingTable, PathError, PathSample,
};
pub use crate::grid::{FrustumIterator, GridError, Pixel, PixelGrid};
pub use crate::pacing::Pacing;
pub use crate::parallel::{FrustumParallelIterator, SplitPlan};
pub use crate::spline::Spline3;
