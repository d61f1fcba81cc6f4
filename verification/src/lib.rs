//! A fixed-size two-dimensional character grid for terminal rendering.
//!
//! The grid is built from capacity-locked buffers: each row is a run of
//! drawable cells followed by one reserved terminator character, and the
//! whole grid serializes to a newline-delimited text block. Point and line
//! drawing primitives are bounds-checked, and a DDA-style rasterizer walks
//! between two endpoints stamping cells along the way.

use vstd::prelude::*;

pub mod traits;
pub mod modern_vec;
pub mod text;
pub mod ascii_vec;
pub mod raster;
pub mod matr;
pub mod matr2d;
pub mod renderer;

verus! {

/// Every failure the library can report.
///
/// All failures are local and fail-fast: no operation retries or substitutes
/// a default. Each variant names the misuse that produces it.
#[derive(Clone, Copy, Debug, PartialEq, Eq, Structural)]
pub enum Error {
    /// A grid or row was requested with a zero width or height.
    InvalidDimensions,
    /// A buffer operation that needs a fixed capacity ran before `lock`.
    NotLocked,
    /// `lock` was called a second time on the same buffer.
    AlreadyLocked,
    /// An insert would grow the buffer past its locked capacity.
    CapacityExceeded,
    /// An index reached past the buffer's current length.
    IndexOutOfBounds,
    /// A read or write aimed at a row's reserved terminator cell.
    TerminatorProtected,
    /// A grid coordinate fell outside the visible drawing area.
    OutOfBounds,
}

} // verus!
