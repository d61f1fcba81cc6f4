//! A plain two-dimensional character matrix without line drawing.
//!
//! `Matr2D` offers the grid surface alone — construction, whole-grid
//! fill, single-point drawing and rendering — and shares the verified
//! grid underneath. Integer coordinates only; for segments, use the
//! rasterizing grid directly.

use vstd::prelude::*;
use crate::Error;
use crate::matr::{fill_char, stamp, Matr};
use crate::text::{concat_rows, grid_filled};

verus! {

/// A grid restricted to point-wise drawing.
pub struct Matr2D {
    grid: Matr,
}

impl View for Matr2D {
    type V = Seq<Seq<char>>;

    closed spec fn view(&self) -> Seq<Seq<char>> {
        self.grid@
    }
}

impl Matr2D {
    /// The width every row was built with, terminator column included.
    pub closed spec fn spec_width(&self) -> nat {
        self.grid.spec_width()
    }

    /// The number of rows.
    pub closed spec fn spec_height(&self) -> nat {
        self.grid.spec_height()
    }

    /// The invariant of the underlying grid.
    pub closed spec fn wf(&self) -> bool {
        self.grid.wf()
    }

    /// Builds a `width` x `height` matrix, every row filled with
    /// `fill_with` (or the default glyph) and terminated. Zero in either
    /// dimension is rejected.
    pub fn new(width: usize, height: usize, fill_with: Option<char>) -> (r: Result<Matr2D, Error>)
        ensures
            (width == 0 || height == 0) ==> r == Err::<Matr2D, Error>(Error::InvalidDimensions),
            (width >= 1 && height >= 1) ==> (r matches Ok(m) && {
                &&& m.wf()
                &&& m.spec_width() == width
                &&& m.spec_height() == height
                &&& m@ == grid_filled(width as nat, height as nat, fill_char(fill_with))
            }),
    {
        match Matr::new(width, height, fill_with) {
            Ok(grid) => Ok(Matr2D { grid }),
            Err(e) => Err(e),
        }
    }

    /// Writes `ch` into the visible cell `(x, y)`, with the same bounds
    /// rule as the grid: the terminator column is never drawable.
    pub fn draw_point(&mut self, x: usize, y: usize, ch: char) -> (r: Result<(), Error>)
        requires
            old(self).wf(),
        ensures
            final(self).wf(),
            final(self).spec_width() == old(self).spec_width(),
            final(self).spec_height() == old(self).spec_height(),
            (y < old(self).spec_height() && x < old(self).spec_width() - 1) ==> {
                &&& r is Ok
                &&& final(self)@ == stamp(old(self)@, (x as int, y as int), ch)
            },
            !(y < old(self).spec_height() && x < old(self).spec_width() - 1) ==> {
                &&& r == Err::<(), Error>(Error::OutOfBounds)
                &&& *final(self) == *old(self)
            },
    {
        self.grid.draw_point(x, y, ch)
    }

    /// Refills every visible cell of every row with `ch`.
    pub fn fill(&mut self, ch: char)
        requires
            old(self).wf(),
        ensures
            final(self).wf(),
            final(self).spec_width() == old(self).spec_width(),
            final(self).spec_height() == old(self).spec_height(),
            final(self)@ == grid_filled(old(self).spec_width(), old(self).spec_height(), ch),
    {
        self.grid.fill(ch)
    }

    /// Renders the matrix as one text block, row by row.
    pub fn get_str(&self) -> (r: String)
        requires
            self.wf(),
        ensures
            r@ == concat_rows(self@),
    {
        self.grid.get_str()
    }
}

} // verus!
