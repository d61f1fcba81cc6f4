//! The drawing surface handed to an embedding application.
//!
//! A `Renderer` is a grid pre-filled with the dash glyph; the embedding
//! application clears the terminal, draws on the grid and prints the
//! rendered text on its own schedule.

use vstd::prelude::*;
use crate::Error;
use crate::matr::Matr;
use crate::text::grid_filled;

verus! {

/// A ready-to-draw grid for an animation or display loop.
pub struct Renderer {
    pub matr: Matr,
}

impl Renderer {
    /// Builds the renderer's grid, filled with the dash glyph. Zero in
    /// either dimension is rejected.
    pub fn new(width: usize, height: usize) -> (r: Result<Renderer, Error>)
        ensures
            (width == 0 || height == 0) ==> r == Err::<Renderer, Error>(Error::InvalidDimensions),
            (width >= 1 && height >= 1) ==> (r matches Ok(rend) && {
                &&& rend.matr.wf()
                &&& rend.matr.spec_width() == width
                &&& rend.matr.spec_height() == height
                &&& rend.matr@ == grid_filled(width as nat, height as nat, '-')
            }),
    {
        match Matr::new(width, height, Some('-')) {
            Ok(matr) => Ok(Renderer { matr }),
            Err(e) => Err(e),
        }
    }
}

} // verus!
