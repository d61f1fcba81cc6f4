//! The character grid: a fixed column of fixed-width rows.
//!
//! A `Matr` of width `w` and height `h` owns `h` independent rows of `w`
//! cells each. The visible coordinate space is `x` in `0 ..= w - 2` and
//! `y` in `0 ..= h - 1`; the last column of every row is its terminator.
//! Drawing goes through bounds-checked points, lines are rasterized into
//! repeated points, and `get_str` renders the whole grid as one text
//! block of exactly `w * h` characters.

use vstd::prelude::*;
use vstd::string::StringExecFns;
use crate::Error;
use crate::ascii_vec::AsciiVec;
use crate::modern_vec::ModernVec;
use crate::raster::{all_in_bounds, line_points, point_in_bounds, sample_line};
use crate::text::{
    concat_rows, count_char, grid_filled, lemma_concat_index_uniform, lemma_concat_len_uniform,
    lemma_concat_push, lemma_concat_subrange_uniform, lemma_count_grid_filled,
    lemma_count_row_filled, lemma_count_terminated_grid, no_stray_terminators, row_filled,
};
use crate::traits::{Lockable, ReplacebleIndex};

verus! {

/// The character a fresh grid is filled with when the caller gives none.
pub open spec fn fill_char(fill_with: Option<char>) -> char {
    match fill_with {
        Some(c) => c,
        None => 'x',
    }
}

/// One grid cell overwritten: row `p.1`, column `p.0`.
pub open spec fn stamp(g: Seq<Seq<char>>, p: (int, int), ch: char) -> Seq<Seq<char>> {
    g.update(p.1, g[p.1].update(p.0, ch))
}

/// Every cell of `pts` overwritten in order.
pub open spec fn stamp_all(g: Seq<Seq<char>>, pts: Seq<(int, int)>, ch: char) -> Seq<Seq<char>>
    decreases pts.len(),
{
    if pts.len() == 0 {
        g
    } else {
        stamp_all(stamp(g, pts.first(), ch), pts.drop_first(), ch)
    }
}

/// Stamping one more cell after a run stamps it onto the run's result.
pub proof fn lemma_stamp_all_push(g: Seq<Seq<char>>, pts: Seq<(int, int)>, p: (int, int), ch: char)
    ensures
        stamp_all(g, pts.push(p), ch) == stamp(stamp_all(g, pts, ch), p, ch),
    decreases pts.len(),
{
    if pts.len() == 0 {
        assert(pts.push(p).drop_first() =~= Seq::<(int, int)>::empty());
        assert(stamp_all(stamp(g, p, ch), Seq::<(int, int)>::empty(), ch) == stamp(g, p, ch));
        assert(stamp_all(g, pts.push(p), ch) == stamp(stamp_all(g, pts, ch), p, ch));
    } else {
        assert(pts.push(p).first() == pts.first());
        assert(pts.push(p).drop_first() =~= pts.drop_first().push(p));
        lemma_stamp_all_push(stamp(g, pts.first(), ch), pts.drop_first(), p, ch);
    }
}

/// The two-dimensional character grid.
pub struct Matr {
    row_vec: ModernVec<AsciiVec>,
    width: usize,
    height: usize,
}

impl View for Matr {
    type V = Seq<Seq<char>>;

    closed spec fn view(&self) -> Seq<Seq<char>> {
        Seq::new(self.row_vec.elems().len(), |i: int| self.row_vec.elems()[i]@)
    }
}

impl Matr {
    /// The width every row was built with, terminator column included.
    pub closed spec fn spec_width(&self) -> nat {
        self.width as nat
    }

    /// The number of rows.
    pub closed spec fn spec_height(&self) -> nat {
        self.height as nat
    }

    /// The grid invariant: the row buffer is locked at the height and
    /// full, and every row is a well-formed row of the grid's width.
    pub closed spec fn wf(&self) -> bool {
        &&& self.row_vec.lock_spec() == Some(self.height)
        &&& self.row_vec.elems().len() == self.height
        &&& self.width >= 1
        &&& self.height >= 1
        &&& forall|i: int|
            0 <= i < self.height ==> (#[trigger] self.row_vec.elems()[i]).wf()
                && self.row_vec.elems()[i]@.len() == self.width
    }

    /// What the grid invariant guarantees about the view: one row per
    /// unit of height, each of the full width and ending in the
    /// terminator.
    pub proof fn lemma_wf_view(&self)
        requires
            self.wf(),
        ensures
            self@.len() == self.spec_height(),
            1 <= self.spec_width(),
            1 <= self.spec_height(),
            forall|i: int|
                0 <= i < self@.len() ==> (#[trigger] self@[i]).len() == self.spec_width()
                    && self@[i][self.spec_width() - 1] == '\n',
    {
        assert forall|i: int| 0 <= i < self@.len() implies (#[trigger] self@[i]).len()
            == self.spec_width() && self@[i][self.spec_width() - 1] == '\n' by {
            self.row_vec.elems()[i].lemma_wf_view();
        }
    }

    /// Builds a `width` x `height` grid, every row filled with
    /// `fill_with` (or the default glyph when omitted) and terminated.
    /// Zero in either dimension is rejected.
    pub fn new(width: usize, height: usize, fill_with: Option<char>) -> (r: Result<Matr, Error>)
        ensures
            (width == 0 || height == 0) ==> r == Err::<Matr, Error>(Error::InvalidDimensions),
            (width >= 1 && height >= 1) ==> (r matches Ok(m) && {
                &&& m.wf()
                &&& m.spec_width() == width
                &&& m.spec_height() == height
                &&& m@ == grid_filled(width as nat, height as nat, fill_char(fill_with))
            }),
    {
        if width == 0 || height == 0 {
            return Err(Error::InvalidDimensions);
        }
        let c = match fill_with {
            Some(c) => c,
            None => 'x',
        };
        let mut row_vec: ModernVec<AsciiVec> = ModernVec::new();
        let _ = row_vec.lock(height);
        let mut i: usize = 0;
        while i < height
            invariant
                1 <= width,
                i <= height,
                row_vec.lock_spec() == Some(height),
                row_vec.elems().len() == i,
                forall|j: int|
                    0 <= j < i ==> (#[trigger] row_vec.elems()[j]).wf() && row_vec.elems()[j]@
                        == row_filled(width as nat, c),
            decreases height - i,
        {
            let mut row = match AsciiVec::new(width) {
                Ok(r) => r,
                Err(e) => {
                    return Err(e);
                },
            };
            row.fill(c);
            let _ = row_vec.safe_push(row);
            i = i + 1;
        }
        let m = Matr { row_vec, width, height };
        proof {
            assert(m@ =~= grid_filled(width as nat, height as nat, c));
        }
        Ok(m)
    }

    /// Refills every visible cell of every row with `ch`; terminators
    /// stay in place.
    pub fn fill(&mut self, ch: char)
        requires
            old(self).wf(),
        ensures
            final(self).wf(),
            final(self).spec_width() == old(self).spec_width(),
            final(self).spec_height() == old(self).spec_height(),
            final(self)@ == grid_filled(old(self).spec_width(), old(self).spec_height(), ch),
    {
        let n: usize = match self.row_vec.get_lock_len() {
            Ok(v) => v,
            Err(_) => 0,
        };
        let mut i: usize = 0;
        while i < n
            invariant
                self.width == old(self).width,
                self.height == old(self).height,
                old(self).wf(),
                i <= n,
                n == self.height,
                1 <= self.width,
                self.row_vec.lock_spec() == Some(self.height),
                self.row_vec.elems().len() == self.height,
                forall|j: int|
                    0 <= j < i ==> (#[trigger] self.row_vec.elems()[j]).wf()
                        && self.row_vec.elems()[j]@ == row_filled(self.width as nat, ch),
                forall|j: int|
                    i <= j < n ==> (#[trigger] self.row_vec.elems()[j]).wf()
                        && self.row_vec.elems()[j]@.len() == self.width,
            decreases n - i,
        {
            let mut row = match AsciiVec::new(self.width) {
                Ok(r) => r,
                Err(_) => {
                    return;
                },
            };
            row.fill(ch);
            let _ = self.row_vec.replace(i, row);
            i = i + 1;
        }
        proof {
            assert(self@ =~= grid_filled(old(self).spec_width(), old(self).spec_height(), ch));
        }
    }

    /// Writes `ch` into the visible cell `(x, y)`. A coordinate on the
    /// terminator column or past either dimension fails with
    /// `OutOfBounds` and leaves the grid unchanged.
    pub fn draw_point(&mut self, x: usize, y: usize, ch: char) -> (r: Result<(), Error>)
        requires
            old(self).wf(),
        ensures
            final(self).wf(),
            final(self).spec_width() == old(self).spec_width(),
            final(self).spec_height() == old(self).spec_height(),
            (y < old(self).spec_height() && x < old(self).spec_width() - 1) ==> {
                &&& r is Ok
                &&& final(self)@ == stamp(old(self)@, (x as int, y as int), ch)
            },
            !(y < old(self).spec_height() && x < old(self).spec_width() - 1) ==> {
                &&& r == Err::<(), Error>(Error::OutOfBounds)
                &&& *final(self) == *old(self)
            },
    {
        if y >= self.height || x >= self.width - 1 {
            return Err(Error::OutOfBounds);
        }
        let dummy = match AsciiVec::new(1) {
            Ok(r) => r,
            Err(_) => {
                return Err(Error::OutOfBounds);
            },
        };
        let mut row = match self.row_vec.replace(y, dummy) {
            Ok(r) => r,
            Err(_) => {
                return Err(Error::OutOfBounds);
            },
        };
        let _ = row.replace(x, ch);
        let _ = self.row_vec.replace(y, row);
        proof {
            assert(self.row_vec.elems() =~= old(self).row_vec.elems().update(
                y as int,
                self.row_vec.elems()[y as int],
            ));
            assert(self@ =~= stamp(old(self)@, (x as int, y as int), ch));
        }
        Ok(())
    }

    /// Rasterizes the segment from `(x1, y1)` to `(x2, y2)` and stamps
    /// `ch` into every visited cell, both endpoints included. If any
    /// sample falls outside the visible area the whole call fails with
    /// `OutOfBounds` and the grid is left untouched.
    pub fn draw_line(&mut self, x1: i32, y1: i32, x2: i32, y2: i32, ch: char) -> (r: Result<
        (),
        Error,
    >)
        requires
            old(self).wf(),
        ensures
            final(self).wf(),
            final(self).spec_width() == old(self).spec_width(),
            final(self).spec_height() == old(self).spec_height(),
            all_in_bounds(
                line_points(x1 as int, y1 as int, x2 as int, y2 as int),
                old(self).spec_width(),
                old(self).spec_height(),
            ) ==> {
                &&& r is Ok
                &&& final(self)@ == stamp_all(
                    old(self)@,
                    line_points(x1 as int, y1 as int, x2 as int, y2 as int),
                    ch,
                )
            },
            !all_in_bounds(
                line_points(x1 as int, y1 as int, x2 as int, y2 as int),
                old(self).spec_width(),
                old(self).spec_height(),
            ) ==> {
                &&& r == Err::<(), Error>(Error::OutOfBounds)
                &&& *final(self) == *old(self)
            },
    {
        let ghost spts = line_points(x1 as int, y1 as int, x2 as int, y2 as int);
        let pts = match sample_line(x1, y1, x2, y2, self.width, self.height) {
            Ok(p) => p,
            Err(e) => {
                return Err(e);
            },
        };
        let mut k: usize = 0;
        while k < pts.len()
            invariant
                self.width == old(self).width,
                self.height == old(self).height,
                self.wf(),
                k <= pts@.len(),
                pts@.len() == spts.len(),
                forall|j: int|
                    0 <= j < pts@.len() ==> ((#[trigger] pts@[j]).0 as int, pts@[j].1 as int)
                        == spts[j] && point_in_bounds(
                        spts[j],
                        old(self).spec_width(),
                        old(self).spec_height(),
                    ),
                self@ == stamp_all(old(self)@, spts.take(k as int), ch),
            decreases pts@.len() - k,
        {
            let (px, py) = pts[k];
            let res = self.draw_point(px, py, ch);
            proof {
                assert(spts.take(k + 1) =~= spts.take(k as int).push(spts[k as int]));
                lemma_stamp_all_push(old(self)@, spts.take(k as int), spts[k as int], ch);
            }
            k = k + 1;
        }
        proof {
            assert(spts.take(pts@.len() as int) =~= spts);
        }
        Ok(())
    }

    /// Renders the grid: every row's text in row order, nothing added in
    /// between — each row's own terminator separates it from the next.
    pub fn get_str(&self) -> (r: String)
        requires
            self.wf(),
        ensures
            r@ == concat_rows(self@),
    {
        let n: usize = match self.row_vec.get_lock_len() {
            Ok(v) => v,
            Err(_) => 0,
        };
        let mut st = String::new();
        let mut i: usize = 0;
        while i < n
            invariant
                self.wf(),
                i <= n,
                n == self.row_vec.elems().len(),
                st@ == concat_rows(self@.take(i as int)),
            decreases n - i,
        {
            let row_str = match self.row_vec.get(i) {
                Ok(row) => row.get_str(),
                Err(_) => String::new(),
            };
            st.append(row_str.as_str());
            proof {
                assert(self@.take(i + 1) =~= self@.take(i as int).push(self@[i as int]));
                lemma_concat_push(self@.take(i as int), self@[i as int]);
            }
            i = i + 1;
        }
        proof {
            assert(self@.take(n as int) =~= self@);
        }
        st
    }

    /// Law: the rendered text has exactly `width * height` characters,
    /// for every grid of width and height at least one.
    pub proof fn lemma_render_len(&self)
        requires
            self.wf(),
        ensures
            concat_rows(self@).len() == self.spec_width() * self.spec_height(),
    {
        self.lemma_wf_view();
        lemma_concat_len_uniform(self@, self.spec_width());
        assert(self.spec_height() * self.spec_width() == self.spec_width() * self.spec_height())
            by (nonlinear_arith);
    }

    /// Law: in the rendered text, the character at offset
    /// `r * width + (width - 1)` is the terminator, for every row `r`.
    pub proof fn lemma_render_terminators(&self, r: int)
        requires
            self.wf(),
            0 <= r < self.spec_height(),
        ensures
            concat_rows(self@)[r * self.spec_width() + (self.spec_width() - 1)] == '\n',
    {
        self.lemma_wf_view();
        lemma_concat_index_uniform(self@, self.spec_width(), r, self.spec_width() - 1);
    }

    /// Law: after a whole-grid fill with a character other than the
    /// terminator, the rendered text holds exactly `(width - 1) * height`
    /// occurrences of that character, and the terminator count is the
    /// height — one per row, as in every rendering of a filled grid.
    pub proof fn lemma_fill_counts(&self, ch: char)
        requires
            self.wf(),
            ch != '\n',
            self@ == grid_filled(self.spec_width(), self.spec_height(), ch),
        ensures
            count_char(concat_rows(self@), ch) == (self.spec_width() - 1) * self.spec_height(),
            count_char(concat_rows(self@), '\n') == self.spec_height(),
    {
        let w = self.spec_width();
        let h = self.spec_height();
        lemma_count_row_filled(w, ch, ch);
        lemma_count_row_filled(w, ch, '\n');
        lemma_count_grid_filled(w, h, ch, ch);
        lemma_count_grid_filled(w, h, ch, '\n');
        assert(h * ((w - 1) as nat) == (w - 1) * h) by (nonlinear_arith)
            requires
                w >= 1,
        ;
        assert(h * 1nat == h) by (nonlinear_arith);
    }

    /// Law: a whole-grid fill leaves the terminator count unchanged.
    /// In any grid whose visible cells are free of the terminator
    /// character, the rendered text holds exactly one terminator per
    /// row — the height. That is the count before a fill of such a grid
    /// and, since a fill with a non-terminator character yields again
    /// such a grid, the count after it. A grid whose visible cells do
    /// hold the terminator — `draw_point` accepts it as a drawing
    /// character — renders with more, and is left out here.
    pub proof fn lemma_terminator_count(&self)
        requires
            self.wf(),
            no_stray_terminators(self@),
        ensures
            count_char(concat_rows(self@), '\n') == self.spec_height(),
    {
        self.lemma_wf_view();
        assert forall|r: int| 0 <= r < self@.len() implies (#[trigger] self@[r]).len() >= 1
            && self@[r].last() == '\n' by {
            assert(self@[r].len() == self.spec_width());
        }
        lemma_count_terminated_grid(self@);
    }

    /// Law: a grid rendered straight after construction consists of rows
    /// of the configured fill character (or the default glyph), padded to
    /// the width by the terminator — row `r` of the text is exactly one
    /// filled row.
    pub proof fn lemma_round_trip(&self, fill_with: Option<char>, r: int)
        requires
            self.wf(),
            self@ == grid_filled(self.spec_width(), self.spec_height(), fill_char(fill_with)),
            0 <= r < self.spec_height(),
        ensures
            concat_rows(self@).subrange(
                r * self.spec_width(),
                r * self.spec_width() + self.spec_width(),
            ) == row_filled(self.spec_width(), fill_char(fill_with)),
    {
        self.lemma_wf_view();
        lemma_concat_subrange_uniform(self@, self.spec_width(), r);
    }
}

} // verus!
