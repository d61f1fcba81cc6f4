//! The mathematical model of rows and rendered text.
//!
//! A row is a sequence of characters whose last cell is the terminator
//! `'\n'`; a grid is a sequence of such rows, and the rendered text is
//! their concatenation. The lemmas here relate lengths, cell positions
//! and character counts of a rendering to the rows it came from.

use vstd::prelude::*;

verus! {

/// A row of `width` cells: `c` everywhere except the final terminator.
pub open spec fn row_filled(width: nat, c: char) -> Seq<char> {
    Seq::new(width, |i: int| if i == width - 1 { '\n' } else { c })
}

/// A grid of `height` rows, each `row_filled(width, c)`.
pub open spec fn grid_filled(width: nat, height: nat, c: char) -> Seq<Seq<char>> {
    Seq::new(height, |i: int| row_filled(width, c))
}

/// The rendered text: every row in order, with nothing in between.
pub open spec fn concat_rows(rows: Seq<Seq<char>>) -> Seq<char>
    decreases rows.len(),
{
    if rows.len() == 0 {
        Seq::empty()
    } else {
        rows.first() + concat_rows(rows.drop_first())
    }
}

/// How often `c` occurs in `s`.
pub open spec fn count_char(s: Seq<char>, c: char) -> nat
    decreases s.len(),
{
    if s.len() == 0 {
        0
    } else {
        (if s.first() == c { 1nat } else { 0nat }) + count_char(s.drop_first(), c)
    }
}

/// Appending one more row to a rendering appends exactly that row's text.
pub proof fn lemma_concat_push(rows: Seq<Seq<char>>, r: Seq<char>)
    ensures
        concat_rows(rows.push(r)) == concat_rows(rows) + r,
    decreases rows.len(),
{
    if rows.len() == 0 {
        assert(rows.push(r).drop_first() =~= Seq::<Seq<char>>::empty());
        assert(concat_rows(Seq::<Seq<char>>::empty()) == Seq::<char>::empty());
        assert(concat_rows(rows.push(r)) == r + Seq::<char>::empty());
        assert(concat_rows(rows.push(r)) =~= concat_rows(rows) + r);
    } else {
        assert(rows.push(r).drop_first() =~= rows.drop_first().push(r));
        assert(concat_rows(rows.push(r)) == rows.first() + concat_rows(rows.drop_first().push(r)));
        lemma_concat_push(rows.drop_first(), r);
        assert(concat_rows(rows) == rows.first() + concat_rows(rows.drop_first()));
        assert(concat_rows(rows.push(r)) =~= concat_rows(rows) + r);
    }
}

/// A rendering of `n` rows of width `w` has exactly `n * w` characters.
pub proof fn lemma_concat_len_uniform(rows: Seq<Seq<char>>, w: nat)
    requires
        forall|i: int| 0 <= i < rows.len() ==> (#[trigger] rows[i]).len() == w,
    ensures
        concat_rows(rows).len() == rows.len() * w,
    decreases rows.len(),
{
    if rows.len() == 0 {
    } else {
        lemma_concat_len_uniform(rows.drop_first(), w);
        assert(rows.len() * w == (rows.len() - 1) * w + w) by (nonlinear_arith);
    }
}

/// In a rendering of uniform-width rows, the cell at `r * w + c` is
/// exactly cell `c` of row `r`.
pub proof fn lemma_concat_index_uniform(rows: Seq<Seq<char>>, w: nat, r: int, c: int)
    requires
        forall|i: int| 0 <= i < rows.len() ==> (#[trigger] rows[i]).len() == w,
        0 <= r < rows.len(),
        0 <= c < w,
    ensures
        concat_rows(rows).len() == rows.len() * w,
        concat_rows(rows)[r * w + c] == rows[r][c],
    decreases r,
{
    lemma_concat_len_uniform(rows, w);
    lemma_concat_len_uniform(rows.drop_first(), w);
    assert(concat_rows(rows) == rows.first() + concat_rows(rows.drop_first()));
    if r == 0 {
        assert(concat_rows(rows)[c] == rows.first()[c]);
    } else {
        lemma_concat_index_uniform(rows.drop_first(), w, r - 1, c);
        assert(r * w == (r - 1) * w + w) by (nonlinear_arith);
        assert(r * w + c >= w) by (nonlinear_arith)
            requires
                r >= 1 && w >= 0 && c >= 0,
        ;
        assert((r - 1) * w + c < (rows.len() - 1) * w) by (nonlinear_arith)
            requires
                r < rows.len() && 0 <= c < w,
        ;
        assert(concat_rows(rows)[r * w + c] == concat_rows(rows.drop_first())[r * w + c - w]);
        assert(concat_rows(rows)[r * w + c] == concat_rows(rows.drop_first())[(r - 1) * w + c]);
    }
}

/// In a rendering of uniform-width rows, the `w` characters starting at
/// `r * w` are exactly row `r`.
pub proof fn lemma_concat_subrange_uniform(rows: Seq<Seq<char>>, w: nat, r: int)
    requires
        forall|i: int| 0 <= i < rows.len() ==> (#[trigger] rows[i]).len() == w,
        0 <= r < rows.len(),
    ensures
        concat_rows(rows).len() == rows.len() * w,
        concat_rows(rows).subrange(r * w, r * w + w) == rows[r],
{
    lemma_concat_len_uniform(rows, w);
    assert(0 <= r * w && r * w + w <= rows.len() * w) by (nonlinear_arith)
        requires 0 <= r < rows.len() && w >= 0;
    assert forall|c: int| 0 <= c < w implies concat_rows(rows)[r * w + c] == rows[r][c] by {
        lemma_concat_index_uniform(rows, w, r, c);
    }
    assert(concat_rows(rows).subrange(r * w, r * w + w) =~= rows[r]);
}

/// Whether every terminator sits where it belongs: no visible cell —
/// all but the last of each row — holds the terminator character.
pub open spec fn no_stray_terminators(rows: Seq<Seq<char>>) -> bool {
    forall|r: int, c: int|
        0 <= r < rows.len() && 0 <= c < rows[r].len() - 1 ==> #[trigger] rows[r][c] != '\n'
}

/// Counting over a concatenation splits into the two parts.
pub proof fn lemma_count_concat(a: Seq<char>, b: Seq<char>, c: char)
    ensures
        count_char(a + b, c) == count_char(a, c) + count_char(b, c),
    decreases a.len(),
{
    if a.len() == 0 {
        assert(a + b =~= b);
    } else {
        assert((a + b).drop_first() =~= a.drop_first() + b);
        lemma_count_concat(a.drop_first(), b, c);
    }
}

/// A row whose only terminator is its last cell holds exactly one.
pub proof fn lemma_count_terminated_row(row: Seq<char>)
    requires
        row.len() >= 1,
        row.last() == '\n',
        forall|c: int| 0 <= c < row.len() - 1 ==> row[c] != '\n',
    ensures
        count_char(row, '\n') == 1,
    decreases row.len(),
{
    assert(count_char(row, '\n') == (if row.first() == '\n' {
        1nat
    } else {
        0nat
    }) + count_char(row.drop_first(), '\n'));
    if row.len() == 1 {
        assert(row.drop_first() =~= Seq::<char>::empty());
        assert(count_char(Seq::<char>::empty(), '\n') == 0);
    } else {
        assert(row[0] != '\n');
        let rest = row.drop_first();
        assert forall|c: int| 0 <= c < rest.len() - 1 implies rest[c] != '\n' by {
            assert(row[c + 1] != '\n');
        }
        lemma_count_terminated_row(rest);
    }
}

/// The rendering of a grid of rows that each end in their one and only
/// terminator holds exactly one terminator per row.
pub proof fn lemma_count_terminated_grid(rows: Seq<Seq<char>>)
    requires
        forall|r: int|
            0 <= r < rows.len() ==> (#[trigger] rows[r]).len() >= 1 && rows[r].last() == '\n',
        no_stray_terminators(rows),
    ensures
        count_char(concat_rows(rows), '\n') == rows.len(),
    decreases rows.len(),
{
    if rows.len() == 0 {
        assert(count_char(Seq::<char>::empty(), '\n') == 0);
    } else {
        let rest = rows.drop_first();
        assert(concat_rows(rows) == rows.first() + concat_rows(rest));
        assert forall|c: int| 0 <= c < rows.first().len() - 1 implies rows.first()[c] != '\n' by {
            assert(rows[0][c] != '\n');
        }
        lemma_count_terminated_row(rows.first());
        assert forall|r: int, c: int|
            0 <= r < rest.len() && 0 <= c < rest[r].len() - 1 implies #[trigger] rest[r][c]
            != '\n' by {
            assert(rows[r + 1][c] != '\n');
        }
        assert forall|r: int| 0 <= r < rest.len() implies (#[trigger] rest[r]).len() >= 1
            && rest[r].last() == '\n' by {
            assert(rows[r + 1].len() >= 1);
        }
        lemma_count_terminated_grid(rest);
        lemma_count_concat(rows.first(), concat_rows(rest), '\n');
    }
}

/// How often a character occurs in one filled row: the fill character
/// takes every visible cell, the terminator takes the last, and nothing
/// else occurs at all.
pub proof fn lemma_count_row_filled(w: nat, fill: char, c: char)
    requires
        w >= 1,
        fill != '\n',
    ensures
        count_char(row_filled(w, fill), c) == if c == fill {
            (w - 1) as nat
        } else if c == '\n' {
            1nat
        } else {
            0nat
        },
    decreases w,
{
    assert(count_char(row_filled(w, fill), c) == (if row_filled(w, fill).first() == c {
        1nat
    } else {
        0nat
    }) + count_char(row_filled(w, fill).drop_first(), c));
    if w == 1 {
        assert(row_filled(w, fill).first() == '\n');
        assert(row_filled(w, fill).drop_first() =~= Seq::<char>::empty());
        assert(count_char(Seq::<char>::empty(), c) == 0);
    } else {
        assert(row_filled(w, fill).first() == fill);
        assert(row_filled(w, fill).drop_first() =~= row_filled((w - 1) as nat, fill));
        lemma_count_row_filled((w - 1) as nat, fill, c);
    }
}

/// How often a character occurs in the rendering of a uniformly filled
/// grid: `h` copies of its count in one filled row.
pub proof fn lemma_count_grid_filled(w: nat, h: nat, fill: char, c: char)
    requires
        w >= 1,
        fill != '\n',
    ensures
        count_char(concat_rows(grid_filled(w, h, fill)), c) == h * count_char(
            row_filled(w, fill),
            c,
        ),
    decreases h,
{
    if h == 0 {
        assert(concat_rows(grid_filled(w, h, fill)) == Seq::<char>::empty());
        assert(count_char(Seq::<char>::empty(), c) == 0);
    } else {
        assert(grid_filled(w, h, fill).drop_first() =~= grid_filled(w, (h - 1) as nat, fill));
        assert(grid_filled(w, h, fill).first() == row_filled(w, fill));
        assert(concat_rows(grid_filled(w, h, fill)) == row_filled(w, fill) + concat_rows(
            grid_filled(w, (h - 1) as nat, fill),
        ));
        lemma_count_grid_filled(w, (h - 1) as nat, fill, c);
        lemma_count_concat(row_filled(w, fill), concat_rows(grid_filled(w, (h - 1) as nat, fill)), c);
        assert(h * count_char(row_filled(w, fill), c) == count_char(row_filled(w, fill), c) + (h
            - 1) * count_char(row_filled(w, fill), c)) by (nonlinear_arith);
    }
}

} // verus!
