//! The line rasterizer: a DDA-style incremental stepper.
//!
//! Between two endpoints the segment is sampled `step + 1` times, where
//! `step` is the span along the dominant axis, so both endpoints are
//! always visited and consecutive samples never skip a unit of the
//! dominant axis. Each sample is the exact rational position itself —
//! `(step * start + i * delta) / step` — rounded to the nearest cell,
//! halves away from zero.

use vstd::prelude::*;
use vstd::arithmetic::div_mod::lemma_multiply_divide_lt;
use crate::Error;

verus! {

pub open spec fn abs_int(x: int) -> int {
    if x >= 0 {
        x
    } else {
        -x
    }
}

pub open spec fn max_int(a: int, b: int) -> int {
    if a >= b {
        a
    } else {
        b
    }
}

/// `num / den` rounded to the nearest integer, halves away from zero.
/// Meaningful for `den >= 1`.
pub open spec fn round_ratio(num: int, den: int) -> int
    recommends
        den >= 1,
{
    if num >= 0 {
        (2 * num + den) / (2 * den)
    } else {
        -((2 * -num + den) / (2 * den))
    }
}

/// The number of unit steps along the dominant axis of the segment.
pub open spec fn line_step(x1: int, y1: int, x2: int, y2: int) -> int {
    max_int(abs_int(x2 - x1), abs_int(y2 - y1))
}

/// The `i`-th sample of the segment: the exact position rounded to a
/// cell. The rounding applies to the position itself, not to the offset
/// from the start, so a half-way sample goes away from zero as a
/// position — on a descending component it stays at the higher cell.
pub open spec fn line_point(x1: int, y1: int, x2: int, y2: int, i: int) -> (int, int) {
    let s = line_step(x1, y1, x2, y2);
    if s == 0 {
        (x1, y1)
    } else {
        (
            round_ratio(s * x1 + i * (x2 - x1), s),
            round_ratio(s * y1 + i * (y2 - y1), s),
        )
    }
}

/// Every cell the segment visits, endpoints included, in drawing order.
pub open spec fn line_points(x1: int, y1: int, x2: int, y2: int) -> Seq<(int, int)> {
    Seq::new((line_step(x1, y1, x2, y2) + 1) as nat, |i: int| line_point(x1, y1, x2, y2, i))
}

/// Whether a sample lies in the visible area of a `width` x `height`
/// grid: the terminator column `width - 1` is not drawable.
pub open spec fn point_in_bounds(p: (int, int), width: nat, height: nat) -> bool {
    &&& 0 <= p.0 < width - 1
    &&& 0 <= p.1 < height
}

/// Whether every sample of the sequence is drawable.
pub open spec fn all_in_bounds(pts: Seq<(int, int)>, width: nat, height: nat) -> bool {
    forall|i: int| 0 <= i < pts.len() ==> point_in_bounds(#[trigger] pts[i], width, height)
}

/// Rounds `p / q` to the nearest integer, halves away from zero, for a
/// non-negative numerator. The bounds keep the doubling exact.
fn round_div_away(p: u128, q: u128) -> (r: u128)
    requires
        1 <= q <= 0x1_0000_0000,
        p <= 0x2_0000_0000_0000_0000,
    ensures
        r as int == round_ratio(p as int, q as int),
        r <= p,
{
    proof {
        assert(2 * (p as int) + q < 2 * (q as int) * (p as int + 1)) by (nonlinear_arith)
            requires
                q >= 1 && p >= 0,
        ;
        lemma_multiply_divide_lt(2 * (p as int) + q, 2 * (q as int), p as int + 1);
    }
    (2 * p + q) / (2 * q)
}

/// Walks the segment and collects every visited cell, or reports the
/// first sample outside the visible area of a `width` x `height` grid.
pub fn sample_line(x1: i32, y1: i32, x2: i32, y2: i32, width: usize, height: usize) -> (r: Result<
    Vec<(usize, usize)>,
    Error,
>)
    requires
        width >= 1,
    ensures
        match r {
            Ok(pts) => {
                &&& all_in_bounds(
                    line_points(x1 as int, y1 as int, x2 as int, y2 as int),
                    width as nat,
                    height as nat,
                )
                &&& pts@.len() == line_points(x1 as int, y1 as int, x2 as int, y2 as int).len()
                &&& forall|j: int|
                    0 <= j < pts@.len() ==> ((#[trigger] pts@[j]).0 as int, pts@[j].1 as int)
                        == line_points(x1 as int, y1 as int, x2 as int, y2 as int)[j]
            },
            Err(e) => {
                &&& e == Error::OutOfBounds
                &&& !all_in_bounds(
                    line_points(x1 as int, y1 as int, x2 as int, y2 as int),
                    width as nat,
                    height as nat,
                )
            },
        },
{
    let dx: i64 = x2 as i64 - x1 as i64;
    let dy: i64 = y2 as i64 - y1 as i64;
    let adx: i64 = if dx >= 0 {
        dx
    } else {
        -dx
    };
    let ady: i64 = if dy >= 0 {
        dy
    } else {
        -dy
    };
    let step: i64 = if adx >= ady {
        adx
    } else {
        ady
    };
    let ghost pts_spec = line_points(x1 as int, y1 as int, x2 as int, y2 as int);
    proof {
        assert(step == line_step(x1 as int, y1 as int, x2 as int, y2 as int));
        assert(pts_spec.len() == step + 1);
    }
    let mut pts: Vec<(usize, usize)> = Vec::new();
    let mut i: i64 = 0;
    while i <= step
        invariant
            0 <= i <= step + 1,
            0 <= step < 0x1_0000_0000,
            dx == x2 as int - x1 as int,
            dy == y2 as int - y1 as int,
            adx == abs_int(dx as int),
            ady == abs_int(dy as int),
            step == line_step(x1 as int, y1 as int, x2 as int, y2 as int),
            pts_spec == line_points(x1 as int, y1 as int, x2 as int, y2 as int),
            width >= 1,
            pts@.len() == i,
            forall|j: int|
                0 <= j < i ==> ((#[trigger] pts@[j]).0 as int, pts@[j].1 as int) == pts_spec[j]
                    && point_in_bounds(pts_spec[j], width as nat, height as nat),
        decreases step + 1 - i,
    {
        let px: i128;
        let py: i128;
        if step == 0 {
            px = x1 as i128;
            py = y1 as i128;
        } else {
            proof {
                assert(-0x8000_0000_0000_0000 <= (step as int) * (x1 as int) <= 0x8000_0000_0000_0000
                    && -0x8000_0000_0000_0000 <= (step as int) * (y1 as int)
                        <= 0x8000_0000_0000_0000 && -0x1_0000_0000_0000_0000 <= (i as int) * (
                dx as int) <= 0x1_0000_0000_0000_0000 && -0x1_0000_0000_0000_0000 <= (i as int) * (
                dy as int) <= 0x1_0000_0000_0000_0000) by (nonlinear_arith)
                    requires
                        0 <= i <= step && step < 0x1_0000_0000 && -0x8000_0000 <= x1 as int
                            <= 0x8000_0000 && -0x8000_0000 <= y1 as int <= 0x8000_0000
                            && -0x1_0000_0000 <= dx as int <= 0x1_0000_0000 && -0x1_0000_0000
                            <= dy as int <= 0x1_0000_0000,
                ;
            }
            let nx: i128 = (step as i128) * (x1 as i128) + (i as i128) * (dx as i128);
            let ny: i128 = (step as i128) * (y1 as i128) + (i as i128) * (dy as i128);
            let mx: u128 = if nx >= 0 {
                nx as u128
            } else {
                (-nx) as u128
            };
            let my: u128 = if ny >= 0 {
                ny as u128
            } else {
                (-ny) as u128
            };
            let rx = round_div_away(mx, step as u128);
            let ry = round_div_away(my, step as u128);
            px = if nx >= 0 {
                rx as i128
            } else {
                -(rx as i128)
            };
            py = if ny >= 0 {
                ry as i128
            } else {
                -(ry as i128)
            };
        }
        proof {
            assert((px as int, py as int) == line_point(
                x1 as int,
                y1 as int,
                x2 as int,
                y2 as int,
                i as int,
            ));
            assert(pts_spec[i as int] == (px as int, py as int));
        }
        if px < 0 || py < 0 || px >= width as i128 - 1 || py >= height as i128 {
            proof {
                assert(!point_in_bounds(pts_spec[i as int], width as nat, height as nat));
            }
            return Err(Error::OutOfBounds);
        }
        pts.push((px as usize, py as usize));
        i = i + 1;
    }
    proof {
        assert forall|k: int| 0 <= k < pts_spec.len() implies point_in_bounds(
            #[trigger] pts_spec[k],
            width as nat,
            height as nat,
        ) by {
            assert(pts@[k].0 as int == pts_spec[k].0);
        }
    }
    Ok(pts)
}

} // verus!
