//! Rasterisation of the ball as a filled disc of pixels.

use vstd::prelude::*;
use crate::physics::{trunc_div, div_toward_zero, UNITS_PER_PIXEL};

verus! {

/// Whether the offset `(dx, dy)` lies within distance `r` of the centre.
pub open spec fn in_disc(dx: int, dy: int, r: int) -> bool {
    dx * dx + dy * dy <= r * r
}

/// The points of column `cx + dx` among the first `n` rows of the bounding
/// box `[cx − r, cx + r − 1] × [cy − r, cy + r − 1]`, top to bottom.
pub open spec fn column_points(cx: int, cy: int, r: int, dx: int, n: nat) -> Seq<(i32, i32)>
    decreases n,
{
    if n == 0 {
        Seq::empty()
    } else {
        let dy = n - 1 - r;
        let rest = column_points(cx, cy, r, dx, (n - 1) as nat);
        if in_disc(dx, dy, r) {
            rest.push(((cx + dx) as i32, (cy + dy) as i32))
        } else {
            rest
        }
    }
}

/// The points of the first `m` columns of the bounding box, left to right.
pub open spec fn box_points(cx: int, cy: int, r: int, m: nat) -> Seq<(i32, i32)>
    decreases m,
{
    if m == 0 {
        Seq::empty()
    } else {
        box_points(cx, cy, r, (m - 1) as nat) + column_points(cx, cy, r, m - 1 - r, (2 * r) as nat)
    }
}

/// The pixels of the disc of radius `r` centred at `(cx, cy)`: each offset of
/// the `2r × 2r` box `[−r, r − 1]²` whose squared length is at most `r²`.
pub open spec fn disc_points(cx: int, cy: int, r: int) -> Seq<(i32, i32)> {
    if r <= 0 {
        Seq::empty()
    } else {
        box_points(cx, cy, r, (2 * r) as nat)
    }
}

/// Whether every point of the disc's bounding box has `i32` coordinates.
pub open spec fn box_fits(cx: int, cy: int, r: int) -> bool {
    r <= 0 || (i32::MIN <= cx - r && cx + r - 1 <= i32::MAX && i32::MIN <= cy - r && cy + r - 1
        <= i32::MAX)
}

/// The pixels to plot for a disc of radius `r` centred at `(cx, cy)`.
pub fn circle_points(cx: i32, cy: i32, r: i32) -> (pts: Vec<(i32, i32)>)
    requires
        box_fits(cx as int, cy as int, r as int),
    ensures
        pts@ == disc_points(cx as int, cy as int, r as int),
{
    let mut pts: Vec<(i32, i32)> = Vec::new();
    if r <= 0 {
        return pts;
    }
    let r64 = r as i64;
    let side = 2 * r64;
    assert(0 <= r64 * r64 <= 0x4000_0000_0000_0000) by (nonlinear_arith)
        requires
            0 < r64 <= 0x8000_0000,
    ;
    let rr = r64 as i128 * r64 as i128;
    let mut w: i64 = 0;
    while w < side
        invariant
            0 < r64 == r,
            side == 2 * r,
            rr == r * r,
            0 <= w <= side,
            box_fits(cx as int, cy as int, r as int),
            pts@ == box_points(cx as int, cy as int, r as int, w as nat),
        decreases side - w,
    {
        let dx = w - r64;
        let mut h: i64 = 0;
        while h < side
            invariant
                0 < r64 == r,
                side == 2 * r,
                rr == r * r,
                0 <= w < side,
                dx == w - r,
                0 <= h <= side,
                box_fits(cx as int, cy as int, r as int),
                pts@ == box_points(cx as int, cy as int, r as int, w as nat) + column_points(
                    cx as int,
                    cy as int,
                    r as int,
                    dx as int,
                    h as nat,
                ),
            decreases side - h,
        {
            let dy = h - r64;
            assert(0 <= dx * dx <= rr && 0 <= dy * dy <= rr) by (nonlinear_arith)
                requires
                    -r64 <= dx < r64,
                    -r64 <= dy < r64,
                    rr == r64 * r64,
            ;
            assert(rr <= 0x4000_0000_0000_0000) by (nonlinear_arith)
                requires
                    0 < r64 <= 0x8000_0000,
                    rr == r64 * r64,
            ;
            if dx as i128 * dx as i128 + dy as i128 * dy as i128 <= rr {
                pts.push(((cx as i64 + dx) as i32, (cy as i64 + dy) as i32));
            }
            h = h + 1;
        }
        w = w + 1;
    }
    pts
}

/// The whole pixel that contains a coordinate of `v` micro-pixels, rounded
/// toward zero and kept within the range of `i32`.
pub open spec fn pixel_of(v: int) -> int {
    let p = trunc_div(v, UNITS_PER_PIXEL as int);
    if p < i32::MIN {
        i32::MIN as int
    } else if p > i32::MAX {
        i32::MAX as int
    } else {
        p
    }
}

/// Converts a coordinate in micro-pixels to a whole pixel; see `pixel_of`.
pub fn to_pixel(v: i64) -> (p: i32)
    ensures
        p == pixel_of(v as int),
{
    let q = if v == i64::MIN {
        div_toward_zero(v + 1, UNITS_PER_PIXEL)
    } else {
        div_toward_zero(v, UNITS_PER_PIXEL)
    };
    if q < i32::MIN as i64 {
        i32::MIN
    } else if q > i32::MAX as i64 {
        i32::MAX
    } else {
        q as i32
    }
}


/// Whether pixel `p` lies in the first `m` columns of the bounding box of the
/// disc of radius `r` centred at `(cx, cy)`, and within the disc.
pub open spec fn plotted(cx: int, cy: int, r: int, m: int, p: (i32, i32)) -> bool {
    let dx = p.0 - cx;
    let dy = p.1 - cy;
    -r <= dx < m - r && -r <= dy < r && in_disc(dx, dy, r)
}

proof fn lemma_column(cx: int, cy: int, r: int, dx: int, n: nat)
    requires
        r > 0,
        box_fits(cx, cy, r),
        -r <= dx < r,
        n <= 2 * r,
    ensures
        forall|p: (i32, i32)| #[trigger]
            column_points(cx, cy, r, dx, n).contains(p) <==> (p.0 == cx + dx && -r <= p.1 - cy < n
                - r && in_disc(dx, p.1 - cy, r)),
        column_points(cx, cy, r, dx, n).no_duplicates(),
    decreases n,
{
    if n > 0 {
        lemma_column(cx, cy, r, dx, (n - 1) as nat);
        let rest = column_points(cx, cy, r, dx, (n - 1) as nat);
        let dy = n - 1 - r;
        let q = ((cx + dx) as i32, (cy + dy) as i32);
        assert forall|p: (i32, i32)| #[trigger]
            column_points(cx, cy, r, dx, n).contains(p) <==> (p.0 == cx + dx && -r <= p.1 - cy < n
                - r && in_disc(dx, p.1 - cy, r)) by {
            if in_disc(dx, dy, r) {
                assert(rest.push(q).contains(p) <==> (rest.contains(p) || p == q)) by {
                    if p == q {
                        assert(rest.push(q)[rest.len() as int] == q);
                    }
                    if rest.push(q).contains(p) && p != q {
                        let i = choose|i: int| 0 <= i < rest.push(q).len() && rest.push(q)[i] == p;
                        assert(rest[i] == p);
                    }
                    if rest.contains(p) {
                        let i = choose|i: int| 0 <= i < rest.len() && rest[i] == p;
                        assert(rest.push(q)[i] == p);
                    }
                }
            }
        }
        if in_disc(dx, dy, r) {
            assert(!rest.contains(q));
            assert forall|i: int, j: int|
                0 <= i < rest.push(q).len() && 0 <= j < rest.push(q).len() && i != j implies
                rest.push(q)[i] != rest.push(q)[j] by {
                if i < rest.len() && j < rest.len() {
                    assert(rest[i] != rest[j]);
                } else if i < rest.len() {
                    assert(rest.contains(rest[i]));
                } else {
                    assert(rest.contains(rest[j]));
                }
            }
        }
    }
}

proof fn lemma_box(cx: int, cy: int, r: int, m: nat)
    requires
        r > 0,
        box_fits(cx, cy, r),
        m <= 2 * r,
    ensures
        forall|p: (i32, i32)| #[trigger]
            box_points(cx, cy, r, m).contains(p) <==> plotted(cx, cy, r, m as int, p),
        box_points(cx, cy, r, m).no_duplicates(),
    decreases m,
{
    if m > 0 {
        lemma_box(cx, cy, r, (m - 1) as nat);
        let dx = m - 1 - r;
        lemma_column(cx, cy, r, dx, (2 * r) as nat);
        let a = box_points(cx, cy, r, (m - 1) as nat);
        let c = column_points(cx, cy, r, dx, (2 * r) as nat);
        assert forall|p: (i32, i32)| #[trigger]
            (a + c).contains(p) <==> plotted(cx, cy, r, m as int, p) by {
            if (a + c).contains(p) {
                let i = choose|i: int| 0 <= i < (a + c).len() && (a + c)[i] == p;
                if i < a.len() {
                    assert(a.contains(a[i]));
                } else {
                    assert(c.contains(c[i - a.len()]));
                }
            }
            if a.contains(p) {
                let i = choose|i: int| 0 <= i < a.len() && a[i] == p;
                assert((a + c)[i] == p);
            }
            if c.contains(p) {
                let i = choose|i: int| 0 <= i < c.len() && c[i] == p;
                assert((a + c)[a.len() + i] == p);
            }
        }
        assert forall|i: int, j: int|
            0 <= i < (a + c).len() && 0 <= j < (a + c).len() && i != j implies (a + c)[i] != (a
                + c)[j] by {
            if i < a.len() && j < a.len() {
                assert(a[i] != a[j]);
            } else if i >= a.len() && j >= a.len() {
                assert(c[i - a.len()] != c[j - a.len()]);
            } else if i < a.len() {
                assert(a.contains(a[i]));
                assert(c.contains(c[j - a.len()]));
            } else {
                assert(a.contains(a[j]));
                assert(c.contains(c[i - a.len()]));
            }
        }
    }
}

/// The plotted pixels are exactly the lattice points `(cx + dx, cy + dy)` of
/// the box `[−r, r − 1]²` with `dx² + dy² ≤ r²`, each plotted once; so their
/// number is the number of such lattice points.
pub proof fn law_disc_exact(cx: int, cy: int, r: int)
    requires
        box_fits(cx, cy, r),
    ensures
        forall|p: (i32, i32)| #[trigger]
            disc_points(cx, cy, r).contains(p) <==> plotted(cx, cy, r, 2 * r, p),
        disc_points(cx, cy, r).no_duplicates(),
{
    if r > 0 {
        lemma_box(cx, cy, r, (2 * r) as nat);
    }
}

} // verus!
