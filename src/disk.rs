use vstd::prelude::*;

use crate::canvas::Canvas;
use crate::color::Color;

verus! {

pub open spec fn abs(v: int) -> int {
    if v < 0 {
        -v
    } else {
        v
    }
}

/// Whether the disk of radius `r` holds the pixel at offset `(i, j)` from its
/// center. With `lo` and `hi` the smaller and larger of the two distances, it
/// does when `lo^2 + (hi - 1/2)^2 < r^2 + 1/4`: the boundary pixel of each
/// column is the last whose lower half lies inside the circle. The one pixel
/// left out is the diagonal one where the stepping meets the diagonal, at
/// `lo == hi` with `r^2 == 2 lo^2 - lo + 1`.
pub open spec fn disk_has(r: int, i: int, j: int) -> bool {
    let lo = if abs(i) <= abs(j) { abs(i) } else { abs(j) };
    let hi = if abs(i) <= abs(j) { abs(j) } else { abs(i) };
    ||| hi == 0
    ||| (lo * lo + hi * hi - hi < r * r && !(lo == hi && r * r == 2 * lo * lo - lo + 1))
}

/// The offsets `(a, b)`, both non-negative, that the stepping has filled
/// once it has drawn columns `1..x`, the last of them `y` high.
spec fn reached(r: int, x: int, y: int, a: int, b: int) -> bool {
    ||| (a == 0 && b <= r)
    ||| (a == r && b == 0)
    ||| (1 <= a < x && a * a + b * b - b < r * r)
    ||| (y <= a && 1 <= b < x && b * b + a * a - a < r * r)
    ||| (y <= a && b == 0 && 1 < x && 1 + a * a - a < r * r)
}

proof fn lemma_rise(s: int, t: int)
    requires
        0 <= s <= t,
    ensures
        s * s - s <= t * t - t,
{
    assert(s * s - s <= t * t - t) by (nonlinear_arith)
        requires
            0 <= s <= t,
    ;
}

proof fn lemma_square_le(s: int, t: int)
    requires
        0 <= s <= t,
    ensures
        s * s <= t * t,
{
    assert(s * s <= t * t) by (nonlinear_arith)
        requires
            0 <= s <= t,
    ;
}

/// With `y2` the height of column `x`, row `b` of that column is inside
/// exactly when `b <= y2`.
proof fn lemma_column_height(r: int, x: int, y2: int, b: int)
    requires
        0 <= y2,
        0 <= b,
        x * x + y2 * y2 - y2 < r * r,
        x * x + y2 * y2 + y2 >= r * r,
    ensures
        (b <= y2) == (x * x + b * b - b < r * r),
{
    if b <= y2 {
        lemma_rise(b, y2);
    } else {
        lemma_rise(y2 + 1, b);
        assert((y2 + 1) * (y2 + 1) - (y2 + 1) == y2 * y2 + y2) by (nonlinear_arith);
    }
}

/// One step: column `x` gets height `y2`, and the columns at `x` and at
/// `y2` are filled; the reached offsets grow by exactly those.
proof fn lemma_step(r: int, x: int, y: int, y2: int, a: int, b: int)
    requires
        1 <= x < y <= r,
        y2 == y || y2 == y - 1,
        x <= y2,
        (x - 1) * (x - 1) + y * y - y < r * r,
        x * x + y2 * y2 - y2 < r * r,
        x * x + y2 * y2 + y2 >= r * r,
        0 <= a,
        0 <= b,
    ensures
        reached(r, x + 1, y2, a, b) == (reached(r, x, y, a, b) || (a == x && b <= y2) || (a == y2
            && b <= x)),
{
    lemma_column_height(r, x, y2, b);
    if a >= 1 {
        lemma_column_height(r, x, y2, a);
    }
    if b <= x {
        let m = if b >= 1 { b } else { 1 };
        lemma_square_le(m, x);
        lemma_square_le(b, x);
    }
    if reached(r, x, y, a, b) {
        if y <= a && 1 <= b < x {
            lemma_rise(y2, a);
        }
        if y <= a && b == 0 && 1 < x {
            lemma_rise(y2, a);
        }
    }
}

/// `2 t^2 - t` grows by at least one per step.
proof fn lemma_diagonal_rise(s: int, t: int)
    requires
        1 <= s < t,
    ensures
        2 * s * s - s + 1 <= 2 * t * t - t,
{
    assert(2 * s * s - s + 1 <= 2 * t * t - t) by (nonlinear_arith)
        requires
            1 <= s < t,
    ;
}

/// When the stepping stops at column `x`, the last filled column `x - 1`
/// being `y` high, the offsets it reached are the disk's.
proof fn lemma_stop(r: int, x: int, y: int, a: int, b: int)
    requires
        1 <= r,
        1 <= x,
        x - 1 <= y <= x,
        y <= r,
        (x - 1) * (x - 1) + y * y - y < r * r,
        (x - 1) * (x - 1) + y * y + y >= r * r,
        x >= 2 ==> (x - 2) * (x - 2) + x * x - x < r * r,
        0 <= a,
        0 <= b,
    ensures
        reached(r, x, y, a, b) == disk_has(r, a, b),
{
    // Where the last column meets the diagonal.
    lemma_rise(x - 1, y);
    lemma_rise(y + 1, x + 1);
    assert((y + 1) * (y + 1) - (y + 1) == y * y + y) by (nonlinear_arith);
    assert((x + 1) * (x + 1) - (x + 1) == x * x + x) by (nonlinear_arith);
    assert(r * r <= 2 * x * x - x + 1) by (nonlinear_arith)
        requires
            (x - 1) * (x - 1) + y * y + y >= r * r,
            y * y + y <= x * x + x,
    ;
    assert(2 * (x - 1) * (x - 1) - (x - 1) < r * r) by (nonlinear_arith)
        requires
            (x - 1) * (x - 1) + y * y - y < r * r,
            (x - 1) * (x - 1) - (x - 1) <= y * y - y,
    ;
    if x >= 2 {
        assert(r * r > 2 * (x - 1) * (x - 1) - (x - 1) + 1) by (nonlinear_arith)
            requires
                (x - 2) * (x - 2) + x * x - x < r * r,
        ;
    }
    if x == 1 {
        lemma_column_height(r, 0, y, r);
    }
    lemma_column_height(r, 0, r, a);
    lemma_column_height(r, 0, r, b);
    if a >= b {
        if reached(r, x, y, a, b) {
            if 1 <= a < x && a * a + b * b - b < r * r && a == b {
                if a < x - 1 {
                    lemma_diagonal_rise(a, x - 1);
                }
            }
            if a == b && a >= 1 && y <= a && 1 <= b < x {
                assert(a == x - 1);
            }
        }
        if disk_has(r, a, b) && a >= 1 {
            if a < y {
                lemma_rise(b, y);
                lemma_square_le(a, x - 1);
            } else if b >= x {
                lemma_square_le(x, b);
                lemma_rise(x, a);
                assert(b * b + a * a - a >= 2 * x * x - x) by (nonlinear_arith)
                    requires
                        x * x <= b * b,
                        x * x - x <= a * a - a,
                ;
                if a > x {
                    lemma_rise(x + 1, a);
                    assert(false);
                } else if b > x {
                    lemma_square_le(x + 1, b);
                    assert((x + 1) * (x + 1) == x * x + 2 * x + 1) by (nonlinear_arith);
                    assert(false);
                } else {
                    assert(a == x && b == x);
                    assert(b * b + a * a - a == 2 * x * x - x) by (nonlinear_arith)
                        requires
                            a == x,
                            b == x,
                    ;
                    assert(r * r == 2 * x * x - x + 1);
                    assert(!disk_has(r, a, b));
                }
            } else if b == 0 && a < r {
                lemma_rise(a, r - 1);
                assert((r - 1) * (r - 1) - (r - 1) == r * r - 3 * r + 2) by (nonlinear_arith);
            }
        }
    } else {
        if disk_has(r, a, b) && a >= x {
            lemma_square_le(x, a);
            lemma_rise(x + 1, b);
        }
    }
}

/// The disk holds every pixel nearer its center than `r`, and only pixels
/// whose distance from the center rounds to at most `r`; the four pixels
/// `r` straight out from the center are always in it.
pub proof fn lemma_disk_between_circles(r: int, i: int, j: int)
    requires
        r >= 0,
    ensures
        i * i + j * j < r * r ==> disk_has(r, i, j),
        disk_has(r, i, j) ==> i * i + j * j <= r * r + r,
        disk_has(r, r, 0) && disk_has(r, -r, 0) && disk_has(r, 0, r) && disk_has(r, 0, -r),
{
    let a = abs(i);
    let b = abs(j);
    assert(i * i == a * a && j * j == b * b) by (nonlinear_arith)
        requires
            a == i || a == -i,
            b == j || b == -j,
    ;
    let lo = if a <= b { a } else { b };
    let hi = if a <= b { b } else { a };
    assert(i * i + j * j == lo * lo + hi * hi);
    lemma_square_le(0, lo);
    lemma_rise(0, hi);
    if i * i + j * j < r * r && lo == hi && r * r == 2 * lo * lo - lo + 1 {
        assert(lo < 1) by (nonlinear_arith)
            requires
                lo * lo + hi * hi < r * r,
                lo == hi,
                r * r == 2 * lo * lo - lo + 1,
        ;
    }
    if disk_has(r, i, j) && hi > 0 {
        lemma_column_height(r, 0, r, hi);
    }
    lemma_square_le(0, r);
    lemma_rise(0, r);
}

/// Sets rows `[y_start, y_end)` of column `x` to `color`; an empty range
/// touches nothing, wherever it ends.
pub fn fill_column(c: &mut Canvas, color: Color, x: u32, y_start: u32, y_end: u32)
    requires
        old(c).wf(),
        x < old(c).w(),
        y_start >= y_end || y_end <= old(c).h(),
    ensures
        final(c).wf(),
        final(c).w() == old(c).w(),
        final(c).h() == old(c).h(),
        forall|i: int, j: int|
            #![trigger final(c).at(i, j)]
            final(c).in_bounds(i, j) ==> final(c).at(i, j) == if i == x && y_start <= j < y_end {
                color
            } else {
                old(c).at(i, j)
            },
{
    if y_start >= y_end {
        return;
    }
    let mut y: u32 = y_start;
    while y < y_end
        invariant
            c.wf(),
            c.w() == old(c).w(),
            c.h() == old(c).h(),
            x < c.w(),
            y_end <= c.h(),
            y_start <= y <= y_end,
            forall|i: int, j: int|
                #![trigger c.at(i, j)]
                c.in_bounds(i, j) ==> c.at(i, j) == if i == x && y_start <= j < y {
                    color
                } else {
                    old(c).at(i, j)
                },
        decreases y_end - y,
    {
        c.set(x, y, color);
        y = y + 1;
    }
}

/// Paints columns `cx - dx` and `cx + dx`, rows `cy - h` through `cy + h`:
/// the two end points of each, then the rows between.
fn paint_column_pair(c: &mut Canvas, color: Color, cx: u32, cy: u32, dx: u32, h: u32)
    requires
        old(c).wf(),
        dx <= cx,
        h <= cy,
        cx + dx < old(c).w(),
        cy + h < old(c).h(),
    ensures
        final(c).wf(),
        final(c).w() == old(c).w(),
        final(c).h() == old(c).h(),
        forall|i: int, j: int|
            #![trigger final(c).at(i, j)]
            final(c).in_bounds(i, j) ==> final(c).at(i, j) == if abs(i - cx) == dx && abs(j - cy)
                <= h {
                color
            } else {
                old(c).at(i, j)
            },
{
    let width: u32 = c.width();
    let height: u32 = c.height();
    assert(cx + dx < width && cy + h < height);
    c.set(cx + dx, cy + h, color);
    c.set(cx - dx, cy + h, color);
    c.set(cx + dx, cy - h, color);
    c.set(cx - dx, cy - h, color);
    fill_column(c, color, cx + dx, cy - h + 1, cy + h);
    fill_column(c, color, cx - dx, cy - h + 1, cy + h);
}

proof fn lemma_point_disk(a: int, b: int)
    requires
        0 <= a,
        0 <= b,
    ensures
        reached(0, 1, 0, a, b) == disk_has(0, a, b),
{
    lemma_rise(0, a);
    lemma_rise(0, b);
    lemma_square_le(0, a);
    lemma_square_le(0, b);
}

/// Draws a filled disk of radius `r` around `(cx, cy)` in `color`, by
/// midpoint-circle stepping: for each column of the first octant it keeps
/// the boundary row or steps one row in, and fills the columns between the
/// boundary points solid. Exactly the pixels that `disk_has` names change,
/// all to `color`.
pub fn draw_disk(c: &mut Canvas, color: Color, cx: u32, cy: u32, r: u32)
    requires
        old(c).wf(),
        r <= cx,
        r <= cy,
        cx + r < old(c).w(),
        cy + r < old(c).h(),
    ensures
        final(c).wf(),
        final(c).w() == old(c).w(),
        final(c).h() == old(c).h(),
        forall|i: int, j: int|
            #![trigger final(c).at(i, j)]
            final(c).in_bounds(i, j) ==> final(c).at(i, j) == if disk_has(
                r as int,
                i - cx,
                j - cy,
            ) {
                color
            } else {
                old(c).at(i, j)
            },
{
    let ghost c0 = *c;
    let ghost (gx, gy, gr) = (cx as int, cy as int, r as int);
    let w: u32 = c.width();
    let h: u32 = c.height();
    c.set(cx + r, cy, color);
    c.set(cx - r, cy, color);
    c.set(cx, cy + r, color);
    c.set(cx, cy - r, color);
    fill_column(c, color, cx, cy - r + 1, cy + r);
    let mut err: i128 = 1 - r as i128;
    let mut dx: i128 = 0;
    let mut dy: i128 = 0 - 2 * (r as i128);
    let mut x: u32 = 1;
    let mut y: u32 = r;
    while x < y
        invariant
            c.wf(),
            c.w() == c0.w(),
            c.h() == c0.h(),
            gx == cx,
            gy == cy,
            gr == r,
            r <= cx,
            r <= cy,
            cx + r < c.w(),
            cy + r < c.h(),
            w == c.w(),
            h == c.h(),
            1 <= x <= r + 1,
            y <= r,
            x <= y + 1,
            dx == 2 * (x - 1),
            dy == -2 * y,
            err == x * x + y * y - y - r * r,
            -0x10_0000_0000 * (x as int) <= err <= 0x10_0000_0000 * (x as int),
            r >= 1 ==> (x - 1) * (x - 1) + y * y - y < r * r,
            (x - 1) * (x - 1) + y * y + y >= r * r,
            x >= 2 ==> (x - 2) * (x - 2) + x * x - x < r * r,
            forall|i: int, j: int|
                #![trigger c.at(i, j)]
                c.in_bounds(i, j) ==> c.at(i, j) == if reached(
                    gr,
                    x as int,
                    y as int,
                    abs(i - gx),
                    abs(j - gy),
                ) {
                    color
                } else {
                    c0.at(i, j)
                },
        decreases y + 1 - x,
    {
        let ghost (x0, y0) = (x as int, y as int);
        if err >= 0 {
            y = y - 1;
            dy = dy + 2;
            err = err + dy;
        }
        dx = dx + 2;
        err = err + dx + 1;
        proof {
            let y2 = y as int;
            if y2 == y0 - 1 {
                assert(y2 * y2 - y2 == y0 * y0 - y0 - 2 * y2) by (nonlinear_arith)
                    requires
                        y2 == y0 - 1,
                ;
                assert(x0 * x0 + y2 * y2 - y2 < r * r) by (nonlinear_arith)
                    requires
                        (x0 - 1) * (x0 - 1) + y0 * y0 - y0 < r * r,
                        y2 == y0 - 1,
                        x0 + 1 <= y0,
                ;
                assert(x0 * x0 + y2 * y2 + y2 >= r * r) by (nonlinear_arith)
                    requires
                        x0 * x0 + y0 * y0 - y0 >= r * r,
                        y2 == y0 - 1,
                ;
            } else {
                assert(x0 * x0 + y2 * y2 + y2 >= r * r) by (nonlinear_arith)
                    requires
                        (x0 - 1) * (x0 - 1) + y0 * y0 + y0 >= r * r,
                        y2 == y0,
                        x0 >= 1,
                ;
            }
            assert((x0 + 1) * (x0 + 1) == x0 * x0 + 2 * x0 + 1) by (nonlinear_arith);
            assert((x0 - 1) * (x0 - 1) + (x0 + 1) * (x0 + 1) - (x0 + 1) < r * r)
                by (nonlinear_arith)
                requires
                    (x0 - 1) * (x0 - 1) + y0 * y0 - y0 < r * r,
                    x0 + 1 <= y0,
                    x0 >= 1,
            ;
        }
        let ghost before = *c;
        paint_column_pair(c, color, cx, cy, x, y);
        paint_column_pair(c, color, cx, cy, y, x);
        proof {
            assert forall|i: int, j: int|
                #![trigger c.at(i, j)]
                c.in_bounds(i, j) implies c.at(i, j) == if reached(
                    gr,
                    x0 + 1,
                    y as int,
                    abs(i - gx),
                    abs(j - gy),
                ) {
                    color
                } else {
                    c0.at(i, j)
                } by {
                lemma_step(gr, x0, y0, y as int, abs(i - gx), abs(j - gy));
                assert(before.at(i, j) == if reached(gr, x0, y0, abs(i - gx), abs(j - gy)) {
                    color
                } else {
                    c0.at(i, j)
                });
            }
        }
        x = x + 1;
    }
    proof {
        assert forall|i: int, j: int|
            #![trigger c.at(i, j)]
            c.in_bounds(i, j) implies c.at(i, j) == if disk_has(gr, i - gx, j - gy) {
                color
            } else {
                c0.at(i, j)
            } by {
            if r == 0 {
                lemma_point_disk(abs(i - gx), abs(j - gy));
            } else {
                lemma_stop(gr, x as int, y as int, abs(i - gx), abs(j - gy));
            }
        }
    }
}

} // verus!
