use vstd::prelude::*;

use crate::canvas::Canvas;
use crate::color::Color;
use crate::disk::{disk_has, draw_disk};
use crate::error::GeometryError;
use crate::root::{half_root, lemma_half_root_exists, nearest_half_root, round_half_root};

verus! {

/// A via-layer cross-section: one signal via, or a differential pair, among
/// ground vias, in pixel units.
#[derive(Clone, Copy, Debug, PartialEq, Eq, Structural)]
pub struct ViaGeometry {
    pub res_x: u32,
    pub res_y: u32,
    pub inner_width: u32,
    pub outer_width: u32,
    pub inner_space: u32,
    pub outer_space: u32,
}

/// A filled disk of the given color, center and radius.
#[derive(Clone, Copy, Debug, PartialEq, Eq, Structural)]
pub struct Pad {
    pub color: Color,
    pub x: i64,
    pub y: i64,
    pub radius: u32,
}

pub open spec fn pad(color: Color, x: int, y: int, radius: int) -> Pad {
    Pad { color, x: x as i64, y: y as i64, radius: radius as u32 }
}

/// Whether the pad's disk holds `(x, y)`.
pub open spec fn pad_covers(p: Pad, x: int, y: int) -> bool {
    disk_has(p.radius as int, x - p.x, y - p.y)
}

/// The material at `(x, y)` once `pads` are drawn in order on substrate:
/// that of the last pad whose disk holds the point.
pub open spec fn color_after(pads: Seq<Pad>, x: int, y: int) -> Color
    decreases pads.len(),
{
    if pads.len() == 0 {
        Color::Substrate
    } else if pad_covers(pads.last(), x, y) {
        pads.last().color
    } else {
        color_after(pads.drop_last(), x, y)
    }
}

/// What `pads` leave at a point is substrate or the color of one of them.
pub proof fn lemma_color_after_is_a_pad(pads: Seq<Pad>, x: int, y: int)
    ensures
        color_after(pads, x, y) == Color::Substrate || exists|i: int|
            0 <= i < pads.len() && color_after(pads, x, y) == (#[trigger] pads[i]).color,
    decreases pads.len(),
{
    if pads.len() > 0 && !pad_covers(pads.last(), x, y) {
        lemma_color_after_is_a_pad(pads.drop_last(), x, y);
        if color_after(pads, x, y) != Color::Substrate {
            let i = choose|i: int|
                0 <= i < pads.drop_last().len() && color_after(pads.drop_last(), x, y) == (
                #[trigger] pads.drop_last()[i]).color;
            assert(pads[i] == pads.drop_last()[i]);
        }
    } else if pads.len() > 0 {
        assert(pads[pads.len() - 1] == pads.last());
    }
}

/// A pad center that any geometry can produce: no coordinate beyond 2^36.
pub open spec fn bounded(p: Pad) -> bool {
    &&& -0x10_0000_0000 <= p.x <= 0x10_0000_0000
    &&& -0x10_0000_0000 <= p.y <= 0x10_0000_0000
}

impl ViaGeometry {
    pub open spec fn center_x(self) -> int {
        self.res_x as int / 2
    }

    pub open spec fn center_y(self) -> int {
        self.res_y as int / 2
    }

    /// Distance of each signal via from the center.
    pub open spec fn conductor_pos(self) -> int {
        self.inner_space as int / 2 + self.inner_width as int / 2
    }

    /// `outer_space / sqrt(2)`, rounded.
    pub open spec fn diagonal_offset(self) -> int {
        half_root(2 * (self.outer_space as int) * (self.outer_space as int))
    }

    /// `(outer_space / 2) * sqrt(3)`, rounded.
    pub open spec fn rise_offset(self) -> int {
        half_root(12 * (self.outer_space as int / 2) * (self.outer_space as int / 2))
    }

    /// The pads in drawing order: the signal via or vias, then the ground vias.
    pub open spec fn pads(self) -> Seq<Pad> {
        let cx = self.center_x();
        let cy = self.center_y();
        let cp = self.conductor_pos();
        let ri = self.inner_width as int / 2;
        let ro = self.outer_width as int / 2;
        let gnd = Color::GroundConductor;
        if self.inner_space == 0 {
            let off = self.diagonal_offset();
            seq![
                pad(Color::PositiveConductor, cx, cy, ri),
                pad(gnd, cx + cp + off, cy + off, ro),
                pad(gnd, cx - cp - off, cy + off, ro),
                pad(gnd, cx + cp + off, cy - off, ro),
                pad(gnd, cx - cp - off, cy - off, ro),
            ]
        } else {
            let os = self.outer_space as int;
            let ox = self.outer_space as int / 2;
            let oy = self.rise_offset();
            seq![
                pad(Color::PositiveConductor, cx + cp, cy, ri),
                pad(Color::NegativeConductor, cx - cp, cy, ri),
                pad(gnd, cx + cp + os, cy, ro),
                pad(gnd, cx - cp - os, cy, ro),
                pad(gnd, cx + cp + ox, cy + oy, ro),
                pad(gnd, cx - cp - ox, cy + oy, ro),
                pad(gnd, cx + cp + ox, cy - oy, ro),
                pad(gnd, cx - cp - ox, cy - oy, ro),
            ]
        }
    }

    /// `c` is this cross-section: `res_x` by `res_y`, the pads drawn in order
    /// on substrate.
    pub open spec fn drawn(self, c: Canvas) -> bool {
        &&& c.wf()
        &&& c.w() == self.res_x
        &&& c.h() == self.res_y
        &&& forall|x: int, y: int|
            c.in_bounds(x, y) ==> c.at(x, y) == color_after(self.pads(), x, y)
    }

    /// Whether the square around the pad lies inside the canvas.
    pub open spec fn fits(self, p: Pad) -> bool {
        &&& 0 <= p.x - p.radius
        &&& p.x + p.radius < self.res_x
        &&& 0 <= p.y - p.radius
        &&& p.y + p.radius < self.res_y
    }

    /// The first derived range that does not fit, in the order they are checked.
    pub open spec fn error(self) -> Option<GeometryError> {
        if self.res_x == 0 || self.res_y == 0 {
            Some(GeometryError::EmptyCanvas)
        } else if self.res_x * self.res_y > usize::MAX {
            Some(GeometryError::CanvasTooLarge)
        } else if exists|i: int| 0 <= i < self.pads().len() && !self.fits(#[trigger] self.pads()[i]) {
            Some(GeometryError::PadPastEdge)
        } else {
            None
        }
    }
}

impl ViaGeometry {
    /// The pads of this geometry, in drawing order.
    pub fn layout(&self) -> (r: Vec<Pad>)
        ensures
            r@ == self.pads(),
            forall|i: int| 0 <= i < r@.len() ==> #[trigger] bounded(r@[i]),
    {
        let cx: i64 = (self.res_x / 2) as i64;
        let cy: i64 = (self.res_y / 2) as i64;
        let cp: i64 = (self.inner_space / 2) as i64 + (self.inner_width / 2) as i64;
        let ri: u32 = self.inner_width / 2;
        let ro: u32 = self.outer_width / 2;
        let gnd = Color::GroundConductor;
        if self.inner_space == 0 {
            let os = self.outer_space as u128;
            assert(2 * os * os < 0x4_0000_0000_0000_0000) by (nonlinear_arith)
                requires
                    os < 0x1_0000_0000,
            ;
            let off = round_half_root(2 * os * os) as i64;
            let right = cx + cp + off;
            let left = cx - cp - off;
            let up = cy + off;
            let down = cy - off;
            let r = vec![
                Pad { color: Color::PositiveConductor, x: cx, y: cy, radius: ri },
                Pad { color: gnd, x: right, y: up, radius: ro },
                Pad { color: gnd, x: left, y: up, radius: ro },
                Pad { color: gnd, x: right, y: down, radius: ro },
                Pad { color: gnd, x: left, y: down, radius: ro },
            ];
            assert(r@ =~= self.pads());
            r
        } else {
            let os: i64 = self.outer_space as i64;
            let ox: i64 = (self.outer_space / 2) as i64;
            let h = (self.outer_space / 2) as u128;
            assert(12 * h * h < 0x4_0000_0000_0000_0000) by (nonlinear_arith)
                requires
                    h < 0x8000_0000,
            ;
            let oy = round_half_root(12 * h * h) as i64;
            let pos = cx + cp;
            let neg = cx - cp;
            let far_right = cx + cp + os;
            let far_left = cx - cp - os;
            let right = cx + cp + ox;
            let left = cx - cp - ox;
            let up = cy + oy;
            let down = cy - oy;
            let r = vec![
                Pad { color: Color::PositiveConductor, x: pos, y: cy, radius: ri },
                Pad { color: Color::NegativeConductor, x: neg, y: cy, radius: ri },
                Pad { color: gnd, x: far_right, y: cy, radius: ro },
                Pad { color: gnd, x: far_left, y: cy, radius: ro },
                Pad { color: gnd, x: right, y: up, radius: ro },
                Pad { color: gnd, x: left, y: up, radius: ro },
                Pad { color: gnd, x: right, y: down, radius: ro },
                Pad { color: gnd, x: left, y: down, radius: ro },
            ];
            assert(r@ =~= self.pads());
            r
        }
    }
}

impl ViaGeometry {
    fn fits_exec(&self, p: &Pad) -> (r: bool)
        requires
            bounded(*p),
        ensures
            r == self.fits(*p),
    {
        let rad = p.radius as i64;
        p.x - rad >= 0 && p.x + rad < self.res_x as i64 && p.y - rad >= 0 && p.y + rad
            < self.res_y as i64
    }

    /// Checks the canvas size and every pad against the canvas edges; `None`
    /// when all fit.
    pub fn validate(&self) -> (r: Option<GeometryError>)
        ensures
            r == self.error(),
    {
        if self.res_x == 0 || self.res_y == 0 {
            return Some(GeometryError::EmptyCanvas);
        }
        if (self.res_x as usize).checked_mul(self.res_y as usize).is_none() {
            return Some(GeometryError::CanvasTooLarge);
        }
        let pads = self.layout();
        let mut i: usize = 0;
        while i < pads.len()
            invariant
                pads@ == self.pads(),
                self.res_x != 0 && self.res_y != 0,
                self.res_x * self.res_y <= usize::MAX,
                i <= pads@.len(),
                forall|j: int| 0 <= j < pads@.len() ==> #[trigger] bounded(pads@[j]),
                forall|j: int| 0 <= j < i ==> self.fits(#[trigger] self.pads()[j]),
            decreases pads.len() - i,
        {
            if !self.fits_exec(&pads[i]) {
                assert(!self.fits(self.pads()[i as int]));
                return Some(GeometryError::PadPastEdge);
            }
            i = i + 1;
        }
        None
    }

    /// Draws the cross-section on a `res_x` by `res_y` canvas of substrate:
    /// the pads in drawing order, each a disk in its color, a later pad
    /// drawn over an earlier one. Fails, before drawing anything, with the
    /// first range that does not fit.
    pub fn render(&self) -> (r: Result<Canvas, GeometryError>)
        ensures
            r is Ok <==> self.error() is None,
            r matches Err(e) ==> self.error() == Some(e),
            r matches Ok(c) ==> self.drawn(c),
    {
        if let Some(e) = self.validate() {
            return Err(e);
        }
        let pads = self.layout();
        let mut c = Canvas::new(self.res_x, self.res_y, Color::Substrate);
        let mut k: usize = 0;
        while k < pads.len()
            invariant
                self.error() is None,
                pads@ == self.pads(),
                k <= pads@.len(),
                c.wf(),
                c.w() == self.res_x,
                c.h() == self.res_y,
                forall|x: int, y: int|
                    c.in_bounds(x, y) ==> c.at(x, y) == color_after(pads@.take(k as int), x, y),
            decreases pads.len() - k,
        {
            let p = pads[k];
            assert(self.fits(self.pads()[k as int]));
            draw_disk(&mut c, p.color, p.x as u32, p.y as u32, p.radius);
            assert(pads@.take(k + 1).drop_last() =~= pads@.take(k as int));
            k = k + 1;
        }
        assert(pads@.take(k as int) =~= pads@);
        Ok(c)
    }
}

/// A single-ended via layout has one positive pad, at the center, and four
/// ground pads, one at each corner of a square pattern: each is
/// `conductor_pos + off` columns and `off` rows from the center, `off` being
/// `outer_space / sqrt(2)` rounded to the nearest integer. With a signal via
/// narrower than two pixels, each ground center lies `off * sqrt(2)` from the
/// signal center, as near to `outer_space` as whole pixels allow.
pub proof fn lemma_single_via_layout(g: ViaGeometry)
    requires
        g.inner_space == 0,
    ensures
        g.pads().len() == 5,
        nearest_half_root(g.diagonal_offset(), 2 * g.outer_space * g.outer_space),
        g.pads()[0].x == g.center_x() && g.pads()[0].y == g.center_y(),
        forall|i: int|
            0 <= i < 5 ==> (#[trigger] g.pads()[i].color == Color::PositiveConductor <==> i == 0)
                && (g.pads()[i].color == Color::GroundConductor <==> i != 0),
        forall|i: int|
            1 <= i < 5 ==> {
                let p = #[trigger] g.pads()[i];
                &&& p.x - g.center_x() == g.conductor_pos() + g.diagonal_offset() || g.center_x()
                    - p.x == g.conductor_pos() + g.diagonal_offset()
                &&& p.y - g.center_y() == g.diagonal_offset() || g.center_y() - p.y
                    == g.diagonal_offset()
            },
        g.conductor_pos() == 0 ==> forall|i: int|
            1 <= i < 5 ==> {
                let p = #[trigger] g.pads()[i];
                (p.x - g.center_x()) * (p.x - g.center_x()) + (p.y - g.center_y()) * (p.y
                    - g.center_y()) == 2 * g.diagonal_offset() * g.diagonal_offset()
            },
{
    let os = g.outer_space as int;
    assert(2 * os * os < 0x4_0000_0000_0000_0000) by (nonlinear_arith)
        requires
            0 <= os < 0x1_0000_0000,
    ;
    lemma_half_root_exists(2 * os * os);
    let off = g.diagonal_offset();
    assert forall|i: int| 1 <= i < 5 && g.conductor_pos() == 0 implies {
        let p = #[trigger] g.pads()[i];
        (p.x - g.center_x()) * (p.x - g.center_x()) + (p.y - g.center_y()) * (p.y - g.center_y())
            == 2 * off * off
    } by {
        let p = g.pads()[i];
        let a = p.x - g.center_x();
        let b = p.y - g.center_y();
        assert(a == off || a == -off);
        assert(b == off || b == -off);
        assert(a * a + b * b == 2 * off * off) by (nonlinear_arith)
            requires
                a == off || a == -off,
                b == off || b == -off,
        ;
    }
}

/// Every pixel of a via cross-section is substrate, positive, negative or
/// ground, never air or soldermask; a single-ended one has no negative pixel.
pub proof fn lemma_via_colors(g: ViaGeometry, x: int, y: int)
    ensures
        color_after(g.pads(), x, y) == Color::Substrate || color_after(g.pads(), x, y)
            == Color::PositiveConductor || color_after(g.pads(), x, y) == Color::NegativeConductor
            || color_after(g.pads(), x, y) == Color::GroundConductor,
        g.inner_space == 0 ==> color_after(g.pads(), x, y) != Color::NegativeConductor,
{
    lemma_color_after_is_a_pad(g.pads(), x, y);
    assert forall|i: int| 0 <= i < g.pads().len() implies {
        let k = (#[trigger] g.pads()[i]).color;
        &&& k == Color::PositiveConductor || k == Color::NegativeConductor || k
            == Color::GroundConductor
        &&& g.inner_space == 0 ==> k != Color::NegativeConductor
    } by {
        if g.inner_space == 0 {
            assert(0 <= i < 5);
        } else {
            assert(0 <= i < 8);
        }
    }
}

} // verus!
