use vstd::prelude::*;

use crate::canvas::Canvas;
use crate::color::Color;
use crate::error::GeometryError;
use vstd::arithmetic::div_mod::lemma_mod_pos_bound;
use vstd::set_lib::{lemma_int_range, lemma_len_subset, set_int_range};

verus! {

/// A coplanar waveguide over a ground plane, in pixel units.
#[derive(Clone, Copy, Debug, PartialEq, Eq, Structural)]
pub struct CoplanarGeometry {
    pub res_x: u32,
    pub res_y: u32,
    pub core_thickness: u32,
    pub cu_thickness: u32,
    pub sm_thickness: u32,
    pub trace_width: u32,
    pub outer_space: u32,
    pub inner_space: u32,
    pub via_fence_dist: u32,
    pub via_fence_thickness: u32,
}

impl CoplanarGeometry {
    /// Width of the opening in the top ground copper.
    pub open spec fn gap(self) -> int {
        if self.inner_space == 0 {
            self.trace_width + 2 * self.outer_space
        } else {
            2 * self.trace_width + self.inner_space + 2 * self.outer_space
        }
    }

    /// First column past the left top ground plane.
    pub open spec fn left_ground_end(self) -> int {
        (self.res_x - self.gap()) / 2
    }

    /// First column of the right top ground plane.
    pub open spec fn right_ground_start(self) -> int {
        (self.res_x + self.gap()) / 2
    }

    /// Right edge (exclusive) of the left via fence.
    pub open spec fn fence_x1(self) -> int {
        self.left_ground_end() - self.via_fence_dist
    }

    /// Left edge of the right via fence.
    pub open spec fn fence_x2(self) -> int {
        self.right_ground_start() + self.via_fence_dist
    }

    /// Row just above the top copper, counted from the bottom.
    pub open spec fn stack_top(self) -> int {
        2 * self.cu_thickness + self.core_thickness
    }

    /// The first derived range that does not fit, in the order they are checked.
    pub open spec fn error(self) -> Option<GeometryError> {
        if self.res_x == 0 || self.res_y == 0 {
            Some(GeometryError::EmptyCanvas)
        } else if self.res_x * self.res_y > usize::MAX {
            Some(GeometryError::CanvasTooLarge)
        } else if self.gap() > self.res_x {
            Some(GeometryError::GapWiderThanCanvas)
        } else if self.fence_x1() < self.via_fence_thickness {
            Some(GeometryError::FencePastEdge)
        } else if self.stack_top() + self.sm_thickness > self.res_y {
            Some(GeometryError::StackTallerThanCanvas)
        } else if self.sm_thickness > self.stack_top() {
            Some(GeometryError::SolderMaskBelowCanvas)
        } else {
            None
        }
    }

    /// Whether column `x` lies in one of the two via fence bands.
    pub open spec fn in_fence(self, x: int) -> bool {
        ||| self.fence_x1() - self.via_fence_thickness <= x < self.fence_x1()
        ||| self.fence_x2() <= x < self.fence_x2() + self.via_fence_thickness
    }

    /// The material of column `x` in the top copper layer.
    pub open spec fn top_copper(self, x: int) -> Color {
        let rx = self.res_x as int;
        let tw = self.trace_width as int;
        let is = self.inner_space as int;
        if self.inner_space == 0 && (rx - tw) / 2 <= x < (rx + tw) / 2 {
            Color::PositiveConductor
        } else if self.inner_space != 0 && (rx - is) / 2 - tw <= x < (rx - is) / 2 {
            Color::NegativeConductor
        } else if self.inner_space != 0 && (rx + is) / 2 <= x < (rx + is) / 2 + tw {
            Color::PositiveConductor
        } else if x < self.left_ground_end() || self.right_ground_start() <= x {
            Color::GroundConductor
        } else {
            Color::Air
        }
    }

    /// The material at column `x`, `p` rows above the bottom, before soldermask.
    pub open spec fn layer_color(self, x: int, p: int) -> Color {
        if p < self.cu_thickness {
            Color::GroundConductor
        } else if p < self.cu_thickness + self.core_thickness {
            if self.in_fence(x) {
                Color::GroundConductor
            } else {
                Color::Substrate
            }
        } else if p < self.stack_top() {
            self.top_copper(x)
        } else {
            Color::Air
        }
    }

    /// Whether soldermask covers column `x`, `p` rows above the bottom: the
    /// row lies in the soldermask band and the row `sm_thickness` below holds
    /// something other than air within `sm_thickness` columns.
    pub open spec fn soldermask_at(self, x: int, p: int) -> bool {
        let sm = self.sm_thickness as int;
        &&& self.stack_top() <= p < self.stack_top() + sm
        &&& exists|k: int|
            x - sm <= k <= x + sm && 0 <= k < self.res_x && #[trigger] self.layer_color(k, p - sm)
                != Color::Air
    }

    /// `c` is this cross-section: `res_x` by `res_y`, its row `y` showing the
    /// materials `res_y - 1 - y` rows above the bottom of the stack.
    pub open spec fn drawn(self, c: Canvas) -> bool {
        &&& c.wf()
        &&& c.w() == self.res_x
        &&& c.h() == self.res_y
        &&& forall|x: int, y: int|
            c.in_bounds(x, y) ==> c.at(x, y) == self.color_at(x, self.res_y - 1 - y)
    }

    /// The material at column `x`, `p` rows above the bottom.
    pub open spec fn color_at(self, x: int, p: int) -> Color {
        if self.soldermask_at(x, p) {
            Color::SolderMask
        } else {
            self.layer_color(x, p)
        }
    }
}

impl CoplanarGeometry {
    fn gap_exec(&self) -> (r: u64)
        ensures
            r == self.gap(),
    {
        if self.inner_space == 0 {
            self.trace_width as u64 + 2 * (self.outer_space as u64)
        } else {
            2 * (self.trace_width as u64) + self.inner_space as u64 + 2 * (self.outer_space as u64)
        }
    }

    /// Checks every derived range against the canvas; `None` when all fit.
    pub fn validate(&self) -> (r: Option<GeometryError>)
        ensures
            r == self.error(),
    {
        let rx = self.res_x as u64;
        let gap = self.gap_exec();
        let vfd = self.via_fence_dist as u64;
        let vft = self.via_fence_thickness as u64;
        let top = 2 * (self.cu_thickness as u64) + self.core_thickness as u64;
        let sm = self.sm_thickness as u64;
        if self.res_x == 0 || self.res_y == 0 {
            Some(GeometryError::EmptyCanvas)
        } else if (self.res_x as usize).checked_mul(self.res_y as usize).is_none() {
            Some(GeometryError::CanvasTooLarge)
        } else if gap > rx {
            Some(GeometryError::GapWiderThanCanvas)
        } else if (rx - gap) / 2 < vfd + vft {
            Some(GeometryError::FencePastEdge)
        } else if top + sm > self.res_y as u64 {
            Some(GeometryError::StackTallerThanCanvas)
        } else if sm > top {
            Some(GeometryError::SolderMaskBelowCanvas)
        } else {
            None
        }
    }

    fn top_copper_exec(&self, x: u32) -> (r: Color)
        requires
            self.error() is None,
        ensures
            r == self.top_copper(x as int),
    {
        let rx = self.res_x as u64;
        let tw = self.trace_width as u64;
        let is = self.inner_space as u64;
        let gap = self.gap_exec();
        let x = x as u64;
        if self.inner_space == 0 && (rx - tw) / 2 <= x && x < (rx + tw) / 2 {
            Color::PositiveConductor
        } else if self.inner_space != 0 && (rx - is) / 2 <= x + tw && x < (rx - is) / 2 {
            Color::NegativeConductor
        } else if self.inner_space != 0 && (rx + is) / 2 <= x && x < (rx + is) / 2 + tw {
            Color::PositiveConductor
        } else if x < (rx - gap) / 2 || (rx + gap) / 2 <= x {
            Color::GroundConductor
        } else {
            Color::Air
        }
    }

    fn layer_color_exec(&self, x: u32, p: u32) -> (r: Color)
        requires
            self.error() is None,
        ensures
            r == self.layer_color(x as int, p as int),
    {
        let cu = self.cu_thickness as u64;
        let core = self.core_thickness as u64;
        let p = p as u64;
        if p < cu {
            Color::GroundConductor
        } else if p < cu + core {
            let rx = self.res_x as u64;
            let gap = self.gap_exec();
            let vfd = self.via_fence_dist as u64;
            let vft = self.via_fence_thickness as u64;
            let x1 = (rx - gap) / 2 - vfd;
            let x2 = (rx + gap) / 2 + vfd;
            let x = x as u64;
            if (x1 - vft <= x && x < x1) || (x2 <= x && x < x2 + vft) {
                Color::GroundConductor
            } else {
                Color::Substrate
            }
        } else if p < 2 * cu + core {
            self.top_copper_exec(x as u32)
        } else {
            Color::Air
        }
    }
}

impl CoplanarGeometry {
    /// Draws the cross-section: a `res_x` by `res_y` canvas whose row `y`
    /// shows the layer `res_y - 1 - y` rows above the bottom of the stack.
    /// Fails, before drawing anything, with the first range that does not fit.
    pub fn render(&self) -> (r: Result<Canvas, GeometryError>)
        ensures
            r is Ok <==> self.error() is None,
            r matches Err(e) ==> self.error() == Some(e),
            r matches Ok(c) ==> self.drawn(c),
    {
        if let Some(e) = self.validate() {
            return Err(e);
        }
        let mut c = Canvas::new(self.res_x, self.res_y, Color::Air);
        self.paint_layers(&mut c);
        self.grow_soldermask(&mut c);
        Ok(c)
    }

    /// Paints ground plane, core with via fence, and top copper; air above.
    fn paint_layers(&self, c: &mut Canvas)
        requires
            self.error() is None,
            old(c).wf(),
            old(c).w() == self.res_x,
            old(c).h() == self.res_y,
        ensures
            final(c).wf(),
            final(c).w() == self.res_x,
            final(c).h() == self.res_y,
            forall|x: int, y: int|
                final(c).in_bounds(x, y) ==> final(c).at(x, y) == self.layer_color(
                    x,
                    self.res_y - 1 - y,
                ),
    {
        let mut y: u32 = 0;
        while y < self.res_y
            invariant
                self.error() is None,
                c.wf(),
                c.w() == self.res_x,
                c.h() == self.res_y,
                y <= self.res_y,
                forall|i: int, j: int|
                    c.in_bounds(i, j) && j < y ==> c.at(i, j) == self.layer_color(
                        i,
                        self.res_y - 1 - j,
                    ),
            decreases self.res_y - y,
        {
            let p: u32 = self.res_y - 1 - y;
            let mut x: u32 = 0;
            while x < self.res_x
                invariant
                    self.error() is None,
                    c.wf(),
                    c.w() == self.res_x,
                    c.h() == self.res_y,
                    y < self.res_y,
                    p == self.res_y - 1 - y,
                    x <= self.res_x,
                    forall|i: int, j: int|
                        c.in_bounds(i, j) && (j < y || (j == y && i < x)) ==> c.at(i, j)
                            == self.layer_color(i, self.res_y - 1 - j),
                decreases self.res_x - x,
            {
                let color = self.layer_color_exec(x, p);
                c.set(x, y, color);
                x = x + 1;
            }
            y = y + 1;
        }
    }

    /// Grows soldermask over the top copper, one row band at a time.
    fn grow_soldermask(&self, c: &mut Canvas)
        requires
            self.error() is None,
            old(c).wf(),
            old(c).w() == self.res_x,
            old(c).h() == self.res_y,
            forall|x: int, y: int|
                old(c).in_bounds(x, y) ==> old(c).at(x, y) == self.layer_color(
                    x,
                    self.res_y - 1 - y,
                ),
        ensures
            final(c).wf(),
            final(c).w() == self.res_x,
            final(c).h() == self.res_y,
            forall|x: int, y: int|
                final(c).in_bounds(x, y) ==> final(c).at(x, y) == self.color_at(
                    x,
                    self.res_y - 1 - y,
                ),
    {
        let ghost ry = self.res_y as int;
        let sm = self.sm_thickness;
        let top: u32 = 2 * self.cu_thickness + self.core_thickness;
        let mut p: u32 = top;
        while p < top + sm
            invariant
                self.error() is None,
                c.wf(),
                c.w() == self.res_x,
                c.h() == self.res_y,
                ry == self.res_y,
                sm == self.sm_thickness,
                top == self.stack_top(),
                top <= p <= top + sm,
                forall|i: int, j: int|
                    c.in_bounds(i, j) ==> c.at(i, j) == if top <= ry - 1 - j < p {
                        self.color_at(i, ry - 1 - j)
                    } else {
                        self.layer_color(i, ry - 1 - j)
                    },
            decreases top + sm - p,
        {
            let y: u32 = self.res_y - 1 - p;
            let src: u32 = self.res_y - 1 - (p - sm);
            let mut x: u32 = 0;
            while x < self.res_x
                invariant
                    self.error() is None,
                    c.wf(),
                    c.w() == self.res_x,
                    c.h() == self.res_y,
                    ry == self.res_y,
                    sm == self.sm_thickness,
                    top == self.stack_top(),
                    top <= p < top + sm,
                    y == ry - 1 - p,
                    src == ry - 1 - (p - sm),
                    x <= self.res_x,
                    forall|i: int, j: int|
                        c.in_bounds(i, j) ==> c.at(i, j) == if top <= ry - 1 - j < p || (j == y
                            && i < x) {
                            self.color_at(i, ry - 1 - j)
                        } else {
                            self.layer_color(i, ry - 1 - j)
                        },
                decreases self.res_x - x,
            {
                let here = c.get(x, y);
                let near = window_has_copper(c, x, src, sm);
                proof {
                    let q = p - sm;
                    assert(c.at(x as int, y as int) == Color::Air);
                    if near {
                        let k = choose|k: int|
                            x - sm <= k <= x + sm && 0 <= k < c.w() && #[trigger] c.at(
                                k,
                                src as int,
                            ) != Color::Air && c.at(k, src as int) != Color::SolderMask;
                        assert(c.at(k, src as int) == self.layer_color(k, q));
                        assert(self.soldermask_at(x as int, p as int));
                    } else {
                        if self.soldermask_at(x as int, p as int) {
                            let k = choose|k: int|
                                x - sm <= k <= x + sm && 0 <= k < self.res_x
                                    && #[trigger] self.layer_color(k, q) != Color::Air;
                            assert(c.at(k, src as int) == self.layer_color(k, q));
                            assert(false);
                        }
                    }
                }
                if here == Color::Air && near {
                    c.set(x, y, Color::SolderMask);
                }
                x = x + 1;
            }
            p = p + 1;
        }
    }
}

/// With one trace, every row of the top copper shows it as exactly
/// `trace_width` positive columns starting at `(res_x - trace_width) / 2`,
/// with margins to either edge that differ by at most one column.
pub proof fn lemma_single_trace(g: CoplanarGeometry, x: int, p: int)
    requires
        g.error() is None,
        g.inner_space == 0,
        g.cu_thickness + g.core_thickness <= p < g.stack_top(),
        0 <= x < g.res_x,
    ensures
        (g.color_at(x, p) == Color::PositiveConductor) <==> ((g.res_x - g.trace_width) / 2 <= x < (
        g.res_x + g.trace_width) / 2),
        (g.res_x + g.trace_width) / 2 - (g.res_x - g.trace_width) / 2 == g.trace_width,
        -1 <= (g.res_x - g.trace_width) / 2 - (g.res_x - (g.res_x + g.trace_width) / 2) <= 1,
{
}

/// With two traces, every row of the top copper shows a negative band and
/// then a positive band, each `trace_width` wide, with `inner_space` air
/// columns between them.
pub proof fn lemma_differential_traces(g: CoplanarGeometry, x: int, p: int)
    requires
        g.error() is None,
        g.inner_space > 0,
        g.cu_thickness + g.core_thickness <= p < g.stack_top(),
        0 <= x < g.res_x,
    ensures
        (g.color_at(x, p) == Color::NegativeConductor) <==> ((g.res_x - g.inner_space) / 2
            - g.trace_width <= x < (g.res_x - g.inner_space) / 2),
        (g.color_at(x, p) == Color::PositiveConductor) <==> ((g.res_x + g.inner_space) / 2 <= x < (
        g.res_x + g.inner_space) / 2 + g.trace_width),
        (g.res_x - g.inner_space) / 2 <= x < (g.res_x + g.inner_space) / 2 ==> g.color_at(x, p)
            == Color::Air,
        (g.res_x + g.inner_space) / 2 - (g.res_x - g.inner_space) / 2 == g.inner_space,
        (g.res_x - g.inner_space) / 2 < (g.res_x + g.inner_space) / 2,
{
}

/// Both via fence bands lie within the canvas.
pub proof fn lemma_fences_inside(g: CoplanarGeometry)
    requires
        g.error() is None,
    ensures
        0 <= g.fence_x1() - g.via_fence_thickness,
        g.fence_x2() + g.via_fence_thickness <= g.res_x,
{
}

/// The bottom `cu_thickness` rows are ground copper across the full width.
pub proof fn lemma_ground_plane(g: CoplanarGeometry, x: int, p: int)
    requires
        g.error() is None,
        0 <= p < g.cu_thickness,
        0 <= x < g.res_x,
    ensures
        g.color_at(x, p) == Color::GroundConductor,
{
}

/// Thickening the soldermask, all else equal, never removes soldermask.
pub proof fn lemma_soldermask_monotonic(
    g1: CoplanarGeometry,
    g2: CoplanarGeometry,
    x: int,
    p: int,
)
    requires
        g1.error() is None,
        g2.error() is None,
        g2 == (CoplanarGeometry { sm_thickness: g2.sm_thickness, ..g1 }),
        g1.sm_thickness <= g2.sm_thickness,
        0 <= x < g1.res_x,
        g1.color_at(x, p) == Color::SolderMask,
    ensures
        g2.color_at(x, p) == Color::SolderMask,
{
    assert(g1.soldermask_at(x, p));
    let s1 = g1.sm_thickness as int;
    let s2 = g2.sm_thickness as int;
    let k = choose|k: int|
        x - s1 <= k <= x + s1 && 0 <= k < g1.res_x && #[trigger] g1.layer_color(k, p - s1)
            != Color::Air;
    if p - s2 < g1.cu_thickness + g1.core_thickness {
        assert(g2.layer_color(x, p - s2) != Color::Air);
    } else {
        assert(g2.layer_color(k, p - s2) == g1.layer_color(k, p - s1));
    }
    assert(g2.soldermask_at(x, p));
}

/// The soldermask pixels of the drawn cross-section, each `(x, y)` of the
/// canvas numbered `y * res_x + x`.
pub open spec fn soldermask_cells(g: CoplanarGeometry) -> Set<int> {
    Set::new(
        |k: int|
            0 <= k < g.res_x * g.res_y && g.color_at(k % (g.res_x as int), g.res_y - 1 - k / (
            g.res_x as int)) == Color::SolderMask,
    )
}

/// Thickening the soldermask, all else equal, never lowers the number of
/// soldermask pixels.
pub proof fn lemma_soldermask_count_monotonic(g1: CoplanarGeometry, g2: CoplanarGeometry)
    requires
        g1.error() is None,
        g2.error() is None,
        g2 == (CoplanarGeometry { sm_thickness: g2.sm_thickness, ..g1 }),
        g1.sm_thickness <= g2.sm_thickness,
    ensures
        soldermask_cells(g1).finite(),
        soldermask_cells(g2).finite(),
        soldermask_cells(g1).len() <= soldermask_cells(g2).len(),
{
    let n = g1.res_x * g1.res_y;
    let rx = g1.res_x as int;
    lemma_int_range(0, n);
    assert(soldermask_cells(g2).subset_of(set_int_range(0, n)));
    lemma_len_subset(soldermask_cells(g2), set_int_range(0, n));
    assert forall|k: int| soldermask_cells(g1).contains(k) implies soldermask_cells(g2).contains(
        k,
    ) by {
        lemma_mod_pos_bound(k, rx);
        lemma_soldermask_monotonic(g1, g2, k % rx, g1.res_y - 1 - k / rx);
    }
    lemma_len_subset(soldermask_cells(g1), soldermask_cells(g2));
}

/// Whether some pixel of row `row` within `reach` columns of `x` holds
/// neither air nor soldermask.
fn window_has_copper(c: &Canvas, x: u32, row: u32, reach: u32) -> (r: bool)
    requires
        c.wf(),
        x < c.w(),
        row < c.h(),
    ensures
        r == exists|k: int|
            x - reach <= k <= x + reach && 0 <= k < c.w() && #[trigger] c.at(k, row as int)
                != Color::Air && c.at(k, row as int) != Color::SolderMask,
{
    let lo: u32 = if x >= reach {
        x - reach
    } else {
        0
    };
    let hi: u32 = if (x as u64) + (reach as u64) < (c.width() as u64) {
        x + reach
    } else {
        c.width() - 1
    };
    let w: u32 = c.width();
    let mut k: u32 = lo;
    while k <= hi
        invariant
            c.wf(),
            lo <= k <= hi + 1,
            hi < w,
            w == c.w(),
            lo == if x >= reach { x - reach } else { 0 },
            hi == if x + reach < c.w() { x + reach } else { c.w() - 1 },
            row < c.h(),
            forall|m: int|
                lo <= m < k ==> #[trigger] c.at(m, row as int) == Color::Air || c.at(m, row as int)
                    == Color::SolderMask,
        decreases hi + 1 - k,
    {
        let v = c.get(k, row);
        if v != Color::Air && v != Color::SolderMask {
            return true;
        }
        k = k + 1;
    }
    false
}

} // verus!
