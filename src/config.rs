use vstd::prelude::*;

use crate::canvas::Canvas;
use crate::coplanar::CoplanarGeometry;
use crate::error::GeometryError;
use crate::via::ViaGeometry;

verus! {

/// Board dimensions in physical units, and the physical length of one pixel.
#[derive(Clone, Copy, Debug, PartialEq, Eq, Structural)]
pub struct BoardDimensions {
    pub resolution: u32,
    pub width: u32,
    pub height: u32,
    pub core_thickness: u32,
    pub cu_thickness: u32,
    pub sm_thickness: u32,
    pub trace_width: u32,
    pub outer_space: u32,
    pub inner_space: u32,
    pub via_fence_dist: u32,
    pub via_thickness: u32,
}

/// One of the two cross-sections that can be drawn.
#[derive(Clone, Copy, Debug, PartialEq, Eq, Structural)]
pub enum GeometryConfig {
    Coplanar(CoplanarGeometry),
    Via(ViaGeometry),
}

impl BoardDimensions {
    /// The default board: 10000 by 7500 units at 5 units per pixel.
    pub fn standard() -> (r: BoardDimensions)
        ensures
            r.resolution == 5,
            r.width == 10000,
            r.height == 7500,
            r.core_thickness == 1500,
            r.cu_thickness == 35,
            r.sm_thickness == 10,
            r.trace_width == 200,
            r.outer_space == 2000,
            r.inner_space == 200,
            r.via_fence_dist == 200,
            r.via_thickness == 300,
    {
        BoardDimensions {
            resolution: 5,
            width: 10000,
            height: 7500,
            core_thickness: 1500,
            cu_thickness: 35,
            sm_thickness: 10,
            trace_width: 200,
            outer_space: 2000,
            inner_space: 200,
            via_fence_dist: 200,
            via_thickness: 300,
        }
    }

    /// The coplanar geometry in pixels: every length divided by the
    /// resolution, truncating.
    pub fn coplanar(&self) -> (r: GeometryConfig)
        requires
            self.resolution > 0,
        ensures
            r == GeometryConfig::Coplanar(
                CoplanarGeometry {
                    res_x: self.width / self.resolution,
                    res_y: self.height / self.resolution,
                    core_thickness: self.core_thickness / self.resolution,
                    cu_thickness: self.cu_thickness / self.resolution,
                    sm_thickness: self.sm_thickness / self.resolution,
                    trace_width: self.trace_width / self.resolution,
                    outer_space: self.outer_space / self.resolution,
                    inner_space: self.inner_space / self.resolution,
                    via_fence_dist: self.via_fence_dist / self.resolution,
                    via_fence_thickness: self.via_thickness / self.resolution,
                },
            ),
    {
        let d = self.resolution;
        GeometryConfig::Coplanar(
            CoplanarGeometry {
                res_x: self.width / d,
                res_y: self.height / d,
                core_thickness: self.core_thickness / d,
                cu_thickness: self.cu_thickness / d,
                sm_thickness: self.sm_thickness / d,
                trace_width: self.trace_width / d,
                outer_space: self.outer_space / d,
                inner_space: self.inner_space / d,
                via_fence_dist: self.via_fence_dist / d,
                via_fence_thickness: self.via_thickness / d,
            },
        )
    }

    /// The via geometry in pixels: the trace width gives the signal via
    /// diameter and the via thickness the ground via diameter, every length
    /// divided by the resolution, truncating.
    pub fn via(&self) -> (r: GeometryConfig)
        requires
            self.resolution > 0,
        ensures
            r == GeometryConfig::Via(
                ViaGeometry {
                    res_x: self.width / self.resolution,
                    res_y: self.height / self.resolution,
                    inner_width: self.trace_width / self.resolution,
                    outer_width: self.via_thickness / self.resolution,
                    inner_space: self.inner_space / self.resolution,
                    outer_space: self.outer_space / self.resolution,
                },
            ),
    {
        let d = self.resolution;
        GeometryConfig::Via(
            ViaGeometry {
                res_x: self.width / d,
                res_y: self.height / d,
                inner_width: self.trace_width / d,
                outer_width: self.via_thickness / d,
                inner_space: self.inner_space / d,
                outer_space: self.outer_space / d,
            },
        )
    }
}

impl GeometryConfig {
    /// The first derived range of the geometry that does not fit.
    pub open spec fn error(self) -> Option<GeometryError> {
        match self {
            GeometryConfig::Coplanar(g) => g.error(),
            GeometryConfig::Via(g) => g.error(),
        }
    }

    /// Draws the cross-section of whichever geometry this is.
    pub fn render(&self) -> (r: Result<Canvas, GeometryError>)
        ensures
            r is Ok <==> self.error() is None,
            r matches Err(e) ==> self.error() == Some(e),
            r matches Ok(c) ==> match *self {
                GeometryConfig::Coplanar(g) => g.drawn(c),
                GeometryConfig::Via(g) => g.drawn(c),
            },
    {
        match self {
            GeometryConfig::Coplanar(g) => g.render(),
            GeometryConfig::Via(g) => g.render(),
        }
    }
}

} // verus!
