use atlc_gen::canvas::Canvas;
use atlc_gen::color::Color;
use atlc_gen::coplanar::CoplanarGeometry;
use atlc_gen::error::GeometryError;

fn scenario() -> CoplanarGeometry {
    CoplanarGeometry {
        res_x: 2000,
        res_y: 1500,
        core_thickness: 300,
        cu_thickness: 7,
        sm_thickness: 2,
        trace_width: 40,
        outer_space: 400,
        inner_space: 0,
        via_fence_dist: 40,
        via_fence_thickness: 60,
    }
}

fn small() -> CoplanarGeometry {
    CoplanarGeometry {
        res_x: 60,
        res_y: 40,
        core_thickness: 10,
        cu_thickness: 3,
        sm_thickness: 2,
        trace_width: 6,
        outer_space: 8,
        inner_space: 4,
        via_fence_dist: 2,
        via_fence_thickness: 3,
    }
}

/// The material `p` rows above the bottom.
fn layer(c: &Canvas, x: u32, p: u32) -> Color {
    c.get(x, c.height() - 1 - p)
}

#[test]
fn scenario_layers() {
    let g = scenario();
    let c = g.render().unwrap();
    assert_eq!(c.width(), 2000);
    assert_eq!(c.height(), 1500);
    for p in 0..7 {
        for x in 0..2000 {
            assert_eq!(layer(&c, x, p), Color::GroundConductor);
        }
    }
    for p in 307..314 {
        for x in 0..2000 {
            let expected = if (980..1020).contains(&x) {
                Color::PositiveConductor
            } else if x < 580 || x >= 1420 {
                Color::GroundConductor
            } else {
                Color::Air
            };
            assert_eq!(layer(&c, x, p), expected, "x={} p={}", x, p);
        }
    }
    let positive = (0..2000).filter(|&x| layer(&c, x, 310) == Color::PositiveConductor).count();
    assert_eq!(positive, 40);
}

#[test]
fn scenario_core_and_fence() {
    let c = scenario().render().unwrap();
    for x in 0..2000 {
        let fence = (480..540).contains(&x) || (1460..1520).contains(&x);
        let expected = if fence { Color::GroundConductor } else { Color::Substrate };
        assert_eq!(layer(&c, x, 7), expected);
        assert_eq!(layer(&c, x, 306), expected);
    }
}

#[test]
fn scenario_soldermask() {
    let c = scenario().render().unwrap();
    // Rows 314 and 315 grow from copper rows 312 and 313, two columns out.
    for p in 314..316 {
        assert_eq!(layer(&c, 0, p), Color::SolderMask);
        assert_eq!(layer(&c, 581, p), Color::SolderMask);
        assert_eq!(layer(&c, 582, p), Color::Air);
        assert_eq!(layer(&c, 977, p), Color::Air);
        assert_eq!(layer(&c, 978, p), Color::SolderMask);
        assert_eq!(layer(&c, 1021, p), Color::SolderMask);
        assert_eq!(layer(&c, 1022, p), Color::Air);
        assert_eq!(layer(&c, 1417, p), Color::Air);
        assert_eq!(layer(&c, 1418, p), Color::SolderMask);
    }
    for x in 0..2000 {
        assert_eq!(layer(&c, x, 316), Color::Air);
    }
}

#[test]
fn differential_traces() {
    let g = small();
    let c = g.render().unwrap();
    // gap 32: ground to 14 and from 46; negative 22..28, air 28..32, positive 32..38.
    for p in 13..16 {
        for x in 0..60 {
            let expected = if (22..28).contains(&x) {
                Color::NegativeConductor
            } else if (32..38).contains(&x) {
                Color::PositiveConductor
            } else if x < 14 || x >= 46 {
                Color::GroundConductor
            } else {
                Color::Air
            };
            assert_eq!(layer(&c, x, p), expected, "x={} p={}", x, p);
        }
    }
}

#[test]
fn ground_plane_full_width() {
    let c = small().render().unwrap();
    for p in 0..3 {
        for x in 0..60 {
            assert_eq!(layer(&c, x, p), Color::GroundConductor);
        }
    }
}

#[test]
fn soldermask_grows_with_thickness() {
    let mut prev: Option<Canvas> = None;
    for sm in 0..6 {
        let g = CoplanarGeometry { sm_thickness: sm, ..small() };
        let c = g.render().unwrap();
        if let Some(before) = &prev {
            for y in 0..40 {
                for x in 0..60 {
                    if before.get(x, y) == Color::SolderMask {
                        assert_eq!(c.get(x, y), Color::SolderMask);
                    }
                }
            }
        }
        prev = Some(c);
    }
}

#[test]
fn no_soldermask_when_thickness_zero() {
    let g = CoplanarGeometry { sm_thickness: 0, ..small() };
    let c = g.render().unwrap();
    for y in 0..40 {
        for x in 0..60 {
            assert_ne!(c.get(x, y), Color::SolderMask);
        }
    }
}

#[test]
fn error_empty_canvas() {
    let g = CoplanarGeometry { res_x: 0, ..small() };
    assert_eq!(g.render().err(), Some(GeometryError::EmptyCanvas));
}

#[test]
fn error_gap_wider_than_canvas() {
    let g = CoplanarGeometry { outer_space: 30, ..small() };
    assert_eq!(g.validate(), Some(GeometryError::GapWiderThanCanvas));
    assert_eq!(g.render().err(), Some(GeometryError::GapWiderThanCanvas));
}

#[test]
fn error_fence_past_edge() {
    let g = CoplanarGeometry { via_fence_dist: 12, ..small() };
    assert_eq!(g.render().err(), Some(GeometryError::FencePastEdge));
}

#[test]
fn fence_touching_edge_is_accepted() {
    let g = CoplanarGeometry { via_fence_dist: 11, ..small() };
    let c = g.render().unwrap();
    assert_eq!(layer(&c, 0, 5), Color::GroundConductor);
    assert_eq!(layer(&c, 3, 5), Color::Substrate);
    assert_eq!(layer(&c, 59, 5), Color::GroundConductor);
}

#[test]
fn error_stack_too_tall() {
    let g = CoplanarGeometry { core_thickness: 34, ..small() };
    assert_eq!(g.render().err(), Some(GeometryError::StackTallerThanCanvas));
}

#[test]
fn error_soldermask_below_canvas() {
    let g = CoplanarGeometry {
        res_y: 100,
        core_thickness: 1,
        cu_thickness: 1,
        sm_thickness: 4,
        ..small()
    };
    assert_eq!(g.render().err(), Some(GeometryError::SolderMaskBelowCanvas));
}

#[test]
fn error_messages_name_the_range() {
    assert_eq!(
        GeometryError::FencePastEdge.describe(),
        "fence band extends past canvas edge"
    );
    assert_eq!(GeometryError::PadPastEdge.describe(), "via pad extends past canvas edge");
    assert_eq!(GeometryError::EmptyCanvas.describe(), "canvas width or height is zero");
    assert_eq!(GeometryError::CanvasTooLarge.describe(), "canvas has too many pixels");
    assert_eq!(
        GeometryError::GapWiderThanCanvas.describe(),
        "ground gap is wider than the canvas"
    );
    assert_eq!(
        GeometryError::StackTallerThanCanvas.describe(),
        "layer stack is taller than the canvas"
    );
    assert_eq!(
        GeometryError::SolderMaskBelowCanvas.describe(),
        "soldermask is thicker than the layers below it"
    );
}

#[test]
fn soldermask_count_grows_with_thickness() {
    let mut prev = 0usize;
    for sm in 0..6 {
        let c = CoplanarGeometry { sm_thickness: sm, ..small() }.render().unwrap();
        let mut n = 0usize;
        for y in 0..40 {
            for x in 0..60 {
                if c.get(x, y) == Color::SolderMask {
                    n += 1;
                }
            }
        }
        assert!(n >= prev, "sm={} n={} prev={}", sm, n, prev);
        if sm > 0 {
            assert!(n > 0);
        }
        prev = n;
    }
}
