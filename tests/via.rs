use atlc_gen::color::Color;
use atlc_gen::error::GeometryError;
use atlc_gen::root::round_half_root;
use atlc_gen::via::{Pad, ViaGeometry};

fn single() -> ViaGeometry {
    ViaGeometry {
        res_x: 200,
        res_y: 150,
        inner_width: 10,
        outer_width: 12,
        inner_space: 0,
        outer_space: 40,
    }
}

fn pair() -> ViaGeometry {
    ViaGeometry { inner_space: 8, ..single() }
}

fn pad(color: Color, x: i64, y: i64, radius: u32) -> Pad {
    Pad { color, x, y, radius }
}

#[test]
fn nearest_half_roots() {
    assert_eq!(round_half_root(0), 0);
    assert_eq!(round_half_root(1), 1);
    assert_eq!(round_half_root(4), 1);
    assert_eq!(round_half_root(8), 1);
    assert_eq!(round_half_root(9), 2);
    assert_eq!(round_half_root(2 * 40 * 40), 28);
    assert_eq!(round_half_root(2 * 400 * 400), 283);
    assert_eq!(round_half_root(12 * 200 * 200), 346);
    assert_eq!(round_half_root(12 * 20 * 20), 35);
}

#[test]
fn single_via_layout() {
    let g = ViaGeometry { outer_space: 40, ..single() };
    let gnd = Color::GroundConductor;
    assert_eq!(
        g.layout(),
        vec![
            pad(Color::PositiveConductor, 100, 75, 5),
            pad(gnd, 133, 103, 6),
            pad(gnd, 67, 103, 6),
            pad(gnd, 133, 47, 6),
            pad(gnd, 67, 47, 6),
        ]
    );
}

#[test]
fn single_via_ground_distance() {
    let g = ViaGeometry { inner_width: 1, ..single() };
    let pads = g.layout();
    assert_eq!(pads.len(), 5);
    assert_eq!(pads.iter().filter(|p| p.color == Color::PositiveConductor).count(), 1);
    assert_eq!(pads.iter().filter(|p| p.color == Color::GroundConductor).count(), 4);
    for p in &pads[1..] {
        let (dx, dy) = ((p.x - 100) as f64, (p.y - 75) as f64);
        let d = (dx * dx + dy * dy).sqrt();
        assert!((d - 40.0).abs() < 1.0, "{}", d);
    }
}

#[test]
fn differential_via_layout() {
    let gnd = Color::GroundConductor;
    assert_eq!(
        pair().layout(),
        vec![
            pad(Color::PositiveConductor, 109, 75, 5),
            pad(Color::NegativeConductor, 91, 75, 5),
            pad(gnd, 149, 75, 6),
            pad(gnd, 51, 75, 6),
            pad(gnd, 129, 110, 6),
            pad(gnd, 71, 110, 6),
            pad(gnd, 129, 40, 6),
            pad(gnd, 71, 40, 6),
        ]
    );
}

#[test]
fn differential_via_render() {
    let c = pair().render().unwrap();
    assert_eq!(c.width(), 200);
    assert_eq!(c.height(), 150);
    assert_eq!(c.get(109, 75), Color::PositiveConductor);
    assert_eq!(c.get(114, 75), Color::PositiveConductor);
    assert_eq!(c.get(91, 70), Color::NegativeConductor);
    assert_eq!(c.get(149, 81), Color::GroundConductor);
    assert_eq!(c.get(71, 40), Color::GroundConductor);
    assert_eq!(c.get(100, 75), Color::Substrate);
    assert_eq!(c.get(0, 0), Color::Substrate);
    assert_eq!(c.get(199, 149), Color::Substrate);
}

#[test]
fn single_via_render() {
    let c = single().render().unwrap();
    assert_eq!(c.get(100, 75), Color::PositiveConductor);
    assert_eq!(c.get(100, 70), Color::PositiveConductor);
    assert_eq!(c.get(133, 103), Color::GroundConductor);
    assert_eq!(c.get(61, 47), Color::GroundConductor);
    assert_eq!(c.get(100, 103), Color::Substrate);
}

#[test]
fn via_pad_past_edge() {
    let g = ViaGeometry { outer_space: 110, ..single() };
    assert_eq!(g.validate(), Some(GeometryError::PadPastEdge));
    assert_eq!(g.render().err(), Some(GeometryError::PadPastEdge));
}

#[test]
fn via_empty_canvas() {
    let g = ViaGeometry { res_y: 0, ..single() };
    assert_eq!(g.render().err(), Some(GeometryError::EmptyCanvas));
}

#[test]
fn via_pixels_use_pad_colors() {
    for g in [single(), pair()] {
        let c = g.render().unwrap();
        let mut negative = false;
        for y in 0..c.height() {
            for x in 0..c.width() {
                let k = c.get(x, y);
                assert!(k != Color::Air && k != Color::SolderMask);
                negative |= k == Color::NegativeConductor;
            }
        }
        assert_eq!(negative, g.inner_space != 0);
    }
}
