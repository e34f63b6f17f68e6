use atlc_gen::canvas::Canvas;
use atlc_gen::color::Color;
use atlc_gen::config::{BoardDimensions, GeometryConfig};
use atlc_gen::coplanar::CoplanarGeometry;
use atlc_gen::via::ViaGeometry;

const PALETTE: [(u8, u8, u8); 6] = [
    (255, 202, 202),
    (223, 247, 136),
    (255, 0, 0),
    (0, 0, 255),
    (0, 255, 0),
    (25, 186, 246),
];

const ALL: [Color; 6] = [
    Color::Air,
    Color::Substrate,
    Color::PositiveConductor,
    Color::NegativeConductor,
    Color::GroundConductor,
    Color::SolderMask,
];

#[test]
fn palette_triples() {
    for (c, t) in ALL.iter().zip(PALETTE.iter()) {
        assert_eq!(c.rgb(), *t);
        assert_eq!(Color::from_rgb(*t), Some(*c));
    }
    assert_eq!(Color::from_rgb((255, 202, 203)), None);
    assert_eq!(Color::from_rgb((0, 0, 0)), None);
}

fn assert_palette_only(c: &Canvas) {
    for y in 0..c.height() {
        for x in 0..c.width() {
            let t = c.get(x, y).rgb();
            assert_eq!(PALETTE.iter().filter(|p| **p == t).count(), 1);
        }
    }
}

#[test]
fn rendered_pixels_use_the_palette() {
    let d = BoardDimensions::standard();
    let coplanar = d.coplanar().render().unwrap();
    assert_palette_only(&coplanar);
    let via = d.via().render().unwrap();
    assert_palette_only(&via);
}

#[test]
fn standard_coplanar_geometry() {
    let d = BoardDimensions::standard();
    assert_eq!(
        d.coplanar(),
        GeometryConfig::Coplanar(CoplanarGeometry {
            res_x: 2000,
            res_y: 1500,
            core_thickness: 300,
            cu_thickness: 7,
            sm_thickness: 2,
            trace_width: 40,
            outer_space: 400,
            inner_space: 40,
            via_fence_dist: 40,
            via_fence_thickness: 60,
        })
    );
}

#[test]
fn standard_via_geometry() {
    let d = BoardDimensions::standard();
    assert_eq!(
        d.via(),
        GeometryConfig::Via(ViaGeometry {
            res_x: 2000,
            res_y: 1500,
            inner_width: 40,
            outer_width: 60,
            inner_space: 40,
            outer_space: 400,
        })
    );
}

#[test]
fn scaling_truncates() {
    let d = BoardDimensions {
        resolution: 7,
        cu_thickness: 6,
        trace_width: 20,
        ..BoardDimensions::standard()
    };
    match d.coplanar() {
        GeometryConfig::Coplanar(g) => {
            assert_eq!(g.res_x, 1428);
            assert_eq!(g.cu_thickness, 0);
            assert_eq!(g.trace_width, 2);
        }
        GeometryConfig::Via(_) => panic!("expected a coplanar geometry"),
    }
}

#[test]
fn canvas_get_set_fill() {
    let mut c = Canvas::new(4, 3, Color::Air);
    assert_eq!(c.width(), 4);
    assert_eq!(c.height(), 3);
    c.set(3, 2, Color::SolderMask);
    assert_eq!(c.get(3, 2), Color::SolderMask);
    assert_eq!(c.get(2, 2), Color::Air);
    assert_eq!(c.get(3, 1), Color::Air);
    c.fill(Color::Substrate);
    for y in 0..3 {
        for x in 0..4 {
            assert_eq!(c.get(x, y), Color::Substrate);
        }
    }
}

#[test]
fn canvas_to_bitmap() {
    let mut c = Canvas::new(3, 2, Color::Air);
    c.set(0, 0, Color::PositiveConductor);
    c.set(2, 1, Color::SolderMask);
    c.set(1, 1, Color::GroundConductor);
    let img = atlc_gen::image::to_image(&c).unwrap();
    assert_eq!(img.get_width(), 3);
    assert_eq!(img.get_height(), 2);
    assert_eq!(img.get_pixel(0, 0), bmp::Pixel::new(255, 0, 0));
    assert_eq!(img.get_pixel(1, 0), bmp::Pixel::new(255, 202, 202));
    assert_eq!(img.get_pixel(2, 0), bmp::Pixel::new(255, 202, 202));
    assert_eq!(img.get_pixel(0, 1), bmp::Pixel::new(255, 202, 202));
    assert_eq!(img.get_pixel(1, 1), bmp::Pixel::new(0, 255, 0));
    assert_eq!(img.get_pixel(2, 1), bmp::Pixel::new(25, 186, 246));
}

#[test]
fn bitmap_of_rendered_coplanar() {
    let c = BoardDimensions::standard().coplanar().render().unwrap();
    let img = atlc_gen::image::to_image(&c).unwrap();
    for y in 0..c.height() {
        for x in 0..c.width() {
            let p = img.get_pixel(x, y);
            assert_eq!(Color::from_rgb((p.r, p.g, p.b)), Some(c.get(x, y)));
        }
    }
}
