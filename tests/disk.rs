use atlc_gen::canvas::Canvas;
use atlc_gen::color::Color;
use atlc_gen::disk::{draw_disk, fill_column};

fn painted(c: &Canvas) -> Vec<(i64, i64)> {
    let mut v = Vec::new();
    for y in 0..c.height() {
        for x in 0..c.width() {
            if c.get(x, y) == Color::PositiveConductor {
                v.push((x as i64, y as i64));
            }
        }
    }
    v
}

/// The pixels that midpoint stepping with solid columns fills: those with
/// `lo^2 + hi^2 - hi < r^2` over the two offsets, but for the diagonal
/// pixel that the stepping stops short of when `r^2 = 2a^2 - a + 1`.
fn expected(r: i64, cx: i64, cy: i64) -> Vec<(i64, i64)> {
    let mut v = Vec::new();
    for y in cy - r - 1..=cy + r + 1 {
        for x in cx - r - 1..=cx + r + 1 {
            let (a, b) = ((x - cx).abs(), (y - cy).abs());
            let (lo, hi) = (a.min(b), a.max(b));
            let inside = lo * lo + hi * hi - hi < r * r;
            let skipped = lo == hi && r * r == 2 * lo * lo - lo + 1;
            if (a == 0 && b == 0) || (inside && !skipped) {
                v.push((x, y));
            }
        }
    }
    v
}

#[test]
fn disk_radius_zero_is_center() {
    let mut c = Canvas::new(5, 5, Color::Air);
    draw_disk(&mut c, Color::PositiveConductor, 2, 2, 0);
    assert_eq!(painted(&c), vec![(2, 2)]);
}

#[test]
fn disk_radius_one_is_plus() {
    let mut c = Canvas::new(5, 5, Color::Air);
    draw_disk(&mut c, Color::PositiveConductor, 2, 2, 1);
    assert_eq!(painted(&c), vec![(2, 1), (1, 2), (2, 2), (3, 2), (2, 3)]);
}

#[test]
fn disk_matches_midpoint_region() {
    for r in 0..40u32 {
        let n = 2 * r + 5;
        let mut c = Canvas::new(n, n, Color::Air);
        let center = r + 2;
        draw_disk(&mut c, Color::PositiveConductor, center, center, r);
        assert_eq!(painted(&c), expected(r as i64, center as i64, center as i64), "r={}", r);
    }
}

#[test]
fn disk_radius_four_skips_diagonal() {
    let mut c = Canvas::new(9, 9, Color::Air);
    draw_disk(&mut c, Color::PositiveConductor, 4, 4, 4);
    assert_eq!(c.get(7, 7), Color::Air);
    assert_eq!(c.get(1, 1), Color::Air);
    assert_eq!(c.get(7, 6), Color::PositiveConductor);
    assert_eq!(painted(&c).len(), 57);
}

#[test]
fn disk_cardinal_points_and_cross() {
    let mut c = Canvas::new(30, 30, Color::Substrate);
    draw_disk(&mut c, Color::GroundConductor, 14, 15, 9);
    for k in 0..=18 {
        assert_eq!(c.get(5 + k, 15), Color::GroundConductor);
        assert_eq!(c.get(14, 6 + k), Color::GroundConductor);
    }
    assert_eq!(c.get(4, 15), Color::Substrate);
    assert_eq!(c.get(24, 15), Color::Substrate);
    assert_eq!(c.get(14, 5), Color::Substrate);
    assert_eq!(c.get(14, 25), Color::Substrate);
}

#[test]
fn disk_at_canvas_edges() {
    let mut c = Canvas::new(7, 7, Color::Air);
    draw_disk(&mut c, Color::NegativeConductor, 3, 3, 3);
    assert_eq!(c.get(0, 3), Color::NegativeConductor);
    assert_eq!(c.get(6, 3), Color::NegativeConductor);
    assert_eq!(c.get(3, 0), Color::NegativeConductor);
    assert_eq!(c.get(3, 6), Color::NegativeConductor);
    assert_eq!(c.get(0, 0), Color::Air);
}

#[test]
fn column_fill_is_half_open() {
    let mut c = Canvas::new(3, 6, Color::Air);
    fill_column(&mut c, Color::SolderMask, 1, 2, 5);
    for y in 0..6 {
        let expected = if (2..5).contains(&y) { Color::SolderMask } else { Color::Air };
        assert_eq!(c.get(1, y), expected);
        assert_eq!(c.get(0, y), Color::Air);
        assert_eq!(c.get(2, y), Color::Air);
    }
    fill_column(&mut c, Color::Substrate, 0, 4, 4);
    assert_eq!(c.get(0, 4), Color::Air);
}

#[test]
fn empty_column_fill_past_canvas() {
    let mut c = Canvas::new(3, 4, Color::Air);
    fill_column(&mut c, Color::SolderMask, 2, 9, 7);
    fill_column(&mut c, Color::SolderMask, 0, 100, 100);
    for y in 0..4 {
        for x in 0..3 {
            assert_eq!(c.get(x, y), Color::Air);
        }
    }
}
