use simon::geometry::{check_collision_point_rect, check_collision_point_tri, quadrant_at, Point, Rect};

#[test]
fn rect_corners_are_inside() {
    let r = Rect { x: 10, y: 20, w: 30, h: 40 };
    assert!(check_collision_point_rect(Point { x: 10, y: 20 }, r));
    assert!(check_collision_point_rect(Point { x: 40, y: 20 }, r));
    assert!(check_collision_point_rect(Point { x: 10, y: 60 }, r));
    assert!(check_collision_point_rect(Point { x: 40, y: 60 }, r));
    assert!(check_collision_point_rect(Point { x: 25, y: 35 }, r));
}

#[test]
fn rect_one_unit_outside_is_out() {
    let r = Rect { x: 10, y: 20, w: 30, h: 40 };
    assert!(!check_collision_point_rect(Point { x: 9, y: 35 }, r));
    assert!(!check_collision_point_rect(Point { x: 41, y: 35 }, r));
    assert!(!check_collision_point_rect(Point { x: 25, y: 19 }, r));
    assert!(!check_collision_point_rect(Point { x: 25, y: 61 }, r));
}

#[test]
fn triangle_strict_interior() {
    let a = Point { x: 0, y: 0 };
    let b = Point { x: 10, y: 0 };
    let c = Point { x: 0, y: 10 };
    assert!(check_collision_point_tri(Point { x: 2, y: 2 }, a, b, c));
    assert!(!check_collision_point_tri(Point { x: 8, y: 8 }, a, b, c));
    // Points exactly on an edge are excluded.
    assert!(!check_collision_point_tri(Point { x: 5, y: 0 }, a, b, c));
    assert!(!check_collision_point_tri(Point { x: 0, y: 0 }, a, b, c));
    assert!(!check_collision_point_tri(Point { x: 5, y: 5 }, a, b, c));
}

#[test]
fn quadrants_of_the_canvas() {
    assert_eq!(quadrant_at(Point { x: 400, y: 50 }, 800, 450), Some(0));
    assert_eq!(quadrant_at(Point { x: 750, y: 225 }, 800, 450), Some(1));
    assert_eq!(quadrant_at(Point { x: 400, y: 400 }, 800, 450), Some(2));
    assert_eq!(quadrant_at(Point { x: 50, y: 225 }, 800, 450), Some(3));
}

#[test]
fn quadrant_boundaries_belong_to_nobody() {
    // The exact center and points on the diagonals lie in no quadrant.
    assert_eq!(quadrant_at(Point { x: 400, y: 225 }, 800, 450), None);
    // On the main diagonal: x * h == y * w, e.g. (16, 9).
    assert_eq!(quadrant_at(Point { x: 16, y: 9 }, 800, 450), None);
    // Outside the canvas entirely.
    assert_eq!(quadrant_at(Point { x: -5, y: -5 }, 800, 450), None);
}

#[test]
fn quadrants_partition_odd_canvas() {
    // On an odd-sized canvas the quadrant triangles meet at the rounded
    // center; interior points off the four center-corner rays still land
    // in exactly one quadrant, and never in two.
    let w = 41i64;
    let h = 31i64;
    let cx = w / 2;
    let cy = h / 2;
    let center = Point { x: cx, y: cy };
    let tl = Point { x: 0, y: 0 };
    let tr = Point { x: w, y: 0 };
    let br = Point { x: w, y: h };
    let bl = Point { x: 0, y: h };
    for x in 1..w {
        for y in 1..h {
            let p = Point { x, y };
            let hits = [
                check_collision_point_tri(p, center, tr, tl),
                check_collision_point_tri(p, center, br, tr),
                check_collision_point_tri(p, center, bl, br),
                check_collision_point_tri(p, center, tl, bl),
            ];
            let count = hits.iter().filter(|&&b| b).count();
            assert!(count <= 1);
            let s_tl = cy * x - cx * y;
            let s_tr = (w - cx) * (y - cy) + cy * (x - cx);
            let s_br = (w - cx) * (y - cy) - (h - cy) * (x - cx);
            let s_bl = -cx * (y - cy) - (h - cy) * (x - cx);
            if s_tl != 0 && s_tr != 0 && s_br != 0 && s_bl != 0 {
                assert_eq!(count, 1);
            }
        }
    }
}

#[test]
fn quadrants_partition_sample_grid() {
    // Every interior point off the diagonals lies in exactly one quadrant.
    for x in 1..40_i64 {
        for y in 1..30_i64 {
            let p = Point { x, y };
            let on_main = x * 30 == y * 40;
            let on_anti = x * 30 + y * 40 == 40 * 30;
            let q = quadrant_at(p, 40, 30);
            if on_main || on_anti {
                assert_eq!(q, None);
            } else {
                assert!(q.is_some());
            }
        }
    }
}
