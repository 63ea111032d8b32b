//! Geometry and collision tests.  Coordinates are fixed-point subunits:
//! 100000 subunits per game unit.

use cheats_rust::geometry::Pointf;
use cheats_rust::geometry::Polygon;
use cheats_rust::hitbox::Hitbox;

const U: i64 = 100_000;

fn rect_points(x1: i64, x2: i64, y1: i64, y2: i64) -> Vec<Pointf> {
    vec![
        Pointf::new(x1, y1),
        Pointf::new(x2, y1),
        Pointf::new(x2, y2),
        Pointf::new(x1, y2),
    ]
}

fn square_centered(cx: i64, cy: i64, side: i64) -> Hitbox {
    let h = side / 2;
    Hitbox::new(rect_points(cx - h, cx + h, cy - h, cy + h)).unwrap()
}

#[test]
fn polygon_new_caches_vectors_extents_centroid() {
    let p = Polygon::new(rect_points(0, 4 * U, 0, 2 * U)).unwrap();
    assert_eq!(p.outline.len(), 4);
    assert_eq!(p.vectors.len(), 4);
    assert_eq!(p.vectors[0], Pointf { x: 4 * U, y: 0 });
    assert_eq!(p.vectors[1], Pointf { x: 0, y: 2 * U });
    assert_eq!(p.vectors[2], Pointf { x: -4 * U, y: 0 });
    assert_eq!(p.vectors[3], Pointf { x: 0, y: -2 * U });
    assert_eq!(p.leftmost_point, 0);
    assert_eq!(p.rightmost_point, 4 * U);
    assert_eq!(p.lowest_point, 0);
    assert_eq!(p.highest_point, 2 * U);
    assert_eq!(p.center, Pointf { x: 2 * U, y: U });
}

#[test]
fn polygon_new_accepts_triangle() {
    let tri = vec![
        Pointf::new(0, 0),
        Pointf::new(3 * U, 0),
        Pointf::new(0, 3 * U),
    ];
    assert!(Polygon::new(tri).is_some());
}

#[test]
fn polygon_new_is_deterministic() {
    let outline = vec![
        Pointf::new(-U, -U),
        Pointf::new(2 * U, -U),
        Pointf::new(3 * U, U),
        Pointf::new(0, 2 * U),
    ];
    let p1 = Polygon::new(outline.clone()).unwrap();
    let p2 = Polygon::new(outline).unwrap();
    assert_eq!(p1, p2);
    assert_eq!(p1.vectors, p2.vectors);
    assert_eq!(p1.center, p2.center);
    assert_eq!(p1.leftmost_point, p2.leftmost_point);
    assert_eq!(p1.rightmost_point, p2.rightmost_point);
    assert_eq!(p1.lowest_point, p2.lowest_point);
    assert_eq!(p1.highest_point, p2.highest_point);
}

#[test]
fn polygon_new_rejects_flat_turn() {
    // Three collinear vertices in a row: the middle turn continues the
    // same direction exactly.
    let outline = vec![
        Pointf::new(0, 0),
        Pointf::new(U, 0),
        Pointf::new(2 * U, 0),
        Pointf::new(0, U),
    ];
    assert!(Polygon::new(outline).is_none());
}

#[test]
fn polygon_new_rejects_zero_length_edge() {
    let outline = vec![
        Pointf::new(0, 0),
        Pointf::new(0, 0),
        Pointf::new(U, U),
    ];
    assert!(Polygon::new(outline).is_none());
}

#[test]
fn polygon_new_rejects_out_of_range_coordinate() {
    let outline = vec![
        Pointf::new(0, 0),
        Pointf::new(2_000_000_000, 0),
        Pointf::new(0, U),
    ];
    assert!(Polygon::new(outline).is_none());
}

#[test]
fn polygon_new_rejects_empty_outline() {
    assert!(Polygon::new(Vec::new()).is_none());
}

#[test]
fn pointf_ortho_rotates_ninety_degrees() {
    let p = Pointf::new(3, 4);
    let o = p.ortho();
    assert_eq!(o, Pointf { x: -4, y: 3 });
}

#[test]
fn pointf_len_is_floor_magnitude() {
    assert_eq!(Pointf::new(3, 4).len(), 5);
    assert_eq!(Pointf::new(1, 1).len(), 1);
    assert_eq!(Pointf::new(0, -7).len(), 7);
    assert_eq!(Pointf::new(2, 3).len(), 3);
}

#[test]
fn squares_offset_ten_collide() {
    // Two axis-aligned squares of side 32 centered at (0,0) and (10,0)
    // overlap by 22 units along x.
    let a = square_centered(0, 0, 32 * U);
    let b = square_centered(10 * U, 0, 32 * U);
    assert!(a.collides(&b).is_some());
}

#[test]
fn squares_offset_forty_do_not_collide() {
    let a = square_centered(0, 0, 32 * U);
    let b = square_centered(40 * U, 0, 32 * U);
    assert!(a.collides(&b).is_none());
}

#[test]
fn mpv_is_depth_scaled_along_least_overlap_axis() {
    let a = square_centered(0, 0, 32 * U);
    let b = square_centered(10 * U, 0, 32 * U);
    let m = a.collides(&b).unwrap();
    // The x overlap (22 units) is smaller than the y overlap (32), so the
    // push vector is horizontal with magnitude 22, pointing away from b.
    assert_eq!(m.x, -22 * U);
    assert_eq!(m.y, 0);
}

#[test]
fn mpv_antisymmetric_for_offset_squares() {
    let a = square_centered(0, 0, 32 * U);
    let b = square_centered(10 * U, 0, 32 * U);
    let m1 = a.collides(&b).unwrap();
    let m2 = b.collides(&a).unwrap();
    let dot: i128 = m1.x as i128 * m2.x as i128 + m1.y as i128 * m2.y as i128;
    assert!(dot <= 0);
}

#[test]
fn mpv_antisymmetric_for_diagonal_offset_squares() {
    let a = square_centered(0, 0, 32 * U);
    let b = square_centered(8 * U, 20 * U, 32 * U);
    let m1 = a.collides(&b).unwrap();
    let m2 = b.collides(&a).unwrap();
    let dot: i128 = m1.x as i128 * m2.x as i128 + m1.y as i128 * m2.y as i128;
    assert!(dot <= 0);
}

#[test]
fn rect_test_agrees_with_sat_when_overlapping() {
    let a = square_centered(0, 0, 32 * U);
    let b = Hitbox::new(rect_points(10 * U, 42 * U, 5 * U, 37 * U)).unwrap();
    assert!(a.collides_as_rect(&b));
    assert!(a.collides(&b).is_some());
}

#[test]
fn rect_test_agrees_with_sat_when_disjoint() {
    let a = square_centered(0, 0, 32 * U);
    let b = Hitbox::new(rect_points(40 * U, 72 * U, -10 * U, 22 * U)).unwrap();
    assert!(!a.collides_as_rect(&b));
    assert!(a.collides(&b).is_none());
}

#[test]
fn rect_test_agrees_with_sat_when_touching() {
    // Edges exactly flush: both tests count touching as overlap.
    let a = Hitbox::new(rect_points(0, 32 * U, 0, 32 * U)).unwrap();
    let b = Hitbox::new(rect_points(32 * U, 64 * U, 0, 32 * U)).unwrap();
    assert!(a.collides_as_rect(&b));
    assert!(a.collides(&b).is_some());
}

#[test]
fn touching_squares_report_zero_depth_collision() {
    // Exactly flush edges: the contact is reported, and its depth-scaled
    // push vector is zero.
    let a = Hitbox::new(rect_points(0, 32 * U, 0, 32 * U)).unwrap();
    let b = Hitbox::new(rect_points(32 * U, 64 * U, 0, 32 * U)).unwrap();
    let m = a.collides(&b).unwrap();
    assert_eq!(m.x, 0);
    assert_eq!(m.y, 0);
}

#[test]
fn rect_test_agrees_with_sat_for_clockwise_winding() {
    // The same rectangle given with the opposite winding is an equally
    // valid hitbox; the two tests still agree.
    let cw = Hitbox::new(vec![
        Pointf::new(10 * U, 5 * U),
        Pointf::new(10 * U, 37 * U),
        Pointf::new(42 * U, 37 * U),
        Pointf::new(42 * U, 5 * U),
    ])
    .unwrap();
    let a = square_centered(0, 0, 32 * U);
    assert!(a.collides_as_rect(&cw));
    assert!(a.collides(&cw).is_some());
    let far = square_centered(200 * U, 0, 32 * U);
    assert!(!far.collides_as_rect(&cw));
    assert!(far.collides(&cw).is_none());
}
