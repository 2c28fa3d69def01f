//! Unit tests for the geometry primitives and the polygon assembler.

use pancake::geom::{equal_vertices, Line, Segment, Vertex};
use pancake::polygon::Polygon;

fn vtx(x: i64, y: i64, z: i64) -> Vertex {
    Vertex { x, y, z }
}

/// A segment in the plane `z = 10` whose normal lies to the left of
/// `a -> b`, so orientation correction leaves it alone.
fn seg_left(ax: i64, ay: i64, bx: i64, by: i64) -> Segment {
    let dx = bx - ax;
    let dy = by - ay;
    Segment { normal: vtx(ax - dy, ay + dx, 10), a: vtx(ax, ay, 10), b: vtx(bx, by, 10) }
}

#[test]
fn equal_vertices_is_componentwise() {
    assert!(equal_vertices(vtx(1, 2, 3), vtx(1, 2, 3)));
    assert!(!equal_vertices(vtx(1, 2, 3), vtx(1, 2, 4)));
    assert!(!equal_vertices(vtx(0, 2, 3), vtx(1, 2, 3)));
}

#[test]
fn segment_reverse_swaps_endpoints() {
    let mut s = seg_left(0, 0, 10, 0);
    let (a, b) = (s.a, s.b);
    s.reverse();
    assert_eq!(s.a, b);
    assert_eq!(s.b, a);
}

#[test]
fn correct_direction_keeps_left_normal() {
    let mut s = seg_left(0, 0, 10, 0);
    let before = s;
    s.correct_direction();
    assert_eq!(s, before);
}

#[test]
fn correct_direction_flips_right_normal() {
    // The normal sits to the right of `a -> b`: the segment must flip.
    let mut s = Segment { normal: vtx(5, -5, 10), a: vtx(0, 0, 10), b: vtx(10, 0, 10) };
    s.correct_direction();
    assert_eq!(s.a, vtx(10, 0, 10));
    assert_eq!(s.b, vtx(0, 0, 10));
}

#[test]
fn line_interpolates_exactly() {
    let s = Segment { normal: vtx(0, 0, 0), a: vtx(0, 0, 0), b: vtx(100, 50, 10) };
    let l = Line::from(&s);
    let p = l.at(5);
    assert_eq!(p, vtx(50, 25, 5));
}

#[test]
fn line_truncates_toward_zero() {
    let s = Segment { normal: vtx(0, 0, 0), a: vtx(0, 0, 0), b: vtx(10, -10, 3) };
    let l = Line::from(&s);
    let p = l.at(1);
    // 10 / 3 truncates to 3 in both directions.
    assert_eq!(p, vtx(3, -3, 1));
}

#[test]
fn build_of_nothing_is_nothing() {
    let polys = Polygon::build(Vec::new());
    assert_eq!(polys.len(), 0);
}

#[test]
fn build_single_segment_is_one_open_polygon() {
    let polys = Polygon::build(vec![seg_left(0, 0, 10, 0)]);
    assert_eq!(polys.len(), 1);
    assert_eq!(polys[0].segments().len(), 1);
    assert!(!polys[0].is_closed());
}

#[test]
fn build_chains_two_touching_segments() {
    let polys = Polygon::build(vec![seg_left(0, 0, 10, 0), seg_left(10, 0, 10, 10)]);
    assert_eq!(polys.len(), 1);
    assert_eq!(polys[0].segments().len(), 2);
    assert!(!polys[0].is_closed());
}

#[test]
fn build_keeps_disjoint_chains_apart() {
    let polys = Polygon::build(vec![seg_left(0, 0, 10, 0), seg_left(50, 50, 60, 50)]);
    assert_eq!(polys.len(), 2);
    let total: usize = polys.iter().map(|p| p.segments().len()).sum();
    assert_eq!(total, 2);
}

#[test]
fn build_bridges_two_chains() {
    // The third segment touches both earlier chains: they must merge.
    let polys = Polygon::build(vec![
        seg_left(0, 0, 10, 0),
        seg_left(10, 10, 0, 10),
        seg_left(10, 0, 10, 10),
    ]);
    assert_eq!(polys.len(), 1);
    assert_eq!(polys[0].segments().len(), 3);
    assert!(!polys[0].is_closed());
}

#[test]
fn build_closes_a_square() {
    let polys = Polygon::build(vec![
        seg_left(0, 0, 10, 0),
        seg_left(10, 0, 10, 10),
        seg_left(10, 10, 0, 10),
        seg_left(0, 10, 0, 0),
    ]);
    assert_eq!(polys.len(), 1);
    let p = &polys[0];
    assert_eq!(p.segments().len(), 4);
    assert!(p.is_closed());
    for w in p.segments().windows(2) {
        assert!(equal_vertices(w[0].b, w[1].a));
    }
}

#[test]
fn build_conserves_segments_in_scrambled_order() {
    // The same square fed out of order: every segment still lands in a
    // polygon and the total is conserved.
    let polys = Polygon::build(vec![
        seg_left(10, 10, 0, 10),
        seg_left(0, 0, 10, 0),
        seg_left(0, 10, 0, 0),
        seg_left(10, 0, 10, 10),
    ]);
    let total: usize = polys.iter().map(|p| p.segments().len()).sum();
    assert_eq!(total, 4);
    for p in &polys {
        for w in p.segments().windows(2) {
            assert!(equal_vertices(w[0].b, w[1].a));
        }
    }
}

#[test]
fn polygon_new_wraps_segments() {
    let segs = vec![seg_left(0, 0, 10, 0)];
    let p = Polygon::new(segs.clone());
    assert_eq!(p.segments().len(), 1);
    assert_eq!(p.into_segments(), segs);
}
