//! End-to-end tests: stage decomposition, slicing, and polygon assembly
//! on small closed meshes.

use pancake::geom::{equal_vertices, Vertex, FIX_ONE};
use pancake::mesh::{Face, Mesh};
use pancake::polygon::Polygon;
use pancake::slice::Slice;
use pancake::transform::{transformations, Transform};

fn pv(x: i64, y: i64, z: i64) -> Vertex {
    Vertex { x, y, z }
}

/// The unit cube scaled to an edge of 100, as 8 shared vertices and 12
/// triangles with outward normals.
fn cube() -> Mesh {
    Mesh {
        vertices: vec![
            pv(0, 0, 0),
            pv(100, 0, 0),
            pv(100, 100, 0),
            pv(0, 100, 0),
            pv(0, 0, 100),
            pv(100, 0, 100),
            pv(100, 100, 100),
            pv(0, 100, 100),
        ],
        faces: vec![
            Face { normal: pv(0, 0, -100), vertices: [0, 2, 1] },
            Face { normal: pv(0, 0, -100), vertices: [0, 3, 2] },
            Face { normal: pv(0, 0, 100), vertices: [4, 5, 6] },
            Face { normal: pv(0, 0, 100), vertices: [4, 6, 7] },
            Face { normal: pv(0, -100, 0), vertices: [0, 1, 5] },
            Face { normal: pv(0, -100, 0), vertices: [0, 5, 4] },
            Face { normal: pv(100, 0, 0), vertices: [1, 2, 6] },
            Face { normal: pv(100, 0, 0), vertices: [1, 6, 5] },
            Face { normal: pv(0, 100, 0), vertices: [2, 3, 7] },
            Face { normal: pv(0, 100, 0), vertices: [2, 7, 6] },
            Face { normal: pv(-100, 0, 0), vertices: [3, 0, 4] },
            Face { normal: pv(-100, 0, 0), vertices: [3, 4, 7] },
        ],
    }
}

/// A tetrahedron standing on the plane `z = 0`.
fn tetra_mesh() -> Mesh {
    Mesh {
        vertices: vec![pv(0, 0, 0), pv(100, 0, 0), pv(0, 100, 0), pv(0, 0, 100)],
        faces: vec![
            Face { normal: pv(0, 0, -100), vertices: [0, 2, 1] },
            Face { normal: pv(0, -100, 0), vertices: [0, 1, 3] },
            Face { normal: pv(-100, 0, 0), vertices: [0, 3, 2] },
            Face { normal: pv(58, 58, 58), vertices: [1, 2, 3] },
        ],
    }
}

/// One vertical wall from base corner `(ax, ay)` to `(bx, by)`, rising
/// from `z0` to `z1`, split into two triangles sharing a diagonal.
fn push_wall(m: &mut Mesh, ax: i64, ay: i64, bx: i64, by: i64, z0: i64, z1: i64, n: Vertex) {
    let base = m.vertices.len();
    m.vertices.push(pv(ax, ay, z0));
    m.vertices.push(pv(bx, by, z0));
    m.vertices.push(pv(bx, by, z1));
    m.vertices.push(pv(ax, ay, z1));
    m.faces.push(Face { normal: n, vertices: [base, base + 1, base + 2] });
    m.faces.push(Face { normal: n, vertices: [base, base + 2, base + 3] });
}

/// Open-ended walls of a square block with a square hole: the outer
/// shell of `[0, 1000]^2` and the inner shell of `[400, 600]^2`, both
/// from `z = 0` to `z = 1000`, outward normals.
fn block_with_hole() -> Mesh {
    // Normals large enough to dominate the coordinates, so the
    // orientation test is decided by the normal's direction.
    let mut m = Mesh { vertices: Vec::new(), faces: Vec::new() };
    push_wall(&mut m, 0, 0, 1000, 0, 0, 1000, pv(0, -100000, 0));
    push_wall(&mut m, 1000, 0, 1000, 1000, 0, 1000, pv(100000, 0, 0));
    push_wall(&mut m, 1000, 1000, 0, 1000, 0, 1000, pv(0, 100000, 0));
    push_wall(&mut m, 0, 1000, 0, 0, 0, 1000, pv(-100000, 0, 0));
    push_wall(&mut m, 400, 400, 600, 400, 0, 1000, pv(0, 100000, 0));
    push_wall(&mut m, 600, 400, 600, 600, 0, 1000, pv(-100000, 0, 0));
    push_wall(&mut m, 600, 600, 400, 600, 0, 1000, pv(0, -100000, 0));
    push_wall(&mut m, 400, 600, 400, 400, 0, 1000, pv(100000, 0, 0));
    m
}

fn collect_slices(m: Mesh, step: i64) -> Vec<Slice> {
    let mut out = Vec::new();
    let stages = m.iter_stages().expect("mesh has vertices");
    let mut slices = stages.iter_slices(step).expect("mesh has a slab");
    while let Some(sl) = slices.next() {
        out.push(sl);
    }
    out
}

fn total_segments_of(polys: &[Polygon]) -> usize {
    polys.iter().map(|p| p.segments().len()).sum()
}

/// Twice the signed area a closed chain encloses.
fn shoelace(p: &Polygon) -> i64 {
    p.segments().iter().map(|s| s.a.x * s.b.y - s.b.x * s.a.y).sum()
}

fn on_square_boundary(v: Vertex, lo: i64, hi: i64) -> bool {
    let edge = v.x == lo || v.x == hi || v.y == lo || v.y == hi;
    edge && lo <= v.x && v.x <= hi && lo <= v.y && v.y <= hi
}

#[test]
fn cube_lowest_and_highest() {
    let m = cube();
    assert_eq!(m.lowest(), Some(0));
    assert_eq!(m.highest(), Some(100));
}

#[test]
fn cube_has_one_stage_with_eight_links() {
    // Only the 8 side triangles straddle the slab; the 4 horizontal ones
    // are dismissed.
    let m = cube();
    let stages = m.stages();
    assert_eq!(stages.len(), 1);
    assert_eq!(stages[0].min_height, 0);
    assert_eq!(stages[0].max_height, 100);
    assert_eq!(stages[0].links.len(), 8);
}

#[test]
fn cube_slices_trace_the_square() {
    let slices = collect_slices(cube(), 25);
    assert_eq!(slices.len(), 3);
    let heights: Vec<i64> = slices.iter().map(|s| s.height).collect();
    assert_eq!(heights, vec![25, 50, 75]);
    for sl in &slices {
        assert_eq!(sl.polygons.len(), 1);
        let p = &sl.polygons[0];
        assert_eq!(p.segments().len(), 8);
        assert!(p.is_closed());
        for s in p.segments() {
            assert_eq!(s.a.z, sl.height);
            assert_eq!(s.b.z, sl.height);
            assert!(on_square_boundary(s.a, 0, 100));
            assert!(on_square_boundary(s.b, 0, 100));
        }
    }
}

#[test]
fn cube_slice_conserves_segments() {
    let m = cube();
    let stages = m.stages();
    let sl = stages[0].get_slice(50).unwrap();
    assert_eq!(total_segments_of(&sl.polygons), stages[0].links.len());
}

#[test]
fn tetra_slice_is_a_shrinking_triangle() {
    let slices = collect_slices(tetra_mesh(), 25);
    assert_eq!(slices.len(), 3);
    for sl in &slices {
        assert_eq!(sl.polygons.len(), 1);
        assert_eq!(sl.polygons[0].segments().len(), 3);
        assert!(sl.polygons[0].is_closed());
    }
    // At half height the cross-section has corners (0,0), (50,0), (0,50).
    let mid = &slices[1];
    assert_eq!(mid.height, 50);
    let want = [pv(0, 0, 50), pv(50, 0, 50), pv(0, 50, 50)];
    for w in want {
        let found = mid.polygons[0].segments().iter().any(|s| equal_vertices(s.a, w));
        assert!(found, "missing corner {:?}", w);
    }
}

#[test]
fn stages_tile_the_mesh_exactly() {
    // An extra altitude at z = 50 splits the tetrahedron into two slabs.
    let mut m = tetra_mesh();
    m.vertices.push(pv(0, 0, 50));
    let stages = m.stages();
    assert_eq!(stages.len(), 2);
    assert_eq!(stages[0].min_height, 0);
    assert_eq!(stages[0].max_height, 50);
    assert_eq!(stages[1].min_height, 50);
    assert_eq!(stages[1].max_height, 100);
    assert_eq!(stages[0].links.len(), 3);
    assert_eq!(stages[1].links.len(), 3);
}

#[test]
fn slicing_skips_across_slab_boundaries() {
    // The Z grid stays uniform even though a slab boundary sits at 50.
    let mut m = tetra_mesh();
    m.vertices.push(pv(0, 0, 50));
    let slices = collect_slices(m, 30);
    let heights: Vec<i64> = slices.iter().map(|s| s.height).collect();
    assert_eq!(heights, vec![30, 60, 90]);
}

#[test]
fn empty_mesh_terminates_cleanly() {
    let m = Mesh { vertices: Vec::new(), faces: Vec::new() };
    assert_eq!(m.lowest(), None);
    assert_eq!(m.stages().len(), 0);
    let m2 = Mesh { vertices: Vec::new(), faces: Vec::new() };
    assert!(m2.iter_stages().is_none());
}

#[test]
fn flat_top_roof_is_dismissed() {
    // A frustum: base [0,400]^2 at z=0, flat top [100,300]^2 at z=100.
    // The horizontal faces contribute no link; at half height the
    // outline is the square [50, 350]^2.
    let mut m = Mesh {
        vertices: vec![
            pv(0, 0, 0),
            pv(400, 0, 0),
            pv(400, 400, 0),
            pv(0, 400, 0),
            pv(100, 100, 100),
            pv(300, 100, 100),
            pv(300, 300, 100),
            pv(100, 300, 100),
        ],
        faces: vec![
            Face { normal: pv(0, 0, -100), vertices: [0, 2, 1] },
            Face { normal: pv(0, 0, -100), vertices: [0, 3, 2] },
            Face { normal: pv(0, 0, 100), vertices: [4, 5, 6] },
            Face { normal: pv(0, 0, 100), vertices: [4, 6, 7] },
        ],
    };
    let walls = [
        (0usize, 1usize, 5usize, 4usize, pv(0, -100, 71)),
        (1, 2, 6, 5, pv(100, 0, 71)),
        (2, 3, 7, 6, pv(0, 100, 71)),
        (3, 0, 4, 7, pv(-100, 0, 71)),
    ];
    for (a, b, c, d, n) in walls {
        m.faces.push(Face { normal: n, vertices: [a, b, c] });
        m.faces.push(Face { normal: n, vertices: [a, c, d] });
    }
    let stages = m.stages();
    assert_eq!(stages.len(), 1);
    assert_eq!(stages[0].links.len(), 8);
    let sl = stages[0].get_slice(50).unwrap();
    assert_eq!(sl.polygons.len(), 1);
    let p = &sl.polygons[0];
    assert_eq!(p.segments().len(), 8);
    assert!(p.is_closed());
    for s in p.segments() {
        assert!(on_square_boundary(s.a, 50, 350));
        assert!(on_square_boundary(s.b, 50, 350));
    }
}

#[test]
fn hole_gives_two_contours_with_opposite_winding() {
    let slices = collect_slices(block_with_hole(), 500);
    assert_eq!(slices.len(), 1);
    let sl = &slices[0];
    assert_eq!(sl.height, 500);
    assert_eq!(sl.polygons.len(), 2);
    assert_eq!(total_segments_of(&sl.polygons), 16);
    for p in &sl.polygons {
        assert_eq!(p.segments().len(), 8);
        assert!(p.is_closed());
    }
    let a0 = shoelace(&sl.polygons[0]);
    let a1 = shoelace(&sl.polygons[1]);
    assert!(a0 != 0 && a1 != 0);
    assert!((a0 < 0) != (a1 < 0), "windings must be opposite: {} {}", a0, a1);
}

#[test]
fn scaled_and_moved_cube_slices_where_expected() {
    let chain = vec![Transform::Homothety(2 * FIX_ONE), Transform::Move(100, 100, 100)];
    let m = transformations(cube(), &chain).unwrap();
    assert_eq!(m.lowest(), Some(100));
    assert_eq!(m.highest(), Some(300));
    let slices = collect_slices(m, 100);
    assert_eq!(slices.len(), 1);
    let sl = &slices[0];
    assert_eq!(sl.height, 200);
    assert_eq!(sl.polygons.len(), 1);
    assert!(sl.polygons[0].is_closed());
    for s in sl.polygons[0].segments() {
        assert!(on_square_boundary(s.a, 100, 300));
        assert!(on_square_boundary(s.b, 100, 300));
    }
}

#[test]
fn slice_at_the_slab_floor_traces_the_base() {
    // The slab's own floor altitude is a legal cutting height: the
    // tetrahedron's cross-section there is its base triangle.
    let m = tetra_mesh();
    let stages = m.stages();
    let sl = stages[0].get_slice(0).unwrap();
    assert_eq!(sl.polygons.len(), 1);
    let p = &sl.polygons[0];
    assert_eq!(p.segments().len(), 3);
    assert!(p.is_closed());
    let want = [pv(0, 0, 0), pv(100, 0, 0), pv(0, 100, 0)];
    for w in want {
        let found = p.segments().iter().any(|s| equal_vertices(s.a, w));
        assert!(found, "missing corner {:?}", w);
    }
}

#[test]
fn stage_iterator_walks_bottom_to_top() {
    let mut m = tetra_mesh();
    m.vertices.push(pv(0, 0, 50));
    let mut it = m.iter_stages().unwrap();
    let s1 = it.next().unwrap();
    assert_eq!((s1.min_height, s1.max_height), (0, 50));
    let s2 = it.next().unwrap();
    assert_eq!((s2.min_height, s2.max_height), (50, 100));
    assert!(it.next().is_none());
}

#[test]
fn default_triangle_is_zeroed() {
    let t = pancake::mesh::default_triangle();
    assert_eq!(t.normal, pv(0, 0, 0));
    assert_eq!(t.vertices, [0, 0, 0]);
}
