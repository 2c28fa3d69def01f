//! Tests for the mesh transforms: identities, the half-turn involution,
//! range errors, and a transform chain end to end.

use pancake::geom::{Vertex, COORD_LIMIT, FIX_ONE};
use pancake::mesh::{Face, Mesh};
use pancake::transform::{transformations, Axis, Center, Transform, TransformError};

fn tv(x: i64, y: i64, z: i64) -> Vertex {
    Vertex { x, y, z }
}

/// A tetrahedron with outward-ish normals.
fn tetra() -> Mesh {
    Mesh {
        vertices: vec![tv(0, 0, 0), tv(100, 0, 0), tv(0, 100, 0), tv(0, 0, 100)],
        faces: vec![
            Face { normal: tv(0, 0, -100), vertices: [0, 2, 1] },
            Face { normal: tv(0, -100, 0), vertices: [0, 1, 3] },
            Face { normal: tv(-100, 0, 0), vertices: [0, 3, 2] },
            Face { normal: tv(58, 58, 58), vertices: [1, 2, 3] },
        ],
    }
}

#[test]
fn displace_moves_every_vertex() {
    let m = tetra().displace(10, -20, 30).unwrap();
    assert_eq!(m.vertices[0], tv(10, -20, 30));
    assert_eq!(m.vertices[1], tv(110, -20, 30));
    assert_eq!(m.faces, tetra().faces);
}

#[test]
fn displace_zero_is_identity() {
    let m = tetra();
    let moved = m.clone().displace(0, 0, 0).unwrap();
    assert_eq!(moved, m);
}

#[test]
fn scale_one_is_identity() {
    let m = tetra();
    let scaled = m.clone().scale(FIX_ONE, FIX_ONE, FIX_ONE).unwrap();
    assert_eq!(scaled, m);
}

#[test]
fn homothety_doubles() {
    let m = tetra().homothety(2 * FIX_ONE).unwrap();
    assert_eq!(m.vertices[1], tv(200, 0, 0));
    assert_eq!(m.vertices[3], tv(0, 0, 200));
    // The normal scales by the inverse factor: one half.
    assert_eq!(m.faces[0].normal, tv(0, 0, -50));
}

#[test]
fn rotate_zero_is_identity() {
    let m = tetra();
    assert_eq!(m.clone().rotate_x(FIX_ONE, 0).unwrap(), m);
    assert_eq!(m.clone().rotate_y(FIX_ONE, 0).unwrap(), m);
    assert_eq!(m.clone().rotate_z(FIX_ONE, 0).unwrap(), m);
}

#[test]
fn rotate_z_quarter_turn_maps_axes() {
    // cos 90 deg = 0, sin 90 deg = 1: (x, y) -> (-y, x).
    let m = tetra().rotate_z(0, FIX_ONE).unwrap();
    assert_eq!(m.vertices[1], tv(0, 100, 0));
    assert_eq!(m.vertices[2], tv(-100, 0, 0));
    assert_eq!(m.vertices[3], tv(0, 0, 100));
    assert_eq!(m.faces[1].normal, tv(100, 0, 0));
}

#[test]
fn rotate_z_half_turn_twice_is_identity() {
    let m = tetra();
    let once = m.clone().rotate_z(-FIX_ONE, 0).unwrap();
    assert_eq!(once.vertices[1], tv(-100, 0, 0));
    let twice = once.rotate_z(-FIX_ONE, 0).unwrap();
    assert_eq!(twice, m);
}

#[test]
fn displace_to_the_exact_range_edge_is_accepted() {
    // The largest coordinate lands exactly on the representable bound.
    let m = tetra().displace(COORD_LIMIT - 100, 0, 0).unwrap();
    assert_eq!(m.vertices[1].x, COORD_LIMIT);
    // One unit further is refused.
    assert_eq!(
        tetra().displace(COORD_LIMIT - 99, 0, 0),
        Err(TransformError::OutOfRange)
    );
}

#[test]
fn displace_out_of_range_is_refused() {
    let big: i64 = 1 << 40;
    assert_eq!(tetra().displace(big, 0, 0), Err(TransformError::OutOfRange));
}

#[test]
fn scale_out_of_range_is_refused() {
    let huge: i64 = (1 << 30) * FIX_ONE;
    assert_eq!(tetra().scale(huge, FIX_ONE, FIX_ONE), Err(TransformError::OutOfRange));
}

#[test]
fn center_moves_centroid_to_origin() {
    let m = Mesh {
        vertices: vec![tv(100, 200, 300), tv(300, 200, 100)],
        faces: Vec::new(),
    };
    let centered = Mesh::center(m).unwrap();
    assert_eq!(centered.vertices[0], tv(-100, 0, 100));
    assert_eq!(centered.vertices[1], tv(100, 0, -100));
}

#[test]
fn center_of_empty_mesh_is_identity() {
    let m = Mesh { vertices: Vec::new(), faces: Vec::new() };
    let centered = Mesh::center(m).unwrap();
    assert_eq!(centered.vertices.len(), 0);
}

#[test]
fn center_trait_refuses_invalid_mesh() {
    let m = Mesh {
        vertices: vec![tv(i64::MAX, 0, 0)],
        faces: Vec::new(),
    };
    assert_eq!(Center::center(m), Err(TransformError::InvalidMesh));
}

#[test]
fn center_trait_centers_valid_mesh() {
    let m = Mesh {
        vertices: vec![tv(0, 0, 0), tv(200, 0, 0)],
        faces: Vec::new(),
    };
    let centered = Center::center(m).unwrap();
    assert_eq!(centered.vertices[0], tv(-100, 0, 0));
}

#[test]
fn transformations_apply_in_list_order() {
    let chain = vec![Transform::Homothety(2 * FIX_ONE), Transform::Move(100, 100, 100)];
    let m = transformations(tetra(), &chain).unwrap();
    // Scale first, then move: the origin corner lands on (100, 100, 100).
    assert_eq!(m.vertices[0], tv(100, 100, 100));
    assert_eq!(m.vertices[1], tv(300, 100, 100));
}

#[test]
fn transformations_rotate_by_axis() {
    let chain = vec![Transform::Rotate(Axis::Z, 0, FIX_ONE)];
    let m = transformations(tetra(), &chain).unwrap();
    assert_eq!(m.vertices[1], tv(0, 100, 0));
}

#[test]
fn transformations_report_overflow() {
    let chain = vec![Transform::Move(1 << 40, 0, 0)];
    assert_eq!(transformations(tetra(), &chain), Err(TransformError::OutOfRange));
}

#[test]
fn transformations_empty_chain_is_identity() {
    let m = tetra();
    assert_eq!(transformations(m.clone(), &Vec::new()).unwrap(), m);
}
