//! The indexed triangle mesh the pipeline consumes, and its altitude
//! queries.

use vstd::prelude::*;

verus! {

use crate::geom::{COORD_LIMIT, Vertex, vertex_in_range};

/// One triangle of an indexed mesh: three indices into the shared vertex
/// list, plus the triangle's surface normal.
#[derive(Clone, Copy, Debug, PartialEq, Eq)]
pub struct Face {
    pub normal: Vertex,
    pub vertices: [usize; 3],
}

/// A face whose indices stay within a vertex list of length `n` and whose
/// normal is a representable coordinate triple.
pub open spec fn face_wf(f: Face, n: int) -> bool {
    &&& f.vertices[0] < n
    &&& f.vertices[1] < n
    &&& f.vertices[2] < n
    &&& vertex_in_range(f.normal, COORD_LIMIT)
}

/// A triangle with a zero normal and all three corners at the origin,
/// ready to be filled in.
pub fn default_triangle() -> (t: Face)
    ensures
        t.normal == (Vertex { x: 0, y: 0, z: 0 }),
        t.vertices@ == seq![0usize, 0usize, 0usize],
{
    Face { normal: Vertex { x: 0, y: 0, z: 0 }, vertices: [0, 0, 0] }
}

/// An indexed surface of triangles over a shared vertex list.
#[derive(Clone, Debug, PartialEq)]
pub struct Mesh {
    pub vertices: Vec<Vertex>,
    pub faces: Vec<Face>,
}

/// `l` is the least altitude of any vertex.
pub open spec fn is_lowest_z(vs: Seq<Vertex>, l: int) -> bool {
    &&& exists|i: int| 0 <= i < vs.len() && #[trigger] vs[i].z == l
    &&& forall|i: int| 0 <= i < vs.len() ==> l <= #[trigger] vs[i].z
}

/// `h` is the greatest altitude of any vertex.
pub open spec fn is_highest_z(vs: Seq<Vertex>, h: int) -> bool {
    &&& exists|i: int| 0 <= i < vs.len() && #[trigger] vs[i].z == h
    &&& forall|i: int| 0 <= i < vs.len() ==> #[trigger] vs[i].z <= h
}

impl Mesh {
    /// Every face references real vertices and every coordinate is within
    /// the representable range.
    pub open spec fn wf(&self) -> bool {
        &&& forall|i: int|
            0 <= i < self.vertices@.len() ==> vertex_in_range(
                #[trigger] self.vertices@[i],
                COORD_LIMIT,
            )
        &&& forall|i: int|
            0 <= i < self.faces@.len() ==> face_wf(
                #[trigger] self.faces@[i],
                self.vertices@.len() as int,
            )
    }

    /// The least vertex altitude, or nothing for an empty mesh.
    pub fn lowest(&self) -> (r: Option<i64>)
        ensures
            match r {
                Some(l) => is_lowest_z(self.vertices@, l as int),
                None => self.vertices@.len() == 0,
            },
    {
        if self.vertices.len() == 0 {
            return None;
        }
        let mut low = self.vertices[0].z;
        let mut i: usize = 1;
        while i < self.vertices.len()
            invariant
                1 <= i <= self.vertices@.len(),
                exists|j: int| 0 <= j < i && #[trigger] self.vertices@[j].z == low,
                forall|j: int| 0 <= j < i ==> low <= #[trigger] self.vertices@[j].z,
            decreases self.vertices@.len() - i,
        {
            if self.vertices[i].z < low {
                low = self.vertices[i].z;
            }
            i += 1;
        }
        Some(low)
    }

    /// The greatest vertex altitude, or nothing for an empty mesh.
    pub fn highest(&self) -> (r: Option<i64>)
        ensures
            match r {
                Some(h) => is_highest_z(self.vertices@, h as int),
                None => self.vertices@.len() == 0,
            },
    {
        if self.vertices.len() == 0 {
            return None;
        }
        let mut high = self.vertices[0].z;
        let mut i: usize = 1;
        while i < self.vertices.len()
            invariant
                1 <= i <= self.vertices@.len(),
                exists|j: int| 0 <= j < i && #[trigger] self.vertices@[j].z == high,
                forall|j: int| 0 <= j < i ==> #[trigger] self.vertices@[j].z <= high,
            decreases self.vertices@.len() - i,
        {
            if self.vertices[i].z > high {
                high = self.vertices[i].z;
            }
            i += 1;
        }
        Some(high)
    }
}

} // verus!
