//! Mesh pre-transforms: pure functions producing a transformed mesh.
//! Scale factors, cosines and sines are fixed-point numbers scaled by
//! `FIX_ONE`.  Every transform checks that each produced coordinate stays
//! representable and reports the overflow instead of wrapping.

use vstd::prelude::*;

verus! {

use vstd::arithmetic::div_mod::{lemma_div_nonincreasing, lemma_div_pos_is_pos};
use vstd::arithmetic::mul::lemma_mul_unary_negation;
use crate::geom::{
    COORD_LIMIT,
    FIX_ONE,
    Vertex,
    lemma_mul_bound,
    lemma_tdiv_mul_exact,
    tdiv,
    vertex_in_range,
};
use crate::mesh::{Face, Mesh};

/// An axis of rotation.
#[derive(Clone, Copy, Debug, PartialEq, Eq, Structural)]
pub enum Axis {
    X,
    Y,
    Z,
}

/// One step of the transform pipeline.  A rotation carries the
/// fixed-point cosine and sine of its angle.
#[derive(Clone, Copy, Debug, PartialEq, Eq, Structural)]
pub enum Transform {
    Center,
    Rotate(Axis, i64, i64),
    Move(i64, i64, i64),
    Scale(i64, i64, i64),
    Homothety(i64),
}

/// Why a transform was refused: a transformed coordinate left the
/// representable range, or the mesh failed its runtime validity check.
#[derive(Clone, Copy, Debug, PartialEq, Eq, Structural)]
pub enum TransformError {
    OutOfRange,
    InvalidMesh,
}

/// Truncating division extended to negative divisors: the rounding of
/// executable integer division.
pub open spec fn tdiv_gen(n: int, d: int) -> int {
    if d >= 0 {
        tdiv(n, d)
    } else {
        -tdiv(n, -d)
    }
}

/// Dividing an exact multiple is exact for any non-zero divisor.
pub proof fn lemma_tdiv_gen_mul_exact(a: int, d: int)
    requires
        d != 0,
    ensures
        tdiv_gen(a * d, d) == a,
{
    if d > 0 {
        lemma_tdiv_mul_exact(a, d);
    } else {
        lemma_mul_unary_negation(a, d);
        lemma_tdiv_mul_exact(a, -d);
        assert(a * d == -(a * (-d)));
    }
}

/// Compute `tdiv_gen(n, d)` on 128-bit intermediates.
fn div_trunc_i128(n: i128, d: i128) -> (q: i128)
    requires
        d != 0,
        -0x4000_0000_0000_0000_0000_0000_0000_0000 < n,
    ensures
        q == tdiv_gen(n as int, d as int),
        if n >= 0 {
            -n <= q <= n
        } else {
            n <= q <= -n
        },
{
    let neg_n = n < 0;
    let neg_d = d < 0;
    let mag_n: u128 = if neg_n {
        (-n) as u128
    } else {
        n as u128
    };
    let mag_d: u128 = if neg_d {
        if d == i128::MIN {
            proof {
                assert(-(i128::MIN as int) == 0x8000_0000_0000_0000_0000_0000_0000_0000int);
            }
            0x8000_0000_0000_0000_0000_0000_0000_0000u128
        } else {
            (-d) as u128
        }
    } else {
        d as u128
    };
    let uq: u128 = mag_n / mag_d;
    proof {
        lemma_div_pos_is_pos(mag_n as int, mag_d as int);
        lemma_div_nonincreasing(mag_n as int, mag_d as int);
    }
    if neg_n == neg_d {
        uq as i128
    } else {
        -(uq as i128)
    }
}

/// A vertex moved by `(x, y, z)`.
pub open spec fn spec_displaced(v: Vertex, x: i64, y: i64, z: i64) -> Vertex {
    Vertex { x: (v.x + x) as i64, y: (v.y + y) as i64, z: (v.z + z) as i64 }
}

pub open spec fn displaced_in_range(v: Vertex, x: i64, y: i64, z: i64) -> bool {
    &&& -COORD_LIMIT <= v.x + x <= COORD_LIMIT
    &&& -COORD_LIMIT <= v.y + y <= COORD_LIMIT
    &&& -COORD_LIMIT <= v.z + z <= COORD_LIMIT
}

/// All vertices moved by `(x, y, z)`, or nothing if any would leave the
/// representable range.  Normals are unchanged by translation.
pub open spec fn spec_displace_all(vs: Seq<Vertex>, x: i64, y: i64, z: i64) -> Option<
    Seq<Vertex>,
> {
    if forall|i: int| 0 <= i < vs.len() ==> displaced_in_range(#[trigger] vs[i], x, y, z) {
        Some(vs.map_values(|v: Vertex| spec_displaced(v, x, y, z)))
    } else {
        None
    }
}

/// A vertex scaled componentwise by fixed-point factors.
pub open spec fn spec_scaled(v: Vertex, x: i64, y: i64, z: i64) -> Vertex {
    Vertex {
        x: tdiv_gen(v.x * x, FIX_ONE as int) as i64,
        y: tdiv_gen(v.y * y, FIX_ONE as int) as i64,
        z: tdiv_gen(v.z * z, FIX_ONE as int) as i64,
    }
}

pub open spec fn scaled_in_range(v: Vertex, x: i64, y: i64, z: i64) -> bool {
    &&& -COORD_LIMIT <= tdiv_gen(v.x * x, FIX_ONE as int) <= COORD_LIMIT
    &&& -COORD_LIMIT <= tdiv_gen(v.y * y, FIX_ONE as int) <= COORD_LIMIT
    &&& -COORD_LIMIT <= tdiv_gen(v.z * z, FIX_ONE as int) <= COORD_LIMIT
}

/// A normal under componentwise scaling follows the inverse transpose:
/// each component is divided by its axis factor.
pub open spec fn spec_scaled_normal(n: Vertex, x: i64, y: i64, z: i64) -> Vertex {
    Vertex {
        x: tdiv_gen(n.x * FIX_ONE, x as int) as i64,
        y: tdiv_gen(n.y * FIX_ONE, y as int) as i64,
        z: tdiv_gen(n.z * FIX_ONE, z as int) as i64,
    }
}

pub open spec fn scaled_normal_in_range(n: Vertex, x: i64, y: i64, z: i64) -> bool {
    &&& -COORD_LIMIT <= tdiv_gen(n.x * FIX_ONE, x as int) <= COORD_LIMIT
    &&& -COORD_LIMIT <= tdiv_gen(n.y * FIX_ONE, y as int) <= COORD_LIMIT
    &&& -COORD_LIMIT <= tdiv_gen(n.z * FIX_ONE, z as int) <= COORD_LIMIT
}

/// All vertices scaled, or nothing on range overflow.
pub open spec fn spec_scale_all(vs: Seq<Vertex>, x: i64, y: i64, z: i64) -> Option<Seq<Vertex>> {
    if forall|i: int| 0 <= i < vs.len() ==> scaled_in_range(#[trigger] vs[i], x, y, z) {
        Some(vs.map_values(|v: Vertex| spec_scaled(v, x, y, z)))
    } else {
        None
    }
}

/// All face normals scaled by the inverse transpose, indices unchanged,
/// or nothing on range overflow.
pub open spec fn spec_scale_normals(fs: Seq<Face>, x: i64, y: i64, z: i64) -> Option<Seq<Face>> {
    if forall|i: int|
        0 <= i < fs.len() ==> scaled_normal_in_range((#[trigger] fs[i]).normal, x, y, z) {
        Some(
            fs.map_values(
                |f: Face| Face { normal: spec_scaled_normal(f.normal, x, y, z), vertices: f.vertices },
            ),
        )
    } else {
        None
    }
}

impl Mesh {
    /// Move every vertex by `(x, y, z)`; normals are unchanged.  An
    /// error is returned exactly when some moved coordinate would leave
    /// the representable range.
    pub fn displace(self, x: i64, y: i64, z: i64) -> (r: Result<Mesh, TransformError>)
        requires
            self.wf(),
        ensures
            match r {
                Ok(m) => {
                    &&& Some(m.vertices@) == spec_displace_all(self.vertices@, x, y, z)
                    &&& m.faces@ == self.faces@
                    &&& m.wf()
                },
                Err(e) => {
                    &&& e == TransformError::OutOfRange
                    &&& spec_displace_all(self.vertices@, x, y, z) is None
                },
            },
    {
        let mut out: Vec<Vertex> = Vec::new();
        let mut i: usize = 0;
        while i < self.vertices.len()
            invariant
                self.wf(),
                i <= self.vertices@.len(),
                out@.len() == i,
                forall|j: int| 0 <= j < i ==> displaced_in_range(#[trigger] self.vertices@[j], x, y, z),
                forall|j: int|
                    0 <= j < i ==> #[trigger] out@[j] == spec_displaced(self.vertices@[j], x, y, z),
                forall|j: int| 0 <= j < i ==> vertex_in_range(#[trigger] out@[j], COORD_LIMIT),
            decreases self.vertices@.len() - i,
        {
            let v = self.vertices[i];
            let nx = v.x as i128 + x as i128;
            let ny = v.y as i128 + y as i128;
            let nz = v.z as i128 + z as i128;
            let lim = COORD_LIMIT as i128;
            if nx < -lim || nx > lim || ny < -lim || ny > lim || nz < -lim || nz > lim {
                return Err(TransformError::OutOfRange);
            }
            out.push(Vertex { x: nx as i64, y: ny as i64, z: nz as i64 });
            i += 1;
        }
        proof {
            assert(out@ =~= self.vertices@.map_values(|v: Vertex| spec_displaced(v, x, y, z)));
        }
        Ok(Mesh { vertices: out, faces: self.faces })
    }

    /// Scale every vertex componentwise by the fixed-point factors, and
    /// every normal by their inverses (the inverse-transpose transform).
    /// An error is returned exactly when some produced coordinate would
    /// leave the representable range.
    pub fn scale(self, x: i64, y: i64, z: i64) -> (r: Result<Mesh, TransformError>)
        requires
            self.wf(),
            x != 0,
            y != 0,
            z != 0,
        ensures
            match r {
                Ok(m) => {
                    &&& Some(m.vertices@) == spec_scale_all(self.vertices@, x, y, z)
                    &&& Some(m.faces@) == spec_scale_normals(self.faces@, x, y, z)
                    &&& m.wf()
                },
                Err(e) => {
                    &&& e == TransformError::OutOfRange
                    &&& (spec_scale_all(self.vertices@, x, y, z) is None || spec_scale_normals(
                        self.faces@,
                        x,
                        y,
                        z,
                    ) is None)
                },
            },
    {
        let lim = COORD_LIMIT as i128;
        let fix = FIX_ONE as i128;
        let mut out: Vec<Vertex> = Vec::new();
        let mut i: usize = 0;
        while i < self.vertices.len()
            invariant
                self.wf(),
                x != 0 && y != 0 && z != 0,
                lim == COORD_LIMIT as i128,
                fix == FIX_ONE as i128,
                i <= self.vertices@.len(),
                out@.len() == i,
                forall|j: int| 0 <= j < i ==> scaled_in_range(#[trigger] self.vertices@[j], x, y, z),
                forall|j: int|
                    0 <= j < i ==> #[trigger] out@[j] == spec_scaled(self.vertices@[j], x, y, z),
                forall|j: int| 0 <= j < i ==> vertex_in_range(#[trigger] out@[j], COORD_LIMIT),
            decreases self.vertices@.len() - i,
        {
            let v = self.vertices[i];
            proof {
                lemma_mul_bound(v.x as int, x as int, COORD_LIMIT as int, 0x8000_0000_0000_0000);
                lemma_mul_bound(v.y as int, y as int, COORD_LIMIT as int, 0x8000_0000_0000_0000);
                lemma_mul_bound(v.z as int, z as int, COORD_LIMIT as int, 0x8000_0000_0000_0000);
            }
            let nx = div_trunc_i128(v.x as i128 * x as i128, fix);
            let ny = div_trunc_i128(v.y as i128 * y as i128, fix);
            let nz = div_trunc_i128(v.z as i128 * z as i128, fix);
            if nx < -lim || nx > lim || ny < -lim || ny > lim || nz < -lim || nz > lim {
                return Err(TransformError::OutOfRange);
            }
            out.push(Vertex { x: nx as i64, y: ny as i64, z: nz as i64 });
            i += 1;
        }
        proof {
            assert(out@ =~= self.vertices@.map_values(|v: Vertex| spec_scaled(v, x, y, z)));
        }
        let mut fout: Vec<Face> = Vec::new();
        let mut k: usize = 0;
        while k < self.faces.len()
            invariant
                self.wf(),
                x != 0 && y != 0 && z != 0,
                lim == COORD_LIMIT as i128,
                fix == FIX_ONE as i128,
                k <= self.faces@.len(),
                fout@.len() == k,
                out@.len() == self.vertices@.len(),
                forall|j: int|
                    0 <= j < k ==> scaled_normal_in_range((#[trigger] self.faces@[j]).normal, x, y, z),
                forall|j: int|
                    0 <= j < k ==> #[trigger] fout@[j] == (Face {
                        normal: spec_scaled_normal(self.faces@[j].normal, x, y, z),
                        vertices: self.faces@[j].vertices,
                    }),
                forall|j: int|
                    0 <= j < k ==> crate::mesh::face_wf(#[trigger] fout@[j], out@.len() as int),
            decreases self.faces@.len() - k,
        {
            let f = self.faces[k];
            let n = f.normal;
            proof {
                lemma_mul_bound(n.x as int, FIX_ONE as int, COORD_LIMIT as int, FIX_ONE as int);
                lemma_mul_bound(n.y as int, FIX_ONE as int, COORD_LIMIT as int, FIX_ONE as int);
                lemma_mul_bound(n.z as int, FIX_ONE as int, COORD_LIMIT as int, FIX_ONE as int);
            }
            let nx = div_trunc_i128(n.x as i128 * fix, x as i128);
            let ny = div_trunc_i128(n.y as i128 * fix, y as i128);
            let nz = div_trunc_i128(n.z as i128 * fix, z as i128);
            if nx < -lim || nx > lim || ny < -lim || ny > lim || nz < -lim || nz > lim {
                return Err(TransformError::OutOfRange);
            }
            fout.push(
                Face { normal: Vertex { x: nx as i64, y: ny as i64, z: nz as i64 }, vertices: f.vertices },
            );
            k += 1;
        }
        proof {
            assert(fout@ =~= self.faces@.map_values(
                |f: Face| Face { normal: spec_scaled_normal(f.normal, x, y, z), vertices: f.vertices },
            ));
        }
        Ok(Mesh { vertices: out, faces: fout })
    }

    /// Whether the mesh is well-formed: every face references real
    /// vertices and every coordinate is representable.  This is the
    /// runtime check unverified callers use before handing a mesh to the
    /// pipeline.
    pub fn check(&self) -> (r: bool)
        ensures
            r == self.wf(),
    {
        let mut i: usize = 0;
        while i < self.vertices.len()
            invariant
                i <= self.vertices@.len(),
                forall|j: int|
                    0 <= j < i ==> vertex_in_range(#[trigger] self.vertices@[j], COORD_LIMIT),
            decreases self.vertices@.len() - i,
        {
            let v = self.vertices[i];
            if v.x < -COORD_LIMIT || v.x > COORD_LIMIT || v.y < -COORD_LIMIT || v.y > COORD_LIMIT
                || v.z < -COORD_LIMIT || v.z > COORD_LIMIT {
                return false;
            }
            i += 1;
        }
        let mut k: usize = 0;
        while k < self.faces.len()
            invariant
                k <= self.faces@.len(),
                forall|j: int|
                    0 <= j < self.vertices@.len() ==> vertex_in_range(
                        #[trigger] self.vertices@[j],
                        COORD_LIMIT,
                    ),
                forall|j: int|
                    0 <= j < k ==> crate::mesh::face_wf(
                        #[trigger] self.faces@[j],
                        self.vertices@.len() as int,
                    ),
            decreases self.faces@.len() - k,
        {
            let f = self.faces[k];
            let n = f.normal;
            if f.vertices[0] >= self.vertices.len() || f.vertices[1] >= self.vertices.len()
                || f.vertices[2] >= self.vertices.len() || n.x < -COORD_LIMIT || n.x > COORD_LIMIT
                || n.y < -COORD_LIMIT || n.y > COORD_LIMIT || n.z < -COORD_LIMIT || n.z
                > COORD_LIMIT {
                return false;
            }
            k += 1;
        }
        true
    }

    /// Scale uniformly: the same fixed-point factor on every axis.
    pub fn homothety(self, s: i64) -> (r: Result<Mesh, TransformError>)
        requires
            self.wf(),
            s != 0,
        ensures
            match r {
                Ok(m) => {
                    &&& Some(m.vertices@) == spec_scale_all(self.vertices@, s, s, s)
                    &&& Some(m.faces@) == spec_scale_normals(self.faces@, s, s, s)
                    &&& m.wf()
                },
                Err(e) => {
                    &&& e == TransformError::OutOfRange
                    &&& (spec_scale_all(self.vertices@, s, s, s) is None || spec_scale_normals(
                        self.faces@,
                        s,
                        s,
                        s,
                    ) is None)
                },
            },
    {
        self.scale(s, s, s)
    }
}

/// A vertex rotated about an axis, the angle given by its fixed-point
/// cosine and sine.  Both rotated coordinates are computed from the
/// original pair before either is written back.
pub open spec fn spec_rotated(v: Vertex, axis: Axis, c: i64, s: i64) -> Vertex {
    match axis {
        Axis::X => Vertex {
            x: v.x,
            y: tdiv_gen(c * v.y - s * v.z, FIX_ONE as int) as i64,
            z: tdiv_gen(s * v.y + c * v.z, FIX_ONE as int) as i64,
        },
        Axis::Y => Vertex {
            x: tdiv_gen(c * v.x + s * v.z, FIX_ONE as int) as i64,
            y: v.y,
            z: tdiv_gen(c * v.z - s * v.x, FIX_ONE as int) as i64,
        },
        Axis::Z => Vertex {
            x: tdiv_gen(c * v.x - s * v.y, FIX_ONE as int) as i64,
            y: tdiv_gen(s * v.x + c * v.y, FIX_ONE as int) as i64,
            z: v.z,
        },
    }
}

pub open spec fn rotated_in_range(v: Vertex, axis: Axis, c: i64, s: i64) -> bool {
    match axis {
        Axis::X => {
            &&& -COORD_LIMIT <= tdiv_gen(c * v.y - s * v.z, FIX_ONE as int) <= COORD_LIMIT
            &&& -COORD_LIMIT <= tdiv_gen(s * v.y + c * v.z, FIX_ONE as int) <= COORD_LIMIT
        },
        Axis::Y => {
            &&& -COORD_LIMIT <= tdiv_gen(c * v.x + s * v.z, FIX_ONE as int) <= COORD_LIMIT
            &&& -COORD_LIMIT <= tdiv_gen(c * v.z - s * v.x, FIX_ONE as int) <= COORD_LIMIT
        },
        Axis::Z => {
            &&& -COORD_LIMIT <= tdiv_gen(c * v.x - s * v.y, FIX_ONE as int) <= COORD_LIMIT
            &&& -COORD_LIMIT <= tdiv_gen(s * v.x + c * v.y, FIX_ONE as int) <= COORD_LIMIT
        },
    }
}

/// All vertices rotated, or nothing on range overflow.
pub open spec fn spec_rotate_vertices(vs: Seq<Vertex>, axis: Axis, c: i64, s: i64) -> Option<
    Seq<Vertex>,
> {
    if forall|i: int| 0 <= i < vs.len() ==> rotated_in_range(#[trigger] vs[i], axis, c, s) {
        Some(vs.map_values(|v: Vertex| spec_rotated(v, axis, c, s)))
    } else {
        None
    }
}

/// All face normals rotated the same way, indices unchanged, or nothing
/// on range overflow.
pub open spec fn spec_rotate_normals(fs: Seq<Face>, axis: Axis, c: i64, s: i64) -> Option<
    Seq<Face>,
> {
    if forall|i: int| 0 <= i < fs.len() ==> rotated_in_range((#[trigger] fs[i]).normal, axis, c, s) {
        Some(
            fs.map_values(
                |f: Face| Face { normal: spec_rotated(f.normal, axis, c, s), vertices: f.vertices },
            ),
        )
    } else {
        None
    }
}

/// Rotate the coordinate pair `(u, v)` by the angle whose fixed-point
/// cosine and sine are `(c, s)`.
fn rotate_pair(u: i64, v: i64, c: i64, s: i64) -> (r: (i128, i128))
    requires
        -COORD_LIMIT <= u <= COORD_LIMIT,
        -COORD_LIMIT <= v <= COORD_LIMIT,
    ensures
        r.0 == tdiv_gen(c * u - s * v, FIX_ONE as int),
        r.1 == tdiv_gen(s * u + c * v, FIX_ONE as int),
{
    proof {
        lemma_mul_bound(c as int, u as int, 0x8000_0000_0000_0000, COORD_LIMIT as int);
        lemma_mul_bound(s as int, v as int, 0x8000_0000_0000_0000, COORD_LIMIT as int);
        lemma_mul_bound(s as int, u as int, 0x8000_0000_0000_0000, COORD_LIMIT as int);
        lemma_mul_bound(c as int, v as int, 0x8000_0000_0000_0000, COORD_LIMIT as int);
    }
    let a = div_trunc_i128(
        c as i128 * u as i128 - s as i128 * v as i128,
        FIX_ONE as i128,
    );
    let b = div_trunc_i128(
        s as i128 * u as i128 + c as i128 * v as i128,
        FIX_ONE as i128,
    );
    (a, b)
}

impl Mesh {
    /// Rotate every vertex and every normal about `axis` by the angle
    /// whose fixed-point cosine and sine are `(c, s)`.  An error is
    /// returned exactly when some rotated coordinate would leave the
    /// representable range.
    fn rotate_axis(self, axis: Axis, c: i64, s: i64) -> (r: Result<Mesh, TransformError>)
        requires
            self.wf(),
        ensures
            match r {
                Ok(m) => {
                    &&& Some(m.vertices@) == spec_rotate_vertices(self.vertices@, axis, c, s)
                    &&& Some(m.faces@) == spec_rotate_normals(self.faces@, axis, c, s)
                    &&& m.wf()
                },
                Err(e) => {
                    &&& e == TransformError::OutOfRange
                    &&& (spec_rotate_vertices(self.vertices@, axis, c, s) is None
                        || spec_rotate_normals(self.faces@, axis, c, s) is None)
                },
            },
    {
        let lim = COORD_LIMIT as i128;
        let mut out: Vec<Vertex> = Vec::new();
        let mut i: usize = 0;
        while i < self.vertices.len()
            invariant
                self.wf(),
                lim == COORD_LIMIT as i128,
                i <= self.vertices@.len(),
                out@.len() == i,
                forall|j: int|
                    0 <= j < i ==> rotated_in_range(#[trigger] self.vertices@[j], axis, c, s),
                forall|j: int|
                    0 <= j < i ==> #[trigger] out@[j] == spec_rotated(self.vertices@[j], axis, c, s),
                forall|j: int| 0 <= j < i ==> vertex_in_range(#[trigger] out@[j], COORD_LIMIT),
            decreases self.vertices@.len() - i,
        {
            let v = self.vertices[i];
            let (nx, ny, nz): (i128, i128, i128) = match axis {
                Axis::X => {
                    let (a, b) = rotate_pair(v.y, v.z, c, s);
                    (v.x as i128, a, b)
                },
                Axis::Y => {
                    let (a, b) = rotate_pair(v.z, v.x, c, s);
                    (b, v.y as i128, a)
                },
                Axis::Z => {
                    let (a, b) = rotate_pair(v.x, v.y, c, s);
                    (a, b, v.z as i128)
                },
            };
            if nx < -lim || nx > lim || ny < -lim || ny > lim || nz < -lim || nz > lim {
                return Err(TransformError::OutOfRange);
            }
            out.push(Vertex { x: nx as i64, y: ny as i64, z: nz as i64 });
            i += 1;
        }
        proof {
            assert(out@ =~= self.vertices@.map_values(|v: Vertex| spec_rotated(v, axis, c, s)));
        }
        let mut fout: Vec<Face> = Vec::new();
        let mut k: usize = 0;
        while k < self.faces.len()
            invariant
                self.wf(),
                lim == COORD_LIMIT as i128,
                k <= self.faces@.len(),
                fout@.len() == k,
                out@.len() == self.vertices@.len(),
                forall|j: int|
                    0 <= j < k ==> rotated_in_range((#[trigger] self.faces@[j]).normal, axis, c, s),
                forall|j: int|
                    0 <= j < k ==> #[trigger] fout@[j] == (Face {
                        normal: spec_rotated(self.faces@[j].normal, axis, c, s),
                        vertices: self.faces@[j].vertices,
                    }),
                forall|j: int|
                    0 <= j < k ==> crate::mesh::face_wf(#[trigger] fout@[j], out@.len() as int),
            decreases self.faces@.len() - k,
        {
            let f = self.faces[k];
            let n = f.normal;
            let (nx, ny, nz): (i128, i128, i128) = match axis {
                Axis::X => {
                    let (a, b) = rotate_pair(n.y, n.z, c, s);
                    (n.x as i128, a, b)
                },
                Axis::Y => {
                    let (a, b) = rotate_pair(n.z, n.x, c, s);
                    (b, n.y as i128, a)
                },
                Axis::Z => {
                    let (a, b) = rotate_pair(n.x, n.y, c, s);
                    (a, b, n.z as i128)
                },
            };
            if nx < -lim || nx > lim || ny < -lim || ny > lim || nz < -lim || nz > lim {
                return Err(TransformError::OutOfRange);
            }
            fout.push(
                Face {
                    normal: Vertex { x: nx as i64, y: ny as i64, z: nz as i64 },
                    vertices: f.vertices,
                },
            );
            k += 1;
        }
        proof {
            assert(fout@ =~= self.faces@.map_values(
                |f: Face| Face { normal: spec_rotated(f.normal, axis, c, s), vertices: f.vertices },
            ));
        }
        Ok(Mesh { vertices: out, faces: fout })
    }

    /// Rotate about the X axis; `(c, s)` are the angle's fixed-point
    /// cosine and sine.
    pub fn rotate_x(self, c: i64, s: i64) -> (r: Result<Mesh, TransformError>)
        requires
            self.wf(),
        ensures
            match r {
                Ok(m) => {
                    &&& Some(m.vertices@) == spec_rotate_vertices(self.vertices@, Axis::X, c, s)
                    &&& Some(m.faces@) == spec_rotate_normals(self.faces@, Axis::X, c, s)
                    &&& m.wf()
                },
                Err(e) => {
                    &&& e == TransformError::OutOfRange
                    &&& (spec_rotate_vertices(self.vertices@, Axis::X, c, s) is None
                        || spec_rotate_normals(self.faces@, Axis::X, c, s) is None)
                },
            },
    {
        self.rotate_axis(Axis::X, c, s)
    }

    /// Rotate about the Y axis; `(c, s)` are the angle's fixed-point
    /// cosine and sine.
    pub fn rotate_y(self, c: i64, s: i64) -> (r: Result<Mesh, TransformError>)
        requires
            self.wf(),
        ensures
            match r {
                Ok(m) => {
                    &&& Some(m.vertices@) == spec_rotate_vertices(self.vertices@, Axis::Y, c, s)
                    &&& Some(m.faces@) == spec_rotate_normals(self.faces@, Axis::Y, c, s)
                    &&& m.wf()
                },
                Err(e) => {
                    &&& e == TransformError::OutOfRange
                    &&& (spec_rotate_vertices(self.vertices@, Axis::Y, c, s) is None
                        || spec_rotate_normals(self.faces@, Axis::Y, c, s) is None)
                },
            },
    {
        self.rotate_axis(Axis::Y, c, s)
    }

    /// Rotate about the Z axis; `(c, s)` are the angle's fixed-point
    /// cosine and sine.
    pub fn rotate_z(self, c: i64, s: i64) -> (r: Result<Mesh, TransformError>)
        requires
            self.wf(),
        ensures
            match r {
                Ok(m) => {
                    &&& Some(m.vertices@) == spec_rotate_vertices(self.vertices@, Axis::Z, c, s)
                    &&& Some(m.faces@) == spec_rotate_normals(self.faces@, Axis::Z, c, s)
                    &&& m.wf()
                },
                Err(e) => {
                    &&& e == TransformError::OutOfRange
                    &&& (spec_rotate_vertices(self.vertices@, Axis::Z, c, s) is None
                        || spec_rotate_normals(self.faces@, Axis::Z, c, s) is None)
                },
            },
    {
        self.rotate_axis(Axis::Z, c, s)
    }
}

/// The componentwise sum of all vertex coordinates.
pub open spec fn coord_sum(vs: Seq<Vertex>) -> (int, int, int)
    decreases vs.len(),
{
    if vs.len() == 0 {
        (0, 0, 0)
    } else {
        let s = coord_sum(vs.drop_last());
        (s.0 + vs.last().x, s.1 + vs.last().y, s.2 + vs.last().z)
    }
}

/// The mean vertex position, rounded toward zero.
pub open spec fn spec_centroid(vs: Seq<Vertex>) -> (int, int, int)
    recommends
        vs.len() > 0,
{
    let s = coord_sum(vs);
    (tdiv(s.0, vs.len() as int), tdiv(s.1, vs.len() as int), tdiv(s.2, vs.len() as int))
}

proof fn lemma_coord_sum_bound(vs: Seq<Vertex>)
    requires
        forall|i: int| 0 <= i < vs.len() ==> vertex_in_range(#[trigger] vs[i], COORD_LIMIT),
    ensures
        -(vs.len() * COORD_LIMIT) <= coord_sum(vs).0 <= vs.len() * COORD_LIMIT,
        -(vs.len() * COORD_LIMIT) <= coord_sum(vs).1 <= vs.len() * COORD_LIMIT,
        -(vs.len() * COORD_LIMIT) <= coord_sum(vs).2 <= vs.len() * COORD_LIMIT,
    decreases vs.len(),
{
    if vs.len() > 0 {
        lemma_coord_sum_bound(vs.drop_last());
        assert(vs.len() * COORD_LIMIT == (vs.len() - 1) * COORD_LIMIT + COORD_LIMIT)
            by (nonlinear_arith);
    }
}

/// The centroid of in-range vertices is itself in range.
pub proof fn lemma_centroid_in_range(vs: Seq<Vertex>)
    requires
        vs.len() > 0,
        forall|i: int| 0 <= i < vs.len() ==> vertex_in_range(#[trigger] vs[i], COORD_LIMIT),
    ensures
        -COORD_LIMIT <= spec_centroid(vs).0 <= COORD_LIMIT,
        -COORD_LIMIT <= spec_centroid(vs).1 <= COORD_LIMIT,
        -COORD_LIMIT <= spec_centroid(vs).2 <= COORD_LIMIT,
{
    lemma_coord_sum_bound(vs);
    assert(vs.len() * COORD_LIMIT == COORD_LIMIT * vs.len()) by (nonlinear_arith);
    crate::geom::lemma_tdiv_bound(coord_sum(vs).0, vs.len() as int, COORD_LIMIT as int);
    crate::geom::lemma_tdiv_bound(coord_sum(vs).1, vs.len() as int, COORD_LIMIT as int);
    crate::geom::lemma_tdiv_bound(coord_sum(vs).2, vs.len() as int, COORD_LIMIT as int);
}

impl Mesh {
    /// Translate the mesh by the negation of its centroid, so the mean
    /// vertex position lands on the origin; an empty mesh is left as it
    /// is.  An error is returned exactly when some moved coordinate
    /// would leave the representable range.
    pub fn center(self) -> (r: Result<Mesh, TransformError>)
        requires
            self.wf(),
        ensures
            match r {
                Ok(m) => if self.vertices@.len() == 0 {
                    m == self
                } else {
                    let cen = spec_centroid(self.vertices@);
                    &&& Some(m.vertices@) == spec_displace_all(
                        self.vertices@,
                        (-cen.0) as i64,
                        (-cen.1) as i64,
                        (-cen.2) as i64,
                    )
                    &&& m.faces@ == self.faces@
                    &&& m.wf()
                },
                Err(e) => {
                    &&& e == TransformError::OutOfRange
                    &&& self.vertices@.len() > 0
                    &&& ({
                        let cen = spec_centroid(self.vertices@);
                        spec_displace_all(
                            self.vertices@,
                            (-cen.0) as i64,
                            (-cen.1) as i64,
                            (-cen.2) as i64,
                        ) is None
                    })
                },
            },
    {
        if self.vertices.len() == 0 {
            return Ok(self);
        }
        let lim = COORD_LIMIT as i128;
        let mut sx: i128 = 0;
        let mut sy: i128 = 0;
        let mut sz: i128 = 0;
        let mut i: usize = 0;
        while i < self.vertices.len()
            invariant
                self.wf(),
                i <= self.vertices@.len(),
                (sx as int, sy as int, sz as int) == coord_sum(self.vertices@.take(i as int)),
                -(i * COORD_LIMIT) <= sx as int <= i * COORD_LIMIT,
                -(i * COORD_LIMIT) <= sy as int <= i * COORD_LIMIT,
                -(i * COORD_LIMIT) <= sz as int <= i * COORD_LIMIT,
            decreases self.vertices@.len() - i,
        {
            let v = self.vertices[i];
            proof {
                assert(self.vertices@.take(i + 1).drop_last() =~= self.vertices@.take(i as int));
                assert((i + 1) * COORD_LIMIT == i * COORD_LIMIT + COORD_LIMIT)
                    by (nonlinear_arith);
            }
            sx = sx + v.x as i128;
            sy = sy + v.y as i128;
            sz = sz + v.z as i128;
            i += 1;
        }
        proof {
            assert(self.vertices@.take(self.vertices@.len() as int) =~= self.vertices@);
            lemma_centroid_in_range(self.vertices@);
            assert(self.vertices@.len() * COORD_LIMIT == COORD_LIMIT * self.vertices@.len())
                by (nonlinear_arith);
            crate::geom::lemma_tdiv_bound(sx as int, self.vertices@.len() as int, COORD_LIMIT as int);
            crate::geom::lemma_tdiv_bound(sy as int, self.vertices@.len() as int, COORD_LIMIT as int);
            crate::geom::lemma_tdiv_bound(sz as int, self.vertices@.len() as int, COORD_LIMIT as int);
        }
        let n = self.vertices.len() as i128;
        let cx = div_trunc_i128(sx, n);
        let cy = div_trunc_i128(sy, n);
        let cz = div_trunc_i128(sz, n);
        self.displace(-(cx as i64), -(cy as i64), -(cz as i64))
    }
}

impl Transform {
    /// Scale factors must be non-zero, so the inverse-transpose normal
    /// transform exists.
    pub open spec fn wf(&self) -> bool {
        match *self {
            Transform::Scale(x, y, z) => x != 0 && y != 0 && z != 0,
            Transform::Homothety(s) => s != 0,
            _ => true,
        }
    }
}

/// One transform applied to a mesh's vertices and faces, or nothing on
/// range overflow.
pub open spec fn spec_apply(vs: Seq<Vertex>, fs: Seq<Face>, t: Transform) -> Option<
    (Seq<Vertex>, Seq<Face>),
> {
    match t {
        Transform::Center => if vs.len() == 0 {
            Some((vs, fs))
        } else {
            let cen = spec_centroid(vs);
            match spec_displace_all(vs, (-cen.0) as i64, (-cen.1) as i64, (-cen.2) as i64) {
                Some(v2) => Some((v2, fs)),
                None => None,
            }
        },
        Transform::Rotate(axis, c, s) => match (
            spec_rotate_vertices(vs, axis, c, s),
            spec_rotate_normals(fs, axis, c, s),
        ) {
            (Some(v2), Some(f2)) => Some((v2, f2)),
            _ => None,
        },
        Transform::Move(x, y, z) => match spec_displace_all(vs, x, y, z) {
            Some(v2) => Some((v2, fs)),
            None => None,
        },
        Transform::Scale(x, y, z) => match (
            spec_scale_all(vs, x, y, z),
            spec_scale_normals(fs, x, y, z),
        ) {
            (Some(v2), Some(f2)) => Some((v2, f2)),
            _ => None,
        },
        Transform::Homothety(s) => match (
            spec_scale_all(vs, s, s, s),
            spec_scale_normals(fs, s, s, s),
        ) {
            (Some(v2), Some(f2)) => Some((v2, f2)),
            _ => None,
        },
    }
}

/// A whole transform list applied in order, or nothing as soon as one
/// step overflows.
pub open spec fn spec_apply_all(vs: Seq<Vertex>, fs: Seq<Face>, ts: Seq<Transform>) -> Option<
    (Seq<Vertex>, Seq<Face>),
>
    decreases ts.len(),
{
    if ts.len() == 0 {
        Some((vs, fs))
    } else {
        match spec_apply(vs, fs, ts[0]) {
            None => None,
            Some(p) => spec_apply_all(p.0, p.1, ts.drop_first()),
        }
    }
}

/// Apply a list of transforms to a mesh, in list order.
pub fn transformations(mesh: Mesh, transforms: &Vec<Transform>) -> (r: Result<
    Mesh,
    TransformError,
>)
    requires
        mesh.wf(),
        forall|i: int| 0 <= i < transforms@.len() ==> (#[trigger] transforms@[i]).wf(),
    ensures
        match r {
            Ok(m) => {
                &&& Some((m.vertices@, m.faces@)) == spec_apply_all(
                    mesh.vertices@,
                    mesh.faces@,
                    transforms@,
                )
                &&& m.wf()
            },
            Err(e) => {
                &&& e == TransformError::OutOfRange
                &&& spec_apply_all(mesh.vertices@, mesh.faces@, transforms@) is None
            },
        },
{
    let mut m = mesh;
    let mut k: usize = 0;
    proof {
        assert(transforms@.skip(0) =~= transforms@);
    }
    while k < transforms.len()
        invariant
            m.wf(),
            k <= transforms@.len(),
            forall|i: int| 0 <= i < transforms@.len() ==> (#[trigger] transforms@[i]).wf(),
            spec_apply_all(mesh.vertices@, mesh.faces@, transforms@) == spec_apply_all(
                m.vertices@,
                m.faces@,
                transforms@.skip(k as int),
            ),
        decreases transforms@.len() - k,
    {
        let ghost pre = m;
        let t = transforms[k];
        proof {
            assert(transforms@.skip(k as int)[0] == transforms@[k as int]);
            assert(transforms@.skip(k as int).drop_first() =~= transforms@.skip(k + 1));
        }
        let step = match t {
            Transform::Center => m.center(),
            Transform::Rotate(axis, c, s) => match axis {
                Axis::X => m.rotate_x(c, s),
                Axis::Y => m.rotate_y(c, s),
                Axis::Z => m.rotate_z(c, s),
            },
            Transform::Move(x, y, z) => m.displace(x, y, z),
            Transform::Scale(x, y, z) => m.scale(x, y, z),
            Transform::Homothety(s) => m.homothety(s),
        };
        m = match step {
            Ok(m2) => m2,
            Err(_) => {
                proof {
                    assert(spec_apply(pre.vertices@, pre.faces@, t) is None);
                }
                return Err(TransformError::OutOfRange);
            },
        };
        proof {
            assert(spec_apply(pre.vertices@, pre.faces@, t) == Some((m.vertices@, m.faces@)));
        }
        k += 1;
    }
    proof {
        assert(transforms@.skip(transforms@.len() as int) =~= Seq::<Transform>::empty());
    }
    Ok(m)
}

/// Translating a mesh so its centroid lands on the origin.
pub trait Center {
    fn center(self) -> Result<Self, TransformError> where Self: Sized;
}

impl Center for Mesh {
    /// The checked entry point for unverified callers: validates the
    /// mesh at runtime, then centers it.
    fn center(self) -> (r: Result<Mesh, TransformError>) {
        if !self.check() {
            return Err(TransformError::InvalidMesh);
        }
        Mesh::center(self)
    }
}

/// Moving a well-formed mesh by `(0, 0, 0)` succeeds and leaves every
/// vertex bit-identical.
pub proof fn lemma_displace_zero_identity(m: Mesh)
    requires
        m.wf(),
    ensures
        spec_displace_all(m.vertices@, 0, 0, 0) == Some(m.vertices@),
{
    let vs = m.vertices@;
    assert forall|i: int| 0 <= i < vs.len() implies displaced_in_range(#[trigger] vs[i], 0, 0, 0) by {
        assert(vertex_in_range(vs[i], COORD_LIMIT));
    }
    assert(vs.map_values(|v: Vertex| spec_displaced(v, 0, 0, 0)) =~= vs);
}

/// Scaling a well-formed mesh by one on every axis succeeds and leaves
/// every vertex and every normal bit-identical.
pub proof fn lemma_scale_one_identity(m: Mesh)
    requires
        m.wf(),
    ensures
        spec_scale_all(m.vertices@, FIX_ONE, FIX_ONE, FIX_ONE) == Some(m.vertices@),
        spec_scale_normals(m.faces@, FIX_ONE, FIX_ONE, FIX_ONE) == Some(m.faces@),
{
    let vs = m.vertices@;
    let fs = m.faces@;
    assert forall|i: int| 0 <= i < vs.len() implies scaled_in_range(#[trigger] vs[i], FIX_ONE, FIX_ONE, FIX_ONE)
        && spec_scaled(vs[i], FIX_ONE, FIX_ONE, FIX_ONE) == vs[i] by {
        lemma_tdiv_gen_mul_exact(vs[i].x as int, FIX_ONE as int);
        lemma_tdiv_gen_mul_exact(vs[i].y as int, FIX_ONE as int);
        lemma_tdiv_gen_mul_exact(vs[i].z as int, FIX_ONE as int);
    }
    assert(vs.map_values(|v: Vertex| spec_scaled(v, FIX_ONE, FIX_ONE, FIX_ONE)) =~= vs);
    assert forall|i: int| 0 <= i < fs.len() implies scaled_normal_in_range(
        (#[trigger] fs[i]).normal,
        FIX_ONE,
        FIX_ONE,
        FIX_ONE,
    ) && spec_scaled_normal(fs[i].normal, FIX_ONE, FIX_ONE, FIX_ONE) == fs[i].normal by {
        lemma_tdiv_gen_mul_exact(fs[i].normal.x as int, FIX_ONE as int);
        lemma_tdiv_gen_mul_exact(fs[i].normal.y as int, FIX_ONE as int);
        lemma_tdiv_gen_mul_exact(fs[i].normal.z as int, FIX_ONE as int);
    }
    assert(fs.map_values(
        |f: Face| Face {
            normal: spec_scaled_normal(f.normal, FIX_ONE, FIX_ONE, FIX_ONE),
            vertices: f.vertices,
        },
    ) =~= fs);
}

/// A rotation by a zero angle about `axis` keeps a vertex bit-identical
/// and within range.
proof fn lemma_rotated_zero(v: Vertex, axis: Axis)
    requires
        vertex_in_range(v, COORD_LIMIT),
    ensures
        rotated_in_range(v, axis, FIX_ONE, 0),
        spec_rotated(v, axis, FIX_ONE, 0) == v,
{
    lemma_tdiv_gen_mul_exact(v.x as int, FIX_ONE as int);
    lemma_tdiv_gen_mul_exact(v.y as int, FIX_ONE as int);
    lemma_tdiv_gen_mul_exact(v.z as int, FIX_ONE as int);
    assert(FIX_ONE * v.x == v.x * FIX_ONE && FIX_ONE * v.y == v.y * FIX_ONE && FIX_ONE * v.z
        == v.z * FIX_ONE) by (nonlinear_arith);
    assert(0 * v.x == 0 && 0 * v.y == 0 && 0 * v.z == 0) by (nonlinear_arith);
}

/// Rotating a well-formed mesh by a zero angle (cosine one, sine zero)
/// succeeds and leaves every vertex and every normal bit-identical,
/// whatever the axis.
pub proof fn lemma_rotate_zero_identity(m: Mesh, axis: Axis)
    requires
        m.wf(),
    ensures
        spec_rotate_vertices(m.vertices@, axis, FIX_ONE, 0) == Some(m.vertices@),
        spec_rotate_normals(m.faces@, axis, FIX_ONE, 0) == Some(m.faces@),
{
    let vs = m.vertices@;
    let fs = m.faces@;
    assert forall|i: int| 0 <= i < vs.len() implies rotated_in_range(#[trigger] vs[i], axis, FIX_ONE, 0)
        && spec_rotated(vs[i], axis, FIX_ONE, 0) == vs[i] by {
        lemma_rotated_zero(vs[i], axis);
    }
    assert(vs.map_values(|v: Vertex| spec_rotated(v, axis, FIX_ONE, 0)) =~= vs);
    assert forall|i: int| 0 <= i < fs.len() implies rotated_in_range(
        (#[trigger] fs[i]).normal,
        axis,
        FIX_ONE,
        0,
    ) && spec_rotated(fs[i].normal, axis, FIX_ONE, 0) == fs[i].normal by {
        lemma_rotated_zero(fs[i].normal, axis);
    }
    assert(fs.map_values(
        |f: Face| Face { normal: spec_rotated(f.normal, axis, FIX_ONE, 0), vertices: f.vertices },
    ) =~= fs);
}

/// A half turn about Z (cosine minus one, sine zero) negates the X and Y
/// coordinates and stays in range.
proof fn lemma_rotated_half_turn(v: Vertex)
    requires
        vertex_in_range(v, COORD_LIMIT),
    ensures
        rotated_in_range(v, Axis::Z, (-FIX_ONE) as i64, 0),
        spec_rotated(v, Axis::Z, (-FIX_ONE) as i64, 0) == (Vertex {
            x: (-v.x) as i64,
            y: (-v.y) as i64,
            z: v.z,
        }),
{
    lemma_tdiv_gen_mul_exact(-(v.x as int), FIX_ONE as int);
    lemma_tdiv_gen_mul_exact(-(v.y as int), FIX_ONE as int);
    assert((-FIX_ONE) * v.x == (-v.x) * FIX_ONE && (-FIX_ONE) * v.y == (-v.y) * FIX_ONE)
        by (nonlinear_arith);
    assert(0 * v.x == 0 && 0 * v.y == 0) by (nonlinear_arith);
}

/// Rotating a well-formed mesh by a half turn about Z twice restores
/// every vertex and every normal exactly.
pub proof fn lemma_rotate_z_half_turn_involution(m: Mesh)
    requires
        m.wf(),
    ensures
        ({
            let once_v = spec_rotate_vertices(m.vertices@, Axis::Z, (-FIX_ONE) as i64, 0);
            let once_f = spec_rotate_normals(m.faces@, Axis::Z, (-FIX_ONE) as i64, 0);
            &&& once_v is Some
            &&& once_f is Some
            &&& spec_rotate_vertices(once_v.unwrap(), Axis::Z, (-FIX_ONE) as i64, 0) == Some(m.vertices@)
            &&& spec_rotate_normals(once_f.unwrap(), Axis::Z, (-FIX_ONE) as i64, 0) == Some(m.faces@)
        }),
{
    let vs = m.vertices@;
    let fs = m.faces@;
    assert forall|i: int| 0 <= i < vs.len() implies rotated_in_range(#[trigger] vs[i], Axis::Z, (-FIX_ONE) as i64, 0) by {
        lemma_rotated_half_turn(vs[i]);
    }
    assert forall|i: int| 0 <= i < fs.len() implies rotated_in_range(
        (#[trigger] fs[i]).normal,
        Axis::Z,
        (-FIX_ONE) as i64,
        0,
    ) by {
        lemma_rotated_half_turn(fs[i].normal);
    }
    let v1 = vs.map_values(|v: Vertex| spec_rotated(v, Axis::Z, (-FIX_ONE) as i64, 0));
    let f1 = fs.map_values(
        |f: Face| Face { normal: spec_rotated(f.normal, Axis::Z, (-FIX_ONE) as i64, 0), vertices: f.vertices },
    );
    assert forall|i: int| 0 <= i < v1.len() implies rotated_in_range(#[trigger] v1[i], Axis::Z, (-FIX_ONE) as i64, 0)
        && spec_rotated(v1[i], Axis::Z, (-FIX_ONE) as i64, 0) == vs[i] by {
        lemma_rotated_half_turn(vs[i]);
        lemma_rotated_half_turn(v1[i]);
    }
    assert(v1.map_values(|v: Vertex| spec_rotated(v, Axis::Z, (-FIX_ONE) as i64, 0)) =~= vs);
    assert forall|i: int| 0 <= i < f1.len() implies rotated_in_range(
        (#[trigger] f1[i]).normal,
        Axis::Z,
        (-FIX_ONE) as i64,
        0,
    ) && spec_rotated(f1[i].normal, Axis::Z, (-FIX_ONE) as i64, 0) == fs[i].normal by {
        lemma_rotated_half_turn(fs[i].normal);
        lemma_rotated_half_turn(f1[i].normal);
    }
    assert(f1.map_values(
        |f: Face| Face { normal: spec_rotated(f.normal, Axis::Z, (-FIX_ONE) as i64, 0), vertices: f.vertices },
    ) =~= fs);
}

} // verus!
