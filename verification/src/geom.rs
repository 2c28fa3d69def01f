//! Geometry primitives: fixed-point vertices, oriented segments, and the
//! parametric lines a slab stores for each crossing triangle edge.

use vstd::prelude::*;

verus! {

use vstd::arithmetic::div_mod::{
    lemma_div_is_ordered,
    lemma_div_multiples_vanish,
    lemma_div_pos_is_pos,
};
use vstd::arithmetic::mul::{
    lemma_mul_inequality,
    lemma_mul_nonnegative,
    lemma_mul_unary_negation,
};

/// Largest magnitude a mesh coordinate may have (about 1.07 metres at one
/// unit per millionth of a millimetre).  Keeping mesh coordinates within
/// this bound lets every interpolation and orientation test below run in
/// 128-bit intermediates without overflow.
pub const COORD_LIMIT: i64 = 0x4000_0000;

/// Vertices produced by slicing sit within three times `COORD_LIMIT`;
/// the orientation test accepts anything up to this looser bound.
pub const SEG_LIMIT: i64 = 0x10_0000_0000;

/// Fixed-point scale for transform factors: a scale factor or a cosine of
/// `FIX_ONE` means exactly one.
pub const FIX_ONE: i64 = 0x1_0000;

/// A point in space. Coordinates are fixed-point integers.
#[derive(Clone, Copy, Debug, PartialEq, Eq, Structural)]
pub struct Vertex {
    pub x: i64,
    pub y: i64,
    pub z: i64,
}

pub open spec fn coord_in_range(c: i64, bound: i64) -> bool {
    -bound <= c <= bound
}

pub open spec fn vertex_in_range(v: Vertex, bound: i64) -> bool {
    coord_in_range(v.x, bound) && coord_in_range(v.y, bound) && coord_in_range(v.z, bound)
}

/// Componentwise equality of two vertices.  Coordinates are exact
/// integers, so the tolerance the pipeline needs for endpoint matching is
/// exact equality: at this resolution any float-era epsilon is below one
/// unit.
pub fn equal_vertices(a: Vertex, b: Vertex) -> (r: bool)
    ensures
        r == (a == b),
{
    a.x == b.x && a.y == b.y && a.z == b.z
}

/// An oriented line segment `a -> b` carrying the surface normal of the
/// triangle it was cut from.
#[derive(Clone, Copy, Debug, PartialEq, Eq, Structural)]
pub struct Segment {
    pub normal: Vertex,
    pub a: Vertex,
    pub b: Vertex,
}

/// The same segment traversed the other way.
pub open spec fn seg_rev(s: Segment) -> Segment {
    Segment { normal: s.normal, a: s.b, b: s.a }
}

pub open spec fn seg_in_range(s: Segment, bound: i64) -> bool {
    vertex_in_range(s.a, bound) && vertex_in_range(s.b, bound) && vertex_in_range(s.normal, bound)
}

/// Orientation test in the slice plane: positive when the normal, seen as
/// a point, lies to the left of the directed segment `a -> b`.
pub open spec fn det2(s: Segment) -> int {
    (s.b.x - s.a.x) * (s.normal.y - s.a.y) - (s.b.y - s.a.y) * (s.normal.x - s.a.x)
}

/// A segment after orientation correction: reversed exactly when the
/// normal lay to its right.
pub open spec fn seg_corrected(s: Segment) -> Segment {
    if det2(s) < 0 {
        seg_rev(s)
    } else {
        s
    }
}

impl Segment {
    /// Swap the two endpoints in place.
    pub fn reverse(&mut self)
        ensures
            *final(self) == seg_rev(*old(self)),
    {
        let t = self.a;
        self.a = self.b;
        self.b = t;
    }

    /// Flip the segment if needed so that its own normal lies to the left
    /// of `a -> b`: all segments of one closed contour then agree on a
    /// traversal direction.
    pub fn correct_direction(&mut self)
        requires
            seg_in_range(*old(self), SEG_LIMIT),
        ensures
            *final(self) == seg_corrected(*old(self)),
    {
        let bax = self.b.x - self.a.x;
        let bay = self.b.y - self.a.y;
        let nax = self.normal.x - self.a.x;
        let nay = self.normal.y - self.a.y;
        proof {
            lemma_mul_bound(bax as int, nay as int, 2 * SEG_LIMIT as int, 2 * SEG_LIMIT as int);
            lemma_mul_bound(bay as int, nax as int, 2 * SEG_LIMIT as int, 2 * SEG_LIMIT as int);
        }
        let det: i128 = (bax as i128) * (nay as i128) - (bay as i128) * (nax as i128);
        if det < 0 {
            let t = self.a;
            self.a = self.b;
            self.b = t;
        }
    }
}

/// A 2-D line parametric in Z, stored as a base point and an exact
/// direction `(dx, dy, dz)` with `dz > 0`: the XY slope per unit of Z is
/// `(dx / dz, dy / dz)`.  Derived from a non-horizontal segment; a
/// horizontal segment (`dz == 0`) has no such line and must be filtered
/// out by the caller.
#[derive(Clone, Copy, Debug, PartialEq, Eq, Structural)]
pub struct Line {
    pub offset: Vertex,
    pub dx: i64,
    pub dy: i64,
    pub dz: i64,
}

/// The line through `p` and `q`, based at `p`.
pub open spec fn line_of(p: Vertex, q: Vertex) -> Line {
    Line {
        offset: p,
        dx: (q.x - p.x) as i64,
        dy: (q.y - p.y) as i64,
        dz: (q.z - p.z) as i64,
    }
}

/// A line fit to be evaluated anywhere in `[lo, hi]`: it rises strictly,
/// starts at or below `lo`, and ends at or above `hi`.
pub open spec fn line_wf(ln: Line, lo: int, hi: int) -> bool {
    &&& vertex_in_range(ln.offset, COORD_LIMIT)
    &&& 1 <= ln.dz <= 2 * COORD_LIMIT
    &&& -2 * COORD_LIMIT <= ln.dx <= 2 * COORD_LIMIT
    &&& -2 * COORD_LIMIT <= ln.dy <= 2 * COORD_LIMIT
    &&& ln.offset.z <= lo
    &&& hi <= ln.offset.z + ln.dz
}

/// Where the line crosses the plane `z == h`.
pub open spec fn eval_line(ln: Line, h: int) -> Vertex {
    Vertex {
        x: (ln.offset.x + tdiv(ln.dx * (h - ln.offset.z), ln.dz as int)) as i64,
        y: (ln.offset.y + tdiv(ln.dy * (h - ln.offset.z), ln.dz as int)) as i64,
        z: h as i64,
    }
}

impl Line {
    /// The parametric line through a segment's endpoints, based at the
    /// lower one.
    pub fn from(seg: &Segment) -> (l: Line)
        requires
            vertex_in_range(seg.a, COORD_LIMIT),
            vertex_in_range(seg.b, COORD_LIMIT),
            seg.a.z < seg.b.z,
        ensures
            l == line_of(seg.a, seg.b),
    {
        Line {
            offset: seg.a,
            dx: seg.b.x - seg.a.x,
            dy: seg.b.y - seg.a.y,
            dz: seg.b.z - seg.a.z,
        }
    }

    /// Evaluate the line at altitude `h`, which must lie within the span
    /// the line was built to cover.
    pub fn at(&self, h: i64) -> (p: Vertex)
        requires
            line_wf(*self, h as int, h as int),
        ensures
            p == eval_line(*self, h as int),
            vertex_in_range(p, SEG_LIMIT),
    {
        let t = h - self.offset.z;
        let qx = mul_div_trunc(self.dx, t, self.dz);
        let qy = mul_div_trunc(self.dy, t, self.dz);
        Vertex { x: self.offset.x + qx, y: self.offset.y + qy, z: h }
    }
}

/// Reversing a segment negates its orientation test.
pub proof fn lemma_det2_rev(s: Segment)
    by (nonlinear_arith)
    ensures
        det2(seg_rev(s)) == -det2(s),
{
}

/// After orientation correction the normal never lies to the right: the
/// per-segment half of consistent winding.
pub proof fn lemma_corrected_orientation(s: Segment)
    ensures
        det2(seg_corrected(s)) >= 0,
{
    if det2(s) < 0 {
        lemma_det2_rev(s);
    }
}

/// `|a * b| <= m * n` whenever `|a| <= m` and `|b| <= n`.
pub proof fn lemma_mul_bound(a: int, b: int, m: int, n: int)
    by (nonlinear_arith)
    requires
        -m <= a <= m,
        -n <= b <= n,
        0 <= m,
        0 <= n,
    ensures
        -(m * n) <= a * b <= m * n,
{
}

/// Division truncating toward zero, the rounding executable integer
/// division uses; spec-level `/` is Euclidean, so negative numerators go
/// through their magnitude.
pub open spec fn tdiv(n: int, d: int) -> int {
    if n >= 0 {
        n / d
    } else {
        -((-n) / d)
    }
}

/// Truncating division keeps quotients within any multiple bound on the
/// numerator.
pub proof fn lemma_tdiv_bound(n: int, d: int, m: int)
    requires
        0 < d,
        0 <= m,
        -(m * d) <= n <= m * d,
    ensures
        -m <= tdiv(n, d) <= m,
{
    assert(m * d == d * m) by (nonlinear_arith);
    if n >= 0 {
        lemma_div_pos_is_pos(n, d);
        lemma_div_is_ordered(n, d * m, d);
        lemma_div_multiples_vanish(m, d);
    } else {
        lemma_div_pos_is_pos(-n, d);
        lemma_div_is_ordered(-n, d * m, d);
        lemma_div_multiples_vanish(m, d);
    }
}

/// Dividing an exact multiple truncates to nothing: `tdiv(a * d, d) == a`.
pub proof fn lemma_tdiv_mul_exact(a: int, d: int)
    requires
        0 < d,
    ensures
        tdiv(a * d, d) == a,
{
    assert(a * d == d * a && (-a) * d == d * (-a)) by (nonlinear_arith);
    lemma_div_multiples_vanish(a, d);
    lemma_mul_unary_negation(a, d);
    lemma_div_multiples_vanish(-a, d);
    if a >= 0 {
        lemma_mul_nonnegative(a, d);
    } else {
        lemma_mul_nonnegative(-a, d);
        assert(a * d < 0) by (nonlinear_arith)
            requires
                a < 0,
                0 < d,
        ;
    }
}

/// Compute `tdiv(a * t, d)` without overflow, for an interpolation
/// parameter `0 <= t <= d`.
pub fn mul_div_trunc(a: i64, t: i64, d: i64) -> (q: i64)
    requires
        0 < d <= SEG_LIMIT,
        0 <= t <= d,
        -SEG_LIMIT <= a <= SEG_LIMIT,
    ensures
        q == tdiv(a * t, d as int),
        if a >= 0 {
            0 <= q <= a
        } else {
            a <= q <= 0
        },
{
    let neg = a < 0;
    let mag: u64 = if neg {
        (-(a as i128)) as u64
    } else {
        a as u64
    };
    proof {
        lemma_mul_bound(mag as int, t as int, SEG_LIMIT as int, SEG_LIMIT as int);
        lemma_mul_nonnegative(mag as int, t as int);
        lemma_mul_inequality(t as int, d as int, mag as int);
        lemma_div_is_ordered(mag as int * t as int, mag as int * d as int, d as int);
        lemma_div_multiples_vanish(mag as int, d as int);
        lemma_div_pos_is_pos(mag as int * t as int, d as int);
    }
    let prod: u128 = (mag as u128) * (t as u128);
    let uq: u128 = prod / (d as u128);
    proof {
        if neg {
            lemma_mul_unary_negation(a as int, t as int);
        }
    }
    if neg {
        -(uq as i64)
    } else {
        uq as i64
    }
}

} // verus!
