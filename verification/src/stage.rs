//! Stage decomposition: the Z axis of a mesh is partitioned at every
//! distinct vertex altitude into slabs, inside which the triangle/plane
//! intersection topology does not change.  A stage records, for each
//! triangle crossing its slab, the two parametric lines the slicer will
//! evaluate.

use vstd::prelude::*;

verus! {

use crate::geom::{COORD_LIMIT, Line, Segment, Vertex, line_of, line_wf, vertex_in_range};
use crate::mesh::{Face, Mesh, is_highest_z, is_lowest_z};

/// The greatest vertex altitude, as a spec value; `0` for an empty list.
pub open spec fn max_z(vs: Seq<Vertex>) -> int
    decreases vs.len(),
{
    if vs.len() == 0 {
        0
    } else if vs.len() == 1 {
        vs[0].z as int
    } else {
        let m = max_z(vs.drop_last());
        if vs.last().z > m {
            vs.last().z as int
        } else {
            m
        }
    }
}

/// On a non-empty list, `max_z` is the greatest altitude.
pub proof fn lemma_max_z_is_highest(vs: Seq<Vertex>)
    requires
        vs.len() > 0,
    ensures
        is_highest_z(vs, max_z(vs)),
    decreases vs.len(),
{
    if vs.len() == 1 {
        assert(vs[0].z == max_z(vs));
    } else {
        let prefix = vs.drop_last();
        lemma_max_z_is_highest(prefix);
        let m = max_z(prefix);
        assert(forall|i: int| 0 <= i < prefix.len() ==> #[trigger] vs[i] == prefix[i]);
        if vs.last().z > m {
            assert(vs[vs.len() - 1].z == max_z(vs));
        } else {
            let j = choose|j: int| 0 <= j < prefix.len() && (#[trigger] prefix[j]).z == m;
            assert(vs[j].z == max_z(vs));
        }
    }
}

/// The record a stage keeps for one crossing triangle: the lines of its
/// two crossing edges and the triangle's surface normal.
#[derive(Clone, Copy, Debug, PartialEq, Eq, Structural)]
pub struct Link {
    pub line_a: Line,
    pub line_b: Line,
    pub normal: Vertex,
}

pub open spec fn link_wf(l: Link, lo: int, hi: int) -> bool {
    &&& line_wf(l.line_a, lo, hi)
    &&& line_wf(l.line_b, lo, hi)
    &&& vertex_in_range(l.normal, COORD_LIMIT)
}

/// A Z slab `[min_height, max_height]` and the crossing records of every
/// triangle whose altitude range straddles it.
#[derive(Clone, Debug, PartialEq)]
pub struct Stage {
    pub min_height: i64,
    pub max_height: i64,
    pub links: Vec<Link>,
}

impl Stage {
    pub open spec fn wf(&self) -> bool {
        &&& self.min_height < self.max_height
        &&& forall|i: int|
            0 <= i < self.links@.len() ==> link_wf(
                #[trigger] self.links@[i],
                self.min_height as int,
                self.max_height as int,
            )
    }
}

/// `hi` is the least vertex altitude strictly above `lo`.
pub open spec fn is_next_alt(vs: Seq<Vertex>, lo: int, hi: int) -> bool {
    &&& lo < hi
    &&& exists|i: int| 0 <= i < vs.len() && (#[trigger] vs[i]).z == hi
    &&& forall|i: int| 0 <= i < vs.len() && (#[trigger] vs[i]).z > lo ==> vs[i].z >= hi
}

/// The `k`-th corner of face `f`, resolved through the vertex list.
pub open spec fn fv(vs: Seq<Vertex>, f: Face, k: int) -> Vertex {
    vs[f.vertices[k] as int]
}

/// A triangle contributes to the slab `[lo, hi]` exactly when some corner
/// reaches the slab top, some corner reaches the slab floor, and the
/// triangle is not horizontal.
pub open spec fn face_crosses(vs: Seq<Vertex>, f: Face, lo: int, hi: int) -> bool {
    let v0 = fv(vs, f, 0);
    let v1 = fv(vs, f, 1);
    let v2 = fv(vs, f, 2);
    &&& (v0.z >= hi || v1.z >= hi || v2.z >= hi)
    &&& (v0.z <= lo || v1.z <= lo || v2.z <= lo)
    &&& !(v0.z == v1.z && v1.z == v2.z)
}

/// The three corners ordered bottom to top by altitude, ties keeping
/// their original order.
pub open spec fn sort3(v0: Vertex, v1: Vertex, v2: Vertex) -> (Vertex, Vertex, Vertex) {
    if v0.z <= v1.z {
        if v1.z <= v2.z {
            (v0, v1, v2)
        } else if v0.z <= v2.z {
            (v0, v2, v1)
        } else {
            (v2, v0, v1)
        }
    } else {
        if v0.z <= v2.z {
            (v1, v0, v2)
        } else if v1.z <= v2.z {
            (v1, v2, v0)
        } else {
            (v2, v1, v0)
        }
    }
}

/// The crossing record of one triangle, with corners `a <= b <= c` by
/// altitude: a flat-bottomed triangle, or one whose middle corner sits at
/// or below the slab floor, is crossed along the edges `(a,c)` and
/// `(b,c)`; any other triangle along `(a,b)` and `(a,c)`.
pub open spec fn link_of(vs: Seq<Vertex>, f: Face, lo: int) -> Link {
    let s = sort3(fv(vs, f, 0), fv(vs, f, 1), fv(vs, f, 2));
    let a = s.0;
    let b = s.1;
    let c = s.2;
    if a.z == b.z || b.z <= lo {
        Link { line_a: line_of(a, c), line_b: line_of(b, c), normal: f.normal }
    } else {
        Link { line_a: line_of(a, b), line_b: line_of(a, c), normal: f.normal }
    }
}

/// The crossing records of every face that crosses the slab, in face
/// order.
pub open spec fn links_of(vs: Seq<Vertex>, fs: Seq<Face>, lo: int, hi: int) -> Seq<Link>
    decreases fs.len(),
{
    if fs.len() == 0 {
        Seq::empty()
    } else {
        let rest = links_of(vs, fs.drop_last(), lo, hi);
        if face_crosses(vs, fs.last(), lo, hi) {
            rest.push(link_of(vs, fs.last(), lo))
        } else {
            rest
        }
    }
}

/// How many faces cross the slab `[lo, hi]`.
pub open spec fn crossing_count(vs: Seq<Vertex>, fs: Seq<Face>, lo: int, hi: int) -> nat
    decreases fs.len(),
{
    if fs.len() == 0 {
        0
    } else {
        crossing_count(vs, fs.drop_last(), lo, hi) + if face_crosses(vs, fs.last(), lo, hi) {
            1nat
        } else {
            0nat
        }
    }
}

/// A stage holds exactly one link per crossing, non-flat triangle: the
/// number of links equals the number of faces whose altitude range
/// straddles the slab.
pub proof fn lemma_stage_link_count(vs: Seq<Vertex>, fs: Seq<Face>, lo: int, hi: int)
    ensures
        links_of(vs, fs, lo, hi).len() == crossing_count(vs, fs, lo, hi),
    decreases fs.len(),
{
    if fs.len() > 0 {
        lemma_stage_link_count(vs, fs.drop_last(), lo, hi);
    }
}

/// The three corners sorted bottom to top by altitude.
fn sort3_by_z(v0: Vertex, v1: Vertex, v2: Vertex) -> (t: (Vertex, Vertex, Vertex))
    ensures
        t == sort3(v0, v1, v2),
{
    if v0.z <= v1.z {
        if v1.z <= v2.z {
            (v0, v1, v2)
        } else if v0.z <= v2.z {
            (v0, v2, v1)
        } else {
            (v2, v0, v1)
        }
    } else {
        if v0.z <= v2.z {
            (v1, v0, v2)
        } else if v1.z <= v2.z {
            (v1, v2, v0)
        } else {
            (v2, v1, v0)
        }
    }
}

impl Mesh {
    /// Build the slab that starts at `min_height`: its top is the least
    /// vertex altitude strictly above, and its links are the crossing
    /// records of every straddling triangle.  Nothing is returned once no
    /// vertex lies above `min_height`.
    pub fn get_stage(&self, min_height: i64) -> (r: Option<Stage>)
        requires
            self.wf(),
        ensures
            match r {
                None => forall|i: int|
                    0 <= i < self.vertices@.len() ==> (#[trigger] self.vertices@[i]).z
                        <= min_height,
                Some(st) => {
                    &&& st.min_height == min_height
                    &&& is_next_alt(self.vertices@, min_height as int, st.max_height as int)
                    &&& st.links@ == links_of(
                        self.vertices@,
                        self.faces@,
                        min_height as int,
                        st.max_height as int,
                    )
                    &&& st.wf()
                },
            },
    {
        // Find the top of the slab: the least altitude strictly above the
        // floor.
        let mut upper: Option<i64> = None;
        let mut i: usize = 0;
        while i < self.vertices.len()
            invariant
                i <= self.vertices@.len(),
                match upper {
                    None => forall|j: int|
                        0 <= j < i ==> (#[trigger] self.vertices@[j]).z <= min_height,
                    Some(u) => {
                        &&& u > min_height
                        &&& exists|j: int| 0 <= j < i && (#[trigger] self.vertices@[j]).z == u
                        &&& forall|j: int|
                            0 <= j < i && (#[trigger] self.vertices@[j]).z > min_height
                                ==> self.vertices@[j].z >= u
                    },
                },
            decreases self.vertices@.len() - i,
        {
            let z = self.vertices[i].z;
            if z > min_height {
                upper = match upper {
                    None => Some(z),
                    Some(u) => if z < u {
                        Some(z)
                    } else {
                        Some(u)
                    },
                };
            }
            i += 1;
        }
        let max_height = match upper {
            None => {
                return None;
            },
            Some(u) => u,
        };

        // Collect one link per crossing triangle.
        let mut links: Vec<Link> = Vec::new();
        let mut k: usize = 0;
        while k < self.faces.len()
            invariant
                self.wf(),
                k <= self.faces@.len(),
                min_height < max_height,
                is_next_alt(self.vertices@, min_height as int, max_height as int),
                links@ == links_of(
                    self.vertices@,
                    self.faces@.take(k as int),
                    min_height as int,
                    max_height as int,
                ),
                forall|i: int|
                    0 <= i < links@.len() ==> link_wf(
                        #[trigger] links@[i],
                        min_height as int,
                        max_height as int,
                    ),
            decreases self.faces@.len() - k,
        {
            let f = self.faces[k];
            let v0 = self.vertices[f.vertices[0]];
            let v1 = self.vertices[f.vertices[1]];
            let v2 = self.vertices[f.vertices[2]];
            let above = v0.z >= max_height || v1.z >= max_height || v2.z >= max_height;
            let below = v0.z <= min_height || v1.z <= min_height || v2.z <= min_height;
            let flat = v0.z == v1.z && v1.z == v2.z;
            if above && below && !flat {
                let (a, b, c) = sort3_by_z(v0, v1, v2);
                let link = if a.z == b.z || b.z <= min_height {
                    Link {
                        line_a: Line::from(&Segment { normal: f.normal, a, b: c }),
                        line_b: Line::from(&Segment { normal: f.normal, a: b, b: c }),
                        normal: f.normal,
                    }
                } else {
                    Link {
                        line_a: Line::from(&Segment { normal: f.normal, a, b }),
                        line_b: Line::from(&Segment { normal: f.normal, a, b: c }),
                        normal: f.normal,
                    }
                };
                links.push(link);
                proof {
                    assert(link == link_of(self.vertices@, self.faces@[k as int], min_height as int));
                }
            }
            proof {
                assert(self.faces@.take(k + 1).drop_last() =~= self.faces@.take(k as int));
                assert(self.faces@.take(k + 1).last() == self.faces@[k as int]);
            }
            k += 1;
        }
        proof {
            assert(self.faces@.take(self.faces@.len() as int) =~= self.faces@);
        }
        Some(Stage { min_height, max_height, links })
    }

    /// All slabs of the mesh, bottom to top.  Together they tile
    /// `[lowest, highest]` exactly: the first slab floors at the lowest
    /// vertex altitude, each later slab starts where the one below it
    /// ends, and the last slab tops out at the highest vertex altitude.
    pub fn stages(&self) -> (r: Vec<Stage>)
        requires
            self.wf(),
        ensures
            (r@.len() == 0 <==> (forall|i: int, j: int|
                0 <= i < self.vertices@.len() && 0 <= j < self.vertices@.len()
                    ==> (#[trigger] self.vertices@[i]).z == (#[trigger] self.vertices@[j]).z)),
            r@.len() > 0 ==> is_lowest_z(self.vertices@, r@[0].min_height as int),
            r@.len() > 0 ==> is_highest_z(
                self.vertices@,
                r@[r@.len() - 1].max_height as int,
            ),
            forall|i: int|
                0 <= i < r@.len() ==> {
                    let st = #[trigger] r@[i];
                    &&& st.wf()
                    &&& is_next_alt(self.vertices@, st.min_height as int, st.max_height as int)
                    &&& st.links@ == links_of(
                        self.vertices@,
                        self.faces@,
                        st.min_height as int,
                        st.max_height as int,
                    )
                },
            forall|i: int|
                0 <= i && i + 1 < r@.len() ==> (#[trigger] r@[i + 1]).min_height == r@[
                    i
                ].max_height,
    {
        let mut out: Vec<Stage> = Vec::new();
        let low = match self.lowest() {
            None => {
                return out;
            },
            Some(l) => l,
        };
        proof {
            lemma_max_z_is_highest(self.vertices@);
        }
        let mut last: i64 = low;
        loop
            invariant_except_break
                self.wf(),
                is_lowest_z(self.vertices@, low as int),
                if out@.len() == 0 {
                    last == low
                } else {
                    last == out@[out@.len() - 1].max_height
                },
                last as int <= max_z(self.vertices@),
                exists|i: int|
                    0 <= i < self.vertices@.len() && (#[trigger] self.vertices@[i]).z == last,
                out@.len() > 0 ==> out@[0].min_height == low,
                forall|i: int|
                    0 <= i < out@.len() ==> {
                        let st = #[trigger] out@[i];
                        &&& st.wf()
                        &&& is_next_alt(
                            self.vertices@,
                            st.min_height as int,
                            st.max_height as int,
                        )
                        &&& st.links@ == links_of(
                            self.vertices@,
                            self.faces@,
                            st.min_height as int,
                            st.max_height as int,
                        )
                    },
                forall|i: int|
                    0 <= i && i + 1 < out@.len() ==> (#[trigger] out@[i + 1]).min_height == out@[
                        i
                    ].max_height,
            ensures
                self.wf(),
                if out@.len() == 0 {
                    last == low
                } else {
                    last == out@[out@.len() - 1].max_height
                },
                out@.len() > 0 ==> out@[0].min_height == low,
                forall|i: int|
                    0 <= i < self.vertices@.len() ==> (#[trigger] self.vertices@[i]).z <= last,
                exists|i: int|
                    0 <= i < self.vertices@.len() && (#[trigger] self.vertices@[i]).z == last,
                forall|i: int|
                    0 <= i < out@.len() ==> {
                        let st = #[trigger] out@[i];
                        &&& st.wf()
                        &&& is_next_alt(
                            self.vertices@,
                            st.min_height as int,
                            st.max_height as int,
                        )
                        &&& st.links@ == links_of(
                            self.vertices@,
                            self.faces@,
                            st.min_height as int,
                            st.max_height as int,
                        )
                    },
                forall|i: int|
                    0 <= i && i + 1 < out@.len() ==> (#[trigger] out@[i + 1]).min_height == out@[
                        i
                    ].max_height,
            decreases max_z(self.vertices@) - last,
        {
            match self.get_stage(last) {
                None => {
                    break ;
                },
                Some(st) => {
                    proof {
                        lemma_max_z_is_highest(self.vertices@);
                    }
                    last = st.max_height;
                    out.push(st);
                },
            }
        }
        out
    }
}

/// Produces the slabs of a mesh one at a time, bottom to top.
#[derive(Clone, Debug)]
pub struct StageIterator {
    pub mesh: Mesh,
    pub last_height: i64,
}

impl StageIterator {
    pub open spec fn wf(&self) -> bool {
        &&& self.mesh.wf()
        &&& -COORD_LIMIT <= self.last_height <= COORD_LIMIT
    }

    /// The next slab up, whose floor is the previous slab's top; nothing
    /// once no vertex lies above.
    pub fn next(&mut self) -> (r: Option<Stage>)
        requires
            old(self).wf(),
        ensures
            final(self).wf(),
            final(self).mesh == old(self).mesh,
            match r {
                None => {
                    &&& final(self).last_height == old(self).last_height
                    &&& forall|i: int|
                        0 <= i < old(self).mesh.vertices@.len() ==> (#[trigger] old(
                            self,
                        ).mesh.vertices@[i]).z <= old(self).last_height
                },
                Some(st) => {
                    &&& st.min_height == old(self).last_height
                    &&& is_next_alt(
                        old(self).mesh.vertices@,
                        st.min_height as int,
                        st.max_height as int,
                    )
                    &&& st.links@ == links_of(
                        old(self).mesh.vertices@,
                        old(self).mesh.faces@,
                        st.min_height as int,
                        st.max_height as int,
                    )
                    &&& st.wf()
                    &&& final(self).last_height == st.max_height
                },
            },
    {
        match self.mesh.get_stage(self.last_height) {
            None => None,
            Some(st) => {
                self.last_height = st.max_height;
                Some(st)
            },
        }
    }
}

impl Mesh {
    /// Start iterating slabs from the bottom of the mesh; nothing for an
    /// empty mesh.
    pub fn iter_stages(self) -> (r: Option<StageIterator>)
        requires
            self.wf(),
        ensures
            match r {
                None => self.vertices@.len() == 0,
                Some(it) => {
                    &&& it.mesh == self
                    &&& it.wf()
                    &&& is_lowest_z(self.vertices@, it.last_height as int)
                },
            },
    {
        let low = match self.lowest() {
            None => {
                return None;
            },
            Some(l) => l,
        };
        Some(StageIterator { mesh: self, last_height: low })
    }
}

} // verus!
