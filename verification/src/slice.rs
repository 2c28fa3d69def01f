//! Slicing: evaluate a stage's lines at a chosen altitude to get raw
//! segments, assemble them into polygons, and drive the whole pipeline at
//! a fixed layer step.

use vstd::prelude::*;

verus! {

use crate::geom::{COORD_LIMIT, SEG_LIMIT, Segment, eval_line, seg_corrected, seg_in_range};
use crate::polygon::{Polygon, polys_ok, spec_build, total_segments, views};
use crate::stage::{Link, Stage, StageIterator, is_next_alt, lemma_max_z_is_highest, links_of, max_z};

/// The raw segment one crossing triangle contributes at altitude `h`.
pub open spec fn seg_of_link(l: Link, h: int) -> Segment {
    Segment { normal: l.normal, a: eval_line(l.line_a, h), b: eval_line(l.line_b, h) }
}

/// All raw segments of a stage at altitude `h`, one per link.
pub open spec fn slice_segments(links: Seq<Link>, h: int) -> Seq<Segment> {
    links.map_values(|l: Link| seg_of_link(l, h))
}

/// One planar cut through the mesh: its altitude and its assembled
/// contour polygons.
#[derive(Clone, Debug, PartialEq)]
pub struct Slice {
    pub height: i64,
    pub polygons: Vec<Polygon>,
}

/// What slicing a stage promises: the polygons are exactly the assembly
/// of the stage's raw segments (one per link, so the segment total is
/// the link count), every polygon is a non-empty chain, and every
/// stored vertex lies in the plane of the slice.
pub open spec fn slice_ok(sl: Slice, links: Seq<Link>) -> bool {
    &&& views(sl.polygons@) == spec_build(slice_segments(links, sl.height as int))
    &&& polys_ok(
        sl.polygons@,
        slice_segments(links, sl.height as int).map_values(|s: Segment| seg_corrected(s)),
    )
    &&& total_segments(sl.polygons@) == links.len()
    &&& forall|p: int, j: int|
        0 <= p < sl.polygons@.len() && 0 <= j < sl.polygons@[p]@.len() ==> ((
        #[trigger] sl.polygons@[p]@[j]).a.z == sl.height && sl.polygons@[p]@[j].b.z == sl.height)
}

impl Stage {
    /// Cut the stage at `height`: each link's two lines are evaluated at
    /// that altitude and the resulting segments are assembled into
    /// polygons.
    pub fn get_slice(&self, height: i64) -> (r: Option<Slice>)
        requires
            self.wf(),
            self.min_height <= height <= self.max_height,
        ensures
            r matches Some(sl) && sl.height == height && slice_ok(sl, self.links@),
    {
        let mut segs: Vec<Segment> = Vec::new();
        let mut i: usize = 0;
        while i < self.links.len()
            invariant
                self.wf(),
                self.min_height <= height <= self.max_height,
                i <= self.links@.len(),
                segs@.len() == i,
                forall|j: int|
                    0 <= j < i ==> #[trigger] segs@[j] == seg_of_link(
                        self.links@[j],
                        height as int,
                    ),
                forall|j: int| 0 <= j < i ==> seg_in_range(#[trigger] segs@[j], SEG_LIMIT),
            decreases self.links@.len() - i,
        {
            let l = self.links[i];
            let pa = l.line_a.at(height);
            let pb = l.line_b.at(height);
            segs.push(Segment { normal: l.normal, a: pa, b: pb });
            i += 1;
        }
        proof {
            assert(segs@ =~= slice_segments(self.links@, height as int));
        }
        let polygons = Polygon::build(segs);
        proof {
            let cs = slice_segments(self.links@, height as int).map_values(
                |s: Segment| seg_corrected(s),
            );
            assert forall|p: int, j: int|
                0 <= p < polygons@.len() && 0 <= j < polygons@[p]@.len() implies ((
            #[trigger] polygons@[p]@[j]).a.z == height && polygons@[p]@[j].b.z == height) by {
                let s = polygons@[p]@[j];
                let k = choose|k: int|
                    0 <= k < cs.len() && crate::polygon::derived_from(s, #[trigger] cs[k]);
                assert(cs[k] == seg_corrected(seg_of_link(self.links@[k], height as int)));
            }
        }
        Some(Slice { height, polygons })
    }
}

/// Produces the slices of a mesh bottom to top at a fixed layer step,
/// skipping across slab boundaries while keeping the Z grid uniform.
#[derive(Clone, Debug)]
pub struct SliceIterator {
    pub stages: StageIterator,
    pub current: Stage,
    pub last_height: i64,
    pub step: i64,
}

impl SliceIterator {
    pub open spec fn wf(&self) -> bool {
        &&& self.stages.wf()
        &&& self.current.wf()
        &&& self.stages.last_height == self.current.max_height
        &&& is_next_alt(
            self.stages.mesh.vertices@,
            self.current.min_height as int,
            self.current.max_height as int,
        )
        &&& self.current.links@ == links_of(
            self.stages.mesh.vertices@,
            self.stages.mesh.faces@,
            self.current.min_height as int,
            self.current.max_height as int,
        )
        &&& -COORD_LIMIT <= self.last_height <= COORD_LIMIT
        &&& self.current.min_height as int <= self.last_height + self.step
        &&& 1 <= self.step <= COORD_LIMIT
    }

    /// The next slice up, one step above the last one; nothing once the
    /// next altitude would leave the mesh.  The grid of emitted
    /// altitudes is uniform even across slab boundaries.
    pub fn next(&mut self) -> (r: Option<Slice>)
        requires
            old(self).wf(),
        ensures
            final(self).wf(),
            final(self).stages.mesh == old(self).stages.mesh,
            final(self).step == old(self).step,
            r.is_none() <==> old(self).last_height + old(self).step >= max_z(
                old(self).stages.mesh.vertices@,
            ),
            match r {
                None => final(self).last_height == old(self).last_height,
                Some(sl) => {
                    &&& sl.height == old(self).last_height + old(self).step
                    &&& final(self).last_height == sl.height
                    &&& slice_ok(sl, final(self).current.links@)
                    &&& final(self).current.min_height <= sl.height
                    &&& sl.height < final(self).current.max_height
                },
            },
    {
        proof {
            lemma_max_z_is_highest(self.stages.mesh.vertices@);
        }
        let height = self.last_height + self.step;
        while height >= self.current.max_height
            invariant
                self.stages.wf(),
                self.current.wf(),
                self.stages.mesh == old(self).stages.mesh,
                self.step == old(self).step,
                self.last_height == old(self).last_height,
                self.stages.last_height == self.current.max_height,
                is_next_alt(
                    self.stages.mesh.vertices@,
                    self.current.min_height as int,
                    self.current.max_height as int,
                ),
                self.current.links@ == links_of(
                    self.stages.mesh.vertices@,
                    self.stages.mesh.faces@,
                    self.current.min_height as int,
                    self.current.max_height as int,
                ),
                height == old(self).last_height + old(self).step,
                -COORD_LIMIT <= self.last_height <= COORD_LIMIT,
                1 <= self.step <= COORD_LIMIT,
                self.current.min_height as int <= height as int,
                self.current.max_height as int <= max_z(self.stages.mesh.vertices@),
            ensures
                self.stages.wf(),
                self.current.wf(),
                self.stages.mesh == old(self).stages.mesh,
                self.step == old(self).step,
                self.last_height == old(self).last_height,
                self.stages.last_height == self.current.max_height,
                is_next_alt(
                    self.stages.mesh.vertices@,
                    self.current.min_height as int,
                    self.current.max_height as int,
                ),
                self.current.links@ == links_of(
                    self.stages.mesh.vertices@,
                    self.stages.mesh.faces@,
                    self.current.min_height as int,
                    self.current.max_height as int,
                ),
                height == old(self).last_height + old(self).step,
                self.current.min_height <= height < self.current.max_height,
            decreases max_z(self.stages.mesh.vertices@) - self.stages.last_height,
        {
            match self.stages.next() {
                None => {
                    // The stages are exhausted: the previous slab top was
                    // already the highest vertex altitude.
                    proof {
                        lemma_max_z_is_highest(self.stages.mesh.vertices@);
                    }
                    return None;
                },
                Some(st) => {
                    proof {
                        lemma_max_z_is_highest(self.stages.mesh.vertices@);
                    }
                    self.current = st;
                },
            }
        }
        proof {
            lemma_max_z_is_highest(self.stages.mesh.vertices@);
        }
        self.last_height = height;
        self.current.get_slice(height)
    }
}

impl StageIterator {
    /// Start slicing at a fixed layer step: the first slice comes one
    /// step above the bottom of the first slab.  Nothing when the mesh
    /// has no slab at all.
    pub fn iter_slices(self, step: i64) -> (r: Option<SliceIterator>)
        requires
            self.wf(),
            1 <= step <= COORD_LIMIT,
        ensures
            match r {
                None => forall|i: int|
                    0 <= i < self.mesh.vertices@.len() ==> (#[trigger] self.mesh.vertices@[i]).z
                        <= self.last_height,
                Some(it) => {
                    &&& it.wf()
                    &&& it.stages.mesh == self.mesh
                    &&& it.step == step
                    &&& it.last_height == it.current.min_height
                    &&& it.current.min_height == self.last_height
                },
            },
    {
        let mut stages = self;
        let ghost before = stages;
        let current = match stages.next() {
            None => {
                proof {
                    assert(forall|i: int|
                        0 <= i < self.mesh.vertices@.len() ==> (#[trigger] before.mesh.vertices@[
                            i
                        ]).z <= self.last_height);
                }
                return None;
            },
            Some(st) => st,
        };
        let last_height = current.min_height;
        Some(SliceIterator { stages, current, last_height, step })
    }
}

} // verus!
