//! Polygon assembly: unordered coplanar segments are stitched into
//! ordered chains by endpoint matching, so that consecutive segments
//! share an endpoint and closed contours come out as closed chains.

use vstd::prelude::*;

verus! {

use crate::geom::{
    SEG_LIMIT,
    Segment,
    equal_vertices,
    seg_corrected,
    seg_in_range,
    seg_rev,
};

/// An ordered run of segments; consecutive segments share an endpoint.
#[derive(Clone, Debug, PartialEq)]
pub struct Polygon(Vec<Segment>);

impl View for Polygon {
    type V = Seq<Segment>;

    closed spec fn view(&self) -> Seq<Segment> {
        self.0@
    }
}

/// Consecutive segments share an endpoint: the chain invariant of a
/// polygon.
pub open spec fn chain_ok(s: Seq<Segment>) -> bool {
    forall|i: int| 0 <= i && i + 1 < s.len() ==> (#[trigger] s[i]).b == s[i + 1].a
}

/// The chain bites its own tail.
pub open spec fn closed_chain(s: Seq<Segment>) -> bool {
    s.len() > 0 && s[s.len() - 1].b == s[0].a
}

/// The chain traversed the other way: segment order reversed and every
/// segment flipped, so the chain invariant is kept.
pub open spec fn rev_chain(s: Seq<Segment>) -> Seq<Segment> {
    Seq::new(s.len(), |i: int| seg_rev(s[s.len() - 1 - i]))
}

/// `s` is `t` as it stands or traversed backwards.
pub open spec fn derived_from(s: Segment, t: Segment) -> bool {
    s == t || s == seg_rev(t)
}

/// `s` is one of the segments of `src`, up to traversal direction.
pub open spec fn derived_from_any(s: Segment, src: Seq<Segment>) -> bool {
    exists|k: int| 0 <= k < src.len() && derived_from(s, #[trigger] src[k])
}

/// A non-empty chained polygon whose every segment comes from `src`, up
/// to traversal direction.
pub open spec fn poly_ok(p: Polygon, src: Seq<Segment>) -> bool {
    &&& p@.len() >= 1
    &&& chain_ok(p@)
    &&& forall|j: int| 0 <= j < p@.len() ==> derived_from_any(#[trigger] p@[j], src)
}

/// Every polygon of the collection is chained, non-empty, and assembled
/// from `src`.
pub open spec fn polys_ok(ps: Seq<Polygon>, src: Seq<Segment>) -> bool {
    forall|i: int| 0 <= i < ps.len() ==> poly_ok(#[trigger] ps[i], src)
}

/// How many segments the collection holds in total.
pub open spec fn total_segments(ps: Seq<Polygon>) -> nat
    decreases ps.len(),
{
    if ps.len() == 0 {
        0
    } else {
        total_segments(ps.drop_last()) + ps.last()@.len()
    }
}

proof fn lemma_total_push(ps: Seq<Polygon>, p: Polygon)
    ensures
        total_segments(ps.push(p)) == total_segments(ps) + p@.len(),
{
    assert(ps.push(p).drop_last() =~= ps);
    assert(ps.push(p).last() == p);
}

proof fn lemma_total_insert(ps: Seq<Polygon>, i: int, p: Polygon)
    requires
        0 <= i <= ps.len(),
    ensures
        total_segments(ps.insert(i, p)) == total_segments(ps) + p@.len(),
    decreases ps.len(),
{
    if i == ps.len() {
        assert(ps.insert(i, p) =~= ps.push(p));
        lemma_total_push(ps, p);
    } else {
        let q = ps.insert(i, p);
        assert(q.drop_last() =~= ps.drop_last().insert(i, p));
        assert(q.last() == ps.last());
        lemma_total_insert(ps.drop_last(), i, p);
    }
}

proof fn lemma_total_remove(ps: Seq<Polygon>, i: int)
    requires
        0 <= i < ps.len(),
    ensures
        total_segments(ps.remove(i)) == total_segments(ps) - ps[i]@.len(),
    decreases ps.len(),
{
    if i == ps.len() - 1 {
        assert(ps.remove(i) =~= ps.drop_last());
    } else {
        let q = ps.remove(i);
        assert(q.drop_last() =~= ps.drop_last().remove(i));
        assert(q.last() == ps.last());
        lemma_total_remove(ps.drop_last(), i);
    }
}

proof fn lemma_polys_ok_insert(ps: Seq<Polygon>, i: int, p: Polygon, src: Seq<Segment>)
    requires
        0 <= i <= ps.len(),
        polys_ok(ps, src),
        poly_ok(p, src),
    ensures
        polys_ok(ps.insert(i, p), src),
{
    let q = ps.insert(i, p);
    assert forall|j: int| 0 <= j < q.len() implies poly_ok(#[trigger] q[j], src) by {
        if j < i {
            assert(q[j] == ps[j]);
        } else if j > i {
            assert(q[j] == ps[j - 1]);
        } else {
            assert(q[j] == p);
        }
    }
}

proof fn lemma_polys_ok_remove(ps: Seq<Polygon>, i: int, src: Seq<Segment>)
    requires
        0 <= i < ps.len(),
        polys_ok(ps, src),
    ensures
        polys_ok(ps.remove(i), src),
{
    let q = ps.remove(i);
    assert forall|j: int| 0 <= j < q.len() implies poly_ok(#[trigger] q[j], src) by {
        if j < i {
            assert(q[j] == ps[j]);
        } else {
            assert(q[j] == ps[j + 1]);
        }
    }
}

/// Reversing a chained run from `src` yields a chained run from `src`.
proof fn lemma_rev_chain_ok(s: Seq<Segment>, src: Seq<Segment>)
    requires
        chain_ok(s),
        forall|j: int| 0 <= j < s.len() ==> derived_from_any(#[trigger] s[j], src),
    ensures
        chain_ok(rev_chain(s)),
        forall|j: int|
            0 <= j < rev_chain(s).len() ==> derived_from_any(#[trigger] rev_chain(s)[j], src),
{
    let r = rev_chain(s);
    assert forall|i: int| 0 <= i && i + 1 < r.len() implies (#[trigger] r[i]).b == r[i + 1].a by {
        assert(s[s.len() - 2 - i].b == s[s.len() - 1 - i].a);
    }
    assert forall|j: int| 0 <= j < r.len() implies derived_from_any(#[trigger] r[j], src) by {
        let orig = s[s.len() - 1 - j];
        let k = choose|k: int| 0 <= k < src.len() && derived_from(orig, #[trigger] src[k]);
        assert(derived_from(r[j], src[k]));
    }
}

/// Two chains whose junction endpoints meet concatenate into a chain,
/// still assembled from `src`.
proof fn lemma_concat_ok(a: Seq<Segment>, b: Seq<Segment>, src: Seq<Segment>)
    requires
        chain_ok(a),
        chain_ok(b),
        a.len() >= 1,
        b.len() >= 1,
        a[a.len() - 1].b == b[0].a,
        forall|j: int| 0 <= j < a.len() ==> derived_from_any(#[trigger] a[j], src),
        forall|j: int| 0 <= j < b.len() ==> derived_from_any(#[trigger] b[j], src),
    ensures
        chain_ok(a + b),
        forall|j: int| 0 <= j < (a + b).len() ==> derived_from_any(#[trigger] (a + b)[j], src),
{
    let c = a + b;
    assert forall|i: int| 0 <= i && i + 1 < c.len() implies (#[trigger] c[i]).b == c[i + 1].a by {
        if i + 1 < a.len() {
            assert(c[i] == a[i] && c[i + 1] == a[i + 1]);
        } else if i + 1 == a.len() {
            assert(c[i] == a[i] && c[i + 1] == b[0]);
        } else {
            assert(c[i] == b[i - a.len()] && c[i + 1] == b[i + 1 - a.len()]);
        }
    }
    assert forall|j: int| 0 <= j < c.len() implies derived_from_any(#[trigger] c[j], src) by {
        if j < a.len() {
            assert(c[j] == a[j]);
        } else {
            assert(c[j] == b[j - a.len()]);
        }
    }
}

/// Where a fresh segment attaches to an existing polygon.
#[derive(Clone, Copy, Debug, PartialEq, Eq, Structural)]
enum Push {
    Back,
    Front,
    BackRevert,
    FrontRevert,
}

/// What each attachment action assumes of the polygon's free ends.
spec fn action_matches(p: Seq<Segment>, seg: Segment, act: Push) -> bool {
    p.len() > 0 && match act {
        Push::FrontRevert => seg.a == p[0].a,
        Push::Front => seg.b == p[0].a,
        Push::Back => seg.a == p[p.len() - 1].b,
        Push::BackRevert => seg.b == p[p.len() - 1].b,
    }
}

/// The collection of polygons as plain chains.
pub open spec fn views(ps: Seq<Polygon>) -> Seq<Seq<Segment>> {
    ps.map_values(|p: Polygon| p@)
}

/// How a fresh segment attaches to one chain, if at all: a closed chain
/// accepts nothing; otherwise its front tail and back head are tried in
/// order against the segment's two endpoints.
spec fn spec_match(p: Seq<Segment>, s: Segment) -> Option<Push>
    recommends
        p.len() > 0,
{
    if closed_chain(p) {
        None
    } else if s.a == p[0].a {
        Some(Push::FrontRevert)
    } else if s.b == p[0].a {
        Some(Push::Front)
    } else if s.a == p[p.len() - 1].b {
        Some(Push::Back)
    } else if s.b == p[p.len() - 1].b {
        Some(Push::BackRevert)
    } else {
        None
    }
}

/// The first chain, scanning from `i` on, that the segment attaches to.
spec fn spec_find_from(ps: Seq<Seq<Segment>>, s: Segment, i: int) -> Option<(int, Push)>
    recommends
        0 <= i <= ps.len(),
    decreases ps.len() - i,
{
    if i < 0 || i >= ps.len() {
        None
    } else {
        match spec_match(ps[i], s) {
            Some(act) => Some((i, act)),
            None => spec_find_from(ps, s, i + 1),
        }
    }
}

/// A chain grown by one segment at the chosen end.
spec fn spec_add(p: Seq<Segment>, s: Segment, act: Push) -> Seq<Segment> {
    match act {
        Push::Front => seq![s] + p,
        Push::FrontRevert => seq![seg_rev(s)] + p,
        Push::Back => p.push(s),
        Push::BackRevert => p.push(seg_rev(s)),
    }
}

/// Two chains spliced at whichever free ends meet, the second reversed
/// when their traversal directions disagree.
spec fn spec_merge(a: Seq<Segment>, b: Seq<Segment>) -> Seq<Segment>
    recommends
        a.len() >= 1,
        b.len() >= 1,
        ends_meet(a, b),
{
    if a[a.len() - 1].b == b[0].a {
        a + b
    } else if a[a.len() - 1].b == b[b.len() - 1].b {
        a + rev_chain(b)
    } else if a[0].a == b[b.len() - 1].b {
        b + a
    } else {
        rev_chain(b) + a
    }
}

/// Scan from `j` for the first other open chain whose free end meets
/// the open chain at `at`, and splice the two; the collection is
/// unchanged when none meets or when the chain at `at` has already
/// closed.
spec fn spec_merge_scan(ps: Seq<Seq<Segment>>, at: int, j: int) -> Seq<Seq<Segment>>
    recommends
        0 <= at < ps.len(),
        0 <= j,
    decreases ps.len() - j,
{
    if j < 0 || j >= ps.len() || closed_chain(ps[at]) {
        ps
    } else if j != at && !closed_chain(ps[j]) && ends_meet(ps[at], ps[j]) {
        let merged = spec_merge(ps[at], ps[j]);
        if at < j {
            ps.remove(j).remove(at).insert(at, merged)
        } else {
            ps.remove(at).remove(j).insert(j, merged)
        }
    } else {
        spec_merge_scan(ps, at, j + 1)
    }
}

/// One step of assembly: the segment extends the first chain it
/// attaches to and may then bridge it with one other chain; with no
/// match it starts a chain of its own.
pub closed spec fn spec_assign(ps: Seq<Seq<Segment>>, s: Segment) -> Seq<Seq<Segment>> {
    match spec_find_from(ps, s, 0) {
        None => ps.push(seq![s]),
        Some((i, act)) => spec_merge_scan(ps.update(i, spec_add(ps[i], s, act)), i, 0),
    }
}

pub closed spec fn spec_build_from(ps: Seq<Seq<Segment>>, input: Seq<Segment>, k: int) -> Seq<Seq<Segment>>
    recommends
        0 <= k,
    decreases input.len() - k,
{
    if k < 0 || k >= input.len() {
        ps
    } else {
        spec_build_from(spec_assign(ps, seg_corrected(input[k])), input, k + 1)
    }
}

/// The assembly of a whole segment list, segment by segment in input
/// order, each first orientation-corrected.
pub closed spec fn spec_build(input: Seq<Segment>) -> Seq<Seq<Segment>> {
    spec_build_from(Seq::empty(), input, 0)
}

proof fn lemma_views_push(ps: Seq<Polygon>, p: Polygon)
    ensures
        views(ps.push(p)) =~= views(ps).push(p@),
{
}

proof fn lemma_views_remove(ps: Seq<Polygon>, i: int)
    requires
        0 <= i < ps.len(),
    ensures
        views(ps.remove(i)) =~= views(ps).remove(i),
{
}

proof fn lemma_views_insert(ps: Seq<Polygon>, i: int, p: Polygon)
    requires
        0 <= i <= ps.len(),
    ensures
        views(ps.insert(i, p)) =~= views(ps).insert(i, p@),
{
}

proof fn lemma_views_update(ps: Seq<Polygon>, i: int, p: Polygon)
    requires
        0 <= i < ps.len(),
    ensures
        views(ps.update(i, p)) =~= views(ps).update(i, p@),
{
}

proof fn lemma_scan_keeps_closed(ps: Seq<Seq<Segment>>, at: int, j: int, idx: int)
    requires
        0 <= at < ps.len(),
        0 <= idx < ps.len(),
        idx != at,
        closed_chain(ps[idx]),
        0 <= j,
    ensures
        spec_merge_scan(ps, at, j).contains(ps[idx]),
    decreases ps.len() - j,
{
    if j >= ps.len() || closed_chain(ps[at]) {
        assert(spec_merge_scan(ps, at, j)[idx] == ps[idx]);
    } else if j != at && !closed_chain(ps[j]) && ends_meet(ps[at], ps[j]) {
        let q = spec_merge_scan(ps, at, j);
        // The two spliced chains are open, so neither is the closed one.
        assert(idx != j);
        if at < j {
            let idx1: int = if idx > j {
                idx - 1
            } else {
                idx
            };
            let idx2: int = if idx1 > at {
                idx1 - 1
            } else {
                idx1
            };
            let idx3: int = if idx2 >= at {
                idx2 + 1
            } else {
                idx2
            };
            assert(q[idx3] == ps[idx]);
        } else {
            let idx1: int = if idx > at {
                idx - 1
            } else {
                idx
            };
            let idx2: int = if idx1 > j {
                idx1 - 1
            } else {
                idx1
            };
            let idx3: int = if idx2 >= j {
                idx2 + 1
            } else {
                idx2
            };
            assert(q[idx3] == ps[idx]);
        }
    } else {
        lemma_scan_keeps_closed(ps, at, j + 1, idx);
    }
}

/// A closed contour is final: a chain that has bitten its own tail is
/// untouched by the next assembly step.
pub proof fn lemma_closed_chain_survives_step(ps: Seq<Seq<Segment>>, s: Segment, idx: int)
    requires
        0 <= idx < ps.len(),
        closed_chain(ps[idx]),
    ensures
        spec_assign(ps, s).contains(ps[idx]),
{
    match spec_find_from(ps, s, 0) {
        None => {
            assert(spec_assign(ps, s)[idx] == ps[idx]);
        },
        Some((i, act)) => {
            lemma_find_is_match(ps, s, 0);
            assert(spec_match(ps[i], s) is Some);
            assert(i != idx);
            let ps2 = ps.update(i, spec_add(ps[i], s, act));
            assert(ps2[idx] == ps[idx]);
            lemma_scan_keeps_closed(ps2, i, 0, idx);
        },
    }
}

proof fn lemma_find_is_match(ps: Seq<Seq<Segment>>, s: Segment, j: int)
    requires
        0 <= j,
    ensures
        match spec_find_from(ps, s, j) {
            Some((i, act)) => 0 <= i < ps.len() && spec_match(ps[i], s) == Some(act),
            None => true,
        },
    decreases ps.len() - j,
{
    if j < ps.len() && spec_match(ps[j], s) is None {
        lemma_find_is_match(ps, s, j + 1);
    }
}

/// A closed contour is final through any number of further steps: the
/// rest of the input leaves it among the assembled chains.
pub proof fn lemma_closed_chain_survives_build(
    ps: Seq<Seq<Segment>>,
    input: Seq<Segment>,
    k: int,
    idx: int,
)
    requires
        0 <= k,
        0 <= idx < ps.len(),
        closed_chain(ps[idx]),
    ensures
        spec_build_from(ps, input, k).contains(ps[idx]),
    decreases input.len() - k,
{
    if k >= input.len() {
        assert(spec_build_from(ps, input, k)[idx] == ps[idx]);
    } else {
        let ps2 = spec_assign(ps, seg_corrected(input[k]));
        lemma_closed_chain_survives_step(ps, seg_corrected(input[k]), idx);
        let idx2 = choose|idx2: int| 0 <= idx2 < ps2.len() && ps2[idx2] == ps[idx];
        lemma_closed_chain_survives_build(ps2, input, k + 1, idx2);
    }
}

impl Polygon {
    /// Wrap an already ordered run of segments.
    pub fn new(into: Vec<Segment>) -> (r: Polygon)
        ensures
            r@ == into@,
    {
        Polygon(into)
    }

    /// The ordered segments of the polygon.
    pub fn segments(&self) -> (r: &Vec<Segment>)
        ensures
            r@ == self@,
    {
        &self.0
    }

    /// Give the ordered segments up.
    pub fn into_segments(self) -> (r: Vec<Segment>)
        ensures
            r@ == self@,
    {
        self.0
    }

    /// Whether the last segment's head meets the first segment's tail.
    pub fn is_closed(&self) -> (r: bool)
        ensures
            r == closed_chain(self@),
    {
        if self.0.len() == 0 {
            false
        } else {
            equal_vertices(self.0[self.0.len() - 1].b, self.0[0].a)
        }
    }

    fn first(&self) -> (s: Segment)
        requires
            self@.len() > 0,
        ensures
            s == self@[0],
    {
        self.0[0]
    }

    fn last(&self) -> (s: Segment)
        requires
            self@.len() > 0,
        ensures
            s == self@[self@.len() - 1],
    {
        self.0[self.0.len() - 1]
    }

    /// Reverse the traversal direction: the segment order flips and every
    /// segment swaps its endpoints.
    fn reverse(&mut self)
        ensures
            final(self)@ == rev_chain(old(self)@),
    {
        let n = self.0.len();
        let mut out: Vec<Segment> = Vec::new();
        let mut i: usize = n;
        while i > 0
            invariant
                i <= n,
                n == self.0@.len(),
                self.0@ == old(self).0@,
                out@.len() == n - i,
                forall|j: int|
                    0 <= j < out@.len() ==> #[trigger] out@[j] == seg_rev(self.0@[n - 1 - j]),
            decreases i,
        {
            i -= 1;
            let s = self.0[i];
            out.push(Segment { normal: s.normal, a: s.b, b: s.a });
        }
        self.0 = out;
        proof {
            assert(final(self)@ =~= rev_chain(old(self)@));
        }
    }

    /// Attach a fresh segment at the polygon's matching end.
    fn add_segment(&mut self, segment: Segment, action: Push)
        requires
            old(self)@.len() > 0,
            chain_ok(old(self)@),
            action_matches(old(self)@, segment, action),
        ensures
            final(self)@ == spec_add(old(self)@, segment, action),
            chain_ok(final(self)@),
            final(self)@.len() == old(self)@.len() + 1,
            forall|j: int|
                0 <= j < final(self)@.len() ==> derived_from(#[trigger] final(self)@[j], segment)
                    || exists|j0: int|
                    0 <= j0 < old(self)@.len() && final(self)@[j] == #[trigger] old(self)@[j0],
    {
        match action {
            Push::Front => {
                self.0.insert(0, segment);
                proof {
                    assert(final(self)@ =~= seq![segment] + old(self)@);
                }
            },
            Push::FrontRevert => {
                self.0.insert(0, Segment { normal: segment.normal, a: segment.b, b: segment.a });
                proof {
                    assert(final(self)@ =~= seq![seg_rev(segment)] + old(self)@);
                }
            },
            Push::Back => {
                self.0.push(segment);
            },
            Push::BackRevert => {
                self.0.push(Segment { normal: segment.normal, a: segment.b, b: segment.a });
            },
        }
    }
}

/// The first polygon the segment can attach to, and in which manner.
/// How the segment attaches to one polygon, if at all.  A closed
/// polygon accepts no further segments.
fn match_poly(p: &Polygon, seg: &Segment) -> (r: Option<Push>)
    requires
        p@.len() > 0,
    ensures
        r == spec_match(p@, *seg),
{
    if p.is_closed() {
        return None;
    }
    let first = p.first();
    let last = p.last();
    if equal_vertices(seg.a, first.a) {
        Some(Push::FrontRevert)
    } else if equal_vertices(seg.b, first.a) {
        Some(Push::Front)
    } else if equal_vertices(seg.a, last.b) {
        Some(Push::Back)
    } else if equal_vertices(seg.b, last.b) {
        Some(Push::BackRevert)
    } else {
        None
    }
}

/// The first polygon the segment attaches to, and in which manner.
fn find_match(poly_vec: &Vec<Polygon>, seg: &Segment) -> (r: Option<(usize, Push)>)
    requires
        forall|i: int| 0 <= i < poly_vec@.len() ==> (#[trigger] poly_vec@[i])@.len() >= 1,
    ensures
        match r {
            Some((i, act)) => {
                &&& i < poly_vec@.len()
                &&& action_matches(poly_vec@[i as int]@, *seg, act)
                &&& spec_find_from(views(poly_vec@), *seg, 0) == Some((i as int, act))
            },
            None => spec_find_from(views(poly_vec@), *seg, 0) is None,
        },
{
    let mut i: usize = 0;
    while i < poly_vec.len()
        invariant
            i <= poly_vec@.len(),
            forall|k: int| 0 <= k < poly_vec@.len() ==> (#[trigger] poly_vec@[k])@.len() >= 1,
            spec_find_from(views(poly_vec@), *seg, 0) == spec_find_from(
                views(poly_vec@),
                *seg,
                i as int,
            ),
        decreases poly_vec@.len() - i,
    {
        match match_poly(&poly_vec[i], seg) {
            Some(act) => {
                proof {
                    assert(views(poly_vec@)[i as int] == poly_vec@[i as int]@);
                    assert(spec_match(poly_vec@[i as int]@, *seg) == Some(act));
                }
                return Some((i, act));
            },
            None => {
                proof {
                    assert(views(poly_vec@)[i as int] == poly_vec@[i as int]@);
                }
            },
        }
        i += 1;
    }
    None
}

/// One of the four ways two chains can share a free endpoint.
spec fn ends_meet(a: Seq<Segment>, b: Seq<Segment>) -> bool {
    ||| a[a.len() - 1].b == b[0].a
    ||| a[a.len() - 1].b == b[b.len() - 1].b
    ||| a[0].a == b[b.len() - 1].b
    ||| a[0].a == b[0].a
}

/// Splice two chains whose free ends meet into one chain, reversing one
/// of them when their traversal directions disagree.
fn merge_polys(a: Polygon, b: Polygon, src: Ghost<Seq<Segment>>) -> (r: Polygon)
    requires
        poly_ok(a, src@),
        poly_ok(b, src@),
        ends_meet(a@, b@),
    ensures
        poly_ok(r, src@),
        r@.len() == a@.len() + b@.len(),
        r@ == spec_merge(a@, b@),
{
    let mut a = a;
    let mut b = b;
    if equal_vertices(a.last().b, b.first().a) {
        proof {
            lemma_concat_ok(a@, b@, src@);
        }
        a.0.append(&mut b.0);
        a
    } else if equal_vertices(a.last().b, b.last().b) {
        let ghost b0 = b@;
        b.reverse();
        proof {
            lemma_rev_chain_ok(b0, src@);
            assert(b@[0] == seg_rev(b0[b0.len() - 1]));
            lemma_concat_ok(a@, b@, src@);
        }
        a.0.append(&mut b.0);
        a
    } else if equal_vertices(a.first().a, b.last().b) {
        proof {
            lemma_concat_ok(b@, a@, src@);
        }
        b.0.append(&mut a.0);
        b
    } else {
        let ghost b0 = b@;
        b.reverse();
        proof {
            lemma_rev_chain_ok(b0, src@);
            assert(b@[b@.len() - 1] == seg_rev(b0[0]));
            lemma_concat_ok(b@, a@, src@);
        }
        b.0.append(&mut a.0);
        b
    }
}

/// After a polygon grew at `at`, look for one other polygon whose free
/// end now meets one of its ends, and splice the two; a segment can
/// bridge two previously separate chains.
fn merge_matches(poly_vec: &mut Vec<Polygon>, at: usize, src: Ghost<Seq<Segment>>)
    requires
        at < old(poly_vec)@.len(),
        polys_ok(old(poly_vec)@, src@),
    ensures
        polys_ok(final(poly_vec)@, src@),
        total_segments(final(poly_vec)@) == total_segments(old(poly_vec)@),
        views(final(poly_vec)@) == spec_merge_scan(views(old(poly_vec)@), at as int, 0),
{
    let ghost model = views(old(poly_vec)@);
    proof {
        assert(model[at as int] == poly_vec@[at as int]@);
    }
    if poly_vec[at].is_closed() {
        // A closed contour is final: it splices with nothing.
        return ;
    }
    let mut j: usize = 0;
    while j < poly_vec.len()
        invariant
            at < poly_vec@.len(),
            poly_vec@ == old(poly_vec)@,
            model == views(old(poly_vec)@),
            !closed_chain(model[at as int]),
            polys_ok(poly_vec@, src@),
            spec_merge_scan(model, at as int, 0) == spec_merge_scan(model, at as int, j as int),
        decreases poly_vec@.len() - j,
    {
        proof {
            assert(model[at as int] == poly_vec@[at as int]@);
            assert(model[j as int] == poly_vec@[j as int]@);
        }
        if j != at && !poly_vec[j].is_closed() {
            let a_first = poly_vec[at].first();
            let a_last = poly_vec[at].last();
            let b_first = poly_vec[j].first();
            let b_last = poly_vec[j].last();
            let meet = equal_vertices(a_last.b, b_first.a) || equal_vertices(a_last.b, b_last.b)
                || equal_vertices(a_first.a, b_last.b) || equal_vertices(a_first.a, b_first.a);
            if meet {
                let ghost before = poly_vec@;
                let (p, q, slot) = if at < j {
                    let q = poly_vec.remove(j);
                    let p = poly_vec.remove(at);
                    (p, q, at)
                } else {
                    let p = poly_vec.remove(at);
                    let q = poly_vec.remove(j);
                    (p, q, j)
                };
                proof {
                    if at < j {
                        lemma_total_remove(before, j as int);
                        lemma_total_remove(before.remove(j as int), at as int);
                        lemma_polys_ok_remove(before, j as int, src@);
                        lemma_polys_ok_remove(before.remove(j as int), at as int, src@);
                        lemma_views_remove(before, j as int);
                        lemma_views_remove(before.remove(j as int), at as int);
                        assert(before.remove(j as int)[at as int] == before[at as int]);
                    } else {
                        lemma_total_remove(before, at as int);
                        lemma_total_remove(before.remove(at as int), j as int);
                        lemma_polys_ok_remove(before, at as int, src@);
                        lemma_polys_ok_remove(before.remove(at as int), j as int, src@);
                        lemma_views_remove(before, at as int);
                        lemma_views_remove(before.remove(at as int), j as int);
                        assert(before.remove(at as int)[j as int] == before[j as int]);
                    }
                }
                let merged = merge_polys(p, q, src);
                proof {
                    lemma_total_insert(poly_vec@, slot as int, merged);
                    lemma_polys_ok_insert(poly_vec@, slot as int, merged, src@);
                    lemma_views_insert(poly_vec@, slot as int, merged);
                    if at < j {
                        assert(views(poly_vec@.insert(slot as int, merged)) =~= model.remove(
                            j as int,
                        ).remove(at as int).insert(at as int, merged@));
                    } else {
                        assert(views(poly_vec@.insert(slot as int, merged)) =~= model.remove(
                            at as int,
                        ).remove(j as int).insert(j as int, merged@));
                    }
                }
                poly_vec.insert(slot, merged);
                return ;
            } else {
                proof {
                    assert(!ends_meet(model[at as int], model[j as int]));
                }
            }
        }
        j += 1;
    }
}

/// File one fresh segment into the collection of open polygons: extend
/// the first polygon whose free end it touches (splicing a second one if
/// the segment bridges two chains), or start a new polygon of its own.
fn find_and_assign(poly_vec: &mut Vec<Polygon>, seg: Segment, src: Ghost<Seq<Segment>>)
    requires
        polys_ok(old(poly_vec)@, src@),
        derived_from_any(seg, src@),
    ensures
        polys_ok(final(poly_vec)@, src@),
        total_segments(final(poly_vec)@) == total_segments(old(poly_vec)@) + 1,
        views(final(poly_vec)@) == spec_assign(views(old(poly_vec)@), seg),
{
    let ghost model = views(old(poly_vec)@);
    match find_match(poly_vec, &seg) {
        None => {
            let p = Polygon(vec![seg]);
            proof {
                lemma_total_push(poly_vec@, p);
                lemma_polys_ok_insert(poly_vec@, poly_vec@.len() as int, p, src@);
                assert(poly_vec@.insert(poly_vec@.len() as int, p) =~= poly_vec@.push(p));
                lemma_views_push(poly_vec@, p);
                assert(p@ =~= seq![seg]);
                assert(views(poly_vec@.push(p)) =~= model.push(seq![seg]));
            }
            poly_vec.push(p);
        },
        Some((i, act)) => {
            let ghost before = poly_vec@;
            let mut p = poly_vec.remove(i);
            p.add_segment(seg, act);
            proof {
                lemma_total_remove(before, i as int);
                lemma_polys_ok_remove(before, i as int, src@);
                assert forall|j: int| 0 <= j < p@.len() implies derived_from_any(
                    #[trigger] p@[j],
                    src@,
                ) by {
                    if derived_from(p@[j], seg) {
                        let k = choose|k: int|
                            0 <= k < src@.len() && derived_from(seg, #[trigger] src@[k]);
                        assert(derived_from(p@[j], src@[k]));
                    } else {
                        let j0 = choose|j0: int|
                            0 <= j0 < before[i as int]@.len() && p@[j] == #[trigger] before[
                                i as int
                            ]@[j0];
                        assert(derived_from_any(before[i as int]@[j0], src@));
                    }
                }
                lemma_total_insert(poly_vec@, i as int, p);
                lemma_polys_ok_insert(poly_vec@, i as int, p, src@);
                assert(before.remove(i as int).insert(i as int, p) =~= before.update(i as int, p));
                lemma_views_update(before, i as int, p);
                assert(p@ == spec_add(model[i as int], seg, act));
                assert(views(before.update(i as int, p)) =~= model.update(
                    i as int,
                    spec_add(model[i as int], seg, act),
                ));
            }
            poly_vec.insert(i, p);
            merge_matches(poly_vec, i, src);
        },
    }
}

impl Polygon {
    /// Assemble unordered segments into polygons: each segment is first
    /// oriented so its normal lies to its left, then filed into the
    /// growing chains by endpoint matching.  Every input segment lands in
    /// exactly one polygon — the total number of segments across the
    /// result equals the input count — every polygon is a non-empty
    /// chain, and every stored segment is one of the oriented inputs, up
    /// to traversal direction.
    pub fn build(input: Vec<Segment>) -> (r: Vec<Polygon>)
        requires
            forall|k: int| 0 <= k < input@.len() ==> seg_in_range(#[trigger] input@[k], SEG_LIMIT),
        ensures
            polys_ok(r@, input@.map_values(|s: Segment| seg_corrected(s))),
            total_segments(r@) == input@.len(),
            views(r@) == spec_build(input@),
    {
        let ghost src = input@.map_values(|s: Segment| seg_corrected(s));
        let mut ret: Vec<Polygon> = Vec::new();
        proof {
            assert(views(ret@) =~= Seq::<Seq<Segment>>::empty());
        }
        let mut k: usize = 0;
        while k < input.len()
            invariant
                k <= input@.len(),
                forall|k2: int|
                    0 <= k2 < input@.len() ==> seg_in_range(#[trigger] input@[k2], SEG_LIMIT),
                src == input@.map_values(|s: Segment| seg_corrected(s)),
                polys_ok(ret@, src),
                total_segments(ret@) == k,
                spec_build_from(views(ret@), input@, k as int) == spec_build(input@),
            decreases input@.len() - k,
        {
            let mut seg = input[k];
            seg.correct_direction();
            proof {
                assert(src[k as int] == seg_corrected(input@[k as int]));
                assert(derived_from(seg, src[k as int]));
            }
            find_and_assign(&mut ret, seg, Ghost(src));
            k += 1;
        }
        ret
    }
}

} // verus!
