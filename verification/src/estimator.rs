//! From foreground raster to located robots: clustering of foreground
//! pixels, majority-vote association of detections with clusters, and the
//! centroid/extent statistics of the winning cluster.

use vstd::prelude::*;
use crate::rat::{Rat, spec_div, spec_sub, spec_add};
use crate::vecmat::{Point3, spec_point_add};
use crate::cluster::{dbscan, spec_dbscan_valid, NOISE_ID};
use crate::locator::{Locator, BBox, RobotLocation, RobotDetection};

verus! {

impl Locator {
    /// The foreground pixels of `diff` (in raster order) that unproject to
    /// a representable lidar point, as pairs of raster index and lidar
    /// point. These are the inputs handed to the clustering primitive.
    pub open spec fn spec_cluster_inputs(self, diff: Seq<Rat>, n: int) -> Seq<(int, Point3)>
        decreases n,
    {
        if n <= 0 {
            Seq::empty()
        } else {
            let prev = self.spec_cluster_inputs(diff, n - 1);
            if diff[n - 1].num != 0 {
                let w = self.image_width as int;
                let x = (n - 1) % w;
                let y = (n - 1) / w;
                let p = Point3 {
                    x: Rat { num: x as i64, den: 1 },
                    y: Rat { num: y as i64, den: 1 },
                    z: diff[n - 1],
                };
                match self.spec_camera_to_lidar(p) {
                    None => prev,
                    Some(q) => prev.push((n - 1, q)),
                }
            } else {
                prev
            }
        }
    }
}

/// Every collected cluster input points at a foreground pixel of the
/// raster prefix it was collected from.
pub proof fn lemma_cluster_inputs_props(l: Locator, diff: Seq<Rat>, n: int)
    requires
        0 <= n <= diff.len(),
    ensures
        l.spec_cluster_inputs(diff, n).len() <= n,
        forall|k: int| 0 <= k < l.spec_cluster_inputs(diff, n).len()
            ==> 0 <= (#[trigger] l.spec_cluster_inputs(diff, n)[k]).0 < n
                && diff[l.spec_cluster_inputs(diff, n)[k].0].num != 0,
    decreases n,
{
    if n > 0 {
        lemma_cluster_inputs_props(l, diff, n - 1);
    }
}

/// The lidar points of the collected cluster inputs, in collection order.
pub open spec fn spec_unprojected(s: Seq<(int, Point3)>) -> Seq<Point3> {
    s.map(|k: int, t: (int, Point3)| t.1)
}

/// The label raster assembled from the first `k` cluster inputs: every
/// cell starts as noise, and input `j` writes label `cats[j]` at its
/// raster index.
pub open spec fn spec_apply_cats(s: Seq<(int, Point3)>, cats: Seq<i64>, size: int, k: int)
    -> Seq<i64>
    decreases k,
{
    if k <= 0 {
        Seq::new(size as nat, |i: int| NOISE_ID)
    } else {
        spec_apply_cats(s, cats, size, k - 1).update(s[k - 1].0, cats[k - 1])
    }
}

impl Locator {
    /// Cluster the foreground pixels of one frame and return, per raster
    /// cell, the cluster identifier of that pixel (`NOISE_ID` for
    /// background cells, unclustered foreground, and noise). The raster is
    /// the assembly of some labelling of the unprojected foreground points
    /// that satisfies the density-clustering contract `spec_dbscan_valid`.
    pub fn cluster_and_get_category(&self, difference_depth_map: &Vec<Rat>) -> (r: Vec<i64>)
        requires
            self.wf(),
            difference_depth_map.len() == self.image_width * self.image_height,
            forall|i: int| 0 <= i < difference_depth_map@.len()
                ==> (#[trigger] difference_depth_map@[i]).wf(),
        ensures
            r.len() == self.image_width * self.image_height,
            forall|i: int| 0 <= i < r.len()
                ==> (#[trigger] r[i]) == NOISE_ID || (0 <= r[i] && r[i] < r.len()),
            forall|i: int| 0 <= i < r.len() && difference_depth_map@[i].num == 0
                ==> (#[trigger] r[i]) == NOISE_ID,
            ({
                let s = self.spec_cluster_inputs(
                    difference_depth_map@,
                    (self.image_width * self.image_height) as int,
                );
                exists|cats: Seq<i64>|
                    (#[trigger] spec_dbscan_valid(spec_unprojected(s), self.cluster_epsilon,
                        self.cluster_min_points as int, cats))
                    && r@ == spec_apply_cats(s, cats,
                        (self.image_width * self.image_height) as int, s.len() as int)
            }),
    {
        let size: usize = difference_depth_map.len();
        proof {
            assert((self.image_width as int) * (self.image_height as int)
                <= 0x4000_0000 * 0x4000_0000) by (nonlinear_arith)
                requires
                    self.image_width <= 0x4000_0000,
                    self.image_height <= 0x4000_0000;
        }
        let mut pix: Vec<usize> = Vec::new();
        let mut pts: Vec<Point3> = Vec::new();
        let mut idx: usize = 0;
        while idx < size
            invariant
                idx <= size,
                self.wf(),
                size == self.image_width * self.image_height,
                size <= 0x1000_0000_0000_0000,
                difference_depth_map@.len() == size,
                forall|i: int| 0 <= i < difference_depth_map@.len()
                    ==> (#[trigger] difference_depth_map@[i]).wf(),
                pix.len() == pts.len(),
                pix.len() <= idx,
                pix@.len() == self.spec_cluster_inputs(difference_depth_map@, idx as int).len(),
                forall|k: int| 0 <= k < pix@.len()
                    ==> (#[trigger] self.spec_cluster_inputs(
                        difference_depth_map@, idx as int)[k])
                        == (pix@[k] as int, pts@[k]),
                forall|k: int| 0 <= k < pix@.len() ==> (#[trigger] pix@[k]) < size,
                forall|k: int| 0 <= k < pts@.len() ==> (#[trigger] pts@[k]).wf(),
            decreases size - idx,
        {
            let ghost prev_inputs = self.spec_cluster_inputs(
                difference_depth_map@, idx as int);
            let cell = difference_depth_map[idx];
            if cell.num != 0 {
                proof {
                    assert(self.image_width > 0) by (nonlinear_arith)
                        requires
                            size == self.image_width * self.image_height,
                            idx < size;
                }
                let x: usize = idx % self.image_width;
                let y: usize = idx / self.image_width;
                proof {
                    vstd::arithmetic::div_mod::lemma_div_nonincreasing(
                        idx as int, self.image_width as int);
                    assert(y <= idx);
                }
                let p = Point3 {
                    x: Rat { num: x as i64, den: 1 },
                    y: Rat { num: y as i64, den: 1 },
                    z: cell,
                };
                assert(p.wf());
                match self.camera_to_lidar(&p) {
                    None => {},
                    Some(q) => {
                        pix.push(idx);
                        pts.push(q);
                    },
                }
            }
            idx = idx + 1;
        }
        let ghost s = self.spec_cluster_inputs(difference_depth_map@, size as int);
        proof {
            assert(spec_unprojected(s) =~= pts@);
        }
        let categories = dbscan(&pts, &self.cluster_epsilon, self.cluster_min_points);
        let mut out: Vec<i64> = Vec::new();
        let mut i: usize = 0;
        while i < size
            invariant
                i <= size,
                out.len() == i,
                forall|j: int| 0 <= j < i ==> (#[trigger] out[j]) == NOISE_ID,
            decreases size - i,
        {
            out.push(NOISE_ID);
            i = i + 1;
        }
        proof {
            assert(out@ =~= spec_apply_cats(s, categories@, size as int, 0));
            lemma_cluster_inputs_props(*self, difference_depth_map@, size as int);
            assert forall|j: int| 0 <= j < pix@.len()
                implies difference_depth_map@[pix@[j] as int].num != 0 by {
                assert(self.spec_cluster_inputs(difference_depth_map@, size as int)[j]
                    == (pix@[j] as int, pts@[j]));
            }
        }
        let mut k: usize = 0;
        while k < pix.len()
            invariant
                k <= pix@.len(),
                pix.len() == pts.len(),
                categories.len() == pts.len(),
                out.len() == size,
                size == self.image_width * self.image_height,
                difference_depth_map@.len() == size,
                s == self.spec_cluster_inputs(difference_depth_map@, size as int),
                s.len() == pix@.len(),
                forall|j: int| 0 <= j < pix@.len()
                    ==> (#[trigger] s[j]) == (pix@[j] as int, pts@[j]),
                forall|j: int| 0 <= j < pix@.len() ==> (#[trigger] pix@[j]) < size,
                forall|j: int| 0 <= j < pix@.len()
                    ==> difference_depth_map@[pix@[j] as int].num != 0,
                pts@.len() <= size,
                pts@.len() < 0x4000_0000_0000_0000,
                forall|j: int| 0 <= j < categories@.len()
                    ==> (#[trigger] categories@[j]) == NOISE_ID
                        || (0 <= categories@[j] && categories@[j] < pts@.len()),
                out@ == spec_apply_cats(s, categories@, size as int, k as int),
                forall|j: int| 0 <= j < out.len()
                    ==> (#[trigger] out[j]) == NOISE_ID || (0 <= out[j] && out[j] < size),
                forall|j: int| 0 <= j < out.len() && difference_depth_map@[j].num == 0
                    ==> (#[trigger] out[j]) == NOISE_ID,
            decreases pix@.len() - k,
        {
            let target = pix[k];
            out[target] = categories[k];
            k = k + 1;
        }
        proof {
            assert(spec_dbscan_valid(spec_unprojected(s), self.cluster_epsilon,
                self.cluster_min_points as int, categories@)
                && out@ == spec_apply_cats(s, categories@, size as int, s.len() as int));
        }
        out
    }
}

} // verus!

verus! {

/// The pixel bounds of a bounding box: floor/ceil of the half-extent
/// edges, clamped below at zero. `None` when an exact edge value cannot
/// be represented. The upper bounds are not clamped to the raster here;
/// pixel iteration stops at the raster edge.
pub open spec fn spec_clip_bbox(b: BBox) -> Option<(int, int, int, int)> {
    let two = Rat { num: 2, den: 1 };
    match spec_div(b.width, two) {
        None => None,
        Some(hw) => match spec_sub(b.x_center, hw) {
            None => None,
            Some(x0) => match spec_add(b.x_center, hw) {
                None => None,
                Some(x1) => match spec_div(b.height, two) {
                    None => None,
                    Some(hh) => match spec_sub(b.y_center, hh) {
                        None => None,
                        Some(y0) => match spec_add(b.y_center, hh) {
                            None => None,
                            Some(y1) => Some((
                                crate::rat::spec_floor_clamp0(x0),
                                crate::rat::spec_ceil_clamp0(x1),
                                crate::rat::spec_floor_clamp0(y0),
                                crate::rat::spec_ceil_clamp0(y1),
                            )),
                        },
                    },
                },
            },
        },
    }
}

/// See `spec_clip_bbox`.
pub fn clip_bbox(b: &BBox) -> (r: Option<(u64, u64, u64, u64)>)
    requires
        b.wf(),
    ensures
        r matches Some(t) ==> spec_clip_bbox(*b)
            == Some((t.0 as int, t.1 as int, t.2 as int, t.3 as int)),
        r is None ==> spec_clip_bbox(*b) is None,
{
    let two = Rat { num: 2, den: 1 };
    let hw = match b.width.try_div(&two) {
        Some(v) => v,
        None => return None,
    };
    let x0 = match b.x_center.try_sub(&hw) {
        Some(v) => v,
        None => return None,
    };
    let x1 = match b.x_center.try_add(&hw) {
        Some(v) => v,
        None => return None,
    };
    let hh = match b.height.try_div(&two) {
        Some(v) => v,
        None => return None,
    };
    let y0 = match b.y_center.try_sub(&hh) {
        Some(v) => v,
        None => return None,
    };
    let y1 = match b.y_center.try_add(&hh) {
        Some(v) => v,
        None => return None,
    };
    Some((x0.floor_clamp0(), x1.ceil_clamp0(), y0.floor_clamp0(), y1.ceil_clamp0()))
}

/// Whether raster index `i` falls inside the clipped box bounds.
pub open spec fn spec_in_box(i: int, w: int, c: (int, int, int, int)) -> bool {
    c.0 <= i % w <= c.1 && c.2 <= i / w <= c.3
}

/// The box's pixels with a cluster assignment, in raster order, as pairs
/// of raster index and cluster identifier.
pub open spec fn spec_box_pixels(cats: Seq<i64>, w: int, c: (int, int, int, int), n: int)
    -> Seq<(int, i64)>
    decreases n,
{
    if n <= 0 {
        Seq::empty()
    } else {
        let prev = spec_box_pixels(cats, w, c, n - 1);
        if cats[n - 1] >= 0 && spec_in_box(n - 1, w, c) {
            prev.push((n - 1, cats[n - 1]))
        } else {
            prev
        }
    }
}

/// Indices collected by `spec_box_pixels` lie in the prefix and carry
/// non-noise cluster identifiers.
pub proof fn lemma_box_pixels_props(cats: Seq<i64>, w: int, c: (int, int, int, int), n: int)
    requires
        0 <= n <= cats.len(),
    ensures
        spec_box_pixels(cats, w, c, n).len() <= n,
        forall|k: int| 0 <= k < spec_box_pixels(cats, w, c, n).len()
            ==> 0 <= (#[trigger] spec_box_pixels(cats, w, c, n)[k]).0 < n
                && spec_box_pixels(cats, w, c, n)[k].1
                    == cats[spec_box_pixels(cats, w, c, n)[k].0]
                && spec_box_pixels(cats, w, c, n)[k].1 >= 0,
    decreases n,
{
    if n > 0 {
        lemma_box_pixels_props(cats, w, c, n - 1);
    }
}

/// How many of the box pixels in the prefix of `s` carry cluster `c`.
pub open spec fn spec_count_cat(s: Seq<(int, i64)>, c: i64, n: int) -> int
    decreases n,
{
    if n <= 0 {
        0
    } else {
        spec_count_cat(s, c, n - 1) + if s[n - 1].1 == c { 1int } else { 0int }
    }
}

/// The winning cluster after scanning the prefix of `s`: the cluster with
/// the most pixels in the box; an equal count is won by the lower
/// identifier (the fixed tie-break rule).
pub open spec fn spec_best_cat(s: Seq<(int, i64)>, n: int) -> Option<(i64, int)>
    decreases n,
{
    if n <= 0 {
        None
    } else {
        let prev = spec_best_cat(s, n - 1);
        let c = s[n - 1].1;
        let cnt = spec_count_cat(s, c, s.len() as int);
        match prev {
            None => Some((c, cnt)),
            Some(b) => if cnt > b.1 || (cnt == b.1 && c < b.0) {
                Some((c, cnt))
            } else {
                prev
            },
        }
    }
}

/// Count the box pixels carrying cluster `c`.
fn count_cat(v: &Vec<(usize, i64)>, Ghost(s): Ghost<Seq<(int, i64)>>, c: i64) -> (r: usize)
    requires
        s.len() == v@.len(),
        forall|k: int| 0 <= k < v@.len() ==> (#[trigger] s[k]).1 == v@[k].1,
    ensures
        r as int == spec_count_cat(s, c, s.len() as int),
{
    let mut cnt: usize = 0;
    let mut j: usize = 0;
    while j < v.len()
        invariant
            j <= v@.len(),
            cnt <= j,
            s.len() == v@.len(),
            forall|k: int| 0 <= k < v@.len() ==> (#[trigger] s[k]).1 == v@[k].1,
            cnt as int == spec_count_cat(s, c, j as int),
        decreases v@.len() - j,
    {
        if v[j].1 == c {
            cnt = cnt + 1;
        }
        j = j + 1;
    }
    cnt
}

/// Pick the winning cluster among the box pixels.
fn best_cat(v: &Vec<(usize, i64)>, Ghost(s): Ghost<Seq<(int, i64)>>) -> (r: Option<(i64, usize)>)
    requires
        s.len() == v@.len(),
        forall|k: int| 0 <= k < v@.len() ==> (#[trigger] s[k]).1 == v@[k].1,
    ensures
        r is None <==> spec_best_cat(s, s.len() as int) is None,
        r matches Some(b) ==> spec_best_cat(s, s.len() as int)
            == Some((b.0, b.1 as int)),
{
    let mut best: Option<(i64, usize)> = None;
    let mut j: usize = 0;
    while j < v.len()
        invariant
            j <= v@.len(),
            s.len() == v@.len(),
            forall|k: int| 0 <= k < v@.len() ==> (#[trigger] s[k]).1 == v@[k].1,
            best is None <==> spec_best_cat(s, j as int) is None,
            best matches Some(b) ==> spec_best_cat(s, j as int) == Some((b.0, b.1 as int)),
        decreases v@.len() - j,
    {
        let c = v[j].1;
        let cnt = count_cat(v, Ghost(s), c);
        match best {
            None => {
                best = Some((c, cnt));
            },
            Some(b) => {
                if cnt > b.1 || (cnt == b.1 && c < b.0) {
                    best = Some((c, cnt));
                }
            },
        }
        j = j + 1;
    }
    best
}

/// The smaller value per component.
pub open spec fn spec_point_min(a: Point3, b: Point3) -> Point3 {
    Point3 {
        x: if b.x.spec_lt(a.x) { b.x } else { a.x },
        y: if b.y.spec_lt(a.y) { b.y } else { a.y },
        z: if b.z.spec_lt(a.z) { b.z } else { a.z },
    }
}

/// The larger value per component.
pub open spec fn spec_point_max(a: Point3, b: Point3) -> Point3 {
    Point3 {
        x: if a.x.spec_lt(b.x) { b.x } else { a.x },
        y: if a.y.spec_lt(b.y) { b.y } else { a.y },
        z: if a.z.spec_lt(b.z) { b.z } else { a.z },
    }
}

fn point_min(a: &Point3, b: &Point3) -> (r: Point3)
    requires
        a.wf(),
        b.wf(),
    ensures
        r == spec_point_min(*a, *b),
        r.wf(),
{
    Point3 {
        x: if b.x.lt(&a.x) { b.x } else { a.x },
        y: if b.y.lt(&a.y) { b.y } else { a.y },
        z: if b.z.lt(&a.z) { b.z } else { a.z },
    }
}

fn point_max(a: &Point3, b: &Point3) -> (r: Point3)
    requires
        a.wf(),
        b.wf(),
    ensures
        r == spec_point_max(*a, *b),
        r.wf(),
{
    Point3 {
        x: if a.x.lt(&b.x) { b.x } else { a.x },
        y: if a.y.lt(&b.y) { b.y } else { a.y },
        z: if a.z.lt(&b.z) { b.z } else { a.z },
    }
}

impl Locator {
    /// The statistics of the winning cluster over the box pixel prefix:
    /// the number of unprojected points, their sum, and the per-axis
    /// minima and maxima. Pixels of other clusters, pixels without a
    /// usable depth, and pixels whose unprojection is not representable
    /// are skipped; `None` reports an unrepresentable exact sum.
    pub open spec fn spec_accum(
        self,
        diff: Seq<Rat>,
        s: Seq<(int, i64)>,
        c: i64,
        n: int,
    ) -> Option<(int, Point3, Point3, Point3)>
        decreases n,
    {
        if n <= 0 {
            let zero = Point3 {
                x: Rat { num: 0, den: 1 },
                y: Rat { num: 0, den: 1 },
                z: Rat { num: 0, den: 1 },
            };
            Some((0, zero, zero, zero))
        } else {
            match self.spec_accum(diff, s, c, n - 1) {
                None => None,
                Some(acc) => {
                    let idx = s[n - 1].0;
                    if s[n - 1].1 != c {
                        Some(acc)
                    } else {
                        let depth = diff[idx];
                        if depth.num == 0 {
                            Some(acc)
                        } else {
                            let w = self.image_width as int;
                            let p0 = Point3 {
                                x: Rat { num: (idx % w) as i64, den: 1 },
                                y: Rat { num: (idx / w) as i64, den: 1 },
                                z: depth,
                            };
                            match self.spec_camera_to_lidar(p0) {
                                None => Some(acc),
                                Some(p) => if acc.0 == 0 {
                                    Some((1, p, p, p))
                                } else {
                                    match spec_point_add(acc.1, p) {
                                        None => None,
                                        Some(sum2) => Some((
                                            acc.0 + 1,
                                            sum2,
                                            spec_point_min(acc.2, p),
                                            spec_point_max(acc.3, p),
                                        )),
                                    }
                                },
                            }
                        }
                    }
                }
            }
        }
    }

    /// See `spec_accum`.
    #[verifier::rlimit(100)]
    fn accumulate(
        &self,
        diff: &Vec<Rat>,
        v: &Vec<(usize, i64)>,
        Ghost(s): Ghost<Seq<(int, i64)>>,
        c: i64,
    ) -> (r: Option<(usize, Point3, Point3, Point3)>)
        requires
            self.wf(),
            diff@.len() == self.image_width * self.image_height,
            forall|i: int| 0 <= i < diff@.len() ==> (#[trigger] diff@[i]).wf(),
            s.len() == v@.len(),
            forall|k: int| 0 <= k < v@.len()
                ==> (#[trigger] s[k]) == (v@[k].0 as int, v@[k].1),
            forall|k: int| 0 <= k < v@.len() ==> (#[trigger] v@[k]).0 < diff@.len(),
        ensures
            r is None <==> self.spec_accum(diff@, s, c, s.len() as int) is None,
            r matches Some(a) ==> self.spec_accum(diff@, s, c, s.len() as int)
                == Some((a.0 as int, a.1, a.2, a.3))
                && a.1.wf() && a.2.wf() && a.3.wf() && a.0 <= v@.len(),
    {
        let zero = Point3 {
            x: Rat { num: 0, den: 1 },
            y: Rat { num: 0, den: 1 },
            z: Rat { num: 0, den: 1 },
        };
        let mut count: usize = 0;
        let mut sum: Point3 = zero;
        let mut lo: Point3 = zero;
        let mut hi: Point3 = zero;
        let mut j: usize = 0;
        while j < v.len()
            invariant
                j <= v@.len(),
                count <= j,
                self.wf(),
                diff@.len() == self.image_width * self.image_height,
                forall|i: int| 0 <= i < diff@.len() ==> (#[trigger] diff@[i]).wf(),
                s.len() == v@.len(),
                forall|k: int| 0 <= k < v@.len()
                    ==> (#[trigger] s[k]) == (v@[k].0 as int, v@[k].1),
                forall|k: int| 0 <= k < v@.len() ==> (#[trigger] v@[k]).0 < diff@.len(),
                sum.wf(),
                lo.wf(),
                hi.wf(),
                self.spec_accum(diff@, s, c, j as int)
                    == Some::<(int, Point3, Point3, Point3)>((count as int, sum, lo, hi)),
            decreases v@.len() - j,
        {
            let (idx, cat) = v[j];
            if cat == c {
                let depth = diff[idx];
                if depth.num != 0 {
                    proof {
                        assert(self.image_width > 0) by (nonlinear_arith)
                            requires
                                diff@.len() == self.image_width * self.image_height,
                                idx < diff@.len();
                        vstd::arithmetic::div_mod::lemma_div_nonincreasing(
                            idx as int, self.image_width as int);
                        assert((self.image_width as int) * (self.image_height as int)
                            <= 0x4000_0000 * 0x4000_0000) by (nonlinear_arith)
                            requires
                                self.image_width <= 0x4000_0000,
                                self.image_height <= 0x4000_0000;
                    }
                    let x: usize = idx % self.image_width;
                    let y: usize = idx / self.image_width;
                    let p0 = Point3 {
                        x: Rat { num: x as i64, den: 1 },
                        y: Rat { num: y as i64, den: 1 },
                        z: depth,
                    };
                    match self.camera_to_lidar(&p0) {
                        None => {},
                        Some(p) => {
                            if count == 0 {
                                count = 1;
                                sum = p;
                                lo = p;
                                hi = p;
                            } else {
                                let sum2 = match crate::vecmat::point_add(&sum, &p) {
                                    Some(v2) => v2,
                                    None => {
                                        proof {
                                            crate::estimator::lemma_accum_none(
                                                *self, diff@, s, c, j as int + 1,
                                                s.len() as int);
                                        }
                                        return None;
                                    },
                                };
                                count = count + 1;
                                sum = sum2;
                                lo = point_min(&lo, &p);
                                hi = point_max(&hi, &p);
                            }
                        },
                    }
                }
            }
            j = j + 1;
        }
        Some((count, sum, lo, hi))
    }
}

/// Once the accumulation fold fails, it stays failed for every longer
/// prefix.
pub proof fn lemma_accum_none(
    l: Locator,
    diff: Seq<Rat>,
    s: Seq<(int, i64)>,
    c: i64,
    n0: int,
    n1: int,
)
    requires
        0 <= n0 <= n1,
        l.spec_accum(diff, s, c, n0) is None,
    ensures
        l.spec_accum(diff, s, c, n1) is None,
    decreases n1 - n0,
{
    if n0 < n1 {
        assert(l.spec_accum(diff, s, c, n0 + 1) is None);
        lemma_accum_none(l, diff, s, c, n0 + 1, n1);
    }
}

} // verus!

verus! {

impl Locator {
    /// The located robot for one bounding box: clip the box, pick the
    /// winning cluster among the box's assigned pixels (most pixels, ties
    /// to the lower identifier), and take the centroid and per-axis
    /// extents of that cluster's unprojected points. `None` when no
    /// cluster has a pixel inside the box, when no pixel of the winning
    /// cluster carries a usable depth, or when an exact value cannot be
    /// represented.
    pub open spec fn spec_locate_bbox(self, diff: Seq<Rat>, cats: Seq<i64>, b: BBox)
        -> Option<RobotLocation> {
        match spec_clip_bbox(b) {
            None => None,
            Some(cl) => {
                let s = spec_box_pixels(cats, self.image_width as int, cl, cats.len() as int);
                match spec_best_cat(s, s.len() as int) {
                    None => None,
                    Some(bc) => match self.spec_accum(diff, s, bc.0, s.len() as int) {
                        None => None,
                        Some(acc) => if acc.0 == 0 || acc.0 > crate::rat::RAT_BOUND {
                            None
                        } else {
                            let cnt = Rat { num: acc.0 as i64, den: 1 };
                            match spec_div(acc.1.x, cnt) {
                                None => None,
                                Some(cx) => match spec_div(acc.1.y, cnt) {
                                    None => None,
                                    Some(cy) => match spec_div(acc.1.z, cnt) {
                                        None => None,
                                        Some(cz) => match spec_sub(acc.3.x, acc.2.x) {
                                            None => None,
                                            Some(wd) => match spec_sub(acc.3.y, acc.2.y) {
                                                None => None,
                                                Some(ht) => match spec_sub(acc.3.z, acc.2.z) {
                                                    None => None,
                                                    Some(dp) => Some(RobotLocation {
                                                        center: Point3 { x: cx, y: cy, z: cz },
                                                        width: wd,
                                                        height: ht,
                                                        depth: dp,
                                                    }),
                                                },
                                            },
                                        },
                                    },
                                },
                            }
                        },
                    },
                }
            },
        }
    }

    /// See `spec_locate_bbox`.
    fn locate_bbox(&self, b: &BBox, diff: &Vec<Rat>, cats: &Vec<i64>)
        -> (r: Option<RobotLocation>)
        requires
            self.wf(),
            b.wf(),
            diff@.len() == self.image_width * self.image_height,
            forall|i: int| 0 <= i < diff@.len() ==> (#[trigger] diff@[i]).wf(),
            cats@.len() == self.image_width * self.image_height,
        ensures
            r == self.spec_locate_bbox(diff@, cats@, *b),
            r matches Some(loc) ==> loc.wf(),
    {
        let size: usize = cats.len();
        let cl = match clip_bbox(b) {
            Some(v) => v,
            None => return None,
        };
        let ghost cli = (cl.0 as int, cl.1 as int, cl.2 as int, cl.3 as int);
        let ghost w = self.image_width as int;
        let mut v: Vec<(usize, i64)> = Vec::new();
        let mut i: usize = 0;
        while i < size
            invariant
                i <= size,
                self.wf(),
                size == self.image_width * self.image_height,
                w == self.image_width as int,
                cli == (cl.0 as int, cl.1 as int, cl.2 as int, cl.3 as int),
                cats@.len() == size,
                v@.len() == spec_box_pixels(cats@, w, cli, i as int).len(),
                forall|k: int| 0 <= k < v@.len()
                    ==> (#[trigger] spec_box_pixels(cats@, w, cli, i as int)[k])
                        == (v@[k].0 as int, v@[k].1),
                forall|k: int| 0 <= k < v@.len() ==> (#[trigger] v@[k]).0 < size,
            decreases size - i,
        {
            let cat = cats[i];
            if cat >= 0 {
                proof {
                    assert(self.image_width > 0) by (nonlinear_arith)
                        requires
                            size == self.image_width * self.image_height,
                            i < size;
                }
                let x: usize = i % self.image_width;
                let y: usize = i / self.image_width;
                proof {
                    assert(x as int == (i as int) % w);
                    assert(y as int == (i as int) / w);
                    assert(spec_in_box(i as int, w, cli) == (cli.0 <= x as int
                        && x as int <= cli.1 && cli.2 <= y as int && y as int <= cli.3));
                }
                let inside = cl.0 <= x as u64 && x as u64 <= cl.1 && cl.2 <= y as u64
                    && y as u64 <= cl.3;
                proof {
                    assert((x as u64) as int == x as int);
                    assert((y as u64) as int == y as int);
                    assert(inside == (cli.0 <= x as int && x as int <= cli.1
                        && cli.2 <= y as int && y as int <= cli.3));
                    assert(inside == spec_in_box(i as int, w, cli));
                }
                if inside {
                    v.push((i, cat));
                }
            }
            i = i + 1;
        }
        let ghost s = spec_box_pixels(cats@, w, cli, size as int);
        let bc = match best_cat(&v, Ghost(s)) {
            Some(vv) => vv,
            None => return None,
        };
        proof {
            lemma_box_pixels_props(cats@, w, cli, size as int);
        }
        let acc = match self.accumulate(diff, &v, Ghost(s), bc.0) {
            Some(vv) => vv,
            None => return None,
        };
        let (count, sum, lo, hi) = acc;
        if count == 0 {
            return None;
        }
        if count as u64 > crate::rat::RAT_BOUND as u64 {
            return None;
        }
        let cnt = Rat { num: count as i64, den: 1 };
        let cx = match sum.x.try_div(&cnt) {
            Some(vv) => vv,
            None => return None,
        };
        let cy = match sum.y.try_div(&cnt) {
            Some(vv) => vv,
            None => return None,
        };
        let cz = match sum.z.try_div(&cnt) {
            Some(vv) => vv,
            None => return None,
        };
        let wd = match hi.x.try_sub(&lo.x) {
            Some(vv) => vv,
            None => return None,
        };
        let ht = match hi.y.try_sub(&lo.y) {
            Some(vv) => vv,
            None => return None,
        };
        let dp = match hi.z.try_sub(&lo.z) {
            Some(vv) => vv,
            None => return None,
        };
        Some(RobotLocation {
            center: Point3 { x: cx, y: cy, z: cz },
            width: wd,
            height: ht,
            depth: dp,
        })
    }

    /// Locate every detection's bounding box against one frame's
    /// foreground raster and cluster assignment, in input order. The
    /// result is a deterministic function of the inputs: the winning
    /// cluster and the statistics for each box are pinned by
    /// `spec_locate_bbox`.
    pub fn search_for_location(
        &self,
        bboxes: &Vec<BBox>,
        difference_depth_map: &Vec<Rat>,
        cluster_result: &Vec<i64>,
    ) -> (r: Vec<Option<RobotLocation>>)
        requires
            self.wf(),
            forall|j: int| 0 <= j < bboxes@.len() ==> (#[trigger] bboxes@[j]).wf(),
            difference_depth_map@.len() == self.image_width * self.image_height,
            forall|i: int| 0 <= i < difference_depth_map@.len()
                ==> (#[trigger] difference_depth_map@[i]).wf(),
            cluster_result@.len() == self.image_width * self.image_height,
        ensures
            r.len() == bboxes@.len(),
            forall|j: int| 0 <= j < r.len() ==> (#[trigger] r[j])
                == self.spec_locate_bbox(difference_depth_map@, cluster_result@, bboxes@[j]),
            forall|j: int| 0 <= j < r.len()
                ==> ((#[trigger] r[j]) matches Some(loc) ==> loc.wf()),
    {
        let mut r: Vec<Option<RobotLocation>> = Vec::new();
        let mut j: usize = 0;
        while j < bboxes.len()
            invariant
                j <= bboxes@.len(),
                self.wf(),
                forall|k: int| 0 <= k < bboxes@.len() ==> (#[trigger] bboxes@[k]).wf(),
                difference_depth_map@.len() == self.image_width * self.image_height,
                forall|i: int| 0 <= i < difference_depth_map@.len()
                    ==> (#[trigger] difference_depth_map@[i]).wf(),
                cluster_result@.len() == self.image_width * self.image_height,
                r.len() == j,
                forall|k: int| 0 <= k < j ==> (#[trigger] r[k])
                    == self.spec_locate_bbox(
                        difference_depth_map@, cluster_result@, bboxes@[k]),
                forall|k: int| 0 <= k < j
                    ==> ((#[trigger] r[k]) matches Some(loc) ==> loc.wf()),
            decreases bboxes@.len() - j,
        {
            let loc = self.locate_bbox(&bboxes[j], difference_depth_map, cluster_result);
            r.push(loc);
            j = j + 1;
        }
        r
    }
}

/// A frame of invalid (or no) points leaves the frame raster and the
/// background untouched.
pub proof fn lemma_integrate_invalid(
    l: Locator,
    raster: Seq<Rat>,
    bg: Seq<Rat>,
    points: Seq<Point3>,
    n: int,
)
    requires
        forall|k: int| 0 <= k < points.len() ==> !crate::locator::spec_point_valid(
            #[trigger] points[k]),
        n <= points.len(),
    ensures
        l.spec_integrate(raster, bg, points, n) == (raster, bg),
    decreases n,
{
    if n > 0 {
        lemma_integrate_invalid(l, raster, bg, points, n - 1);
    }
}

/// A raster whose every cell is noise contributes no box pixels.
pub proof fn lemma_box_pixels_all_noise(cats: Seq<i64>, w: int, c: (int, int, int, int), n: int)
    requires
        0 <= n <= cats.len(),
        forall|i: int| 0 <= i < cats.len() ==> (#[trigger] cats[i]) == NOISE_ID,
    ensures
        spec_box_pixels(cats, w, c, n).len() == 0,
    decreases n,
{
    if n > 0 {
        lemma_box_pixels_all_noise(cats, w, c, n - 1);
    }
}

} // verus!

verus! {

impl Locator {
    /// The sole per-frame entry point: integrate the frame's points into
    /// the background model, cluster the foreground, and locate every
    /// detection's bounding box, in input order.
    ///
    /// The state evolves exactly as in `get_robot_depth_map`. With a fresh
    /// background model (empty raster queue, all-zero background) and an
    /// empty or all-invalid point list, every detection locates to `None`.
    #[verifier::rlimit(100)]
    pub fn locate_detections(&mut self, points: &[Point3], detections: &[RobotDetection])
        -> (r: Vec<Option<RobotLocation>>)
        requires
            old(self).wf(),
            forall|i: int| 0 <= i < points@.len() ==> (#[trigger] points@[i]).wf(),
            forall|j: int| 0 <= j < detections@.len() ==> (#[trigger] detections@[j]).wf(),
        ensures
            final(self).wf(),
            old(self).same_config(*final(self)),
            ({
                let res = old(self).spec_integrate(
                    crate::locator::spec_zero_raster(
                        old(self).image_width * old(self).image_height),
                    old(self).background_depth_map@,
                    points@,
                    points@.len() as int,
                );
                final(self).background_depth_map@ == res.1
                    && crate::locator::queue_view(final(self).depth_map_queue@)
                        == crate::locator::spec_queue_after(
                            crate::locator::queue_view(old(self).depth_map_queue@), res.0)
            }),
            final(self).depth_map_queue.len() == if old(self).depth_map_queue.len()
                < crate::locator::DEPTH_MAP_QUEUE_SIZE {
                old(self).depth_map_queue.len() + 1
            } else {
                crate::locator::DEPTH_MAP_QUEUE_SIZE as int
            },
            r.len() == detections@.len(),
            forall|j: int| 0 <= j < r.len()
                ==> ((#[trigger] r[j]) matches Some(loc) ==> loc.wf()),
            (old(self).depth_map_queue.len() == 0
                && (forall|i: int| 0 <= i < old(self).background_depth_map@.len()
                    ==> (#[trigger] old(self).background_depth_map@[i]).num == 0)
                && (forall|k: int| 0 <= k < points@.len()
                    ==> !crate::locator::spec_point_valid(#[trigger] points@[k])))
                ==> (forall|j: int| 0 <= j < r.len() ==> (#[trigger] r[j]) is None),
            // Composition: each result is the located box over the frame's
            // pinned foreground raster and a density-valid clustering of
            // its foreground points.
            ({
                let size = (final(self).image_width * final(self).image_height) as int;
                let fg = Seq::new(size as nat, |i: int| final(self).spec_fg_cell(
                    crate::locator::queue_view(final(self).depth_map_queue@),
                    final(self).background_depth_map@[i],
                    i,
                    final(self).depth_map_queue.len() as int,
                ));
                let s = final(self).spec_cluster_inputs(fg, size);
                exists|cats: Seq<i64>|
                    (#[trigger] spec_dbscan_valid(spec_unprojected(s),
                        final(self).cluster_epsilon,
                        final(self).cluster_min_points as int, cats))
                    && (forall|j: int| 0 <= j < r.len()
                        ==> (#[trigger] r[j]) == final(self).spec_locate_bbox(
                            fg,
                            spec_apply_cats(s, cats, size, s.len() as int),
                            detections@[j].bbox,
                        ))
            }),
    {
        let ghost fresh = old(self).depth_map_queue.len() == 0
            && (forall|i: int| 0 <= i < old(self).background_depth_map@.len()
                ==> (#[trigger] old(self).background_depth_map@[i]).num == 0)
            && (forall|k: int| 0 <= k < points@.len()
                ==> !crate::locator::spec_point_valid(#[trigger] points@[k]));
        let robot_depth_map = self.get_robot_depth_map(points);
        proof {
            if fresh {
                crate::estimator::lemma_integrate_invalid(
                    *old(self),
                    crate::locator::spec_zero_raster(
                        old(self).image_width * old(self).image_height),
                    old(self).background_depth_map@,
                    points@,
                    points@.len() as int,
                );
                let qv = crate::locator::queue_view(self.depth_map_queue@);
                assert(qv.len() == 1);
                assert(qv[0] == crate::locator::spec_zero_raster(
                    old(self).image_width * old(self).image_height));
                assert forall|i: int| 0 <= i < robot_depth_map@.len()
                    implies (#[trigger] robot_depth_map@[i]).num == 0 by {
                    let bgi = self.background_depth_map@[i];
                    let zero = Rat { num: 0, den: 1 };
                    assert(qv[0][i] == zero);
                    assert(bgi.num == 0 && 0 < bgi.den);
                    // The exact difference of two zero values reduces to
                    // the canonical zero.
                    let d = bgi.den as int;
                    assert(spec_sub(zero, bgi) == crate::rat::spec_reduce(0, d));
                    assert(crate::rat::spec_gcd(0, d) == d) by {
                        vstd::arithmetic::div_mod::lemma_small_mod(0, d as nat);
                        assert(crate::rat::spec_gcd(d, 0) == d);
                    }
                    vstd::arithmetic::div_mod::lemma_div_of0(d);
                    vstd::arithmetic::div_mod::lemma_div_by_self(d);
                    assert(crate::rat::spec_reduce(0, d)
                        == Some(Rat { num: 0, den: 1 }));
                    assert(robot_depth_map@[i] == self.spec_fg_cell(
                        qv, bgi, i, 1));
                    assert(self.spec_fg_cell(qv, bgi, i, 0) == zero);
                    assert(robot_depth_map@[i].num == 0);
                }
            }
        }
        let pixels_category_mapping = self.cluster_and_get_category(&robot_depth_map);
        let mut bboxes: Vec<BBox> = Vec::new();
        let mut j: usize = 0;
        while j < detections.len()
            invariant
                j <= detections@.len(),
                forall|k: int| 0 <= k < detections@.len()
                    ==> (#[trigger] detections@[k]).wf(),
                bboxes.len() == j,
                forall|k: int| 0 <= k < j ==> (#[trigger] bboxes@[k]) == detections@[k].bbox,
                forall|k: int| 0 <= k < j ==> (#[trigger] bboxes@[k]).wf(),
            decreases detections@.len() - j,
        {
            let b = detections[j].bbox();
            bboxes.push(b);
            j = j + 1;
        }
        let r = self.search_for_location(&bboxes, &robot_depth_map, &pixels_category_mapping);
        proof {
            let size = (self.image_width * self.image_height) as int;
            let fg = Seq::new(size as nat, |i: int| self.spec_fg_cell(
                crate::locator::queue_view(self.depth_map_queue@),
                self.background_depth_map@[i],
                i,
                self.depth_map_queue.len() as int,
            ));
            assert(robot_depth_map@ =~= fg);
            let s = self.spec_cluster_inputs(robot_depth_map@, size);
            let cats = choose|cats: Seq<i64>|
                (#[trigger] spec_dbscan_valid(spec_unprojected(s), self.cluster_epsilon,
                    self.cluster_min_points as int, cats))
                && pixels_category_mapping@ == spec_apply_cats(s, cats, size, s.len() as int);
            assert(spec_dbscan_valid(spec_unprojected(s), self.cluster_epsilon,
                self.cluster_min_points as int, cats)
                && (forall|j: int| 0 <= j < r.len()
                    ==> (#[trigger] r[j]) == self.spec_locate_bbox(
                        fg,
                        spec_apply_cats(s, cats, size, s.len() as int),
                        detections@[j].bbox,
                    )));
            if fresh {
                assert forall|k: int| 0 <= k < r.len() implies (#[trigger] r[k]) is None by {
                    assert(r[k] == self.spec_locate_bbox(
                        robot_depth_map@, pixels_category_mapping@, bboxes@[k]));
                    match spec_clip_bbox(bboxes@[k]) {
                        None => {},
                        Some(cl) => {
                            lemma_box_pixels_all_noise(
                                pixels_category_mapping@,
                                self.image_width as int,
                                cl,
                                pixels_category_mapping@.len() as int,
                            );
                            let s = spec_box_pixels(
                                pixels_category_mapping@,
                                self.image_width as int,
                                cl,
                                pixels_category_mapping@.len() as int,
                            );
                            assert(spec_best_cat(s, s.len() as int) is None);
                        },
                    }
                }
            }
        }
        r
    }
}

} // verus!
