//! Density-based clustering of exact 3D points.
//!
//! A point with at least `min_points` neighbours (itself included) within
//! the `epsilon` radius is a core point; neighbouring core points share a
//! cluster, and a non-core point joins the cluster of its lowest-index
//! core neighbour. Points that are neither core nor next to a core point
//! are noise (`-1`). Cluster identifiers are contiguous from zero in order
//! of first appearance. A pair whose exact squared distance is not
//! representable is treated as not neighbouring.

use vstd::prelude::*;
use crate::rat::{Rat, spec_sub, spec_mul, spec_add};
use crate::vecmat::Point3;

verus! {

/// The cluster identifier given to noise points.
pub const NOISE_ID: i64 = -1;

/// The exact squared distance between two points, when representable.
pub open spec fn spec_sq_dist(a: Point3, b: Point3) -> Option<Rat> {
    match spec_sub(a.x, b.x) {
        None => None,
        Some(dx) => match spec_sub(a.y, b.y) {
            None => None,
            Some(dy) => match spec_sub(a.z, b.z) {
                None => None,
                Some(dz) => match spec_mul(dx, dx) {
                    None => None,
                    Some(sx) => match spec_mul(dy, dy) {
                        None => None,
                        Some(sy) => match spec_mul(dz, dz) {
                            None => None,
                            Some(sz) => match spec_add(sx, sy) {
                                None => None,
                                Some(sxy) => spec_add(sxy, sz),
                            },
                        },
                    },
                },
            },
        },
    }
}

/// Whether `b` lies within the `epsilon` neighbourhood of `a`: the exact
/// squared distance is representable and at most `epsilon * epsilon`.
pub open spec fn spec_neighbors(a: Point3, b: Point3, epsilon: Rat) -> bool {
    (spec_sq_dist(a, b) matches Some(d2) && (spec_mul(epsilon, epsilon) matches Some(e2)
        && d2.spec_le(e2)))
}

pub fn is_neighbor(a: &Point3, b: &Point3, epsilon: &Rat) -> (r: bool)
    requires
        a.wf(),
        b.wf(),
        epsilon.wf(),
    ensures
        r == spec_neighbors(*a, *b, *epsilon),
{
    let dx = match a.x.try_sub(&b.x) {
        Some(v) => v,
        None => return false,
    };
    let dy = match a.y.try_sub(&b.y) {
        Some(v) => v,
        None => return false,
    };
    let dz = match a.z.try_sub(&b.z) {
        Some(v) => v,
        None => return false,
    };
    let sx = match dx.try_mul(&dx) {
        Some(v) => v,
        None => return false,
    };
    let sy = match dy.try_mul(&dy) {
        Some(v) => v,
        None => return false,
    };
    let sz = match dz.try_mul(&dz) {
        Some(v) => v,
        None => return false,
    };
    let sxy = match sx.try_add(&sy) {
        Some(v) => v,
        None => return false,
    };
    let d2 = match sxy.try_add(&sz) {
        Some(v) => v,
        None => return false,
    };
    let e2 = match epsilon.try_mul(epsilon) {
        Some(v) => v,
        None => return false,
    };
    d2.le(&e2)
}

/// How many of the first `n` points are neighbours of point `i` (point
/// `i` itself included when `n` covers it).
pub open spec fn spec_neighbor_count(points: Seq<Point3>, eps: Rat, i: int, n: int) -> int
    decreases n,
{
    if n <= 0 {
        0
    } else {
        spec_neighbor_count(points, eps, i, n - 1)
            + if spec_neighbors(points[i], points[n - 1], eps) { 1int } else { 0int }
    }
}

/// Point `i` is a core point: at least `min_points` neighbours, itself
/// included.
pub open spec fn spec_is_core(points: Seq<Point3>, eps: Rat, min_points: int, i: int) -> bool {
    spec_neighbor_count(points, eps, i, points.len() as int) >= min_points
}

/// Point `i` has some core point within its neighbourhood.
pub open spec fn spec_has_core_neighbor(
    points: Seq<Point3>,
    eps: Rat,
    min_points: int,
    i: int,
) -> bool {
    exists|j: int| 0 <= j < points.len() && spec_is_core(points, eps, min_points, j)
        && spec_neighbors(points[i], points[j], eps)
}

/// What a density clustering of `points` promises of its labels:
/// one label per point, each a noise marker or an identifier below the
/// point count; a point is noise exactly when it is neither core nor next
/// to a core point; and neighbouring core points carry the same label.
pub open spec fn spec_dbscan_valid(
    points: Seq<Point3>,
    eps: Rat,
    min_points: int,
    labels: Seq<i64>,
) -> bool {
    labels.len() == points.len()
        && (forall|i: int| 0 <= i < labels.len()
            ==> (#[trigger] labels[i]) == NOISE_ID
                || (0 <= labels[i] && labels[i] < points.len()))
        && (forall|i: int| 0 <= i < labels.len()
            ==> (((#[trigger] labels[i]) == NOISE_ID)
                <==> (!spec_is_core(points, eps, min_points, i)
                    && !spec_has_core_neighbor(points, eps, min_points, i))))
        && (forall|i: int, j: int| 0 <= i < labels.len() && 0 <= j < labels.len()
            && spec_is_core(points, eps, min_points, i)
            && spec_is_core(points, eps, min_points, j)
            && spec_neighbors(points[i], points[j], eps)
            ==> (#[trigger] labels[i]) == (#[trigger] labels[j]))
}

/// The sum of a sequence of component labels, the termination measure of
/// the merge loop.
pub open spec fn sum_work(s: Seq<usize>) -> int
    decreases s.len(),
{
    if s.len() == 0 {
        0
    } else {
        s[0] + sum_work(s.drop_first())
    }
}

proof fn lemma_sum_work_nonneg(s: Seq<usize>)
    ensures
        sum_work(s) >= 0,
    decreases s.len(),
{
    if s.len() > 0 {
        lemma_sum_work_nonneg(s.drop_first());
    }
}

proof fn lemma_sum_work_update(s: Seq<usize>, k: int, v: usize)
    requires
        0 <= k < s.len(),
    ensures
        sum_work(s.update(k, v)) == sum_work(s) - s[k] + v,
    decreases s.len(),
{
    if k == 0 {
        assert(s.update(0, v).drop_first() =~= s.drop_first());
    } else {
        assert(s.update(k, v).drop_first() =~= s.drop_first().update(k - 1, v));
        lemma_sum_work_update(s.drop_first(), k - 1, v);
    }
}

/// Density-based clustering: the labels satisfy `spec_dbscan_valid` —
/// core points are clustered, neighbouring core points share a cluster,
/// and exactly the points with no core point nearby are noise.
pub fn dbscan(points: &Vec<Point3>, epsilon: &Rat, min_points: usize) -> (labels: Vec<i64>)
    requires
        epsilon.wf(),
        points@.len() < 0x4000_0000_0000_0000,
        forall|i: int| 0 <= i < points@.len() ==> (#[trigger] points@[i]).wf(),
    ensures
        spec_dbscan_valid(points@, *epsilon, min_points as int, labels@),
        labels.len() == points.len(),
        forall|i: int| 0 <= i < labels.len()
            ==> (#[trigger] labels[i]) == NOISE_ID
                || (0 <= labels[i] && labels[i] < points@.len()),
{
    let n = points.len();
    let ghost pts = points@;
    let ghost eps = *epsilon;
    let ghost mp = min_points as int;
    // `n` itself serves as the "unassigned" marker in `work`.

    // Core flags.
    let mut core: Vec<bool> = Vec::new();
    let mut i: usize = 0;
    while i < n
        invariant
            i <= n,
            n == pts.len(),
            pts == points@,
            eps == *epsilon,
            epsilon.wf(),
            forall|k: int| 0 <= k < pts.len() ==> (#[trigger] pts[k]).wf(),
            core.len() == i,
            forall|k: int| 0 <= k < i
                ==> (#[trigger] core[k]) == spec_is_core(pts, eps, min_points as int, k),
        decreases n - i,
    {
        let mut count: usize = 0;
        let mut j: usize = 0;
        while j < n
            invariant
                i < n,
                j <= n,
                count <= j,
                n == pts.len(),
                pts == points@,
                eps == *epsilon,
                epsilon.wf(),
                forall|k: int| 0 <= k < pts.len() ==> (#[trigger] pts[k]).wf(),
                count as int == spec_neighbor_count(pts, eps, i as int, j as int),
            decreases n - j,
        {
            if is_neighbor(&points[i], &points[j], epsilon) {
                count = count + 1;
            }
            j = j + 1;
        }
        core.push(count >= min_points);
        i = i + 1;
    }

    // Tentative component names: every core point starts in its own
    // component, named by its index; everything else starts unassigned.
    let mut work: Vec<usize> = Vec::new();
    let mut i: usize = 0;
    while i < n
        invariant
            i <= n,
            n == pts.len(),
            core.len() == n,
            forall|k: int| 0 <= k < n
                ==> (#[trigger] core[k]) == spec_is_core(pts, eps, mp, k),
            work.len() == i,
            forall|k: int| 0 <= k < i ==> (#[trigger] work[k]) <= n,
            forall|k: int| 0 <= k < i && core[k] ==> (#[trigger] work[k]) < n,
            forall|k: int| 0 <= k < i && !core[k] ==> (#[trigger] work[k]) == n,
        decreases n - i,
    {
        if core[i] {
            work.push(i);
        } else {
            work.push(n);
        }
        i = i + 1;
    }

    // Merge neighbouring core points into the lowest-index component,
    // sweeping until a whole pass changes nothing.
    proof {
        lemma_sum_work_nonneg(work@);
    }
    loop
        invariant_except_break
            n == pts.len(),
            pts == points@,
            eps == *epsilon,
            epsilon.wf(),
            forall|k: int| 0 <= k < pts.len() ==> (#[trigger] pts[k]).wf(),
            core.len() == n,
            forall|k: int| 0 <= k < n
                ==> (#[trigger] core[k]) == spec_is_core(pts, eps, mp, k),
            work.len() == n,
            forall|k: int| 0 <= k < n ==> (#[trigger] work[k]) <= n,
            forall|k: int| 0 <= k < n && core[k] ==> (#[trigger] work[k]) < n,
            forall|k: int| 0 <= k < n && !core[k] ==> (#[trigger] work[k]) == n,
        ensures
            n == pts.len(),
            core.len() == n,
            forall|k: int| 0 <= k < n
                ==> (#[trigger] core[k]) == spec_is_core(pts, eps, mp, k),
            work.len() == n,
            forall|k: int| 0 <= k < n ==> (#[trigger] work[k]) <= n,
            forall|k: int| 0 <= k < n && core[k] ==> (#[trigger] work[k]) < n,
            forall|k: int| 0 <= k < n && !core[k] ==> (#[trigger] work[k]) == n,
            forall|a: int, b: int| 0 <= a < n && 0 <= b < n
                && spec_is_core(pts, eps, mp, a) && spec_is_core(pts, eps, mp, b)
                && spec_neighbors(pts[a], pts[b], eps)
                ==> (#[trigger] work[a]) == (#[trigger] work[b]),
        decreases sum_work(work@),
    {
        let ghost w0 = work@;
        proof {
            lemma_sum_work_nonneg(w0);
        }
        let mut changed: bool = false;
        let mut i: usize = 0;
        while i < n
            invariant
                i <= n,
                n == pts.len(),
                pts == points@,
                eps == *epsilon,
                epsilon.wf(),
                forall|k: int| 0 <= k < pts.len() ==> (#[trigger] pts[k]).wf(),
                core.len() == n,
                forall|k: int| 0 <= k < n
                    ==> (#[trigger] core[k]) == spec_is_core(pts, eps, mp, k),
                work.len() == n,
                forall|k: int| 0 <= k < n ==> (#[trigger] work[k]) <= n,
                forall|k: int| 0 <= k < n && core[k] ==> (#[trigger] work[k]) < n,
                forall|k: int| 0 <= k < n && !core[k] ==> (#[trigger] work[k]) == n,
                !changed ==> work@ == w0,
                changed ==> sum_work(work@) < sum_work(w0),
                !changed ==> forall|a: int, b: int| 0 <= a < i && 0 <= b < n
                    && spec_is_core(pts, eps, mp, a) && spec_is_core(pts, eps, mp, b)
                    && spec_neighbors(pts[a], pts[b], eps)
                    ==> (#[trigger] work[a]) == (#[trigger] work[b]),
            decreases n - i,
        {
            let mut j: usize = 0;
            while j < n
                invariant
                    i < n,
                    j <= n,
                    n == pts.len(),
                    pts == points@,
                    eps == *epsilon,
                    epsilon.wf(),
                    forall|k: int| 0 <= k < pts.len() ==> (#[trigger] pts[k]).wf(),
                    core.len() == n,
                    forall|k: int| 0 <= k < n
                        ==> (#[trigger] core[k]) == spec_is_core(pts, eps, mp, k),
                    work.len() == n,
                    forall|k: int| 0 <= k < n ==> (#[trigger] work[k]) <= n,
                    forall|k: int| 0 <= k < n && core[k] ==> (#[trigger] work[k]) < n,
                    forall|k: int| 0 <= k < n && !core[k] ==> (#[trigger] work[k]) == n,
                    !changed ==> work@ == w0,
                    changed ==> sum_work(work@) < sum_work(w0),
                    !changed ==> forall|a: int, b: int| 0 <= a < i && 0 <= b < n
                        && spec_is_core(pts, eps, mp, a) && spec_is_core(pts, eps, mp, b)
                        && spec_neighbors(pts[a], pts[b], eps)
                        ==> (#[trigger] work[a]) == (#[trigger] work[b]),
                    !changed ==> forall|b: int| 0 <= b < j
                        && spec_is_core(pts, eps, mp, i as int)
                        && spec_is_core(pts, eps, mp, b)
                        && spec_neighbors(pts[i as int], pts[b], eps)
                        ==> work[i as int] == (#[trigger] work[b]),
                decreases n - j,
            {
                if core[i] && core[j] && is_neighbor(&points[i], &points[j], epsilon) {
                    let li = work[i];
                    let lj = work[j];
                    if li != lj {
                        let m = if li < lj { li } else { lj };
                        let ghost before = work@;
                        proof {
                            lemma_sum_work_update(before, i as int, m);
                        }
                        work[i] = m;
                        proof {
                            lemma_sum_work_update(work@, j as int, m);
                        }
                        work[j] = m;
                        proof {
                            if !changed {
                                assert(before == w0);
                            }
                            assert(sum_work(work@) < sum_work(before));
                        }
                        changed = true;
                    }
                }
                j = j + 1;
            }
            i = i + 1;
        }
        if !changed {
            break;
        }
        proof {
            lemma_sum_work_nonneg(work@);
            assert(sum_work(work@) < sum_work(w0));
        }
    }

    // Attach each non-core point to its first core neighbour.
    let mut i: usize = 0;
    while i < n
        invariant
            i <= n,
            n == pts.len(),
            pts == points@,
            eps == *epsilon,
            epsilon.wf(),
            forall|k: int| 0 <= k < pts.len() ==> (#[trigger] pts[k]).wf(),
            core.len() == n,
            forall|k: int| 0 <= k < n
                ==> (#[trigger] core[k]) == spec_is_core(pts, eps, mp, k),
            work.len() == n,
            forall|k: int| 0 <= k < n ==> (#[trigger] work[k]) <= n,
            forall|k: int| 0 <= k < n && core[k] ==> (#[trigger] work[k]) < n,
            forall|k: int| i <= k < n && !core[k] ==> (#[trigger] work[k]) == n,
            forall|k: int| 0 <= k < i && !core[k]
                ==> ((#[trigger] work[k]) == n
                    <==> !spec_has_core_neighbor(pts, eps, mp, k)),
            forall|a: int, b: int| 0 <= a < n && 0 <= b < n
                && spec_is_core(pts, eps, mp, a) && spec_is_core(pts, eps, mp, b)
                && spec_neighbors(pts[a], pts[b], eps)
                ==> (#[trigger] work[a]) == (#[trigger] work[b]),
        decreases n - i,
    {
        if !core[i] {
            let mut j: usize = 0;
            let mut assigned: bool = false;
            while j < n
                invariant
                    i < n,
                    j <= n,
                    !core[i as int],
                    n == pts.len(),
                    pts == points@,
                    eps == *epsilon,
                    epsilon.wf(),
                    forall|k: int| 0 <= k < pts.len() ==> (#[trigger] pts[k]).wf(),
                    core.len() == n,
                    forall|k: int| 0 <= k < n
                        ==> (#[trigger] core[k]) == spec_is_core(pts, eps, mp, k),
                    work.len() == n,
                    forall|k: int| 0 <= k < n ==> (#[trigger] work[k]) <= n,
                    forall|k: int| 0 <= k < n && core[k] ==> (#[trigger] work[k]) < n,
                    forall|k: int| i < k < n && !core[k] ==> (#[trigger] work[k]) == n,
                    forall|k: int| 0 <= k < i && !core[k]
                        ==> ((#[trigger] work[k]) == n
                            <==> !spec_has_core_neighbor(pts, eps, mp, k)),
                    forall|a: int, b: int| 0 <= a < n && 0 <= b < n
                        && spec_is_core(pts, eps, mp, a) && spec_is_core(pts, eps, mp, b)
                        && spec_neighbors(pts[a], pts[b], eps)
                        ==> (#[trigger] work[a]) == (#[trigger] work[b]),
                    !assigned ==> work[i as int] == n,
                    !assigned ==> forall|jj: int| 0 <= jj < j
                        ==> !(spec_is_core(pts, eps, mp, jj)
                            && spec_neighbors(pts[i as int], #[trigger] pts[jj], eps)),
                    assigned ==> work[i as int] < n
                        && spec_has_core_neighbor(pts, eps, mp, i as int),
                decreases n - j,
            {
                if !assigned && core[j] && is_neighbor(&points[i], &points[j], epsilon) {
                    work[i] = work[j];
                    assigned = true;
                }
                j = j + 1;
            }
        }
        i = i + 1;
    }

    // Compress component names to contiguous identifiers in order of first
    // appearance.
    let mut reps: Vec<usize> = Vec::new();
    let mut labels: Vec<i64> = Vec::new();
    let mut i: usize = 0;
    while i < n
        invariant
            i <= n,
            n == pts.len(),
            n < 0x4000_0000_0000_0000,
            work.len() == n,
            forall|k: int| 0 <= k < n ==> (#[trigger] work[k]) <= n,
            reps.len() <= i,
            forall|a: int| 0 <= a < reps.len() ==> (#[trigger] reps[a]) < n,
            forall|a: int, b: int| 0 <= a < reps.len() && 0 <= b < reps.len() && a != b
                ==> (#[trigger] reps[a]) != (#[trigger] reps[b]),
            labels.len() == i,
            forall|k: int| 0 <= k < i
                ==> (#[trigger] labels[k]) == NOISE_ID
                    || (0 <= labels[k] && labels[k] < n),
            forall|k: int| 0 <= k < i
                ==> (((#[trigger] labels[k]) == NOISE_ID) <==> work[k] == n),
            forall|k: int| 0 <= k < i && work[k] != n
                ==> 0 <= (#[trigger] labels[k]) && labels[k] < reps.len()
                    && reps[labels[k] as int] == work[k],
        decreases n - i,
    {
        let w = work[i];
        if w == n {
            labels.push(NOISE_ID);
        } else {
            let mut found: bool = false;
            let mut id: usize = 0;
            let mut j: usize = 0;
            while j < reps.len()
                invariant
                    j <= reps.len(),
                    found ==> id < reps.len() && reps[id as int] == w,
                    !found ==> forall|a: int| 0 <= a < j ==> (#[trigger] reps[a]) != w,
                decreases reps.len() - j,
            {
                if !found && reps[j] == w {
                    found = true;
                    id = j;
                }
                j = j + 1;
            }
            if found {
                assert(id < reps.len());
                assert(reps.len() <= i < n < 0x4000_0000_0000_0000);
                labels.push(id as i64);
            } else {
                let id2 = reps.len();
                reps.push(w);
                assert(id2 < n < 0x4000_0000_0000_0000);
                labels.push(id2 as i64);
            }
        }
        i = i + 1;
    }
    proof {
        assert forall|k: int| 0 <= k < labels@.len()
            implies (((#[trigger] labels@[k]) == NOISE_ID)
                <==> (!spec_is_core(pts, eps, mp, k)
                    && !spec_has_core_neighbor(pts, eps, mp, k))) by {
            if spec_is_core(pts, eps, mp, k) {
                assert(core[k]);
                assert(work[k] < n);
                // A core point is within distance zero of itself only when
                // the squared radius is representable, so it need not be
                // its own witness; being core already rules out noise.
                assert(labels@[k] != NOISE_ID);
            } else {
                assert(!core[k]);
            }
        }
        assert forall|a: int, b: int| 0 <= a < labels@.len() && 0 <= b < labels@.len()
            && spec_is_core(pts, eps, mp, a) && spec_is_core(pts, eps, mp, b)
            && spec_neighbors(pts[a], pts[b], eps)
            implies (#[trigger] labels@[a]) == (#[trigger] labels@[b]) by {
            assert(core[a] && core[b]);
            assert(work[a] == work[b]);
            assert(work[a] < n);
            assert(reps[labels@[a] as int] == work[a]);
            assert(reps[labels@[b] as int] == work[b]);
            if labels@[a] != labels@[b] {
                assert(reps[labels@[a] as int] != reps[labels@[b] as int]);
                assert(false);
            }
        }
    }
    labels
}

} // verus!
