//! The per-sensor locator: detection data types, construction, and the
//! exact pinhole projections between the lidar, camera, and world frames.

use vstd::prelude::*;
use crate::rat::{Rat, spec_mul, spec_div, spec_round};
use crate::vecmat::{
    Mat3, Mat4, Point3, spec_mat3_mul_point, mat3_mul_point, spec_mat4_apply_homog,
    mat4_apply_homog, spec_point_add, point_add, spec_dot3_plus, dot3_plus,
};
use crate::transform::{MatrixWithInverse, Transform};
use crate::LocateError;

verus! {

/// Number of recent per-frame depth rasters kept by a locator.
pub const DEPTH_MAP_QUEUE_SIZE: usize = 3;

/// Classes of robots a detector can report.
#[derive(Clone, Copy, PartialEq, Eq, Structural, Debug, Hash)]
pub enum RobotLabel {
    Hero,
    Engineer,
    InfantryThree,
    InfantryFour,
    InfantryFive,
    Sentry,
}

impl RobotLabel {
    /// Stable index of the label, used to keep label maps deterministic.
    pub open spec fn spec_index(self) -> int {
        match self {
            RobotLabel::Hero => 0,
            RobotLabel::Engineer => 1,
            RobotLabel::InfantryThree => 2,
            RobotLabel::InfantryFour => 3,
            RobotLabel::InfantryFive => 4,
            RobotLabel::Sentry => 5,
        }
    }

    /// Stable index of the label, used to keep label maps deterministic.
    pub fn index(&self) -> (r: usize)
        ensures
            r as int == self.spec_index(),
            r < 6,
    {
        match self {
            RobotLabel::Hero => 0,
            RobotLabel::Engineer => 1,
            RobotLabel::InfantryThree => 2,
            RobotLabel::InfantryFour => 3,
            RobotLabel::InfantryFive => 4,
            RobotLabel::Sentry => 5,
        }
    }

    /// The abbreviated class name written into label files.
    pub fn name_abbr(&self) -> (r: &'static str)
        ensures
            r@ == self.spec_name_abbr(),
    {
        let s: &'static str = match self {
            RobotLabel::Hero => "R1",
            RobotLabel::Engineer => "R2",
            RobotLabel::InfantryThree => "R3",
            RobotLabel::InfantryFour => "R4",
            RobotLabel::InfantryFive => "R5",
            RobotLabel::Sentry => "R7",
        };
        proof {
            reveal_strlit("R1");
            reveal_strlit("R2");
            reveal_strlit("R3");
            reveal_strlit("R4");
            reveal_strlit("R5");
            reveal_strlit("R7");
        }
        s
    }

    pub open spec fn spec_name_abbr(self) -> Seq<char> {
        match self {
            RobotLabel::Hero => seq!['R', '1'],
            RobotLabel::Engineer => seq!['R', '2'],
            RobotLabel::InfantryThree => seq!['R', '3'],
            RobotLabel::InfantryFour => seq!['R', '4'],
            RobotLabel::InfantryFive => seq!['R', '5'],
            RobotLabel::Sentry => seq!['R', '7'],
        }
    }
}

/// An axis-aligned 2D box in image pixel space.
#[derive(Clone, Copy, PartialEq, Eq, Structural, Debug)]
pub struct BBox {
    pub x_center: Rat,
    pub y_center: Rat,
    pub width: Rat,
    pub height: Rat,
}

impl BBox {
    pub open spec fn wf(self) -> bool {
        self.x_center.wf() && self.y_center.wf() && self.width.wf() && self.height.wf()
    }

    pub fn new(x_center: Rat, y_center: Rat, width: Rat, height: Rat) -> (r: BBox)
        ensures
            r == (BBox { x_center, y_center, width, height }),
    {
        BBox { x_center, y_center, width, height }
    }
}

/// One 2D detection: a class label with its bounding box.
#[derive(Clone, Copy, PartialEq, Eq, Structural, Debug)]
pub struct RobotDetection {
    pub label: RobotLabel,
    pub bbox: BBox,
}

impl RobotDetection {
    pub open spec fn wf(self) -> bool {
        self.bbox.wf()
    }

    pub fn new(label: RobotLabel, bbox: BBox) -> (r: RobotDetection)
        ensures
            r == (RobotDetection { label, bbox }),
    {
        RobotDetection { label, bbox }
    }

    /// The detection's bounding box.
    pub fn bbox(&self) -> (r: BBox)
        ensures
            r == self.bbox,
    {
        self.bbox
    }
}

/// A located robot: lidar-frame center and axis-aligned extents.
#[derive(Clone, Copy, PartialEq, Eq, Structural, Debug)]
pub struct RobotLocation {
    pub center: Point3,
    pub width: Rat,
    pub height: Rat,
    pub depth: Rat,
}

impl RobotLocation {
    pub open spec fn wf(self) -> bool {
        self.center.wf() && self.width.wf() && self.height.wf() && self.depth.wf()
    }
}

/// Whether a lidar point is usable: every component is a nonzero value
/// (the counterpart of requiring finite, normal, nonzero coordinates).
pub open spec fn spec_point_valid(p: Point3) -> bool {
    p.x.num != 0 && p.y.num != 0 && p.z.num != 0
}

pub fn point_valid(p: &Point3) -> (r: bool)
    requires
        p.wf(),
    ensures
        r == spec_point_valid(*p),
{
    p.x.num != 0 && p.y.num != 0 && p.z.num != 0
}

/// The per-sensor locator: immutable calibration plus the mutable
/// background-depth state that persists across frames.
pub struct Locator {
    pub camera_intrinsic: MatrixWithInverse,
    pub lidar_to_camera: Transform,
    pub world_to_camera: Transform,
    pub cluster_epsilon: Rat,
    pub cluster_min_points: usize,
    pub min_distance_to_background: Rat,
    pub max_distance_to_background: Rat,
    pub max_valid_distance: Rat,
    pub image_width: usize,
    pub image_height: usize,
    pub background_depth_map: Vec<Rat>,
    pub depth_map_queue: Vec<Vec<Rat>>,
}

/// The deep view of the raster queue.
pub open spec fn queue_view(q: Seq<Vec<Rat>>) -> Seq<Seq<Rat>> {
    q.map(|i: int, v: Vec<Rat>| v@)
}

impl Locator {
    /// Calibration is well-formed and the rasters have the configured size.
    pub open spec fn wf(self) -> bool {
        self.image_width <= 0x4000_0000
            && self.image_height <= 0x4000_0000
            && self.camera_intrinsic.wf()
            && self.lidar_to_camera.wf()
            && self.world_to_camera.wf()
            && self.cluster_epsilon.wf()
            && self.min_distance_to_background.wf()
            && self.max_distance_to_background.wf()
            && self.max_valid_distance.wf()
            && self.background_depth_map.len() == self.image_width * self.image_height
            && (forall|i: int| 0 <= i < self.background_depth_map.len()
                ==> (#[trigger] self.background_depth_map[i]).wf())
            && self.depth_map_queue.len() <= DEPTH_MAP_QUEUE_SIZE
            && (forall|q: int| 0 <= q < self.depth_map_queue.len()
                ==> (#[trigger] self.depth_map_queue[q]).len()
                    == self.image_width * self.image_height)
            && (forall|q: int, i: int| 0 <= q < self.depth_map_queue.len()
                && 0 <= i < self.depth_map_queue[q].len()
                ==> (#[trigger] self.depth_map_queue[q][i]).wf())
    }

    /// The calibration and configuration fields of `self` and `other` agree.
    pub open spec fn same_config(self, other: Locator) -> bool {
        self.camera_intrinsic == other.camera_intrinsic
            && self.lidar_to_camera == other.lidar_to_camera
            && self.world_to_camera == other.world_to_camera
            && self.cluster_epsilon == other.cluster_epsilon
            && self.cluster_min_points == other.cluster_min_points
            && self.min_distance_to_background == other.min_distance_to_background
            && self.max_distance_to_background == other.max_distance_to_background
            && self.max_valid_distance == other.max_valid_distance
            && self.image_width == other.image_width
            && self.image_height == other.image_height
    }

    /// Build a locator. Fails with `SingularMatrix` when a supplied matrix
    /// (or an extrinsic's rotation block) has exact determinant zero, and
    /// with `NumericOverflow` when exact arithmetic leaves the
    /// representable range.
    #[allow(clippy::too_many_arguments)]
    pub fn new(
        image_width: usize,
        image_height: usize,
        camera_intrinsic: Mat3,
        lidar_to_camera_transform: Mat4,
        world_to_camera_transform: Mat4,
        cluster_epsilon: Rat,
        cluster_min_points: usize,
        min_distance_to_background: Rat,
        max_distance_to_background: Rat,
        max_valid_distance: Rat,
    ) -> (r: Result<Locator, LocateError>)
        requires
            camera_intrinsic.wf(),
            lidar_to_camera_transform.wf(),
            world_to_camera_transform.wf(),
            cluster_epsilon.wf(),
            min_distance_to_background.wf(),
            max_distance_to_background.wf(),
            max_valid_distance.wf(),
            image_width <= 0x4000_0000,
            image_height <= 0x4000_0000,
        ensures
            r matches Ok(l) ==> l.wf()
                && l.camera_intrinsic.matrix == camera_intrinsic
                && l.lidar_to_camera.transform_matrix == lidar_to_camera_transform
                && l.world_to_camera.transform_matrix == world_to_camera_transform
                && l.cluster_epsilon == cluster_epsilon
                && l.cluster_min_points == cluster_min_points
                && l.min_distance_to_background == min_distance_to_background
                && l.max_distance_to_background == max_distance_to_background
                && l.max_valid_distance == max_valid_distance
                && l.image_width == image_width
                && l.image_height == image_height
                && l.depth_map_queue.len() == 0
                && l.background_depth_map.len() == image_width * image_height
                && (forall|i: int| 0 <= i < l.background_depth_map.len()
                    ==> (#[trigger] l.background_depth_map[i]).num == 0
                        && l.background_depth_map[i].den == 1),
            r is Ok <==> (crate::transform::spec_mat3_exactly_invertible(camera_intrinsic)
                && crate::transform::spec_mat4_exactly_invertible(lidar_to_camera_transform)
                && crate::transform::spec_mat4_exactly_invertible(world_to_camera_transform)
                && image_width * image_height <= usize::MAX),
            crate::vecmat::spec_det3(camera_intrinsic) matches Some(d) && d.num == 0
                ==> r == Err::<Locator, LocateError>(LocateError::SingularMatrix),
            crate::transform::spec_mat3_exactly_invertible(camera_intrinsic)
                && spec_mat4_singular(lidar_to_camera_transform)
                ==> r == Err::<Locator, LocateError>(LocateError::SingularMatrix),
            crate::transform::spec_mat3_exactly_invertible(camera_intrinsic)
                && crate::transform::spec_mat4_exactly_invertible(lidar_to_camera_transform)
                && spec_mat4_singular(world_to_camera_transform)
                ==> r == Err::<Locator, LocateError>(LocateError::SingularMatrix),
            r == Err::<Locator, LocateError>(LocateError::SingularMatrix)
                ==> spec_mat3_singular(camera_intrinsic)
                    || spec_mat4_singular(lidar_to_camera_transform)
                    || spec_mat4_singular(world_to_camera_transform),
    {
        let intrinsic = match MatrixWithInverse::try_from(camera_intrinsic) {
            Ok(v) => v,
            Err(e) => {
                return Err(e);
            },
        };
        let l2c = match Transform::try_from(lidar_to_camera_transform) {
            Ok(v) => v,
            Err(e) => {
                return Err(e);
            },
        };
        let w2c = match Transform::try_from(world_to_camera_transform) {
            Ok(v) => v,
            Err(e) => {
                return Err(e);
            },
        };
        let size: usize = match image_width.checked_mul(image_height) {
            Some(v) => v,
            None => {
                return Err(LocateError::NumericOverflow);
            },
        };
        let mut background_depth_map: Vec<Rat> = Vec::new();
        let mut i: usize = 0;
        while i < size
            invariant
                i <= size,
                background_depth_map.len() == i,
                forall|j: int| 0 <= j < i
                    ==> (#[trigger] background_depth_map[j]).num == 0
                        && background_depth_map[j].den == 1,
            decreases size - i,
        {
            background_depth_map.push(Rat::zero());
            i = i + 1;
        }
        Ok(Locator {
            camera_intrinsic: intrinsic,
            lidar_to_camera: l2c,
            world_to_camera: w2c,
            cluster_epsilon,
            cluster_min_points,
            min_distance_to_background,
            max_distance_to_background,
            max_valid_distance,
            image_width,
            image_height,
            background_depth_map,
            depth_map_queue: Vec::new(),
        })
    }

    /// Exact projection of a lidar-frame point into the camera image:
    /// extrinsic, then intrinsic, then the perspective divide. The result
    /// is `(u, v, depth)`; `None` when the camera-frame depth is exactly
    /// zero or a value cannot be represented.
    pub open spec fn spec_lidar_to_camera(self, p: Point3) -> Option<Point3> {
        match spec_mat4_apply_homog(self.lidar_to_camera.transform_matrix, p) {
            None => None,
            Some(q) => match spec_mat3_mul_point(self.camera_intrinsic.matrix, q) {
                None => None,
                Some(c) => if c.z.num == 0 {
                    None
                } else {
                    match spec_div(c.x, c.z) {
                        None => None,
                        Some(u) => match spec_div(c.y, c.z) {
                            None => None,
                            Some(v) => Some(Point3 { x: u, y: v, z: c.z }),
                        },
                    }
                },
            },
        }
    }

    /// See `spec_lidar_to_camera`.
    pub fn lidar_to_camera(&self, point: &Point3) -> (r: Option<Point3>)
        requires
            self.wf(),
            point.wf(),
        ensures
            r == self.spec_lidar_to_camera(*point),
            r matches Some(c) ==> c.wf(),
    {
        let q = match mat4_apply_homog(&self.lidar_to_camera.transform_matrix, point) {
            Some(v) => v,
            None => return None,
        };
        let c = match mat3_mul_point(&self.camera_intrinsic.matrix, &q) {
            Some(v) => v,
            None => return None,
        };
        if c.z.num == 0 {
            return None;
        }
        let u = match c.x.try_div(&c.z) {
            Some(v) => v,
            None => return None,
        };
        let v = match c.y.try_div(&c.z) {
            Some(v) => v,
            None => return None,
        };
        Some(Point3 { x: u, y: v, z: c.z })
    }

    /// Exact unprojection of an image point `(u, v)` at camera depth `z`
    /// back to the lidar frame: the inverse intrinsic applied to
    /// `(u*z, v*z, z)`, then the inverse extrinsic rotation after removing
    /// the translation.
    pub open spec fn spec_camera_to_lidar(self, p: Point3) -> Option<Point3> {
        match spec_mul(p.x, p.z) {
            None => None,
            Some(sx) => match spec_mul(p.y, p.z) {
                None => None,
                Some(sy) => match spec_mat3_mul_point(
                    self.camera_intrinsic.matrix_inverse,
                    Point3 { x: sx, y: sy, z: p.z },
                ) {
                    None => None,
                    Some(w) => match spec_point_add(
                        w,
                        self.lidar_to_camera.translation_vector_inverse,
                    ) {
                        None => None,
                        Some(w2) => spec_mat3_mul_point(
                            self.lidar_to_camera.rotation_matrix_inverse,
                            w2,
                        ),
                    },
                },
            },
        }
    }

    /// See `spec_camera_to_lidar`.
    pub fn camera_to_lidar(&self, point: &Point3) -> (r: Option<Point3>)
        requires
            self.wf(),
            point.wf(),
        ensures
            r == self.spec_camera_to_lidar(*point),
            r matches Some(p) ==> p.wf(),
    {
        let sx = match point.x.try_mul(&point.z) {
            Some(v) => v,
            None => return None,
        };
        let sy = match point.y.try_mul(&point.z) {
            Some(v) => v,
            None => return None,
        };
        let s = Point3 { x: sx, y: sy, z: point.z };
        let w = match mat3_mul_point(&self.camera_intrinsic.matrix_inverse, &s) {
            Some(v) => v,
            None => return None,
        };
        let w2 = match point_add(&w, &self.lidar_to_camera.translation_vector_inverse) {
            Some(v) => v,
            None => return None,
        };
        mat3_mul_point(&self.lidar_to_camera.rotation_matrix_inverse, &w2)
    }

    /// Exact transport of a lidar-frame point into the world frame: the
    /// lidar-to-camera extrinsic followed by the inverse of the
    /// world-to-camera extrinsic, both applied as full homogeneous maps.
    pub open spec fn spec_lidar_to_world(self, p: Point3) -> Option<Point3> {
        match spec_hom4_apply(self.lidar_to_camera.transform_matrix, p.x, p.y, p.z,
            Rat { num: 1, den: 1 }) {
            None => None,
            Some(h) => match spec_hom4_apply(
                self.world_to_camera.transform_matrix_inverse, h.0, h.1, h.2, h.3,
            ) {
                None => None,
                Some(o) => Some(Point3 { x: o.0, y: o.1, z: o.2 }),
            },
        }
    }

    /// See `spec_lidar_to_world`.
    pub fn lidar_to_world(&self, point: &Point3) -> (r: Option<Point3>)
        requires
            self.wf(),
            point.wf(),
        ensures
            r == self.spec_lidar_to_world(*point),
            r matches Some(p) ==> p.wf(),
    {
        let one = Rat { num: 1, den: 1 };
        let h = match hom4_apply(
            &self.lidar_to_camera.transform_matrix, &point.x, &point.y, &point.z, &one,
        ) {
            Some(v) => v,
            None => return None,
        };
        let o = match hom4_apply(
            &self.world_to_camera.transform_matrix_inverse, &h.0, &h.1, &h.2, &h.3,
        ) {
            Some(v) => v,
            None => return None,
        };
        Some(Point3 { x: o.0, y: o.1, z: o.2 })
    }
}

/// The matrix `m` has an exact determinant of zero.
pub open spec fn spec_mat3_singular(m: Mat3) -> bool {
    crate::vecmat::spec_det3(m) matches Some(d) && d.num == 0
}

/// The matrix `m` or its rotation block has an exact determinant of zero.
pub open spec fn spec_mat4_singular(m: Mat4) -> bool {
    (crate::vecmat::spec_det4(m) matches Some(d) && d.num == 0)
        || ((crate::vecmat::spec_det4(m) matches Some(d) && d.num != 0)
            && (crate::vecmat::spec_det3(crate::vecmat::spec_rotation_block(m))
                matches Some(e) && e.num == 0))
}

/// Application of a 4×4 matrix to a full homogeneous column.
pub open spec fn spec_hom4_apply(m: Mat4, x: Rat, y: Rat, z: Rat, w: Rat)
    -> Option<(Rat, Rat, Rat, Rat)> {
    match spec_dot3_plus_scaled(m.m00, x, m.m01, y, m.m02, z, m.m03, w) {
        None => None,
        Some(ox) => match spec_dot3_plus_scaled(m.m10, x, m.m11, y, m.m12, z, m.m13, w) {
            None => None,
            Some(oy) => match spec_dot3_plus_scaled(m.m20, x, m.m21, y, m.m22, z, m.m23, w) {
                None => None,
                Some(oz) => match spec_dot3_plus_scaled(
                    m.m30, x, m.m31, y, m.m32, z, m.m33, w,
                ) {
                    None => None,
                    Some(ow) => Some((ox, oy, oz, ow)),
                },
            },
        },
    }
}

/// The exact value of `a*x + b*y + c*z + d*w`.
pub open spec fn spec_dot3_plus_scaled(
    a: Rat, x: Rat, b: Rat, y: Rat, c: Rat, z: Rat, d: Rat, w: Rat,
) -> Option<Rat> {
    match spec_mul(d, w) {
        None => None,
        Some(dw) => spec_dot3_plus(a, x, b, y, c, z, dw),
    }
}

fn dot3_plus_scaled(
    a: &Rat, x: &Rat, b: &Rat, y: &Rat, c: &Rat, z: &Rat, d: &Rat, w: &Rat,
) -> (r: Option<Rat>)
    requires
        a.wf(), x.wf(), b.wf(), y.wf(), c.wf(), z.wf(), d.wf(), w.wf(),
    ensures
        r == spec_dot3_plus_scaled(*a, *x, *b, *y, *c, *z, *d, *w),
        r matches Some(v) ==> v.wf(),
{
    let dw = match d.try_mul(w) {
        Some(v) => v,
        None => return None,
    };
    dot3_plus(a, x, b, y, c, z, &dw)
}

/// See `spec_hom4_apply`.
fn hom4_apply(m: &Mat4, x: &Rat, y: &Rat, z: &Rat, w: &Rat)
    -> (r: Option<(Rat, Rat, Rat, Rat)>)
    requires
        m.wf(),
        x.wf(),
        y.wf(),
        z.wf(),
        w.wf(),
    ensures
        r == spec_hom4_apply(*m, *x, *y, *z, *w),
        r matches Some(v) ==> v.0.wf() && v.1.wf() && v.2.wf() && v.3.wf(),
{
    let ox = match dot3_plus_scaled(&m.m00, x, &m.m01, y, &m.m02, z, &m.m03, w) {
        Some(v) => v,
        None => return None,
    };
    let oy = match dot3_plus_scaled(&m.m10, x, &m.m11, y, &m.m12, z, &m.m13, w) {
        Some(v) => v,
        None => return None,
    };
    let oz = match dot3_plus_scaled(&m.m20, x, &m.m21, y, &m.m22, z, &m.m23, w) {
        Some(v) => v,
        None => return None,
    };
    let ow = match dot3_plus_scaled(&m.m30, x, &m.m31, y, &m.m32, z, &m.m33, w) {
        Some(v) => v,
        None => return None,
    };
    Some((ox, oy, oz, ow))
}

} // verus!

verus! {

/// A raster of the given length with every cell zero.
pub open spec fn spec_zero_raster(len: int) -> Seq<Rat> {
    Seq::new(len as nat, |i: int| Rat { num: 0, den: 1 })
}

fn zero_raster(len: usize) -> (r: Vec<Rat>)
    ensures
        r@ == spec_zero_raster(len as int),
{
    let mut r: Vec<Rat> = Vec::new();
    let mut i: usize = 0;
    while i < len
        invariant
            i <= len,
            r.len() == i,
            forall|j: int| 0 <= j < i ==> r[j] == (Rat { num: 0i64, den: 1i64 }),
        decreases len - i,
    {
        r.push(Rat::zero());
        i = i + 1;
    }
    proof {
        assert(r@ =~= spec_zero_raster(len as int));
    }
    r
}

/// One step of the per-frame foreground rule at a single pixel: the
/// absolute difference between the frame depth and the background depth
/// replaces the previous output when it lies strictly between the two
/// thresholds; otherwise the previous output stays. An unrepresentable
/// exact difference also leaves the previous output in place.
pub open spec fn spec_diff_cell(min_d: Rat, max_d: Rat, frame: Rat, bg: Rat, prev: Rat) -> Rat {
    match crate::rat::spec_sub(frame, bg) {
        None => prev,
        Some(d) => {
            let a = crate::rat::spec_abs(d);
            if min_d.spec_lt(a) && a.spec_lt(max_d) {
                a
            } else {
                prev
            }
        },
    }
}

/// The queue of recent rasters after pushing a new one: the oldest raster
/// is evicted when the queue would exceed its capacity.
pub open spec fn spec_queue_after(q: Seq<Seq<Rat>>, r: Seq<Rat>) -> Seq<Seq<Rat>> {
    let q2 = q.push(r);
    if q2.len() > DEPTH_MAP_QUEUE_SIZE { q2.remove(0) } else { q2 }
}

impl Locator {
    /// Where a lidar point lands in the image: `Some((u, v, depth))` when
    /// the point is valid, within the configured distance, projects with
    /// nonzero camera depth, and its rounded pixel lies inside the raster.
    pub open spec fn spec_point_pixel(self, p: Point3) -> Option<(int, int, Rat)> {
        if !spec_point_valid(p) {
            None
        } else if self.max_valid_distance.spec_lt(p.x) {
            None
        } else {
            match self.spec_lidar_to_camera(p) {
                None => None,
                Some(c) => {
                    let u = spec_round(c.x);
                    let v = spec_round(c.y);
                    if 0 <= u < self.image_width && 0 <= v < self.image_height {
                        Some((u, v, c.z))
                    } else {
                        None
                    }
                },
            }
        }
    }

    /// See `spec_point_pixel`.
    pub fn project_point(&self, point: &Point3) -> (r: Option<(usize, usize, Rat)>)
        requires
            self.wf(),
            point.wf(),
        ensures
            r matches Some(t) ==> self.spec_point_pixel(*point)
                == Some((t.0 as int, t.1 as int, t.2))
                && t.0 < self.image_width && t.1 < self.image_height && t.2.wf(),
            r is None ==> self.spec_point_pixel(*point) is None,
    {
        if !point_valid(point) {
            return None;
        }
        if self.max_valid_distance.lt(&point.x) {
            return None;
        }
        let c = match self.lidar_to_camera(point) {
            Some(v) => v,
            None => return None,
        };
        let u = c.x.round();
        let v = c.y.round();
        if u < 0 || v < 0 {
            return None;
        }
        let uu = u as u64;
        let vv = v as u64;
        if uu >= self.image_width as u64 || vv >= self.image_height as u64 {
            return None;
        }
        Some((uu as usize, vv as usize, c.z))
    }

    /// The frame raster and background raster after integrating the first
    /// `n` points: each projected point writes its depth into the frame
    /// raster (last write wins) and raises the background cell to the
    /// running per-pixel maximum.
    pub open spec fn spec_integrate(
        self,
        raster: Seq<Rat>,
        bg: Seq<Rat>,
        points: Seq<Point3>,
        n: int,
    ) -> (Seq<Rat>, Seq<Rat>)
        decreases n,
    {
        if n <= 0 {
            (raster, bg)
        } else {
            let prev = self.spec_integrate(raster, bg, points, n - 1);
            match self.spec_point_pixel(points[n - 1]) {
                None => prev,
                Some(t) => {
                    let idx = t.1 * self.image_width + t.0;
                    let r2 = prev.0.update(idx, t.2);
                    let b2 = if prev.1[idx].spec_lt(t.2) {
                        prev.1.update(idx, t.2)
                    } else {
                        prev.1
                    };
                    (r2, b2)
                },
            }
        }
    }

    /// The foreground value at pixel `i` after folding the first `k`
    /// rasters of the queue (oldest first) with `spec_diff_cell`.
    pub open spec fn spec_fg_cell(self, queue: Seq<Seq<Rat>>, bg: Rat, i: int, k: int) -> Rat
        decreases k,
    {
        if k <= 0 {
            Rat { num: 0, den: 1 }
        } else {
            let prev = self.spec_fg_cell(queue, bg, i, k - 1);
            spec_diff_cell(
                self.min_distance_to_background,
                self.max_distance_to_background,
                queue[k - 1][i],
                bg,
                prev,
            )
        }
    }
}

/// Projection depends only on a locator's calibration, not on its mutable
/// raster state.
pub proof fn lemma_pixel_same_config(a: Locator, b: Locator, p: Point3)
    requires
        a.same_config(b),
    ensures
        a.spec_point_pixel(p) == b.spec_point_pixel(p),
{
}

impl Locator {
    /// Integrate one frame of lidar points into the background model and
    /// return the combined foreground difference raster.
    ///
    /// The contract mirrors the whole stateful step exactly: the new
    /// background and frame raster are `spec_integrate` of the points; the
    /// raster queue gains the frame raster and drops its oldest entry
    /// beyond the capacity of `DEPTH_MAP_QUEUE_SIZE`; and every output
    /// pixel is the fold of `spec_diff_cell` over the updated queue
    /// against the updated background.
    pub fn get_robot_depth_map(&mut self, points: &[Point3]) -> (diff: Vec<Rat>)
        requires
            old(self).wf(),
            forall|i: int| 0 <= i < points@.len() ==> (#[trigger] points@[i]).wf(),
        ensures
            final(self).wf(),
            old(self).same_config(*final(self)),
            ({
                let res = old(self).spec_integrate(
                    spec_zero_raster(old(self).image_width * old(self).image_height),
                    old(self).background_depth_map@,
                    points@,
                    points@.len() as int,
                );
                final(self).background_depth_map@ == res.1
                    && queue_view(final(self).depth_map_queue@)
                        == spec_queue_after(queue_view(old(self).depth_map_queue@), res.0)
            }),
            final(self).depth_map_queue.len() == if old(self).depth_map_queue.len()
                < DEPTH_MAP_QUEUE_SIZE {
                old(self).depth_map_queue.len() + 1
            } else {
                DEPTH_MAP_QUEUE_SIZE as int
            },
            diff.len() == old(self).image_width * old(self).image_height,
            forall|i: int| 0 <= i < diff.len() ==> (#[trigger] diff[i]).wf(),
            forall|i: int| 0 <= i < diff.len() ==> #[trigger] diff[i] == final(self).spec_fg_cell(
                queue_view(final(self).depth_map_queue@),
                final(self).background_depth_map@[i],
                i,
                final(self).depth_map_queue.len() as int,
            ),
    {
        let size: usize = self.background_depth_map.len();
        let ghost init_bg = self.background_depth_map@;
        let mut raster: Vec<Rat> = zero_raster(size);
        let mut n: usize = 0;
        while n < points.len()
            invariant
                n <= points@.len(),
                forall|i: int| 0 <= i < points@.len() ==> (#[trigger] points@[i]).wf(),
                self.wf(),
                old(self).same_config(*self),
                self.depth_map_queue == old(self).depth_map_queue,
                size == self.image_width * self.image_height,
                raster.len() == size,
                forall|i: int| 0 <= i < raster.len() ==> (#[trigger] raster[i]).wf(),
                init_bg == old(self).background_depth_map@,
                (raster@, self.background_depth_map@) == old(self).spec_integrate(
                    spec_zero_raster(size as int),
                    init_bg,
                    points@,
                    n as int,
                ),
            decreases points@.len() - n,
        {
            let point = &points[n];
            let pr = self.project_point(point);
            proof {
                lemma_pixel_same_config(*self, *old(self), *point);
            }
            match pr {
                None => {},
                Some((u, v, depth)) => {
                    proof {
                        assert((v as int) * (self.image_width as int) + (u as int)
                            < (self.image_height as int) * (self.image_width as int))
                            by (nonlinear_arith)
                            requires
                                (u as int) < (self.image_width as int),
                                (v as int) < (self.image_height as int),
                                0 <= u as int,
                                0 <= v as int;
                        assert(self.image_width * self.image_height
                            == self.image_height * self.image_width) by (nonlinear_arith);
                    }
                    let idx: usize = v * self.image_width + u;
                    raster[idx] = depth;
                    let cur = self.background_depth_map[idx];
                    if cur.lt(&depth) {
                        self.background_depth_map[idx] = depth;
                    }
                },
            }
            n = n + 1;
        }
        let ghost res = old(self).spec_integrate(
            spec_zero_raster(size as int),
            init_bg,
            points@,
            points@.len() as int,
        );
        // Push the frame raster; evict the oldest raster beyond capacity.
        let ghost queue_before = queue_view(self.depth_map_queue@);
        let ghost raster_view = raster@;
        self.depth_map_queue.push(raster);
        if self.depth_map_queue.len() > DEPTH_MAP_QUEUE_SIZE {
            self.depth_map_queue.remove(0);
        }
        proof {
            assert(queue_view(self.depth_map_queue@)
                =~= spec_queue_after(queue_before, raster_view));
        }
        // Fold every queued raster into the combined foreground raster.
        let mut diff: Vec<Rat> = zero_raster(size);
        let qlen: usize = self.depth_map_queue.len();
        let mut q: usize = 0;
        while q < qlen
            invariant
                q <= qlen,
                self.wf(),
                qlen == self.depth_map_queue.len(),
                size == self.image_width * self.image_height,
                diff.len() == size,
                forall|i: int| 0 <= i < diff.len() ==> (#[trigger] diff[i]).wf(),
                forall|i: int| 0 <= i < diff.len() ==> #[trigger] diff[i] == self.spec_fg_cell(
                    queue_view(self.depth_map_queue@),
                    self.background_depth_map@[i],
                    i,
                    q as int,
                ),
            decreases qlen - q,
        {
            let mut i: usize = 0;
            while i < size
                invariant
                    q < qlen,
                    i <= size,
                    self.wf(),
                    qlen == self.depth_map_queue.len(),
                    size == self.image_width * self.image_height,
                    diff.len() == size,
                    forall|j: int| 0 <= j < diff.len() ==> (#[trigger] diff[j]).wf(),
                    forall|j: int| 0 <= j < i ==> #[trigger] diff[j] == self.spec_fg_cell(
                        queue_view(self.depth_map_queue@),
                        self.background_depth_map@[j],
                        j,
                        q as int + 1,
                    ),
                    forall|j: int| i <= j < diff.len() ==> #[trigger] diff[j]
                        == self.spec_fg_cell(
                        queue_view(self.depth_map_queue@),
                        self.background_depth_map@[j],
                        j,
                        q as int,
                    ),
                decreases size - i,
            {
                let frame_val = self.depth_map_queue[q][i];
                let bg_val = self.background_depth_map[i];
                assert(frame_val.wf());
                assert(frame_val == queue_view(self.depth_map_queue@)[q as int][i as int]);
                match frame_val.try_sub(&bg_val) {
                    None => {},
                    Some(d) => {
                        let a = d.abs_val();
                        if self.min_distance_to_background.lt(&a)
                            && a.lt(&self.max_distance_to_background) {
                            diff[i] = a;
                        }
                    },
                }
                i = i + 1;
            }
            q = q + 1;
        }
        diff
    }

    /// Run the background-model step for one frame without producing
    /// clustering or location output.
    pub fn update_background_depth_map(&mut self, points: &[Point3])
        requires
            old(self).wf(),
            forall|i: int| 0 <= i < points@.len() ==> (#[trigger] points@[i]).wf(),
        ensures
            final(self).wf(),
            old(self).same_config(*final(self)),
            ({
                let res = old(self).spec_integrate(
                    spec_zero_raster(old(self).image_width * old(self).image_height),
                    old(self).background_depth_map@,
                    points@,
                    points@.len() as int,
                );
                final(self).background_depth_map@ == res.1
                    && queue_view(final(self).depth_map_queue@)
                        == spec_queue_after(queue_view(old(self).depth_map_queue@), res.0)
            }),
            final(self).depth_map_queue.len() == if old(self).depth_map_queue.len()
                < DEPTH_MAP_QUEUE_SIZE {
                old(self).depth_map_queue.len() + 1
            } else {
                DEPTH_MAP_QUEUE_SIZE as int
            },
    {
        let _ = self.get_robot_depth_map(points);
    }
}

} // verus!

verus! {

impl Locator {
    /// The depth that point `p` writes at raster index `i`, if it projects
    /// there.
    pub open spec fn spec_point_hits(self, p: Point3, i: int) -> Option<Rat> {
        match self.spec_point_pixel(p) {
            None => None,
            Some(t) => if t.1 * (self.image_width as int) + t.0 == i {
                Some(t.2)
            } else {
                None
            },
        }
    }
}

/// A depth produced by projection is well-formed.
pub proof fn lemma_pixel_wf(l: Locator, p: Point3)
    ensures
        l.spec_point_pixel(p) matches Some(t) ==> t.2.wf()
            && 0 <= t.0 < l.image_width && 0 <= t.1 < l.image_height,
{
}

/// Background monotonicity: integrating one frame never lowers a
/// background cell, every depth projected onto a cell this frame is
/// bounded by the new cell, and the new cell is either the old cell or
/// one of this frame's projected depths — together: the new cell is
/// exactly the maximum of the old cell and the frame's observations at
/// that pixel.
#[verifier::rlimit(100)]
pub proof fn lemma_background_running_max(
    l: Locator,
    raster: Seq<Rat>,
    bg: Seq<Rat>,
    points: Seq<Point3>,
    n: int,
)
    requires
        0 <= n <= points.len(),
        bg.len() == l.image_width * l.image_height,
        forall|i: int| 0 <= i < bg.len() ==> (#[trigger] bg[i]).wf(),
    ensures
        l.spec_integrate(raster, bg, points, n).1.len() == bg.len(),
        forall|i: int| 0 <= i < bg.len()
            ==> (#[trigger] l.spec_integrate(raster, bg, points, n).1[i]).wf(),
        forall|i: int| 0 <= i < bg.len()
            ==> bg[i].spec_le(#[trigger] l.spec_integrate(raster, bg, points, n).1[i]),
        forall|i: int, k: int| 0 <= i < bg.len() && 0 <= k < n
            && (#[trigger] l.spec_point_hits(points[k], i)) is Some
            ==> l.spec_point_hits(points[k], i)->Some_0.spec_le(
                l.spec_integrate(raster, bg, points, n).1[i]),
        forall|i: int| 0 <= i < bg.len()
            ==> (#[trigger] l.spec_integrate(raster, bg, points, n).1[i]) == bg[i]
                || exists|k: int| 0 <= k < n && #[trigger] l.spec_point_hits(points[k], i)
                    == Some(l.spec_integrate(raster, bg, points, n).1[i]),
    decreases n,
{
    if n > 0 {
        lemma_background_running_max(l, raster, bg, points, n - 1);
        let prev = l.spec_integrate(raster, bg, points, n - 1);
        let cur = l.spec_integrate(raster, bg, points, n);
        let p = points[n - 1];
        lemma_pixel_wf(l, p);
        match l.spec_point_pixel(p) {
            None => {
                assert(cur == prev);
                assert forall|i: int, k: int| 0 <= i < bg.len() && 0 <= k < n
                    && (#[trigger] l.spec_point_hits(points[k], i)) is Some
                    implies l.spec_point_hits(points[k], i)->Some_0.spec_le(cur.1[i]) by {
                    if k < n - 1 {
                        assert(l.spec_point_hits(points[k], i)->Some_0.spec_le(prev.1[i]));
                    } else {
                        assert(l.spec_point_hits(points[n - 1], i) is None);
                    }
                }
            },
            Some(t) => {
                let idx = t.1 * (l.image_width as int) + t.0;
                assert(0 <= idx < bg.len()) by (nonlinear_arith)
                    requires
                        0 <= t.0 < l.image_width as int,
                        0 <= t.1 < l.image_height as int,
                        idx == t.1 * (l.image_width as int) + t.0,
                        bg.len() == (l.image_width as int) * (l.image_height as int);
                let updated = prev.1[idx].spec_lt(t.2);
                assert(cur.1 == if updated { prev.1.update(idx, t.2) } else { prev.1 });
                // The old cell value never exceeds the new one.
                assert forall|i: int| 0 <= i < bg.len()
                    implies bg[i].spec_le(cur.1[i]) by {
                    if i == idx && updated {
                        crate::rat::lemma_le_trans(bg[idx], prev.1[idx], t.2);
                    } else {
                        assert(cur.1[i] == prev.1[i]);
                    }
                }
                // Every observation of this prefix is bounded by the cell.
                assert forall|i: int, k: int| 0 <= i < bg.len() && 0 <= k < n
                    && (#[trigger] l.spec_point_hits(points[k], i)) is Some
                    implies l.spec_point_hits(points[k], i)->Some_0.spec_le(cur.1[i]) by {
                    let d = l.spec_point_hits(points[k], i)->Some_0;
                    if k < n - 1 {
                        assert(d.spec_le(prev.1[i]));
                        if i == idx && updated {
                            crate::rat::lemma_le_trans(d, prev.1[idx], t.2);
                        } else {
                            assert(cur.1[i] == prev.1[i]);
                        }
                    } else {
                        assert(l.spec_point_hits(p, i) is Some);
                        assert(i == idx && d == t.2);
                        if updated {
                            assert(cur.1[idx] == t.2);
                        } else {
                            assert(!prev.1[idx].spec_lt(t.2));
                            assert(t.2.spec_le(prev.1[idx]));
                        }
                    }
                }
                // The cell is attained by the old value or an observation.
                assert forall|i: int| 0 <= i < bg.len()
                    implies (#[trigger] cur.1[i]) == bg[i]
                        || exists|k: int| 0 <= k < n && #[trigger] l.spec_point_hits(
                            points[k], i) == Some(cur.1[i]) by {
                    if i == idx && updated {
                        assert(l.spec_point_hits(points[n - 1], i) == Some(cur.1[i]));
                    } else {
                        assert(cur.1[i] == prev.1[i]);
                        if prev.1[i] != bg[i] {
                            let k = choose|k: int| 0 <= k < n - 1
                                && #[trigger] l.spec_point_hits(points[k], i)
                                    == Some(prev.1[i]);
                            assert(l.spec_point_hits(points[k], i) == Some(cur.1[i]));
                        }
                    }
                }
            },
        }
    }
}

/// The raster queue keeps exactly the last `DEPTH_MAP_QUEUE_SIZE` frames:
/// pushing onto a shorter queue grows it by one, pushing onto a full
/// queue keeps it full.
pub proof fn lemma_fifo_bound(q: Seq<Seq<Rat>>, r: Seq<Rat>)
    requires
        q.len() <= DEPTH_MAP_QUEUE_SIZE,
    ensures
        spec_queue_after(q, r).len() == if q.len() < DEPTH_MAP_QUEUE_SIZE {
            q.len() + 1
        } else {
            DEPTH_MAP_QUEUE_SIZE as nat
        },
        spec_queue_after(q, r)[spec_queue_after(q, r).len() - 1] == r,
{
}

} // verus!
