//! Exact 3-vectors and 3×3 / 4×4 matrices over rational scalars.
//!
//! Every executable operation mirrors a spec function exactly, so the whole
//! linear-algebra layer is deterministic: an operation reports `None` when
//! an intermediate exact value would leave the representable range.

use vstd::prelude::*;
use crate::rat::{Rat, spec_add, spec_sub, spec_mul, spec_div};

verus! {

/// A 3-component column of rational scalars: a point or a vector,
/// depending on context.
#[derive(Clone, Copy, PartialEq, Eq, Structural, Debug)]
pub struct Point3 {
    pub x: Rat,
    pub y: Rat,
    pub z: Rat,
}

impl Point3 {
    pub open spec fn wf(self) -> bool {
        self.x.wf() && self.y.wf() && self.z.wf()
    }

    pub fn new(x: Rat, y: Rat, z: Rat) -> (r: Point3)
        ensures
            r == (Point3 { x, y, z }),
    {
        Point3 { x, y, z }
    }

    /// Component-wise negation.
    pub fn neg(&self) -> (r: Point3)
        requires
            self.wf(),
        ensures
            r.wf(),
            r.x.num == -self.x.num && r.x.den == self.x.den,
            r.y.num == -self.y.num && r.y.den == self.y.den,
            r.z.num == -self.z.num && r.z.den == self.z.den,
    {
        Point3 { x: self.x.neg(), y: self.y.neg(), z: self.z.neg() }
    }
}

/// Component-wise sum of two columns.
pub open spec fn spec_point_add(a: Point3, b: Point3) -> Option<Point3> {
    match spec_add(a.x, b.x) {
        None => None,
        Some(x) => match spec_add(a.y, b.y) {
            None => None,
            Some(y) => match spec_add(a.z, b.z) {
                None => None,
                Some(z) => Some(Point3 { x, y, z }),
            },
        },
    }
}

pub fn point_add(a: &Point3, b: &Point3) -> (r: Option<Point3>)
    requires
        a.wf(),
        b.wf(),
    ensures
        r == spec_point_add(*a, *b),
        r matches Some(p) ==> p.wf(),
{
    let x = match a.x.try_add(&b.x) {
        Some(v) => v,
        None => return None,
    };
    let y = match a.y.try_add(&b.y) {
        Some(v) => v,
        None => return None,
    };
    let z = match a.z.try_add(&b.z) {
        Some(v) => v,
        None => return None,
    };
    Some(Point3 { x, y, z })
}

/// The exact value of `a*x + b*y + c*z`.
pub open spec fn spec_dot3(a: Rat, x: Rat, b: Rat, y: Rat, c: Rat, z: Rat) -> Option<Rat> {
    match spec_mul(a, x) {
        None => None,
        Some(p1) => match spec_mul(b, y) {
            None => None,
            Some(p2) => match spec_add(p1, p2) {
                None => None,
                Some(s1) => match spec_mul(c, z) {
                    None => None,
                    Some(p3) => spec_add(s1, p3),
                },
            },
        },
    }
}

pub fn dot3(a: &Rat, x: &Rat, b: &Rat, y: &Rat, c: &Rat, z: &Rat) -> (r: Option<Rat>)
    requires
        a.wf(),
        x.wf(),
        b.wf(),
        y.wf(),
        c.wf(),
        z.wf(),
    ensures
        r == spec_dot3(*a, *x, *b, *y, *c, *z),
        r matches Some(v) ==> v.wf(),
{
    let p1 = match a.try_mul(x) {
        Some(v) => v,
        None => return None,
    };
    let p2 = match b.try_mul(y) {
        Some(v) => v,
        None => return None,
    };
    let s1 = match p1.try_add(&p2) {
        Some(v) => v,
        None => return None,
    };
    let p3 = match c.try_mul(z) {
        Some(v) => v,
        None => return None,
    };
    s1.try_add(&p3)
}

/// The exact value of `a*x + b*y + c*z + w` (a 4-wide row applied to a
/// homogeneous column whose fourth component is one).
pub open spec fn spec_dot3_plus(a: Rat, x: Rat, b: Rat, y: Rat, c: Rat, z: Rat, w: Rat)
    -> Option<Rat> {
    match spec_dot3(a, x, b, y, c, z) {
        None => None,
        Some(s) => spec_add(s, w),
    }
}

pub fn dot3_plus(a: &Rat, x: &Rat, b: &Rat, y: &Rat, c: &Rat, z: &Rat, w: &Rat)
    -> (r: Option<Rat>)
    requires
        a.wf(),
        x.wf(),
        b.wf(),
        y.wf(),
        c.wf(),
        z.wf(),
        w.wf(),
    ensures
        r == spec_dot3_plus(*a, *x, *b, *y, *c, *z, *w),
        r matches Some(v) ==> v.wf(),
{
    let s = match dot3(a, x, b, y, c, z) {
        Some(v) => v,
        None => return None,
    };
    s.try_add(w)
}

/// A 3×3 matrix of rational scalars, row major.
#[derive(Clone, Copy, PartialEq, Eq, Structural, Debug)]
pub struct Mat3 {
    pub m00: Rat,
    pub m01: Rat,
    pub m02: Rat,
    pub m10: Rat,
    pub m11: Rat,
    pub m12: Rat,
    pub m20: Rat,
    pub m21: Rat,
    pub m22: Rat,
}

impl Mat3 {
    pub open spec fn wf(self) -> bool {
        self.m00.wf() && self.m01.wf() && self.m02.wf()
            && self.m10.wf() && self.m11.wf() && self.m12.wf()
            && self.m20.wf() && self.m21.wf() && self.m22.wf()
    }

    #[allow(clippy::too_many_arguments)]
    pub fn new(
        m00: Rat, m01: Rat, m02: Rat,
        m10: Rat, m11: Rat, m12: Rat,
        m20: Rat, m21: Rat, m22: Rat,
    ) -> (r: Mat3)
        ensures
            r == (Mat3 { m00, m01, m02, m10, m11, m12, m20, m21, m22 }),
    {
        Mat3 { m00, m01, m02, m10, m11, m12, m20, m21, m22 }
    }
}

/// A 4×4 matrix of rational scalars, row major.
#[derive(Clone, Copy, PartialEq, Eq, Structural, Debug)]
pub struct Mat4 {
    pub m00: Rat,
    pub m01: Rat,
    pub m02: Rat,
    pub m03: Rat,
    pub m10: Rat,
    pub m11: Rat,
    pub m12: Rat,
    pub m13: Rat,
    pub m20: Rat,
    pub m21: Rat,
    pub m22: Rat,
    pub m23: Rat,
    pub m30: Rat,
    pub m31: Rat,
    pub m32: Rat,
    pub m33: Rat,
}

impl Mat4 {
    pub open spec fn wf(self) -> bool {
        self.m00.wf() && self.m01.wf() && self.m02.wf() && self.m03.wf()
            && self.m10.wf() && self.m11.wf() && self.m12.wf() && self.m13.wf()
            && self.m20.wf() && self.m21.wf() && self.m22.wf() && self.m23.wf()
            && self.m30.wf() && self.m31.wf() && self.m32.wf() && self.m33.wf()
    }

    #[allow(clippy::too_many_arguments)]
    pub fn new(
        m00: Rat, m01: Rat, m02: Rat, m03: Rat,
        m10: Rat, m11: Rat, m12: Rat, m13: Rat,
        m20: Rat, m21: Rat, m22: Rat, m23: Rat,
        m30: Rat, m31: Rat, m32: Rat, m33: Rat,
    ) -> (r: Mat4)
        ensures
            r == (Mat4 {
                m00, m01, m02, m03,
                m10, m11, m12, m13,
                m20, m21, m22, m23,
                m30, m31, m32, m33,
            }),
    {
        Mat4 {
            m00, m01, m02, m03,
            m10, m11, m12, m13,
            m20, m21, m22, m23,
            m30, m31, m32, m33,
        }
    }

    /// The top-left 3×3 block (the rotation block of an extrinsic matrix).
    pub fn rotation_block(&self) -> (r: Mat3)
        ensures
            r == spec_rotation_block(*self),
    {
        Mat3 {
            m00: self.m00, m01: self.m01, m02: self.m02,
            m10: self.m10, m11: self.m11, m12: self.m12,
            m20: self.m20, m21: self.m21, m22: self.m22,
        }
    }

    /// The translation column (first three entries of the last column).
    pub fn translation_column(&self) -> (r: Point3)
        ensures
            r == spec_translation_column(*self),
    {
        Point3 { x: self.m03, y: self.m13, z: self.m23 }
    }
}

pub open spec fn spec_rotation_block(m: Mat4) -> Mat3 {
    Mat3 {
        m00: m.m00, m01: m.m01, m02: m.m02,
        m10: m.m10, m11: m.m11, m12: m.m12,
        m20: m.m20, m21: m.m21, m22: m.m22,
    }
}

pub open spec fn spec_translation_column(m: Mat4) -> Point3 {
    Point3 { x: m.m03, y: m.m13, z: m.m23 }
}

/// Matrix–vector product `m * v`.
pub open spec fn spec_mat3_mul_point(m: Mat3, v: Point3) -> Option<Point3> {
    match spec_dot3(m.m00, v.x, m.m01, v.y, m.m02, v.z) {
        None => None,
        Some(x) => match spec_dot3(m.m10, v.x, m.m11, v.y, m.m12, v.z) {
            None => None,
            Some(y) => match spec_dot3(m.m20, v.x, m.m21, v.y, m.m22, v.z) {
                None => None,
                Some(z) => Some(Point3 { x, y, z }),
            },
        },
    }
}

pub fn mat3_mul_point(m: &Mat3, v: &Point3) -> (r: Option<Point3>)
    requires
        m.wf(),
        v.wf(),
    ensures
        r == spec_mat3_mul_point(*m, *v),
        r matches Some(p) ==> p.wf(),
{
    let x = match dot3(&m.m00, &v.x, &m.m01, &v.y, &m.m02, &v.z) {
        Some(v) => v,
        None => return None,
    };
    let y = match dot3(&m.m10, &v.x, &m.m11, &v.y, &m.m12, &v.z) {
        Some(v) => v,
        None => return None,
    };
    let z = match dot3(&m.m20, &v.x, &m.m21, &v.y, &m.m22, &v.z) {
        Some(v) => v,
        None => return None,
    };
    Some(Point3 { x, y, z })
}

/// Application of a 4×4 homogeneous matrix to a point with implicit
/// fourth component one; only the first three output components are kept.
pub open spec fn spec_mat4_apply_homog(m: Mat4, v: Point3) -> Option<Point3> {
    match spec_dot3_plus(m.m00, v.x, m.m01, v.y, m.m02, v.z, m.m03) {
        None => None,
        Some(x) => match spec_dot3_plus(m.m10, v.x, m.m11, v.y, m.m12, v.z, m.m13) {
            None => None,
            Some(y) => match spec_dot3_plus(m.m20, v.x, m.m21, v.y, m.m22, v.z, m.m23) {
                None => None,
                Some(z) => Some(Point3 { x, y, z }),
            },
        },
    }
}

pub fn mat4_apply_homog(m: &Mat4, v: &Point3) -> (r: Option<Point3>)
    requires
        m.wf(),
        v.wf(),
    ensures
        r == spec_mat4_apply_homog(*m, *v),
        r matches Some(p) ==> p.wf(),
{
    let x = match dot3_plus(&m.m00, &v.x, &m.m01, &v.y, &m.m02, &v.z, &m.m03) {
        Some(v) => v,
        None => return None,
    };
    let y = match dot3_plus(&m.m10, &v.x, &m.m11, &v.y, &m.m12, &v.z, &m.m13) {
        Some(v) => v,
        None => return None,
    };
    let z = match dot3_plus(&m.m20, &v.x, &m.m21, &v.y, &m.m22, &v.z, &m.m23) {
        Some(v) => v,
        None => return None,
    };
    Some(Point3 { x, y, z })
}

/// Matrix–matrix product of 3×3 matrices.
pub open spec fn spec_mat3_mul(a: Mat3, b: Mat3) -> Option<Mat3> {
    match spec_dot3(a.m00, b.m00, a.m01, b.m10, a.m02, b.m20) {
        None => None,
        Some(m00) => match spec_dot3(a.m00, b.m01, a.m01, b.m11, a.m02, b.m21) {
            None => None,
            Some(m01) => match spec_dot3(a.m00, b.m02, a.m01, b.m12, a.m02, b.m22) {
                None => None,
                Some(m02) => match spec_dot3(a.m10, b.m00, a.m11, b.m10, a.m12, b.m20) {
                    None => None,
                    Some(m10) => match spec_dot3(a.m10, b.m01, a.m11, b.m11, a.m12, b.m21) {
                        None => None,
                        Some(m11) => match spec_dot3(a.m10, b.m02, a.m11, b.m12, a.m12, b.m22) {
                            None => None,
                            Some(m12) => match spec_dot3(a.m20, b.m00, a.m21, b.m10, a.m22, b.m20) {
                                None => None,
                                Some(m20) => match spec_dot3(
                                    a.m20, b.m01, a.m21, b.m11, a.m22, b.m21,
                                ) {
                                    None => None,
                                    Some(m21) => match spec_dot3(
                                        a.m20, b.m02, a.m21, b.m12, a.m22, b.m22,
                                    ) {
                                        None => None,
                                        Some(m22) => Some(Mat3 {
                                            m00, m01, m02, m10, m11, m12, m20, m21, m22,
                                        }),
                                    },
                                },
                            },
                        },
                    },
                },
            },
        },
    }
}

pub fn mat3_mul(a: &Mat3, b: &Mat3) -> (r: Option<Mat3>)
    requires
        a.wf(),
        b.wf(),
    ensures
        r == spec_mat3_mul(*a, *b),
        r matches Some(p) ==> p.wf(),
{
    let m00 = match dot3(&a.m00, &b.m00, &a.m01, &b.m10, &a.m02, &b.m20) {
        Some(v) => v,
        None => return None,
    };
    let m01 = match dot3(&a.m00, &b.m01, &a.m01, &b.m11, &a.m02, &b.m21) {
        Some(v) => v,
        None => return None,
    };
    let m02 = match dot3(&a.m00, &b.m02, &a.m01, &b.m12, &a.m02, &b.m22) {
        Some(v) => v,
        None => return None,
    };
    let m10 = match dot3(&a.m10, &b.m00, &a.m11, &b.m10, &a.m12, &b.m20) {
        Some(v) => v,
        None => return None,
    };
    let m11 = match dot3(&a.m10, &b.m01, &a.m11, &b.m11, &a.m12, &b.m21) {
        Some(v) => v,
        None => return None,
    };
    let m12 = match dot3(&a.m10, &b.m02, &a.m11, &b.m12, &a.m12, &b.m22) {
        Some(v) => v,
        None => return None,
    };
    let m20 = match dot3(&a.m20, &b.m00, &a.m21, &b.m10, &a.m22, &b.m20) {
        Some(v) => v,
        None => return None,
    };
    let m21 = match dot3(&a.m20, &b.m01, &a.m21, &b.m11, &a.m22, &b.m21) {
        Some(v) => v,
        None => return None,
    };
    let m22 = match dot3(&a.m20, &b.m02, &a.m21, &b.m12, &a.m22, &b.m22) {
        Some(v) => v,
        None => return None,
    };
    Some(Mat3 { m00, m01, m02, m10, m11, m12, m20, m21, m22 })
}

/// Whether every entry of `m` denotes the corresponding entry of the 3×3
/// identity matrix.
pub open spec fn spec_is_identity3(m: Mat3) -> bool {
    m.m00.num == m.m00.den && m.m11.num == m.m11.den && m.m22.num == m.m22.den
        && m.m01.num == 0 && m.m02.num == 0
        && m.m10.num == 0 && m.m12.num == 0
        && m.m20.num == 0 && m.m21.num == 0
}

pub fn is_identity3(m: &Mat3) -> (r: bool)
    requires
        m.wf(),
    ensures
        r == spec_is_identity3(*m),
{
    m.m00.num == m.m00.den && m.m11.num == m.m11.den && m.m22.num == m.m22.den
        && m.m01.num == 0 && m.m02.num == 0
        && m.m10.num == 0 && m.m12.num == 0
        && m.m20.num == 0 && m.m21.num == 0
}

/// The exact determinant of the 3×3 matrix with rows `(a b c; d e f; g h i)`,
/// given entry by entry so that it can also describe minors of a 4×4 matrix.
pub open spec fn spec_det3_entries(
    a: Rat, b: Rat, c: Rat,
    d: Rat, e: Rat, f: Rat,
    g: Rat, h: Rat, i: Rat,
) -> Option<Rat> {
    match spec_mul(e, i) {
        None => None,
        Some(ei) => match spec_mul(f, h) {
            None => None,
            Some(fh) => match spec_sub(ei, fh) {
                None => None,
                Some(c0) => match spec_mul(d, i) {
                    None => None,
                    Some(di) => match spec_mul(f, g) {
                        None => None,
                        Some(fg) => match spec_sub(di, fg) {
                            None => None,
                            Some(c1) => match spec_mul(d, h) {
                                None => None,
                                Some(dh) => match spec_mul(e, g) {
                                    None => None,
                                    Some(eg) => match spec_sub(dh, eg) {
                                        None => None,
                                        Some(c2) => match spec_mul(a, c0) {
                                            None => None,
                                            Some(t0) => match spec_mul(b, c1) {
                                                None => None,
                                                Some(t1) => match spec_mul(c, c2) {
                                                    None => None,
                                                    Some(t2) => match spec_sub(t0, t1) {
                                                        None => None,
                                                        Some(s0) => spec_add(s0, t2),
                                                    },
                                                },
                                            },
                                        },
                                    },
                                },
                            },
                        },
                    },
                },
            },
        },
    }
}

#[allow(clippy::too_many_arguments)]
pub fn det3_entries(
    a: &Rat, b: &Rat, c: &Rat,
    d: &Rat, e: &Rat, f: &Rat,
    g: &Rat, h: &Rat, i: &Rat,
) -> (r: Option<Rat>)
    requires
        a.wf(), b.wf(), c.wf(),
        d.wf(), e.wf(), f.wf(),
        g.wf(), h.wf(), i.wf(),
    ensures
        r == spec_det3_entries(*a, *b, *c, *d, *e, *f, *g, *h, *i),
        r matches Some(v) ==> v.wf(),
{
    let ei = match e.try_mul(i) {
        Some(v) => v,
        None => return None,
    };
    let fh = match f.try_mul(h) {
        Some(v) => v,
        None => return None,
    };
    let c0 = match ei.try_sub(&fh) {
        Some(v) => v,
        None => return None,
    };
    let di = match d.try_mul(i) {
        Some(v) => v,
        None => return None,
    };
    let fg = match f.try_mul(g) {
        Some(v) => v,
        None => return None,
    };
    let c1 = match di.try_sub(&fg) {
        Some(v) => v,
        None => return None,
    };
    let dh = match d.try_mul(h) {
        Some(v) => v,
        None => return None,
    };
    let eg = match e.try_mul(g) {
        Some(v) => v,
        None => return None,
    };
    let c2 = match dh.try_sub(&eg) {
        Some(v) => v,
        None => return None,
    };
    let t0 = match a.try_mul(&c0) {
        Some(v) => v,
        None => return None,
    };
    let t1 = match b.try_mul(&c1) {
        Some(v) => v,
        None => return None,
    };
    let t2 = match c.try_mul(&c2) {
        Some(v) => v,
        None => return None,
    };
    let s0 = match t0.try_sub(&t1) {
        Some(v) => v,
        None => return None,
    };
    s0.try_add(&t2)
}

/// The exact determinant of a 3×3 matrix.
pub open spec fn spec_det3(m: Mat3) -> Option<Rat> {
    spec_det3_entries(m.m00, m.m01, m.m02, m.m10, m.m11, m.m12, m.m20, m.m21, m.m22)
}

pub fn det3(m: &Mat3) -> (r: Option<Rat>)
    requires
        m.wf(),
    ensures
        r == spec_det3(*m),
        r matches Some(v) ==> v.wf(),
{
    det3_entries(
        &m.m00, &m.m01, &m.m02,
        &m.m10, &m.m11, &m.m12,
        &m.m20, &m.m21, &m.m22,
    )
}

} // verus!

verus! {

/// Entry of a 3×3 matrix by row and column index.
pub open spec fn m3(m: Mat3, r: int, c: int) -> Rat {
    if r == 0 {
        if c == 0 { m.m00 } else if c == 1 { m.m01 } else { m.m02 }
    } else if r == 1 {
        if c == 0 { m.m10 } else if c == 1 { m.m11 } else { m.m12 }
    } else {
        if c == 0 { m.m20 } else if c == 1 { m.m21 } else { m.m22 }
    }
}

pub fn m3get(m: &Mat3, r: usize, c: usize) -> (v: Rat)
    requires
        r < 3,
        c < 3,
    ensures
        v == m3(*m, r as int, c as int),
{
    if r == 0 {
        if c == 0 { m.m00 } else if c == 1 { m.m01 } else { m.m02 }
    } else if r == 1 {
        if c == 0 { m.m10 } else if c == 1 { m.m11 } else { m.m12 }
    } else {
        if c == 0 { m.m20 } else if c == 1 { m.m21 } else { m.m22 }
    }
}

/// Entry of a 4×4 matrix by row and column index.
pub open spec fn m4(m: Mat4, r: int, c: int) -> Rat {
    if r == 0 {
        if c == 0 { m.m00 } else if c == 1 { m.m01 } else if c == 2 { m.m02 } else { m.m03 }
    } else if r == 1 {
        if c == 0 { m.m10 } else if c == 1 { m.m11 } else if c == 2 { m.m12 } else { m.m13 }
    } else if r == 2 {
        if c == 0 { m.m20 } else if c == 1 { m.m21 } else if c == 2 { m.m22 } else { m.m23 }
    } else {
        if c == 0 { m.m30 } else if c == 1 { m.m31 } else if c == 2 { m.m32 } else { m.m33 }
    }
}

pub fn m4get(m: &Mat4, r: usize, c: usize) -> (v: Rat)
    requires
        r < 4,
        c < 4,
    ensures
        v == m4(*m, r as int, c as int),
{
    if r == 0 {
        if c == 0 { m.m00 } else if c == 1 { m.m01 } else if c == 2 { m.m02 } else { m.m03 }
    } else if r == 1 {
        if c == 0 { m.m10 } else if c == 1 { m.m11 } else if c == 2 { m.m12 } else { m.m13 }
    } else if r == 2 {
        if c == 0 { m.m20 } else if c == 1 { m.m21 } else if c == 2 { m.m22 } else { m.m23 }
    } else {
        if c == 0 { m.m30 } else if c == 1 { m.m31 } else if c == 2 { m.m32 } else { m.m33 }
    }
}

/// Exact value of row `i` of `a` times column `k` of `b` for 3×3 matrices.
pub open spec fn spec_dot3v(a: Mat3, b: Mat3, i: int, k: int) -> Option<Rat> {
    spec_dot3(m3(a, i, 0), m3(b, 0, k), m3(a, i, 1), m3(b, 1, k), m3(a, i, 2), m3(b, 2, k))
}

pub fn dot3v(a: &Mat3, b: &Mat3, i: usize, k: usize) -> (r: Option<Rat>)
    requires
        a.wf(),
        b.wf(),
        i < 3,
        k < 3,
    ensures
        r == spec_dot3v(*a, *b, i as int, k as int),
        r matches Some(v) ==> v.wf(),
{
    let a0 = m3get(a, i, 0);
    let a1 = m3get(a, i, 1);
    let a2 = m3get(a, i, 2);
    let b0 = m3get(b, 0, k);
    let b1 = m3get(b, 1, k);
    let b2 = m3get(b, 2, k);
    dot3(&a0, &b0, &a1, &b1, &a2, &b2)
}

/// Row `i` of `a` times column `k` of `b` is exactly representable and
/// denotes the Kronecker delta of `i` and `k`.
pub open spec fn spec_dot_is_delta3(a: Mat3, b: Mat3, i: int, k: int) -> bool {
    spec_dot3v(a, b, i, k) matches Some(v)
        && (if i == k { v.num == v.den } else { v.num == 0 })
}

/// The product `a * b` of 3×3 matrices denotes the identity: every entry
/// is exactly representable and denotes one on the diagonal, zero off it.
pub open spec fn spec_prod_is_identity3(a: Mat3, b: Mat3) -> bool {
    forall|i: int, k: int| 0 <= i < 3 && 0 <= k < 3 ==> #[trigger] spec_dot_is_delta3(a, b, i, k)
}

pub fn check_prod_identity3(a: &Mat3, b: &Mat3) -> (r: bool)
    requires
        a.wf(),
        b.wf(),
    ensures
        r == spec_prod_is_identity3(*a, *b),
{
    let mut i: usize = 0;
    while i < 3
        invariant
            i <= 3,
            a.wf(),
            b.wf(),
            forall|ii: int, kk: int| 0 <= ii < i && 0 <= kk < 3 ==>
                #[trigger] spec_dot_is_delta3(*a, *b, ii, kk),
        decreases 3 - i,
    {
        let mut k: usize = 0;
        while k < 3
            invariant
                i < 3,
                k <= 3,
                a.wf(),
                b.wf(),
                forall|ii: int, kk: int| 0 <= ii < i && 0 <= kk < 3 ==>
                    #[trigger] spec_dot_is_delta3(*a, *b, ii, kk),
                forall|kk: int| 0 <= kk < k ==>
                    #[trigger] spec_dot_is_delta3(*a, *b, i as int, kk),
            decreases 3 - k,
        {
            let entry = dot3v(a, b, i, k);
            match entry {
                None => {
                    assert(!spec_dot_is_delta3(*a, *b, i as int, k as int));
                    return false;
                },
                Some(v) => {
                    if i == k {
                        if v.num != v.den {
                            assert(!spec_dot_is_delta3(*a, *b, i as int, k as int));
                            return false;
                        }
                    } else {
                        if v.num != 0 {
                            assert(!spec_dot_is_delta3(*a, *b, i as int, k as int));
                            return false;
                        }
                    }
                },
            }
            assert(spec_dot_is_delta3(*a, *b, i as int, k as int));
            k = k + 1;
        }
        i = i + 1;
    }
    true
}

/// Exact value of row `i` of `a` times column `k` of `b` for 4×4 matrices.
pub open spec fn spec_dot4v(a: Mat4, b: Mat4, i: int, k: int) -> Option<Rat> {
    match spec_dot3(m4(a, i, 0), m4(b, 0, k), m4(a, i, 1), m4(b, 1, k), m4(a, i, 2), m4(b, 2, k)) {
        None => None,
        Some(s) => match spec_mul(m4(a, i, 3), m4(b, 3, k)) {
            None => None,
            Some(p) => spec_add(s, p),
        },
    }
}

pub fn dot4v(a: &Mat4, b: &Mat4, i: usize, k: usize) -> (r: Option<Rat>)
    requires
        a.wf(),
        b.wf(),
        i < 4,
        k < 4,
    ensures
        r == spec_dot4v(*a, *b, i as int, k as int),
        r matches Some(v) ==> v.wf(),
{
    let a0 = m4get(a, i, 0);
    let a1 = m4get(a, i, 1);
    let a2 = m4get(a, i, 2);
    let a3 = m4get(a, i, 3);
    let b0 = m4get(b, 0, k);
    let b1 = m4get(b, 1, k);
    let b2 = m4get(b, 2, k);
    let b3 = m4get(b, 3, k);
    let s = match dot3(&a0, &b0, &a1, &b1, &a2, &b2) {
        Some(v) => v,
        None => return None,
    };
    let p = match a3.try_mul(&b3) {
        Some(v) => v,
        None => return None,
    };
    s.try_add(&p)
}

/// Row `i` of `a` times column `k` of `b` is exactly representable and
/// denotes the Kronecker delta of `i` and `k`.
pub open spec fn spec_dot_is_delta4(a: Mat4, b: Mat4, i: int, k: int) -> bool {
    spec_dot4v(a, b, i, k) matches Some(v)
        && (if i == k { v.num == v.den } else { v.num == 0 })
}

/// The product `a * b` of 4×4 matrices denotes the identity.
pub open spec fn spec_prod_is_identity4(a: Mat4, b: Mat4) -> bool {
    forall|i: int, k: int| 0 <= i < 4 && 0 <= k < 4 ==> #[trigger] spec_dot_is_delta4(a, b, i, k)
}

pub fn check_prod_identity4(a: &Mat4, b: &Mat4) -> (r: bool)
    requires
        a.wf(),
        b.wf(),
    ensures
        r == spec_prod_is_identity4(*a, *b),
{
    let mut i: usize = 0;
    while i < 4
        invariant
            i <= 4,
            a.wf(),
            b.wf(),
            forall|ii: int, kk: int| 0 <= ii < i && 0 <= kk < 4 ==>
                #[trigger] spec_dot_is_delta4(*a, *b, ii, kk),
        decreases 4 - i,
    {
        let mut k: usize = 0;
        while k < 4
            invariant
                i < 4,
                k <= 4,
                a.wf(),
                b.wf(),
                forall|ii: int, kk: int| 0 <= ii < i && 0 <= kk < 4 ==>
                    #[trigger] spec_dot_is_delta4(*a, *b, ii, kk),
                forall|kk: int| 0 <= kk < k ==>
                    #[trigger] spec_dot_is_delta4(*a, *b, i as int, kk),
            decreases 4 - k,
        {
            let entry = dot4v(a, b, i, k);
            match entry {
                None => {
                    assert(!spec_dot_is_delta4(*a, *b, i as int, k as int));
                    return false;
                },
                Some(v) => {
                    if i == k {
                        if v.num != v.den {
                            assert(!spec_dot_is_delta4(*a, *b, i as int, k as int));
                            return false;
                        }
                    } else {
                        if v.num != 0 {
                            assert(!spec_dot_is_delta4(*a, *b, i as int, k as int));
                            return false;
                        }
                    }
                },
            }
            assert(spec_dot_is_delta4(*a, *b, i as int, k as int));
            k = k + 1;
        }
        i = i + 1;
    }
    true
}

/// The exact determinant of a 4×4 matrix (cofactor expansion along the
/// first row).
pub open spec fn spec_det4(m: Mat4) -> Option<Rat> {
    match spec_det3_entries(m.m11, m.m12, m.m13, m.m21, m.m22, m.m23, m.m31, m.m32, m.m33) {
        None => None,
        Some(c0) => match spec_det3_entries(
            m.m10, m.m12, m.m13, m.m20, m.m22, m.m23, m.m30, m.m32, m.m33,
        ) {
            None => None,
            Some(c1) => match spec_det3_entries(
                m.m10, m.m11, m.m13, m.m20, m.m21, m.m23, m.m30, m.m31, m.m33,
            ) {
                None => None,
                Some(c2) => match spec_det3_entries(
                    m.m10, m.m11, m.m12, m.m20, m.m21, m.m22, m.m30, m.m31, m.m32,
                ) {
                    None => None,
                    Some(c3) => match spec_mul(m.m00, c0) {
                        None => None,
                        Some(t0) => match spec_mul(m.m01, c1) {
                            None => None,
                            Some(t1) => match spec_mul(m.m02, c2) {
                                None => None,
                                Some(t2) => match spec_mul(m.m03, c3) {
                                    None => None,
                                    Some(t3) => match spec_sub(t0, t1) {
                                        None => None,
                                        Some(s0) => match spec_add(s0, t2) {
                                            None => None,
                                            Some(s1) => spec_sub(s1, t3),
                                        },
                                    },
                                },
                            },
                        },
                    },
                },
            },
        },
    }
}

pub fn det4(m: &Mat4) -> (r: Option<Rat>)
    requires
        m.wf(),
    ensures
        r == spec_det4(*m),
        r matches Some(v) ==> v.wf(),
{
    let c0 = match det3_entries(
        &m.m11, &m.m12, &m.m13, &m.m21, &m.m22, &m.m23, &m.m31, &m.m32, &m.m33,
    ) {
        Some(v) => v,
        None => return None,
    };
    let c1 = match det3_entries(
        &m.m10, &m.m12, &m.m13, &m.m20, &m.m22, &m.m23, &m.m30, &m.m32, &m.m33,
    ) {
        Some(v) => v,
        None => return None,
    };
    let c2 = match det3_entries(
        &m.m10, &m.m11, &m.m13, &m.m20, &m.m21, &m.m23, &m.m30, &m.m31, &m.m33,
    ) {
        Some(v) => v,
        None => return None,
    };
    let c3 = match det3_entries(
        &m.m10, &m.m11, &m.m12, &m.m20, &m.m21, &m.m22, &m.m30, &m.m31, &m.m32,
    ) {
        Some(v) => v,
        None => return None,
    };
    let t0 = match m.m00.try_mul(&c0) {
        Some(v) => v,
        None => return None,
    };
    let t1 = match m.m01.try_mul(&c1) {
        Some(v) => v,
        None => return None,
    };
    let t2 = match m.m02.try_mul(&c2) {
        Some(v) => v,
        None => return None,
    };
    let t3 = match m.m03.try_mul(&c3) {
        Some(v) => v,
        None => return None,
    };
    let s0 = match t0.try_sub(&t1) {
        Some(v) => v,
        None => return None,
    };
    let s1 = match s0.try_add(&t2) {
        Some(v) => v,
        None => return None,
    };
    s1.try_sub(&t3)
}

/// The exact value of `(p*q - r*s) / det`: one adjugate entry of a 3×3
/// matrix.
pub open spec fn spec_cross_div(p: Rat, q: Rat, r: Rat, s: Rat, det: Rat) -> Option<Rat> {
    match spec_mul(p, q) {
        None => None,
        Some(pq) => match spec_mul(r, s) {
            None => None,
            Some(rs) => match spec_sub(pq, rs) {
                None => None,
                Some(diff) => spec_div(diff, det),
            },
        },
    }
}

/// See `spec_cross_div`.
fn cross_div(p: &Rat, q: &Rat, r: &Rat, s: &Rat, det: &Rat) -> (res: Option<Rat>)
    requires
        p.wf(),
        q.wf(),
        r.wf(),
        s.wf(),
        det.wf(),
    ensures
        res == spec_cross_div(*p, *q, *r, *s, *det),
        res matches Some(v) ==> v.wf(),
{
    let pq = match p.try_mul(q) {
        Some(v) => v,
        None => return None,
    };
    let rs = match r.try_mul(s) {
        Some(v) => v,
        None => return None,
    };
    let diff = match pq.try_sub(&rs) {
        Some(v) => v,
        None => return None,
    };
    diff.try_div(det)
}

/// The adjugate inverse of a 3×3 matrix over its determinant, entry by
/// entry, when every exact entry is representable.
pub open spec fn spec_inv3(m: Mat3, det: Rat) -> Option<Mat3> {
    match spec_cross_div(m.m11, m.m22, m.m12, m.m21, det) {
        None => None,
        Some(i00) => match spec_cross_div(m.m02, m.m21, m.m01, m.m22, det) {
            None => None,
            Some(i01) => match spec_cross_div(m.m01, m.m12, m.m02, m.m11, det) {
                None => None,
                Some(i02) => match spec_cross_div(m.m12, m.m20, m.m10, m.m22, det) {
                    None => None,
                    Some(i10) => match spec_cross_div(m.m00, m.m22, m.m02, m.m20, det) {
                        None => None,
                        Some(i11) => match spec_cross_div(m.m02, m.m10, m.m00, m.m12, det) {
                            None => None,
                            Some(i12) => match spec_cross_div(m.m10, m.m21, m.m11, m.m20, det) {
                                None => None,
                                Some(i20) => match spec_cross_div(
                                    m.m01, m.m20, m.m00, m.m21, det,
                                ) {
                                    None => None,
                                    Some(i21) => match spec_cross_div(
                                        m.m00, m.m11, m.m01, m.m10, det,
                                    ) {
                                        None => None,
                                        Some(i22) => Some(Mat3 {
                                            m00: i00, m01: i01, m02: i02,
                                            m10: i10, m11: i11, m12: i12,
                                            m20: i20, m21: i21, m22: i22,
                                        }),
                                    },
                                },
                            },
                        },
                    },
                },
            },
        },
    }
}

/// Candidate inverse of a 3×3 matrix by the adjugate formula, mirroring
/// `spec_inv3` exactly; the caller re-checks the products against the
/// identity.
pub fn inv3(m: &Mat3, det: &Rat) -> (r: Option<Mat3>)
    requires
        m.wf(),
        det.wf(),
    ensures
        r == spec_inv3(*m, *det),
        r matches Some(x) ==> x.wf(),
{
    let i00 = match cross_div(&m.m11, &m.m22, &m.m12, &m.m21, det) {
        Some(v) => v,
        None => return None,
    };
    let i01 = match cross_div(&m.m02, &m.m21, &m.m01, &m.m22, det) {
        Some(v) => v,
        None => return None,
    };
    let i02 = match cross_div(&m.m01, &m.m12, &m.m02, &m.m11, det) {
        Some(v) => v,
        None => return None,
    };
    let i10 = match cross_div(&m.m12, &m.m20, &m.m10, &m.m22, det) {
        Some(v) => v,
        None => return None,
    };
    let i11 = match cross_div(&m.m00, &m.m22, &m.m02, &m.m20, det) {
        Some(v) => v,
        None => return None,
    };
    let i12 = match cross_div(&m.m02, &m.m10, &m.m00, &m.m12, det) {
        Some(v) => v,
        None => return None,
    };
    let i20 = match cross_div(&m.m10, &m.m21, &m.m11, &m.m20, det) {
        Some(v) => v,
        None => return None,
    };
    let i21 = match cross_div(&m.m01, &m.m20, &m.m00, &m.m21, det) {
        Some(v) => v,
        None => return None,
    };
    let i22 = match cross_div(&m.m00, &m.m11, &m.m01, &m.m10, det) {
        Some(v) => v,
        None => return None,
    };
    Some(Mat3 {
        m00: i00, m01: i01, m02: i02,
        m10: i10, m11: i11, m12: i12,
        m20: i20, m21: i21, m22: i22,
    })
}

/// The three row (or column) indices of a 4×4 matrix other than `k`, in
/// order.
pub open spec fn spec_others4(k: int) -> (int, int, int) {
    if k == 0 {
        (1, 2, 3)
    } else if k == 1 {
        (0, 2, 3)
    } else if k == 2 {
        (0, 1, 3)
    } else {
        (0, 1, 2)
    }
}

/// See `spec_others4`.
fn others4(k: usize) -> (r: (usize, usize, usize))
    requires
        k < 4,
    ensures
        (r.0 as int, r.1 as int, r.2 as int) == spec_others4(k as int),
        r.0 < 4 && r.1 < 4 && r.2 < 4,
{
    if k == 0 {
        (1, 2, 3)
    } else if k == 1 {
        (0, 2, 3)
    } else if k == 2 {
        (0, 1, 3)
    } else {
        (0, 1, 2)
    }
}

/// The signed cofactor of the 4×4 matrix `m` at row `r`, column `c`.
pub open spec fn spec_cof4(m: Mat4, r: int, c: int) -> Option<Rat> {
    let rows = spec_others4(r);
    let cols = spec_others4(c);
    match spec_det3_entries(
        m4(m, rows.0, cols.0), m4(m, rows.0, cols.1), m4(m, rows.0, cols.2),
        m4(m, rows.1, cols.0), m4(m, rows.1, cols.1), m4(m, rows.1, cols.2),
        m4(m, rows.2, cols.0), m4(m, rows.2, cols.1), m4(m, rows.2, cols.2),
    ) {
        None => None,
        Some(minor) => if (r + c) % 2 == 0 {
            Some(minor)
        } else {
            Some(crate::rat::spec_neg(minor))
        },
    }
}

/// See `spec_cof4`.
fn cof4(m: &Mat4, r: usize, c: usize) -> (res: Option<Rat>)
    requires
        m.wf(),
        r < 4,
        c < 4,
    ensures
        res == spec_cof4(*m, r as int, c as int),
        res matches Some(v) ==> v.wf(),
{
    let (r0, r1, r2) = others4(r);
    let (c0, c1, c2) = others4(c);
    let a = m4get(m, r0, c0);
    let b = m4get(m, r0, c1);
    let cc = m4get(m, r0, c2);
    let d = m4get(m, r1, c0);
    let e = m4get(m, r1, c1);
    let f = m4get(m, r1, c2);
    let g = m4get(m, r2, c0);
    let h = m4get(m, r2, c1);
    let i = m4get(m, r2, c2);
    let minor = match det3_entries(&a, &b, &cc, &d, &e, &f, &g, &h, &i) {
        Some(v) => v,
        None => return None,
    };
    if (r + c) % 2 == 0 {
        Some(minor)
    } else {
        Some(minor.neg())
    }
}

/// The exact value of one inverse entry: the cofactor at `(r, c)` over
/// the determinant.
pub open spec fn spec_cof_div(m: Mat4, det: Rat, r: int, c: int) -> Option<Rat> {
    match spec_cof4(m, r, c) {
        None => None,
        Some(cf) => spec_div(cf, det),
    }
}

/// See `spec_cof_div`.
fn cof_div(m: &Mat4, det: &Rat, r: usize, c: usize) -> (res: Option<Rat>)
    requires
        m.wf(),
        det.wf(),
        r < 4,
        c < 4,
    ensures
        res == spec_cof_div(*m, *det, r as int, c as int),
        res matches Some(v) ==> v.wf(),
{
    let cf = match cof4(m, r, c) {
        Some(v) => v,
        None => return None,
    };
    cf.try_div(det)
}

/// The adjugate inverse of a 4×4 matrix over its determinant: entry
/// `(i, j)` is the cofactor at `(j, i)` over the determinant, when every
/// exact entry is representable.
pub open spec fn spec_inv4(m: Mat4, det: Rat) -> Option<Mat4> {
    match spec_cof_div(m, det, 0, 0) {
        None => None,
        Some(e00) => match spec_cof_div(m, det, 1, 0) {
        None => None,
        Some(e01) => match spec_cof_div(m, det, 2, 0) {
        None => None,
        Some(e02) => match spec_cof_div(m, det, 3, 0) {
        None => None,
        Some(e03) => match spec_cof_div(m, det, 0, 1) {
        None => None,
        Some(e10) => match spec_cof_div(m, det, 1, 1) {
        None => None,
        Some(e11) => match spec_cof_div(m, det, 2, 1) {
        None => None,
        Some(e12) => match spec_cof_div(m, det, 3, 1) {
        None => None,
        Some(e13) => match spec_cof_div(m, det, 0, 2) {
        None => None,
        Some(e20) => match spec_cof_div(m, det, 1, 2) {
        None => None,
        Some(e21) => match spec_cof_div(m, det, 2, 2) {
        None => None,
        Some(e22) => match spec_cof_div(m, det, 3, 2) {
        None => None,
        Some(e23) => match spec_cof_div(m, det, 0, 3) {
        None => None,
        Some(e30) => match spec_cof_div(m, det, 1, 3) {
        None => None,
        Some(e31) => match spec_cof_div(m, det, 2, 3) {
        None => None,
        Some(e32) => match spec_cof_div(m, det, 3, 3) {
        None => None,
        Some(e33) => Some(Mat4 { m00: e00, m01: e01, m02: e02, m03: e03, m10: e10, m11: e11, m12: e12, m13: e13, m20: e20, m21: e21, m22: e22, m23: e23, m30: e30, m31: e31, m32: e32, m33: e33 }),
    },
    },
    },
    },
    },
    },
    },
    },
    },
    },
    },
    },
    },
    },
    },
    }
}

/// Candidate inverse of a 4×4 matrix by the adjugate formula, mirroring
/// `spec_inv4` exactly; the caller re-checks the products against the
/// identity.
pub fn inv4(m: &Mat4, det: &Rat) -> (r: Option<Mat4>)
    requires
        m.wf(),
        det.wf(),
    ensures
        r == spec_inv4(*m, *det),
        r matches Some(x) ==> x.wf(),
{
    let e00 = match cof_div(m, det, 0, 0) {
        Some(v) => v,
        None => return None,
    };
    let e01 = match cof_div(m, det, 1, 0) {
        Some(v) => v,
        None => return None,
    };
    let e02 = match cof_div(m, det, 2, 0) {
        Some(v) => v,
        None => return None,
    };
    let e03 = match cof_div(m, det, 3, 0) {
        Some(v) => v,
        None => return None,
    };
    let e10 = match cof_div(m, det, 0, 1) {
        Some(v) => v,
        None => return None,
    };
    let e11 = match cof_div(m, det, 1, 1) {
        Some(v) => v,
        None => return None,
    };
    let e12 = match cof_div(m, det, 2, 1) {
        Some(v) => v,
        None => return None,
    };
    let e13 = match cof_div(m, det, 3, 1) {
        Some(v) => v,
        None => return None,
    };
    let e20 = match cof_div(m, det, 0, 2) {
        Some(v) => v,
        None => return None,
    };
    let e21 = match cof_div(m, det, 1, 2) {
        Some(v) => v,
        None => return None,
    };
    let e22 = match cof_div(m, det, 2, 2) {
        Some(v) => v,
        None => return None,
    };
    let e23 = match cof_div(m, det, 3, 2) {
        Some(v) => v,
        None => return None,
    };
    let e30 = match cof_div(m, det, 0, 3) {
        Some(v) => v,
        None => return None,
    };
    let e31 = match cof_div(m, det, 1, 3) {
        Some(v) => v,
        None => return None,
    };
    let e32 = match cof_div(m, det, 2, 3) {
        Some(v) => v,
        None => return None,
    };
    let e33 = match cof_div(m, det, 3, 3) {
        Some(v) => v,
        None => return None,
    };
    Some(Mat4 {
        m00: e00, m01: e01, m02: e02, m03: e03,
        m10: e10, m11: e11, m12: e12, m13: e13,
        m20: e20, m21: e21, m22: e22, m23: e23,
        m30: e30, m31: e31, m32: e32, m33: e33,
    })
}

} // verus!
