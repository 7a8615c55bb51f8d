//! Invertible transforms: a 3×3 camera intrinsic with its inverse, and a
//! 4×4 extrinsic with its inverse, rotation block, and translation column.
//!
//! Construction computes the exact inverse by the adjugate formula and then
//! re-checks, entry by entry, that both products with the original matrix
//! denote the identity; a locator therefore never works with a degenerate
//! inverse. A matrix whose determinant is exactly zero is rejected with
//! `LocateError::SingularMatrix`.

use vstd::prelude::*;
use crate::rat::Rat;
use crate::vecmat::{
    Mat3, Mat4, Point3, det3, det4, inv3, inv4, check_prod_identity3, check_prod_identity4,
    spec_det3, spec_det4, spec_inv3, spec_inv4, spec_prod_is_identity3,
    spec_prod_is_identity4, spec_rotation_block, spec_translation_column,
};
use crate::LocateError;

verus! {

/// A 3×3 matrix is exactly invertible: its exact determinant is
/// representable and nonzero, the adjugate inverse is representable entry
/// by entry, and both products with it denote the identity.
pub open spec fn spec_mat3_exactly_invertible(m: Mat3) -> bool {
    spec_det3(m) matches Some(d) && d.num != 0
        && (spec_inv3(m, d) matches Some(inv)
            && spec_prod_is_identity3(m, inv)
            && spec_prod_is_identity3(inv, m))
}

/// A 4×4 matrix is exactly invertible: it and its rotation block have
/// representable nonzero exact determinants, both adjugate inverses are
/// representable, and all identity products hold.
pub open spec fn spec_mat4_exactly_invertible(m: Mat4) -> bool {
    spec_det4(m) matches Some(d) && d.num != 0
        && (spec_inv4(m, d) matches Some(inv)
            && spec_prod_is_identity4(m, inv)
            && spec_prod_is_identity4(inv, m))
        && (spec_det3(spec_rotation_block(m)) matches Some(e) && e.num != 0
            && (spec_inv3(spec_rotation_block(m), e) matches Some(rinv)
                && spec_prod_is_identity3(spec_rotation_block(m), rinv)
                && spec_prod_is_identity3(rinv, spec_rotation_block(m))))
}

/// A 3×3 matrix paired with its exact inverse.
#[derive(Clone, Copy, PartialEq, Eq, Structural, Debug)]
pub struct MatrixWithInverse {
    pub matrix: Mat3,
    pub matrix_inverse: Mat3,
}

impl MatrixWithInverse {
    /// The stored inverse is exact: both products denote the identity.
    pub open spec fn wf(self) -> bool {
        self.matrix.wf() && self.matrix_inverse.wf()
            && spec_prod_is_identity3(self.matrix, self.matrix_inverse)
            && spec_prod_is_identity3(self.matrix_inverse, self.matrix)
    }

    /// Build the pair from a matrix. Success is owed exactly when the
    /// matrix is exactly invertible; a representable determinant of zero
    /// is `SingularMatrix`, and every other failure is an unrepresentable
    /// exact value, `NumericOverflow`.
    pub fn try_from(matrix: Mat3) -> (r: Result<MatrixWithInverse, LocateError>)
        requires
            matrix.wf(),
        ensures
            r is Ok <==> spec_mat3_exactly_invertible(matrix),
            r matches Ok(w) ==> w.wf() && w.matrix == matrix
                && (spec_det3(matrix) matches Some(d)
                    && spec_inv3(matrix, d) == Some(w.matrix_inverse)),
            r == Err::<MatrixWithInverse, LocateError>(LocateError::SingularMatrix)
                <==> (spec_det3(matrix) matches Some(d) && d.num == 0),
    {
        let det = match det3(&matrix) {
            Some(v) => v,
            None => {
                return Err(LocateError::NumericOverflow);
            },
        };
        if det.is_zero() {
            return Err(LocateError::SingularMatrix);
        }
        let matrix_inverse = match inv3(&matrix, &det) {
            Some(v) => v,
            None => {
                return Err(LocateError::NumericOverflow);
            },
        };
        if !check_prod_identity3(&matrix, &matrix_inverse) {
            return Err(LocateError::NumericOverflow);
        }
        if !check_prod_identity3(&matrix_inverse, &matrix) {
            return Err(LocateError::NumericOverflow);
        }
        Ok(MatrixWithInverse { matrix, matrix_inverse })
    }
}

/// A 4×4 extrinsic transform with its exact inverse, rotation block with
/// its exact inverse, and translation column with its negation.
#[derive(Clone, Copy, PartialEq, Eq, Structural, Debug)]
pub struct Transform {
    pub transform_matrix: Mat4,
    pub transform_matrix_inverse: Mat4,
    pub rotation_matrix: Mat3,
    pub rotation_matrix_inverse: Mat3,
    pub translation_vector: Point3,
    pub translation_vector_inverse: Point3,
}

impl Transform {
    /// The derived fields agree with the matrix, and every stored inverse
    /// is exact: the products denote the identity.
    pub open spec fn wf(self) -> bool {
        self.transform_matrix.wf() && self.transform_matrix_inverse.wf()
            && self.rotation_matrix.wf() && self.rotation_matrix_inverse.wf()
            && self.translation_vector.wf() && self.translation_vector_inverse.wf()
            && spec_prod_is_identity4(self.transform_matrix, self.transform_matrix_inverse)
            && spec_prod_is_identity4(self.transform_matrix_inverse, self.transform_matrix)
            && self.rotation_matrix == spec_rotation_block(self.transform_matrix)
            && spec_prod_is_identity3(self.rotation_matrix, self.rotation_matrix_inverse)
            && spec_prod_is_identity3(self.rotation_matrix_inverse, self.rotation_matrix)
            && self.translation_vector == spec_translation_column(self.transform_matrix)
            && self.translation_vector_inverse.x.num == -self.translation_vector.x.num
            && self.translation_vector_inverse.x.den == self.translation_vector.x.den
            && self.translation_vector_inverse.y.num == -self.translation_vector.y.num
            && self.translation_vector_inverse.y.den == self.translation_vector.y.den
            && self.translation_vector_inverse.z.num == -self.translation_vector.z.num
            && self.translation_vector_inverse.z.den == self.translation_vector.z.den
    }

    /// Build the transform from a 4×4 matrix. Success is owed exactly when
    /// the matrix is exactly invertible (rotation block included); a
    /// representable determinant of zero on the matrix or its rotation
    /// block is `SingularMatrix`, and every other failure is an
    /// unrepresentable exact value, `NumericOverflow`.
    pub fn try_from(transform_matrix: Mat4) -> (r: Result<Transform, LocateError>)
        requires
            transform_matrix.wf(),
        ensures
            r is Ok <==> spec_mat4_exactly_invertible(transform_matrix),
            r matches Ok(t) ==> t.wf() && t.transform_matrix == transform_matrix
                && (spec_det4(transform_matrix) matches Some(d)
                    && spec_inv4(transform_matrix, d) == Some(t.transform_matrix_inverse))
                && (spec_det3(spec_rotation_block(transform_matrix)) matches Some(e)
                    && spec_inv3(spec_rotation_block(transform_matrix), e)
                        == Some(t.rotation_matrix_inverse)),
            r == Err::<Transform, LocateError>(LocateError::SingularMatrix)
                <==> ((spec_det4(transform_matrix) matches Some(d) && d.num == 0)
                    || ((spec_det4(transform_matrix) matches Some(d) && d.num != 0)
                        && (spec_det3(spec_rotation_block(transform_matrix)) matches Some(e)
                            && e.num == 0))),
    {
        let det = match det4(&transform_matrix) {
            Some(v) => v,
            None => {
                return Err(LocateError::NumericOverflow);
            },
        };
        if det.is_zero() {
            return Err(LocateError::SingularMatrix);
        }
        let rotation_matrix = transform_matrix.rotation_block();
        let rot_det = match det3(&rotation_matrix) {
            Some(v) => v,
            None => {
                return Err(LocateError::NumericOverflow);
            },
        };
        if rot_det.is_zero() {
            return Err(LocateError::SingularMatrix);
        }
        let transform_matrix_inverse = match inv4(&transform_matrix, &det) {
            Some(v) => v,
            None => {
                return Err(LocateError::NumericOverflow);
            },
        };
        if !check_prod_identity4(&transform_matrix, &transform_matrix_inverse) {
            return Err(LocateError::NumericOverflow);
        }
        if !check_prod_identity4(&transform_matrix_inverse, &transform_matrix) {
            return Err(LocateError::NumericOverflow);
        }
        let rotation_matrix_inverse = match inv3(&rotation_matrix, &rot_det) {
            Some(v) => v,
            None => {
                return Err(LocateError::NumericOverflow);
            },
        };
        if !check_prod_identity3(&rotation_matrix, &rotation_matrix_inverse) {
            return Err(LocateError::NumericOverflow);
        }
        if !check_prod_identity3(&rotation_matrix_inverse, &rotation_matrix) {
            return Err(LocateError::NumericOverflow);
        }
        let translation_vector = transform_matrix.translation_column();
        let translation_vector_inverse = translation_vector.neg();
        Ok(Transform {
            transform_matrix,
            transform_matrix_inverse,
            rotation_matrix,
            rotation_matrix_inverse,
            translation_vector,
            translation_vector_inverse,
        })
    }
}

} // verus!
