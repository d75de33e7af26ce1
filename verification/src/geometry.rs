//! Points and vectors of three-dimensional space.

use vstd::prelude::*;
use crate::scalar::Scalar;

verus! {

/// A position.
#[derive(Clone, Copy, Debug, PartialEq, Eq, Structural)]
pub struct Point {
    pub x: Scalar,
    pub y: Scalar,
    pub z: Scalar,
}

impl Point {
    pub fn new(x: Scalar, y: Scalar, z: Scalar) -> (p: Point)
        ensures
            p == (Point { x, y, z }),
    {
        Point { x, y, z }
    }

    /// The displacement from the origin to this point.
    pub open spec fn as_vector(self) -> Vector {
        Vector { x: self.x, y: self.y, z: self.z }
    }

    /// The displacement from the origin to this point.
    pub fn to_vec(self) -> (v: Vector)
        ensures
            v == self.as_vector(),
    {
        Vector { x: self.x, y: self.y, z: self.z }
    }
}

/// A displacement or a triple of per-axis parameters.
#[derive(Clone, Copy, Debug, PartialEq, Eq, Structural)]
pub struct Vector {
    pub x: Scalar,
    pub y: Scalar,
    pub z: Scalar,
}

impl Vector {
    pub fn new(x: Scalar, y: Scalar, z: Scalar) -> (v: Vector)
        ensures
            v == (Vector { x, y, z }),
    {
        Vector { x, y, z }
    }

    /// The vector with every component's sign flipped.
    pub open spec fn negated(self) -> Vector {
        Vector { x: self.x.negated(), y: self.y.negated(), z: self.z.negated() }
    }

    /// Flipping every sign twice gives the vector back.
    pub proof fn lemma_negated_twice(self)
        ensures
            self.negated().negated() == self,
    {
        self.x.lemma_negated_twice();
        self.y.lemma_negated_twice();
        self.z.lemma_negated_twice();
    }

    /// Exact componentwise sign flip.
    pub fn neg(self) -> (v: Vector)
        ensures
            v == self.negated(),
    {
        Vector { x: self.x.neg(), y: self.y.neg(), z: self.z.neg() }
    }
}

} // verus!
