//! Transforms as products of factors.
//!
//! The library never multiplies matrices. It records which factors a
//! transform is the product of, from left to right, and leaves the
//! arithmetic to the embedder. The empty product is the identity, and the
//! product of two transforms lists the factors of the first and then those
//! of the second.

use vstd::prelude::*;
use crate::types::MatrixId;

verus! {

/// One factor of a transform.
#[derive(Clone, Copy, Debug, PartialEq, Eq, Structural)]
pub enum Factor {
    /// A move by whole pixels; never by zero on both axes.
    Translation { x: i32, y: i32 },
    /// A matrix of the scene.
    Matrix(MatrixId),
}

/// A transform: the product of its factors, from left to right.
#[derive(Debug, PartialEq, Eq)]
pub struct Transform {
    pub factors: Vec<Factor>,
}

impl View for Transform {
    type V = Seq<Factor>;

    open spec fn view(&self) -> Seq<Factor> {
        self.factors@
    }
}

/// The identity.
pub open spec fn identity() -> Seq<Factor> {
    Seq::empty()
}

/// The move by `(x, y)`. A move by nothing is the identity.
pub open spec fn translation(x: i32, y: i32) -> Seq<Factor> {
    if x == 0 && y == 0 {
        Seq::empty()
    } else {
        seq![Factor::Translation { x, y }]
    }
}

/// The product `a · b`.
pub open spec fn product(a: Seq<Factor>, b: Seq<Factor>) -> Seq<Factor> {
    a + b
}

impl Transform {
    pub fn identity() -> (t: Transform)
        ensures
            t@ == identity(),
    {
        Transform { factors: Vec::new() }
    }

    /// The one-factor transform of a scene matrix.
    pub fn matrix(id: MatrixId) -> (t: Transform)
        ensures
            t@ == seq![Factor::Matrix(id)],
    {
        let mut factors = Vec::new();
        factors.push(Factor::Matrix(id));
        Transform { factors }
    }

    /// Whether the transform is the product of nothing.
    pub fn is_identity(&self) -> (b: bool)
        ensures
            b == (self@ == identity()),
    {
        proof {
            assert(self@.len() == 0 ==> self@ =~= identity());
        }
        self.factors.len() == 0
    }

    /// `self · other`.
    pub fn mul(&self, other: &Transform) -> (t: Transform)
        ensures
            t@ == product(self@, other@),
    {
        let mut factors: Vec<Factor> = Vec::new();
        let mut i: usize = 0;
        while i < self.factors.len()
            invariant
                i <= self.factors.len(),
                factors@ == self.factors@.take(i as int),
            decreases self.factors.len() - i,
        {
            factors.push(self.factors[i]);
            i += 1;
        }
        assert(factors@ == self.factors@);
        let mut j: usize = 0;
        while j < other.factors.len()
            invariant
                j <= other.factors.len(),
                factors@ == self.factors@ + other.factors@.take(j as int),
            decreases other.factors.len() - j,
        {
            factors.push(other.factors[j]);
            j += 1;
        }
        assert(factors@ == self.factors@ + other.factors@);
        Transform { factors }
    }

    /// `self · T(x, y)`.
    pub fn translate(&self, x: i32, y: i32) -> (t: Transform)
        ensures
            t@ == product(self@, translation(x, y)),
    {
        let mut t = self.mul(&Transform::identity());
        if x != 0 || y != 0 {
            t.factors.push(Factor::Translation { x, y });
        }
        t
    }

    /// A copy of the transform.
    pub fn duplicate(&self) -> (t: Transform)
        ensures
            t@ == self@,
    {
        self.mul(&Transform::identity())
    }
}

/// Products may be grouped at will, and the identity changes nothing.
pub proof fn lemma_product_laws(a: Seq<Factor>, b: Seq<Factor>, c: Seq<Factor>)
    ensures
        product(product(a, b), c) == product(a, product(b, c)),
        product(identity(), a) == a,
        product(a, identity()) == a,
        translation(0, 0) == identity(),
{
}

} // verus!
