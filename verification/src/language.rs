//! The syntax tree that the parser builds.

use vstd::prelude::*;

verus! {

/// A binary64 number, held by its IEEE 754 bit pattern.
///
/// Two scalars are equal when their bits are: `+0` and `-0` differ, and a NaN
/// equals itself.
#[derive(Debug, Clone, Copy, PartialEq, Eq, Structural)]
pub struct Scalar {
    pub bits: u64,
}

/// A position in the plane.
#[derive(Debug, Clone, Copy, PartialEq, Eq, Structural)]
pub struct Point {
    pub x: Scalar,
    pub y: Scalar,
}

/// A transformation program. The five variants are all there are.
#[derive(Debug, PartialEq, Eq)]
pub enum Expression {
    /// Shift by `(u, v)`.
    Translation { u: Scalar, v: Scalar },
    /// Turn by `theta` about the pivot `(u, v)`.
    Rotation { u: Scalar, v: Scalar, theta: Scalar },
    /// Apply the first, then the second.
    Chained(Box<Expression>, Box<Expression>),
    /// One of two branches; which one is for the consumer to decide.
    EitherOr { left: Box<Expression>, right: Box<Expression> },
    /// Repeat the body.
    Iterate(Box<Expression>),
}

/// A starting point and the transformation to apply to it.
#[derive(Debug, PartialEq, Eq)]
pub struct Program {
    pub init: Point,
    pub body: Expression,
}

} // verus!
