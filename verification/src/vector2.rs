//! A 2D fixed-point vector value type.
//!
//! Every operation returns a new value; nothing is mutated in place.
//! The named unit constructors are one world unit long, that is
//! `FIXED_ONE` fixed-point steps.

use vstd::prelude::*;
use crate::fixed::FIXED_ONE;

verus! {

/// A two-dimensional vector, each component a fixed-point scalar.
#[derive(Clone, Copy, Debug, PartialEq, Eq, Structural)]
pub struct Vector2 {
    pub x: i64,
    pub y: i64,
}

impl Vector2 {
    /// The vector with the given components.
    pub fn new(x: i64, y: i64) -> (r: Vector2)
        ensures
            r.x == x,
            r.y == y,
    {
        Vector2 { x, y }
    }

    /// The zero vector.
    pub fn zero() -> (r: Vector2)
        ensures
            r.x == 0,
            r.y == 0,
    {
        Vector2::new(0, 0)
    }

    /// One world unit along both axes.
    pub fn one() -> (r: Vector2)
        ensures
            r.x == FIXED_ONE,
            r.y == FIXED_ONE,
    {
        Vector2::new(FIXED_ONE, FIXED_ONE)
    }

    /// One world unit along the positive x axis.
    pub fn right() -> (r: Vector2)
        ensures
            r.x == FIXED_ONE,
            r.y == 0,
    {
        Vector2::new(FIXED_ONE, 0)
    }

    /// One world unit along the negative x axis.
    pub fn left() -> (r: Vector2)
        ensures
            r.x == -FIXED_ONE,
            r.y == 0,
    {
        Vector2::new(-FIXED_ONE, 0)
    }

    /// One world unit along the positive y axis.
    pub fn up() -> (r: Vector2)
        ensures
            r.x == 0,
            r.y == FIXED_ONE,
    {
        Vector2::new(0, FIXED_ONE)
    }

    /// One world unit along the negative y axis.
    pub fn down() -> (r: Vector2)
        ensures
            r.x == 0,
            r.y == -FIXED_ONE,
    {
        Vector2::new(0, -FIXED_ONE)
    }

    /// Componentwise sum.
    pub fn add(&self, adder: &Vector2) -> (r: Vector2)
        requires
            i64::MIN <= self.x + adder.x <= i64::MAX,
            i64::MIN <= self.y + adder.y <= i64::MAX,
        ensures
            r.x == self.x + adder.x,
            r.y == self.y + adder.y,
    {
        Vector2::new(self.x + adder.x, self.y + adder.y)
    }

    /// Componentwise difference.
    pub fn sub(&self, subber: &Vector2) -> (r: Vector2)
        requires
            i64::MIN <= self.x - subber.x <= i64::MAX,
            i64::MIN <= self.y - subber.y <= i64::MAX,
        ensures
            r.x == self.x - subber.x,
            r.y == self.y - subber.y,
    {
        Vector2::new(self.x - subber.x, self.y - subber.y)
    }
}

} // verus!
