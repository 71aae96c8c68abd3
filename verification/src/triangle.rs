//! Triangles of integer screen-space points.

use crate::point::Point;
use vstd::prelude::*;

verus! {

/// A triangle given by its three corner points.
#[derive(Clone, Copy)]
pub struct Triangle {
    pub a: Point,
    pub b: Point,
    pub c: Point,
}

impl Triangle {
    pub fn new(a: Point, b: Point, c: Point) -> (t: Self)
        ensures
            t == (Triangle { a, b, c }),
    {
        Self { a, b, c }
    }

    pub fn a(&self) -> (p: Point)
        ensures
            p == self.a,
    {
        self.a
    }

    pub fn b(&self) -> (p: Point)
        ensures
            p == self.b,
    {
        self.b
    }

    pub fn c(&self) -> (p: Point)
        ensures
            p == self.c,
    {
        self.c
    }

    pub fn set_a(&mut self, point: Point)
        ensures
            *final(self) == (Triangle { a: point, ..*old(self) }),
    {
        self.a = point;
    }

    pub fn set_b(&mut self, point: Point)
        ensures
            *final(self) == (Triangle { b: point, ..*old(self) }),
    {
        self.b = point;
    }

    pub fn set_c(&mut self, point: Point)
        ensures
            *final(self) == (Triangle { c: point, ..*old(self) }),
    {
        self.c = point;
    }
}

} // verus!
