//! Integer points in screen space.

use vstd::prelude::*;

verus! {

/// A point with integer coordinates, as used for pixel positions.
#[derive(Clone, Copy, Debug)]
pub struct Point {
    pub x: i32,
    pub y: i32,
    pub z: i32,
}

impl Point {
    pub fn new(x: i32, y: i32, z: i32) -> (p: Self)
        ensures
            p == (Point { x, y, z }),
    {
        Self { x, y, z }
    }

    pub fn x(&self) -> (v: i32)
        ensures
            v == self.x,
    {
        self.x
    }

    pub fn y(&self) -> (v: i32)
        ensures
            v == self.y,
    {
        self.y
    }

    pub fn z(&self) -> (v: i32)
        ensures
            v == self.z,
    {
        self.z
    }

    pub fn set_x(&mut self, x: i32)
        ensures
            final(self).x == x,
            final(self).y == old(self).y,
            final(self).z == old(self).z,
    {
        self.x = x;
    }

    pub fn set_y(&mut self, y: i32)
        ensures
            final(self).y == y,
            final(self).x == old(self).x,
            final(self).z == old(self).z,
    {
        self.y = y;
    }

    pub fn set_z(&mut self, z: i32)
        ensures
            final(self).z == z,
            final(self).x == old(self).x,
            final(self).y == old(self).y,
    {
        self.z = z;
    }
}

} // verus!
