//! Grid positions of modules and the adjacency relation between them.

use vstd::prelude::*;

verus! {

/// Integer grid coordinates of a module inside its world.
#[derive(Clone, Copy, Debug, PartialEq, Eq, Structural)]
pub struct ModulePosition {
    pub x: i32,
    pub y: i32,
    pub z: i32,
}

/// Absolute difference of two coordinates.
pub open spec fn axis_distance(a: int, b: int) -> int {
    if a >= b {
        a - b
    } else {
        b - a
    }
}

/// Manhattan distance between two positions.
pub open spec fn manhattan(a: ModulePosition, b: ModulePosition) -> int {
    axis_distance(a.x as int, b.x as int) + axis_distance(a.y as int, b.y as int) + axis_distance(
        a.z as int,
        b.z as int,
    )
}

/// Two positions are adjacent when their Manhattan distance is exactly one.
pub open spec fn adjacent(a: ModulePosition, b: ModulePosition) -> bool {
    manhattan(a, b) == 1
}

fn axis_gap(a: i32, b: i32) -> (d: i64)
    ensures
        d == axis_distance(a as int, b as int),
        0 <= d <= 0xffff_ffff,
{
    let wide_a: i64 = a as i64;
    let wide_b: i64 = b as i64;
    if wide_a >= wide_b {
        wide_a - wide_b
    } else {
        wide_b - wide_a
    }
}

impl ModulePosition {
    pub fn new(x: i32, y: i32, z: i32) -> (p: Self)
        ensures
            p == (ModulePosition { x, y, z }),
    {
        ModulePosition { x, y, z }
    }

    /// Whether `other` is exactly one step away along a single axis.
    pub fn is_adjacent(&self, other: &ModulePosition) -> (r: bool)
        ensures
            r == adjacent(*self, *other),
    {
        let total: i64 = axis_gap(self.x, other.x) + axis_gap(self.y, other.y) + axis_gap(
            self.z,
            other.z,
        );
        total == 1
    }

    /// The Manhattan distance to `other`, where it fits the coordinate type.
    pub fn manhattan_distance(&self, other: &ModulePosition) -> (d: i32)
        requires
            manhattan(*self, *other) <= i32::MAX,
        ensures
            d == manhattan(*self, *other),
    {
        let total: i64 = axis_gap(self.x, other.x) + axis_gap(self.y, other.y) + axis_gap(
            self.z,
            other.z,
        );
        total as i32
    }

    /// The Manhattan distance to `other`, or `None` where it exceeds the coordinate type.
    pub fn checked_manhattan_distance(&self, other: &ModulePosition) -> (d: Option<i32>)
        ensures
            d == if manhattan(*self, *other) <= i32::MAX {
                Some(manhattan(*self, *other) as i32)
            } else {
                None
            },
    {
        let total: i64 = axis_gap(self.x, other.x) + axis_gap(self.y, other.y) + axis_gap(
            self.z,
            other.z,
        );
        if total <= i32::MAX as i64 {
            Some(total as i32)
        } else {
            None
        }
    }
}

/// Adjacency does not depend on the order of the two positions.
pub proof fn lemma_adjacent_symmetric(a: ModulePosition, b: ModulePosition)
    ensures
        manhattan(a, b) == manhattan(b, a),
        adjacent(a, b) == adjacent(b, a),
{
}

/// No position is adjacent to itself.
pub proof fn lemma_not_adjacent_to_self(a: ModulePosition)
    ensures
        manhattan(a, a) == 0,
        !adjacent(a, a),
{
}

} // verus!
