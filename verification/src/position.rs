//! Grid positions and the movement-vector algorithm.
//!
//! `move_towards` normalizes the vector toward a target to the nearest
//! cardinal unit step: an axis survives the rounding exactly when its
//! delta is at least half the Euclidean distance, which over integers is
//! `3*d*d >= o*o` for the other axis `o`. When both axes survive, a fair
//! coin zeroes one of them: diagonal movement is structurally disallowed.

use crate::rng::coin_flip;
use crate::velocity::{displacement, Velocity};
use vstd::prelude::*;

verus! {

/// An integer (x, y) grid coordinate; y grows southward.
#[derive(Debug, Clone, Copy, PartialEq, Eq, Hash, Structural)]
pub struct Position {
    pub x: i32,
    pub y: i32,
}

/// Where an actor stood before the latest movement stage; used to detect
/// motion between passes.
#[derive(Debug, Clone, Copy, PartialEq, Eq, Structural)]
pub struct PreviousPosition {
    pub x: i32,
    pub y: i32,
}

/// The sign of an integer: -1, 0, or 1.
pub open spec fn sgn(d: int) -> int {
    if d > 0 {
        1
    } else if d < 0 {
        -1
    } else {
        0
    }
}

/// The unit step the movement-vector algorithm keeps on an axis with delta
/// `d` when the other axis has delta `o`: the sign of `d` if `d` is at
/// least half the Euclidean distance, else zero.
pub open spec fn step_toward(d: int, o: int) -> int {
    if 3 * (d * d) >= o * o {
        sgn(d)
    } else {
        0
    }
}

impl Position {
    /// The candidate destination after applying a velocity to this
    /// position.
    pub fn add_velocity(&self, vel: &Velocity) -> (r: Position)
        requires
            i32::MIN <= self.x + displacement(*vel).0 <= i32::MAX,
            i32::MIN <= self.y + displacement(*vel).1 <= i32::MAX,
        ensures
            r.x == self.x + displacement(*vel).0,
            r.y == self.y + displacement(*vel).1,
    {
        match vel.heading {
            crate::velocity::Heading::North => Position { x: self.x, y: self.y - vel.magnitude as i32 },
            crate::velocity::Heading::East => Position { x: self.x + vel.magnitude as i32, y: self.y },
            crate::velocity::Heading::South => Position { x: self.x, y: self.y + vel.magnitude as i32 },
            crate::velocity::Heading::West => Position { x: self.x - vel.magnitude as i32, y: self.y },
        }
    }

    /// The squared Euclidean distance between two positions. Range checks
    /// that the original drew over fractional distances are drawn over
    /// squares here, which agrees exactly for integer ranges.
    pub fn distance_sq(&self, other: &Position) -> (r: i64)
        requires
            -0x4000_0000 <= other.x - self.x <= 0x4000_0000,
            -0x4000_0000 <= other.y - self.y <= 0x4000_0000,
        ensures
            r == (other.x - self.x) * (other.x - self.x) + (other.y - self.y) * (other.y
                - self.y),
    {
        let dx: i64 = other.x as i64 - self.x as i64;
        let dy: i64 = other.y as i64 - self.y as i64;
        proof {
            lemma_square_bound(dx as int);
            lemma_square_bound(dy as int);
        }
        dx * dx + dy * dy
    }

    /// One cardinal unit step from this position toward `target`: the
    /// movement-vector algorithm of the scheduler's pursuit rule. The
    /// result is never diagonal, has magnitude 1 exactly when the target
    /// is elsewhere, and keeps the axis (or, on a fair coin, one of the
    /// two axes) that the rounding rule selects.
    pub fn move_towards(&self, target: &Position) -> (r: Velocity)
        requires
            -0x4000_0000 <= target.x - self.x <= 0x4000_0000,
            -0x4000_0000 <= target.y - self.y <= 0x4000_0000,
        ensures
            displacement(r).0 == 0 || displacement(r).1 == 0,
            r.magnitude <= 1,
            (self.x == target.x && self.y == target.y) <==> r.magnitude == 0,
            ({
                let nx = step_toward(target.x - self.x, target.y - self.y);
                let ny = step_toward(target.y - self.y, target.x - self.x);
                if nx != 0 && ny != 0 {
                    displacement(r) == (nx, 0int) || displacement(r) == (0int, ny)
                } else {
                    displacement(r) == (nx, ny)
                }
            }),
    {
        let dx: i64 = target.x as i64 - self.x as i64;
        let dy: i64 = target.y as i64 - self.y as i64;
        proof {
            lemma_square_bound(dx as int);
            lemma_square_bound(dy as int);
        }
        let dxx: i64 = dx * dx;
        let dyy: i64 = dy * dy;
        let sx: i64 = if dx > 0 { 1 } else if dx < 0 { -1 } else { 0 };
        let sy: i64 = if dy > 0 { 1 } else if dy < 0 { -1 } else { 0 };
        let nx: i64 = if 3 * dxx >= dyy { sx } else { 0 };
        let ny: i64 = if 3 * dyy >= dxx { sy } else { 0 };
        proof {
            lemma_step_not_both_zero(dx as int, dy as int);
        }
        if nx != 0 && ny != 0 {
            if coin_flip() {
                Velocity::from_deltas(nx as i32, 0)
            } else {
                Velocity::from_deltas(0, ny as i32)
            }
        } else {
            Velocity::from_deltas(nx as i32, ny as i32)
        }
    }
}

/// The square of an integer bounded by 2^30 fits comfortably in an i64,
/// even after tripling.
proof fn lemma_square_bound(d: int)
    requires
        -0x4000_0000 <= d <= 0x4000_0000,
    ensures
        0 <= d * d <= 0x1000_0000_0000_0000,
{
    assert(0 <= d * d <= 0x1000_0000_0000_0000) by (nonlinear_arith)
        requires
            -0x4000_0000 <= d <= 0x4000_0000,
    ;
}

/// The rounding rule keeps at least one axis whenever the deltas are not
/// both zero: `3*d*d < o*o` and `3*o*o < d*d` cannot hold together unless
/// both are zero.
proof fn lemma_step_not_both_zero(dx: int, dy: int)
    ensures
        (dx != 0 || dy != 0) ==> (step_toward(dx, dy) != 0 || step_toward(dy, dx) != 0),
        dx == 0 && dy == 0 ==> step_toward(dx, dy) == 0 && step_toward(dy, dx) == 0,
{
    assert((3 * (dx * dx) < dy * dy && 3 * (dy * dy) < dx * dx) ==> false) by (nonlinear_arith);
    assert((dx * dx == 0) <==> dx == 0) by (nonlinear_arith);
    assert((dy * dy == 0) <==> dy == 0) by (nonlinear_arith);
    assert(dx * dx >= 0 && dy * dy >= 0) by (nonlinear_arith);
}

} // verus!
