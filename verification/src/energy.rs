//! The energy accumulator that drives the turn scheduler.
//!
//! Every scheduler tick adds one point of energy to each actor that carries
//! an accumulator; an actor may begin an action only while its energy is
//! strictly positive, and completing an action of cost `c` subtracts `c`
//! even when that leaves a deficit to be worked off over later ticks.

use vstd::prelude::*;

verus! {

/// A signed energy accumulator for one actor.
#[derive(Debug, Clone, Copy, PartialEq, Eq, Structural)]
pub struct Energy(pub i32);

impl Energy {
    /// The accumulator's current balance, as a mathematical integer.
    pub open spec fn val(self) -> int {
        self.0 as int
    }

    /// A fresh accumulator starts empty: the actor must wait a tick
    /// before its first action.
    pub fn new() -> (r: Energy)
        ensures
            r.val() == 0,
    {
        Energy(0)
    }

    /// Add `amount` points (the scheduler tick uses 1).
    pub fn gain(&mut self, amount: i8)
        requires
            i32::MIN <= old(self).val() + amount <= i32::MAX,
        ensures
            final(self).val() == old(self).val() + amount,
    {
        self.0 = self.0 + amount as i32;
    }

    /// An actor may start an action only while its balance is strictly
    /// positive.
    pub fn can_act(&self) -> (r: bool)
        ensures
            r == (self.val() > 0),
    {
        self.0 > 0
    }

    /// Consume an action of cost `amount`: permitted only while the balance
    /// is positive, and then subtracted in full, possibly leaving a deficit.
    /// Returns whether the action was permitted.
    pub fn consume(&mut self, amount: u8) -> (r: bool)
        requires
            i32::MIN <= old(self).val() - amount,
        ensures
            old(self).val() > 0 ==> r && final(self).val() == old(self).val() - amount,
            old(self).val() <= 0 ==> !r && *final(self) == *old(self),
    {
        if self.can_act() {
            self.0 = self.0 - amount as i32;
            true
        } else {
            false
        }
    }
}

} // verus!
