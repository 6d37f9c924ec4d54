//! Bullets: identity and the state the simulation keeps for each.

use vstd::prelude::*;
use crate::ship::Body;

verus! {

/// Identifies a live bullet. Bullets and ships draw their numbers from one
/// counter, so a number names at most one entity of either kind.
#[derive(Clone, Copy, PartialEq, Eq, Structural, Debug, Hash)]
pub struct BulletHandle(pub u64);

/// What the rules of combat read on a bullet; fixed when it is fired.
#[derive(Clone, Copy, PartialEq, Eq, Structural, Debug)]
pub struct BulletData {
    pub team: i32,
    pub damage: i64,
}

/// A bullet as stored by the simulation: its combat data and its body.
#[derive(Clone, Copy, PartialEq, Eq, Structural, Debug)]
pub struct BulletState {
    pub data: BulletData,
    pub body: Body,
}

impl BulletHandle {
    pub fn index(&self) -> (i: u64)
        ensures
            i == self.0,
    {
        self.0
    }
}

} // verus!
