//! Ships: identity, archetype, and the state the simulation keeps for each.

use vstd::prelude::*;
use crate::units::Vector2;

verus! {

/// Identifies a live ship. The number is never given to another entity
/// during the same run.
#[derive(Clone, Copy, PartialEq, Eq, Structural, Debug, Hash)]
pub struct ShipHandle(pub u64);

/// The archetypes a ship can belong to.
#[derive(Clone, Copy, PartialEq, Eq, Structural, Debug)]
pub enum ShipClass {
    Fighter,
    Frigate,
    Cruiser,
    Asteroid,
    Target,
    Missile,
    Torpedo,
}

/// What the rules of combat read and change on a ship.
#[derive(Clone, Copy, PartialEq, Eq, Structural, Debug)]
pub struct ShipData {
    pub team: i32,
    pub class: ShipClass,
    pub health: i64,
    pub destroyed: bool,
}

/// Kinematic state of a rigid body as last reported by the physics world.
#[derive(Clone, Copy, PartialEq, Eq, Structural, Debug)]
pub struct Body {
    pub position: Vector2,
    pub heading: i64,
    pub velocity: Vector2,
    pub angular_velocity: i64,
}

/// A ship as stored by the simulation: its combat data and its body.
#[derive(Clone, Copy, PartialEq, Eq, Structural, Debug)]
pub struct ShipState {
    pub data: ShipData,
    pub body: Body,
}

/// Raised when a handle names no live entity.
#[derive(Clone, Copy, PartialEq, Eq, Structural, Debug)]
pub struct StaleHandle {
    pub index: u64,
}

impl ShipHandle {
    pub fn index(&self) -> (i: u64)
        ensures
            i == self.0,
    {
        self.0
    }
}

} // verus!
