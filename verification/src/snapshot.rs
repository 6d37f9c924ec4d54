//! Snapshots: immutable, render-ready projections of the simulation at a
//! step boundary.

use vstd::prelude::*;
use std::collections::BTreeMap;
use crate::bullet::{BulletHandle, BulletState};
use crate::events::{duplicate_errors, AgentError, Line, SimEvents};
use crate::model::SimulationView;
use crate::scenario::{Scenario, Status};
use crate::script::TeamController;
use crate::ship::{ShipClass, ShipHandle, ShipState};
use crate::simulation::Simulation;
use crate::units::{elapsed, Vector2};
use crate::world::World;

verus! {

/// What a consumer gets to know of one ship.
#[derive(Clone, Copy, PartialEq, Eq, Structural, Debug)]
pub struct ShipSnapshot {
    pub id: u64,
    pub position: Vector2,
    pub velocity: Vector2,
    pub heading: i64,
    pub angular_velocity: i64,
    pub team: i32,
    pub class: ShipClass,
    pub health: i64,
}

/// What a consumer gets to know of one bullet.
#[derive(Clone, Copy, PartialEq, Eq, Structural, Debug)]
pub struct BulletSnapshot {
    pub position: Vector2,
    pub velocity: Vector2,
}

/// The state of the simulation at a step boundary, as handed to consumers.
pub struct Snapshot {
    pub nonce: u32,
    pub time: u64,
    pub status: Status,
    pub ships: Vec<ShipSnapshot>,
    pub bullets: Vec<BulletSnapshot>,
    pub scenario_lines: Vec<Line>,
    pub debug_lines: BTreeMap<u64, Vec<Line>>,
    pub hits: Vec<Vector2>,
    pub ships_destroyed: Vec<Vector2>,
    pub errors: Vec<AgentError>,
    pub cheats: bool,
}

/// Mathematical content of a [`Snapshot`].
pub struct SnapshotView {
    pub nonce: u32,
    pub time: u64,
    pub status: Status,
    pub ships: Seq<ShipSnapshot>,
    pub bullets: Seq<BulletSnapshot>,
    pub scenario_lines: Seq<Line>,
    pub debug_lines: Map<u64, Seq<Line>>,
    pub hits: Seq<Vector2>,
    pub ships_destroyed: Seq<Vector2>,
    pub errors: Seq<AgentError>,
    pub cheats: bool,
}

impl View for Snapshot {
    type V = SnapshotView;

    open spec fn view(&self) -> SnapshotView {
        SnapshotView {
            nonce: self.nonce,
            time: self.time,
            status: self.status,
            ships: self.ships@,
            bullets: self.bullets@,
            scenario_lines: self.scenario_lines@,
            debug_lines: self.debug_lines@.map_values(|v: Vec<Line>| v@),
            hits: self.hits@,
            ships_destroyed: self.ships_destroyed@,
            errors: self.errors@,
            cheats: self.cheats,
        }
    }
}

/// The summary of the ship `id` in state `s`.
pub open spec fn ship_summary(id: u64, s: ShipState) -> ShipSnapshot {
    ShipSnapshot {
        id,
        position: s.body.position,
        velocity: s.body.velocity,
        heading: s.body.heading,
        angular_velocity: s.body.angular_velocity,
        team: s.data.team,
        class: s.data.class,
        health: s.data.health,
    }
}

/// The summary of a bullet in state `b`.
pub open spec fn bullet_summary(b: BulletState) -> BulletSnapshot {
    BulletSnapshot { position: b.body.position, velocity: b.body.velocity }
}

/// The summaries of the ships listed in `ships`, in that order.
pub open spec fn ship_summaries(ships: Seq<u64>, data: Map<u64, ShipState>) -> Seq<ShipSnapshot> {
    Seq::new(ships.len(), |i: int| ship_summary(ships[i], data[ships[i]]))
}

/// The summaries of the bullets listed in `bullets`, in that order.
pub open spec fn bullet_summaries(bullets: Seq<u64>, data: Map<u64, BulletState>) -> Seq<
    BulletSnapshot,
> {
    Seq::new(bullets.len(), |i: int| bullet_summary(data[bullets[i]]))
}

/// The snapshot of a simulation, given the nonce the consumer chose and what
/// the scenario answered.
pub open spec fn snapshot_of(
    sim: SimulationView,
    nonce: u32,
    status: Status,
    scenario_lines: Seq<Line>,
) -> SnapshotView {
    SnapshotView {
        nonce,
        time: elapsed(sim.tick) as u64,
        status,
        ships: ship_summaries(sim.world.ships, sim.world.ship_data),
        bullets: bullet_summaries(sim.world.bullets, sim.world.bullet_data),
        scenario_lines,
        debug_lines: sim.world.events.debug_lines,
        hits: sim.world.events.hits,
        ships_destroyed: sim.world.events.ships_destroyed,
        errors: sim.world.events.errors,
        cheats: sim.world.cheats,
    }
}

/// Copies a list of points element by element.
fn copy_points(points: &Vec<Vector2>) -> (copy: Vec<Vector2>)
    ensures
        copy@ == points@,
{
    let mut copy: Vec<Vector2> = Vec::new();
    let mut i: usize = 0;
    while i < points.len()
        invariant
            i <= points@.len(),
            copy@ == points@.take(i as int),
        decreases points@.len() - i,
    {
        copy.push(points[i]);
        assert(points@.take(i + 1) == points@.take(i as int).push(points@[i as int]));
        i += 1;
    }
    assert(points@.take(i as int) == points@);
    copy
}

impl World {
    /// The summaries of the live ships, in registry order.
    pub fn summarize_ships(&self) -> (ships: Vec<ShipSnapshot>)
        requires
            self.wf(),
        ensures
            ships@ == ship_summaries(self@.ships, self@.ship_data),
    {
        let registry = self.ships();
        let mut ships: Vec<ShipSnapshot> = Vec::new();
        let mut i: usize = 0;
        while i < registry.len()
            invariant
                self.wf(),
                registry@ == self@.ships,
                i <= registry@.len(),
                ships@ == ship_summaries(self@.ships, self@.ship_data).take(i as int),
            decreases registry@.len() - i,
        {
            let id = registry.get(i);
            assert(self@.ships.contains(id));
            if let Ok(s) = self.ship_state(ShipHandle(id)) {
                ships.push(
                    ShipSnapshot {
                        id,
                        position: s.body.position,
                        velocity: s.body.velocity,
                        heading: s.body.heading,
                        angular_velocity: s.body.angular_velocity,
                        team: s.data.team,
                        class: s.data.class,
                        health: s.data.health,
                    },
                );
            }
            assert(ships@ =~= ship_summaries(self@.ships, self@.ship_data).take(i + 1));
            i += 1;
        }
        assert(ships@ =~= ship_summaries(self@.ships, self@.ship_data));
        ships
    }

    /// The summaries of the live bullets, in registry order.
    pub fn summarize_bullets(&self) -> (bullets: Vec<BulletSnapshot>)
        requires
            self.wf(),
        ensures
            bullets@ == bullet_summaries(self@.bullets, self@.bullet_data),
    {
        let registry = self.bullets();
        let mut bullets: Vec<BulletSnapshot> = Vec::new();
        let mut i: usize = 0;
        while i < registry.len()
            invariant
                self.wf(),
                registry@ == self@.bullets,
                i <= registry@.len(),
                bullets@ == bullet_summaries(self@.bullets, self@.bullet_data).take(i as int),
            decreases registry@.len() - i,
        {
            let id = registry.get(i);
            assert(self@.bullets.contains(id));
            if let Ok(b) = self.bullet_state(BulletHandle(id)) {
                bullets.push(
                    BulletSnapshot { position: b.body.position, velocity: b.body.velocity },
                );
            }
            assert(bullets@ =~= bullet_summaries(self@.bullets, self@.bullet_data).take(i + 1));
            i += 1;
        }
        assert(bullets@ =~= bullet_summaries(self@.bullets, self@.bullet_data));
        bullets
    }
}

impl<T: TeamController, S: Scenario> Simulation<T, S> {
    /// Projects the simulation into a snapshot, given what the scenario
    /// answered. Nothing in the simulation changes.
    pub fn project(&self, nonce: u32, status: Status, scenario_lines: Vec<Line>) -> (snapshot:
        Snapshot)
        requires
            self.wf(),
        ensures
            snapshot@ == snapshot_of(self@, nonce, status, scenario_lines@),
    {
        let world = self.world();
        let events: &SimEvents = world.events();
        Snapshot {
            nonce,
            time: self.time(),
            status,
            ships: world.summarize_ships(),
            bullets: world.summarize_bullets(),
            scenario_lines,
            debug_lines: events.debug_lines.clone(),
            hits: copy_points(&events.hits),
            ships_destroyed: copy_points(&events.ships_destroyed),
            errors: duplicate_errors(&events.errors),
            cheats: world.cheats(),
        }
    }
}

} // verus!
