//! The boundary to the scenario: the ruleset that places entities, watches
//! the world and decides when the match is over.

use vstd::prelude::*;
use crate::events::Line;
use crate::model::WorldView;
use crate::world::World;

verus! {

/// Where a match stands.
#[derive(Clone, Copy, PartialEq, Eq, Structural, Debug)]
pub enum Status {
    Running,
    /// The team with this number has won.
    Won(i32),
    Lost,
    Draw,
}

/// A pluggable ruleset.
///
/// A scenario reads and changes the world through the world's own
/// operations. The simulation relies on one thing only: that the world it
/// gets back is well formed, which those operations keep.
///
/// Each call has a relation for what it does. The relations say nothing
/// unless a scenario defines them; the contracts of the simulation use them to
/// state what it hands to the scenario and that it returns what it got back.
pub trait Scenario: Sized {
    /// What loading does, as a relation between a name and the scenario
    /// built for it. Like the relations below, it holds of everything unless
    /// a scenario says more; the library relies on none of them and uses
    /// them to say what each call was handed.
    open spec fn loaded(name: Seq<char>, scenario: Self) -> bool {
        true
    }

    /// Builds the scenario known under `name`.
    fn load(name: &str) -> (scenario: Self)
        ensures
            Self::loaded(name@, scenario),
    ;

    /// What initialising does, as a relation: `before` and `world` are the
    /// scenario and the world handed to it together with `seed`, `after` and
    /// `result` what it leaves.
    open spec fn initialised(
        before: Self,
        world: WorldView,
        seed: u32,
        after: Self,
        result: WorldView,
    ) -> bool {
        true
    }

    /// Called once, before the first step.
    fn init(&mut self, world: &mut World, seed: u32)
        requires
            old(world).wf(),
        ensures
            final(world).wf(),
            Self::initialised(*old(self), old(world)@, seed, *final(self), final(world)@),
    ;

    /// What one tick of this scenario does, as a relation: `before` and
    /// `world` are the scenario and the world handed to the tick, `after`
    /// and `result` what it leaves. A scenario that says nothing of its tick
    /// keeps this relation, which holds of everything; the library relies on
    /// none of it and uses it to say which world a tick was handed.
    open spec fn ticked(before: Self, world: WorldView, after: Self, result: WorldView) -> bool {
        true
    }

    /// Called once per step, after every agent has run.
    fn tick(&mut self, world: &mut World)
        requires
            old(world).wf(),
        ensures
            final(world).wf(),
            Self::ticked(*old(self), old(world)@, *final(self), final(world)@),
    ;

    /// What judging does, as a relation between the scenario, the world it
    /// is shown and the status it answers.
    open spec fn judged(scenario: Self, world: WorldView, status: Status) -> bool {
        true
    }

    /// Where the match stands.
    fn status(&self, world: &World) -> (status: Status)
        requires
            world.wf(),
        ensures
            Self::judged(*self, world@, status),
    ;

    /// What drawing does, as a relation between the scenario and the
    /// geometry it answers.
    open spec fn drawn(scenario: Self, lines: Seq<Line>) -> bool {
        true
    }

    /// Geometry the scenario wants drawn over the world.
    fn lines(&self) -> (lines: Vec<Line>)
        ensures
            Self::drawn(*self, lines@),
    ;
}

} // verus!
