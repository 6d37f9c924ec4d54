//! The simulation: the world, the agent code of every team and ship, the
//! scenario, and the step that drives them in a fixed order.

use vstd::prelude::*;
use std::collections::HashMap;
use crossbeam::channel::Receiver;
use crate::bullet::{BulletData, BulletHandle, BulletState};
use crate::collision::{open_channel, pending, take_next, CollisionEvent, CollisionEventHandler};
use crate::events::{AgentError, Line, Origin, SimEvents};
use crate::fingerprint::fingerprint;
use crate::model::{lemma_collisions_keep_ships_and_bullets, tagged, SimulationView, WorldView};
use crate::scenario::{Scenario, Status};
use crate::agents::{
    agent_turn, agents_pass, kept, law_no_agents_no_failures, no_agents, no_failures, turn_taken,
    turns_taken,
};
use crate::script::{
    agent_source, outcome_of, source_of, Error, ShipController, TeamController,
};
use crate::ship::{Body, ShipData, ShipHandle, ShipState};
use crate::snapshot::{snapshot_of, Snapshot};
use crate::units::{elapsed, ticks_to_time};
use crate::world::{BulletAccessor, BulletAccessorMut, ShipAccessor, ShipAccessorMut, World};

verus! {

/// A running match: the world, the scenario that rules it, the agent code of
/// every team and ship, and the queue of collisions still to be resolved.
pub struct Simulation<T: TeamController, S: Scenario> {
    scenario: S,
    world: World,
    team_controllers: HashMap<i32, T>,
    /// The controller of each ship that was asked for one; `None` where the
    /// team could not build it.
    ship_controllers: HashMap<u64, Option<T::Ship>>,
    event_collector: CollisionEventHandler,
    contact_recv: Receiver<CollisionEvent>,
    tick: u32,
    seed: u32,
}

impl<T: TeamController, S: Scenario> View for Simulation<T, S> {
    type V = SimulationView;

    closed spec fn view(&self) -> SimulationView {
        SimulationView { world: self.world@, tick: self.tick, seed: self.seed }
    }
}

impl<T: TeamController, S: Scenario> Simulation<T, S> {
    /// The world is well formed. See [`WorldView::wf`].
    pub open spec fn wf(&self) -> bool {
        self@.world.wf()
    }

    /// The agent code installed for each team.
    pub closed spec fn team_controllers(&self) -> Map<i32, T> {
        self.team_controllers@
    }

    /// Spells out the view field by field.
    proof fn lemma_view(&self)
        ensures
            self@.world == self.world@,
            self@.tick == self.tick,
            self@.seed == self.seed,
            self.wf() == self.world.wf(),
    {
    }

    /// Builds a simulation: an empty world, the code of team 0 installed, and
    /// the scenario `scenario_name` loaded and initialised with `seed`. Empty
    /// code stands for an agent that does nothing.
    ///
    /// What is compiled is the source for `code` (see
    /// [`crate::script::source_of`]). The scenario is initialised on the
    /// empty world, with the failure to compile logged if there was one, and
    /// what it leaves is the world of the simulation.
    pub fn new(scenario_name: &str, seed: u32, code: &str) -> (sim: Box<Simulation<T, S>>)
        ensures
            sim.wf(),
            sim@.tick == 0,
            sim@.seed == seed,
            forall|team: i32| #[trigger] sim.team_controllers().contains_key(team) ==> team == 0,
            sim.ship_controllers() == Map::<u64, Option<T::Ship>>::empty(),
            exists|outcome: Result<T, Error>, loaded: S|
                {
                    &&& #[trigger] T::compiled(source_of(code@), outcome)
                    &&& #[trigger] S::loaded(scenario_name@, loaded)
                    &&& S::initialised(
                        loaded,
                        WorldView::empty().after_upload(0, outcome),
                        seed,
                        sim.scenario(),
                        sim@.world,
                    )
                    &&& sim.team_controllers() == match outcome {
                        Ok(controller) => Map::<i32, T>::empty().insert(0, controller),
                        Err(_) => Map::<i32, T>::empty(),
                    }
                },
    {
        let source = agent_source(code);
        let (contact_send, contact_recv) = open_channel();
        let scenario = S::load(scenario_name);
        let ghost loaded = scenario;
        let mut sim = Box::new(
            Simulation {
                scenario,
                world: World::new(),
                team_controllers: HashMap::new(),
                ship_controllers: HashMap::new(),
                event_collector: CollisionEventHandler::new(contact_send),
                contact_recv,
                tick: 0,
                seed,
            },
        );
        proof {
            sim.lemma_view();
        }
        sim.upload_code(0, source);
        let ghost outcome = choose|outcome: Result<T, Error>|
            {
                &&& #[trigger] T::compiled(source@, outcome)
                &&& sim@.world == WorldView::empty().after_upload(0, outcome)
                &&& sim.team_controllers() == match outcome {
                    Ok(controller) => Map::<i32, T>::empty().insert(0, controller),
                    Err(_) => Map::<i32, T>::empty(),
                }
            };
        proof {
            sim.lemma_view();
        }
        sim.scenario.init(&mut sim.world, seed);
        proof {
            sim.lemma_view();
            assert(T::compiled(source_of(code@), outcome));
            assert(S::loaded(scenario_name@, loaded));
        }
        sim
    }

    /// The number of steps taken so far.
    pub fn tick(&self) -> (t: u32)
        ensures
            t == self@.tick,
    {
        self.tick
    }

    /// Elapsed simulated time in fixed-point seconds, rounded down.
    pub fn time(&self) -> (t: u64)
        ensures
            t == elapsed(self@.tick),
    {
        ticks_to_time(self.tick)
    }

    pub fn seed(&self) -> (s: u32)
        ensures
            s == self@.seed,
    {
        self.seed
    }

    /// Asks the scenario where the match stands: the scenario is shown the
    /// world as it is, and its answer is handed on.
    pub fn status(&self) -> (status: Status)
        requires
            self.wf(),
        ensures
            S::judged(self.scenario(), self@.world, status),
    {
        proof {
            self.lemma_view();
        }
        self.scenario.status(&self.world)
    }

    /// The entity state, for reading.
    pub fn world(&self) -> (w: &World)
        ensures
            w@ == self@.world,
    {
        &self.world
    }

    /// Adds a ship to the world. See [`World::create_ship`].
    pub fn create_ship(&mut self, data: ShipData, body: Body) -> (handle: Option<ShipHandle>)
        requires
            old(self).wf(),
        ensures
            final(self).wf(),
            final(self).team_controllers() == old(self).team_controllers(),
            final(self).ship_controllers() == old(self).ship_controllers(),
            final(self).scenario() == old(self).scenario(),
            final(self).collector() == old(self).collector(),
            match handle {
                Some(h) => {
                    &&& old(self)@.world.next_index < u64::MAX
                    &&& h.0 == old(self)@.world.next_index
                    &&& final(self)@ == (SimulationView {
                        world: old(self)@.world.with_ship(ShipState { data, body }),
                        ..old(self)@
                    })
                },
                None => old(self)@.world.next_index == u64::MAX && final(self)@ == old(self)@,
            },
    {
        proof {
            self.lemma_view();
        }
        self.world.create_ship(data, body)
    }

    /// Adds a bullet to the world. See [`World::create_bullet`].
    pub fn create_bullet(&mut self, data: BulletData, body: Body) -> (handle: Option<BulletHandle>)
        requires
            old(self).wf(),
        ensures
            final(self).wf(),
            final(self).team_controllers() == old(self).team_controllers(),
            final(self).ship_controllers() == old(self).ship_controllers(),
            final(self).scenario() == old(self).scenario(),
            final(self).collector() == old(self).collector(),
            match handle {
                Some(h) => {
                    &&& old(self)@.world.next_index < u64::MAX
                    &&& h.0 == old(self)@.world.next_index
                    &&& final(self)@ == (SimulationView {
                        world: old(self)@.world.with_bullet(BulletState { data, body }),
                        ..old(self)@
                    })
                },
                None => old(self)@.world.next_index == u64::MAX && final(self)@ == old(self)@,
            },
    {
        proof {
            self.lemma_view();
        }
        self.world.create_bullet(data, body)
    }

    pub fn ship(&self, handle: ShipHandle) -> (a: ShipAccessor<'_>)
        ensures
            a.world@ == self@.world,
            a.handle == handle,
    {
        self.world.ship(handle)
    }

    pub fn bullet(&self, handle: BulletHandle) -> (a: BulletAccessor<'_>)
        ensures
            a.world@ == self@.world,
            a.handle == handle,
    {
        self.world.bullet(handle)
    }

    pub fn ship_mut(&mut self, handle: ShipHandle) -> (a: ShipAccessorMut<'_>)
        ensures
            a.world@ == old(self)@.world,
            a.handle == handle,
            final(self)@ == (SimulationView { world: final(a.world)@, ..old(self)@ }),
            final(self).team_controllers() == old(self).team_controllers(),
            final(self).ship_controllers() == old(self).ship_controllers(),
            final(self).scenario() == old(self).scenario(),
            final(self).collector() == old(self).collector(),
    {
        ShipAccessorMut { world: &mut self.world, handle }
    }

    pub fn bullet_mut(&mut self, handle: BulletHandle) -> (a: BulletAccessorMut<'_>)
        ensures
            a.world@ == old(self)@.world,
            a.handle == handle,
            final(self)@ == (SimulationView { world: final(a.world)@, ..old(self)@ }),
            final(self).team_controllers() == old(self).team_controllers(),
            final(self).ship_controllers() == old(self).ship_controllers(),
            final(self).scenario() == old(self).scenario(),
            final(self).collector() == old(self).collector(),
    {
        BulletAccessorMut { world: &mut self.world, handle }
    }

    /// Installs the outcome of compiling a team's code.
    ///
    /// A controller replaces the one the team had. A failure is logged under
    /// the team's name and leaves the team's controller, if any, in place.
    pub fn install_team_controller(&mut self, team: i32, outcome: Result<T, Error>)
        ensures
            final(self).ship_controllers() == old(self).ship_controllers(),
            final(self).scenario() == old(self).scenario(),
            final(self).collector() == old(self).collector(),
            match outcome {
                Ok(controller) => {
                    &&& final(self)@ == old(self)@
                    &&& final(self).team_controllers() == old(self).team_controllers().insert(
                        team,
                        controller,
                    )
                },
                Err(e) => {
                    &&& final(self)@ == (SimulationView {
                        world: old(self)@.world.with_error(tagged(Origin::Team(team), e)),
                        ..old(self)@
                    })
                    &&& final(self).team_controllers() == old(self).team_controllers()
                },
            },
    {
        match outcome {
            Ok(controller) => {
                self.team_controllers.insert(team, controller);
            },
            Err(e) => {
                self.world.record_error(
                    AgentError { origin: Origin::Team(team), line: e.line, msg: e.msg },
                );
            },
        }
    }

    /// Compiles `code` and installs the outcome for `team`: the new
    /// controller on success, a logged error on failure. See
    /// [`Simulation::install_team_controller`].
    pub fn upload_code(&mut self, team: i32, code: &str)
        ensures
            final(self).ship_controllers() == old(self).ship_controllers(),
            final(self).scenario() == old(self).scenario(),
            final(self).collector() == old(self).collector(),
            final(self)@.tick == old(self)@.tick,
            final(self)@.seed == old(self)@.seed,
            exists|outcome: Result<T, Error>|
                {
                    &&& #[trigger] T::compiled(code@, outcome)
                    &&& final(self)@.world == old(self)@.world.after_upload(team, outcome)
                    &&& final(self).team_controllers() == match outcome {
                        Ok(controller) => old(self).team_controllers().insert(team, controller),
                        Err(_) => old(self).team_controllers(),
                    }
                },
    {
        let outcome = T::compile(code);
        let ghost compiled = outcome;
        self.install_team_controller(team, outcome);
        assert(T::compiled(code@, compiled));
    }

    /// The agent code installed for `team`, if any.
    pub fn get_team_controller(&self, team: i32) -> (controller: Option<&T>)
        ensures
            match controller {
                Some(c) => self.team_controllers().contains_key(team) && *c
                    == self.team_controllers()[team],
                None => !self.team_controllers().contains_key(team),
            },
    {
        self.team_controllers.get(&team)
    }

    /// Gives the agent of the ship `index` its turn and reports its failure,
    /// if any. A ship meeting its first turn is given a controller by its
    /// team first; a team that cannot build one fails in the ship's name, once.
    /// The world is not touched. See [`agent_turn`].
    fn invoke_agent(&mut self, index: u64) -> (failure: Option<Error>)
        requires
            old(self).wf(),
        ensures
            final(self).scenario() == old(self).scenario(),
            final(self).collector() == old(self).collector(),
            final(self)@ == old(self)@,
            final(self).team_controllers().dom() == old(self).team_controllers().dom(),
            agent_turn(
                old(self).team_controllers(),
                old(self).ship_controllers(),
                old(self)@.world,
                index,
                final(self).team_controllers(),
                final(self).ship_controllers(),
                failure,
            ),
    {
        proof {
            self.lemma_view();
        }
        let mut controller = match self.ship_controllers.remove(&index) {
            Some(Some(controller)) => controller,
            Some(None) => {
                self.ship_controllers.insert(index, None);
                assert(self.ship_controllers@ =~= old(self).ship_controllers@);
                return None;
            },
            None => {
                assert(self.ship_controllers@ =~= old(self).ship_controllers@);
                let team = match self.world.ship_state(ShipHandle(index)) {
                    Ok(s) => s.data.team,
                    Err(_) => {
                        return None;
                    },
                };
                let mut team_controller = match self.team_controllers.remove(&team) {
                    Some(team_controller) => team_controller,
                    None => {
                        assert(self.team_controllers@ =~= old(self).team_controllers@);
                        return None;
                    },
                };
                let made = team_controller.create_ship_controller(ShipHandle(index));
                self.team_controllers.insert(team, team_controller);
                assert(self.team_controllers@ =~= old(self).team_controllers@.insert(
                    team,
                    team_controller,
                ));
                assert(self.team_controllers@.dom() =~= old(self).team_controllers@.dom());
                match made {
                    Ok(controller) => controller,
                    Err(e) => {
                        self.ship_controllers.insert(index, None);
                        return Some(e);
                    },
                }
            },
        };
        let ghost asked = controller;
        let outcome = controller.tick();
        self.ship_controllers.insert(index, Some(controller));
        assert(self.ship_controllers@ =~= old(self).ship_controllers@.insert(
            index,
            Some(controller),
        ));
        let ghost answered = outcome;
        let failure = match outcome {
            Ok(()) => None,
            Err(e) => Some(e),
        };
        assert(outcome_of(failure) == answered) by {
            assert(answered is Ok ==> answered == Ok::<(), Error>(answered->Ok_0));
        }
        assert(T::Ship::ticked(asked, controller, outcome_of(failure)));
        failure
    }

    /// Gives every ship that is live at the start its turn, oldest first: its
    /// agent is asked, a failure is logged under the ship's name, and the
    /// ship's entity logic follows. A failing agent costs no other ship its
    /// turn. See [`agents_pass`] for who is asked and with what, and
    /// [`WorldView::after_agents`] for what becomes of the answers.
    pub fn run_agents(&mut self)
        requires
            old(self).wf(),
        ensures
            final(self).scenario() == old(self).scenario(),
            final(self).collector() == old(self).collector(),
            final(self).wf(),
            final(self)@.tick == old(self)@.tick,
            final(self)@.seed == old(self)@.seed,
            final(self).team_controllers().dom() == old(self).team_controllers().dom(),
            exists|failures: Seq<Option<Error>>|
                {
                    &&& failures.len() == old(self)@.world.ships.len()
                    &&& #[trigger] agents_pass(
                        old(self).team_controllers(),
                        old(self).ship_controllers(),
                        old(self)@.world,
                        failures,
                        final(self).team_controllers(),
                        final(self).ship_controllers(),
                    )
                    &&& final(self)@.world == old(self)@.world.after_agents(
                        old(self)@.world.ships,
                        failures,
                    )
                },
            no_agents(old(self).team_controllers(), old(self).ship_controllers()) ==> {
                &&& no_agents(final(self).team_controllers(), final(self).ship_controllers())
                &&& final(self)@.world == old(self)@.world.after_agents(
                    old(self)@.world.ships,
                    no_failures(old(self)@.world.ships.len()),
                )
            },
    {
        proof {
            self.lemma_view();
        }
        let handle_snapshot: Vec<u64> = self.world.ships().to_vec();
        let ghost start = self@.world;
        let ghost mut failures: Seq<Option<Error>> = Seq::empty();
        let ghost mut teams: Seq<Map<i32, T>> = seq![self.team_controllers()];
        let ghost mut controllers: Seq<Map<u64, Option<T::Ship>>> = seq![self.ship_controllers()];
        let mut i: usize = 0;
        while i < handle_snapshot.len()
            invariant
                self.wf(),
                self@.tick == old(self)@.tick,
                self@.seed == old(self)@.seed,
                self.team_controllers().dom() == old(self).team_controllers().dom(),
                self.scenario() == old(self).scenario(),
                self.collector() == old(self).collector(),
                start == old(self)@.world,
                handle_snapshot@ == start.ships,
                i <= handle_snapshot@.len(),
                failures.len() == i,
                teams.len() == i + 1,
                controllers.len() == i + 1,
                teams[0] == old(self).team_controllers(),
                controllers[0] == old(self).ship_controllers(),
                teams[i as int] == self.team_controllers(),
                controllers[i as int] == self.ship_controllers(),
                self@.world == start.after_agents(handle_snapshot@.take(i as int), failures),
                forall|j: int|
                    0 <= j < i ==> #[trigger] turn_taken(start, failures, teams, controllers, j),
            decreases handle_snapshot@.len() - i,
        {
            let index = handle_snapshot[i];
            let ghost met = self@.world;
            let ghost teams_met = self.team_controllers();
            let ghost controllers_met = self.ship_controllers();
            let failure = self.invoke_agent(index);
            let ghost left = self.ship_controllers();
            proof {
                self.lemma_view();
            }
            self.world.finish_agent(ShipHandle(index), failure);
            if !self.world.ships().contains(index) {
                self.ship_controllers.remove(&index);
            }
            proof {
                self.lemma_view();
                let done = handle_snapshot@.take(i as int);
                let next = handle_snapshot@.take(i + 1);
                assert(next.drop_last() =~= done);
                let failures_now = failures.push(failure);
                let teams_now = teams.push(self.team_controllers());
                let controllers_now = controllers.push(self.ship_controllers());
                assert(failures_now.drop_last() =~= failures);
                assert(self.ship_controllers() =~= kept(left, met.after_agent(index, failure), index));
                assert forall|j: int| 0 <= j < i + 1 implies #[trigger] turn_taken(
                    start,
                    failures_now,
                    teams_now,
                    controllers_now,
                    j,
                ) by {
                    assert(failures_now.take(j) =~= failures.take(j));
                    if j < i {
                        assert(turn_taken(start, failures, teams, controllers, j));
                        let reached = start.after_agents(start.ships.take(j), failures.take(j));
                        let kept_then = choose|kept_then: Map<u64, Option<T::Ship>>|
                            {
                                &&& #[trigger] agent_turn(
                                    teams[j],
                                    controllers[j],
                                    reached,
                                    start.ships[j],
                                    teams[j + 1],
                                    kept_then,
                                    failures[j],
                                )
                                &&& controllers[j + 1] == kept(
                                    kept_then,
                                    reached.after_agent(start.ships[j], failures[j]),
                                    start.ships[j],
                                )
                            };
                        assert(agent_turn(
                            teams_now[j],
                            controllers_now[j],
                            reached,
                            start.ships[j],
                            teams_now[j + 1],
                            kept_then,
                            failures_now[j],
                        ));
                    } else {
                        assert(failures.take(j) =~= failures);
                        assert(agent_turn(
                            teams_now[j],
                            controllers_now[j],
                            met,
                            start.ships[j],
                            teams_now[j + 1],
                            left,
                            failures_now[j],
                        ));
                    }
                }
                failures = failures_now;
                teams = teams_now;
                controllers = controllers_now;
            }
            i += 1;
        }
        proof {
            assert(handle_snapshot@.take(i as int) =~= handle_snapshot@);
            assert(turns_taken(start, failures, teams, controllers));
            assert(agents_pass(
                old(self).team_controllers(),
                old(self).ship_controllers(),
                start,
                failures,
                self.team_controllers(),
                self.ship_controllers(),
            ));
            if no_agents(old(self).team_controllers(), old(self).ship_controllers()) {
                law_no_agents_no_failures(
                    old(self).team_controllers(),
                    old(self).ship_controllers(),
                    start,
                    failures,
                    self.team_controllers(),
                    self.ship_controllers(),
                );
            }
        }
    }

    /// Resolves every collision report that is waiting, in the order the
    /// physics world gave them. See [`WorldView::after_collision`].
    pub fn resolve_pending_collisions(&mut self)
        requires
            old(self).wf(),
        ensures
            final(self).wf(),
            final(self)@.tick == old(self)@.tick,
            final(self)@.seed == old(self)@.seed,
            final(self).team_controllers() == old(self).team_controllers(),
            final(self).ship_controllers() == old(self).ship_controllers(),
            final(self).scenario() == old(self).scenario(),
            final(self).collector() == old(self).collector(),
            exists|events: Seq<CollisionEvent>|
                final(self)@.world == old(self)@.world.after_collisions(events),
    {
        proof {
            self.lemma_view();
        }
        let waiting = pending(&self.contact_recv);
        let ghost start = self@.world;
        let ghost mut events: Seq<CollisionEvent> = Seq::empty();
        let mut i: usize = 0;
        while i < waiting
            invariant
                self.wf(),
                self@.tick == old(self)@.tick,
                self@.seed == old(self)@.seed,
                self.team_controllers() == old(self).team_controllers(),
                self.ship_controllers() == old(self).ship_controllers(),
                self.scenario() == old(self).scenario(),
                self.collector() == old(self).collector(),
                start == old(self)@.world,
                self@.world == start.after_collisions(events),
            decreases waiting - i,
        {
            if let Some(event) = take_next(&self.contact_recv) {
                proof {
                    self.lemma_view();
                    assert(events.push(event).drop_last() =~= events);
                    events = events.push(event);
                }
                self.world.resolve_collision(event);
                proof {
                    self.lemma_view();
                }
            }
            i += 1;
        }
    }

    /// The part of a step that the simulation itself decides: the log is
    /// emptied, the collisions the physics world reported are resolved, and
    /// every live ship gets its turn. See [`WorldView::after_entity_phases`]
    /// and [`agents_pass`].
    pub fn step_entities(&mut self)
        requires
            old(self).wf(),
        ensures
            final(self).scenario() == old(self).scenario(),
            final(self).collector() == old(self).collector(),
            final(self).wf(),
            final(self)@.tick == old(self)@.tick,
            final(self)@.seed == old(self)@.seed,
            final(self).team_controllers().dom() == old(self).team_controllers().dom(),
            exists|collisions: Seq<CollisionEvent>, failures: Seq<Option<Error>>|
                {
                    &&& failures.len() == old(self)@.world.ships.len()
                    &&& agents_pass(
                        old(self).team_controllers(),
                        old(self).ship_controllers(),
                        old(self)@.world.with_cleared_events().after_collisions(collisions),
                        failures,
                        final(self).team_controllers(),
                        final(self).ship_controllers(),
                    )
                    &&& final(self)@.world == #[trigger] old(self)@.world.after_entity_phases(
                        collisions,
                        failures,
                    )
                },
            no_agents(old(self).team_controllers(), old(self).ship_controllers()) ==> {
                &&& no_agents(final(self).team_controllers(), final(self).ship_controllers())
                &&& exists|collisions: Seq<CollisionEvent>|
                    final(self)@.world == #[trigger] old(self)@.world.after_entity_phases(
                        collisions,
                        no_failures(old(self)@.world.ships.len()),
                    )
            },
    {
        proof {
            self.lemma_view();
        }
        self.world.clear_events();
        proof {
            self.lemma_view();
        }
        self.resolve_pending_collisions();
        let ghost collisions = choose|collisions: Seq<CollisionEvent>|
            self@.world == old(self)@.world.with_cleared_events().after_collisions(collisions);
        let ghost resolved = self@.world;
        proof {
            lemma_collisions_keep_ships_and_bullets(
                old(self)@.world.with_cleared_events(),
                collisions,
            );
        }
        self.run_agents();
        proof {
            let failures = choose|failures: Seq<Option<Error>>|
                {
                    &&& failures.len() == resolved.ships.len()
                    &&& #[trigger] agents_pass(
                        old(self).team_controllers(),
                        old(self).ship_controllers(),
                        resolved,
                        failures,
                        self.team_controllers(),
                        self.ship_controllers(),
                    )
                    &&& self@.world == resolved.after_agents(resolved.ships, failures)
                };
            assert(self@.world == old(self)@.world.after_entity_phases(collisions, failures));
            if no_agents(old(self).team_controllers(), old(self).ship_controllers()) {
                assert(self@.world == old(self)@.world.after_entity_phases(
                    collisions,
                    no_failures(old(self)@.world.ships.len()),
                ));
            }
        }
    }

    /// Advances the simulation by one fixed timestep.
    ///
    /// The log is emptied; the collisions the physics world reported are
    /// resolved; every live ship gets its turn; the scenario ticks on the
    /// world that this leaves; and the step counter goes up by one, whatever
    /// the agents and the scenario did.
    pub fn step(&mut self)
        requires
            old(self).wf(),
            old(self)@.tick < u32::MAX,
        ensures
            final(self).collector() == old(self).collector(),
            final(self).wf(),
            final(self)@.tick == old(self)@.tick + 1,
            final(self)@.seed == old(self)@.seed,
            old(self)@.stepped_to(final(self)@),
            final(self).team_controllers().dom() == old(self).team_controllers().dom(),
            exists|collisions: Seq<CollisionEvent>, failures: Seq<Option<Error>>|
                {
                    &&& failures.len() == old(self)@.world.ships.len()
                    &&& agents_pass(
                        old(self).team_controllers(),
                        old(self).ship_controllers(),
                        old(self)@.world.with_cleared_events().after_collisions(collisions),
                        failures,
                        final(self).team_controllers(),
                        final(self).ship_controllers(),
                    )
                    &&& S::ticked(
                        old(self).scenario(),
                        #[trigger] old(self)@.world.after_entity_phases(collisions, failures),
                        final(self).scenario(),
                        final(self)@.world,
                    )
                },
            no_agents(old(self).team_controllers(), old(self).ship_controllers()) ==> {
                &&& no_agents(final(self).team_controllers(), final(self).ship_controllers())
                &&& exists|collisions: Seq<CollisionEvent>|
                    S::ticked(
                        old(self).scenario(),
                        #[trigger] old(self)@.world.after_entity_phases(
                            collisions,
                            no_failures(old(self)@.world.ships.len()),
                        ),
                        final(self).scenario(),
                        final(self)@.world,
                    )
            },
    {
        self.step_entities();
        proof {
            self.lemma_view();
        }
        let ghost handed = self@.world;
        let ghost teams_then = self.team_controllers();
        let ghost controllers_then = self.ship_controllers();
        self.scenario.tick(&mut self.world);
        self.tick += 1;
        proof {
            self.lemma_view();
            let (collisions, failures) = choose|
                collisions: Seq<CollisionEvent>,
                failures: Seq<Option<Error>>,
            |
                {
                    &&& failures.len() == old(self)@.world.ships.len()
                    &&& agents_pass(
                        old(self).team_controllers(),
                        old(self).ship_controllers(),
                        old(self)@.world.with_cleared_events().after_collisions(collisions),
                        failures,
                        teams_then,
                        controllers_then,
                    )
                    &&& handed == #[trigger] old(self)@.world.after_entity_phases(
                        collisions,
                        failures,
                    )
                };
            assert(S::ticked(
                old(self).scenario(),
                old(self)@.world.after_entity_phases(collisions, failures),
                self.scenario(),
                self@.world,
            ));
            if no_agents(old(self).team_controllers(), old(self).ship_controllers()) {
                let quiet = choose|quiet: Seq<CollisionEvent>|
                    handed == #[trigger] old(self)@.world.after_entity_phases(
                        quiet,
                        no_failures(old(self)@.world.ships.len()),
                    );
                assert(S::ticked(
                    old(self).scenario(),
                    old(self)@.world.after_entity_phases(
                        quiet,
                        no_failures(old(self)@.world.ships.len()),
                    ),
                    self.scenario(),
                    self@.world,
                ));
            }
        }
    }

    /// Whether cheats are switched on.
    pub fn cheats(&self) -> (on: bool)
        ensures
            on == self@.world.cheats,
    {
        self.world.cheats()
    }

    /// Switches cheats on or off.
    pub fn set_cheats(&mut self, on: bool)
        ensures
            final(self)@ == (SimulationView {
                world: WorldView { cheats: on, ..old(self)@.world },
                ..old(self)@
            }),
            final(self).team_controllers() == old(self).team_controllers(),
            final(self).ship_controllers() == old(self).ship_controllers(),
            final(self).scenario() == old(self).scenario(),
            final(self).collector() == old(self).collector(),
    {
        self.world.set_cheats(on);
    }

    /// A snapshot of the simulation as it stands, marked with `nonce`.
    ///
    /// The scenario is asked for the status and for its overlay; everything
    /// else is read off the simulation, which does not change.
    pub fn snapshot(&self, nonce: u32) -> (snapshot: Snapshot)
        requires
            self.wf(),
        ensures
            snapshot@ == snapshot_of(
                self@,
                nonce,
                snapshot@.status,
                snapshot@.scenario_lines,
            ),
            S::judged(self.scenario(), self@.world, snapshot@.status),
            S::drawn(self.scenario(), snapshot@.scenario_lines),
    {
        let status = self.status();
        let scenario_lines = self.scenario.lines();
        self.project(nonce, status, scenario_lines)
    }

    /// The log of the most recent step.
    pub fn events(&self) -> (events: &SimEvents)
        ensures
            events@ == self@.world.events,
    {
        self.world.events()
    }

    /// Appends `lines` to the debug lines of `ship`.
    pub fn emit_debug_lines(&mut self, ship: ShipHandle, lines: &[Line])
        ensures
            final(self)@ == (SimulationView {
                world: WorldView {
                    events: old(self)@.world.events.with_debug_lines(ship.0, lines@),
                    ..old(self)@.world
                },
                ..old(self)@
            }),
            final(self).team_controllers() == old(self).team_controllers(),
            final(self).ship_controllers() == old(self).ship_controllers(),
            final(self).scenario() == old(self).scenario(),
            final(self).collector() == old(self).collector(),
    {
        self.world.emit_debug_lines(ship, lines);
    }

    /// Digest of the state of every live ship. See [`fingerprint`].
    pub fn hash(&self) -> (h: u64)
        requires
            self.wf(),
        ensures
            h == fingerprint(self@.world),
    {
        proof {
            self.lemma_view();
        }
        self.world.hash()
    }

    /// Where the physics world reports the collisions of its step: the
    /// simulation's own handler, made with the simulation.
    pub fn event_collector(&self) -> (handler: &CollisionEventHandler)
        ensures
            *handler == self.collector(),
    {
        &self.event_collector
    }

    /// Hands over the indices of the entities removed since the last call.
    pub fn take_retired(&mut self) -> (retired: Vec<u64>)
        ensures
            retired@ == old(self)@.world.retired,
            final(self)@ == (SimulationView {
                world: old(self)@.world.with_retired_taken(),
                ..old(self)@
            }),
            final(self).team_controllers() == old(self).team_controllers(),
            final(self).ship_controllers() == old(self).ship_controllers(),
            final(self).scenario() == old(self).scenario(),
            final(self).collector() == old(self).collector(),
    {
        self.world.take_retired()
    }

    /// The scenario that rules this simulation.
    pub closed spec fn scenario(&self) -> S {
        self.scenario
    }

    /// The handler that queues collision reports for this simulation.
    pub closed spec fn collector(&self) -> CollisionEventHandler {
        self.event_collector
    }

    /// The controller of each ship that has met its first turn; `None` for a
    /// ship whose team could not build one.
    pub closed spec fn ship_controllers(&self) -> Map<u64, Option<T::Ship>> {
        self.ship_controllers@
    }
}

} // verus!
