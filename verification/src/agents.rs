//! The turns of the agents: who is asked, what is handed to them, and what
//! becomes of their answers.

use vstd::prelude::*;
use crate::model::WorldView;
use crate::script::{outcome_of, Error, ShipController, TeamController};
use crate::ship::ShipHandle;

verus! {

/// Whether nobody would be asked on any turn: no team has code, and no ship
/// has a controller.
pub open spec fn no_agents<T: TeamController>(
    teams: Map<i32, T>,
    controllers: Map<u64, Option<T::Ship>>,
) -> bool {
    &&& forall|team: i32| !teams.contains_key(team)
    &&& forall|k: u64| #[trigger] controllers.contains_key(k) ==> controllers[k] is None
}

/// One turn of the agent of the ship `index`, as a relation between the team
/// code, the ships' controllers and the world before the turn, the code and
/// the controllers after it, and the failure reported.
///
/// - A ship with a controller has that controller asked, once; what it
///   answers is the failure, and the controller as the turn left it is kept.
/// - A ship whose team could not build a controller earlier is passed over.
/// - A live ship that has met no turn yet has the code of its team asked for a
///   controller, with the ship's own handle. A controller is asked at once,
///   as above. A refusal is the failure, and the ship is passed over from
///   then on.
/// - Otherwise nobody is asked, nothing fails and nothing changes.
pub open spec fn agent_turn<T: TeamController>(
    teams: Map<i32, T>,
    controllers: Map<u64, Option<T::Ship>>,
    world: WorldView,
    index: u64,
    teams_after: Map<i32, T>,
    controllers_after: Map<u64, Option<T::Ship>>,
    failure: Option<Error>,
) -> bool {
    if controllers.contains_key(index) {
        match controllers[index] {
            Some(controller) => {
                &&& teams_after == teams
                &&& controllers_after.contains_key(index)
                &&& controllers_after == controllers.insert(index, controllers_after[index])
                &&& controllers_after[index] matches Some(left)
                &&& T::Ship::ticked(controller, left, outcome_of(failure))
            },
            None => {
                &&& teams_after == teams
                &&& controllers_after == controllers
                &&& failure is None
            },
        }
    } else if world.ships.contains(index) && teams.contains_key(
        world.ship_data[index].data.team,
    ) {
        let team = world.ship_data[index].data.team;
        &&& teams_after.contains_key(team)
        &&& teams_after == teams.insert(team, teams_after[team])
        &&& controllers_after.contains_key(index)
        &&& controllers_after == controllers.insert(index, controllers_after[index])
        &&& match controllers_after[index] {
            Some(left) => exists|made: T::Ship|
                {
                    &&& #[trigger] T::built(
                        teams[team],
                        ShipHandle(index),
                        teams_after[team],
                        Ok(made),
                    )
                    &&& T::Ship::ticked(made, left, outcome_of(failure))
                },
            None => {
                &&& failure matches Some(e)
                &&& T::built(teams[team], ShipHandle(index), teams_after[team], Err(e))
            },
        }
    } else {
        &&& teams_after == teams
        &&& controllers_after == controllers
        &&& failure is None
    }
}

/// The controllers that are kept after the turn of the ship `index`: those
/// the turn left, without that of the ship if the ship has left the world.
pub open spec fn kept<C>(
    controllers: Map<u64, Option<C>>,
    world: WorldView,
    index: u64,
) -> Map<u64, Option<C>> {
    if world.ships.contains(index) {
        controllers
    } else {
        controllers.remove(index)
    }
}

/// The `i`-th turn of a pass over the ships of `world`, as the sequences of
/// states of the team code and of the controllers record it: the agent of
/// the `i`-th ship has its turn in the world that the turns before it left,
/// and the controller of a ship that then leaves the world is dropped.
pub open spec fn turn_taken<T: TeamController>(
    world: WorldView,
    failures: Seq<Option<Error>>,
    teams: Seq<Map<i32, T>>,
    controllers: Seq<Map<u64, Option<T::Ship>>>,
    i: int,
) -> bool {
    let ships = world.ships;
    let met = world.after_agents(ships.take(i), failures.take(i));
    exists|left: Map<u64, Option<T::Ship>>|
        {
            &&& #[trigger] agent_turn(
                teams[i],
                controllers[i],
                met,
                ships[i],
                teams[i + 1],
                left,
                failures[i],
            )
            &&& controllers[i + 1] == kept(left, met.after_agent(ships[i], failures[i]), ships[i])
        }
}

/// A pass over the ships of `world`, oldest first, as the sequences of
/// states record it: every ship live at the start has exactly one turn, in
/// registry order, whatever the turns before it answered.
pub open spec fn turns_taken<T: TeamController>(
    world: WorldView,
    failures: Seq<Option<Error>>,
    teams: Seq<Map<i32, T>>,
    controllers: Seq<Map<u64, Option<T::Ship>>>,
) -> bool {
    &&& failures.len() == world.ships.len()
    &&& teams.len() == world.ships.len() + 1
    &&& controllers.len() == world.ships.len() + 1
    &&& forall|i: int|
        0 <= i < world.ships.len() ==> #[trigger] turn_taken(world, failures, teams, controllers, i)
}

/// A pass over the ships of `world` that starts with the given team code and
/// controllers, reports `failures`, one per ship, and ends with the given
/// team code and controllers.
pub open spec fn agents_pass<T: TeamController>(
    teams_before: Map<i32, T>,
    controllers_before: Map<u64, Option<T::Ship>>,
    world: WorldView,
    failures: Seq<Option<Error>>,
    teams_after: Map<i32, T>,
    controllers_after: Map<u64, Option<T::Ship>>,
) -> bool {
    exists|teams: Seq<Map<i32, T>>, controllers: Seq<Map<u64, Option<T::Ship>>>|
        {
            &&& #[trigger] turns_taken(world, failures, teams, controllers)
            &&& teams[0] == teams_before
            &&& controllers[0] == controllers_before
            &&& teams.last() == teams_after
            &&& controllers.last() == controllers_after
        }
}

/// The failures of a pass in which nothing failed.
pub open spec fn no_failures(ships: nat) -> Seq<Option<Error>> {
    Seq::new(ships, |i: int| None::<Error>)
}

/// Where nobody would be asked, the first `n` turns of a pass report no
/// failure and leave it so that nobody would be asked.
proof fn lemma_no_agents_prefix<T: TeamController>(
    world: WorldView,
    failures: Seq<Option<Error>>,
    teams: Seq<Map<i32, T>>,
    controllers: Seq<Map<u64, Option<T::Ship>>>,
    n: nat,
)
    requires
        turns_taken(world, failures, teams, controllers),
        no_agents(teams[0], controllers[0]),
        n <= world.ships.len(),
    ensures
        no_agents(teams[n as int], controllers[n as int]),
        forall|i: int| 0 <= i < n ==> failures[i] is None,
    decreases n,
{
    if n > 0 {
        let i = (n - 1) as int;
        lemma_no_agents_prefix(world, failures, teams, controllers, (n - 1) as nat);
        assert(turn_taken(world, failures, teams, controllers, i));
    }
}

/// Where no team has code and no ship has a controller, a pass reports no
/// failure, and ends with no team code and no controller.
pub proof fn law_no_agents_no_failures<T: TeamController>(
    teams_before: Map<i32, T>,
    controllers_before: Map<u64, Option<T::Ship>>,
    world: WorldView,
    failures: Seq<Option<Error>>,
    teams_after: Map<i32, T>,
    controllers_after: Map<u64, Option<T::Ship>>,
)
    requires
        agents_pass(
            teams_before,
            controllers_before,
            world,
            failures,
            teams_after,
            controllers_after,
        ),
        no_agents(teams_before, controllers_before),
    ensures
        failures == no_failures(world.ships.len()),
        no_agents(teams_after, controllers_after),
{
    let (teams, controllers) = choose|
        teams: Seq<Map<i32, T>>,
        controllers: Seq<Map<u64, Option<T::Ship>>>,
    |
        {
            &&& #[trigger] turns_taken(world, failures, teams, controllers)
            &&& teams[0] == teams_before
            &&& controllers[0] == controllers_before
            &&& teams.last() == teams_after
            &&& controllers.last() == controllers_after
        };
    lemma_no_agents_prefix(world, failures, teams, controllers, world.ships.len());
    assert(failures =~= no_failures(world.ships.len()));
}

} // verus!
