//! The mathematical model of the entity state, and the rules of combat as
//! functions on it.

use vstd::prelude::*;
use crate::bullet::BulletState;
use crate::collision::CollisionEvent;
use crate::events::{AgentError, EventsView, Origin};
use crate::script::Error;
use crate::index_set::{lemma_without, without};
use crate::ship::{ShipData, ShipState};
use crate::units::saturating_difference;

verus! {

/// Mathematical content of the entity state.
pub struct WorldView {
    /// Indices of the live ships, oldest first.
    pub ships: Seq<u64>,
    pub ship_data: Map<u64, ShipState>,
    /// Indices of the live bullets, oldest first.
    pub bullets: Seq<u64>,
    pub bullet_data: Map<u64, BulletState>,
    /// Indices of entities removed since the physics world last asked.
    pub retired: Seq<u64>,
    /// The index the next entity will get.
    pub next_index: u64,
    pub events: EventsView,
    pub cheats: bool,
}

impl WorldView {
    /// The registries hold no index twice, the stored states are those of the
    /// live entities, and no index is shared or yet to be handed out.
    pub open spec fn wf(self) -> bool {
        &&& self.ships.no_duplicates()
        &&& self.bullets.no_duplicates()
        &&& forall|k: u64| self.ships.contains(k) <==> #[trigger] self.ship_data.contains_key(k)
        &&& forall|k: u64| self.bullets.contains(k) <==> #[trigger] self.bullet_data.contains_key(k)
        &&& forall|k: u64| #[trigger] self.ship_data.contains_key(k) ==> k < self.next_index
        &&& forall|k: u64| #[trigger] self.bullet_data.contains_key(k) ==> k < self.next_index
        &&& forall|k: u64|
            !(#[trigger] self.ship_data.contains_key(k) && self.bullet_data.contains_key(k))
    }

    /// The world in which nothing exists yet.
    pub open spec fn empty() -> WorldView {
        WorldView {
            ships: Seq::empty(),
            ship_data: Map::empty(),
            bullets: Seq::empty(),
            bullet_data: Map::empty(),
            retired: Seq::empty(),
            next_index: 0,
            events: EventsView::empty(),
            cheats: false,
        }
    }

    /// The world with a new ship under the next index.
    pub open spec fn with_ship(self, state: ShipState) -> WorldView {
        WorldView {
            ships: self.ships.push(self.next_index),
            ship_data: self.ship_data.insert(self.next_index, state),
            next_index: (self.next_index + 1) as u64,
            ..self
        }
    }

    /// The world with a new bullet under the next index.
    pub open spec fn with_bullet(self, state: BulletState) -> WorldView {
        WorldView {
            bullets: self.bullets.push(self.next_index),
            bullet_data: self.bullet_data.insert(self.next_index, state),
            next_index: (self.next_index + 1) as u64,
            ..self
        }
    }

    /// The world after the ship `ship` is removed; unchanged if it is not live.
    pub open spec fn without_ship(self, ship: u64) -> WorldView {
        if self.ships.contains(ship) {
            WorldView {
                ships: without(self.ships, ship),
                ship_data: self.ship_data.remove(ship),
                retired: self.retired.push(ship),
                ..self
            }
        } else {
            self
        }
    }

    /// The world after the bullet `bullet` is removed; unchanged if it is not
    /// live.
    pub open spec fn without_bullet(self, bullet: u64) -> WorldView {
        if self.bullets.contains(bullet) {
            WorldView {
                bullets: without(self.bullets, bullet),
                bullet_data: self.bullet_data.remove(bullet),
                retired: self.retired.push(bullet),
                ..self
            }
        } else {
            self
        }
    }

    /// The world with the stored state of a live ship replaced; unchanged if
    /// the ship is not live.
    pub open spec fn with_ship_state(self, ship: u64, state: ShipState) -> WorldView {
        if self.ships.contains(ship) {
            WorldView { ship_data: self.ship_data.insert(ship, state), ..self }
        } else {
            self
        }
    }

    /// The world with the stored state of a live bullet replaced; unchanged
    /// if the bullet is not live.
    pub open spec fn with_bullet_state(self, bullet: u64, state: BulletState) -> WorldView {
        if self.bullets.contains(bullet) {
            WorldView { bullet_data: self.bullet_data.insert(bullet, state), ..self }
        } else {
            self
        }
    }

    /// The world with an empty event log.
    pub open spec fn with_cleared_events(self) -> WorldView {
        WorldView { events: EventsView::empty(), ..self }
    }

    /// The world with an emptied list of retired entities.
    pub open spec fn with_retired_taken(self) -> WorldView {
        WorldView { retired: Seq::empty(), ..self }
    }
}

/// Mathematical content of a simulation, leaving out the agent code it holds.
pub struct SimulationView {
    pub world: WorldView,
    /// The number of steps taken.
    pub tick: u32,
    /// The seed the simulation was created with.
    pub seed: u32,
}

/// The ship `s` after a bullet of `damage` struck it.
pub open spec fn struck(s: ShipState, damage: i64) -> ShipState {
    let health = saturating_difference(s.data.health, damage);
    ShipState {
        data: ShipData { health, destroyed: s.data.destroyed || health <= 0, ..s.data },
        ..s
    }
}

/// Whether the ship `s` has been shot down: it is marked destroyed and has no
/// health left. The destruction of such a ship has been logged, or was never
/// owed to a strike.
pub open spec fn is_down(s: ShipState) -> bool {
    s.data.destroyed && s.data.health <= 0
}

/// Whether a strike of `damage` is the one that brings the ship `s` down: it
/// leaves the ship without health, and the ship was not down before. A ship
/// that carries the mark while it still has health is brought down like any
/// other.
pub open spec fn strike_destroys(s: ShipState, damage: i64) -> bool {
    saturating_difference(s.data.health, damage) <= 0 && !is_down(s)
}

impl WorldView {
    /// The world after the live bullet `bullet` met the live ship `ship`.
    ///
    /// A bullet of the ship's own team vanishes without effect. Any other
    /// bullet takes its damage off the ship's health, records a hit where the
    /// bullet was, records a destruction where the ship was if this strike
    /// is the one that brings the ship down, and vanishes.
    pub open spec fn after_hit(self, ship: u64, bullet: u64) -> WorldView {
        let s = self.ship_data[ship];
        let b = self.bullet_data[bullet];
        if b.data.team == s.data.team {
            self.without_bullet(bullet)
        } else {
            let events = EventsView {
                ships_destroyed: if strike_destroys(s, b.data.damage) {
                    self.events.ships_destroyed.push(s.body.position)
                } else {
                    self.events.ships_destroyed
                },
                hits: self.events.hits.push(b.body.position),
                ..self.events
            };
            WorldView {
                ship_data: self.ship_data.insert(ship, struck(s, b.data.damage)),
                events,
                ..self
            }.without_bullet(bullet)
        }
    }

    /// The world after one collision report is resolved.
    ///
    /// Only a contact that starts, with both sides known, and with a live
    /// bullet on at least one side has any effect. The first side is looked
    /// at first: a bullet there strikes a ship on the other side, or vanishes
    /// if the other side is no ship.
    pub open spec fn after_collision(self, event: CollisionEvent) -> WorldView {
        match event {
            CollisionEvent::Started(Some(first), Some(second)) => {
                if self.bullets.contains(first) {
                    if self.ships.contains(second) {
                        self.after_hit(second, first)
                    } else {
                        self.without_bullet(first)
                    }
                } else if self.bullets.contains(second) {
                    if self.ships.contains(first) {
                        self.after_hit(first, second)
                    } else {
                        self.without_bullet(second)
                    }
                } else {
                    self
                }
            },
            _ => self,
        }
    }

    /// The world after a sequence of collision reports is resolved in order.
    pub open spec fn after_collisions(self, events: Seq<CollisionEvent>) -> WorldView
        decreases events.len(),
    {
        if events.len() == 0 {
            self
        } else {
            self.after_collisions(events.drop_last()).after_collision(events.last())
        }
    }

    /// The world after the entity logic of `ship` ran: a ship marked
    /// destroyed leaves the world.
    pub open spec fn after_ship_tick(self, ship: u64) -> WorldView {
        if self.ships.contains(ship) && self.ship_data[ship].data.destroyed {
            self.without_ship(ship)
        } else {
            self
        }
    }
}

/// The log entry for a failure `e` of the agent code of `origin`.
pub open spec fn tagged(origin: Origin, e: Error) -> AgentError {
    AgentError { origin, line: e.line, msg: e.msg }
}

impl WorldView {
    /// The world with one more agent error in its log.
    pub open spec fn with_error(self, e: AgentError) -> WorldView {
        WorldView { events: self.events.with_error(e), ..self }
    }

    /// The world after `team` uploaded code with the given outcome of
    /// compiling it: a failure is logged under the team's name, and nothing
    /// else changes.
    pub open spec fn after_upload<T>(self, team: i32, outcome: Result<T, Error>) -> WorldView {
        match outcome {
            Ok(_) => self,
            Err(e) => self.with_error(tagged(Origin::Team(team), e)),
        }
    }

    /// The world after the agent of `ship` ran and the ship's entity logic
    /// followed: a failure is logged under the ship's name, and a ship marked
    /// destroyed leaves the world.
    pub open spec fn after_agent(self, ship: u64, failure: Option<Error>) -> WorldView {
        match failure {
            Some(e) => self.with_error(tagged(Origin::Ship(ship), e)).after_ship_tick(ship),
            None => self.after_ship_tick(ship),
        }
    }

    /// The world after the agents of `ships` ran in order, the agent of
    /// `ships[i]` failing with `failures[i]`, if at all.
    pub open spec fn after_agents(self, ships: Seq<u64>, failures: Seq<Option<Error>>) -> WorldView
        decreases ships.len(),
    {
        if ships.len() == 0 || failures.len() != ships.len() {
            self
        } else {
            self.after_agents(ships.drop_last(), failures.drop_last()).after_agent(
                ships.last(),
                failures.last(),
            )
        }
    }
}

impl WorldView {
    /// The world after the part of a step that the simulation itself decides:
    /// the log is emptied, the collision reports are resolved in order, and
    /// every ship live after that gets its turn, oldest first.
    pub open spec fn after_entity_phases(
        self,
        collisions: Seq<CollisionEvent>,
        failures: Seq<Option<Error>>,
    ) -> WorldView {
        let resolved = self.with_cleared_events().after_collisions(collisions);
        resolved.after_agents(resolved.ships, failures)
    }
}

/// The log entries that the failures of the agents of `ships` leave, in order.
pub open spec fn failure_log(ships: Seq<u64>, failures: Seq<Option<Error>>) -> Seq<AgentError>
    decreases ships.len(),
{
    if ships.len() == 0 || failures.len() != ships.len() {
        Seq::empty()
    } else {
        let earlier = failure_log(ships.drop_last(), failures.drop_last());
        match failures.last() {
            Some(e) => earlier.push(tagged(Origin::Ship(ships.last()), e)),
            None => earlier,
        }
    }
}

/// Whether a collision report names the entity `k` on either side.
pub open spec fn mentions(event: CollisionEvent, k: u64) -> bool {
    match event {
        CollisionEvent::Started(first, second) => first == Some(k) || second == Some(k),
        CollisionEvent::Stopped(first, second) => first == Some(k) || second == Some(k),
    }
}

/// Whether two worlds hold the same ships and bullets, in the same order and
/// in the same states.
pub open spec fn same_entities(a: WorldView, b: WorldView) -> bool {
    &&& a.ships == b.ships
    &&& a.ship_data == b.ship_data
    &&& a.bullets == b.bullets
    &&& a.bullet_data == b.bullet_data
}

impl SimulationView {
    /// What one step makes of a simulation, whatever the agents and the
    /// scenario do: the counter is one higher, the seed is the same, and the
    /// world is well formed.
    pub open spec fn stepped_to(self, after: SimulationView) -> bool {
        &&& after.tick == self.tick + 1
        &&& after.seed == self.seed
        &&& after.world.wf()
    }
}

/// Whether a collision report names a live ship of the world `w` on either
/// side.
pub open spec fn names_a_ship(w: WorldView, event: CollisionEvent) -> bool {
    exists|k: u64| w.ships.contains(k) && #[trigger] mentions(event, k)
}

/// How many of the reports of a step are strikes of a volley: `strikes[i]`
/// is the bullet of the `i`-th report where that report is one.
pub open spec fn volley_size(strikes: Seq<Option<u64>>) -> nat
    decreases strikes.len(),
{
    if strikes.len() == 0 {
        0
    } else {
        let earlier = volley_size(strikes.drop_last());
        if strikes.last() is Some {
            earlier + 1
        } else {
            earlier
        }
    }
}

/// How many of the ships listed in `ships` are down. See [`is_down`].
pub open spec fn downed_count(ships: Seq<u64>, data: Map<u64, ShipState>) -> nat
    decreases ships.len(),
{
    if ships.len() == 0 {
        0
    } else {
        let earlier = downed_count(ships.drop_last(), data);
        if is_down(data[ships.last()]) {
            earlier + 1
        } else {
            earlier
        }
    }
}

/// Removing an entity keeps a world well formed.
pub proof fn lemma_removal_keeps_wf(w: WorldView, k: u64)
    requires
        w.wf(),
    ensures
        w.without_ship(k).wf(),
        w.without_bullet(k).wf(),
{
    lemma_without(w.ships, k);
    lemma_without(w.bullets, k);
}

/// Resolving a collision keeps a world well formed.
pub proof fn lemma_collision_keeps_wf(w: WorldView, event: CollisionEvent)
    requires
        w.wf(),
    ensures
        w.after_collision(event).wf(),
{
    match event {
        CollisionEvent::Started(Some(first), Some(second)) => {
            lemma_removal_keeps_wf(w, first);
            lemma_removal_keeps_wf(w, second);
            if w.bullets.contains(first) && w.ships.contains(second) {
                lemma_hit_keeps_wf(w, second, first);
            } else if !w.bullets.contains(first) && w.bullets.contains(second) && w.ships.contains(
                first,
            ) {
                lemma_hit_keeps_wf(w, first, second);
            }
        },
        _ => {},
    }
}

/// A hit keeps a world well formed.
pub proof fn lemma_hit_keeps_wf(w: WorldView, ship: u64, bullet: u64)
    requires
        w.wf(),
        w.ships.contains(ship),
        w.bullets.contains(bullet),
    ensures
        w.after_hit(ship, bullet).wf(),
{
    let s = w.ship_data[ship];
    let b = w.bullet_data[bullet];
    lemma_removal_keeps_wf(w, bullet);
    if b.data.team != s.data.team {
        let events = EventsView {
            ships_destroyed: if strike_destroys(s, b.data.damage) {
                w.events.ships_destroyed.push(s.body.position)
            } else {
                w.events.ships_destroyed
            },
            hits: w.events.hits.push(b.body.position),
            ..w.events
        };
        let mid = WorldView {
            ship_data: w.ship_data.insert(ship, struck(s, b.data.damage)),
            events,
            ..w
        };
        assert(w.ship_data.contains_key(ship));
        assert(mid.wf());
        lemma_removal_keeps_wf(mid, bullet);
    }
}

/// A collision removes no ship, brings no bullet to life and changes no
/// bullet that stays.
pub proof fn lemma_collision_keeps_ships_and_bullets(w: WorldView, event: CollisionEvent)
    requires
        w.wf(),
    ensures
        w.after_collision(event).wf(),
        w.after_collision(event).ships == w.ships,
        forall|b: u64| #[trigger]
            w.after_collision(event).bullets.contains(b) ==> w.bullets.contains(b)
                && w.after_collision(event).bullet_data[b] == w.bullet_data[b],
        forall|b: u64|
            w.bullets.contains(b) && !mentions(event, b) ==> #[trigger] w.after_collision(
                event,
            ).bullets.contains(b),
        forall|s: u64|
            w.ships.contains(s) && !mentions(event, s) ==> #[trigger] w.after_collision(
                event,
            ).ship_data[s] == w.ship_data[s],
        w.after_collision(event).events.errors == w.events.errors,
        w.after_collision(event).events.debug_lines == w.events.debug_lines,
{
    lemma_collision_keeps_wf(w, event);
    match event {
        CollisionEvent::Started(Some(first), Some(second)) => {
            lemma_without(w.bullets, first);
            lemma_without(w.bullets, second);
        },
        _ => {},
    }
}

/// A sequence of collisions removes no ship, brings no bullet to life and
/// changes no bullet that stays; it leaves alone every ship and every bullet
/// that no report names.
pub proof fn lemma_collisions_keep_ships_and_bullets(w: WorldView, collisions: Seq<CollisionEvent>)
    requires
        w.wf(),
    ensures
        w.after_collisions(collisions).wf(),
        w.after_collisions(collisions).ships == w.ships,
        forall|b: u64| #[trigger]
            w.after_collisions(collisions).bullets.contains(b) ==> w.bullets.contains(b)
                && w.after_collisions(collisions).bullet_data[b] == w.bullet_data[b],
        forall|b: u64|
            w.bullets.contains(b) && (forall|i: int|
                0 <= i < collisions.len() ==> !mentions(collisions[i], b))
                ==> #[trigger] w.after_collisions(collisions).bullets.contains(b),
        forall|s: u64|
            w.ships.contains(s) && (forall|i: int|
                0 <= i < collisions.len() ==> !mentions(collisions[i], s))
                ==> #[trigger] w.after_collisions(collisions).ship_data[s] == w.ship_data[s],
    decreases collisions.len(),
{
    if collisions.len() > 0 {
        let earlier = collisions.drop_last();
        let before = w.after_collisions(earlier);
        lemma_collisions_keep_ships_and_bullets(w, earlier);
        lemma_collision_keeps_ships_and_bullets(before, collisions.last());
        let end = w.after_collisions(collisions);
        assert(end == before.after_collision(collisions.last()));
        assert forall|b: u64|
            w.bullets.contains(b) && (forall|i: int|
                0 <= i < collisions.len() ==> !mentions(collisions[i], b)) implies #[trigger]
            end.bullets.contains(b) by {
            assert forall|i: int| 0 <= i < earlier.len() implies !mentions(earlier[i], b) by {
                assert(earlier[i] == collisions[i]);
            }
            assert(!mentions(collisions[collisions.len() - 1], b));
            assert(before.bullets.contains(b));
        }
        assert forall|s: u64|
            w.ships.contains(s) && (forall|i: int|
                0 <= i < collisions.len() ==> !mentions(collisions[i], s)) implies #[trigger]
            end.ship_data[s] == w.ship_data[s] by {
            assert forall|i: int| 0 <= i < earlier.len() implies !mentions(earlier[i], s) by {
                assert(earlier[i] == collisions[i]);
            }
            assert(!mentions(collisions[collisions.len() - 1], s));
            assert(before.ship_data[s] == w.ship_data[s]);
            assert(before.ships.contains(s));
        }
    }
}

/// A collision that names no live ship changes no ship and logs neither a
/// hit nor a destruction.
pub proof fn lemma_collision_without_ship(w: WorldView, event: CollisionEvent)
    requires
        w.wf(),
        !names_a_ship(w, event),
    ensures
        w.after_collision(event).ship_data == w.ship_data,
        w.after_collision(event).events == w.events,
{
    match event {
        CollisionEvent::Started(Some(first), Some(second)) => {
            assert(w.ships.contains(first) ==> mentions(event, first));
            assert(w.ships.contains(second) ==> mentions(event, second));
        },
        _ => {},
    }
}

/// A sequence of collisions none of which names a live ship changes no ship
/// and logs neither a hit nor a destruction.
pub proof fn lemma_collisions_without_ship(w: WorldView, collisions: Seq<CollisionEvent>)
    requires
        w.wf(),
        forall|i: int| 0 <= i < collisions.len() ==> !names_a_ship(w, #[trigger] collisions[i]),
    ensures
        w.after_collisions(collisions).ship_data == w.ship_data,
        w.after_collisions(collisions).events == w.events,
    decreases collisions.len(),
{
    if collisions.len() > 0 {
        let earlier = collisions.drop_last();
        assert forall|i: int| 0 <= i < earlier.len() implies !names_a_ship(
            w,
            #[trigger] earlier[i],
        ) by {
            assert(earlier[i] == collisions[i]);
        }
        lemma_collisions_without_ship(w, earlier);
        lemma_collisions_keep_ships_and_bullets(w, earlier);
        let before = w.after_collisions(earlier);
        assert(!names_a_ship(w, collisions[collisions.len() - 1]));
        assert(!names_a_ship(before, collisions.last())) by {
            if names_a_ship(before, collisions.last()) {
                let k = choose|k: u64|
                    before.ships.contains(k) && #[trigger] mentions(collisions.last(), k);
                assert(w.ships.contains(k) && mentions(collisions.last(), k));
            }
        }
        lemma_collision_without_ship(before, collisions.last());
    }
}

} // verus!
