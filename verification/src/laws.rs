//! What holds of the rules of combat, of the log and of the fingerprint, for
//! every world and every input.

use vstd::prelude::*;
use crate::collision::{CollisionEvent, NO_ENTITY};
use crate::events::{EventsView, Line};
use crate::fingerprint::{fingerprint, world_words};
use crate::index_set::lemma_without;
use crate::model::{
    downed_count, failure_log, is_down, lemma_collision_keeps_ships_and_bullets,
    lemma_collision_keeps_wf, lemma_collision_without_ship,
    lemma_collisions_keep_ships_and_bullets, lemma_collisions_without_ship, mentions,
    names_a_ship, same_entities, strike_destroys, struck, volley_size, SimulationView, WorldView,
};
use crate::scenario::Status;
use crate::script::Error;
use crate::ship::ShipState;
use crate::snapshot::{snapshot_of, SnapshotView};
use crate::units::saturating_difference;

verus! {

/// The quantities that enter the fingerprint are those of the listed ships
/// and of no other entity.
proof fn lemma_words_read_listed_ships(
    ships: Seq<u64>,
    a: Map<u64, ShipState>,
    b: Map<u64, ShipState>,
)
    requires
        forall|k: u64| ships.contains(k) ==> a[k] == b[k],
    ensures
        world_words(ships, a) == world_words(ships, b),
    decreases ships.len(),
{
    if ships.len() > 0 {
        let rest = ships.drop_last();
        assert forall|k: u64| rest.contains(k) implies a[k] == b[k] by {
            let i = choose|i: int| 0 <= i < rest.len() && rest[i] == k;
            assert(ships[i] == k);
        }
        lemma_words_read_listed_ships(rest, a, b);
        assert(ships[ships.len() - 1] == ships.last());
        assert(ships.contains(ships.last()));
    }
}

/// Determinism of the fingerprint: two worlds whose live ships are the same,
/// in the same order and in the same states, have the same fingerprint,
/// whatever else differs between them.
pub proof fn law_fingerprint_determined_by_ships(a: WorldView, b: WorldView)
    requires
        a.ships == b.ships,
        forall|k: u64| a.ships.contains(k) ==> a.ship_data[k] == b.ship_data[k],
    ensures
        fingerprint(a) == fingerprint(b),
{
    lemma_words_read_listed_ships(a.ships, a.ship_data, b.ship_data);
}

/// Worlds that agree on their entities and their logs still do after one
/// collision report.
proof fn lemma_collision_rests_on_entities(a: WorldView, b: WorldView, event: CollisionEvent)
    requires
        same_entities(a, b),
        a.events == b.events,
    ensures
        same_entities(a.after_collision(event), b.after_collision(event)),
        a.after_collision(event).events == b.after_collision(event).events,
{
}

/// Worlds that agree on their entities and their logs still do after a
/// sequence of collision reports.
proof fn lemma_collisions_rest_on_entities(
    a: WorldView,
    b: WorldView,
    collisions: Seq<CollisionEvent>,
)
    requires
        same_entities(a, b),
        a.events == b.events,
    ensures
        same_entities(a.after_collisions(collisions), b.after_collisions(collisions)),
        a.after_collisions(collisions).events == b.after_collisions(collisions).events,
    decreases collisions.len(),
{
    if collisions.len() > 0 {
        lemma_collisions_rest_on_entities(a, b, collisions.drop_last());
        lemma_collision_rests_on_entities(
            a.after_collisions(collisions.drop_last()),
            b.after_collisions(collisions.drop_last()),
            collisions.last(),
        );
    }
}

/// Worlds that agree on their entities and their logs still do after the
/// turns of the agents.
proof fn lemma_agents_rest_on_entities(
    a: WorldView,
    b: WorldView,
    ships: Seq<u64>,
    failures: Seq<Option<Error>>,
)
    requires
        same_entities(a, b),
        a.events == b.events,
    ensures
        same_entities(a.after_agents(ships, failures), b.after_agents(ships, failures)),
        a.after_agents(ships, failures).events == b.after_agents(ships, failures).events,
    decreases ships.len(),
{
    if ships.len() > 0 && failures.len() == ships.len() {
        lemma_agents_rest_on_entities(a, b, ships.drop_last(), failures.drop_last());
    }
}

/// What the determinism of a step rests on: the entities before the step,
/// the collision reports and the failures of the agents. Two worlds that hold
/// the same entities, fed the same reports and failures, hold the same
/// entities and the same log after the entity phases, and have the same
/// fingerprint, whatever their logs, their lists of retired entities, their
/// next indices and their cheat switches were.
pub proof fn law_entity_phases_rest_on_entities(
    a: WorldView,
    b: WorldView,
    collisions: Seq<CollisionEvent>,
    failures: Seq<Option<Error>>,
)
    requires
        same_entities(a, b),
    ensures
        same_entities(
            a.after_entity_phases(collisions, failures),
            b.after_entity_phases(collisions, failures),
        ),
        a.after_entity_phases(collisions, failures).events == b.after_entity_phases(
            collisions,
            failures,
        ).events,
        fingerprint(a.after_entity_phases(collisions, failures)) == fingerprint(
            b.after_entity_phases(collisions, failures),
        ),
{
    let ca = a.with_cleared_events();
    let cb = b.with_cleared_events();
    lemma_collisions_rest_on_entities(ca, cb, collisions);
    let ra = ca.after_collisions(collisions);
    let rb = cb.after_collisions(collisions);
    lemma_agents_rest_on_entities(ra, rb, ra.ships, failures);
}

/// The counter counts steps: over any run of steps, whatever the agents and
/// the scenario did in each, the counter at the end is the counter at the
/// start plus the number of steps, and the seed is the same.
pub proof fn law_counter_counts_steps(run: Seq<SimulationView>)
    requires
        run.len() >= 1,
        forall|i: int| 0 <= i < run.len() - 1 ==> (#[trigger] run[i]).stepped_to(run[i + 1]),
    ensures
        run.last().tick == run[0].tick + run.len() - 1,
        run.last().seed == run[0].seed,
    decreases run.len(),
{
    if run.len() > 1 {
        let earlier = run.drop_last();
        assert forall|i: int| 0 <= i < earlier.len() - 1 implies (#[trigger] earlier[i]).stepped_to(
            earlier[i + 1],
        ) by {
            assert(run[i].stepped_to(run[i + 1]));
        }
        law_counter_counts_steps(earlier);
        assert(run[run.len() - 2].stepped_to(run[run.len() - 1]));
    }
}

/// The index reserved for bodies without an entity names no live entity, so a
/// bullet that meets such a body is removed and nothing else happens.
pub proof fn law_no_entity_is_never_live(w: WorldView, bullet: u64)
    requires
        w.wf(),
        w.bullets.contains(bullet),
    ensures
        !w.ships.contains(NO_ENTITY),
        !w.bullets.contains(NO_ENTITY),
        w.after_collision(CollisionEvent::Started(Some(bullet), Some(NO_ENTITY)))
            == w.without_bullet(bullet),
        w.after_collision(CollisionEvent::Started(Some(NO_ENTITY), Some(bullet)))
            == w.without_bullet(bullet),
{
    assert(!w.ship_data.contains_key(NO_ENTITY));
    assert(!w.bullet_data.contains_key(NO_ENTITY));
}

/// Handles are fresh: in a well-formed world the index the next entity gets
/// names no live ship and no live bullet.
pub proof fn law_next_index_is_fresh(w: WorldView)
    requires
        w.wf(),
    ensures
        !w.ships.contains(w.next_index),
        !w.bullets.contains(w.next_index),
{
    assert(!w.ship_data.contains_key(w.next_index));
    assert(!w.bullet_data.contains_key(w.next_index));
}

/// Friendly fire: a bullet that meets a ship of its own team leaves the
/// ship as it was and the log as it was, and is removed.
pub proof fn law_friendly_fire(w: WorldView, ship: u64, bullet: u64)
    requires
        w.wf(),
        w.ships.contains(ship),
        w.bullets.contains(bullet),
        w.bullet_data[bullet].data.team == w.ship_data[ship].data.team,
    ensures
        w.after_hit(ship, bullet).ships == w.ships,
        w.after_hit(ship, bullet).ship_data == w.ship_data,
        w.after_hit(ship, bullet).events == w.events,
        !w.after_hit(ship, bullet).bullets.contains(bullet),
        w.after_collision(CollisionEvent::Started(Some(bullet), Some(ship))) == w.after_hit(
            ship,
            bullet,
        ),
        w.after_collision(CollisionEvent::Started(Some(ship), Some(bullet))) == w.after_hit(
            ship,
            bullet,
        ),
{
    lemma_without(w.bullets, bullet);
    assert(w.ship_data.contains_key(ship));
    assert(!w.bullet_data.contains_key(ship));
}

/// Damage: a bullet that meets a ship of another team takes exactly its
/// damage off the ship's health, where the difference fits the range of the
/// quantity; logs one hit; logs a destruction if and only if the ship's
/// health is now zero or less and the ship was not down before; and is
/// removed.
pub proof fn law_damage_is_exact(w: WorldView, ship: u64, bullet: u64)
    requires
        w.wf(),
        w.ships.contains(ship),
        w.bullets.contains(bullet),
        w.bullet_data[bullet].data.team != w.ship_data[ship].data.team,
        i64::MIN <= w.ship_data[ship].data.health - w.bullet_data[bullet].data.damage <= i64::MAX,
    ensures
        ({
            let after = w.after_hit(ship, bullet);
            let health = w.ship_data[ship].data.health - w.bullet_data[bullet].data.damage;
            let brought_down = health <= 0 && !is_down(w.ship_data[ship]);
            &&& after.ships == w.ships
            &&& after.ship_data[ship].data.health == health
            &&& after.ship_data[ship].data.destroyed == (w.ship_data[ship].data.destroyed || health
                <= 0)
            &&& after.events.hits == w.events.hits.push(w.bullet_data[bullet].body.position)
            &&& brought_down ==> after.events.ships_destroyed == w.events.ships_destroyed.push(
                w.ship_data[ship].body.position,
            )
            &&& !brought_down ==> after.events.ships_destroyed == w.events.ships_destroyed
            &&& !after.bullets.contains(bullet)
        }),
{
    lemma_without(w.bullets, bullet);
}

/// Resolving two sequences of reports one after the other is resolving
/// their concatenation.
proof fn lemma_collisions_in_sequence(
    w: WorldView,
    first: Seq<CollisionEvent>,
    second: Seq<CollisionEvent>,
)
    ensures
        w.after_collisions(first + second) == w.after_collisions(first).after_collisions(second),
    decreases second.len(),
{
    if second.len() == 0 {
        assert(first + second =~= first);
    } else {
        lemma_collisions_in_sequence(w, first, second.drop_last());
        assert((first + second).drop_last() =~= first + second.drop_last());
        assert((first + second).last() == second.last());
    }
}

/// Changing the state of one listed ship changes the count of downed ships
/// by that ship alone.
proof fn lemma_count_after_update(ships: Seq<u64>, data: Map<u64, ShipState>, k: u64, s: ShipState)
    requires
        ships.no_duplicates(),
    ensures
        ships.contains(k) ==> downed_count(ships, data.insert(k, s)) + (if is_down(data[k]) {
            1nat
        } else {
            0nat
        }) == downed_count(ships, data) + (if is_down(s) {
            1nat
        } else {
            0nat
        }),
        !ships.contains(k) ==> downed_count(ships, data.insert(k, s)) == downed_count(ships, data),
    decreases ships.len(),
{
    if ships.len() > 0 {
        let rest = ships.drop_last();
        let last = ships.last();
        assert(ships[ships.len() - 1] == last);
        lemma_count_after_update(rest, data, k, s);
        if last == k {
            assert(!rest.contains(k)) by {
                if rest.contains(k) {
                    let i = choose|i: int| 0 <= i < rest.len() && rest[i] == k;
                    assert(ships[i] == k);
                }
            }
        } else {
            assert(rest.contains(k) <==> ships.contains(k)) by {
                if rest.contains(k) {
                    let i = choose|i: int| 0 <= i < rest.len() && rest[i] == k;
                    assert(ships[i] == k);
                }
                if ships.contains(k) {
                    let i = choose|i: int| 0 <= i < ships.len() && ships[i] == k;
                    assert(rest[i] == k);
                }
            }
        }
    }
}

/// Two states of a fleet that differ in one listed ship at most differ in
/// their count of downed ships by that ship alone.
proof fn lemma_count_differs_at_one(
    ships: Seq<u64>,
    before: Map<u64, ShipState>,
    after: Map<u64, ShipState>,
    k: u64,
)
    requires
        ships.no_duplicates(),
        ships.contains(k),
        forall|j: u64|
            #[trigger] ships.contains(j) && j != k ==> is_down(after[j]) == is_down(before[j]),
    ensures
        downed_count(ships, after) + (if is_down(before[k]) {
            1nat
        } else {
            0nat
        }) == downed_count(ships, before) + (if is_down(after[k]) {
            1nat
        } else {
            0nat
        }),
{
    lemma_count_after_update(ships, before, k, after[k]);
    lemma_count_reads_is_down(ships, before.insert(k, after[k]), after);
}

/// The count of downed ships reads nothing but whether each listed ship is
/// down.
proof fn lemma_count_reads_is_down(
    ships: Seq<u64>,
    a: Map<u64, ShipState>,
    b: Map<u64, ShipState>,
)
    requires
        forall|j: u64| #[trigger] ships.contains(j) ==> is_down(a[j]) == is_down(b[j]),
    ensures
        downed_count(ships, a) == downed_count(ships, b),
    decreases ships.len(),
{
    if ships.len() > 0 {
        let rest = ships.drop_last();
        assert forall|j: u64| #[trigger] rest.contains(j) implies is_down(a[j]) == is_down(
            b[j],
        ) by {
            let i = choose|i: int| 0 <= i < rest.len() && rest[i] == j;
            assert(ships[i] == j);
            assert(ships.contains(j));
        }
        lemma_count_reads_is_down(rest, a, b);
        assert(ships[ships.len() - 1] == ships.last());
        assert(ships.contains(ships.last()));
    }
}

/// One hit by a bullet without negative damage logs a destruction exactly
/// when it turns the ship into a downed one.
proof fn lemma_hit_counts_kills(w: WorldView, ship: u64, bullet: u64)
    requires
        w.wf(),
        w.ships.contains(ship),
        w.bullets.contains(bullet),
        w.bullet_data[bullet].data.damage >= 0,
    ensures
        w.after_hit(ship, bullet).events.ships_destroyed.len() + downed_count(w.ships, w.ship_data)
            == w.events.ships_destroyed.len() + downed_count(
            w.ships,
            w.after_hit(ship, bullet).ship_data,
        ),
{
    let s = w.ship_data[ship];
    let b = w.bullet_data[bullet];
    if b.data.team != s.data.team {
        lemma_count_after_update(w.ships, w.ship_data, ship, struck(s, b.data.damage));
        assert(strike_destroys(s, b.data.damage) <==> (!is_down(s) && is_down(
            struck(s, b.data.damage),
        )));
        assert(is_down(s) ==> is_down(struck(s, b.data.damage)));
    }
}

/// One collision, where no live bullet carries negative damage, logs a
/// destruction exactly when it turns one more ship into a downed one.
proof fn lemma_collision_counts_kills(w: WorldView, event: CollisionEvent)
    requires
        w.wf(),
        forall|b: u64| w.bullets.contains(b) ==> (#[trigger] w.bullet_data[b]).data.damage >= 0,
    ensures
        w.after_collision(event).events.ships_destroyed.len() + downed_count(w.ships, w.ship_data)
            == w.events.ships_destroyed.len() + downed_count(
            w.ships,
            w.after_collision(event).ship_data,
        ),
{
    match event {
        CollisionEvent::Started(Some(first), Some(second)) => {
            if w.bullets.contains(first) && w.ships.contains(second) {
                lemma_hit_counts_kills(w, second, first);
            } else if !w.bullets.contains(first) && w.bullets.contains(second) && w.ships.contains(
                first,
            ) {
                lemma_hit_counts_kills(w, first, second);
            }
        },
        _ => {},
    }
}

/// Destructions are logged once: over any sequence of collisions, the number
/// of destructions logged equals the number of ships that were brought down,
/// however many bullets struck each of them. A bullet of negative damage
/// could give a downed ship health again, so none is allowed here.
pub proof fn law_destruction_logged_once(w: WorldView, collisions: Seq<CollisionEvent>)
    requires
        w.wf(),
        forall|b: u64| w.bullets.contains(b) ==> (#[trigger] w.bullet_data[b]).data.damage >= 0,
    ensures
        w.after_collisions(collisions).wf(),
        w.after_collisions(collisions).ships == w.ships,
        w.after_collisions(collisions).events.ships_destroyed.len() + downed_count(
            w.ships,
            w.ship_data,
        ) == w.events.ships_destroyed.len() + downed_count(
            w.ships,
            w.after_collisions(collisions).ship_data,
        ),
    decreases collisions.len(),
{
    if collisions.len() > 0 {
        law_destruction_logged_once(w, collisions.drop_last());
        let before = w.after_collisions(collisions.drop_last());
        lemma_collisions_keep_ships_and_bullets(w, collisions.drop_last());
        lemma_collision_keeps_ships_and_bullets(before, collisions.last());
        lemma_collision_counts_kills(before, collisions.last());
    }
}

/// One strike among others: where, of all the collisions of a step, only one
/// names a ship, and the enemy bullet it names is named by none before it,
/// the ship ends the collisions exactly as that one strike leaves it, and the
/// bullet is gone. Its health is the old health less the damage, where that
/// fits the range of the quantity.
///
/// Where the other collisions name no ship at all, the step logs the hit of
/// that strike and no other, and logs one destruction, that of the ship, if
/// the strike brings the ship down, and none otherwise.
///
/// Where the other collisions do name other ships, but no live bullet carries
/// negative damage and no other ship is brought down, one destruction is
/// logged if the strike brings the ship down, and none otherwise.
pub proof fn law_single_strike_among_others(
    w: WorldView,
    earlier: Seq<CollisionEvent>,
    strike: CollisionEvent,
    later: Seq<CollisionEvent>,
    ship: u64,
    bullet: u64,
)
    requires
        w.wf(),
        w.ships.contains(ship),
        w.bullets.contains(bullet),
        w.bullet_data[bullet].data.team != w.ship_data[ship].data.team,
        strike == CollisionEvent::Started(Some(bullet), Some(ship)) || strike
            == CollisionEvent::Started(Some(ship), Some(bullet)),
        forall|i: int|
            0 <= i < earlier.len() ==> !mentions(#[trigger] earlier[i], ship) && !mentions(
                earlier[i],
                bullet,
            ),
        forall|i: int| 0 <= i < later.len() ==> !mentions(#[trigger] later[i], ship),
    ensures
        ({
            let end = w.after_collisions(earlier + seq![strike] + later);
            let s = w.ship_data[ship];
            let b = w.bullet_data[bullet];
            let damage = b.data.damage;
            let lonely = (forall|i: int|
                0 <= i < earlier.len() ==> !names_a_ship(w, #[trigger] earlier[i])) && (forall|
                i: int,
            | 0 <= i < later.len() ==> !names_a_ship(w, #[trigger] later[i]));
            let harmless = forall|b: u64|
                w.bullets.contains(b) ==> (#[trigger] w.bullet_data[b]).data.damage >= 0;
            let alone = forall|k: u64|
                #[trigger] w.ships.contains(k) && k != ship ==> is_down(end.ship_data[k])
                    == is_down(w.ship_data[k]);
            &&& end.wf()
            &&& end.ships == w.ships
            &&& end.ship_data[ship] == struck(s, damage)
            &&& i64::MIN <= s.data.health - damage <= i64::MAX ==> end.ship_data[ship].data.health
                == s.data.health - damage
            &&& !end.bullets.contains(bullet)
            &&& lonely ==> {
                &&& end.events.hits == w.events.hits.push(b.body.position)
                &&& end.events.ships_destroyed == if strike_destroys(s, damage) {
                    w.events.ships_destroyed.push(s.body.position)
                } else {
                    w.events.ships_destroyed
                }
            }
            &&& harmless && alone ==> end.events.ships_destroyed.len()
                == w.events.ships_destroyed.len() + (if strike_destroys(s, damage) {
                1nat
            } else {
                0nat
            })
        }),
{
    let s = w.ship_data[ship];
    let damage = w.bullet_data[bullet].data.damage;
    let all = earlier + seq![strike] + later;
    let mid = w.after_collisions(earlier);
    lemma_collisions_keep_ships_and_bullets(w, earlier);
    assert(mid.bullets.contains(bullet));
    assert(mid.ship_data[ship] == s);
    assert(mid.bullet_data[bullet] == w.bullet_data[bullet]);
    assert(mid.ship_data.contains_key(ship));
    assert(!mid.bullet_data.contains_key(ship));
    let hit = mid.after_collision(strike);
    assert(hit == mid.after_hit(ship, bullet));
    lemma_collision_keeps_ships_and_bullets(mid, strike);
    lemma_without(mid.bullets, bullet);
    assert(hit.ship_data[ship] == struck(s, damage));
    assert(!hit.bullets.contains(bullet));
    lemma_collisions_keep_ships_and_bullets(hit, later);
    let end = hit.after_collisions(later);
    assert(end.ship_data[ship] == hit.ship_data[ship]);
    assert(w.after_collisions(all) == end) by {
        lemma_collisions_in_sequence(w, earlier + seq![strike], later);
        lemma_collisions_in_sequence(w, earlier, seq![strike]);
        assert(seq![strike].drop_last() =~= Seq::<CollisionEvent>::empty());
        assert(seq![strike].last() == strike);
        assert(mid.after_collisions(seq![strike]) == mid.after_collisions(
            Seq::<CollisionEvent>::empty(),
        ).after_collision(strike));
    }
    let lonely = (forall|i: int| 0 <= i < earlier.len() ==> !names_a_ship(w, #[trigger] earlier[i]))
        && (forall|i: int| 0 <= i < later.len() ==> !names_a_ship(w, #[trigger] later[i]));
    if lonely {
        lemma_collisions_without_ship(w, earlier);
        assert forall|i: int| 0 <= i < later.len() implies !names_a_ship(
            hit,
            #[trigger] later[i],
        ) by {
            assert(!names_a_ship(w, later[i]));
            if names_a_ship(hit, later[i]) {
                let k = choose|k: u64| hit.ships.contains(k) && #[trigger] mentions(later[i], k);
                assert(w.ships.contains(k) && mentions(later[i], k));
            }
        }
        lemma_collisions_without_ship(hit, later);
    }
    let harmless = forall|b: u64|
        w.bullets.contains(b) ==> (#[trigger] w.bullet_data[b]).data.damage >= 0;
    let alone = forall|k: u64|
        #[trigger] w.ships.contains(k) && k != ship ==> is_down(end.ship_data[k]) == is_down(
            w.ship_data[k],
        );
    if harmless && alone {
        law_destruction_logged_once(w, all);
        lemma_count_differs_at_one(w.ships, w.ship_data, end.ship_data, ship);
        assert(is_down(s) ==> is_down(struck(s, damage)));
    }
}

/// A volley is logged once: where several enemy bullets, none of negative
/// damage, strike one ship, in any order and from either side of the report,
/// among other collisions that name no ship and none of these bullets, every
/// one of them logs a hit and is removed, the ship's health ends at or below
/// what any single one of them would leave, and one destruction is logged if
/// the ship ends without health and was not down before, and none otherwise.
///
/// `strikes[i]` is the bullet of the `i`-th report where that report is a
/// strike of the volley, and `None` where it is one of the other collisions.
pub proof fn law_volley_is_logged_once(
    w: WorldView,
    ship: u64,
    strikes: Seq<Option<u64>>,
    collisions: Seq<CollisionEvent>,
)
    requires
        w.wf(),
        w.ships.contains(ship),
        collisions.len() == strikes.len(),
        forall|i: int, j: int|
            0 <= i < j < strikes.len() && (#[trigger] strikes[i]) is Some ==> (
            #[trigger] strikes[j]) != strikes[i],
        forall|i: int|
            0 <= i < strikes.len() ==> match #[trigger] strikes[i] {
                Some(b) => {
                    &&& w.bullets.contains(b)
                    &&& w.bullet_data[b].data.team != w.ship_data[ship].data.team
                    &&& w.bullet_data[b].data.damage >= 0
                    &&& (collisions[i] == CollisionEvent::Started(Some(b), Some(ship))
                        || collisions[i] == CollisionEvent::Started(Some(ship), Some(b)))
                },
                None => {
                    &&& !names_a_ship(w, collisions[i])
                    &&& forall|j: int|
                        0 <= j < strikes.len() && (#[trigger] strikes[j]) is Some ==> !mentions(
                            collisions[i],
                            strikes[j]->0,
                        )
                },
            },
    ensures
        ({
            let end = w.after_collisions(collisions);
            let s = w.ship_data[ship];
            &&& end.wf()
            &&& end.ships == w.ships
            &&& forall|i: int|
                0 <= i < strikes.len() && (#[trigger] strikes[i]) is Some ==> !end.bullets.contains(
                    strikes[i]->0,
                )
            &&& end.events.hits.len() == w.events.hits.len() + volley_size(strikes)
            &&& end.ship_data[ship].data.team == s.data.team
            &&& end.ship_data[ship].data.health <= s.data.health
            &&& forall|i: int|
                0 <= i < strikes.len() && (#[trigger] strikes[i]) is Some
                    ==> end.ship_data[ship].data.health <= saturating_difference(
                    s.data.health,
                    w.bullet_data[strikes[i]->0].data.damage,
                )
            &&& volley_size(strikes) >= 1 ==> is_down(end.ship_data[ship]) == (
            end.ship_data[ship].data.health <= 0)
            &&& volley_size(strikes) == 0 ==> end.ship_data[ship] == s
            &&& end.events.ships_destroyed.len() == w.events.ships_destroyed.len() + (
            if volley_size(strikes) >= 1 && end.ship_data[ship].data.health <= 0 && !is_down(s) {
                1nat
            } else {
                0nat
            })
        }),
    decreases strikes.len(),
{
    if strikes.len() > 0 {
        let n = strikes.len() - 1;
        let fired = strikes.drop_last();
        let reported = collisions.drop_last();
        assert(strikes[n] == strikes.last());
        assert(collisions[n] == collisions.last());
        assert forall|i: int, j: int|
            0 <= i < j < fired.len() && (#[trigger] fired[i]) is Some implies (
        #[trigger] fired[j]) != fired[i] by {
            assert(fired[i] == strikes[i] && fired[j] == strikes[j]);
        }
        assert forall|i: int| 0 <= i < fired.len() implies match #[trigger] fired[i] {
            Some(b) => {
                &&& w.bullets.contains(b)
                &&& w.bullet_data[b].data.team != w.ship_data[ship].data.team
                &&& w.bullet_data[b].data.damage >= 0
                &&& (reported[i] == CollisionEvent::Started(Some(b), Some(ship)) || reported[i]
                    == CollisionEvent::Started(Some(ship), Some(b)))
            },
            None => {
                &&& !names_a_ship(w, reported[i])
                &&& forall|j: int|
                    0 <= j < fired.len() && (#[trigger] fired[j]) is Some ==> !mentions(
                        reported[i],
                        fired[j]->0,
                    )
            },
        } by {
            assert(fired[i] == strikes[i]);
            assert(reported[i] == collisions[i]);
            if fired[i] is None {
                assert forall|j: int|
                    0 <= j < fired.len() && (#[trigger] fired[j]) is Some implies !mentions(
                    reported[i],
                    fired[j]->0,
                ) by {
                    assert(fired[j] == strikes[j]);
                }
            }
        }
        law_volley_is_logged_once(w, ship, fired, reported);
        let pre = w.after_collisions(reported);
        lemma_collisions_keep_ships_and_bullets(w, reported);
        assert(w.ship_data.contains_key(ship));
        assert(!w.bullet_data.contains_key(ship));
        assert(pre.ship_data.contains_key(ship));
        assert(!pre.bullet_data.contains_key(ship));
        let end = pre.after_collision(collisions.last());
        lemma_collision_keeps_ships_and_bullets(pre, collisions.last());
        assert forall|i: int|
            0 <= i < n && (#[trigger] strikes[i]) is Some implies !pre.bullets.contains(
            strikes[i]->0,
        ) by {
            assert(fired[i] == strikes[i]);
        }
        match strikes.last() {
            Some(b) => {
                assert(w.bullet_data.contains_key(b));
                assert(b != ship);
                assert forall|i: int| 0 <= i < reported.len() implies !mentions(reported[i], b) by {
                    assert(reported[i] == collisions[i]);
                    assert(strikes[i] is Some ==> strikes[n] != strikes[i]);
                    if strikes[i] is None {
                        assert(strikes[n] is Some);
                    }
                }
                assert(pre.bullets.contains(b));
                assert(pre.bullet_data[b] == w.bullet_data[b]);
                assert(end == pre.after_hit(ship, b));
                lemma_without(pre.bullets, b);
                assert(end.ship_data[ship] == struck(
                    pre.ship_data[ship],
                    w.bullet_data[b].data.damage,
                ));
                assert forall|i: int|
                    0 <= i < strikes.len() && (#[trigger] strikes[i]) is Some
                        implies end.ship_data[ship].data.health <= saturating_difference(
                    w.ship_data[ship].data.health,
                    w.bullet_data[strikes[i]->0].data.damage,
                ) by {
                    if i < n {
                        assert(fired[i] == strikes[i]);
                    }
                }
            },
            None => {
                assert(!names_a_ship(pre, collisions.last())) by {
                    if names_a_ship(pre, collisions.last()) {
                        let k = choose|k: u64|
                            pre.ships.contains(k) && #[trigger] mentions(collisions.last(), k);
                        assert(w.ships.contains(k) && mentions(collisions.last(), k));
                    }
                }
                lemma_collision_without_ship(pre, collisions.last());
                assert forall|i: int|
                    0 <= i < strikes.len() && (#[trigger] strikes[i]) is Some
                        implies end.ship_data[ship].data.health <= saturating_difference(
                    w.ship_data[ship].data.health,
                    w.bullet_data[strikes[i]->0].data.damage,
                ) by {
                    assert(fired[i] == strikes[i]);
                }
            },
        }
        assert forall|i: int|
            0 <= i < strikes.len() && (#[trigger] strikes[i]) is Some implies !end.bullets.contains(
            strikes[i]->0,
        ) by {
            if i < n {
                assert(!pre.bullets.contains(strikes[i]->0));
            }
        }
    }
}

/// Destruction is permanent: no collision removes a ship from the world, and
/// none clears the mark of a destroyed ship.
pub proof fn law_destroyed_is_permanent(w: WorldView, collisions: Seq<CollisionEvent>, ship: u64)
    requires
        w.wf(),
        w.ships.contains(ship),
        w.ship_data[ship].data.destroyed,
    ensures
        w.after_collisions(collisions).wf(),
        w.after_collisions(collisions).ships == w.ships,
        w.after_collisions(collisions).ship_data[ship].data.destroyed,
    decreases collisions.len(),
{
    if collisions.len() > 0 {
        law_destroyed_is_permanent(w, collisions.drop_last(), ship);
        let before = w.after_collisions(collisions.drop_last());
        lemma_collision_keeps_ships_and_bullets(before, collisions.last());
        assert(before.ship_data.contains_key(ship));
    }
}

/// Health does not rise: where no live bullet carries negative damage, a
/// collision leaves the health of every ship as it was or lower.
pub proof fn law_health_never_rises(w: WorldView, event: CollisionEvent, ship: u64)
    requires
        w.wf(),
        w.ships.contains(ship),
        forall|b: u64| w.bullets.contains(b) ==> (#[trigger] w.bullet_data[b]).data.damage >= 0,
    ensures
        w.after_collision(event).ships.contains(ship),
        w.after_collision(event).ship_data[ship].data.health <= w.ship_data[ship].data.health,
        w.after_collision(event).ship_data[ship].data.team == w.ship_data[ship].data.team,
        w.after_collision(event).ship_data[ship].data.class == w.ship_data[ship].data.class,
        w.after_collision(event).ship_data[ship].body == w.ship_data[ship].body,
{
    assert(w.ship_data.contains_key(ship));
}

/// The log is fresh: what it holds after the entity phases of a step does not
/// depend on what it held before the step.
pub proof fn law_log_is_fresh(
    w: WorldView,
    stale: EventsView,
    collisions: Seq<CollisionEvent>,
    failures: Seq<Option<Error>>,
)
    ensures
        (WorldView { events: stale, ..w }).after_entity_phases(collisions, failures)
            == w.after_entity_phases(collisions, failures),
        w.with_cleared_events().events == EventsView::empty(),
{
    assert((WorldView { events: stale, ..w }).with_cleared_events() == w.with_cleared_events());
}

/// Collisions log no agent error and draw no debug line.
proof fn lemma_collisions_keep_errors(w: WorldView, collisions: Seq<CollisionEvent>)
    requires
        w.wf(),
    ensures
        w.after_collisions(collisions).events.errors == w.events.errors,
        w.after_collisions(collisions).events.debug_lines == w.events.debug_lines,
    decreases collisions.len(),
{
    if collisions.len() > 0 {
        lemma_collisions_keep_errors(w, collisions.drop_last());
        lemma_collisions_keep_ships_and_bullets(w, collisions.drop_last());
        lemma_collision_keeps_ships_and_bullets(
            w.after_collisions(collisions.drop_last()),
            collisions.last(),
        );
    }
}

/// The log of a step holds the failures of the step: after the entity
/// phases, the agent errors in the log are those of the agents that failed
/// on their turn in this step, each under the name of its ship, in the order
/// of the turns, and no others.
pub proof fn law_log_holds_the_failures_of_the_step(
    w: WorldView,
    collisions: Seq<CollisionEvent>,
    failures: Seq<Option<Error>>,
)
    requires
        w.wf(),
        failures.len() == w.ships.len(),
    ensures
        w.after_entity_phases(collisions, failures).events.errors == failure_log(
            w.ships,
            failures,
        ),
{
    let cleared = w.with_cleared_events();
    let resolved = cleared.after_collisions(collisions);
    lemma_collisions_keep_errors(cleared, collisions);
    lemma_collisions_keep_ships_and_bullets(cleared, collisions);
    law_agent_isolation(resolved, resolved.ships, failures, failures);
    assert(resolved.events.errors + failure_log(resolved.ships, failures) =~= failure_log(
        w.ships,
        failures,
    ));
}

/// Agent isolation: after every ship had its turn, the log holds one entry
/// for each agent that failed, in the order of the turns, and nothing else in
/// the world depends on which agents failed.
pub proof fn law_agent_isolation(
    w: WorldView,
    ships: Seq<u64>,
    failures: Seq<Option<Error>>,
    others: Seq<Option<Error>>,
)
    requires
        failures.len() == ships.len(),
        others.len() == ships.len(),
    ensures
        w.after_agents(ships, failures).events.errors == w.events.errors + failure_log(
            ships,
            failures,
        ),
        w.after_agents(ships, failures) == (WorldView {
            events: EventsView {
                errors: w.after_agents(ships, failures).events.errors,
                ..w.after_agents(ships, others).events
            },
            ..w.after_agents(ships, others)
        }),
    decreases ships.len(),
{
    if ships.len() > 0 {
        law_agent_isolation(w, ships.drop_last(), failures.drop_last(), others.drop_last());
        assert(w.after_agents(ships, failures).events.errors =~= w.events.errors + failure_log(
            ships,
            failures,
        ));
    } else {
        assert(w.events.errors + failure_log(ships, failures) =~= w.events.errors);
    }
}

/// Snapshot purity: two snapshots of one simulation differ in their nonce
/// and in nothing else, given the same answers of the scenario.
pub proof fn law_snapshots_differ_in_nonce_only(
    sim: SimulationView,
    first: u32,
    second: u32,
    status: Status,
    scenario_lines: Seq<Line>,
)
    ensures
        snapshot_of(sim, second, status, scenario_lines) == (SnapshotView {
            nonce: second,
            ..snapshot_of(sim, first, status, scenario_lines)
        }),
{
}

} // verus!
