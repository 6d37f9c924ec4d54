use oort_simulator::bullet::{BulletData, BulletHandle};
use oort_simulator::collision::CollisionEvent;
use oort_simulator::events::{AgentError, Line, Origin, SimEvents};
use oort_simulator::index_set::IndexSet;
use oort_simulator::script::{agent_source, Error, NOOP_CODE};
use oort_simulator::ship::{Body, ShipClass, ShipData, ShipHandle, StaleHandle};
use oort_simulator::units::{saturating_sub, ticks_to_time, Vector2, SCALE};
use oort_simulator::world::World;
use std::collections::hash_map::DefaultHasher;
use std::hash::Hasher;

fn body_at(x: i64, y: i64) -> Body {
    Body {
        position: Vector2 { x, y },
        heading: 0,
        velocity: Vector2 { x: 0, y: 0 },
        angular_velocity: 0,
    }
}

fn fighter(team: i32, health: i64) -> ShipData {
    ShipData { team, class: ShipClass::Fighter, health, destroyed: false }
}

fn world_with_ship_and_bullet(
    ship_team: i32,
    health: i64,
    bullet_team: i32,
    damage: i64,
) -> (World, ShipHandle, BulletHandle) {
    let mut world = World::new();
    let ship = world.create_ship(fighter(ship_team, health), body_at(7 * SCALE, 9 * SCALE)).unwrap();
    let bullet = world
        .create_bullet(BulletData { team: bullet_team, damage }, body_at(7 * SCALE, 9 * SCALE))
        .unwrap();
    (world, ship, bullet)
}

#[test]
fn index_set_keeps_insertion_order() {
    let mut set = IndexSet::new();
    assert!(set.is_empty());
    assert!(set.insert(5));
    assert!(set.insert(2));
    assert!(set.insert(9));
    assert_eq!(set.to_vec(), vec![5, 2, 9]);
    assert_eq!(set.len(), 3);
    assert_eq!(set.get(1), 2);
    assert_eq!(set.position(9), Some(2));
    assert_eq!(set.position(4), None);
}

#[test]
fn index_set_refuses_duplicates() {
    let mut set = IndexSet::new();
    assert!(set.insert(5));
    assert!(!set.insert(5));
    assert_eq!(set.to_vec(), vec![5]);
}

#[test]
fn index_set_remove_keeps_order_of_the_rest() {
    let mut set = IndexSet::new();
    set.insert(1);
    set.insert(2);
    set.insert(3);
    assert!(set.remove(2));
    assert!(!set.remove(2));
    assert!(!set.contains(2));
    assert!(set.contains(1));
    assert_eq!(set.to_vec(), vec![1, 3]);
}

#[test]
fn frozen_copy_survives_removal() {
    let mut set = IndexSet::new();
    set.insert(1);
    set.insert(2);
    let frozen = set.to_vec();
    set.remove(1);
    assert_eq!(frozen, vec![1, 2]);
    assert_eq!(set.to_vec(), vec![2]);
}

#[test]
fn saturating_sub_is_exact_in_range_and_clamps_outside() {
    assert_eq!(saturating_sub(100, 30), 70);
    assert_eq!(saturating_sub(-5, 10), -15);
    assert_eq!(saturating_sub(i64::MAX, -1), i64::MAX);
    assert_eq!(saturating_sub(i64::MIN, 1), i64::MIN);
    assert_eq!(saturating_sub(0, i64::MIN), i64::MAX);
}

#[test]
fn elapsed_time_is_ticks_over_sixty() {
    assert_eq!(ticks_to_time(0), 0);
    assert_eq!(ticks_to_time(1), 16_666_666);
    assert_eq!(ticks_to_time(60), 1_000_000_000);
    assert_eq!(ticks_to_time(600), 10_000_000_000);
    assert_eq!(ticks_to_time(u32::MAX), 71_582_788_250_000_000);
}

#[test]
fn handles_are_never_reused() {
    let mut world = World::new();
    let a = world.create_ship(fighter(0, SCALE), body_at(0, 0)).unwrap();
    let b = world.create_bullet(BulletData { team: 0, damage: 1 }, body_at(0, 0)).unwrap();
    world.remove_ship(a);
    world.remove_bullet(b);
    let c = world.create_ship(fighter(0, SCALE), body_at(0, 0)).unwrap();
    assert_eq!(a, ShipHandle(0));
    assert_eq!(b, BulletHandle(1));
    assert_eq!(c, ShipHandle(2));
    assert_eq!(world.take_retired(), vec![0, 1]);
    assert_eq!(world.take_retired(), Vec::<u64>::new());
}

#[test]
fn stale_handle_is_an_error_not_a_panic() {
    let mut world = World::new();
    let ship = world.create_ship(fighter(0, SCALE), body_at(0, 0)).unwrap();
    world.remove_ship(ship);
    assert!(!world.ship(ship).is_live());
    assert_eq!(world.ship(ship).data(), Err(StaleHandle { index: 0 }));
    assert_eq!(world.ship(ship).body(), Err(StaleHandle { index: 0 }));
    assert_eq!(world.bullet(BulletHandle(44)).data(), Err(StaleHandle { index: 44 }));
    assert_eq!(world.ship_mut(ship).set_health(5), Err(StaleHandle { index: 0 }));
    assert_eq!(world.ship_mut(ship).destroy(), Err(StaleHandle { index: 0 }));
    assert_eq!(world.bullet_mut(BulletHandle(44)).set_body(body_at(1, 1)), Err(StaleHandle { index: 44 }));
    world.bullet_mut(BulletHandle(44)).destroy();
    assert_eq!(world.take_retired(), vec![0]);
}

#[test]
fn friendly_fire_destroys_only_the_bullet() {
    let (mut world, ship, bullet) = world_with_ship_and_bullet(3, 50 * SCALE, 3, 20 * SCALE);
    world.resolve_collision(CollisionEvent::Started(Some(bullet.0), Some(ship.0)));
    assert_eq!(world.ship(ship).data().unwrap(), fighter(3, 50 * SCALE));
    assert!(!world.bullet(bullet).is_live());
    assert!(world.events().hits.is_empty());
    assert!(world.events().ships_destroyed.is_empty());
    assert_eq!(world.take_retired(), vec![bullet.0]);
}

#[test]
fn enemy_hit_subtracts_damage_exactly() {
    let (mut world, ship, bullet) = world_with_ship_and_bullet(0, 50 * SCALE, 1, 20 * SCALE);
    world.resolve_collision(CollisionEvent::Started(Some(ship.0), Some(bullet.0)));
    let data = world.ship(ship).data().unwrap();
    assert_eq!(data.health, 30 * SCALE);
    assert!(!data.destroyed);
    assert_eq!(world.events().hits, vec![Vector2 { x: 7 * SCALE, y: 9 * SCALE }]);
    assert!(world.events().ships_destroyed.is_empty());
    assert!(!world.bullet(bullet).is_live());
}

#[test]
fn lethal_hit_at_distance_zero() {
    let (mut world, ship, bullet) = world_with_ship_and_bullet(0, 100 * SCALE, 1, 100 * SCALE);
    world.resolve_collision(CollisionEvent::Started(Some(bullet.0), Some(ship.0)));
    let data = world.ship(ship).data().unwrap();
    assert_eq!(data.health, 0);
    assert!(data.destroyed);
    assert_eq!(world.events().ships_destroyed.len(), 1);
    assert_eq!(world.events().ships_destroyed[0], Vector2 { x: 7 * SCALE, y: 9 * SCALE });
    assert_eq!(world.events().hits.len(), 1);
}

#[test]
fn destruction_is_logged_once_however_many_bullets_strike() {
    let (mut world, ship, first) = world_with_ship_and_bullet(0, 10 * SCALE, 1, 10 * SCALE);
    let second = world.create_bullet(BulletData { team: 1, damage: 4 * SCALE }, body_at(1, 2)).unwrap();
    let third = world.create_bullet(BulletData { team: 2, damage: SCALE }, body_at(3, 4)).unwrap();
    world.resolve_collision(CollisionEvent::Started(Some(first.0), Some(ship.0)));
    world.resolve_collision(CollisionEvent::Started(Some(second.0), Some(ship.0)));
    world.resolve_collision(CollisionEvent::Started(Some(ship.0), Some(third.0)));
    let data = world.ship(ship).data().unwrap();
    assert_eq!(data.health, -5 * SCALE);
    assert!(data.destroyed);
    assert_eq!(world.events().ships_destroyed.len(), 1);
    assert_eq!(world.events().hits.len(), 3);
    assert!(world.bullets().is_empty());
}

#[test]
fn bullet_against_anything_else_is_destroyed_without_event() {
    let (mut world, ship, bullet) = world_with_ship_and_bullet(0, 10 * SCALE, 1, SCALE);
    world.resolve_collision(CollisionEvent::Started(Some(bullet.0), Some(999)));
    assert!(!world.bullet(bullet).is_live());
    assert!(world.events().hits.is_empty());
    assert_eq!(world.ship(ship).data().unwrap().health, 10 * SCALE);
}

#[test]
fn of_two_bullets_the_first_named_is_destroyed() {
    let mut world = World::new();
    let a = world.create_bullet(BulletData { team: 0, damage: 1 }, body_at(0, 0)).unwrap();
    let b = world.create_bullet(BulletData { team: 1, damage: 1 }, body_at(0, 0)).unwrap();
    world.resolve_collision(CollisionEvent::Started(Some(a.0), Some(b.0)));
    assert!(!world.bullet(a).is_live());
    assert!(world.bullet(b).is_live());
}

#[test]
fn unresolved_or_ended_contacts_are_skipped() {
    let (mut world, ship, bullet) = world_with_ship_and_bullet(0, 10 * SCALE, 1, SCALE);
    world.resolve_collision(CollisionEvent::Started(Some(bullet.0), None));
    world.resolve_collision(CollisionEvent::Started(None, Some(bullet.0)));
    world.resolve_collision(CollisionEvent::Started(None, None));
    world.resolve_collision(CollisionEvent::Stopped(Some(bullet.0), Some(ship.0)));
    world.resolve_collision(CollisionEvent::Started(Some(ship.0), Some(777)));
    assert!(world.bullet(bullet).is_live());
    assert_eq!(world.ship(ship).data().unwrap().health, 10 * SCALE);
    assert!(world.events().hits.is_empty());
}

#[test]
fn a_marked_ship_with_health_left_is_brought_down_like_any_other() {
    let (mut world, ship, bullet) = world_with_ship_and_bullet(0, 10 * SCALE, 1, 20 * SCALE);
    world.ship_mut(ship).destroy().unwrap();
    world.resolve_collision(CollisionEvent::Started(Some(bullet.0), Some(ship.0)));
    assert_eq!(world.ship(ship).data().unwrap().health, -10 * SCALE);
    assert_eq!(world.events().ships_destroyed, vec![Vector2 { x: 7 * SCALE, y: 9 * SCALE }]);
    assert_eq!(world.events().hits.len(), 1);
}

#[test]
fn a_ship_created_marked_logs_one_destruction_under_two_lethal_bullets() {
    let mut world = World::new();
    let marked = ShipData { team: 0, class: ShipClass::Fighter, health: 100, destroyed: true };
    let ship = world.create_ship(marked, body_at(1, 1)).unwrap();
    let first = world.create_bullet(BulletData { team: 1, damage: 100 }, body_at(2, 2)).unwrap();
    let second = world.create_bullet(BulletData { team: 1, damage: 100 }, body_at(3, 3)).unwrap();
    world.resolve_collision(CollisionEvent::Started(Some(first.0), Some(ship.0)));
    assert_eq!(world.ship(ship).data().unwrap().health, 0);
    assert_eq!(world.events().ships_destroyed.len(), 1);
    world.resolve_collision(CollisionEvent::Started(Some(second.0), Some(ship.0)));
    assert_eq!(world.ship(ship).data().unwrap().health, -100);
    assert_eq!(world.events().ships_destroyed.len(), 1);
    assert_eq!(world.events().hits.len(), 2);
    assert!(world.bullets().is_empty());
}

#[test]
fn a_ship_that_is_down_logs_no_further_destruction() {
    let (mut world, ship, bullet) = world_with_ship_and_bullet(0, 0, 1, 5);
    world.ship_mut(ship).destroy().unwrap();
    world.resolve_collision(CollisionEvent::Started(Some(bullet.0), Some(ship.0)));
    assert_eq!(world.ship(ship).data().unwrap().health, -5);
    assert!(world.events().ships_destroyed.is_empty());
    assert_eq!(world.events().hits.len(), 1);
}

#[test]
fn an_unmarked_ship_without_health_is_brought_down_by_its_first_hit() {
    let (mut world, ship, first) = world_with_ship_and_bullet(0, 0, 1, 5);
    let second = world.create_bullet(BulletData { team: 1, damage: 5 }, body_at(0, 0)).unwrap();
    world.resolve_collision(CollisionEvent::Started(Some(first.0), Some(ship.0)));
    world.resolve_collision(CollisionEvent::Started(Some(second.0), Some(ship.0)));
    let data = world.ship(ship).data().unwrap();
    assert_eq!(data.health, -10);
    assert!(data.destroyed);
    assert_eq!(world.events().ships_destroyed.len(), 1);
}

#[test]
fn a_volley_logs_one_destruction_in_either_order() {
    for order in [[1u64, 2, 3], [3, 2, 1]] {
        let mut world = World::new();
        let ship = world.create_ship(fighter(0, 50), body_at(0, 0)).unwrap();
        for damage in [50i64, 70, 60] {
            world.create_bullet(BulletData { team: 4, damage }, body_at(1, 1)).unwrap();
        }
        for index in order {
            world.resolve_collision(CollisionEvent::Started(Some(ship.0), Some(index)));
        }
        let data = world.ship(ship).data().unwrap();
        assert_eq!(data.health, 50 - 180);
        assert!(data.destroyed);
        assert_eq!(world.events().ships_destroyed.len(), 1);
        assert_eq!(world.events().hits.len(), 3);
        assert!(world.bullets().is_empty());
    }
}

#[test]
fn destroyed_ship_leaves_at_its_entity_tick() {
    let (mut world, ship, bullet) = world_with_ship_and_bullet(0, SCALE, 1, SCALE);
    world.ship_mut(ship).tick();
    assert!(world.ship(ship).is_live());
    world.handle_hit(ship, bullet);
    assert!(world.ship(ship).is_live());
    world.ship_mut(ship).tick();
    assert!(!world.ship(ship).is_live());
    assert_eq!(world.take_retired(), vec![bullet.0, ship.0]);
}

#[test]
fn finish_agent_logs_the_failure_under_the_ship() {
    let (mut world, ship, _) = world_with_ship_and_bullet(0, SCALE, 1, SCALE);
    world.finish_agent(ship, Some(Error { line: 12, msg: String::from("boom") }));
    world.finish_agent(ship, None);
    let errors = &world.events().errors;
    assert_eq!(errors.len(), 1);
    assert_eq!(errors[0].origin, Origin::Ship(ship.0));
    assert_eq!(errors[0].line, 12);
    assert_eq!(errors[0].msg, "boom");
}

#[test]
fn set_body_and_set_health_replace_only_their_part() {
    let (mut world, ship, bullet) = world_with_ship_and_bullet(0, SCALE, 1, SCALE);
    world.ship_mut(ship).set_body(body_at(1, 2)).unwrap();
    world.ship_mut(ship).set_health(77).unwrap();
    world.bullet_mut(bullet).set_body(body_at(3, 4)).unwrap();
    assert_eq!(world.ship(ship).body().unwrap(), body_at(1, 2));
    assert_eq!(world.ship(ship).data().unwrap(), fighter(0, 77));
    assert_eq!(world.bullet(bullet).body().unwrap(), body_at(3, 4));
    assert_eq!(world.bullet(bullet).data().unwrap(), BulletData { team: 1, damage: SCALE });
}

#[test]
fn debug_lines_accumulate_per_ship() {
    let mut events = SimEvents::new();
    let one = Line { a: Vector2 { x: 0, y: 0 }, b: Vector2 { x: 1, y: 1 }, color: 0xff0000ff };
    let two = Line { a: Vector2 { x: 2, y: 2 }, b: Vector2 { x: 3, y: 3 }, color: 0x00ff00ff };
    events.add_debug_lines(4, &[one]);
    events.add_debug_lines(4, &[two, one]);
    events.add_debug_lines(1, &[]);
    assert_eq!(events.debug_lines.get(&4), Some(&vec![one, two, one]));
    assert_eq!(events.debug_lines.get(&1), Some(&vec![]));
    assert_eq!(events.debug_lines.len(), 2);
}

#[test]
fn clear_empties_every_list() {
    let mut events = SimEvents::default();
    events.errors.push(AgentError { origin: Origin::Team(1), line: 0, msg: String::new() });
    events.hits.push(Vector2 { x: 1, y: 1 });
    events.ships_destroyed.push(Vector2 { x: 1, y: 1 });
    events.add_debug_lines(1, &[]);
    events.clear();
    assert!(events.errors.is_empty());
    assert!(events.hits.is_empty());
    assert!(events.ships_destroyed.is_empty());
    assert!(events.debug_lines.is_empty());
}

#[test]
fn fingerprint_feeds_the_ships_in_registry_order() {
    let mut world = World::new();
    let a = world.create_ship(fighter(0, 100 * SCALE), body_at(-3, 4)).unwrap();
    world.create_bullet(BulletData { team: 1, damage: 5 }, body_at(8, 8)).unwrap();
    let b = world.create_ship(fighter(1, 90 * SCALE), body_at(5, -6)).unwrap();
    let moving = Body {
        position: Vector2 { x: 5, y: -6 },
        heading: 11,
        velocity: Vector2 { x: -12, y: 13 },
        angular_velocity: -14,
    };
    world.ship_mut(b).set_body(moving).unwrap();
    let mut expected = DefaultHasher::new();
    for word in [-3i64, 4, 0, 0, 0, 0, 100 * SCALE, 5, -6, 11, -12, 13, -14, 90 * SCALE] {
        expected.write_i64(word);
    }
    assert_eq!(world.hash(), expected.finish());
    world.remove_ship(a);
    let mut expected = DefaultHasher::new();
    for word in [5i64, -6, 11, -12, 13, -14, 90 * SCALE] {
        expected.write_i64(word);
    }
    assert_eq!(world.hash(), expected.finish());
}

#[test]
fn fingerprint_ignores_bullets_and_log() {
    let mut world = World::new();
    world.create_ship(fighter(0, 100 * SCALE), body_at(1, 2)).unwrap();
    let before = world.hash();
    world.create_bullet(BulletData { team: 1, damage: 5 }, body_at(8, 8)).unwrap();
    world.record_error(AgentError { origin: Origin::Team(0), line: 1, msg: String::from("x") });
    world.set_cheats(true);
    assert_eq!(world.hash(), before);
    assert!(world.cheats());
}

#[test]
fn fingerprint_of_the_empty_world() {
    assert_eq!(World::new().hash(), DefaultHasher::new().finish());
}

#[test]
fn handler_queues_on_the_channel_it_was_made_with() {
    let (sender, receiver) = crossbeam::channel::unbounded();
    let handler = oort_simulator::collision::CollisionEventHandler::new(sender);
    handler.handle_collision_event(CollisionEvent::Started(Some(1), None));
    handler.handle_collision_event(CollisionEvent::Stopped(None, Some(2)));
    assert_eq!(receiver.try_recv(), Ok(CollisionEvent::Started(Some(1), None)));
    assert_eq!(receiver.try_recv(), Ok(CollisionEvent::Stopped(None, Some(2))));
    assert!(receiver.try_recv().is_err());
}

#[test]
fn handler_drops_what_a_full_channel_does_not_take() {
    let (sender, receiver) = crossbeam::channel::bounded(1);
    let handler = oort_simulator::collision::CollisionEventHandler::new(sender);
    handler.handle_collision_event(CollisionEvent::Started(Some(1), Some(2)));
    handler.handle_collision_event(CollisionEvent::Started(Some(3), Some(4)));
    assert_eq!(receiver.try_recv(), Ok(CollisionEvent::Started(Some(1), Some(2))));
    assert!(receiver.try_recv().is_err());
}

#[test]
fn empty_text_stands_for_the_agent_that_does_nothing() {
    assert_eq!(agent_source(""), NOOP_CODE);
    assert_eq!(agent_source(""), "fn tick(){}");
    assert_eq!(agent_source(" "), " ");
    assert_eq!(agent_source("fn tick() { fire(0); }"), "fn tick() { fire(0); }");
}

#[test]
fn a_hit_with_a_stale_handle_changes_nothing() {
    let (mut world, ship, bullet) = world_with_ship_and_bullet(0, 10 * SCALE, 1, SCALE);
    world.handle_hit(ShipHandle(77), bullet);
    world.handle_hit(ship, BulletHandle(78));
    world.handle_hit(ShipHandle(bullet.0), BulletHandle(ship.0));
    assert!(world.bullet(bullet).is_live());
    assert_eq!(world.ship(ship).data().unwrap(), fighter(0, 10 * SCALE));
    assert!(world.events().hits.is_empty());
    assert!(world.events().ships_destroyed.is_empty());
    assert_eq!(world.take_retired(), Vec::<u64>::new());
}
