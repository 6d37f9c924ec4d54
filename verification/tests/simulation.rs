use oort_simulator::bullet::{BulletData, BulletHandle};
use oort_simulator::collision::CollisionEvent;
use oort_simulator::events::{Line, Origin};
use oort_simulator::scenario::{Scenario, Status};
use oort_simulator::script::{Error, ShipController, TeamController, NOOP_CODE};
use oort_simulator::ship::{Body, ShipClass, ShipData, ShipHandle};
use oort_simulator::simulation::Simulation;
use oort_simulator::units::{Vector2, SCALE};
use oort_simulator::world::World;

/// A ship agent that follows one of a few fixed plans.
struct PlanShip {
    plan: String,
    turns: u32,
    index: u64,
}

impl ShipController for PlanShip {
    fn tick(&mut self) -> Result<(), Error> {
        self.turns += 1;
        if self.plan == "fail" {
            Err(Error { line: 1, msg: String::from("fail") })
        } else if self.plan == "who" {
            Err(Error { line: 0, msg: format!("ship {} turn {}", self.index, self.turns) })
        } else if self.plan == "third" && self.turns == 3 {
            Err(Error { line: 3, msg: String::from("third") })
        } else {
            Ok(())
        }
    }
}

/// A team agent whose source text is the name of its plan.
struct PlanTeam {
    plan: String,
}

impl TeamController for PlanTeam {
    type Ship = PlanShip;

    fn compile(code: &str) -> Result<Self, Error> {
        if code == "syntax error" {
            Err(Error { line: 7, msg: String::from("bad code") })
        } else {
            Ok(PlanTeam { plan: String::from(code) })
        }
    }

    fn create_ship_controller(&mut self, handle: ShipHandle) -> Result<PlanShip, Error> {
        if self.plan == "no ships" {
            Err(Error { line: 9, msg: format!("no controller for ship {}", handle.0) })
        } else {
            Ok(PlanShip { plan: self.plan.clone(), turns: 0, index: handle.0 })
        }
    }
}

/// A scenario that sets up one of a few fixed worlds.
struct Setup {
    name: String,
    ticks: u32,
}

fn body_at(x: i64, y: i64) -> Body {
    Body {
        position: Vector2 { x, y },
        heading: 0,
        velocity: Vector2 { x: 0, y: 0 },
        angular_velocity: 0,
    }
}

fn fighter(team: i32) -> ShipData {
    ShipData { team, class: ShipClass::Fighter, health: 100 * SCALE, destroyed: false }
}

impl Scenario for Setup {
    fn load(name: &str) -> Self {
        Setup { name: String::from(name), ticks: 0 }
    }

    fn init(&mut self, world: &mut World, seed: u32) {
        if self.name == "duel" {
            let offset = (seed as i64) * SCALE;
            world.create_ship(fighter(0), body_at(-1000 * SCALE, offset)).unwrap();
            world.create_ship(fighter(1), body_at(1000 * SCALE, -offset)).unwrap();
        } else if self.name == "range" {
            world.create_ship(fighter(0), body_at(0, 0)).unwrap();
            world.create_bullet(BulletData { team: 1, damage: 100 * SCALE }, body_at(0, 0)).unwrap();
            world.create_bullet(BulletData { team: 0, damage: 50 * SCALE }, body_at(5, 5)).unwrap();
        }
    }

    fn tick(&mut self, _world: &mut World) {
        self.ticks += 1;
    }

    fn status(&self, world: &World) -> Status {
        if self.name != "duel" {
            return Status::Running;
        }
        let mut alive: Vec<i32> = Vec::new();
        for index in world.ships().to_vec() {
            alive.push(world.ship(ShipHandle(index)).data().unwrap().team);
        }
        if alive.len() == 2 {
            Status::Running
        } else if alive.len() == 1 {
            Status::Won(alive[0])
        } else {
            Status::Draw
        }
    }

    fn lines(&self) -> Vec<Line> {
        vec![Line { a: Vector2 { x: 0, y: 0 }, b: Vector2 { x: 1, y: 0 }, color: self.ticks }]
    }
}

type Sim = Simulation<PlanTeam, Setup>;

#[test]
fn new_starts_at_tick_zero() {
    let sim = Sim::new("duel", 42, "");
    assert_eq!(sim.tick(), 0);
    assert_eq!(sim.time(), 0);
    assert_eq!(sim.seed(), 42);
    assert_eq!(sim.status(), Status::Running);
    assert_eq!(sim.world().ships().to_vec(), vec![0, 1]);
    assert!(sim.events().errors.is_empty());
    assert!(!sim.world().cheats());
}

#[test]
fn empty_code_is_a_no_op_agent() {
    let sim = Sim::new("duel", 1, "");
    assert_eq!(sim.get_team_controller(0).unwrap().plan, NOOP_CODE);
    assert_eq!(NOOP_CODE, "fn tick(){}");
    assert!(sim.get_team_controller(1).is_none());
}

#[test]
fn duel_of_idle_agents_is_still_running_after_ten_seconds() {
    let mut sim = Sim::new("duel", 42, "");
    sim.upload_code(1, "");
    for _ in 0..600 {
        sim.step();
    }
    assert_eq!(sim.tick(), 600);
    assert_eq!(sim.time(), 10 * (SCALE as u64));
    assert_eq!(sim.status(), Status::Running);
    assert_eq!(sim.ship(ShipHandle(0)).data().unwrap(), fighter(0));
    assert_eq!(sim.ship(ShipHandle(1)).data().unwrap(), fighter(1));
    assert!(sim.events().errors.is_empty());
}

#[test]
fn step_advances_the_counter_by_one() {
    let mut sim = Sim::new("empty", 0, "");
    sim.step();
    assert_eq!(sim.tick(), 1);
    assert_eq!(sim.time(), 16_666_666);
    sim.step();
    assert_eq!(sim.tick(), 2);
    assert_eq!(sim.seed(), 0);
}

#[test]
fn reported_collisions_are_resolved_by_the_next_step() {
    let mut sim = Sim::new("range", 0, "");
    sim.event_collector().handle_collision_event(CollisionEvent::Started(Some(2), Some(0)));
    sim.event_collector().handle_collision_event(CollisionEvent::Started(Some(0), Some(1)));
    assert_eq!(sim.ship(ShipHandle(0)).data().unwrap().health, 100 * SCALE);
    sim.step();
    assert_eq!(sim.events().hits, vec![Vector2 { x: 0, y: 0 }]);
    assert_eq!(sim.events().ships_destroyed, vec![Vector2 { x: 0, y: 0 }]);
    assert!(!sim.bullet(BulletHandle(1)).is_live());
    assert!(!sim.bullet(BulletHandle(2)).is_live());
    assert!(!sim.ship(ShipHandle(0)).is_live());
    assert_eq!(sim.take_retired(), vec![2, 1, 0]);
}

#[test]
fn the_log_holds_only_the_most_recent_step() {
    let mut sim = Sim::new("range", 0, "");
    let line = Line { a: Vector2 { x: 0, y: 0 }, b: Vector2 { x: 1, y: 1 }, color: 7 };
    sim.event_collector().handle_collision_event(CollisionEvent::Started(Some(1), Some(0)));
    sim.step();
    sim.emit_debug_lines(ShipHandle(0), &[line]);
    assert_eq!(sim.events().hits.len(), 1);
    assert_eq!(sim.events().ships_destroyed.len(), 1);
    assert_eq!(sim.events().debug_lines.get(&0), Some(&vec![line]));
    sim.step();
    assert!(sim.events().hits.is_empty());
    assert!(sim.events().ships_destroyed.is_empty());
    assert!(sim.events().errors.is_empty());
    assert!(sim.events().debug_lines.is_empty());
}

#[test]
fn a_failing_agent_costs_no_other_agent_its_turn() {
    let mut sim = Sim::new("duel", 0, "fail");
    sim.upload_code(1, "third");
    for step in 1..=4u32 {
        sim.step();
        assert_eq!(sim.tick(), step);
        let errors = &sim.events().errors;
        assert_eq!(errors[0].origin, Origin::Ship(0));
        assert_eq!(errors[0].msg, "fail");
        assert_eq!(errors[0].line, 1);
        if step == 3 {
            assert_eq!(errors.len(), 2);
            assert_eq!(errors[1].origin, Origin::Ship(1));
            assert_eq!(errors[1].msg, "third");
        } else {
            assert_eq!(errors.len(), 1);
        }
    }
    assert!(sim.ship(ShipHandle(0)).is_live());
    assert!(sim.ship(ShipHandle(1)).is_live());
}

#[test]
fn every_agent_failing_still_lets_the_simulation_advance() {
    let mut sim = Sim::new("duel", 0, "fail");
    sim.upload_code(1, "fail");
    for _ in 0..10 {
        sim.step();
        assert_eq!(sim.events().errors.len(), 2);
    }
    assert_eq!(sim.tick(), 10);
    assert_eq!(sim.status(), Status::Running);
}

#[test]
fn failed_upload_is_logged_and_keeps_the_previous_controller() {
    let mut sim = Sim::new("duel", 0, "third");
    let before = sim.hash();
    sim.upload_code(0, "syntax error");
    assert_eq!(sim.get_team_controller(0).unwrap().plan, "third");
    let errors = &sim.events().errors;
    assert_eq!(errors.len(), 1);
    assert_eq!(errors[0].origin, Origin::Team(0));
    assert_eq!(errors[0].line, 7);
    assert_eq!(errors[0].msg, "bad code");
    assert_eq!(sim.hash(), before);
    assert_eq!(sim.tick(), 0);
}

#[test]
fn failed_first_upload_leaves_the_team_without_code() {
    let sim = Sim::new("duel", 0, "syntax error");
    assert!(sim.get_team_controller(0).is_none());
    assert_eq!(sim.events().errors.len(), 1);
    assert_eq!(sim.events().errors[0].origin, Origin::Team(0));
}

#[test]
fn upload_replaces_the_controller_of_the_team() {
    let mut sim = Sim::new("duel", 0, "fail");
    sim.upload_code(0, "third");
    assert_eq!(sim.get_team_controller(0).unwrap().plan, "third");
    assert!(sim.events().errors.is_empty());
}

#[test]
fn a_team_that_uploads_later_gets_its_ships_controlled_from_then_on() {
    let mut sim = Sim::new("duel", 0, "");
    sim.step();
    assert!(sim.events().errors.is_empty());
    sim.upload_code(1, "fail");
    sim.step();
    assert_eq!(sim.events().errors.len(), 1);
    assert_eq!(sim.events().errors[0].origin, Origin::Ship(1));
}

#[test]
fn a_team_that_cannot_build_a_ship_controller_fails_once() {
    let mut sim = Sim::new("duel", 0, "no ships");
    sim.step();
    assert_eq!(sim.events().errors.len(), 1);
    assert_eq!(sim.events().errors[0].origin, Origin::Ship(0));
    assert_eq!(sim.events().errors[0].msg, "no controller for ship 0");
    sim.step();
    assert!(sim.events().errors.is_empty());
    assert_eq!(sim.tick(), 2);
}

#[test]
fn a_destroyed_ship_has_one_last_turn_and_then_leaves() {
    let mut sim = Sim::new("duel", 0, "fail");
    sim.upload_code(1, "fail");
    sim.ship_mut(ShipHandle(0)).destroy().unwrap();
    sim.step();
    assert_eq!(sim.events().errors.len(), 2);
    assert!(!sim.ship(ShipHandle(0)).is_live());
    assert_eq!(sim.status(), Status::Won(1));
    assert_eq!(sim.take_retired(), vec![0]);
    sim.step();
    assert_eq!(sim.events().errors.len(), 1);
    assert_eq!(sim.events().errors[0].origin, Origin::Ship(1));
}

#[test]
fn snapshots_of_one_step_differ_in_the_nonce_only() {
    let mut sim = Sim::new("range", 5, "fail");
    sim.event_collector().handle_collision_event(CollisionEvent::Started(Some(2), Some(777)));
    sim.step();
    sim.emit_debug_lines(ShipHandle(0), &[Line { a: Vector2 { x: 1, y: 2 }, b: Vector2 { x: 3, y: 4 }, color: 9 }]);
    let before = sim.hash();
    let first = sim.snapshot(1);
    let second = sim.snapshot(2);
    assert_eq!(sim.hash(), before);
    assert_eq!(first.nonce, 1);
    assert_eq!(second.nonce, 2);
    assert_eq!(first.time, second.time);
    assert_eq!(first.status, second.status);
    assert_eq!(first.ships, second.ships);
    assert_eq!(first.bullets, second.bullets);
    assert_eq!(first.scenario_lines, second.scenario_lines);
    assert_eq!(first.debug_lines, second.debug_lines);
    assert_eq!(first.hits, second.hits);
    assert_eq!(first.ships_destroyed, second.ships_destroyed);
    assert_eq!(first.errors.len(), second.errors.len());
    assert_eq!(first.errors[0].msg, second.errors[0].msg);
    assert_eq!(first.cheats, second.cheats);
}

#[test]
fn snapshot_projects_the_world() {
    let mut sim = Sim::new("range", 5, "fail");
    sim.event_collector().handle_collision_event(CollisionEvent::Started(Some(2), Some(777)));
    sim.step();
    let snapshot = sim.snapshot(31);
    assert_eq!(snapshot.nonce, 31);
    assert_eq!(snapshot.time, 16_666_666);
    assert_eq!(snapshot.status, Status::Running);
    assert_eq!(snapshot.ships.len(), 1);
    assert_eq!(snapshot.ships[0].id, 0);
    assert_eq!(snapshot.ships[0].team, 0);
    assert_eq!(snapshot.ships[0].class, ShipClass::Fighter);
    assert_eq!(snapshot.ships[0].health, 100 * SCALE);
    assert_eq!(snapshot.ships[0].position, Vector2 { x: 0, y: 0 });
    assert_eq!(snapshot.bullets.len(), 1);
    assert_eq!(snapshot.bullets[0].position, Vector2 { x: 0, y: 0 });
    assert_eq!(snapshot.scenario_lines.len(), 1);
    assert_eq!(snapshot.scenario_lines[0].color, 1);
    assert_eq!(snapshot.errors.len(), 1);
    assert_eq!(snapshot.errors[0].origin, Origin::Ship(0));
    assert_eq!(snapshot.errors[0].msg, "fail");
    assert_eq!(snapshot.errors[0].line, 1);
    assert!(snapshot.hits.is_empty());
    assert!(!snapshot.cheats);
}

#[test]
fn equal_runs_give_equal_fingerprints_at_every_step() {
    let mut first = Sim::new("duel", 42, "third");
    let mut second = Sim::new("duel", 42, "third");
    let other = Sim::new("duel", 43, "third");
    assert_ne!(first.hash(), other.hash());
    for step in 0..20i64 {
        assert_eq!(first.hash(), second.hash());
        for sim in [&mut first, &mut second] {
            sim.ship_mut(ShipHandle(0)).set_body(body_at(step * SCALE, 3 * step)).unwrap();
            sim.step();
        }
    }
    assert_eq!(first.hash(), second.hash());
}

#[test]
fn mutable_views_reach_the_world_of_the_simulation() {
    let mut sim = Sim::new("range", 0, "");
    sim.ship_mut(ShipHandle(0)).set_health(5).unwrap();
    sim.bullet_mut(BulletHandle(1)).destroy();
    assert_eq!(sim.ship(ShipHandle(0)).data().unwrap().health, 5);
    assert!(!sim.bullet(BulletHandle(1)).is_live());
    assert!(sim.bullet(BulletHandle(2)).is_live());
    assert_eq!(sim.world().bullets().to_vec(), vec![2]);
}

#[test]
fn entities_can_be_added_between_steps() {
    let mut sim = Sim::new("empty", 0, "fail");
    let ship = sim.create_ship(fighter(0), body_at(1, 2)).unwrap();
    let bullet = sim.create_bullet(BulletData { team: 1, damage: 30 * SCALE }, body_at(3, 4)).unwrap();
    assert_eq!(ship, ShipHandle(0));
    assert_eq!(bullet, BulletHandle(1));
    sim.event_collector().handle_collision_event(CollisionEvent::Started(Some(1), Some(0)));
    sim.step();
    assert_eq!(sim.ship(ship).data().unwrap().health, 70 * SCALE);
    assert_eq!(sim.events().hits, vec![Vector2 { x: 3, y: 4 }]);
    assert_eq!(sim.events().errors.len(), 1);
}

#[test]
fn the_phases_of_a_step_can_be_run_one_by_one() {
    let mut sim = Sim::new("range", 0, "fail");
    sim.event_collector().handle_collision_event(CollisionEvent::Started(Some(2), Some(0)));
    sim.event_collector().handle_collision_event(CollisionEvent::Stopped(Some(2), Some(0)));
    sim.resolve_pending_collisions();
    assert!(!sim.bullet(BulletHandle(2)).is_live());
    assert!(sim.events().hits.is_empty());
    sim.resolve_pending_collisions();
    sim.run_agents();
    assert_eq!(sim.events().errors.len(), 1);
    sim.run_agents();
    assert_eq!(sim.events().errors.len(), 2);
    assert_eq!(sim.tick(), 0);
    sim.step_entities();
    assert_eq!(sim.events().errors.len(), 1);
    assert_eq!(sim.tick(), 0);
}

#[test]
fn installing_an_outcome_by_hand() {
    let mut sim = Sim::new("duel", 0, "");
    sim.install_team_controller(4, Ok(PlanTeam { plan: String::from("third") }));
    assert_eq!(sim.get_team_controller(4).unwrap().plan, "third");
    sim.install_team_controller(4, Err(Error { line: 2, msg: String::from("nope") }));
    assert_eq!(sim.get_team_controller(4).unwrap().plan, "third");
    assert_eq!(sim.events().errors.len(), 1);
    assert_eq!(sim.events().errors[0].origin, Origin::Team(4));
    assert_eq!(sim.events().errors[0].line, 2);
    assert_eq!(sim.events().errors[0].msg, "nope");
}

#[test]
fn cheats_show_in_the_snapshot() {
    let mut sim = Sim::new("duel", 0, "");
    assert!(!sim.cheats());
    sim.set_cheats(true);
    assert!(sim.cheats());
    let snapshot = sim.project(3, Status::Lost, vec![]);
    assert!(snapshot.cheats);
    assert_eq!(snapshot.status, Status::Lost);
    assert_eq!(snapshot.nonce, 3);
    assert!(snapshot.scenario_lines.is_empty());
    assert_eq!(snapshot.ships.len(), 2);
    assert_eq!(snapshot.ships[1].id, 1);
    assert_eq!(snapshot.ships[1].team, 1);
    assert_eq!(snapshot.ships[1].position, Vector2 { x: 1000 * SCALE, y: 0 });
}

#[test]
fn ships_without_agent_code_log_nothing() {
    let mut sim = Sim::new("duel", 0, "syntax error");
    sim.step();
    assert!(sim.events().errors.is_empty());
    sim.step();
    assert!(sim.events().errors.is_empty());
    assert!(sim.get_team_controller(0).is_none());
    assert!(sim.get_team_controller(1).is_none());
    assert_eq!(sim.tick(), 2);
}

#[test]
fn empty_code_and_the_no_op_source_run_alike() {
    let mut a = Sim::new("duel", 9, "");
    let mut b = Sim::new("duel", 9, NOOP_CODE);
    assert!(a.events().errors.is_empty());
    assert!(a.get_team_controller(0).is_some());
    assert_eq!(a.get_team_controller(0).unwrap().plan, b.get_team_controller(0).unwrap().plan);
    for _ in 0..5 {
        assert_eq!(a.hash(), b.hash());
        a.step();
        b.step();
        assert!(a.events().errors.is_empty());
    }
    assert_eq!(a.hash(), b.hash());
}

#[test]
fn every_ship_is_asked_once_a_step_in_registry_order_with_its_own_handle() {
    let mut sim = Sim::new("duel", 0, "who");
    sim.upload_code(1, "who");
    let third = sim.create_ship(fighter(1), body_at(0, 0)).unwrap();
    assert_eq!(third, ShipHandle(2));
    for turn in 1..=3 {
        sim.step();
        let said: Vec<&str> = sim.events().errors.iter().map(|e| e.msg.as_str()).collect();
        assert_eq!(
            said,
            vec![
                format!("ship 0 turn {}", turn),
                format!("ship 1 turn {}", turn),
                format!("ship 2 turn {}", turn),
            ]
        );
        let origins: Vec<Origin> = sim.events().errors.iter().map(|e| e.origin).collect();
        assert_eq!(origins, vec![Origin::Ship(0), Origin::Ship(1), Origin::Ship(2)]);
    }
}

#[test]
fn a_team_is_asked_for_a_controller_with_the_handle_of_the_ship() {
    let mut sim = Sim::new("duel", 0, "");
    sim.upload_code(1, "no ships");
    sim.step();
    assert_eq!(sim.events().errors.len(), 1);
    assert_eq!(sim.events().errors[0].origin, Origin::Ship(1));
    assert_eq!(sim.events().errors[0].msg, "no controller for ship 1");
}
