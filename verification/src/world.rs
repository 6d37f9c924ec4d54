//! The entity state of the simulation: which ships and bullets are live, what
//! is known of each, and what happened to them during the current step.

use vstd::prelude::*;
use std::collections::HashMap;
use crate::bullet::{BulletData, BulletHandle, BulletState};
use crate::collision::CollisionEvent;
use crate::events::{AgentError, Line, Origin, SimEvents};
use crate::index_set::IndexSet;
use crate::model::{
    lemma_hit_keeps_wf, lemma_removal_keeps_wf, struck, strike_destroys, WorldView,
};
use crate::script::Error;
use crate::ship::{Body, ShipData, ShipHandle, ShipState, StaleHandle};
use crate::units::saturating_sub;

verus! {

/// Ships, bullets and the event log of the current step.
///
/// This is the part of the simulation that a scenario may read and change.
pub struct World {
    ships: IndexSet,
    ship_data: HashMap<u64, ShipState>,
    bullets: IndexSet,
    bullet_data: HashMap<u64, BulletState>,
    retired: Vec<u64>,
    next_index: u64,
    events: SimEvents,
    cheats: bool,
}

impl View for World {
    type V = WorldView;

    closed spec fn view(&self) -> WorldView {
        WorldView {
            ships: self.ships@,
            ship_data: self.ship_data@,
            bullets: self.bullets@,
            bullet_data: self.bullet_data@,
            retired: self.retired@,
            next_index: self.next_index,
            events: self.events@,
            cheats: self.cheats,
        }
    }
}

/// A read-only view of one ship, scoped by its handle.
pub struct ShipAccessor<'a> {
    pub world: &'a World,
    pub handle: ShipHandle,
}

/// A read-only view of one bullet, scoped by its handle.
pub struct BulletAccessor<'a> {
    pub world: &'a World,
    pub handle: BulletHandle,
}

/// Exclusive access to one ship, scoped by its handle and used up by one
/// operation.
pub struct ShipAccessorMut<'a> {
    pub world: &'a mut World,
    pub handle: ShipHandle,
}

/// Exclusive access to one bullet, scoped by its handle and used up by one
/// operation.
pub struct BulletAccessorMut<'a> {
    pub world: &'a mut World,
    pub handle: BulletHandle,
}

impl World {
    /// See [`WorldView::wf`].
    pub open spec fn wf(&self) -> bool {
        self@.wf()
    }

    /// Spells out the view field by field.
    proof fn lemma_view(&self)
        ensures
            self@.ships == self.ships@,
            self@.ship_data == self.ship_data@,
            self@.bullets == self.bullets@,
            self@.bullet_data == self.bullet_data@,
            self@.retired == self.retired@,
            self@.next_index == self.next_index,
            self@.events == self.events@,
            self@.cheats == self.cheats,
    {
    }

    pub fn new() -> (world: World)
        ensures
            world.wf(),
            world@ == WorldView::empty(),
    {
        World {
            ships: IndexSet::new(),
            ship_data: HashMap::new(),
            bullets: IndexSet::new(),
            bullet_data: HashMap::new(),
            retired: Vec::new(),
            next_index: 0,
            events: SimEvents::new(),
            cheats: false,
        }
    }

    /// The registry of live ships.
    pub fn ships(&self) -> (set: &IndexSet)
        ensures
            set@ == self@.ships,
    {
        &self.ships
    }

    /// The registry of live bullets.
    pub fn bullets(&self) -> (set: &IndexSet)
        ensures
            set@ == self@.bullets,
    {
        &self.bullets
    }

    pub fn cheats(&self) -> (on: bool)
        ensures
            on == self@.cheats,
    {
        self.cheats
    }

    pub fn set_cheats(&mut self, on: bool)
        ensures
            final(self)@ == (WorldView { cheats: on, ..old(self)@ }),
    {
        self.cheats = on;
    }

    /// Adds a ship and hands out its handle, or `None` once every index has
    /// been used.
    pub fn create_ship(&mut self, data: ShipData, body: Body) -> (handle: Option<ShipHandle>)
        requires
            old(self).wf(),
        ensures
            final(self).wf(),
            match handle {
                Some(h) => {
                    &&& old(self)@.next_index < u64::MAX
                    &&& h.0 == old(self)@.next_index
                    &&& final(self)@ == old(self)@.with_ship(ShipState { data, body })
                },
                None => old(self)@.next_index == u64::MAX && final(self)@ == old(self)@,
            },
    {
        if self.next_index == u64::MAX {
            return None;
        }
        let index: u64 = self.next_index;
        proof {
            self.lemma_view();
        }
        self.ships.insert(index);
        self.ship_data.insert(index, ShipState { data, body });
        self.next_index = index + 1;
        assert(self@.wf()) by {
            assert(old(self)@.wf());
            old(self).lemma_view();
            assert forall|k: u64| self.ships@.contains(k) <==> #[trigger] self.ship_data@.contains_key(
                k,
            ) by {
                if k != index {
                    assert(old(self).ships@.contains(k) <==> old(self).ship_data@.contains_key(k));
                    assert(self.ships@.contains(k) <==> old(self).ships@.contains(k)) by {
                        if old(self).ships@.contains(k) {
                            let i = choose|i: int|
                                0 <= i < old(self).ships@.len() && old(self).ships@[i] == k;
                            assert(self.ships@[i] == k);
                        }
                    }
                } else {
                    assert(self.ships@[self.ships@.len() - 1] == index);
                }
            }
            assert(!old(self).bullet_data@.contains_key(index));
        }
        Some(ShipHandle(index))
    }

    /// Adds a bullet and hands out its handle, or `None` once every index has
    /// been used.
    pub fn create_bullet(&mut self, data: BulletData, body: Body) -> (handle: Option<BulletHandle>)
        requires
            old(self).wf(),
        ensures
            final(self).wf(),
            match handle {
                Some(h) => {
                    &&& old(self)@.next_index < u64::MAX
                    &&& h.0 == old(self)@.next_index
                    &&& final(self)@ == old(self)@.with_bullet(BulletState { data, body })
                },
                None => old(self)@.next_index == u64::MAX && final(self)@ == old(self)@,
            },
    {
        if self.next_index == u64::MAX {
            return None;
        }
        let index: u64 = self.next_index;
        proof {
            self.lemma_view();
        }
        self.bullets.insert(index);
        self.bullet_data.insert(index, BulletState { data, body });
        self.next_index = index + 1;
        assert(self@.wf()) by {
            assert(old(self)@.wf());
            old(self).lemma_view();
            assert forall|k: u64| self.bullets@.contains(k) <==> #[trigger] self.bullet_data@.contains_key(
                k,
            ) by {
                if k != index {
                    assert(old(self).bullets@.contains(k) <==> old(self).bullet_data@.contains_key(
                        k,
                    ));
                    assert(self.bullets@.contains(k) <==> old(self).bullets@.contains(k)) by {
                        if old(self).bullets@.contains(k) {
                            let i = choose|i: int|
                                0 <= i < old(self).bullets@.len() && old(self).bullets@[i] == k;
                            assert(self.bullets@[i] == k);
                        }
                    }
                } else {
                    assert(self.bullets@[self.bullets@.len() - 1] == index);
                }
            }
            assert(!old(self).ship_data@.contains_key(index));
        }
        Some(BulletHandle(index))
    }

    /// The stored state of a ship, or the error for a handle that names none.
    pub fn ship_state(&self, handle: ShipHandle) -> (r: Result<ShipState, StaleHandle>)
        requires
            self.wf(),
        ensures
            match r {
                Ok(s) => self@.ships.contains(handle.0) && s == self@.ship_data[handle.0],
                Err(e) => !self@.ships.contains(handle.0) && e.index == handle.0,
            },
    {
        proof {
            self.lemma_view();
        }
        match self.ship_data.get(&handle.0) {
            Some(s) => Ok(*s),
            None => Err(StaleHandle { index: handle.0 }),
        }
    }

    /// The stored state of a bullet, or the error for a handle that names none.
    pub fn bullet_state(&self, handle: BulletHandle) -> (r: Result<BulletState, StaleHandle>)
        requires
            self.wf(),
        ensures
            match r {
                Ok(b) => self@.bullets.contains(handle.0) && b == self@.bullet_data[handle.0],
                Err(e) => !self@.bullets.contains(handle.0) && e.index == handle.0,
            },
    {
        proof {
            self.lemma_view();
        }
        match self.bullet_data.get(&handle.0) {
            Some(b) => Ok(*b),
            None => Err(StaleHandle { index: handle.0 }),
        }
    }

    /// Replaces the stored state of a live ship.
    fn put_ship(&mut self, index: u64, state: ShipState)
        requires
            old(self).wf(),
            old(self)@.ships.contains(index),
        ensures
            final(self).wf(),
            final(self)@ == old(self)@.with_ship_state(index, state),
    {
        proof {
            self.lemma_view();
        }
        self.ship_data.insert(index, state);
        proof {
            self.lemma_view();
            assert(self@.ship_data =~= old(self)@.ship_data.insert(index, state));
            assert(old(self)@.ship_data.contains_key(index));
        }
    }

    /// Replaces the stored state of a live bullet.
    fn put_bullet(&mut self, index: u64, state: BulletState)
        requires
            old(self).wf(),
            old(self)@.bullets.contains(index),
        ensures
            final(self).wf(),
            final(self)@ == old(self)@.with_bullet_state(index, state),
    {
        proof {
            self.lemma_view();
        }
        self.bullet_data.insert(index, state);
        proof {
            self.lemma_view();
            assert(self@.bullet_data =~= old(self)@.bullet_data.insert(index, state));
            assert(old(self)@.bullet_data.contains_key(index));
        }
    }

    /// Removes a ship from the world and lists it as retired. A handle that
    /// names no live ship changes nothing.
    pub fn remove_ship(&mut self, handle: ShipHandle)
        requires
            old(self).wf(),
        ensures
            final(self).wf(),
            final(self)@ == old(self)@.without_ship(handle.0),
    {
        proof {
            self.lemma_view();
            lemma_removal_keeps_wf(self@, handle.0);
        }
        if self.ships.remove(handle.0) {
            self.ship_data.remove(&handle.0);
            self.retired.push(handle.0);
        }
        proof {
            self.lemma_view();
            assert(self@.ship_data =~= old(self)@.without_ship(handle.0).ship_data);
        }
    }

    /// Removes a bullet from the world and lists it as retired. A handle that
    /// names no live bullet changes nothing.
    pub fn remove_bullet(&mut self, handle: BulletHandle)
        requires
            old(self).wf(),
        ensures
            final(self).wf(),
            final(self)@ == old(self)@.without_bullet(handle.0),
    {
        proof {
            self.lemma_view();
            lemma_removal_keeps_wf(self@, handle.0);
        }
        if self.bullets.remove(handle.0) {
            self.bullet_data.remove(&handle.0);
            self.retired.push(handle.0);
        }
        proof {
            self.lemma_view();
            assert(self@.bullet_data =~= old(self)@.without_bullet(handle.0).bullet_data);
        }
    }

    /// Applies the rules of combat to a bullet that met a ship. See
    /// [`WorldView::after_hit`]. Where either handle names no live entity,
    /// nothing changes.
    pub fn handle_hit(&mut self, ship: ShipHandle, bullet: BulletHandle)
        requires
            old(self).wf(),
        ensures
            final(self).wf(),
            final(self)@ == if old(self)@.ships.contains(ship.0) && old(self)@.bullets.contains(
                bullet.0,
            ) {
                old(self)@.after_hit(ship.0, bullet.0)
            } else {
                old(self)@
            },
    {
        proof {
            self.lemma_view();
            if self@.ships.contains(ship.0) && self@.bullets.contains(bullet.0) {
                lemma_hit_keeps_wf(self@, ship.0, bullet.0);
            }
        }
        let s = match self.ship_state(ship) {
            Ok(s) => s,
            Err(_) => {
                return ;
            },
        };
        let b = match self.bullet_state(bullet) {
            Ok(b) => b,
            Err(_) => {
                return ;
            },
        };
        if b.data.team == s.data.team {
            self.remove_bullet(bullet);
            return ;
        }
        let health: i64 = saturating_sub(s.data.health, b.data.damage);
        let down = health <= 0;
        let was_down = s.data.destroyed && s.data.health <= 0;
        if down && !was_down {
            self.events.ships_destroyed.push(s.body.position);
        }
        self.events.hits.push(b.body.position);
        let hurt = ShipState {
            data: ShipData {
                team: s.data.team,
                class: s.data.class,
                health,
                destroyed: s.data.destroyed || down,
            },
            body: s.body,
        };
        assert(hurt == struck(s, b.data.damage));
        assert(down && !was_down <==> strike_destroys(s, b.data.damage));
        proof {
            self.lemma_view();
        }
        self.put_ship(ship.0, hurt);
        self.remove_bullet(bullet);
    }

    /// Resolves one collision report. See [`WorldView::after_collision`].
    pub fn resolve_collision(&mut self, event: CollisionEvent)
        requires
            old(self).wf(),
        ensures
            final(self).wf(),
            final(self)@ == old(self)@.after_collision(event),
    {
        proof {
            self.lemma_view();
        }
        if let CollisionEvent::Started(Some(first), Some(second)) = event {
            if self.bullets.contains(first) {
                if self.ships.contains(second) {
                    self.handle_hit(ShipHandle(second), BulletHandle(first));
                } else {
                    self.remove_bullet(BulletHandle(first));
                }
            } else if self.bullets.contains(second) {
                if self.ships.contains(first) {
                    self.handle_hit(ShipHandle(first), BulletHandle(second));
                } else {
                    self.remove_bullet(BulletHandle(second));
                }
            }
        }
    }

    /// Runs the entity logic of one ship: a ship marked destroyed leaves the
    /// world.
    pub fn tick_ship(&mut self, handle: ShipHandle)
        requires
            old(self).wf(),
        ensures
            final(self).wf(),
            final(self)@ == old(self)@.after_ship_tick(handle.0),
    {
        let destroyed = match self.ship_state(handle) {
            Ok(s) => s.data.destroyed,
            Err(_) => false,
        };
        if destroyed {
            self.remove_ship(handle);
        }
    }

    /// Closes the turn of one ship: logs the failure of its agent, if any,
    /// under the ship's name, then runs the ship's entity logic.
    pub fn finish_agent(&mut self, ship: ShipHandle, failure: Option<Error>)
        requires
            old(self).wf(),
        ensures
            final(self).wf(),
            final(self)@ == old(self)@.after_agent(ship.0, failure),
    {
        if let Some(e) = failure {
            self.record_error(AgentError { origin: Origin::Ship(ship.0), line: e.line, msg: e.msg });
        }
        self.tick_ship(ship);
    }

    /// The log of the current step.
    pub fn events(&self) -> (events: &SimEvents)
        ensures
            events@ == self@.events,
    {
        &self.events
    }

    /// Empties the log.
    pub fn clear_events(&mut self)
        ensures
            final(self)@ == old(self)@.with_cleared_events(),
    {
        self.events.clear();
    }

    /// Appends `lines` to the debug lines of `ship`.
    pub fn emit_debug_lines(&mut self, ship: ShipHandle, lines: &[Line])
        ensures
            final(self)@ == (WorldView {
                events: old(self)@.events.with_debug_lines(ship.0, lines@),
                ..old(self)@
            }),
    {
        self.events.add_debug_lines(ship.0, lines);
    }

    /// Appends an agent error to the log.
    pub fn record_error(&mut self, error: AgentError)
        ensures
            final(self)@ == (WorldView {
                events: old(self)@.events.with_error(error),
                ..old(self)@
            }),
    {
        self.events.errors.push(error);
    }

    /// Hands over the indices of the entities removed since the last call, for
    /// the physics world to drop their bodies.
    pub fn take_retired(&mut self) -> (retired: Vec<u64>)
        ensures
            retired@ == old(self)@.retired,
            final(self)@ == old(self)@.with_retired_taken(),
    {
        let mut taken: Vec<u64> = Vec::new();
        taken.append(&mut self.retired);
        taken
    }

    pub fn ship(&self, handle: ShipHandle) -> (a: ShipAccessor<'_>)
        ensures
            *a.world == *self,
            a.handle == handle,
    {
        ShipAccessor { world: self, handle }
    }

    pub fn bullet(&self, handle: BulletHandle) -> (a: BulletAccessor<'_>)
        ensures
            *a.world == *self,
            a.handle == handle,
    {
        BulletAccessor { world: self, handle }
    }
}

impl World {
    pub fn ship_mut(&mut self, handle: ShipHandle) -> (a: ShipAccessorMut<'_>)
        ensures
            *a.world == *old(self),
            a.handle == handle,
            *final(self) == *final(a.world),
    {
        ShipAccessorMut { world: self, handle }
    }

    pub fn bullet_mut(&mut self, handle: BulletHandle) -> (a: BulletAccessorMut<'_>)
        ensures
            *a.world == *old(self),
            a.handle == handle,
            *final(self) == *final(a.world),
    {
        BulletAccessorMut { world: self, handle }
    }
}

impl<'a> ShipAccessorMut<'a> {
    /// Stores what the physics world reports of the ship's body.
    pub fn set_body(self, body: Body) -> (r: Result<(), StaleHandle>)
        requires
            old(self.world).wf(),
        ensures
            final(self.world).wf(),
            r is Ok <==> old(self.world)@.ships.contains(self.handle.0),
            r matches Err(e) ==> e.index == self.handle.0,
            final(self.world)@ == old(self.world)@.with_ship_state(
                self.handle.0,
                ShipState { body, ..old(self.world)@.ship_data[self.handle.0] },
            ),
    {
        match self.world.ship_state(self.handle) {
            Ok(s) => {
                self.world.put_ship(self.handle.0, ShipState { data: s.data, body });
                Ok(())
            },
            Err(e) => Err(e),
        }
    }

    /// Sets the ship's health outright, as a scenario may.
    pub fn set_health(self, health: i64) -> (r: Result<(), StaleHandle>)
        requires
            old(self.world).wf(),
        ensures
            final(self.world).wf(),
            r is Ok <==> old(self.world)@.ships.contains(self.handle.0),
            r matches Err(e) ==> e.index == self.handle.0,
            final(self.world)@ == old(self.world)@.with_ship_state(
                self.handle.0,
                ShipState {
                    data: ShipData { health, ..old(self.world)@.ship_data[self.handle.0].data },
                    ..old(self.world)@.ship_data[self.handle.0]
                },
            ),
    {
        match self.world.ship_state(self.handle) {
            Ok(s) => {
                let data = ShipData {
                    team: s.data.team,
                    class: s.data.class,
                    health,
                    destroyed: s.data.destroyed,
                };
                self.world.put_ship(self.handle.0, ShipState { data, body: s.body });
                Ok(())
            },
            Err(e) => Err(e),
        }
    }

    /// Marks the ship destroyed; it leaves the world at its next entity tick.
    pub fn destroy(self) -> (r: Result<(), StaleHandle>)
        requires
            old(self.world).wf(),
        ensures
            final(self.world).wf(),
            r is Ok <==> old(self.world)@.ships.contains(self.handle.0),
            r matches Err(e) ==> e.index == self.handle.0,
            final(self.world)@ == old(self.world)@.with_ship_state(
                self.handle.0,
                ShipState {
                    data: ShipData {
                        destroyed: true,
                        ..old(self.world)@.ship_data[self.handle.0].data
                    },
                    ..old(self.world)@.ship_data[self.handle.0]
                },
            ),
    {
        match self.world.ship_state(self.handle) {
            Ok(s) => {
                let data = ShipData {
                    team: s.data.team,
                    class: s.data.class,
                    health: s.data.health,
                    destroyed: true,
                };
                self.world.put_ship(self.handle.0, ShipState { data, body: s.body });
                Ok(())
            },
            Err(e) => Err(e),
        }
    }

    /// Runs the ship's entity logic. See [`WorldView::after_ship_tick`].
    pub fn tick(self)
        requires
            old(self.world).wf(),
        ensures
            final(self.world).wf(),
            final(self.world)@ == old(self.world)@.after_ship_tick(self.handle.0),
    {
        self.world.tick_ship(self.handle);
    }
}

impl<'a> BulletAccessorMut<'a> {
    /// Stores what the physics world reports of the bullet's body.
    pub fn set_body(self, body: Body) -> (r: Result<(), StaleHandle>)
        requires
            old(self.world).wf(),
        ensures
            final(self.world).wf(),
            r is Ok <==> old(self.world)@.bullets.contains(self.handle.0),
            r matches Err(e) ==> e.index == self.handle.0,
            final(self.world)@ == old(self.world)@.with_bullet_state(
                self.handle.0,
                BulletState { body, ..old(self.world)@.bullet_data[self.handle.0] },
            ),
    {
        match self.world.bullet_state(self.handle) {
            Ok(b) => {
                self.world.put_bullet(self.handle.0, BulletState { data: b.data, body });
                Ok(())
            },
            Err(e) => Err(e),
        }
    }

    /// Removes the bullet from the world.
    pub fn destroy(self)
        requires
            old(self.world).wf(),
        ensures
            final(self.world).wf(),
            final(self.world)@ == old(self.world)@.without_bullet(self.handle.0),
    {
        self.world.remove_bullet(self.handle);
    }
}

impl<'a> ShipAccessor<'a> {
    /// Whether the handle names a live ship.
    pub fn is_live(&self) -> (live: bool)
        requires
            self.world.wf(),
        ensures
            live == self.world@.ships.contains(self.handle.0),
    {
        self.world.ship_state(self.handle).is_ok()
    }

    pub fn data(&self) -> (r: Result<ShipData, StaleHandle>)
        requires
            self.world.wf(),
        ensures
            match r {
                Ok(d) => self.world@.ships.contains(self.handle.0) && d
                    == self.world@.ship_data[self.handle.0].data,
                Err(e) => !self.world@.ships.contains(self.handle.0) && e.index
                    == self.handle.0,
            },
    {
        match self.world.ship_state(self.handle) {
            Ok(s) => Ok(s.data),
            Err(e) => Err(e),
        }
    }

    pub fn body(&self) -> (r: Result<Body, StaleHandle>)
        requires
            self.world.wf(),
        ensures
            match r {
                Ok(b) => self.world@.ships.contains(self.handle.0) && b
                    == self.world@.ship_data[self.handle.0].body,
                Err(e) => !self.world@.ships.contains(self.handle.0) && e.index
                    == self.handle.0,
            },
    {
        match self.world.ship_state(self.handle) {
            Ok(s) => Ok(s.body),
            Err(e) => Err(e),
        }
    }
}

impl<'a> BulletAccessor<'a> {
    /// Whether the handle names a live bullet.
    pub fn is_live(&self) -> (live: bool)
        requires
            self.world.wf(),
        ensures
            live == self.world@.bullets.contains(self.handle.0),
    {
        self.world.bullet_state(self.handle).is_ok()
    }

    pub fn data(&self) -> (r: Result<BulletData, StaleHandle>)
        requires
            self.world.wf(),
        ensures
            match r {
                Ok(d) => self.world@.bullets.contains(self.handle.0) && d
                    == self.world@.bullet_data[self.handle.0].data,
                Err(e) => !self.world@.bullets.contains(self.handle.0) && e.index
                    == self.handle.0,
            },
    {
        match self.world.bullet_state(self.handle) {
            Ok(b) => Ok(b.data),
            Err(e) => Err(e),
        }
    }

    pub fn body(&self) -> (r: Result<Body, StaleHandle>)
        requires
            self.world.wf(),
        ensures
            match r {
                Ok(b) => self.world@.bullets.contains(self.handle.0) && b
                    == self.world@.bullet_data[self.handle.0].body,
                Err(e) => !self.world@.bullets.contains(self.handle.0) && e.index
                    == self.handle.0,
            },
    {
        match self.world.bullet_state(self.handle) {
            Ok(b) => Ok(b.body),
            Err(e) => Err(e),
        }
    }
}

} // verus!
