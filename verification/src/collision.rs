//! Collision reports: how the physics world hands them over, and where they
//! wait until the simulation resolves them.

use vstd::prelude::*;
use crossbeam::channel::{Receiver, Sender};

verus! {

/// The sending half of a `crossbeam` channel. Nothing is known of its state.
#[verifier::external_type_specification]
#[verifier::external_body]
#[verifier::reject_recursive_types(T)]
pub struct ExSender<T>(Sender<T>);

/// The receiving half of a `crossbeam` channel. Nothing is known of its state.
#[verifier::external_type_specification]
#[verifier::external_body]
#[verifier::reject_recursive_types(T)]
pub struct ExReceiver<T>(Receiver<T>);

/// The index to report for a body that belongs to no entity, such as a wall.
/// No entity is ever given this index.
pub const NO_ENTITY: u64 = 0xffff_ffff_ffff_ffff;

/// A contact between two physics bodies. Each side carries the index of the
/// entity that owns the body, [`NO_ENTITY`] for a body that no entity owns,
/// or `None` where the physics world could not tell the body.
#[derive(Clone, Copy, PartialEq, Eq, Structural, Debug)]
pub enum CollisionEvent {
    Started(Option<u64>, Option<u64>),
    Stopped(Option<u64>, Option<u64>),
}

/// Receives collision reports from the physics world during its step and
/// queues them for the simulation.
pub struct CollisionEventHandler {
    collision_event_sender: Sender<CollisionEvent>,
}

impl CollisionEventHandler {
    pub fn new(collision_event_sender: Sender<CollisionEvent>) -> (handler: CollisionEventHandler)
        ensures
            handler.sender() == collision_event_sender,
    {
        CollisionEventHandler { collision_event_sender }
    }

    /// The sending half of the channel that the handler queues its reports on.
    pub closed spec fn sender(&self) -> Sender<CollisionEvent> {
        self.collision_event_sender
    }

    /// Queues one report. A report that the channel does not take is dropped.
    pub fn handle_collision_event(&self, event: CollisionEvent) {
        offer(&self.collision_event_sender, event);
    }
}

/// Calls `crossbeam::channel::unbounded`, which makes a channel without a
/// capacity limit. Nothing is claimed of the two halves.
#[verifier::external_body]
pub(crate) fn open_channel() -> (Sender<CollisionEvent>, Receiver<CollisionEvent>) {
    crossbeam::channel::unbounded()
}

/// Calls `Sender::try_send`, which never blocks, and discards its answer.
/// Nothing is claimed of the channel afterwards.
#[verifier::external_body]
fn offer(sender: &Sender<CollisionEvent>, event: CollisionEvent) {
    let _ = sender.try_send(event);
}

/// Calls `Receiver::len`: the number of messages waiting at this moment.
/// Nothing is claimed of the number.
#[verifier::external_body]
pub(crate) fn pending(receiver: &Receiver<CollisionEvent>) -> usize {
    receiver.len()
}

/// Calls `Receiver::try_recv`, which never blocks: the next waiting message,
/// or `None` when the channel is empty or disconnected. Nothing is claimed of
/// which it is.
#[verifier::external_body]
pub(crate) fn take_next(receiver: &Receiver<CollisionEvent>) -> Option<CollisionEvent> {
    match receiver.try_recv() {
        Ok(event) => Some(event),
        Err(_) => None,
    }
}

} // verus!
