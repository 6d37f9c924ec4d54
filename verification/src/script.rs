//! The boundary to agent code: what a controller is asked, and what it may
//! answer.

use vstd::prelude::*;
use crate::ship::ShipHandle;

verus! {

/// Source text installed for a team that uploads nothing.
pub const NOOP_CODE: &'static str = "fn tick(){}";

/// The source text that is compiled for the uploaded text `code`: the text
/// itself, or that of the agent that does nothing where `code` is empty.
pub open spec fn source_of(code: Seq<char>) -> Seq<char> {
    if code.len() == 0 {
        NOOP_CODE@
    } else {
        code
    }
}

/// Picks the source text to compile for `code`. See [`source_of`].
pub fn agent_source<'a>(code: &'a str) -> (source: &'a str)
    ensures
        source@ == source_of(code@),
{
    if code.is_empty() {
        NOOP_CODE
    } else {
        code
    }
}

/// What a controller reports when it fails.
#[derive(Debug)]
pub struct Error {
    pub line: usize,
    pub msg: String,
}

/// The outcome of a turn that ended with the given failure, if any.
pub open spec fn outcome_of(failure: Option<Error>) -> Result<(), Error> {
    match failure {
        Some(e) => Err(e),
        None => Ok(()),
    }
}

/// Agent logic bound to one ship, invoked once per step.
///
/// The simulation promises nothing about an implementation and relies on
/// nothing but the value it returns.
pub trait ShipController: Sized {
    /// What one turn of this controller does, as a relation between the
    /// controller before, the controller after and what it answered. A
    /// controller that says nothing of its turn keeps this relation, which
    /// holds of everything; the library relies on none of it and uses it to
    /// say which controller was asked and that its answer was handed on.
    open spec fn ticked(before: Self, after: Self, outcome: Result<(), Error>) -> bool {
        true
    }

    fn tick(&mut self) -> (outcome: Result<(), Error>)
        ensures
            Self::ticked(*old(self), *final(self), outcome),
    ;
}

/// Agent logic shared by the ships of one team.
///
/// The simulation promises nothing about an implementation and relies on
/// nothing but the values it returns.
pub trait TeamController: Sized {
    type Ship: ShipController;

    /// What compiling does, as a relation between a source text and the
    /// outcome of compiling it. A runtime that says nothing of its compiler
    /// keeps this relation, which holds of everything; the library relies on
    /// none of it and uses it to say which text was compiled.
    open spec fn compiled(source: Seq<char>, outcome: Result<Self, Error>) -> bool {
        true
    }

    /// Builds the controller of a team from its source text.
    fn compile(code: &str) -> (outcome: Result<Self, Error>)
        ensures
            Self::compiled(code@, outcome),
    ;

    /// What building a ship's controller does, as a relation between the
    /// team's code before, the handle it was given, the team's code after
    /// and what it answered. Like [`TeamController::compiled`], it holds of
    /// everything unless a runtime says more.
    open spec fn built(
        before: Self,
        handle: ShipHandle,
        after: Self,
        outcome: Result<Self::Ship, Error>,
    ) -> bool {
        true
    }

    /// Builds the controller of one ship of the team.
    fn create_ship_controller(&mut self, handle: ShipHandle) -> (outcome: Result<Self::Ship, Error>)
        ensures
            Self::built(*old(self), handle, *final(self), outcome),
    ;
}

} // verus!
