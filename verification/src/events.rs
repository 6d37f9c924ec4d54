//! The per-step log of what happened: agent errors, hits, destructions and
//! debug geometry.

use vstd::prelude::*;
use std::collections::BTreeMap;
use crate::units::Vector2;

verus! {

/// Who an agent error is attributed to.
#[derive(Clone, Copy, PartialEq, Eq, Structural, Debug)]
pub enum Origin {
    /// The controller of the ship with this index.
    Ship(u64),
    /// The controller, or the uploaded code, of this team.
    Team(i32),
}

/// A failure of agent code, as recorded in the log.
#[derive(Debug)]
pub struct AgentError {
    pub origin: Origin,
    pub line: usize,
    pub msg: String,
}

/// A coloured line segment drawn over the world.
#[derive(Clone, Copy, PartialEq, Eq, Structural, Debug)]
pub struct Line {
    pub a: Vector2,
    pub b: Vector2,
    /// Red, green, blue and alpha, one byte each.
    pub color: u32,
}

/// Everything observable that happened during one step.
pub struct SimEvents {
    pub errors: Vec<AgentError>,
    pub hits: Vec<Vector2>,
    pub ships_destroyed: Vec<Vector2>,
    pub debug_lines: BTreeMap<u64, Vec<Line>>,
}

/// Mathematical content of a [`SimEvents`].
pub struct EventsView {
    pub errors: Seq<AgentError>,
    pub hits: Seq<Vector2>,
    pub ships_destroyed: Seq<Vector2>,
    pub debug_lines: Map<u64, Seq<Line>>,
}

impl EventsView {
    /// The log in which nothing has happened.
    pub open spec fn empty() -> EventsView {
        EventsView {
            errors: Seq::empty(),
            hits: Seq::empty(),
            ships_destroyed: Seq::empty(),
            debug_lines: Map::empty(),
        }
    }

    /// The debug lines drawn so far for `ship`.
    pub open spec fn lines_of(self, ship: u64) -> Seq<Line> {
        if self.debug_lines.contains_key(ship) {
            self.debug_lines[ship]
        } else {
            Seq::empty()
        }
    }

    /// The log after `lines` were drawn for `ship`.
    pub open spec fn with_debug_lines(self, ship: u64, lines: Seq<Line>) -> EventsView {
        EventsView { debug_lines: self.debug_lines.insert(ship, self.lines_of(ship) + lines), ..self }
    }

    /// The log after one more agent error.
    pub open spec fn with_error(self, e: AgentError) -> EventsView {
        EventsView { errors: self.errors.push(e), ..self }
    }
}

impl View for SimEvents {
    type V = EventsView;

    open spec fn view(&self) -> EventsView {
        EventsView {
            errors: self.errors@,
            hits: self.hits@,
            ships_destroyed: self.ships_destroyed@,
            debug_lines: self.debug_lines@.map_values(|v: Vec<Line>| v@),
        }
    }
}

impl AgentError {
    /// A copy that holds the same origin, line and message.
    pub fn duplicate(&self) -> (e: AgentError)
        ensures
            e == *self,
    {
        AgentError { origin: self.origin, line: self.line, msg: self.msg.clone() }
    }
}

/// Copies a list of agent errors element by element.
pub fn duplicate_errors(errors: &Vec<AgentError>) -> (copy: Vec<AgentError>)
    ensures
        copy@ == errors@,
{
    let mut copy: Vec<AgentError> = Vec::new();
    let mut i: usize = 0;
    while i < errors.len()
        invariant
            i <= errors@.len(),
            copy@ == errors@.take(i as int),
        decreases errors@.len() - i,
    {
        copy.push(errors[i].duplicate());
        assert(errors@.take(i + 1) == errors@.take(i as int).push(errors@[i as int]));
        i += 1;
    }
    assert(errors@.take(i as int) == errors@);
    copy
}

impl SimEvents {
    pub fn new() -> (events: SimEvents)
        ensures
            events@ == EventsView::empty(),
    {
        let events = SimEvents {
            errors: Vec::new(),
            hits: Vec::new(),
            ships_destroyed: Vec::new(),
            debug_lines: BTreeMap::new(),
        };
        assert(events@.debug_lines =~= Map::<u64, Seq<Line>>::empty());
        events
    }

    /// Forgets everything that was recorded.
    pub fn clear(&mut self)
        ensures
            final(self)@ == EventsView::empty(),
    {
        self.errors.clear();
        self.hits.clear();
        self.ships_destroyed.clear();
        self.debug_lines.clear();
        assert(self@.debug_lines =~= Map::<u64, Seq<Line>>::empty());
    }

    /// Appends `lines` to the debug lines of `ship`.
    pub fn add_debug_lines(&mut self, ship: u64, lines: &[Line])
        ensures
            final(self)@ == old(self)@.with_debug_lines(ship, lines@),
    {
        let ghost before = self@;
        let mut drawn: Vec<Line> = match self.debug_lines.remove(&ship) {
            Some(v) => v,
            None => Vec::new(),
        };
        assert(drawn@ == before.lines_of(ship));
        let mut i: usize = 0;
        while i < lines.len()
            invariant
                i <= lines@.len(),
                drawn@ == before.lines_of(ship) + lines@.take(i as int),
            decreases lines@.len() - i,
        {
            drawn.push(lines[i]);
            assert(lines@.take(i + 1) == lines@.take(i as int).push(lines@[i as int]));
            i += 1;
        }
        assert(lines@.take(i as int) == lines@);
        self.debug_lines.insert(ship, drawn);
        assert(self@.debug_lines =~= before.with_debug_lines(ship, lines@).debug_lines);
    }
}

impl Default for SimEvents {
    fn default() -> (events: SimEvents)
        ensures
            events@ == EventsView::empty(),
    {
        SimEvents::new()
    }
}

} // verus!
