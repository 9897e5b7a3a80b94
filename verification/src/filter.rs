//! The pure event filter: up to four optional equality constraints on an
//! event's match keys. An unset constraint imposes no restriction; a set
//! constraint requires exact equality with the corresponding event field.

use vstd::prelude::*;
use crate::event::{decode_event, parse_event, DecodeError, Event, EventView};

verus! {

/// The user-specified constraints an event must satisfy to be forwarded.
#[derive(Clone, Copy, Debug)]
pub struct EventFilter {
    pub group: Option<u32>,
    pub unit: Option<u32>,
    pub id: Option<u32>,
    pub channel: Option<u32>,
}

/// A single optional constraint is satisfied when it is unset, or set to
/// exactly the field's value.
pub open spec fn constraint_holds(constraint: Option<u32>, field: u32) -> bool {
    match constraint {
        Some(v) => v == field,
        None => true,
    }
}

/// An event is forwarded iff every constraint that is set matches the
/// corresponding field exactly; unset constraints impose no restriction.
pub open spec fn forwards(f: EventFilter, e: EventView) -> bool {
    &&& constraint_holds(f.group, e.group)
    &&& constraint_holds(f.unit, e.unit)
    &&& constraint_holds(f.id, e.id)
    &&& constraint_holds(f.channel, e.channel)
}

impl EventFilter {
    /// The filter with no constraints set: it forwards every event.
    pub fn unrestricted() -> (r: EventFilter)
        ensures
            r.group is None,
            r.unit is None,
            r.id is None,
            r.channel is None,
            forall|e: EventView| forwards(r, e),
    {
        EventFilter { group: None, unit: None, id: None, channel: None }
    }

    /// Decide whether `e` is forwarded. Performs no side effects and keeps no
    /// state across calls.
    pub fn matches(&self, e: &Event) -> (r: bool)
        ensures
            r == forwards(*self, e@),
    {
        let group_ok = match self.group {
            Some(v) => v == e.group,
            None => true,
        };
        let unit_ok = match self.unit {
            Some(v) => v == e.unit,
            None => true,
        };
        let id_ok = match self.id {
            Some(v) => v == e.id,
            None => true,
        };
        let channel_ok = match self.channel {
            Some(v) => v == e.channel,
            None => true,
        };
        group_ok && unit_ok && id_ok && channel_ok
    }
}

/// What the intake does with one line of the decoder's output.
#[derive(Debug)]
pub enum IntakeOutcome {
    /// The line decoded and satisfies every set constraint: hand the event to
    /// the supervisor.
    Forward(Event),
    /// The line decoded but some set constraint does not match: the event is
    /// discarded, successfully.
    Dropped,
    /// The line does not decode: fatal for the whole pipeline.
    Failed(DecodeError),
}

/// One step of the intake pipeline: decode a line, then filter the event.
pub fn process_line(line: &str, filter: &EventFilter) -> (r: IntakeOutcome)
    ensures
        match r {
            IntakeOutcome::Forward(e) => parse_event(line@) == Some(e@) && forwards(*filter, e@),
            IntakeOutcome::Dropped => match parse_event(line@) {
                Some(ev) => !forwards(*filter, ev),
                None => false,
            },
            IntakeOutcome::Failed(_) => parse_event(line@) is None,
        },
{
    match decode_event(line) {
        Err(e) => IntakeOutcome::Failed(e),
        Ok(ev) => if filter.matches(&ev) {
            IntakeOutcome::Forward(ev)
        } else {
            IntakeOutcome::Dropped
        },
    }
}

} // verus!
