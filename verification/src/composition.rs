//! What the three composition strategies have in common: how the outcomes of
//! children add up.

use crate::common::{has_escalation, Event, Outcome};
use vstd::prelude::*;

verus! {

/// Whether the outcome is a success none of whose events escalates.
pub open spec fn is_calm(outcome: Outcome) -> bool {
    outcome matches Ok(events) && !has_escalation(events)
}

/// The events of the outcomes that succeeded, in the order of the outcomes.
pub open spec fn events_of(outcomes: Seq<Outcome>) -> Seq<Event>
    decreases outcomes.len(),
{
    if outcomes.len() == 0 {
        Seq::<Event>::empty()
    } else {
        match outcomes.last() {
            Ok(events) => events_of(outcomes.drop_last()) + events,
            Err(_) => events_of(outcomes.drop_last()),
        }
    }
}

} // verus!
