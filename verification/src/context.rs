//! Which Herdr status events start the naming of a pane: transitions to `working`.
//!
//! The event is JSON; its `data` names the pane in `pane_id` and its new status in
//! `agent_status`. Reading the JSON into an `EventEnvelope` is serde's work and happens
//! where the event is received; the decision is taken here.

use vstd::prelude::*;
use crate::text::same_chars;

verus! {

/// The `data` of a status event.
pub struct EventData {
    pub pane_id: String,
    pub agent_status: String,
}

/// A status event.
pub struct EventEnvelope {
    pub data: EventData,
}

/// A pane whose agent just started working.
#[derive(Debug, PartialEq, Eq)]
pub struct Eligible {
    pub pane_id: String,
}

impl DeepView for Eligible {
    type V = Seq<char>;

    open spec fn deep_view(&self) -> Seq<char> {
        self.pane_id@
    }
}

/// The pane that a status event makes eligible; `None` stands for text that is not a
/// status event.
pub open spec fn spec_evaluate(event: Option<EventEnvelope>) -> Option<Seq<char>> {
    match event {
        Some(e) => if e.data.agent_status@ == "working"@ {
            Some(e.data.pane_id@)
        } else {
            None
        },
        None => None,
    }
}

/// The pane that a status event makes eligible: its agent status changed to exactly
/// `working`. Any other status, and text that is not a status event (`None`), give
/// `None`.
pub fn evaluate(event: Option<EventEnvelope>) -> (r: Option<Eligible>)
    ensures
        r.deep_view() == spec_evaluate(event),
{
    match event {
        Some(e) => {
            if same_chars(e.data.agent_status.as_str(), "working") {
                Some(Eligible { pane_id: e.data.pane_id })
            } else {
                None
            }
        },
        None => None,
    }
}

} // verus!
