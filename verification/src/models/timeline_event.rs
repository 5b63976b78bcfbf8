use vstd::prelude::*;

verus! {

/// A child-link placing an event on a timeline, keyed by
/// `(timeline_id, event_id)` and carrying a `position`.
#[derive(Clone, Copy, Debug, PartialEq, Eq, Structural)]
pub struct TimelineEvent {
    pub timeline_id: i64,
    pub event_id: i64,
    pub position: i64,
}

} // verus!
