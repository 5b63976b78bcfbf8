use vstd::prelude::*;

verus! {

/// A time axis inside a universe, on which events are placed.
#[derive(Debug)]
pub struct Timeline {
    pub id: i64,
    pub author_id: i64,
    pub description: String,
    pub start: i64,
    pub end: i64,
    pub unit: String,
    pub universe_name: String,
}

impl Clone for Timeline {
    /// An exact copy: every field of the copy equals the original's.
    fn clone(&self) -> (r: Self)
        ensures
            r == *self,
    {
        Timeline {
            id: self.id,
            author_id: self.author_id,
            description: self.description.clone(),
            start: self.start,
            end: self.end,
            unit: self.unit.clone(),
            universe_name: self.universe_name.clone(),
        }
    }
}

/// The mathematical content of a [`Timeline`].
#[verifier::ext_equal]
pub ghost struct TimelineView {
    pub id: int,
    pub author_id: int,
    pub description: Seq<char>,
    pub start: int,
    pub end: int,
    pub unit: Seq<char>,
    pub universe_name: Seq<char>,
}

impl View for Timeline {
    type V = TimelineView;

    open spec fn view(&self) -> TimelineView {
        TimelineView {
            id: self.id as int,
            author_id: self.author_id as int,
            description: self.description@,
            start: self.start as int,
            end: self.end as int,
            unit: self.unit@,
            universe_name: self.universe_name@,
        }
    }
}

} // verus!
