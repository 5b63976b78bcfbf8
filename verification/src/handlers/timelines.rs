//! The timeline endpoints' decision core: creation, field-by-field
//! optional updates, and deletion against the timeline store.

use vstd::prelude::*;
use crate::error::ApiError;
use crate::handlers::merges::{spec_has_timeline, spec_timeline_index, TimelineStore};
use crate::models::event::opt_string_view;
use crate::models::timeline::{Timeline, TimelineView};

verus! {

/// Body of a create-timeline request.
#[derive(Debug)]
pub struct PostTimeline {
    pub author_id: i64,
    pub description: String,
    pub start: i64,
    pub end: i64,
    pub unit: String,
    pub universe_name: String,
}

/// The mathematical content of a [`PostTimeline`].
#[verifier::ext_equal]
pub ghost struct PostTimelineView {
    pub author_id: int,
    pub description: Seq<char>,
    pub start: int,
    pub end: int,
    pub unit: Seq<char>,
    pub universe_name: Seq<char>,
}

impl View for PostTimeline {
    type V = PostTimelineView;

    open spec fn view(&self) -> PostTimelineView {
        PostTimelineView {
            author_id: self.author_id as int,
            description: self.description@,
            start: self.start as int,
            end: self.end as int,
            unit: self.unit@,
            universe_name: self.universe_name@,
        }
    }
}

/// The timeline a create request produces once the store assigns `id`.
pub open spec fn timeline_from_post(p: PostTimelineView, id: int) -> TimelineView {
    TimelineView {
        id: id,
        author_id: p.author_id,
        description: p.description,
        start: p.start,
        end: p.end,
        unit: p.unit,
        universe_name: p.universe_name,
    }
}

/// Body of an update-timeline request: only supplied fields are changed;
/// `author_id` must name the timeline's author for the write to apply.
#[derive(Debug)]
pub struct UpdateTimeline {
    pub description: Option<String>,
    pub author_id: i64,
    pub start: Option<i64>,
    pub end: Option<i64>,
    pub unit: Option<String>,
    pub universe_name: Option<String>,
}

/// The mathematical content of an [`UpdateTimeline`].
#[verifier::ext_equal]
pub ghost struct UpdateTimelineView {
    pub description: Option<Seq<char>>,
    pub author_id: int,
    pub start: Option<int>,
    pub end: Option<int>,
    pub unit: Option<Seq<char>>,
    pub universe_name: Option<Seq<char>>,
}

pub open spec fn opt_i64_view(o: Option<i64>) -> Option<int> {
    match o {
        Some(v) => Some(v as int),
        None => None,
    }
}

impl View for UpdateTimeline {
    type V = UpdateTimelineView;

    open spec fn view(&self) -> UpdateTimelineView {
        UpdateTimelineView {
            description: opt_string_view(self.description),
            author_id: self.author_id as int,
            start: opt_i64_view(self.start),
            end: opt_i64_view(self.end),
            unit: opt_string_view(self.unit),
            universe_name: opt_string_view(self.universe_name),
        }
    }
}

/// Whether the update supplies at least one field.
pub open spec fn spec_has_timeline_update_fields(u: UpdateTimelineView) -> bool {
    u.description is Some || u.start is Some || u.end is Some || u.unit is Some
        || u.universe_name is Some
}

/// The timeline after applying the update: supplied fields replaced, the
/// rest (and the key and author) unchanged.
pub open spec fn spec_apply_timeline_update(t: TimelineView, u: UpdateTimelineView) -> TimelineView {
    TimelineView {
        id: t.id,
        author_id: t.author_id,
        description: if u.description is Some { u.description->0 } else { t.description },
        start: if u.start is Some { u.start->0 } else { t.start },
        end: if u.end is Some { u.end->0 } else { t.end },
        unit: if u.unit is Some { u.unit->0 } else { t.unit },
        universe_name: if u.universe_name is Some { u.universe_name->0 } else { t.universe_name },
    }
}

/// A column an update can set.
#[derive(Clone, Copy, Debug, PartialEq, Eq, Structural)]
pub enum TimelineColumn {
    Description,
    Start,
    End,
    Unit,
    UniverseName,
}

/// A value bound into an update statement.
#[derive(Debug)]
pub enum ColumnValue {
    Text(String),
    Int(i64),
}

/// The mathematical content of a [`ColumnValue`].
pub ghost enum ColumnValueView {
    Text(Seq<char>),
    Int(int),
}

impl View for ColumnValue {
    type V = ColumnValueView;

    open spec fn view(&self) -> ColumnValueView {
        match self {
            ColumnValue::Text(s) => ColumnValueView::Text(s@),
            ColumnValue::Int(v) => ColumnValueView::Int(*v as int),
        }
    }
}

/// The `(column, value)` pairs the update accumulates, in column order.
pub open spec fn spec_timeline_assignments(u: UpdateTimelineView) -> Seq<
    (TimelineColumn, ColumnValueView),
> {
    (if u.description is Some {
        seq![(TimelineColumn::Description, ColumnValueView::Text(u.description->0))]
    } else {
        Seq::empty()
    }) + (if u.start is Some {
        seq![(TimelineColumn::Start, ColumnValueView::Int(u.start->0))]
    } else {
        Seq::empty()
    }) + (if u.end is Some {
        seq![(TimelineColumn::End, ColumnValueView::Int(u.end->0))]
    } else {
        Seq::empty()
    }) + (if u.unit is Some {
        seq![(TimelineColumn::Unit, ColumnValueView::Text(u.unit->0))]
    } else {
        Seq::empty()
    }) + (if u.universe_name is Some {
        seq![(TimelineColumn::UniverseName, ColumnValueView::Text(u.universe_name->0))]
    } else {
        Seq::empty()
    })
}

impl UpdateTimeline {
    /// Whether at least one updatable field is supplied.
    pub fn has_update(&self) -> (r: bool)
        ensures
            r == spec_has_timeline_update_fields(self@),
    {
        self.description.is_some() || self.start.is_some() || self.end.is_some()
            || self.unit.is_some() || self.universe_name.is_some()
    }

    /// Accumulate the `(column, value)` pairs of the supplied fields, in
    /// column order; empty exactly when no field was supplied.
    pub fn assignments(&self) -> (v: Vec<(TimelineColumn, ColumnValue)>)
        ensures
            v@.map_values(|p: (TimelineColumn, ColumnValue)| (p.0, p.1@))
                == spec_timeline_assignments(self@),
            v@.len() == 0 <==> !spec_has_timeline_update_fields(self@),
    {
        let mut v: Vec<(TimelineColumn, ColumnValue)> = Vec::new();
        match &self.description {
            Some(s) => v.push((TimelineColumn::Description, ColumnValue::Text(s.clone()))),
            None => (),
        }
        match self.start {
            Some(n) => v.push((TimelineColumn::Start, ColumnValue::Int(n))),
            None => (),
        }
        match self.end {
            Some(n) => v.push((TimelineColumn::End, ColumnValue::Int(n))),
            None => (),
        }
        match &self.unit {
            Some(s) => v.push((TimelineColumn::Unit, ColumnValue::Text(s.clone()))),
            None => (),
        }
        match &self.universe_name {
            Some(s) => v.push((TimelineColumn::UniverseName, ColumnValue::Text(s.clone()))),
            None => (),
        }
        proof {
            assert(v@.map_values(|p: (TimelineColumn, ColumnValue)| (p.0, p.1@))
                =~= spec_timeline_assignments(self@));
        }
        v
    }

    /// Apply the update to a timeline, replacing exactly the supplied
    /// fields.
    pub fn apply_to(&self, t: &Timeline) -> (r: Timeline)
        ensures
            r@ == spec_apply_timeline_update(t@, self@),
    {
        Timeline {
            id: t.id,
            author_id: t.author_id,
            description: match &self.description {
                Some(s) => s.clone(),
                None => t.description.clone(),
            },
            start: match self.start {
                Some(n) => n,
                None => t.start,
            },
            end: match self.end {
                Some(n) => n,
                None => t.end,
            },
            unit: match &self.unit {
                Some(s) => s.clone(),
                None => t.unit.clone(),
            },
            universe_name: match &self.universe_name {
                Some(s) => s.clone(),
                None => t.universe_name.clone(),
            },
        }
    }
}

/// The check sequence of a timeline update, in the order the handler
/// performs it: at least one field must be supplied (else 400), and a row
/// whose key and author both match must exist (else 404). `None` means
/// the write applies.
pub open spec fn spec_timeline_update_check(
    ts: Seq<TimelineView>,
    id: int,
    u: UpdateTimelineView,
) -> Option<ApiError> {
    if !spec_has_timeline_update_fields(u) {
        Some(ApiError::BadRequest)
    } else if !spec_has_timeline(ts, id) {
        Some(ApiError::NotFound)
    } else if ts[spec_timeline_index(ts, id)].author_id != u.author_id {
        Some(ApiError::NotFound)
    } else {
        None
    }
}

impl TimelineStore {
    /// Create a timeline from the request body, assigning the next id.
    pub fn create_timeline(&mut self, payload: PostTimeline) -> (r: Result<Timeline, ApiError>)
        requires
            old(self).wf(),
        ensures
            final(self).wf(),
            final(self)@.links == old(self)@.links,
            final(self)@.merges == old(self)@.merges,
            final(self).next_merge_id == old(self).next_merge_id,
            match r {
                Ok(t) => {
                    &&& t@ == timeline_from_post(payload@, old(self).next_timeline_id as int)
                    &&& final(self)@.timelines == old(self)@.timelines.push(t@)
                    &&& final(self).next_timeline_id == old(self).next_timeline_id + 1
                },
                Err(e) => {
                    &&& e == ApiError::InternalError
                    &&& old(self).next_timeline_id == i64::MAX
                    &&& final(self)@ == old(self)@
                    &&& final(self).next_timeline_id == old(self).next_timeline_id
                },
            },
    {
        if self.next_timeline_id == i64::MAX {
            return Err(ApiError::InternalError);
        }
        let ghost old_timelines = self@.timelines;
        let t = Timeline {
            id: self.next_timeline_id,
            author_id: payload.author_id,
            description: payload.description,
            start: payload.start,
            end: payload.end,
            unit: payload.unit,
            universe_name: payload.universe_name,
        };
        let stored = t.clone();
        self.timelines.push(stored);
        self.next_timeline_id = self.next_timeline_id + 1;
        proof {
            assert(self@.links == old(self)@.links);
            assert(self@.merges == old(self)@.merges);
            assert(self@.timelines =~= old_timelines.push(t@));
            assert forall|p: int, q: int|
                0 <= p < self@.timelines.len() && 0 <= q < self@.timelines.len() && p != q
                implies self@.timelines[p].id != self@.timelines[q].id by {
                if p < old_timelines.len() && q < old_timelines.len() {
                    assert(self@.timelines[p] == old_timelines[p]);
                    assert(self@.timelines[q] == old_timelines[q]);
                } else if p == old_timelines.len() {
                    assert(self@.timelines[q] == old_timelines[q]);
                } else {
                    assert(self@.timelines[p] == old_timelines[p]);
                }
            }
            assert forall|p: int| 0 <= p < self@.timelines.len()
                implies (#[trigger] self@.timelines[p]).id < self.next_timeline_id by {
                if p < old_timelines.len() {
                    assert(self@.timelines[p] == old_timelines[p]);
                }
            }
        }
        Ok(t)
    }

    /// The timeline with key `id`, if any.
    pub fn get_timeline_by_id(&self, id: i64) -> (r: Option<Timeline>)
        requires
            self.wf(),
        ensures
            match r {
                Some(t) => {
                    &&& spec_has_timeline(self@.timelines, id as int)
                    &&& t@ == self@.timelines[spec_timeline_index(self@.timelines, id as int)]
                },
                None => !spec_has_timeline(self@.timelines, id as int),
            },
    {
        match self.find_timeline(id) {
            None => None,
            Some(i) => Some(self.timelines[i].clone()),
        }
    }

    /// Delete the timeline row with key `id`; 404 when no row was
    /// deleted. Its event links are left untouched.
    pub fn delete_timeline(&mut self, id: i64) -> (r: Result<(), ApiError>)
        requires
            old(self).wf(),
        ensures
            final(self).wf(),
            final(self)@.links == old(self)@.links,
            final(self)@.merges == old(self)@.merges,
            final(self).next_timeline_id == old(self).next_timeline_id,
            final(self).next_merge_id == old(self).next_merge_id,
            match r {
                Ok(()) => {
                    &&& spec_has_timeline(old(self)@.timelines, id as int)
                    &&& final(self)@.timelines == old(self)@.timelines.remove(
                        spec_timeline_index(old(self)@.timelines, id as int),
                    )
                },
                Err(e) => {
                    &&& e == ApiError::NotFound
                    &&& !spec_has_timeline(old(self)@.timelines, id as int)
                    &&& final(self)@.timelines == old(self)@.timelines
                },
            },
    {
        match self.find_timeline(id) {
            None => Err(ApiError::NotFound),
            Some(i) => {
                let ghost old_timelines = self@.timelines;
                self.timelines.remove(i);
                proof {
                    assert(self@.links == old(self)@.links);
                    assert(self@.merges == old(self)@.merges);
                    assert(self@.timelines =~= old_timelines.remove(i as int));
                    assert forall|p: int, q: int|
                        0 <= p < self@.timelines.len() && 0 <= q < self@.timelines.len() && p != q
                        implies self@.timelines[p].id != self@.timelines[q].id by {
                        let p0 = if p < i as int { p } else { p + 1 };
                        let q0 = if q < i as int { q } else { q + 1 };
                        assert(self@.timelines[p] == old_timelines[p0]);
                        assert(self@.timelines[q] == old_timelines[q0]);
                    }
                    assert forall|p: int| 0 <= p < self@.timelines.len()
                        implies (#[trigger] self@.timelines[p]).id < self.next_timeline_id by {
                        let p0 = if p < i as int { p } else { p + 1 };
                        assert(self@.timelines[p] == old_timelines[p0]);
                    }
                }
                Ok(())
            },
        }
    }

    /// Field-by-field optional update of a timeline: an empty update is a
    /// bad request; the row must exist under this key and author; the
    /// supplied fields are applied and the updated row returned. Every
    /// refusal leaves the store exactly as it was.
    pub fn update_timeline(&mut self, id: i64, payload: &UpdateTimeline) -> (r: Result<
        Timeline,
        ApiError,
    >)
        requires
            old(self).wf(),
        ensures
            final(self).wf(),
            final(self)@.links == old(self)@.links,
            final(self)@.merges == old(self)@.merges,
            final(self).next_timeline_id == old(self).next_timeline_id,
            final(self).next_merge_id == old(self).next_merge_id,
            match r {
                Ok(t) => {
                    &&& spec_timeline_update_check(old(self)@.timelines, id as int, payload@)
                        is None
                    &&& {
                        let i = spec_timeline_index(old(self)@.timelines, id as int);
                        &&& t@ == spec_apply_timeline_update(old(self)@.timelines[i], payload@)
                        &&& final(self)@.timelines == old(self)@.timelines.update(i, t@)
                    }
                },
                Err(e) => {
                    &&& Some(e) == spec_timeline_update_check(
                        old(self)@.timelines,
                        id as int,
                        payload@,
                    )
                    &&& final(self)@ == old(self)@
                },
            },
    {
        if !payload.has_update() {
            return Err(ApiError::BadRequest);
        }
        match self.find_timeline(id) {
            None => Err(ApiError::NotFound),
            Some(i) => {
                if self.timelines[i].author_id != payload.author_id {
                    return Err(ApiError::NotFound);
                }
                let ghost old_timelines = self@.timelines;
                let updated = payload.apply_to(&self.timelines[i]);
                let stored = updated.clone();
                self.timelines[i] = stored;
                proof {
                    assert(self@.links == old(self)@.links);
                    assert(self@.merges == old(self)@.merges);
                    assert(self@.timelines =~= old_timelines.update(i as int, updated@));
                    assert forall|p: int, q: int|
                        0 <= p < self@.timelines.len() && 0 <= q < self@.timelines.len() && p != q
                        implies self@.timelines[p].id != self@.timelines[q].id by {
                        assert(self@.timelines[p].id == old_timelines[p].id);
                        assert(self@.timelines[q].id == old_timelines[q].id);
                    }
                    assert forall|p: int| 0 <= p < self@.timelines.len()
                        implies (#[trigger] self@.timelines[p]).id < self.next_timeline_id by {
                        assert(self@.timelines[p].id == old_timelines[p].id);
                    }
                }
                Ok(updated)
            },
        }
    }
}

} // verus!
