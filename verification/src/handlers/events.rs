//! The event endpoints' decision core: pagination of the list, creation,
//! conditional reads (`If-None-Match`) and fingerprint-guarded conditional
//! updates (`If-Match`) against a store of events.

use vstd::prelude::*;
use crate::conditional::{
    conditional_get, evaluate_if_match, opt_tag_view, spec_if_match, MatchCheck, ReadOutcome,
};
use crate::error::ApiError;
use crate::fingerprint::{event_canon, make_etag, spec_etag};
use crate::models::event::{clone_opt_string, opt_string_view, Event, EventView};

verus! {

/// Query parameters of a list request.
#[derive(Clone, Copy, Debug)]
pub struct Pagination {
    pub page: Option<u32>,
    pub per_page: Option<u32>,
}

/// The defaults: page 1, ten rows per page.
pub open spec fn spec_page(p: Pagination) -> u32 {
    match p.page {
        Some(n) => n,
        None => 1,
    }
}

pub open spec fn spec_per_page(p: Pagination) -> u32 {
    match p.per_page {
        Some(n) => n,
        None => 10,
    }
}

/// The row window a page maps to: `(offset, limit)`.
pub open spec fn spec_window(p: Pagination) -> (u64, u64) {
    (((spec_page(p) - 1) * spec_per_page(p)) as u64, spec_per_page(p) as u64)
}

impl Pagination {
    /// The row window of the requested page. Pages are numbered from 1;
    /// page 0 does not address any rows and is excluded.
    pub fn window(&self) -> (r: (u64, u64))
        requires
            self.page != Some(0u32),
        ensures
            r == spec_window(*self),
    {
        let page: u32 = match self.page {
            Some(n) => n,
            None => 1,
        };
        let per_page: u32 = match self.per_page {
            Some(n) => n,
            None => 10,
        };
        proof {
            assert((page as u64 - 1) * (per_page as u64) <= 0xffffffffu64 * 0xffffffffu64)
                by (nonlinear_arith)
                requires
                    1 <= page as u64 <= 0xffffffffu64,
                    per_page as u64 <= 0xffffffffu64,
            ;
        }
        let offset: u64 = (page as u64 - 1) * (per_page as u64);
        (offset, per_page as u64)
    }

    /// Whether a `prev` page link is offered: only past the first page.
    pub fn has_prev(&self) -> (r: bool)
        ensures
            r == (spec_page(*self) > 1),
    {
        let page: u32 = match self.page {
            Some(n) => n,
            None => 1,
        };
        page > 1
    }

    /// Whether a `next` page link is offered: exactly when the page came
    /// back full.
    pub fn has_next(&self, rows_returned: usize) -> (r: bool)
        ensures
            r == (rows_returned == spec_per_page(*self)),
    {
        let per_page: u32 = match self.per_page {
            Some(n) => n,
            None => 10,
        };
        rows_returned == per_page as usize
    }
}

/// Body of a create-event request.
#[derive(Debug)]
pub struct PostEvent {
    pub name: String,
    pub description: String,
    pub reference: String,
    pub image: Option<String>,
    pub thumbnail: Option<String>,
    pub author_id: i64,
}

/// The mathematical content of a [`PostEvent`].
#[verifier::ext_equal]
pub ghost struct PostEventView {
    pub name: Seq<char>,
    pub description: Seq<char>,
    pub reference: Seq<char>,
    pub image: Option<Seq<char>>,
    pub thumbnail: Option<Seq<char>>,
    pub author_id: int,
}

impl View for PostEvent {
    type V = PostEventView;

    open spec fn view(&self) -> PostEventView {
        PostEventView {
            name: self.name@,
            description: self.description@,
            reference: self.reference@,
            image: opt_string_view(self.image),
            thumbnail: opt_string_view(self.thumbnail),
            author_id: self.author_id as int,
        }
    }
}

/// The event a create request produces once the store assigns `id`.
pub open spec fn event_from_post(p: PostEventView, id: int) -> EventView {
    EventView {
        id: id,
        name: p.name,
        description: p.description,
        reference: p.reference,
        image: p.image,
        thumbnail: p.thumbnail,
        author_id: p.author_id,
    }
}

/// Body of an update-event request: only supplied fields are changed;
/// `author_id` must name the event's author for the write to apply.
#[derive(Debug)]
pub struct UpdateEvent {
    pub name: Option<String>,
    pub description: Option<String>,
    pub reference: Option<String>,
    pub image: Option<String>,
    pub thumbnail: Option<String>,
    pub author_id: i64,
}

/// The mathematical content of an [`UpdateEvent`].
#[verifier::ext_equal]
pub ghost struct UpdateEventView {
    pub name: Option<Seq<char>>,
    pub description: Option<Seq<char>>,
    pub reference: Option<Seq<char>>,
    pub image: Option<Seq<char>>,
    pub thumbnail: Option<Seq<char>>,
    pub author_id: int,
}

impl View for UpdateEvent {
    type V = UpdateEventView;

    open spec fn view(&self) -> UpdateEventView {
        UpdateEventView {
            name: opt_string_view(self.name),
            description: opt_string_view(self.description),
            reference: opt_string_view(self.reference),
            image: opt_string_view(self.image),
            thumbnail: opt_string_view(self.thumbnail),
            author_id: self.author_id as int,
        }
    }
}

/// Whether the update supplies at least one field; an update that
/// supplies none is refused as a bad request.
pub open spec fn spec_has_update_fields(u: UpdateEventView) -> bool {
    u.name is Some || u.description is Some || u.reference is Some || u.image is Some
        || u.thumbnail is Some
}

/// The event after applying the update: supplied fields replaced, the
/// rest (and the key and author) unchanged.
pub open spec fn spec_apply_update(e: EventView, u: UpdateEventView) -> EventView {
    EventView {
        id: e.id,
        name: if u.name is Some { u.name->0 } else { e.name },
        description: if u.description is Some { u.description->0 } else { e.description },
        reference: if u.reference is Some { u.reference->0 } else { e.reference },
        image: if u.image is Some { u.image } else { e.image },
        thumbnail: if u.thumbnail is Some { u.thumbnail } else { e.thumbnail },
        author_id: e.author_id,
    }
}

/// A column an update can set.
#[derive(Clone, Copy, Debug, PartialEq, Eq, Structural)]
pub enum EventColumn {
    Name,
    Description,
    Reference,
    Image,
    Thumbnail,
}

/// The `(column, value)` pairs the update accumulates, in column order.
pub open spec fn spec_assignments(u: UpdateEventView) -> Seq<(EventColumn, Seq<char>)> {
    (if u.name is Some {
        seq![(EventColumn::Name, u.name->0)]
    } else {
        Seq::empty()
    }) + (if u.description is Some {
        seq![(EventColumn::Description, u.description->0)]
    } else {
        Seq::empty()
    }) + (if u.reference is Some {
        seq![(EventColumn::Reference, u.reference->0)]
    } else {
        Seq::empty()
    }) + (if u.image is Some {
        seq![(EventColumn::Image, u.image->0)]
    } else {
        Seq::empty()
    }) + (if u.thumbnail is Some {
        seq![(EventColumn::Thumbnail, u.thumbnail->0)]
    } else {
        Seq::empty()
    })
}

impl UpdateEvent {
    /// Whether at least one updatable field is supplied.
    pub fn has_update(&self) -> (r: bool)
        ensures
            r == spec_has_update_fields(self@),
    {
        self.name.is_some() || self.description.is_some() || self.reference.is_some()
            || self.image.is_some() || self.thumbnail.is_some()
    }

    /// Accumulate the `(column, value)` pairs of the supplied fields, in
    /// column order. The result is empty exactly when no field was
    /// supplied — the case a handler must refuse as a bad request.
    pub fn assignments(&self) -> (v: Vec<(EventColumn, String)>)
        ensures
            v@.map_values(|p: (EventColumn, String)| (p.0, p.1@)) == spec_assignments(self@),
            v@.len() == 0 <==> !spec_has_update_fields(self@),
    {
        let mut v: Vec<(EventColumn, String)> = Vec::new();
        match &self.name {
            Some(s) => v.push((EventColumn::Name, s.clone())),
            None => (),
        }
        match &self.description {
            Some(s) => v.push((EventColumn::Description, s.clone())),
            None => (),
        }
        match &self.reference {
            Some(s) => v.push((EventColumn::Reference, s.clone())),
            None => (),
        }
        match &self.image {
            Some(s) => v.push((EventColumn::Image, s.clone())),
            None => (),
        }
        match &self.thumbnail {
            Some(s) => v.push((EventColumn::Thumbnail, s.clone())),
            None => (),
        }
        proof {
            assert(v@.map_values(|p: (EventColumn, String)| (p.0, p.1@)) =~= spec_assignments(
                self@,
            ));
        }
        v
    }

    /// Apply the update to an event, replacing exactly the supplied
    /// fields.
    pub fn apply_to(&self, e: &Event) -> (r: Event)
        ensures
            r@ == spec_apply_update(e@, self@),
    {
        Event {
            id: e.id,
            name: match &self.name {
                Some(s) => s.clone(),
                None => e.name.clone(),
            },
            description: match &self.description {
                Some(s) => s.clone(),
                None => e.description.clone(),
            },
            reference: match &self.reference {
                Some(s) => s.clone(),
                None => e.reference.clone(),
            },
            image: match &self.image {
                Some(s) => Some(s.clone()),
                None => clone_opt_string(&e.image),
            },
            thumbnail: match &self.thumbnail {
                Some(s) => Some(s.clone()),
                None => clone_opt_string(&e.thumbnail),
            },
            author_id: e.author_id,
        }
    }
}

/// The events table, modeled in memory: rows plus the id counter the
/// store assigns from.
pub struct EventStore {
    pub events: Vec<Event>,
    pub next_id: i64,
}

impl View for EventStore {
    type V = Seq<EventView>;

    open spec fn view(&self) -> Seq<EventView> {
        self.events@.map_values(|e: Event| e@)
    }
}

pub open spec fn spec_has_event(s: Seq<EventView>, id: int) -> bool {
    exists|i: int| 0 <= i < s.len() && s[i].id == id
}

/// The index of the row with key `id` (unique in a well-formed store).
pub open spec fn spec_event_index(s: Seq<EventView>, id: int) -> int {
    choose|i: int| 0 <= i < s.len() && s[i].id == id
}

/// The check sequence of a conditional update, in the order the handler
/// performs it: the row must exist, the `If-Match` tag (if any) must name
/// the row's current fingerprint, at least one field must be supplied,
/// and the update's author must be the row's author. `None` means the
/// write applies.
pub open spec fn spec_update_check(
    s: Seq<EventView>,
    id: int,
    u: UpdateEventView,
    tag: Option<Seq<char>>,
) -> Option<ApiError> {
    if !spec_has_event(s, id) {
        Some(ApiError::NotFound)
    } else {
        let cur = s[spec_event_index(s, id)];
        if spec_if_match(tag, spec_etag(event_canon(cur))) != MatchCheck::Proceed {
            Some(ApiError::PreconditionFailed)
        } else if !spec_has_update_fields(u) {
            Some(ApiError::BadRequest)
        } else if cur.author_id != u.author_id {
            Some(ApiError::NotFound)
        } else {
            None
        }
    }
}

impl EventStore {
    /// Row keys are unique and below the id counter.
    pub open spec fn wf(&self) -> bool {
        &&& forall|i: int, j: int|
            0 <= i < self@.len() && 0 <= j < self@.len() && i != j ==> self@[i].id != self@[j].id
        &&& forall|i: int| 0 <= i < self@.len() ==> (#[trigger] self@[i]).id < self.next_id
        &&& 1 <= self.next_id
    }

    /// An empty store, its id counter at 1.
    pub fn new() -> (s: EventStore)
        ensures
            s@ == Seq::<EventView>::empty(),
            s.next_id == 1,
            s.wf(),
    {
        let s = EventStore { events: Vec::new(), next_id: 1 };
        proof {
            assert(s@ =~= Seq::<EventView>::empty());
        }
        s
    }

    /// The index of the row with key `id`, if any.
    fn find(&self, id: i64) -> (r: Option<usize>)
        requires
            self.wf(),
        ensures
            match r {
                Some(i) => {
                    &&& i < self@.len()
                    &&& self@[i as int].id == id as int
                    &&& spec_has_event(self@, id as int)
                    &&& spec_event_index(self@, id as int) == i as int
                },
                None => !spec_has_event(self@, id as int),
            },
    {
        let mut i: usize = 0;
        while i < self.events.len()
            invariant
                i <= self.events.len(),
                self.wf(),
                self@.len() == self.events.len(),
                forall|j: int| 0 <= j < i ==> self@[j].id != id as int,
            decreases self.events.len() - i,
        {
            if self.events[i].id == id {
                proof {
                    let k = spec_event_index(self@, id as int);
                    assert(self@[i as int].id == id as int);
                    assert(0 <= k < self@.len() && self@[k].id == id as int);
                }
                return Some(i);
            }
            i = i + 1;
        }
        proof {
            if spec_has_event(self@, id as int) {
                let k = choose|k: int| 0 <= k < self@.len() && self@[k].id == id as int;
                assert(self@[k].id != id as int);
            }
        }
        None
    }

    /// Create an event from the request body, assigning the next id, and
    /// answer with the stored row and its fingerprint tag (the handler
    /// sends them as the body, the `Location` and the `ETag`).
    pub fn create(&mut self, payload: PostEvent) -> (r: Result<(Event, String), ApiError>)
        requires
            old(self).wf(),
        ensures
            final(self).wf(),
            match r {
                Ok((ev, etag)) => {
                    &&& ev@ == event_from_post(payload@, old(self).next_id as int)
                    &&& etag@ == spec_etag(event_canon(ev@))
                    &&& final(self)@ == old(self)@.push(ev@)
                    &&& final(self).next_id == old(self).next_id + 1
                },
                Err(e) => {
                    &&& e == ApiError::InternalError
                    &&& old(self).next_id == i64::MAX
                    &&& final(self)@ == old(self)@
                    &&& final(self).next_id == old(self).next_id
                },
            },
    {
        if self.next_id == i64::MAX {
            return Err(ApiError::InternalError);
        }
        let ghost old_view = self@;
        let ev = Event {
            id: self.next_id,
            name: payload.name,
            description: payload.description,
            reference: payload.reference,
            image: payload.image,
            thumbnail: payload.thumbnail,
            author_id: payload.author_id,
        };
        let etag = make_etag(&ev);
        let stored = ev.clone();
        self.events.push(stored);
        self.next_id = self.next_id + 1;
        proof {
            assert(self@ =~= old_view.push(ev@));
        }
        Ok((ev, etag))
    }

    /// Conditional read: 404 when the row is absent; otherwise the
    /// fingerprint of the freshly read row is computed and the
    /// `If-None-Match` tag evaluated against it.
    pub fn get_by_id(&self, id: i64, client_tag: Option<&String>) -> (r: Result<
        ReadOutcome,
        ApiError,
    >)
        requires
            self.wf(),
        ensures
            match r {
                Ok(out) => {
                    &&& spec_has_event(self@, id as int)
                    &&& {
                        let cur = self@[spec_event_index(self@, id as int)];
                        match out {
                            ReadOutcome::NotModified { etag } => {
                                &&& etag@ == spec_etag(event_canon(cur))
                                &&& opt_tag_view(client_tag) == Some(spec_etag(event_canon(cur)))
                            },
                            ReadOutcome::Fresh { etag, body } => {
                                &&& etag@ == spec_etag(event_canon(cur))
                                &&& body@ == cur
                                &&& opt_tag_view(client_tag) != Some(spec_etag(event_canon(cur)))
                            },
                        }
                    }
                },
                Err(e) => {
                    &&& e == ApiError::NotFound
                    &&& !spec_has_event(self@, id as int)
                },
            },
    {
        match self.find(id) {
            None => Err(ApiError::NotFound),
            Some(i) => {
                let row = self.events[i].clone();
                Ok(conditional_get(row, client_tag))
            },
        }
    }

    /// Delete the row with key `id`; 404 when no row was deleted.
    pub fn delete_by_id(&mut self, id: i64) -> (r: Result<(), ApiError>)
        requires
            old(self).wf(),
        ensures
            final(self).wf(),
            final(self).next_id == old(self).next_id,
            match r {
                Ok(()) => {
                    &&& spec_has_event(old(self)@, id as int)
                    &&& final(self)@ == old(self)@.remove(
                        spec_event_index(old(self)@, id as int),
                    )
                },
                Err(e) => {
                    &&& e == ApiError::NotFound
                    &&& !spec_has_event(old(self)@, id as int)
                    &&& final(self)@ == old(self)@
                },
            },
    {
        match self.find(id) {
            None => Err(ApiError::NotFound),
            Some(i) => {
                let ghost old_view = self@;
                self.events.remove(i);
                proof {
                    assert(self@ =~= old_view.remove(i as int));
                    assert forall|p: int, q: int|
                        0 <= p < self@.len() && 0 <= q < self@.len() && p != q
                        implies self@[p].id != self@[q].id by {
                        let p0 = if p < i as int { p } else { p + 1 };
                        let q0 = if q < i as int { q } else { q + 1 };
                        assert(self@[p] == old_view[p0]);
                        assert(self@[q] == old_view[q0]);
                    }
                    assert forall|p: int| 0 <= p < self@.len()
                        implies (#[trigger] self@[p]).id < self.next_id by {
                        let p0 = if p < i as int { p } else { p + 1 };
                        assert(self@[p] == old_view[p0]);
                    }
                }
                Ok(())
            },
        }
    }

    /// Fingerprint-guarded update: load the row, compute its current
    /// fingerprint, evaluate `If-Match` against it, refuse an empty
    /// update, apply the supplied fields, and answer with the updated row
    /// and its new tag. Every refusal leaves the store exactly as it was.
    ///
    /// Check and write happen in one exclusive step here, so no second
    /// writer can interleave between them: the tag that passed the check
    /// is the tag of the row the write replaces. A boundary that performs
    /// the check and the write as two storage statements reintroduces
    /// that window and must document it.
    pub fn update(
        &mut self,
        id: i64,
        payload: &UpdateEvent,
        client_tag: Option<&String>,
    ) -> (r: Result<(Event, String), ApiError>)
        requires
            old(self).wf(),
        ensures
            final(self).wf(),
            final(self).next_id == old(self).next_id,
            match r {
                Ok((ev, etag)) => {
                    &&& spec_update_check(old(self)@, id as int, payload@, opt_tag_view(client_tag))
                        is None
                    &&& {
                        let i = spec_event_index(old(self)@, id as int);
                        &&& ev@ == spec_apply_update(old(self)@[i], payload@)
                        &&& etag@ == spec_etag(event_canon(ev@))
                        &&& final(self)@ == old(self)@.update(i, ev@)
                    }
                },
                Err(e) => {
                    &&& Some(e) == spec_update_check(
                        old(self)@,
                        id as int,
                        payload@,
                        opt_tag_view(client_tag),
                    )
                    &&& final(self)@ == old(self)@
                },
            },
    {
        match self.find(id) {
            None => Err(ApiError::NotFound),
            Some(i) => {
                let current_etag = make_etag(&self.events[i]);
                match evaluate_if_match(client_tag, &current_etag) {
                    MatchCheck::PreconditionFailed => Err(ApiError::PreconditionFailed),
                    MatchCheck::Proceed => {
                        if !payload.has_update() {
                            Err(ApiError::BadRequest)
                        } else if self.events[i].author_id != payload.author_id {
                            Err(ApiError::NotFound)
                        } else {
                            let ghost old_view = self@;
                            let updated = payload.apply_to(&self.events[i]);
                            let etag = make_etag(&updated);
                            let stored = updated.clone();
                            self.events[i] = stored;
                            proof {
                                assert(self@ =~= old_view.update(i as int, updated@));
                                assert forall|p: int, q: int|
                                    0 <= p < self@.len() && 0 <= q < self@.len() && p != q
                                    implies self@[p].id != self@[q].id by {
                                    assert(self@[p].id == old_view[p].id);
                                    assert(self@[q].id == old_view[q].id);
                                }
                                assert forall|p: int| 0 <= p < self@.len()
                                    implies (#[trigger] self@[p]).id < self.next_id by {
                                    assert(self@[p].id == old_view[p].id);
                                }
                            }
                            Ok((updated, etag))
                        }
                    },
                }
            },
        }
    }
}

/// Conditional write rejection: against a store holding the resource at
/// its current fingerprint, a write presenting any other tag is checked to
/// exactly `PreconditionFailed` — and [`EventStore::update`] then leaves
/// the stored content untouched.
pub proof fn lemma_conditional_write_rejection(
    s: Seq<EventView>,
    id: int,
    u: UpdateEventView,
    stale: Seq<char>,
)
    requires
        spec_has_event(s, id),
        stale != spec_etag(event_canon(s[spec_event_index(s, id)])),
    ensures
        spec_update_check(s, id, u, Some(stale)) == Some(ApiError::PreconditionFailed),
{
}

} // verus!
