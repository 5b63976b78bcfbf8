//! The timeline-event link endpoints' decision core: listing a
//! timeline's links, placing an event on a timeline, moving it, and
//! removing it.

use vstd::prelude::*;
use vstd::multiset::Multiset;
use crate::error::ApiError;
use crate::handlers::merges::{link_key_eq, links_wf, spec_link_at, TimelineStore};
use crate::models::timeline_event::TimelineEvent;

verus! {

/// Body of a create-link request: the event to place and where.
#[derive(Clone, Copy, Debug, PartialEq, Eq, Structural)]
pub struct PostTimelineEvent {
    pub event_id: i64,
    pub position: i64,
}

/// Body of an update-link request: only the position can move.
#[derive(Clone, Copy, Debug)]
pub struct UpdateTimelineEvent {
    pub position: Option<i64>,
}

/// The index of the link with key `(tid, eid)` (unique in a well-formed
/// table).
pub open spec fn spec_link_index(ls: Seq<TimelineEvent>, tid: i64, eid: i64) -> int {
    choose|i: int| 0 <= i < ls.len() && ls[i].timeline_id == tid && ls[i].event_id == eid
}

/// The links of one timeline, in table order.
pub open spec fn spec_links_of_timeline(ls: Seq<TimelineEvent>, tid: i64) -> Seq<TimelineEvent> {
    ls.filter(|l: TimelineEvent| l.timeline_id == tid)
}

/// The links of one event, in table order.
pub open spec fn spec_links_of_event(ls: Seq<TimelineEvent>, eid: i64) -> Seq<TimelineEvent> {
    ls.filter(|l: TimelineEvent| l.event_id == eid)
}

/// The check sequence of a link update, in the order the handler
/// performs it: a position must be supplied (else 400) and the link must
/// exist (else 404). `None` means the write applies.
pub open spec fn spec_link_update_check(
    ls: Seq<TimelineEvent>,
    tid: i64,
    eid: i64,
    u: UpdateTimelineEvent,
) -> Option<ApiError> {
    if u.position is None {
        Some(ApiError::BadRequest)
    } else if !spec_link_at(ls, tid, eid) {
        Some(ApiError::NotFound)
    } else {
        None
    }
}

/// Appending one link extends a timeline's links by it exactly when it
/// belongs to that timeline.
proof fn lemma_links_of_timeline_push(prefix: Seq<TimelineEvent>, x: TimelineEvent, tid: i64)
    ensures
        spec_links_of_timeline(prefix.push(x), tid) == spec_links_of_timeline(prefix, tid) + (
        if x.timeline_id == tid {
            seq![x]
        } else {
            Seq::<TimelineEvent>::empty()
        }),
{
    reveal(Seq::filter);
    assert(prefix.push(x).drop_last() =~= prefix);
    assert(prefix.push(x).last() == x);
    if x.timeline_id == tid {
        assert(spec_links_of_timeline(prefix.push(x), tid) =~= spec_links_of_timeline(prefix, tid)
            + seq![x]);
    } else {
        assert(spec_links_of_timeline(prefix.push(x), tid) =~= spec_links_of_timeline(prefix, tid)
            + Seq::<TimelineEvent>::empty());
    }
}

/// Appending one link extends an event's links by it exactly when it
/// references that event.
proof fn lemma_links_of_event_push(prefix: Seq<TimelineEvent>, x: TimelineEvent, eid: i64)
    ensures
        spec_links_of_event(prefix.push(x), eid) == spec_links_of_event(prefix, eid) + (
        if x.event_id == eid {
            seq![x]
        } else {
            Seq::<TimelineEvent>::empty()
        }),
{
    reveal(Seq::filter);
    assert(prefix.push(x).drop_last() =~= prefix);
    assert(prefix.push(x).last() == x);
    if x.event_id == eid {
        assert(spec_links_of_event(prefix.push(x), eid) =~= spec_links_of_event(prefix, eid)
            + seq![x]);
    } else {
        assert(spec_links_of_event(prefix.push(x), eid) =~= spec_links_of_event(prefix, eid)
            + Seq::<TimelineEvent>::empty());
    }
}

/// Links stand in ascending position order.
pub open spec fn sorted_by_position(s: Seq<TimelineEvent>) -> bool {
    forall|p: int, q: int| 0 <= p < q < s.len() ==> s[p].position <= s[q].position
}

/// Sort links by position, ascending, by repeatedly moving a row of
/// minimal position to the output: the result holds exactly the given
/// rows; rows of equal position come out in unspecified order.
fn sort_links_by_position(links: Vec<TimelineEvent>) -> (r: Vec<TimelineEvent>)
    ensures
        r@.to_multiset() == links@.to_multiset(),
        sorted_by_position(r@),
{
    let mut src = links;
    let ghost orig = src@;
    let mut out: Vec<TimelineEvent> = Vec::new();
    proof {
        broadcast use vstd::seq_lib::group_to_multiset_ensures;

        assert(out@.to_multiset().add(src@.to_multiset()) =~= orig.to_multiset());
    }
    while src.len() > 0
        invariant
            out@.to_multiset().add(src@.to_multiset()) == orig.to_multiset(),
            sorted_by_position(out@),
            forall|p: int, q: int|
                0 <= p < out@.len() && 0 <= q < src@.len() ==> out@[p].position
                    <= src@[q].position,
        decreases src.len(),
    {
        let mut k: usize = 0;
        let mut i: usize = 1;
        while i < src.len()
            invariant
                k < src.len(),
                i <= src.len(),
                forall|j: int| 0 <= j < i ==> src@[k as int].position <= src@[j].position,
            decreases src.len() - i,
        {
            if src[i].position < src[k].position {
                k = i;
            }
            i = i + 1;
        }
        let m = src[k];
        let ghost src_before = src@;
        let ghost out_before = out@;
        src.remove(k);
        out.push(m);
        proof {
            broadcast use vstd::seq_lib::group_to_multiset_ensures;

            assert(out@.to_multiset() =~= out_before.to_multiset().insert(m));
            assert(src@.to_multiset() =~= src_before.to_multiset().remove(m));
            assert(out@.to_multiset().add(src@.to_multiset()) =~= orig.to_multiset()) by {
                assert(src_before.to_multiset().count(m) >= 1) by {
                    assert(src_before.contains(m));
                }
            }
            // The moved row has minimal position among what was left, so
            // the output stays sorted and still bounds the remainder.
            assert forall|p: int, q: int|
                0 <= p < out@.len() && 0 <= q < src@.len() implies out@[p].position
                <= src@[q].position by {
                let q0 = if q < k as int {
                    q
                } else {
                    q + 1
                };
                assert(src@[q] == src_before[q0]);
                if p < out_before.len() {
                    assert(out@[p] == out_before[p]);
                } else {
                    assert(out@[p] == m);
                }
            }
        }
    }
    proof {
        broadcast use vstd::seq_lib::group_to_multiset_ensures;

        assert(src@.to_multiset() =~= Multiset::<TimelineEvent>::empty());
        assert(out@.to_multiset() =~= orig.to_multiset());
    }
    out
}

impl TimelineStore {
    /// The index of the link with key `(tid, eid)`, if any.
    fn find_link(&self, tid: i64, eid: i64) -> (r: Option<usize>)
        requires
            self.wf(),
        ensures
            match r {
                Some(i) => {
                    &&& i < self@.links.len()
                    &&& self@.links[i as int].timeline_id == tid
                    &&& self@.links[i as int].event_id == eid
                    &&& spec_link_at(self@.links, tid, eid)
                    &&& spec_link_index(self@.links, tid, eid) == i as int
                },
                None => !spec_link_at(self@.links, tid, eid),
            },
    {
        let mut i: usize = 0;
        while i < self.links.len()
            invariant
                i <= self.links.len(),
                self.wf(),
                self@.links.len() == self.links.len(),
                forall|j: int|
                    0 <= j < i ==> !((#[trigger] self@.links[j]).timeline_id == tid
                        && self@.links[j].event_id == eid),
            decreases self.links.len() - i,
        {
            if self.links[i].timeline_id == tid && self.links[i].event_id == eid {
                proof {
                    let k = spec_link_index(self@.links, tid, eid);
                    assert(self@.links[i as int].timeline_id == tid && self@.links[
                        i as int
                    ].event_id == eid);
                    assert(0 <= k < self@.links.len() && self@.links[k].timeline_id == tid
                        && self@.links[k].event_id == eid);
                    if k != i as int {
                        assert(!link_key_eq(self@.links[k], self@.links[i as int]));
                    }
                }
                return Some(i);
            }
            i = i + 1;
        }
        proof {
            if spec_link_at(self@.links, tid, eid) {
                let k = choose|k: int|
                    0 <= k < self@.links.len() && self@.links[k].timeline_id == tid
                        && self@.links[k].event_id == eid;
                assert(!(self@.links[k].timeline_id == tid && self@.links[k].event_id == eid));
            }
        }
        None
    }

    /// Place an event on a timeline. If a link with that key already
    /// exists, it is returned unchanged — the requested position is not
    /// applied; otherwise the new link is inserted and returned.
    pub fn create_link(&mut self, timeline_id: i64, payload: &PostTimelineEvent) -> (r:
        TimelineEvent)
        requires
            old(self).wf(),
        ensures
            final(self).wf(),
            final(self)@.timelines == old(self)@.timelines,
            final(self)@.merges == old(self)@.merges,
            final(self).next_timeline_id == old(self).next_timeline_id,
            final(self).next_merge_id == old(self).next_merge_id,
            if spec_link_at(old(self)@.links, timeline_id, payload.event_id) {
                &&& final(self)@.links == old(self)@.links
                &&& r == old(self)@.links[spec_link_index(
                    old(self)@.links,
                    timeline_id,
                    payload.event_id,
                )]
            } else {
                &&& r == (TimelineEvent {
                    timeline_id,
                    event_id: payload.event_id,
                    position: payload.position,
                })
                &&& final(self)@.links == old(self)@.links.push(r)
            },
    {
        match self.find_link(timeline_id, payload.event_id) {
            Some(i) => self.links[i],
            None => {
                let ghost old_links = self@.links;
                let link = TimelineEvent {
                    timeline_id,
                    event_id: payload.event_id,
                    position: payload.position,
                };
                self.links.push(link);
                proof {
                    assert(self@.timelines == old(self)@.timelines);
                    assert(self@.merges == old(self)@.merges);
                    assert forall|p: int, q: int|
                        0 <= p < self@.links.len() && 0 <= q < self@.links.len() && p != q
                        implies !link_key_eq(self@.links[p], self@.links[q]) by {
                        if p < old_links.len() && q < old_links.len() {
                            assert(self@.links[p] == old_links[p]);
                            assert(self@.links[q] == old_links[q]);
                        } else if p == old_links.len() {
                            assert(self@.links[q] == old_links[q]);
                        } else {
                            assert(self@.links[p] == old_links[p]);
                        }
                    }
                }
                link
            },
        }
    }

    /// The link with key `(tid, eid)`, if any.
    pub fn get_link(&self, tid: i64, eid: i64) -> (r: Option<TimelineEvent>)
        requires
            self.wf(),
        ensures
            match r {
                Some(l) => {
                    &&& spec_link_at(self@.links, tid, eid)
                    &&& l == self@.links[spec_link_index(self@.links, tid, eid)]
                },
                None => !spec_link_at(self@.links, tid, eid),
            },
    {
        match self.find_link(tid, eid) {
            Some(i) => Some(self.links[i]),
            None => None,
        }
    }

    /// Delete the link with key `(tid, eid)`; 404 when no row was
    /// deleted.
    pub fn delete_link(&mut self, tid: i64, eid: i64) -> (r: Result<(), ApiError>)
        requires
            old(self).wf(),
        ensures
            final(self).wf(),
            final(self)@.timelines == old(self)@.timelines,
            final(self)@.merges == old(self)@.merges,
            final(self).next_timeline_id == old(self).next_timeline_id,
            final(self).next_merge_id == old(self).next_merge_id,
            match r {
                Ok(()) => {
                    &&& spec_link_at(old(self)@.links, tid, eid)
                    &&& final(self)@.links == old(self)@.links.remove(
                        spec_link_index(old(self)@.links, tid, eid),
                    )
                },
                Err(e) => {
                    &&& e == ApiError::NotFound
                    &&& !spec_link_at(old(self)@.links, tid, eid)
                    &&& final(self)@.links == old(self)@.links
                },
            },
    {
        match self.find_link(tid, eid) {
            None => Err(ApiError::NotFound),
            Some(i) => {
                let ghost old_links = self@.links;
                self.links.remove(i);
                proof {
                    assert(self@.timelines == old(self)@.timelines);
                    assert(self@.merges == old(self)@.merges);
                    assert(self@.links =~= old_links.remove(i as int));
                    assert forall|p: int, q: int|
                        0 <= p < self@.links.len() && 0 <= q < self@.links.len() && p != q
                        implies !link_key_eq(self@.links[p], self@.links[q]) by {
                        let p0 = if p < i as int { p } else { p + 1 };
                        let q0 = if q < i as int { q } else { q + 1 };
                        assert(self@.links[p] == old_links[p0]);
                        assert(self@.links[q] == old_links[q0]);
                    }
                }
                Ok(())
            },
        }
    }

    /// Move a link to a new position: a missing position is a bad
    /// request; a missing link is 404; otherwise exactly that link's
    /// position changes and the updated link is returned. Every refusal
    /// leaves the store exactly as it was.
    pub fn update_link_position(&mut self, tid: i64, eid: i64, payload: &UpdateTimelineEvent) -> (r:
        Result<TimelineEvent, ApiError>)
        requires
            old(self).wf(),
        ensures
            final(self).wf(),
            final(self)@.timelines == old(self)@.timelines,
            final(self)@.merges == old(self)@.merges,
            final(self).next_timeline_id == old(self).next_timeline_id,
            final(self).next_merge_id == old(self).next_merge_id,
            match r {
                Ok(l) => {
                    &&& spec_link_update_check(old(self)@.links, tid, eid, *payload) is None
                    &&& {
                        let i = spec_link_index(old(self)@.links, tid, eid);
                        &&& l == (TimelineEvent {
                            timeline_id: tid,
                            event_id: eid,
                            position: payload.position->0,
                        })
                        &&& final(self)@.links == old(self)@.links.update(i, l)
                    }
                },
                Err(e) => {
                    &&& Some(e) == spec_link_update_check(old(self)@.links, tid, eid, *payload)
                    &&& final(self)@ == old(self)@
                },
            },
    {
        let position = match payload.position {
            Some(p) => p,
            None => {
                return Err(ApiError::BadRequest);
            },
        };
        match self.find_link(tid, eid) {
            None => Err(ApiError::NotFound),
            Some(i) => {
                let ghost old_links = self@.links;
                let updated = TimelineEvent { timeline_id: tid, event_id: eid, position };
                self.links[i] = updated;
                proof {
                    assert(self@.timelines == old(self)@.timelines);
                    assert(self@.merges == old(self)@.merges);
                    assert(self@.links =~= old_links.update(i as int, updated));
                    assert forall|p: int, q: int|
                        0 <= p < self@.links.len() && 0 <= q < self@.links.len() && p != q
                        implies !link_key_eq(self@.links[p], self@.links[q]) by {
                        assert(!link_key_eq(old_links[p], old_links[q]));
                        if p == i as int {
                            assert(self@.links[p] == updated);
                        } else {
                            assert(self@.links[p] == old_links[p]);
                        }
                        if q == i as int {
                            assert(self@.links[q] == updated);
                        } else {
                            assert(self@.links[q] == old_links[q]);
                        }
                        assert(updated.timeline_id == old_links[i as int].timeline_id);
                        assert(updated.event_id == old_links[i as int].event_id);
                    }
                }
                Ok(updated)
            },
        }
    }

    /// All links of one timeline, in ascending position order: exactly
    /// the rows of `spec_links_of_timeline`, with rows of equal position
    /// in unspecified order.
    pub fn links_for_timeline(&self, tid: i64) -> (v: Vec<TimelineEvent>)
        ensures
            v@.to_multiset() == spec_links_of_timeline(self@.links, tid).to_multiset(),
            sorted_by_position(v@),
    {
        sort_links_by_position(self.collect_links_of_timeline(tid))
    }

    /// The links of one timeline, in table order.
    fn collect_links_of_timeline(&self, tid: i64) -> (v: Vec<TimelineEvent>)
        ensures
            v@ == spec_links_of_timeline(self@.links, tid),
    {
        let mut v: Vec<TimelineEvent> = Vec::new();
        let mut i: usize = 0;
        while i < self.links.len()
            invariant
                i <= self.links.len(),
                self@.links.len() == self.links.len(),
                v@ == spec_links_of_timeline(self@.links.subrange(0, i as int), tid),
            decreases self.links.len() - i,
        {
            let ghost pre = self@.links.subrange(0, i as int);
            if self.links[i].timeline_id == tid {
                v.push(self.links[i]);
            }
            proof {
                lemma_links_of_timeline_push(pre, self@.links[i as int], tid);
                assert(self@.links.subrange(0, i as int + 1) =~= pre.push(self@.links[i as int]));
                if self@.links[i as int].timeline_id == tid {
                    assert(v@ =~= spec_links_of_timeline(pre, tid) + seq![self@.links[i as int]]);
                } else {
                    assert(v@ =~= spec_links_of_timeline(pre, tid) + Seq::<
                        TimelineEvent,
                    >::empty());
                }
            }
            i = i + 1;
        }
        proof {
            assert(self@.links.subrange(0, self@.links.len() as int) =~= self@.links);
        }
        v
    }

    /// All links referencing one event, in ascending position order:
    /// exactly the rows of `spec_links_of_event`, with rows of equal
    /// position in unspecified order.
    pub fn timelines_for_event(&self, eid: i64) -> (v: Vec<TimelineEvent>)
        ensures
            v@.to_multiset() == spec_links_of_event(self@.links, eid).to_multiset(),
            sorted_by_position(v@),
    {
        sort_links_by_position(self.collect_links_of_event(eid))
    }

    /// The links of one event, in table order.
    fn collect_links_of_event(&self, eid: i64) -> (v: Vec<TimelineEvent>)
        ensures
            v@ == spec_links_of_event(self@.links, eid),
    {
        let mut v: Vec<TimelineEvent> = Vec::new();
        let mut i: usize = 0;
        while i < self.links.len()
            invariant
                i <= self.links.len(),
                self@.links.len() == self.links.len(),
                v@ == spec_links_of_event(self@.links.subrange(0, i as int), eid),
            decreases self.links.len() - i,
        {
            let ghost pre = self@.links.subrange(0, i as int);
            if self.links[i].event_id == eid {
                v.push(self.links[i]);
            }
            proof {
                lemma_links_of_event_push(pre, self@.links[i as int], eid);
                assert(self@.links.subrange(0, i as int + 1) =~= pre.push(self@.links[i as int]));
                if self@.links[i as int].event_id == eid {
                    assert(v@ =~= spec_links_of_event(pre, eid) + seq![self@.links[i as int]]);
                } else {
                    assert(v@ =~= spec_links_of_event(pre, eid) + Seq::<TimelineEvent>::empty());
                }
            }
            i = i + 1;
        }
        proof {
            assert(self@.links.subrange(0, self@.links.len() as int) =~= self@.links);
        }
        v
    }
}

} // verus!
