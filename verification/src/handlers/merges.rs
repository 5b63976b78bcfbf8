//! The timeline-merge workflow, executed as one all-or-nothing unit:
//! migrate the source timeline's child-links to the target (the target's
//! existing links always win), delete the source's links, delete the
//! source timeline, record the merge.
//!
//! [`TimelineStore`] models the three tables the workflow spans; since the
//! model mutates them in one call, a refusal leaves the model exactly as it
//! was, which is the atomicity the real store provides through its
//! transaction.

use vstd::prelude::*;
use vstd::seq_lib::*;
use crate::error::ApiError;
use crate::models::merges::{TimelineMerge, TimelineMergeView};
use crate::models::timeline::{Timeline, TimelineView};
use crate::models::timeline_event::TimelineEvent;

verus! {

/// Body of a merge request.
#[derive(Clone, Copy, Debug, PartialEq, Eq, Structural)]
pub struct PostTimelineMerge {
    pub source_timeline_id: i64,
    pub target_timeline_id: i64,
}

/// Whether two links share the `(timeline_id, event_id)` key.
pub open spec fn link_key_eq(a: TimelineEvent, b: TimelineEvent) -> bool {
    a.timeline_id == b.timeline_id && a.event_id == b.event_id
}

/// Whether some link with key `(tid, eid)` is present.
pub open spec fn spec_link_at(ls: Seq<TimelineEvent>, tid: i64, eid: i64) -> bool {
    exists|i: int| 0 <= i < ls.len() && ls[i].timeline_id == tid && ls[i].event_id == eid
}

/// Link keys are unique.
pub open spec fn links_wf(ls: Seq<TimelineEvent>) -> bool {
    forall|i: int, j: int|
        0 <= i < ls.len() && 0 <= j < ls.len() && i != j ==> !link_key_eq(ls[i], ls[j])
}

/// A source link re-homed under the target, position kept.
pub open spec fn moved_link(l: TimelineEvent, target: i64) -> TimelineEvent {
    TimelineEvent { timeline_id: target, event_id: l.event_id, position: l.position }
}

/// The links that survive the merge untouched: everything not owned by
/// the source.
pub open spec fn spec_retained_links(ls: Seq<TimelineEvent>, source: i64) -> Seq<TimelineEvent> {
    ls.filter(|l: TimelineEvent| l.timeline_id != source)
}

/// The source-owned links of `prefix` whose event is not already linked
/// to the target anywhere in `all`.
pub open spec fn spec_moved_src(
    prefix: Seq<TimelineEvent>,
    all: Seq<TimelineEvent>,
    source: i64,
    target: i64,
) -> Seq<TimelineEvent> {
    prefix.filter(
        |l: TimelineEvent| l.timeline_id == source && !spec_link_at(all, target, l.event_id),
    )
}

/// The part of `prefix` that migrates: the conflict-free source links,
/// re-homed under the target.
pub open spec fn spec_moved_part(
    prefix: Seq<TimelineEvent>,
    all: Seq<TimelineEvent>,
    source: i64,
    target: i64,
) -> Seq<TimelineEvent> {
    spec_moved_src(prefix, all, source, target).map_values(
        |l: TimelineEvent| moved_link(l, target),
    )
}

/// The links that migrate in a merge of `source` into `target`.
pub open spec fn spec_moved_links(ls: Seq<TimelineEvent>, source: i64, target: i64) -> Seq<
    TimelineEvent,
> {
    spec_moved_part(ls, ls, source, target)
}

/// The link table after the merge: retained links, then the migrated
/// ones.
pub open spec fn spec_merge_links(ls: Seq<TimelineEvent>, source: i64, target: i64) -> Seq<
    TimelineEvent,
> {
    spec_retained_links(ls, source) + spec_moved_links(ls, source, target)
}

/// Appending one link extends the retained part by that link exactly when
/// it is not source-owned.
proof fn lemma_retained_push(prefix: Seq<TimelineEvent>, x: TimelineEvent, source: i64)
    ensures
        spec_retained_links(prefix.push(x), source) == spec_retained_links(prefix, source) + (
        if x.timeline_id != source {
            seq![x]
        } else {
            Seq::<TimelineEvent>::empty()
        }),
{
    reveal(Seq::filter);
    assert(prefix.push(x).drop_last() =~= prefix);
    assert(prefix.push(x).last() == x);
    if x.timeline_id != source {
        assert(spec_retained_links(prefix.push(x), source) =~= spec_retained_links(prefix, source)
            + seq![x]);
    } else {
        assert(spec_retained_links(prefix.push(x), source) =~= spec_retained_links(prefix, source)
            + Seq::<TimelineEvent>::empty());
    }
}

/// What the retained part holds: links of other timelines, drawn one-for-
/// one from the table, every non-source link among them, with no key twice.
pub proof fn lemma_retained_props(ls: Seq<TimelineEvent>, source: i64)
    requires
        links_wf(ls),
    ensures
        ({
            let ret = spec_retained_links(ls, source);
            &&& forall|j: int|
                0 <= j < ret.len() ==> (#[trigger] ret[j]).timeline_id != source && exists|k: int|
                    0 <= k < ls.len() && ls[k] == ret[j]
            &&& forall|k: int|
                0 <= k < ls.len() && (#[trigger] ls[k]).timeline_id != source ==> ret.contains(
                    ls[k],
                )
            &&& forall|p: int, q: int|
                0 <= p < ret.len() && 0 <= q < ret.len() && p != q ==> !link_key_eq(
                    ret[p],
                    ret[q],
                )
        }),
    decreases ls.len(),
{
    reveal(Seq::filter);
    let ret = spec_retained_links(ls, source);
    if ls.len() == 0 {
    } else {
        let d = ls.drop_last();
        let x = ls.last();
        assert(forall|i: int| 0 <= i < d.len() ==> d[i] == ls[i]);
        lemma_retained_props(d, source);
        assert(d.push(x) =~= ls);
        lemma_retained_push(d, x, source);
        let retd = spec_retained_links(d, source);
        assert forall|j: int| 0 <= j < ret.len() implies (#[trigger] ret[j]).timeline_id != source
            && exists|k: int| 0 <= k < ls.len() && ls[k] == ret[j] by {
            if j < retd.len() {
                assert(ret[j] == retd[j]);
                let k = choose|k: int| 0 <= k < d.len() && d[k] == retd[j];
                assert(ls[k] == ret[j]);
            } else {
                assert(ret[j] == x);
                assert(ls[ls.len() - 1] == ret[j]);
            }
        }
        assert forall|k: int|
            0 <= k < ls.len() && (#[trigger] ls[k]).timeline_id != source implies ret.contains(
            ls[k],
        ) by {
            if k < d.len() {
                assert(retd.contains(d[k]));
                let j = choose|j: int| 0 <= j < retd.len() && retd[j] == d[k];
                assert(ret[j] == ls[k]);
            } else {
                assert(ret[ret.len() - 1] == x);
            }
        }
        assert forall|p: int, q: int|
            0 <= p < ret.len() && 0 <= q < ret.len() && p != q implies !link_key_eq(
            ret[p],
            ret[q],
        ) by {
            if p < retd.len() && q < retd.len() {
                assert(ret[p] == retd[p] && ret[q] == retd[q]);
            } else if p < retd.len() {
                assert(ret[q] == x);
                let k = choose|k: int| 0 <= k < d.len() && d[k] == retd[p];
                assert(ls[k] == ret[p]);
                assert(!link_key_eq(ls[k], ls[ls.len() - 1]));
            } else {
                assert(ret[p] == x);
                let k = choose|k: int| 0 <= k < d.len() && d[k] == retd[q];
                assert(ls[k] == ret[q]);
                assert(!link_key_eq(ls[ls.len() - 1], ls[k]));
            }
        }
    }
}

/// Appending one link extends the migrated sub-table by that link
/// exactly when it is source-owned and conflict-free.
proof fn lemma_moved_push(
    prefix: Seq<TimelineEvent>,
    x: TimelineEvent,
    all: Seq<TimelineEvent>,
    source: i64,
    target: i64,
)
    ensures
        spec_moved_src(prefix.push(x), all, source, target) == spec_moved_src(
            prefix,
            all,
            source,
            target,
        ) + (if x.timeline_id == source && !spec_link_at(all, target, x.event_id) {
            seq![x]
        } else {
            Seq::<TimelineEvent>::empty()
        }),
        spec_moved_part(prefix.push(x), all, source, target) == spec_moved_part(
            prefix,
            all,
            source,
            target,
        ) + (if x.timeline_id == source && !spec_link_at(all, target, x.event_id) {
            seq![moved_link(x, target)]
        } else {
            Seq::<TimelineEvent>::empty()
        }),
{
    reveal(Seq::filter);
    assert(prefix.push(x).drop_last() =~= prefix);
    assert(prefix.push(x).last() == x);
    if x.timeline_id == source && !spec_link_at(all, target, x.event_id) {
        assert(spec_moved_src(prefix.push(x), all, source, target) =~= spec_moved_src(
            prefix,
            all,
            source,
            target,
        ) + seq![x]);
        assert(spec_moved_part(prefix.push(x), all, source, target) =~= spec_moved_part(
            prefix,
            all,
            source,
            target,
        ) + seq![moved_link(x, target)]);
    } else {
        assert(spec_moved_src(prefix.push(x), all, source, target) =~= spec_moved_src(
            prefix,
            all,
            source,
            target,
        ) + Seq::<TimelineEvent>::empty());
        assert(spec_moved_part(prefix.push(x), all, source, target) =~= spec_moved_part(
            prefix,
            all,
            source,
            target,
        ) + Seq::<TimelineEvent>::empty());
    }
}

/// What the migrated part of the first `n` rows holds: target-homed
/// copies of exactly the conflict-free source links among them, positions
/// kept, with no event twice.
pub proof fn lemma_moved_part_props(n: int, all: Seq<TimelineEvent>, source: i64, target: i64)
    requires
        links_wf(all),
        0 <= n <= all.len(),
    ensures
        ({
            let mv = spec_moved_part(all.subrange(0, n), all, source, target);
            &&& forall|j: int|
                0 <= j < mv.len() ==> (#[trigger] mv[j]).timeline_id == target && exists|k: int|
                    0 <= k < n && all[k].timeline_id == source && !spec_link_at(
                        all,
                        target,
                        all[k].event_id,
                    ) && mv[j] == moved_link(all[k], target)
            &&& forall|k: int|
                0 <= k < n && (#[trigger] all[k]).timeline_id == source && !spec_link_at(
                    all,
                    target,
                    all[k].event_id,
                ) ==> mv.contains(moved_link(all[k], target))
            &&& forall|p: int, q: int|
                0 <= p < mv.len() && 0 <= q < mv.len() && p != q ==> mv[p].event_id
                    != mv[q].event_id
        }),
    decreases n,
{
    let prefix = all.subrange(0, n);
    let mv = spec_moved_part(prefix, all, source, target);
    if n == 0 {
        reveal(Seq::filter);
        assert(prefix =~= Seq::<TimelineEvent>::empty());
        assert(spec_moved_src(prefix, all, source, target) =~= Seq::<TimelineEvent>::empty());
        assert(mv =~= Seq::<TimelineEvent>::empty());
    } else {
        lemma_moved_part_props(n - 1, all, source, target);
        let d = all.subrange(0, n - 1);
        let x = all[n - 1];
        assert(d.push(x) =~= prefix);
        lemma_moved_push(d, x, all, source, target);
        let mvd = spec_moved_part(d, all, source, target);
        assert forall|j: int| 0 <= j < mv.len() implies (#[trigger] mv[j]).timeline_id == target
            && exists|k: int|
            0 <= k < n && all[k].timeline_id == source && !spec_link_at(
                all,
                target,
                all[k].event_id,
            ) && mv[j] == moved_link(all[k], target) by {
            if j < mvd.len() {
                assert(mv[j] == mvd[j]);
                let k = choose|k: int|
                    0 <= k < n - 1 && all[k].timeline_id == source && !spec_link_at(
                        all,
                        target,
                        all[k].event_id,
                    ) && mvd[j] == moved_link(all[k], target);
                assert(0 <= k < n && all[k].timeline_id == source && !spec_link_at(
                    all,
                    target,
                    all[k].event_id,
                ) && mv[j] == moved_link(all[k], target));
            } else {
                assert(mv[j] == moved_link(x, target));
                assert(0 <= n - 1 < n && all[n - 1].timeline_id == source && !spec_link_at(
                    all,
                    target,
                    all[n - 1].event_id,
                ) && mv[j] == moved_link(all[n - 1], target));
            }
        }
        assert forall|k: int|
            0 <= k < n && (#[trigger] all[k]).timeline_id == source && !spec_link_at(
            all,
            target,
            all[k].event_id,
        ) implies mv.contains(moved_link(all[k], target)) by {
            if k < n - 1 {
                assert(mvd.contains(moved_link(all[k], target)));
                let j = choose|j: int| 0 <= j < mvd.len() && mvd[j] == moved_link(all[k], target);
                assert(mv[j] == moved_link(all[k], target));
            } else {
                assert(mv[mv.len() - 1] == moved_link(x, target));
            }
        }
        assert forall|p: int, q: int|
            0 <= p < mv.len() && 0 <= q < mv.len() && p != q implies mv[p].event_id
            != mv[q].event_id by {
            let k1 = choose|k: int|
                0 <= k < n && all[k].timeline_id == source && !spec_link_at(
                    all,
                    target,
                    all[k].event_id,
                ) && mv[p] == moved_link(all[k], target);
            let k2 = choose|k: int|
                0 <= k < n && all[k].timeline_id == source && !spec_link_at(
                    all,
                    target,
                    all[k].event_id,
                ) && mv[q] == moved_link(all[k], target);
            if mv[p].event_id == mv[q].event_id {
                assert(link_key_eq(all[k1], all[k2]));
                assert(k1 == k2);
                assert(mv[p] == mv[q]);
                lemma_moved_no_two_copies(n, all, source, target, p, q);
            }
        }
    }
}

/// Two distinct positions of the migrated part never hold equal copies:
/// equal copies would come from two prefix rows with the same key.
proof fn lemma_moved_no_two_copies(
    n: int,
    all: Seq<TimelineEvent>,
    source: i64,
    target: i64,
    p: int,
    q: int,
)
    requires
        links_wf(all),
        0 <= n <= all.len(),
        0 <= p < spec_moved_part(all.subrange(0, n), all, source, target).len(),
        0 <= q < spec_moved_part(all.subrange(0, n), all, source, target).len(),
        p != q,
    ensures
        spec_moved_part(all.subrange(0, n), all, source, target)[p] != spec_moved_part(
            all.subrange(0, n),
            all,
            source,
            target,
        )[q],
    decreases n,
{
    let prefix = all.subrange(0, n);
    let mv = spec_moved_part(prefix, all, source, target);
    let src = spec_moved_src(prefix, all, source, target);
    lemma_moved_src_no_dup(n, all, source, target);
    assert(mv[p] == moved_link(src[p], target) && mv[q] == moved_link(src[q], target));
    assert(src[p].position != src[q].position || src[p].event_id != src[q].event_id);
}

/// The filtered source sub-table of a well-formed link table has pairwise
/// distinct rows.
proof fn lemma_moved_src_no_dup(n: int, all: Seq<TimelineEvent>, source: i64, target: i64)
    requires
        links_wf(all),
        0 <= n <= all.len(),
    ensures
        ({
            let src = spec_moved_src(all.subrange(0, n), all, source, target);
            forall|p: int, q: int|
                0 <= p < src.len() && 0 <= q < src.len() && p != q ==> src[p] != src[q]
        }),
    decreases n,
{
    let prefix = all.subrange(0, n);
    let src = spec_moved_src(prefix, all, source, target);
    if n == 0 {
        reveal(Seq::filter);
        assert(prefix =~= Seq::<TimelineEvent>::empty());
        assert(src =~= Seq::<TimelineEvent>::empty());
    } else {
        lemma_moved_src_no_dup(n - 1, all, source, target);
        lemma_moved_src_witness(n - 1, all, source, target);
        let d = all.subrange(0, n - 1);
        let x = all[n - 1];
        assert(d.push(x) =~= prefix);
        lemma_moved_push(d, x, all, source, target);
        let srcd = spec_moved_src(d, all, source, target);
        assert forall|p: int, q: int|
            0 <= p < src.len() && 0 <= q < src.len() && p != q implies src[p] != src[q] by {
            if p < srcd.len() && q < srcd.len() {
                assert(src[p] == srcd[p] && src[q] == srcd[q]);
            } else if p < srcd.len() {
                assert(src[q] == x);
                assert(src[p] == srcd[p]);
                let k = choose|k: int| 0 <= k < n - 1 && all[k] == srcd[p];
                assert(!link_key_eq(all[k], all[n - 1]));
            } else {
                assert(src[p] == x);
                assert(src[q] == srcd[q]);
                let k = choose|k: int| 0 <= k < n - 1 && all[k] == srcd[q];
                assert(!link_key_eq(all[k], all[n - 1]));
            }
        }
    }
}

/// Every row of the filtered source sub-table is drawn from the table's
/// prefix.
proof fn lemma_moved_src_witness(n: int, all: Seq<TimelineEvent>, source: i64, target: i64)
    requires
        0 <= n <= all.len(),
    ensures
        ({
            let src = spec_moved_src(all.subrange(0, n), all, source, target);
            forall|j: int|
                0 <= j < src.len() ==> exists|k: int| 0 <= k < n && all[k] == #[trigger] src[j]
        }),
    decreases n,
{
    let prefix = all.subrange(0, n);
    let src = spec_moved_src(prefix, all, source, target);
    if n == 0 {
        reveal(Seq::filter);
        assert(prefix =~= Seq::<TimelineEvent>::empty());
        assert(src =~= Seq::<TimelineEvent>::empty());
    } else {
        lemma_moved_src_witness(n - 1, all, source, target);
        let d = all.subrange(0, n - 1);
        let x = all[n - 1];
        assert(d.push(x) =~= prefix);
        lemma_moved_push(d, x, all, source, target);
        let srcd = spec_moved_src(d, all, source, target);
        assert forall|j: int| 0 <= j < src.len() implies exists|k: int|
            0 <= k < n && all[k] == #[trigger] src[j] by {
            if j < srcd.len() {
                assert(src[j] == srcd[j]);
                let k = choose|k: int| 0 <= k < n - 1 && all[k] == srcd[j];
                assert(all[k] == src[j]);
            } else {
                assert(src[j] == x);
                assert(all[n - 1] == src[j]);
            }
        }
    }
}

/// Whether the table holds a link with key `(tid, eid)`.
pub fn link_exists(links: &Vec<TimelineEvent>, tid: i64, eid: i64) -> (r: bool)
    ensures
        r == spec_link_at(links@, tid, eid),
{
    let mut i: usize = 0;
    while i < links.len()
        invariant
            i <= links.len(),
            forall|j: int|
                0 <= j < i ==> !((#[trigger] links@[j]).timeline_id == tid && links@[j].event_id
                    == eid),
        decreases links.len() - i,
    {
        if links[i].timeline_id == tid && links[i].event_id == eid {
            proof {
                assert(links@[i as int].timeline_id == tid && links@[i as int].event_id == eid);
            }
            return true;
        }
        i = i + 1;
    }
    proof {
        if spec_link_at(links@, tid, eid) {
            let k = choose|k: int|
                0 <= k < links@.len() && links@[k].timeline_id == tid && links@[k].event_id == eid;
            assert(!(links@[k].timeline_id == tid && links@[k].event_id == eid));
        }
    }
    false
}

/// The links that survive a merge of `source` untouched: every link of
/// another timeline, in table order.
fn retain_links(links: &Vec<TimelineEvent>, source: i64) -> (v: Vec<TimelineEvent>)
    ensures
        v@ == spec_retained_links(links@, source),
{
    let mut v: Vec<TimelineEvent> = Vec::new();
    let mut i: usize = 0;
    while i < links.len()
        invariant
            i <= links.len(),
            v@ == spec_retained_links(links@.subrange(0, i as int), source),
        decreases links.len() - i,
    {
        let ghost pre = links@.subrange(0, i as int);
        if links[i].timeline_id != source {
            v.push(links[i]);
        }
        proof {
            lemma_retained_push(pre, links@[i as int], source);
            assert(links@.subrange(0, i as int + 1) =~= pre.push(links@[i as int]));
            if links@[i as int].timeline_id != source {
                assert(v@ =~= spec_retained_links(pre, source) + seq![links@[i as int]]);
            } else {
                assert(v@ =~= spec_retained_links(pre, source) + Seq::<TimelineEvent>::empty());
            }
        }
        i = i + 1;
    }
    proof {
        assert(links@.subrange(0, links@.len() as int) =~= links@);
    }
    v
}

/// The rows a merge of `source` into `target` inserts under the target:
/// each source link whose event the target does not already have, with
/// its position kept. This is the conflict-resolution decision itself —
/// the target's existing links always win.
pub fn plan_moved_links(links: &Vec<TimelineEvent>, source: i64, target: i64) -> (v: Vec<
    TimelineEvent,
>)
    ensures
        v@ == spec_moved_links(links@, source, target),
{
    let mut v: Vec<TimelineEvent> = Vec::new();
    let mut i: usize = 0;
    while i < links.len()
        invariant
            i <= links.len(),
            v@ == spec_moved_part(links@.subrange(0, i as int), links@, source, target),
        decreases links.len() - i,
    {
        let ghost pre = links@.subrange(0, i as int);
        if links[i].timeline_id == source && !link_exists(links, target, links[i].event_id) {
            v.push(
                TimelineEvent {
                    timeline_id: target,
                    event_id: links[i].event_id,
                    position: links[i].position,
                },
            );
        }
        proof {
            lemma_moved_push(pre, links@[i as int], links@, source, target);
            assert(links@.subrange(0, i as int + 1) =~= pre.push(links@[i as int]));
            if links@[i as int].timeline_id == source && !spec_link_at(
                links@,
                target,
                links@[i as int].event_id,
            ) {
                assert(v@ =~= spec_moved_part(pre, links@, source, target) + seq![
                    moved_link(links@[i as int], target),
                ]);
            } else {
                assert(v@ =~= spec_moved_part(pre, links@, source, target) + Seq::<
                    TimelineEvent,
                >::empty());
            }
        }
        i = i + 1;
    }
    proof {
        assert(links@.subrange(0, links@.len() as int) =~= links@);
    }
    v
}

/// The mathematical content of a [`TimelineStore`]: the three tables the
/// merge workflow spans.
#[verifier::ext_equal]
pub ghost struct TimelineStoreView {
    pub timelines: Seq<TimelineView>,
    pub links: Seq<TimelineEvent>,
    pub merges: Seq<TimelineMergeView>,
}

/// The timelines, their event links and the merge log, modeled in
/// memory, plus the id counters the store assigns from.
pub struct TimelineStore {
    pub timelines: Vec<Timeline>,
    pub links: Vec<TimelineEvent>,
    pub merges: Vec<TimelineMerge>,
    pub next_timeline_id: i64,
    pub next_merge_id: i64,
}

impl View for TimelineStore {
    type V = TimelineStoreView;

    open spec fn view(&self) -> TimelineStoreView {
        TimelineStoreView {
            timelines: self.timelines@.map_values(|t: Timeline| t@),
            links: self.links@,
            merges: self.merges@.map_values(|m: TimelineMerge| m@),
        }
    }
}

pub open spec fn spec_has_timeline(ts: Seq<TimelineView>, id: int) -> bool {
    exists|i: int| 0 <= i < ts.len() && ts[i].id == id
}

/// The index of the timeline with key `id` (unique in a well-formed
/// store).
pub open spec fn spec_timeline_index(ts: Seq<TimelineView>, id: int) -> int {
    choose|i: int| 0 <= i < ts.len() && ts[i].id == id
}

pub open spec fn spec_has_merge(ms: Seq<TimelineMergeView>, id: int) -> bool {
    exists|i: int| 0 <= i < ms.len() && ms[i].id == id
}

/// The index of the merge record with key `id`.
pub open spec fn spec_merge_index(ms: Seq<TimelineMergeView>, id: int) -> int {
    choose|i: int| 0 <= i < ms.len() && ms[i].id == id
}

impl TimelineStore {
    /// Keys are unique in each table and below their id counters.
    pub open spec fn wf(&self) -> bool {
        &&& forall|i: int, j: int|
            0 <= i < self@.timelines.len() && 0 <= j < self@.timelines.len() && i != j
                ==> self@.timelines[i].id != self@.timelines[j].id
        &&& forall|i: int|
            0 <= i < self@.timelines.len() ==> (#[trigger] self@.timelines[i]).id
                < self.next_timeline_id
        &&& 1 <= self.next_timeline_id
        &&& links_wf(self@.links)
        &&& forall|i: int, j: int|
            0 <= i < self@.merges.len() && 0 <= j < self@.merges.len() && i != j
                ==> self@.merges[i].id != self@.merges[j].id
        &&& forall|i: int|
            0 <= i < self@.merges.len() ==> (#[trigger] self@.merges[i]).id < self.next_merge_id
        &&& 1 <= self.next_merge_id
    }

    /// An empty store, both id counters at 1.
    pub fn new() -> (s: TimelineStore)
        ensures
            s@.timelines == Seq::<TimelineView>::empty(),
            s@.links == Seq::<TimelineEvent>::empty(),
            s@.merges == Seq::<TimelineMergeView>::empty(),
            s.next_timeline_id == 1,
            s.next_merge_id == 1,
            s.wf(),
    {
        let s = TimelineStore {
            timelines: Vec::new(),
            links: Vec::new(),
            merges: Vec::new(),
            next_timeline_id: 1,
            next_merge_id: 1,
        };
        proof {
            assert(s@.timelines =~= Seq::<TimelineView>::empty());
            assert(s@.links =~= Seq::<TimelineEvent>::empty());
            assert(s@.merges =~= Seq::<TimelineMergeView>::empty());
        }
        s
    }

    /// The index of the timeline with key `id`, if any.
    pub fn find_timeline(&self, id: i64) -> (r: Option<usize>)
        requires
            self.wf(),
        ensures
            match r {
                Some(i) => {
                    &&& i < self@.timelines.len()
                    &&& self@.timelines[i as int].id == id as int
                    &&& spec_has_timeline(self@.timelines, id as int)
                    &&& spec_timeline_index(self@.timelines, id as int) == i as int
                },
                None => !spec_has_timeline(self@.timelines, id as int),
            },
    {
        let mut i: usize = 0;
        while i < self.timelines.len()
            invariant
                i <= self.timelines.len(),
                self.wf(),
                self@.timelines.len() == self.timelines.len(),
                forall|j: int| 0 <= j < i ==> self@.timelines[j].id != id as int,
            decreases self.timelines.len() - i,
        {
            if self.timelines[i].id == id {
                proof {
                    let k = spec_timeline_index(self@.timelines, id as int);
                    assert(self@.timelines[i as int].id == id as int);
                    assert(0 <= k < self@.timelines.len() && self@.timelines[k].id == id as int);
                }
                return Some(i);
            }
            i = i + 1;
        }
        proof {
            if spec_has_timeline(self@.timelines, id as int) {
                let k = choose|k: int|
                    0 <= k < self@.timelines.len() && self@.timelines[k].id == id as int;
                assert(self@.timelines[k].id != id as int);
            }
        }
        None
    }

    /// Merge `source` into `target` as one all-or-nothing unit: insert
    /// the conflict-free source links under the target (the target's
    /// existing links win), delete the source's links, delete the source
    /// timeline (a missing source aborts the whole operation), and record
    /// the merge. Any refusal leaves every table exactly as it was.
    pub fn merge(&mut self, payload: &PostTimelineMerge, merged_at: String) -> (r: Result<
        TimelineMerge,
        ApiError,
    >)
        requires
            old(self).wf(),
        ensures
            final(self).wf(),
            final(self).next_timeline_id == old(self).next_timeline_id,
            match r {
                Ok(rec) => {
                    &&& spec_has_timeline(
                        old(self)@.timelines,
                        payload.source_timeline_id as int,
                    )
                    &&& rec@ == (TimelineMergeView {
                        id: old(self).next_merge_id as int,
                        source_timeline_id: payload.source_timeline_id as int,
                        target_timeline_id: payload.target_timeline_id as int,
                        merged_at: merged_at@,
                    })
                    &&& final(self)@.timelines == old(self)@.timelines.remove(
                        spec_timeline_index(
                            old(self)@.timelines,
                            payload.source_timeline_id as int,
                        ),
                    )
                    &&& final(self)@.links == spec_merge_links(
                        old(self)@.links,
                        payload.source_timeline_id,
                        payload.target_timeline_id,
                    )
                    &&& final(self)@.merges == old(self)@.merges.push(rec@)
                    &&& final(self).next_merge_id == old(self).next_merge_id + 1
                },
                Err(e) => {
                    &&& final(self)@ == old(self)@
                    &&& final(self).next_merge_id == old(self).next_merge_id
                    &&& (e == ApiError::NotFound || e == ApiError::InternalError)
                    &&& (e == ApiError::NotFound <==> !spec_has_timeline(
                        old(self)@.timelines,
                        payload.source_timeline_id as int,
                    ))
                    &&& (e == ApiError::InternalError ==> old(self).next_merge_id == i64::MAX)
                },
            },
    {
        let source = payload.source_timeline_id;
        let target = payload.target_timeline_id;
        match self.find_timeline(source) {
            None => Err(ApiError::NotFound),
            Some(ti) => {
                if self.next_merge_id == i64::MAX {
                    return Err(ApiError::InternalError);
                }
                let ghost old_links = self@.links;
                let ghost old_timelines = self@.timelines;
                let ghost old_merges = self@.merges;
                let mut new_links = retain_links(&self.links, source);
                let mut moved = plan_moved_links(&self.links, source, target);
                new_links.append(&mut moved);
                self.links = new_links;
                self.timelines.remove(ti);
                let rec = TimelineMerge {
                    id: self.next_merge_id,
                    source_timeline_id: source,
                    target_timeline_id: target,
                    merged_at,
                };
                let stored = rec.clone();
                self.merges.push(stored);
                self.next_merge_id = self.next_merge_id + 1;
                proof {
                    lemma_retained_props(old_links, source);
                    lemma_moved_part_props(old_links.len() as int, old_links, source, target);
                    assert(old_links.subrange(0, old_links.len() as int) =~= old_links);
                    let ret = spec_retained_links(old_links, source);
                    let mv = spec_moved_links(old_links, source, target);
                    assert(self@.links == ret + mv);
                    // The rebuilt link table keeps keys unique: retained
                    // keys were unique; migrated events are pairwise
                    // distinct; and a migrated key `(target, e)` cannot
                    // collide with a retained link, which would have had
                    // to be a target link of `e` already.
                    assert forall|p: int, q: int|
                        0 <= p < self@.links.len() && 0 <= q < self@.links.len() && p != q
                        implies !link_key_eq(self@.links[p], self@.links[q]) by {
                        let a = self@.links[p];
                        let b = self@.links[q];
                        if p < ret.len() && q < ret.len() {
                            assert(a == ret[p] && b == ret[q]);
                        } else if p >= ret.len() && q >= ret.len() {
                            assert(a == mv[p - ret.len()] && b == mv[q - ret.len()]);
                        } else if p < ret.len() {
                            assert(a == ret[p] && b == mv[q - ret.len()]);
                            if link_key_eq(a, b) {
                                let k = choose|k: int|
                                    0 <= k < old_links.len() && old_links[k] == ret[p];
                                assert(spec_link_at(old_links, target, b.event_id));
                            }
                        } else {
                            assert(b == ret[q] && a == mv[p - ret.len()]);
                            if link_key_eq(a, b) {
                                let k = choose|k: int|
                                    0 <= k < old_links.len() && old_links[k] == ret[q];
                                assert(spec_link_at(old_links, target, a.event_id));
                            }
                        }
                    }
                    // Removing the source timeline keeps ids unique and
                    // below the counter.
                    assert(self@.timelines =~= old_timelines.remove(ti as int));
                    assert forall|p: int, q: int|
                        0 <= p < self@.timelines.len() && 0 <= q < self@.timelines.len() && p != q
                        implies self@.timelines[p].id != self@.timelines[q].id by {
                        let p0 = if p < ti as int { p } else { p + 1 };
                        let q0 = if q < ti as int { q } else { q + 1 };
                        assert(self@.timelines[p] == old_timelines[p0]);
                        assert(self@.timelines[q] == old_timelines[q0]);
                    }
                    assert forall|p: int| 0 <= p < self@.timelines.len()
                        implies (#[trigger] self@.timelines[p]).id < self.next_timeline_id by {
                        let p0 = if p < ti as int { p } else { p + 1 };
                        assert(self@.timelines[p] == old_timelines[p0]);
                    }
                    assert(self@.merges =~= old_merges.push(rec@));
                }
                Ok(rec)
            },
        }
    }

    /// The merge record with key `id`, if any.
    pub fn get_merge_by_id(&self, id: i64) -> (r: Option<TimelineMerge>)
        requires
            self.wf(),
        ensures
            match r {
                Some(m) => {
                    &&& spec_has_merge(self@.merges, id as int)
                    &&& m@ == self@.merges[spec_merge_index(self@.merges, id as int)]
                },
                None => !spec_has_merge(self@.merges, id as int),
            },
    {
        let mut i: usize = 0;
        while i < self.merges.len()
            invariant
                i <= self.merges.len(),
                self.wf(),
                self@.merges.len() == self.merges.len(),
                forall|j: int| 0 <= j < i ==> self@.merges[j].id != id as int,
            decreases self.merges.len() - i,
        {
            if self.merges[i].id == id {
                proof {
                    let k = spec_merge_index(self@.merges, id as int);
                    assert(self@.merges[i as int].id == id as int);
                    assert(0 <= k < self@.merges.len() && self@.merges[k].id == id as int);
                }
                return Some(self.merges[i].clone());
            }
            i = i + 1;
        }
        proof {
            if spec_has_merge(self@.merges, id as int) {
                let k = choose|k: int|
                    0 <= k < self@.merges.len() && self@.merges[k].id == id as int;
                assert(self@.merges[k].id != id as int);
            }
        }
        None
    }

    /// Delete the merge record with key `id`; 404 when no row was
    /// deleted.
    pub fn delete_merge(&mut self, id: i64) -> (r: Result<(), ApiError>)
        requires
            old(self).wf(),
        ensures
            final(self).wf(),
            final(self).next_merge_id == old(self).next_merge_id,
            final(self).next_timeline_id == old(self).next_timeline_id,
            final(self)@.timelines == old(self)@.timelines,
            final(self)@.links == old(self)@.links,
            match r {
                Ok(()) => {
                    &&& spec_has_merge(old(self)@.merges, id as int)
                    &&& final(self)@.merges == old(self)@.merges.remove(
                        spec_merge_index(old(self)@.merges, id as int),
                    )
                },
                Err(e) => {
                    &&& e == ApiError::NotFound
                    &&& !spec_has_merge(old(self)@.merges, id as int)
                    &&& final(self)@.merges == old(self)@.merges
                },
            },
    {
        let mut i: usize = 0;
        while i < self.merges.len()
            invariant
                i <= self.merges.len(),
                *self == *old(self),
                self.wf(),
                self@.merges.len() == self.merges.len(),
                forall|j: int| 0 <= j < i ==> self@.merges[j].id != id as int,
            decreases self.merges.len() - i,
        {
            if self.merges[i].id == id {
                let ghost old_merges = self@.merges;
                proof {
                    let k = spec_merge_index(self@.merges, id as int);
                    assert(self@.merges[i as int].id == id as int);
                    assert(0 <= k < self@.merges.len() && self@.merges[k].id == id as int);
                }
                self.merges.remove(i);
                proof {
                    assert(self@.timelines == old(self)@.timelines);
                    assert(self@.links == old(self)@.links);
                    assert(self@.merges =~= old_merges.remove(i as int));
                    assert forall|p: int, q: int|
                        0 <= p < self@.merges.len() && 0 <= q < self@.merges.len() && p != q
                        implies self@.merges[p].id != self@.merges[q].id by {
                        let p0 = if p < i as int { p } else { p + 1 };
                        let q0 = if q < i as int { q } else { q + 1 };
                        assert(self@.merges[p] == old_merges[p0]);
                        assert(self@.merges[q] == old_merges[q0]);
                    }
                    assert forall|p: int| 0 <= p < self@.merges.len()
                        implies (#[trigger] self@.merges[p]).id < self.next_merge_id by {
                        let p0 = if p < i as int { p } else { p + 1 };
                        assert(self@.merges[p] == old_merges[p0]);
                    }
                }
                return Ok(());
            }
            i = i + 1;
        }
        proof {
            if spec_has_merge(self@.merges, id as int) {
                let k = choose|k: int|
                    0 <= k < self@.merges.len() && self@.merges[k].id == id as int;
                assert(self@.merges[k].id != id as int);
            }
        }
        Err(ApiError::NotFound)
    }
}

/// Merge conflict resolution, in full: in the merged link table, every
/// link the target already had is present unchanged (its position kept);
/// every conflict-free source link appears re-homed under the target with
/// its position kept; no source-owned link remains; no key occurs twice,
/// so a conflicting source link leaves no second copy beside the target's
/// own link; and nothing appears that is not one of those two kinds.
pub proof fn lemma_merge_conflict_resolution(ls: Seq<TimelineEvent>, source: i64, target: i64)
    requires
        links_wf(ls),
        source != target,
    ensures
        ({
            let merged = spec_merge_links(ls, source, target);
            &&& forall|k: int|
                0 <= k < ls.len() && (#[trigger] ls[k]).timeline_id == target ==> merged.contains(
                    ls[k],
                )
            &&& forall|k: int|
                0 <= k < ls.len() && (#[trigger] ls[k]).timeline_id == source && !spec_link_at(
                    ls,
                    target,
                    ls[k].event_id,
                ) ==> merged.contains(moved_link(ls[k], target))
            &&& forall|j: int|
                0 <= j < merged.len() ==> (#[trigger] merged[j]).timeline_id != source
            &&& forall|p: int, q: int|
                0 <= p < merged.len() && 0 <= q < merged.len() && p != q ==> !link_key_eq(
                    merged[p],
                    merged[q],
                )
            &&& forall|j: int|
                0 <= j < merged.len() ==> ls.contains(#[trigger] merged[j]) || exists|k: int|
                    0 <= k < ls.len() && ls[k].timeline_id == source && !spec_link_at(
                        ls,
                        target,
                        ls[k].event_id,
                    ) && merged[j] == moved_link(ls[k], target)
        }),
{
    lemma_retained_props(ls, source);
    lemma_moved_part_props(ls.len() as int, ls, source, target);
    assert(ls.subrange(0, ls.len() as int) =~= ls);
    let ret = spec_retained_links(ls, source);
    let mv = spec_moved_links(ls, source, target);
    let merged = spec_merge_links(ls, source, target);
    assert forall|k: int|
        0 <= k < ls.len() && (#[trigger] ls[k]).timeline_id == target implies merged.contains(
        ls[k],
    ) by {
        assert(ret.contains(ls[k]));
        let j = choose|j: int| 0 <= j < ret.len() && ret[j] == ls[k];
        assert(merged[j] == ls[k]);
    }
    assert forall|k: int|
        0 <= k < ls.len() && (#[trigger] ls[k]).timeline_id == source && !spec_link_at(
        ls,
        target,
        ls[k].event_id,
    ) implies merged.contains(moved_link(ls[k], target)) by {
        assert(mv.contains(moved_link(ls[k], target)));
        let j = choose|j: int| 0 <= j < mv.len() && mv[j] == moved_link(ls[k], target);
        assert(merged[ret.len() + j] == mv[j]);
    }
    assert forall|j: int| 0 <= j < merged.len() implies (#[trigger] merged[j]).timeline_id
        != source by {
        if j < ret.len() {
            assert(merged[j] == ret[j]);
        } else {
            assert(merged[j] == mv[j - ret.len()]);
        }
    }
    assert forall|p: int, q: int|
        0 <= p < merged.len() && 0 <= q < merged.len() && p != q implies !link_key_eq(
        merged[p],
        merged[q],
    ) by {
        let a = merged[p];
        let b = merged[q];
        if p < ret.len() && q < ret.len() {
            assert(a == ret[p] && b == ret[q]);
        } else if p >= ret.len() && q >= ret.len() {
            assert(a == mv[p - ret.len()] && b == mv[q - ret.len()]);
        } else if p < ret.len() {
            assert(a == ret[p] && b == mv[q - ret.len()]);
            if link_key_eq(a, b) {
                let k = choose|k: int| 0 <= k < ls.len() && ls[k] == ret[p];
                assert(spec_link_at(ls, target, b.event_id));
            }
        } else {
            assert(b == ret[q] && a == mv[p - ret.len()]);
            if link_key_eq(a, b) {
                let k = choose|k: int| 0 <= k < ls.len() && ls[k] == ret[q];
                assert(spec_link_at(ls, target, a.event_id));
            }
        }
    }
    assert forall|j: int| 0 <= j < merged.len() implies ls.contains(#[trigger] merged[j]) || exists|
        k: int,
    |
        0 <= k < ls.len() && ls[k].timeline_id == source && !spec_link_at(
            ls,
            target,
            ls[k].event_id,
        ) && merged[j] == moved_link(ls[k], target) by {
        if j < ret.len() {
            assert(merged[j] == ret[j]);
            let k = choose|k: int| 0 <= k < ls.len() && ls[k] == ret[j];
            assert(ls.contains(merged[j]));
        } else {
            assert(merged[j] == mv[j - ret.len()]);
        }
    }
}

} // verus!
