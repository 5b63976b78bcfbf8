use lore_sharing::error::ApiError;
use lore_sharing::handlers::merges::{plan_moved_links, PostTimelineMerge, TimelineStore};
use lore_sharing::handlers::timeline_events::PostTimelineEvent;
use lore_sharing::handlers::timelines::PostTimeline;
use lore_sharing::models::timeline_event::TimelineEvent;

const EVENT_A: i64 = 7;
const EVENT_B: i64 = 8;

fn timeline_body(description: &str) -> PostTimeline {
    PostTimeline {
        author_id: 1,
        description: description.to_string(),
        start: 0,
        end: 1000,
        unit: "years".to_string(),
        universe_name: "Elden Ring".to_string(),
    }
}

/// A store with a source timeline holding eventA@1 and eventB@10, and a
/// target timeline holding eventA@99.
fn merge_fixture() -> (TimelineStore, i64, i64) {
    let mut store = TimelineStore::new();
    let source = store.create_timeline(timeline_body("source")).expect("create").id;
    let target = store.create_timeline(timeline_body("target")).expect("create").id;
    store.create_link(source, &PostTimelineEvent { event_id: EVENT_A, position: 1 });
    store.create_link(source, &PostTimelineEvent { event_id: EVENT_B, position: 10 });
    store.create_link(target, &PostTimelineEvent { event_id: EVENT_A, position: 99 });
    (store, source, target)
}

#[test]
fn merge_keeps_target_position_and_moves_the_rest() {
    let (mut store, source, target) = merge_fixture();
    let payload = PostTimelineMerge {
        source_timeline_id: source,
        target_timeline_id: target,
    };
    let rec = store.merge(&payload, "2024-01-01 12:00:00".to_string()).expect("merge");

    // Target's own link for eventA is retained unchanged; eventB moved in.
    let links = store.links_for_timeline(target);
    assert_eq!(links.len(), 2);
    assert!(links.contains(&TimelineEvent {
        timeline_id: target,
        event_id: EVENT_A,
        position: 99
    }));
    assert!(links.contains(&TimelineEvent {
        timeline_id: target,
        event_id: EVENT_B,
        position: 10
    }));

    // The source timeline and its links are gone.
    assert!(store.get_timeline_by_id(source).is_none());
    assert!(store.links_for_timeline(source).is_empty());

    // Exactly one merge record, with the given commit timestamp.
    assert_eq!(store.merges.len(), 1);
    assert_eq!(rec.source_timeline_id, source);
    assert_eq!(rec.target_timeline_id, target);
    assert_eq!(rec.merged_at, "2024-01-01 12:00:00");
    let fetched = store.get_merge_by_id(rec.id).expect("the record is readable");
    assert_eq!(fetched.source_timeline_id, source);
    assert_eq!(fetched.target_timeline_id, target);
}

#[test]
fn merge_of_missing_source_is_not_found_and_changes_nothing() {
    let (mut store, _source, target) = merge_fixture();
    let links_before = store.links_for_timeline(target);
    let merges_before = store.merges.len();
    let timelines_before = store.timelines.len();

    let payload = PostTimelineMerge {
        source_timeline_id: 424242,
        target_timeline_id: target,
    };
    let r = store.merge(&payload, "2024-01-01 12:00:00".to_string());
    assert!(matches!(r, Err(ApiError::NotFound)));

    assert_eq!(store.links_for_timeline(target), links_before);
    assert_eq!(store.merges.len(), merges_before);
    assert_eq!(store.timelines.len(), timelines_before);
}

#[test]
fn plan_moved_links_skips_conflicts_and_keeps_positions() {
    let links = vec![
        TimelineEvent { timeline_id: 1, event_id: EVENT_A, position: 1 },
        TimelineEvent { timeline_id: 1, event_id: EVENT_B, position: 10 },
        TimelineEvent { timeline_id: 2, event_id: EVENT_A, position: 99 },
    ];
    let moved = plan_moved_links(&links, 1, 2);
    assert_eq!(
        moved,
        vec![TimelineEvent { timeline_id: 2, event_id: EVENT_B, position: 10 }]
    );
}

#[test]
fn merge_records_get_distinct_ids() {
    let mut store = TimelineStore::new();
    let t1 = store.create_timeline(timeline_body("one")).expect("create").id;
    let t2 = store.create_timeline(timeline_body("two")).expect("create").id;
    let t3 = store.create_timeline(timeline_body("three")).expect("create").id;
    let r1 = store
        .merge(
            &PostTimelineMerge { source_timeline_id: t1, target_timeline_id: t3 },
            "a".to_string(),
        )
        .expect("merge one");
    let r2 = store
        .merge(
            &PostTimelineMerge { source_timeline_id: t2, target_timeline_id: t3 },
            "b".to_string(),
        )
        .expect("merge two");
    assert_ne!(r1.id, r2.id);
    assert_eq!(store.merges.len(), 2);
}

#[test]
fn delete_merge_record_then_it_is_gone() {
    let (mut store, source, target) = merge_fixture();
    let rec = store
        .merge(
            &PostTimelineMerge { source_timeline_id: source, target_timeline_id: target },
            "t".to_string(),
        )
        .expect("merge");
    assert!(store.delete_merge(rec.id).is_ok());
    assert!(store.get_merge_by_id(rec.id).is_none());
    assert!(matches!(store.delete_merge(rec.id), Err(ApiError::NotFound)));
}
