use lore_sharing::conditional::ReadOutcome;
use lore_sharing::error::ApiError;
use lore_sharing::fingerprint::make_etag;
use lore_sharing::handlers::events::{
    EventColumn, EventStore, Pagination, PostEvent, UpdateEvent,
};
use lore_sharing::handlers::merges::TimelineStore;
use lore_sharing::handlers::timeline_events::{PostTimelineEvent, UpdateTimelineEvent};
use lore_sharing::handlers::timelines::{
    ColumnValue, PostTimeline, TimelineColumn, UpdateTimeline,
};
use lore_sharing::handlers::users::{PostUser, UpdateUser, UserStore};

fn event_body(name: &str) -> PostEvent {
    PostEvent {
        name: name.to_string(),
        description: "test description".to_string(),
        reference: "test reference".to_string(),
        image: None,
        thumbnail: None,
        author_id: 1,
    }
}

fn empty_event_update() -> UpdateEvent {
    UpdateEvent {
        name: None,
        description: None,
        reference: None,
        image: None,
        thumbnail: None,
        author_id: 1,
    }
}

#[test]
fn create_event_returns_row_and_its_etag() {
    let mut store = EventStore::new();
    let (ev, etag) = store.create(event_body("test_event_create")).expect("create");
    assert_eq!(ev.name, "test_event_create");
    assert_eq!(etag, make_etag(&ev));
    assert!(ev.id >= 1);
}

#[test]
fn get_event_by_id_not_found() {
    let store = EventStore::new();
    assert!(matches!(store.get_by_id(5, None), Err(ApiError::NotFound)));
}

#[test]
fn stale_if_match_rejects_write_and_leaves_content_identical() {
    let mut store = EventStore::new();
    let (ev, _etag) = store.create(event_body("test_event_put")).expect("create");
    let stale = "\"00000000\"".to_string();
    let mut payload = empty_event_update();
    payload.name = Some("changed".to_string());

    let r = store.update(ev.id, &payload, Some(&stale));
    assert!(matches!(r, Err(ApiError::PreconditionFailed)));

    // The persisted content is byte-identical to before the attempt.
    match store.get_by_id(ev.id, None).expect("still there") {
        ReadOutcome::Fresh { body, etag } => {
            assert_eq!(body.name, "test_event_put");
            assert_eq!(etag, make_etag(&ev));
        }
        ReadOutcome::NotModified { .. } => panic!("no client tag was sent"),
    }
}

#[test]
fn current_if_match_applies_write_and_returns_new_etag() {
    let mut store = EventStore::new();
    let (ev, etag) = store.create(event_body("test_event_put")).expect("create");
    let mut payload = empty_event_update();
    payload.name = Some("changed".to_string());

    let (updated, new_etag) = store.update(ev.id, &payload, Some(&etag)).expect("update");
    assert_eq!(updated.name, "changed");
    assert_eq!(updated.description, "test description");
    assert_eq!(new_etag, make_etag(&updated));
    assert_ne!(new_etag, etag);
}

#[test]
fn empty_event_update_is_a_bad_request() {
    let mut store = EventStore::new();
    let (ev, _) = store.create(event_body("e")).expect("create");
    let r = store.update(ev.id, &empty_event_update(), None);
    assert!(matches!(r, Err(ApiError::BadRequest)));
}

#[test]
fn event_update_by_other_author_is_not_found() {
    let mut store = EventStore::new();
    let (ev, _) = store.create(event_body("e")).expect("create");
    let mut payload = empty_event_update();
    payload.name = Some("changed".to_string());
    payload.author_id = 999;
    let r = store.update(ev.id, &payload, None);
    assert!(matches!(r, Err(ApiError::NotFound)));
}

#[test]
fn delete_event_then_it_is_gone() {
    let mut store = EventStore::new();
    let (ev, _) = store.create(event_body("test_event_delete_by_id")).expect("create");
    assert!(store.delete_by_id(ev.id).is_ok());
    assert!(matches!(store.delete_by_id(ev.id), Err(ApiError::NotFound)));
}

#[test]
fn event_assignments_accumulate_in_column_order() {
    let mut payload = empty_event_update();
    payload.description = Some("d".to_string());
    payload.thumbnail = Some("t".to_string());
    let pairs = payload.assignments();
    assert_eq!(pairs.len(), 2);
    assert_eq!(pairs[0].0, EventColumn::Description);
    assert_eq!(pairs[0].1, "d");
    assert_eq!(pairs[1].0, EventColumn::Thumbnail);
    assert_eq!(pairs[1].1, "t");
    assert!(empty_event_update().assignments().is_empty());
}

#[test]
fn pagination_defaults_and_window() {
    let p = Pagination { page: None, per_page: None };
    assert_eq!(p.window(), (0, 10));
    assert!(!p.has_prev());
    assert!(p.has_next(10));
    assert!(!p.has_next(3));

    let p = Pagination { page: Some(3), per_page: Some(20) };
    assert_eq!(p.window(), (40, 20));
    assert!(p.has_prev());
}

fn timeline_body() -> PostTimeline {
    PostTimeline {
        author_id: 1,
        description: "Story of Fallen Leafs".to_string(),
        start: 0,
        end: 2025,
        unit: "years".to_string(),
        universe_name: "Elden Ring".to_string(),
    }
}

#[test]
fn timeline_crud_and_update_order_of_checks() {
    let mut store = TimelineStore::new();
    let t = store.create_timeline(timeline_body()).expect("create");
    assert_eq!(t.description, "Story of Fallen Leafs");

    // An empty update is refused before the row is even looked up.
    let empty = UpdateTimeline {
        description: None,
        author_id: 1,
        start: None,
        end: None,
        unit: None,
        universe_name: None,
    };
    assert!(matches!(
        store.update_timeline(424242, &empty),
        Err(ApiError::BadRequest)
    ));

    let mut upd = empty;
    upd.description = Some("changed".to_string());
    upd.start = Some(100);
    upd.end = Some(1000);
    let updated = store.update_timeline(t.id, &upd).expect("update");
    assert_eq!(updated.description, "changed");
    assert_eq!(updated.start, 100);
    assert_eq!(updated.end, 1000);
    assert_eq!(updated.unit, "years");

    // Wrong author: reported as missing, nothing changed.
    let foreign = UpdateTimeline {
        description: Some("hijack".to_string()),
        author_id: 2,
        start: None,
        end: None,
        unit: None,
        universe_name: None,
    };
    assert!(matches!(
        store.update_timeline(t.id, &foreign),
        Err(ApiError::NotFound)
    ));
    assert_eq!(
        store.get_timeline_by_id(t.id).expect("still there").description,
        "changed"
    );

    assert!(store.delete_timeline(t.id).is_ok());
    assert!(store.get_timeline_by_id(t.id).is_none());
    assert!(matches!(store.delete_timeline(t.id), Err(ApiError::NotFound)));
}

#[test]
fn timeline_assignments_mix_text_and_integer_values() {
    let upd = UpdateTimeline {
        description: Some("d".to_string()),
        author_id: 1,
        start: Some(5),
        end: None,
        unit: None,
        universe_name: Some("u".to_string()),
    };
    let pairs = upd.assignments();
    assert_eq!(pairs.len(), 3);
    assert_eq!(pairs[0].0, TimelineColumn::Description);
    assert!(matches!(&pairs[0].1, ColumnValue::Text(s) if s == "d"));
    assert_eq!(pairs[1].0, TimelineColumn::Start);
    assert!(matches!(pairs[1].1, ColumnValue::Int(5)));
    assert_eq!(pairs[2].0, TimelineColumn::UniverseName);
    assert!(matches!(&pairs[2].1, ColumnValue::Text(s) if s == "u"));
}

#[test]
fn timeline_events_crud_flow() {
    let mut store = TimelineStore::new();
    let t = store.create_timeline(timeline_body()).expect("create");

    // Placing an event creates a link; placing it again returns the
    // existing link, ignoring the new position.
    let l1 = store.create_link(t.id, &PostTimelineEvent { event_id: 7, position: 100 });
    assert_eq!((l1.timeline_id, l1.event_id, l1.position), (t.id, 7, 100));
    let again = store.create_link(t.id, &PostTimelineEvent { event_id: 7, position: 55 });
    assert_eq!(again.position, 100);
    assert_eq!(store.links_for_timeline(t.id).len(), 1);

    // An update must carry a position.
    assert!(matches!(
        store.update_link_position(t.id, 7, &UpdateTimelineEvent { position: None }),
        Err(ApiError::BadRequest)
    ));
    let moved = store
        .update_link_position(t.id, 7, &UpdateTimelineEvent { position: Some(10) })
        .expect("update");
    assert_eq!(moved.position, 10);
    assert_eq!(store.get_link(t.id, 7).expect("link").position, 10);

    // Listing by event finds the link; unknown keys report 404.
    assert_eq!(store.timelines_for_event(7).len(), 1);
    assert!(matches!(
        store.update_link_position(t.id, 99, &UpdateTimelineEvent { position: Some(1) }),
        Err(ApiError::NotFound)
    ));

    assert!(store.delete_link(t.id, 7).is_ok());
    assert!(store.get_link(t.id, 7).is_none());
    assert!(matches!(store.delete_link(t.id, 7), Err(ApiError::NotFound)));
}

#[test]
fn link_listings_come_back_in_ascending_position_order() {
    let mut store = TimelineStore::new();
    let t = store.create_timeline(timeline_body()).expect("create");
    store.create_link(t.id, &PostTimelineEvent { event_id: 1, position: 30 });
    store.create_link(t.id, &PostTimelineEvent { event_id: 2, position: 10 });
    store.create_link(t.id, &PostTimelineEvent { event_id: 3, position: 20 });
    store.create_link(t.id, &PostTimelineEvent { event_id: 4, position: 10 });

    let links = store.links_for_timeline(t.id);
    assert_eq!(links.len(), 4);
    for pair in links.windows(2) {
        assert!(pair[0].position <= pair[1].position);
    }
    let positions: Vec<i64> = links.iter().map(|l| l.position).collect();
    assert_eq!(positions, vec![10, 10, 20, 30]);

    let by_event = store.timelines_for_event(2);
    assert_eq!(by_event.len(), 1);
    assert_eq!(by_event[0].position, 10);
}

#[test]
fn user_crud_flow() {
    let mut store = UserStore::new();
    let u = store
        .create_user(PostUser {
            nickname: "test_user_create".to_string(),
            description: Some("test description".to_string()),
        })
        .expect("create");
    assert_eq!(u.nickname, "test_user_create");

    let fetched = store.get_user_by_id(u.id).expect("get");
    assert_eq!(fetched.nickname, "test_user_create");
    assert_eq!(fetched.description.as_deref(), Some("test description"));

    // An empty update is refused before the row is looked up.
    assert!(matches!(
        store.update_user(424242, &UpdateUser { nickname: None, description: None }),
        Err(ApiError::BadRequest)
    ));

    let updated = store
        .update_user(
            u.id,
            &UpdateUser { nickname: Some("changed".to_string()), description: None },
        )
        .expect("update");
    assert_eq!(updated.nickname, "changed");
    assert_eq!(updated.description.as_deref(), Some("test description"));

    assert!(matches!(
        store.update_user(424242, &UpdateUser { nickname: Some("x".to_string()), description: None }),
        Err(ApiError::NotFound)
    ));

    assert!(store.delete_user_by_id(u.id).is_ok());
    assert!(store.get_user_by_id(u.id).is_none());
    assert!(matches!(store.delete_user_by_id(u.id), Err(ApiError::NotFound)));
}

#[test]
fn distinct_users_get_distinct_ids() {
    let mut store = UserStore::new();
    let a = store
        .create_user(PostUser { nickname: "a".to_string(), description: None })
        .expect("create");
    let b = store
        .create_user(PostUser { nickname: "b".to_string(), description: None })
        .expect("create");
    assert_ne!(a.id, b.id);
}
