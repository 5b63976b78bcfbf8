use lore_sharing::conditional::{
    conditional_get, evaluate_if_match, evaluate_if_none_match, MatchCheck, NoneMatchCheck,
    ReadOutcome,
};
use lore_sharing::fingerprint::make_etag;
use lore_sharing::models::event::Event;

fn resource() -> Event {
    Event {
        id: 1,
        name: "Founding".to_string(),
        description: "The founding of the city".to_string(),
        reference: "annals".to_string(),
        image: None,
        thumbnail: None,
        author_id: 2,
    }
}

#[test]
fn if_match_absent_proceeds() {
    let current = "\"00c0ffee\"".to_string();
    assert_eq!(evaluate_if_match(None, &current), MatchCheck::Proceed);
}

#[test]
fn if_match_equal_proceeds() {
    let current = "\"00c0ffee\"".to_string();
    let client = "\"00c0ffee\"".to_string();
    assert_eq!(evaluate_if_match(Some(&client), &current), MatchCheck::Proceed);
}

#[test]
fn if_match_stale_fails_precondition() {
    let current = "\"00c0ffee\"".to_string();
    let client = "\"deadbeef\"".to_string();
    assert_eq!(
        evaluate_if_match(Some(&client), &current),
        MatchCheck::PreconditionFailed
    );
}

#[test]
fn if_none_match_absent_proceeds() {
    let current = "\"00c0ffee\"".to_string();
    assert_eq!(evaluate_if_none_match(None, &current), NoneMatchCheck::Proceed);
}

#[test]
fn if_none_match_equal_is_not_modified() {
    let current = "\"00c0ffee\"".to_string();
    let client = "\"00c0ffee\"".to_string();
    assert_eq!(
        evaluate_if_none_match(Some(&client), &current),
        NoneMatchCheck::NotModified
    );
}

#[test]
fn if_none_match_other_proceeds() {
    let current = "\"00c0ffee\"".to_string();
    let client = "\"deadbeef\"".to_string();
    assert_eq!(
        evaluate_if_none_match(Some(&client), &current),
        NoneMatchCheck::Proceed
    );
}

#[test]
fn conditional_read_with_current_tag_yields_not_modified() {
    let e = resource();
    let tag = make_etag(&e);
    match conditional_get(e, Some(&tag)) {
        ReadOutcome::NotModified { etag } => assert_eq!(etag, tag),
        ReadOutcome::Fresh { .. } => panic!("expected a 304 short-circuit"),
    }
}

#[test]
fn conditional_read_with_other_tag_yields_full_body_and_tag() {
    let e = resource();
    let tag = make_etag(&e);
    let other = "\"deadbeef\"".to_string();
    assert_ne!(tag, other);
    match conditional_get(resource(), Some(&other)) {
        ReadOutcome::Fresh { etag, body } => {
            assert_eq!(etag, tag);
            assert_eq!(body.id, e.id);
            assert_eq!(body.name, e.name);
            assert_eq!(body.description, e.description);
        }
        ReadOutcome::NotModified { .. } => panic!("expected a full 200 answer"),
    }
}

#[test]
fn conditional_read_without_tag_yields_full_body() {
    let e = resource();
    let tag = make_etag(&e);
    match conditional_get(e, None) {
        ReadOutcome::Fresh { etag, .. } => assert_eq!(etag, tag),
        ReadOutcome::NotModified { .. } => panic!("expected a full 200 answer"),
    }
}
