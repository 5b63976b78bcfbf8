use lore_sharing::fingerprint::make_etag;
use lore_sharing::models::event::Event;
use lore_sharing::models::merges::TimelineMerge;

fn sample_event() -> Event {
    Event {
        id: 42,
        name: "Battle of the Ford".to_string(),
        description: "A skirmish at the river".to_string(),
        reference: "chronicle, ch. 3".to_string(),
        image: Some("/img/ford.png".to_string()),
        thumbnail: None,
        author_id: 7,
    }
}

/// The canonical serialized form, reproduced independently: integers as
/// eight little-endian bytes, strings length-prefixed, optional fields
/// behind a presence byte.
fn canonical(e: &Event) -> Vec<u8> {
    let mut out = Vec::new();
    out.extend_from_slice(&(e.id as u64).to_le_bytes());
    for s in [&e.name, &e.description, &e.reference] {
        out.extend_from_slice(&(s.len() as u64).to_le_bytes());
        out.extend_from_slice(s.as_bytes());
    }
    for o in [&e.image, &e.thumbnail] {
        match o {
            None => out.push(0),
            Some(s) => {
                out.push(1);
                out.extend_from_slice(&(s.len() as u64).to_le_bytes());
                out.extend_from_slice(s.as_bytes());
            }
        }
    }
    out.extend_from_slice(&(e.author_id as u64).to_le_bytes());
    out
}

#[test]
fn etag_is_quoted_crc32_of_canonical_form() {
    let e = sample_event();
    let tag = make_etag(&e);
    let expected = format!("\"{:08x}\"", crc32fast::hash(&canonical(&e)));
    assert_eq!(tag, expected);
}

#[test]
fn etag_shape_is_quoted_eight_hex_digits() {
    let e = sample_event();
    let tag = make_etag(&e);
    let bytes = tag.as_bytes();
    assert_eq!(bytes.len(), 10);
    assert_eq!(bytes[0], b'"');
    assert_eq!(bytes[9], b'"');
    for b in &bytes[1..9] {
        assert!(b.is_ascii_hexdigit() && !b.is_ascii_uppercase());
    }
}

#[test]
fn etag_is_deterministic_across_calls() {
    let a = sample_event();
    let b = sample_event();
    assert_eq!(make_etag(&a), make_etag(&b));
    assert_eq!(make_etag(&a), make_etag(&a));
}

#[test]
fn etag_changes_when_any_single_field_changes() {
    let base = sample_event();
    let base_tag = make_etag(&base);

    let mut e = sample_event();
    e.id = 43;
    assert_ne!(make_etag(&e), base_tag);

    let mut e = sample_event();
    e.name = "Battle of the Forth".to_string();
    assert_ne!(make_etag(&e), base_tag);

    let mut e = sample_event();
    e.description = "A skirmish at the rivers".to_string();
    assert_ne!(make_etag(&e), base_tag);

    let mut e = sample_event();
    e.reference = "chronicle, ch. 4".to_string();
    assert_ne!(make_etag(&e), base_tag);

    let mut e = sample_event();
    e.image = None;
    assert_ne!(make_etag(&e), base_tag);

    let mut e = sample_event();
    e.thumbnail = Some("/thumb/ford.png".to_string());
    assert_ne!(make_etag(&e), base_tag);

    let mut e = sample_event();
    e.author_id = 8;
    assert_ne!(make_etag(&e), base_tag);
}

#[test]
fn merge_record_etag_matches_its_canonical_form() {
    let m = TimelineMerge {
        id: 3,
        source_timeline_id: 10,
        target_timeline_id: 11,
        merged_at: "2024-01-01 12:00:00".to_string(),
    };
    let mut canon = Vec::new();
    canon.extend_from_slice(&3u64.to_le_bytes());
    canon.extend_from_slice(&10u64.to_le_bytes());
    canon.extend_from_slice(&11u64.to_le_bytes());
    canon.extend_from_slice(&(m.merged_at.len() as u64).to_le_bytes());
    canon.extend_from_slice(m.merged_at.as_bytes());
    let expected = format!("\"{:08x}\"", crc32fast::hash(&canon));
    assert_eq!(make_etag(&m), expected);
}

#[test]
fn etag_distinguishes_empty_string_from_absent_option() {
    let mut with_empty = sample_event();
    with_empty.thumbnail = Some(String::new());
    let absent = sample_event();
    assert_ne!(make_etag(&with_empty), make_etag(&absent));
}
