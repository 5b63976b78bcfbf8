use lore_sharing::error::ApiError;
use lore_sharing::handlers::one_time_tokens::{ClaimOutcome, TokenLedger};

#[test]
fn issued_token_is_36_characters() {
    let mut ledger = TokenLedger::new();
    let token = ledger.issue_token().expect("a fresh ledger accepts a new token");
    assert_eq!(token.len(), 36);
}

#[test]
fn claim_then_replay_returns_recorded_response_verbatim() {
    let mut ledger = TokenLedger::new();
    let token = ledger.issue_token().expect("issue");

    match ledger.consume_or_replay(&token) {
        ClaimOutcome::FirstUse => {}
        _ => panic!("first claim of a fresh token must be FirstUse"),
    }

    let headers = vec![("content-type".to_string(), "application/json".to_string())];
    let body = b"{\"ok\":true}".to_vec();
    ledger
        .store_response_for_token(&token, 201, headers.clone(), body.clone())
        .expect("recording after FirstUse succeeds");

    match ledger.consume_or_replay(&token) {
        ClaimOutcome::Replay(resp) => {
            assert_eq!(resp.status, 201);
            assert_eq!(resp.headers, headers);
            assert_eq!(resp.body, body);
        }
        _ => panic!("second claim must replay the stored response"),
    }
}

#[test]
fn two_claims_without_recording_yield_first_use_then_race_lost() {
    let mut ledger = TokenLedger::new();
    let token = ledger.issue_token().expect("issue");

    match ledger.consume_or_replay(&token) {
        ClaimOutcome::FirstUse => {}
        _ => panic!("exactly one caller wins the token"),
    }
    match ledger.consume_or_replay(&token) {
        ClaimOutcome::RaceLost => {}
        _ => panic!("the second caller must lose the race, never execute"),
    }
}

#[test]
fn unknown_token_is_rejected() {
    let mut ledger = TokenLedger::new();
    let stranger = "00000000-0000-0000-0000-000000000000".to_string();
    match ledger.consume_or_replay(&stranger) {
        ClaimOutcome::UnknownToken => {}
        _ => panic!("a token that was never issued must be refused"),
    }
}

#[test]
fn recording_for_unknown_token_is_unauthorized() {
    let mut ledger = TokenLedger::new();
    let stranger = "00000000-0000-0000-0000-000000000000".to_string();
    let r = ledger.store_response_for_token(&stranger, 200, Vec::new(), Vec::new());
    assert_eq!(r, Err(ApiError::Unauthorized));
}

#[test]
fn recording_twice_is_a_conflict() {
    let mut ledger = TokenLedger::new();
    let token = ledger.issue_token().expect("issue");
    match ledger.consume_or_replay(&token) {
        ClaimOutcome::FirstUse => {}
        _ => panic!("first claim must win"),
    }
    ledger
        .store_response_for_token(&token, 200, Vec::new(), b"one".to_vec())
        .expect("first recording succeeds");
    let again = ledger.store_response_for_token(&token, 200, Vec::new(), b"two".to_vec());
    assert_eq!(again, Err(ApiError::Conflict));
}

#[test]
fn recording_before_any_claim_is_a_conflict() {
    let mut ledger = TokenLedger::new();
    let token = ledger.issue_token().expect("issue");
    let r = ledger.store_response_for_token(&token, 200, Vec::new(), Vec::new());
    assert_eq!(r, Err(ApiError::Conflict));
}

#[test]
fn error_status_codes_follow_the_taxonomy() {
    assert_eq!(ApiError::NotFound.status_u16(), 404);
    assert_eq!(ApiError::Conflict.status_u16(), 409);
    assert_eq!(ApiError::PreconditionFailed.status_u16(), 412);
    assert_eq!(ApiError::BadRequest.status_u16(), 400);
    assert_eq!(ApiError::Unauthorized.status_u16(), 401);
    assert_eq!(ApiError::InternalError.status_u16(), 500);
}
