use yandex_tracker_api_rust::auth_error::AuthError;
use yandex_tracker_api_rust::authorization::{Authorization, AwaitOutcome};
use yandex_tracker_api_rust::token_response::TokenResponse;

fn flow() -> Authorization {
    Authorization::new(
        String::from("client-id"),
        String::from("client-secret-value"),
        String::from("http://localhost:8080/redirect"),
    )
}

#[test]
fn test_authorization_url() {
    let url = flow().build_authorization_url();
    assert_eq!(
        url,
        "https://oauth.yandex.ru/authorize?response_type=code&client_id=client-id&redirect_uri=http://localhost:8080/redirect"
    );
}

#[test]
fn test_exchange_params() {
    let params = flow().exchange_params(&String::from("the-code"));
    assert_eq!(params.len(), 5);
    assert_eq!(params[0].0, "grant_type");
    assert_eq!(params[0].1, "authorization_code");
    assert_eq!(params[1].0, "code");
    assert_eq!(params[1].1, "the-code");
    assert_eq!(params[2].0, "client_id");
    assert_eq!(params[3].0, "client_secret");
    assert_eq!(params[4].0, "redirect_uri");
    assert_eq!(Authorization::token_url(), "https://oauth.yandex.ru/token");
}

#[test]
fn test_extract_code() {
    let params = vec![
        (String::from("state"), String::from("xyz")),
        (String::from("code"), String::from("abc123")),
        (String::from("code"), String::from("later")),
    ];
    assert_eq!(Authorization::extract_code(&params).as_deref(), Some("abc123"));
    let none = vec![(String::from("state"), String::from("xyz"))];
    assert!(Authorization::extract_code(&none).is_none());
}

#[test]
fn test_cached_token_wins() {
    let cached = TokenResponse::new(String::from("cached"), 60);
    let result = Authorization::read_local_access_token(true, Some(cached));
    assert_eq!(result.unwrap().access_token, "cached");

    let missing = Authorization::read_local_access_token(false, None);
    assert!(matches!(missing, Err(AuthError::CustomError(m)) if m == "Token file not found"));

    let unreadable = Authorization::read_local_access_token(true, None);
    assert!(matches!(unreadable, Err(AuthError::CustomError(m)) if m == "Error loading token.json!"));
}

#[test]
fn test_failed_exchange_yields_typed_error_and_no_persist() {
    // No cached token, and the exchange fails: the flow yields a typed
    // error whatever the (never consulted) persistence outcome, so the
    // token file is never written.
    let auth = flow();
    let cached = Authorization::read_local_access_token(false, None);
    assert!(cached.is_err());

    let delivered = Authorization::classify_exchange(Err(String::from("connection refused")));
    assert!(matches!(&delivered, Err(AuthError::CustomError(m)) if m == "connection refused"));

    let fresh = Authorization::wait_for_token(AwaitOutcome::Delivered(delivered));
    let cached2 = Authorization::read_local_access_token(false, None);
    let fresh2 = Authorization::classify_exchange(Err(String::from("connection refused")));
    let fresh2 = Authorization::wait_for_token(AwaitOutcome::Delivered(fresh2));

    let outcome_a = auth.authorize(cached, fresh, false);
    assert!(matches!(outcome_a, Err(AuthError::CustomError(m)) if m == "connection refused"));
    let outcome_b = auth.authorize(cached2, fresh2, true);
    assert!(matches!(outcome_b, Err(AuthError::CustomError(m)) if m == "connection refused"));
}

#[test]
fn test_timeout_when_no_redirect_arrives() {
    // The redirect never arrives: the bounded wait elapses and the flow
    // reports a timeout, and only then.
    let timed_out = Authorization::wait_for_token(AwaitOutcome::TimedOut);
    assert!(matches!(timed_out, Err(AuthError::TimeoutError)));

    let token = TokenResponse::new(String::from("t"), 1);
    let delivered = Authorization::wait_for_token(AwaitOutcome::Delivered(Ok(token)));
    assert!(!matches!(delivered, Err(AuthError::TimeoutError)));

    let closed = Authorization::wait_for_token(AwaitOutcome::Closed);
    assert!(matches!(closed, Err(AuthError::ChannelError)));
}

#[test]
fn test_persist_failure_is_fatal() {
    let auth = flow();
    let token = TokenResponse::new(String::from("fresh"), 3600);
    let cached = Authorization::read_local_access_token(false, None);
    let persisted = auth.authorize(cached, Ok(token), false);
    assert!(matches!(persisted, Err(AuthError::LoadTokenFileError)));

    let token2 = TokenResponse::new(String::from("fresh"), 3600);
    let cached2 = Authorization::read_local_access_token(false, None);
    let ok = auth.authorize(cached2, Ok(token2), true);
    assert_eq!(ok.unwrap().access_token, "fresh");
}

#[test]
fn test_error_messages() {
    assert_eq!(
        AuthError::TimeoutError.message(),
        "Timeout while waiting for token"
    );
    assert_eq!(AuthError::ChannelError.message(), "Channel error");
    assert_eq!(
        AuthError::CustomError(String::from("boom")).message(),
        "Custom error: boom"
    );
    assert_eq!(AuthError::LoadTokenFileError.message(), "Load token file error!");
}
