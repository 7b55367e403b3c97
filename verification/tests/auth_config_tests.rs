use notify_server::auth::{response_status, validate_claims, AuthError, TokenClaims};
use notify_server::backoff::{next_backoff_ms, BACKOFF_CAP_MS, BACKOFF_START_MS};
use notify_server::config::{Config, ConfigError};
use notify_server::errors::{AppError, ErrorOutput};

fn claims(iss: &str, aud: &str, exp: i64) -> TokenClaims {
    TokenClaims {
        sub: 1,
        wid: 3,
        iss: iss.to_string(),
        aud: aud.to_string(),
        exp,
    }
}

#[test]
fn valid_claims_yield_the_routing_identity() {
    let c = claims("chat_server", "chat_web", 2000);
    assert_eq!(validate_claims(&c, 1000), Ok((1, 3)));
}

#[test]
fn wrong_audience_is_rejected() {
    let c = claims("chat_server", "other_app", 2000);
    assert_eq!(validate_claims(&c, 1000), Err(AuthError::WrongAudience));
}

#[test]
fn wrong_issuer_and_expiry_are_rejected() {
    let c = claims("someone_else", "chat_web", 2000);
    assert_eq!(validate_claims(&c, 1000), Err(AuthError::WrongIssuer));
    let c = claims("chat_server", "chat_web", 2000);
    assert_eq!(validate_claims(&c, 2000), Err(AuthError::Expired));
    assert_eq!(validate_claims(&c, 3000), Err(AuthError::Expired));
}

#[test]
fn events_endpoint_statuses() {
    // no token: 401; wrong audience: 401; valid token: 200
    assert_eq!(response_status(None, 1000), 401);
    let bad_aud = claims("chat_server", "other_app", 2000);
    assert_eq!(response_status(Some(&bad_aud), 1000), 401);
    let good = claims("chat_server", "chat_web", 2000);
    assert_eq!(response_status(Some(&good), 1000), 200);
}

fn full_config() -> Config {
    let mut c = Config::default();
    c.listen.host = "0.0.0.0".to_string();
    c.listen.port = 6687;
    c.db.url = "postgres://localhost/chat".to_string();
    c.auth.pk = "SECRET-REDACTED".to_string();
    c
}

#[test]
fn defaults_match_the_documented_knobs() {
    let c = Config::default();
    assert_eq!(c.keepalive_secs, 30);
    assert_eq!(c.subscriber_buffer, 16);
    assert_eq!(c.drop_threshold_k, 3);
}

#[test]
fn config_validation_names_the_first_missing_piece() {
    assert!(full_config().validate().is_ok());
    let mut c = full_config();
    c.listen.host = String::new();
    assert_eq!(c.validate(), Err(ConfigError::EmptyHost));
    let mut c = full_config();
    c.db.url = String::new();
    assert_eq!(c.validate(), Err(ConfigError::EmptyDbUrl));
    let mut c = full_config();
    c.auth.pk = String::new();
    assert_eq!(c.validate(), Err(ConfigError::EmptyPublicKey));
    let mut c = full_config();
    c.keepalive_secs = 0;
    assert_eq!(c.validate(), Err(ConfigError::ZeroKeepAlive));
    let mut c = full_config();
    c.subscriber_buffer = 0;
    assert_eq!(c.validate(), Err(ConfigError::ZeroSubscriberBuffer));
    let mut c = full_config();
    c.drop_threshold_k = 0;
    assert_eq!(c.validate(), Err(ConfigError::ZeroDropThreshold));
}

#[test]
fn backoff_doubles_up_to_the_cap() {
    let mut delays = Vec::new();
    let mut d = BACKOFF_START_MS;
    for _ in 0..8 {
        delays.push(d);
        d = next_backoff_ms(d);
    }
    assert_eq!(delays, vec![100, 200, 400, 800, 1600, 3200, 6400, 10000]);
    assert_eq!(next_backoff_ms(BACKOFF_CAP_MS), BACKOFF_CAP_MS);
}

#[test]
fn error_statuses_follow_the_kind() {
    assert_eq!(AppError::EmailNotFound("x".to_string()).status_code(), 404);
    assert_eq!(AppError::EmailAlreadyExists("x".to_string()).status_code(), 409);
    assert_eq!(AppError::PasswordHashError("x".to_string()).status_code(), 403);
    assert_eq!(AppError::SignError("x".to_string()).status_code(), 403);
    assert_eq!(AppError::CreateChatError("x".to_string()).status_code(), 400);
    assert_eq!(AppError::IoError("x".to_string()).status_code(), 500);
    assert_eq!(AppError::SqlxError("x".to_string()).status_code(), 500);
}

#[test]
fn error_messages_carry_their_prefix() {
    assert_eq!(
        AppError::EmailAlreadyExists("tchen@acme.org".to_string()).message(),
        "email already exists: tchen@acme.org"
    );
    assert_eq!(
        AppError::CreateChatError("the chat members ([99]) is not exist".to_string()).message(),
        "create chat error: the chat members ([99]) is not exist"
    );
}

#[test]
fn error_output_wraps_the_message() {
    let out = ErrorOutput::new("Invalid email or password".to_string());
    assert_eq!(out.error, "Invalid email or password");
}
