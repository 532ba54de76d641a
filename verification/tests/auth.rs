use tokimo_bus::auth::{
    check_api_key, database_url, server_error, status_is_success, user_id_from_header, ApiKeyRecord, AuthError,
    CliError, Client, Credentials, Timestamp, TokimoAuthArgs, TokimoUser,
};
use uuid::Uuid;

#[test]
fn extracts_user_id_from_header() {
    let user = TokimoUser::from_header(Some("user-1")).expect("user id should be extracted");

    assert_eq!(user.user_id, "user-1");
}

#[test]
fn rejects_missing_header() {
    let rejection = TokimoUser::from_header(None).expect_err("missing header should reject");

    assert_eq!(rejection.status, 401);
    assert_eq!(rejection.error, "missing X-Tokimo-User-Id (not authenticated by main server)");
}

#[test]
fn rejects_empty_header() {
    assert!(TokimoUser::from_header(Some("")).is_err());
    assert_eq!(user_id_from_header(Some("")), None);
    assert_eq!(user_id_from_header(None), None);
    assert_eq!(user_id_from_header(Some("u7")), Some("u7".to_string()));
}

#[test]
fn resolve_defaults_server() {
    let args = TokimoAuthArgs { token: Some("mm_abc".into()), server: None };
    let c = Credentials::resolve(&args).unwrap();
    assert_eq!(c.server_url, "http://localhost:5678");
    assert_eq!(c.token, "mm_abc");
    let args = TokimoAuthArgs { token: Some("mm_abc".into()), server: Some("https://tokimo.example".into()) };
    assert_eq!(Credentials::resolve(&args).unwrap().server_url, "https://tokimo.example");
}

#[test]
fn resolve_rejects_blank_token() {
    let args = TokimoAuthArgs { token: Some("   ".into()), server: None };
    assert!(matches!(Credentials::resolve(&args), Err(CliError::MissingToken)));
}

#[test]
fn url_without_slashes_in_path() {
    let creds = Credentials { server_url: "http://h//".into(), token: "t".into() };
    let client = Client::new("app".into(), creds);
    assert_eq!(client.url("x"), "http://h/api/apps/app/x");
    assert_eq!(client.url("//x"), "http://h/api/apps/app/x");
    assert_eq!(client.token(), "t");
}

#[test]
fn success_statuses() {
    assert!(status_is_success(200));
    assert!(status_is_success(204));
    assert!(!status_is_success(199));
    assert!(!status_is_success(301));
    assert!(!status_is_success(404));
}

#[test]
fn server_error_keeps_status_and_body() {
    match server_error(503, "down".into()) {
        CliError::Server { status, body } => {
            assert_eq!(status, 503);
            assert_eq!(body, "down");
        }
        other => panic!("unexpected {other:?}"),
    }
}

fn key(expires_at: Option<Timestamp>) -> ApiKeyRecord {
    ApiKeyRecord { id: Uuid::from_u128(1), user_id: Uuid::from_u128(2), expires_at }
}

#[test]
fn api_key_checks() {
    let now = Timestamp { secs: 1_700_000_000, nanos: 500 };
    assert!(matches!(check_api_key(None, now), Err(AuthError::InvalidToken)));
    let expired = Timestamp { secs: 1_700_000_000, nanos: 499 };
    assert!(matches!(check_api_key(Some(key(Some(expired))), now), Err(AuthError::Expired)));
    let user = check_api_key(Some(key(Some(now))), now).unwrap();
    assert_eq!(user.user_id, Uuid::from_u128(2));
    assert_eq!(user.api_key_id, Uuid::from_u128(1));
    let later = Timestamp { secs: 1_800_000_000, nanos: 0 };
    assert!(check_api_key(Some(key(Some(later))), now).is_ok());
    assert!(check_api_key(Some(key(None)), now).is_ok());
}

#[test]
fn database_url_required() {
    assert_eq!(database_url(Some("postgres://x".into())).unwrap(), "postgres://x");
    match database_url(None) {
        Err(AuthError::MissingDatabaseUrl(m)) => assert_eq!(
            m,
            "DATABASE_URL not found. Add it to a .env file or set the DATABASE_URL environment variable."
        ),
        other => panic!("unexpected {:?}", other.map(|_| ())),
    }
}
