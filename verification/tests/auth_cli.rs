use tokimo_bus::auth::{CliError, Client, Credentials as AuthCredentials, TokimoAuthArgs as AuthArgs};
use tokimo_bus::cli::{Credentials, TokimoAuthArgs};

#[test]
fn args_resolve_requires_token() {
    let args = TokimoAuthArgs { token: None };

    assert!(Credentials::resolve(&args).is_err());
}

#[test]
fn resolve_returns_token() {
    let args = TokimoAuthArgs {
        token: Some("mm_test".to_owned()),
    };

    let creds = Credentials::resolve(&args).unwrap();
    assert_eq!(creds.token, "mm_test");
}

#[test]
fn client_resolve_requires_token() {
    let args = AuthArgs {
        token: None,
        server: None,
    };

    let error = AuthCredentials::resolve(&args).expect_err("missing token should fail");

    assert!(matches!(error, CliError::MissingToken));
}

#[test]
fn client_url_trims_server_and_path_slashes() {
    let credentials = AuthCredentials {
        server_url: "http://localhost:5678/".to_owned(),
        token: "token".to_owned(),
    };
    let client = Client::new("helloworld".to_owned(), credentials);

    assert_eq!(client.app_id(), "helloworld");
    assert_eq!(
        client.url("/items/1"),
        "http://localhost:5678/api/apps/helloworld/items/1"
    );
}
