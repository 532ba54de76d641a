use std::time::Duration;

use tokimo_bus::client::{
    endpoint_to_socket, handshake_reply, inbound_action, is_transient_connect_msg, next_connect_backoff,
    find_handler, handler_response, initial_connect_retry, parse_endpoint, pipe_prefix_string, publish_frame,
    subscribe_frame, BusClient, BusClientBuilder, ClientConfig, Dispatch, Endpoint, Handshake, InboundAction,
};
use tokimo_bus::frame::{
    BusError, BusFrame, CallerCtx, DataPlaneSocket, HelloAck, HttpMethod, Invoke, MethodDecl, Response,
};

fn decl(name: &str) -> MethodDecl {
    MethodDecl {
        name: name.into(),
        requires_auth: false,
        streaming: false,
        http_method: HttpMethod::Post,
        path: None,
        description: None,
    }
}

fn caller() -> CallerCtx {
    CallerCtx { user_id: Some("u1".into()), request_id: "r1".into(), workspace: None, caller_app_id: None }
}

fn bad_request(e: BusError) -> String {
    match e {
        BusError::BadRequest(m) => m,
        other => panic!("expected BadRequest, got {other:?}"),
    }
}

#[test]
fn pipe_prefix_is_the_windows_namespace() {
    assert_eq!(pipe_prefix_string(), r"\\.\pipe\");
}

#[test]
fn unix_endpoint_on_every_platform() {
    match parse_endpoint("/tmp/bus.sock", false).unwrap() {
        Endpoint::UnixSocket(p) => assert_eq!(p, "/tmp/bus.sock"),
        other => panic!("unexpected {other:?}"),
    }
    match parse_endpoint("pipe://tokimo", false).unwrap() {
        Endpoint::UnixSocket(p) => assert_eq!(p, "pipe://tokimo"),
        other => panic!("unexpected {other:?}"),
    }
}

#[test]
fn pipe_scheme_selects_named_pipe_on_windows() {
    match parse_endpoint("pipe://tokimo", true).unwrap() {
        Endpoint::NamedPipe(n) => assert_eq!(n, r"\\.\pipe\tokimo"),
        other => panic!("unexpected {other:?}"),
    }
    match parse_endpoint(r"\\.\pipe\bus", true).unwrap() {
        Endpoint::NamedPipe(n) => assert_eq!(n, r"\\.\pipe\bus"),
        other => panic!("unexpected {other:?}"),
    }
    match parse_endpoint(r"C:\bus.sock", true).unwrap() {
        Endpoint::UnixSocket(p) => assert_eq!(p, r"C:\bus.sock"),
        other => panic!("unexpected {other:?}"),
    }
}

#[test]
fn endpoint_socket_strips_pipe_prefix() {
    match endpoint_to_socket(&Endpoint::NamedPipe(r"\\.\pipe\bus".into())).unwrap() {
        DataPlaneSocket::NamedPipe { name } => assert_eq!(name, "bus"),
        other => panic!("unexpected {other:?}"),
    }
    match endpoint_to_socket(&Endpoint::UnixSocket("/run/x.sock".into())).unwrap() {
        DataPlaneSocket::Unix { path } => assert_eq!(path, "/run/x.sock"),
        other => panic!("unexpected {other:?}"),
    }
}

#[test]
fn named_pipe_config_roundtrips_to_bare_name() {
    let cfg = ClientConfig::named_pipe("tokimo".into(), "t".into());
    match endpoint_to_socket(&cfg.endpoint).unwrap() {
        DataPlaneSocket::NamedPipe { name } => assert_eq!(name, "tokimo"),
        other => panic!("unexpected {other:?}"),
    }
    assert!(cfg.reconnect_max_backoff.is_none());
    assert!(cfg.idle_exit.is_none());
}

#[test]
fn unix_config_has_no_retry() {
    let cfg = ClientConfig::unix("/a.sock".into(), "tok".into());
    assert_eq!(cfg.auth_token, "tok");
    assert!(cfg.reconnect_max_backoff.is_none());
    assert!(cfg.idle_exit.is_none());
}

#[test]
fn env_requires_socket_then_token() {
    let e = ClientConfig::from_env_vars(None, Some("t".into()), None, false).unwrap_err();
    assert_eq!(bad_request(e), "env TOKIMO_BUS_SOCKET is required");
    let e = ClientConfig::from_env_vars(Some("/s".into()), None, None, false).unwrap_err();
    assert_eq!(bad_request(e), "env TOKIMO_BUS_TOKEN is required");
}

#[test]
fn env_idle_threshold() {
    let c = ClientConfig::from_env_vars(Some("/s".into()), Some("t".into()), Some("2500".into()), false).unwrap();
    assert_eq!(c.idle_exit, Some(Duration::from_millis(2500)));
    assert_eq!(c.reconnect_max_backoff, Some(Duration::from_secs(30)));
    assert_eq!(c.auth_token, "t");
    let c = ClientConfig::from_env_vars(Some("/s".into()), Some("t".into()), Some("0".into()), false).unwrap();
    assert!(c.idle_exit.is_none());
    let c = ClientConfig::from_env_vars(Some("/s".into()), Some("t".into()), Some("soon".into()), false).unwrap();
    assert!(c.idle_exit.is_none());
    let c = ClientConfig::from_env_vars(Some("/s".into()), Some("t".into()), None, false).unwrap();
    assert!(c.idle_exit.is_none());
}

#[test]
fn prepare_without_service_fails() {
    let b: BusClientBuilder<u8> = BusClientBuilder::new(ClientConfig::unix("/s".into(), "t".into()));
    let e = b.prepare(1).unwrap_err();
    assert_eq!(bad_request(e), "service() was not called");
}

#[test]
fn prepare_rejects_undeclared_handler() {
    let b = BusClientBuilder::new(ClientConfig::unix("/s".into(), "t".into()))
        .service("helloworld".into(), "0.1.0".into())
        .method(decl("echo"))
        .on_invoke("echo".into(), 1u8)
        .on_invoke("missing".into(), 2u8);
    let e = b.prepare(7).unwrap_err();
    assert_eq!(bad_request(e), "handler registered for `missing` but no MethodDecl declared it");
}

#[test]
fn prepare_builds_hello() {
    let b = BusClientBuilder::new(ClientConfig::unix("/s".into(), "secret".into()))
        .service("helloworld".into(), "0.1.0".into())
        .method(decl("echo"))
        .on_invoke("echo".into(), 1u8)
        .on_invoke("echo".into(), 9u8)
        .publishes("helloworld.greeted".into());
    let (hello, cfg, handlers) = b.prepare(4321).unwrap();
    assert_eq!(hello.protocol.major, 1);
    assert_eq!(hello.protocol.minor, 0);
    assert_eq!(hello.service, "helloworld");
    assert_eq!(hello.version, "0.1.0");
    assert_eq!(hello.pid, 4321);
    assert_eq!(hello.auth_token, "secret");
    assert_eq!(hello.methods.len(), 1);
    assert_eq!(hello.events, vec!["helloworld.greeted".to_string()]);
    assert!(hello.data_plane.is_none());
    assert_eq!(cfg.auth_token, "secret");
    assert_eq!(handlers.len(), 1);
    assert_eq!(handlers[0].0, "echo");
    assert_eq!(handlers[0].1, 9u8);
}

#[test]
fn handshake_reply_cases() {
    let ack = HelloAck { client_id: 3, heartbeat_interval: Duration::from_secs(15) };
    match handshake_reply(Some(BusFrame::HelloAck(ack))) {
        Handshake::Accepted(a) => assert_eq!(a.client_id, 3),
        _ => panic!("should be accepted"),
    }
    let refused = Response { req_id: 0, result: Err(BusError::InvalidAuthToken) };
    assert!(matches!(
        handshake_reply(Some(BusFrame::Response(refused))),
        Handshake::Failed(BusError::InvalidAuthToken)
    ));
    let silent = Response { req_id: 0, result: Ok(vec![]) };
    match handshake_reply(Some(BusFrame::Response(silent))) {
        Handshake::Failed(BusError::Internal(m)) => assert_eq!(m, "broker rejected Hello without explaining"),
        _ => panic!("should fail"),
    }
    assert!(matches!(handshake_reply(Some(BusFrame::Ping)), Handshake::Unexpected(BusFrame::Ping)));
    assert!(matches!(handshake_reply(None), Handshake::Failed(BusError::ConnectionClosed)));
}

#[test]
fn initial_connect_retries_within_window() {
    let max = Duration::from_secs(30);
    let refused = BusError::Io("connect: Connection refused (os error 111)".into());
    assert_eq!(
        initial_connect_retry(&refused, &Duration::from_millis(10), &max, 50),
        Some((Duration::from_millis(50), 100))
    );
    assert_eq!(
        initial_connect_retry(&refused, &Duration::from_millis(10), &max, 800),
        Some((Duration::from_millis(800), 1000))
    );
    assert_eq!(initial_connect_retry(&refused, &Duration::from_secs(30), &max, 50), None);
    let denied = BusError::Io("Permission denied".into());
    assert_eq!(initial_connect_retry(&denied, &Duration::from_millis(10), &max, 50), None);
    assert_eq!(initial_connect_retry(&BusError::InvalidAuthToken, &Duration::ZERO, &max, 50), None);
}

#[test]
fn inbound_classification() {
    assert!(matches!(inbound_action(BusFrame::Ping), InboundAction::ReplyPong));
    assert!(matches!(inbound_action(BusFrame::Shutdown), InboundAction::Shutdown));
    let inv = Invoke { req_id: 5, method: "echo".into(), payload: vec![1], caller: caller() };
    match inbound_action(BusFrame::Invoke(inv)) {
        InboundAction::Dispatch(i) => assert_eq!(i.req_id, 5),
        _ => panic!("should dispatch"),
    }
    assert!(matches!(inbound_action(BusFrame::Pong), InboundAction::Ignore));
    assert!(matches!(
        inbound_action(BusFrame::Subscribe { topic_prefix: "a".into() }),
        InboundAction::Ignore
    ));
}

#[test]
fn transient_connect_errors() {
    assert!(is_transient_connect_msg("connect: Connection refused (os error 111)"));
    assert!(is_transient_connect_msg("No such file or directory (os error 2)"));
    assert!(!is_transient_connect_msg("Permission denied"));
}

#[test]
fn connect_backoff_doubles_to_one_second() {
    assert_eq!(next_connect_backoff(50), 100);
    assert_eq!(next_connect_backoff(400), 800);
    assert_eq!(next_connect_backoff(600), 1000);
    assert_eq!(next_connect_backoff(1000), 1000);
}

#[test]
fn invoke_frames_number_requests() {
    let mut c = BusClient::new("helloworld".into(), None);
    assert_eq!(c.service_name(), "helloworld");
    let (id1, f1) = c.invoke_frame("notes", "list", vec![9], caller());
    let (id2, _) = c.invoke_frame("notes", "get", vec![], caller());
    assert_eq!(id1, 1);
    assert_eq!(id2, 2);
    match f1 {
        BusFrame::Invoke(i) => {
            assert_eq!(i.method, "notes.list");
            assert_eq!(i.req_id, 1);
            assert_eq!(i.payload, vec![9]);
        }
        other => panic!("unexpected {other:?}"),
    }
}

#[test]
fn auto_caller_fills_request_id() {
    let c = BusClient::new("helloworld".into(), None);
    let id = "3f2c6f0e-9b1a-4d2e-8c55-0a1b2c3d4e5f".to_string();
    let ctx = c.auto_caller(Some("user-9".into()), id.clone(), "helloworld");
    assert_eq!(ctx.user_id.as_deref(), Some("user-9"));
    assert_eq!(ctx.caller_app_id.as_deref(), Some("helloworld"));
    assert_eq!(ctx.request_id, id);
    assert!(ctx.workspace.is_none());
    let other = c.auto_caller(None, "r2".into(), "notes");
    assert!(other.user_id.is_none());
    assert_eq!(other.caller_app_id.as_deref(), Some("notes"));
}

#[test]
fn shutdown_fires_once() {
    let mut c = BusClient::new("x".into(), None);
    assert!(c.shutdown());
    assert!(!c.shutdown());
}

#[test]
fn idle_threshold() {
    let never = BusClient::new("x".into(), None);
    assert!(!never.idle_expired(&Duration::from_secs(3600)));
    let c = BusClient::new("x".into(), Some(Duration::from_millis(500)));
    assert!(!c.idle_expired(&Duration::from_millis(499)));
    assert!(!c.idle_expired(&Duration::from_micros(499_999)));
    let fine = BusClient::new("x".into(), Some(Duration::from_micros(500_500)));
    assert!(!fine.idle_expired(&Duration::from_micros(500_499)));
    assert!(fine.idle_expired(&Duration::from_micros(500_500)));
    assert!(c.idle_expired(&Duration::from_millis(500)));
}

#[test]
fn missing_handler_is_method_not_found() {
    let c = BusClient::new("helloworld".into(), None);
    let inv = Invoke { req_id: 11, method: "nope".into(), payload: vec![], caller: caller() };
    match c.missing_handler_reply(&inv) {
        BusFrame::Response(r) => {
            assert_eq!(r.req_id, 11);
            match r.result {
                Err(BusError::MethodNotFound { service, method }) => {
                    assert_eq!(service, "helloworld");
                    assert_eq!(method, "nope");
                }
                other => panic!("unexpected {other:?}"),
            }
        }
        other => panic!("unexpected {other:?}"),
    }
}

#[test]
fn publish_and_subscribe_frames() {
    match publish_frame("notes.created", vec![1, 2]) {
        BusFrame::Publish(e) => {
            assert_eq!(e.topic, "notes.created");
            assert_eq!(e.payload, vec![1, 2]);
            assert!(e.from.is_none());
        }
        other => panic!("unexpected {other:?}"),
    }
    match subscribe_frame("notes") {
        BusFrame::Subscribe { topic_prefix } => assert_eq!(topic_prefix, "notes"),
        other => panic!("unexpected {other:?}"),
    }
}

#[test]
fn dispatch_runs_registered_handler() {
    let c = BusClient::new("helloworld".into(), None);
    let handlers = vec![("echo".to_string(), 'e'), ("shout".to_string(), 's')];
    let inv = Invoke { req_id: 21, method: "shout".into(), payload: vec![4, 2], caller: caller() };
    match c.dispatch(&handlers, inv) {
        Dispatch::Handle { req_id, handler, request } => {
            assert_eq!(req_id, 21);
            assert_eq!(handlers[handler].1, 's');
            assert_eq!(request.payload, vec![4, 2]);
            assert_eq!(request.caller.user_id.as_deref(), Some("u1"));
        }
        Dispatch::Reply(f) => panic!("unexpected reply {f:?}"),
    }
    assert_eq!(find_handler(&handlers, "echo"), Some(0));
    assert_eq!(find_handler(&handlers, "none"), None);
}

#[test]
fn dispatch_without_handler_replies_not_found() {
    let c = BusClient::new("helloworld".into(), None);
    let handlers: Vec<(String, u8)> = vec![];
    let inv = Invoke { req_id: 3, method: "nope".into(), payload: vec![], caller: caller() };
    match c.dispatch(&handlers, inv) {
        Dispatch::Reply(BusFrame::Response(r)) => {
            assert_eq!(r.req_id, 3);
            assert!(matches!(r.result, Err(BusError::MethodNotFound { .. })));
        }
        _ => panic!("should reply"),
    }
}

#[test]
fn handler_response_carries_result() {
    match handler_response(8, Ok(vec![1])) {
        BusFrame::Response(r) => {
            assert_eq!(r.req_id, 8);
            assert_eq!(r.result.unwrap(), vec![1]);
        }
        other => panic!("unexpected {other:?}"),
    }
}
