use std::time::Duration;

use tokimo_bus::broker::{
    finish_call, spawn_token, topic_matches_prefix, Broker, BrokerConfig, CallOutcome, CallRoute, HelloOutcome,
};
use tokimo_bus::frame::{
    BusError, BusFrame, CallerCtx, Event, HelloRequest, HttpMethod, MethodDecl, ProtocolVersion, Response,
};
use tokimo_bus::client::{
    handler_response, handshake_reply, inbound_action, BusClient, BusClientBuilder, ClientConfig, Dispatch,
    Handshake, InboundAction,
};
use tokimo_bus::registry::{Registry, ServiceEntry};
use tokimo_bus::session::{session_action, split_target, SessionAction};

fn decl(name: &str, requires_auth: bool) -> MethodDecl {
    MethodDecl {
        name: name.into(),
        requires_auth,
        streaming: false,
        http_method: HttpMethod::Post,
        path: None,
        description: None,
    }
}

fn hello(service: &str, token: &str, major: u16) -> BusFrame {
    BusFrame::Hello(HelloRequest {
        protocol: ProtocolVersion { major, minor: 0 },
        service: service.into(),
        version: "0.1.0".into(),
        pid: 1234,
        auth_token: token.into(),
        methods: vec![decl("echo", false), decl("secret", true)],
        events: vec![],
        data_plane: None,
    })
}

fn config() -> BrokerConfig {
    BrokerConfig {
        heartbeat_interval: Duration::from_secs(60),
        default_call_timeout: Duration::from_secs(5),
    }
}

fn connect(broker: &mut Broker, service: &str) -> u64 {
    let token = broker.issue_token(service, 1_000);
    match broker.accept_hello(hello(service, &token, 1)) {
        HelloOutcome::Accepted { generation, .. } => {
            broker.attach_session(service, generation);
            generation
        }
        _ => panic!("handshake should succeed"),
    }
}

#[test]
fn default_config_values() {
    let c = BrokerConfig::default();
    assert_eq!(c.heartbeat_interval, Duration::from_secs(15));
    assert_eq!(c.default_call_timeout, Duration::from_secs(30));
}

#[test]
fn token_format_and_single_use() {
    assert_eq!(spawn_token(0x1f, 0xabc, 2), "000000000000001f00000abc0000000000000002");
    let mut broker = Broker::new(config(), 0x10);
    let t1 = broker.issue_token("helloworld", 5);
    let t2 = broker.issue_token("other", 5);
    assert_eq!(t1.len(), 40);
    assert_ne!(t1, t2);
    assert!(!broker.consume_token("helloworld", "bogus"));
    // The failed check withdrew the token.
    assert!(!broker.consume_token("helloworld", &t1));
    let t3 = broker.issue_token("helloworld", 6);
    assert!(broker.consume_token("helloworld", &t3));
    assert!(!broker.consume_token("helloworld", &t3));
}

#[test]
fn handshake_registers_and_acks() {
    let mut broker = Broker::new(config(), 7);
    let token = broker.issue_token("helloworld", 9);
    match broker.accept_hello(hello("helloworld", &token, 1)) {
        HelloOutcome::Accepted { service, generation, client_id, ack } => {
            assert_eq!(service, "helloworld");
            assert_eq!(generation, 1);
            assert_eq!(client_id, 1);
            match ack {
                BusFrame::HelloAck(a) => {
                    assert_eq!(a.client_id, 1);
                    assert_eq!(a.heartbeat_interval, Duration::from_secs(60));
                }
                other => panic!("unexpected ack {other:?}"),
            }
        }
        _ => panic!("handshake should succeed"),
    }
    let entry = broker.registry().get("helloworld").unwrap();
    assert_eq!(entry.pid, 1234);
    assert_eq!(entry.generation, 1);
    assert_eq!(broker.registry_methods("helloworld").unwrap().len(), 2);
    assert!(broker.registry_data_plane("helloworld").is_none());
}

#[test]
fn handshake_refusals() {
    let mut broker = Broker::new(config(), 7);
    assert!(matches!(broker.accept_hello(BusFrame::Ping), HelloOutcome::NotHello));

    // No token was issued: any token is rejected.
    match broker.accept_hello(hello("helloworld", "bogus-token", 1)) {
        HelloOutcome::Rejected(BusFrame::Response(Response { req_id: 0, result: Err(BusError::InvalidAuthToken) })) => {}
        _ => panic!("bad token should be rejected"),
    }

    let token = broker.issue_token("helloworld", 9);
    match broker.accept_hello(hello("helloworld", &token, 2)) {
        HelloOutcome::Rejected(BusFrame::Response(Response {
            req_id: 0,
            result: Err(BusError::ProtocolMismatch { broker: b, client: c }),
        })) => {
            assert_eq!(b, ProtocolVersion::current());
            assert_eq!(c.major, 2);
        }
        _ => panic!("major mismatch should be rejected"),
    }
    // A version mismatch leaves the token in place.
    assert!(matches!(broker.accept_hello(hello("helloworld", &token, 1)), HelloOutcome::Accepted { .. }));
}

#[test]
fn routing_to_connected_service() {
    let mut broker = Broker::new(config(), 7);
    let generation = connect(&mut broker, "helloworld");
    let caller = CallerCtx::default();
    match broker.plan_call("helloworld", "echo", b"hello".to_vec(), caller.clone()).unwrap() {
        CallRoute::Remote { generation: g, req_id, frame } => {
            assert_eq!(g, generation);
            assert_eq!(req_id, 1);
            match frame {
                BusFrame::Invoke(inv) => {
                    assert_eq!(inv.req_id, 1);
                    assert_eq!(inv.method, "echo");
                    assert_eq!(inv.payload, b"hello");
                }
                other => panic!("unexpected frame {other:?}"),
            }
        }
        CallRoute::Local { .. } => panic!("expected a remote route"),
    }
    match broker.plan_call("helloworld", "echo", vec![], caller.clone()).unwrap() {
        CallRoute::Remote { req_id, .. } => assert_eq!(req_id, 2),
        CallRoute::Local { .. } => panic!("expected a remote route"),
    }
    let err = broker.plan_call("unknown", "x", vec![], caller.clone()).err().unwrap();
    assert!(matches!(err, BusError::ServiceNotFound(ref s) if s == "unknown"));
    let err = broker.plan_call("helloworld", "nope", vec![], caller.clone()).err().unwrap();
    assert!(matches!(err, BusError::MethodNotFound { .. }));
    let err = broker.plan_call("helloworld", "secret", vec![], caller.clone()).err().unwrap();
    assert!(matches!(err, BusError::Unauthorized { .. }));
    let user = CallerCtx { user_id: Some("u1".into()), ..CallerCtx::default() };
    assert!(broker.plan_call("helloworld", "secret", vec![], user).is_ok());
}

#[test]
fn session_must_be_attached() {
    let mut broker = Broker::new(config(), 7);
    let token = broker.issue_token("helloworld", 9);
    assert!(matches!(broker.accept_hello(hello("helloworld", &token, 1)), HelloOutcome::Accepted { .. }));
    let err = broker.plan_call("helloworld", "echo", vec![], CallerCtx::default()).err().unwrap();
    assert!(matches!(err, BusError::ServiceNotFound(_)));
}

#[test]
fn local_service_takes_precedence() {
    let mut broker = Broker::new(BrokerConfig::default(), 7);
    broker.register_local_service("notification_center".into(), vec![decl("notify", false)]);
    assert!(broker.has_local_service("notification_center"));
    assert_eq!(broker.local_service_names(), vec!["notification_center".to_string()]);
    assert_eq!(broker.local_service_methods("notification_center").unwrap()[0].name, "notify");
    match broker
        .plan_call("notification_center", "notify", b"hello".to_vec(), CallerCtx::default())
        .unwrap()
    {
        CallRoute::Local { method, payload, .. } => {
            assert_eq!(method, "notify");
            assert_eq!(payload, b"hello");
            let mut out = b"ack:".to_vec();
            out.extend_from_slice(&payload);
            let res = finish_call("notification_center", CallOutcome::Finished(Ok(out)), &Duration::from_secs(1));
            assert_eq!(res.unwrap(), b"ack:hello");
        }
        CallRoute::Remote { .. } => panic!("expected the local route"),
    }
    let err = broker
        .plan_call("notification_center", "other", vec![], CallerCtx::default())
        .err()
        .unwrap();
    assert!(matches!(err, BusError::MethodNotFound { .. }));
}

#[test]
fn call_outcomes() {
    let t = Duration::from_millis(1500);
    assert!(matches!(finish_call("s", CallOutcome::TimedOut, &t), Err(BusError::Timeout { ms: 1500 })));
    assert!(matches!(finish_call("s", CallOutcome::ReplyDropped, &t), Err(BusError::ConnectionClosed)));
    assert!(matches!(finish_call("s", CallOutcome::Undeliverable, &t), Err(BusError::ServiceNotFound(_))));
    let reply = Response { req_id: 3, result: Ok(b"x".to_vec()) };
    assert_eq!(finish_call("s", CallOutcome::Replied(reply), &t).unwrap(), b"x");
}

#[test]
fn stale_session_does_not_evict_successor() {
    let mut broker = Broker::new(config(), 7);
    let first = connect(&mut broker, "video");
    let second = connect(&mut broker, "video");
    assert!(second > first);
    assert!(!broker.end_session("video", first));
    assert_eq!(broker.registry().get("video").unwrap().generation, second);
    assert!(broker.end_session("video", second));
    assert!(broker.registry().get("video").is_none());
}

#[test]
fn registry_generations() {
    let mut reg = Registry::new();
    let entry = |name: &str| ServiceEntry {
        service: name.into(),
        generation: 0,
        methods: vec![],
        pid: 1,
        data_plane: None,
    };
    assert_eq!(reg.insert(entry("a")), 1);
    assert_eq!(reg.insert(entry("b")), 2);
    assert_eq!(reg.insert(entry("a")), 3);
    assert_eq!(reg.list().len(), 2);
    assert!(!reg.remove_if("a", 1));
    assert!(reg.remove_if("a", 3));
    assert!(reg.get("a").is_none());
    assert_eq!(reg.get("b").unwrap().generation, 2);
}

#[test]
fn topic_prefix_matching() {
    assert!(topic_matches_prefix("video.library.scanned", "video.library"));
    assert!(topic_matches_prefix("video.library", "video.library"));
    assert!(!topic_matches_prefix("video.library.scanned", "video.lib"));
    assert!(!topic_matches_prefix("video.library", "video.lib"));
    assert!(!topic_matches_prefix("audio.library", "video"));
    assert!(!topic_matches_prefix("video", "video.library"));
}

#[test]
fn fanout_reaches_subscribers_but_not_publisher() {
    let mut broker = Broker::new(config(), 7);
    let gv = connect(&mut broker, "video");
    let gs = connect(&mut broker, "search");
    connect(&mut broker, "music");
    broker.subscribe("video".into(), "video".into());
    broker.subscribe("search".into(), "video.library".into());
    broker.subscribe("music".into(), "music".into());
    broker.subscribe("ghost".into(), "video".into());
    broker.subscribe("music".into(), "video.lib".into());
    let event = Event { topic: "video.library.scanned".into(), payload: b"p".to_vec(), from: None };
    let (stamped, targets) = broker.fanout("video", event);
    assert_eq!(stamped.from.as_deref(), Some("video"));
    assert_eq!(targets, vec![("search".to_string(), gs)]);
    let event = Event { topic: "video.x".into(), payload: vec![], from: None };
    let (_, targets) = broker.fanout("music", event);
    assert_eq!(targets, vec![("video".to_string(), gv)]);
    broker.unsubscribe("video", "video");
    let event = Event { topic: "video.x".into(), payload: vec![], from: None };
    let (_, targets) = broker.fanout("music", event);
    assert!(targets.is_empty());
}

#[test]
fn shutdown_goes_to_current_registration() {
    let mut broker = Broker::new(config(), 7);
    let g = connect(&mut broker, "video");
    assert_eq!(broker.shutdown_service("video").unwrap(), g);
    assert!(matches!(broker.shutdown_service("nope"), Err(BusError::ServiceNotFound(_))));
}

#[test]
fn app_originated_targets() {
    let (s, m) = split_target("video.library.scan").unwrap();
    assert_eq!(s, "video");
    assert_eq!(m, "library.scan");
    match split_target("noseparator") {
        Err(BusError::BadRequest(msg)) => {
            assert_eq!(msg, "invoke method must be `service.method`, got `noseparator`")
        }
        other => panic!("unexpected {other:?}"),
    }
}

#[test]
fn session_frame_actions() {
    assert!(matches!(session_action(BusFrame::Pong), SessionAction::Nothing));
    assert!(matches!(
        session_action(BusFrame::Subscribe { topic_prefix: "a".into() }),
        SessionAction::Subscribe(ref p) if p == "a"
    ));
    assert!(matches!(session_action(BusFrame::Ping), SessionAction::Ignore));
    assert!(matches!(session_action(BusFrame::Shutdown), SessionAction::Ignore));
}

#[test]
fn echo_roundtrip_through_both_ends() {
    let mut broker = Broker::new(config(), 7);
    let token = broker.issue_token("helloworld", 42);
    let builder = BusClientBuilder::new(ClientConfig::unix("/tmp/bus.sock".into(), token))
        .service("helloworld".into(), "0.1.0".into())
        .method(decl("echo", false))
        .on_invoke("echo".into(), "echo-handler");
    let (hello_req, _cfg, handlers) = builder.prepare(1234).unwrap();

    let (generation, ack) = match broker.accept_hello(BusFrame::Hello(hello_req)) {
        HelloOutcome::Accepted { generation, ack, .. } => (generation, ack),
        _ => panic!("client handshake"),
    };
    match handshake_reply(Some(ack)) {
        Handshake::Accepted(ack) => assert_eq!(ack.heartbeat_interval, Duration::from_secs(60)),
        _ => panic!("client handshake"),
    }
    broker.attach_session("helloworld", generation);

    let frame = match broker.plan_call("helloworld", "echo", b"hello".to_vec(), CallerCtx::default()).unwrap() {
        CallRoute::Remote { frame, .. } => frame,
        CallRoute::Local { .. } => panic!("expected a remote route"),
    };
    let client = BusClient::new("helloworld".into(), None);
    let inv = match inbound_action(frame) {
        InboundAction::Dispatch(inv) => inv,
        _ => panic!("the app should dispatch the call"),
    };
    let reply = match client.dispatch(&handlers, inv) {
        Dispatch::Handle { req_id, handler, request } => {
            assert_eq!(handlers[handler].1, "echo-handler");
            handler_response(req_id, Ok(request.payload))
        }
        Dispatch::Reply(_) => panic!("handler should run"),
    };
    let resp = match session_action(reply) {
        SessionAction::Complete(resp) => resp,
        _ => panic!("the broker should complete its call"),
    };
    let out = finish_call("helloworld", CallOutcome::Replied(resp), &Duration::from_secs(5)).unwrap();
    assert_eq!(out, b"hello");

    let err = broker.plan_call("unknown", "x", vec![], CallerCtx::default()).err().unwrap();
    assert!(matches!(err, BusError::ServiceNotFound(_)));
    let err = broker.plan_call("helloworld", "nope", vec![], CallerCtx::default()).err().unwrap();
    assert!(matches!(err, BusError::MethodNotFound { .. }));
}

#[test]
fn bad_token_rejected_at_handshake() {
    let mut broker = Broker::new(BrokerConfig::default(), 7);
    let builder = BusClientBuilder::new(ClientConfig::unix("/tmp/bus.sock".into(), "bogus-token".into()))
        .service("helloworld".into(), "0.1.0".into())
        .method(decl("echo", false))
        .on_invoke("echo".into(), ());
    let (hello_req, _, _) = builder.prepare(1).unwrap();
    let reply = match broker.accept_hello(BusFrame::Hello(hello_req)) {
        HelloOutcome::Rejected(f) => f,
        _ => panic!("handshake should fail"),
    };
    assert!(matches!(handshake_reply(Some(reply)), Handshake::Failed(BusError::InvalidAuthToken)));
}
