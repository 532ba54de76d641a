use std::time::Duration;

use tokimo_bus::frame::DataPlaneSocket;
use tokimo_bus::transport::{app_socket_plan, connect_retry_delay, full_pipe_name, stale_path, AppSocketError};

#[test]
fn full_pipe_name_adds_prefix_once() {
    assert_eq!(full_pipe_name("tokimo"), r"\\.\pipe\tokimo");
    assert_eq!(full_pipe_name(r"\\.\pipe\tokimo"), r"\\.\pipe\tokimo");
}

#[test]
fn connect_retries_transient_failures_for_five_seconds() {
    assert_eq!(connect_retry_delay(true, &Duration::from_millis(0)), Some(Duration::from_millis(50)));
    assert_eq!(connect_retry_delay(true, &Duration::from_millis(4999)), Some(Duration::from_millis(50)));
    assert_eq!(connect_retry_delay(true, &Duration::from_micros(4_999_999)), Some(Duration::from_millis(50)));
    assert_eq!(connect_retry_delay(true, &Duration::from_millis(5000)), None);
    assert_eq!(connect_retry_delay(false, &Duration::from_millis(10)), None);
}

#[test]
fn stale_path_of_sockets() {
    let unix = DataPlaneSocket::Unix { path: "/run/a.sock".into() };
    assert_eq!(stale_path(&unix), Some("/run/a.sock".to_string()));
    let pipe = DataPlaneSocket::NamedPipe { name: "p".into() };
    assert_eq!(stale_path(&pipe), None);
}

#[test]
fn app_socket_beside_broker_socket() {
    let plan = app_socket_plan("notes", Some("/run/tokimo/bus.sock".into()), false, 1).unwrap();
    assert_eq!(plan.apps_dir.as_deref(), Some("/run/tokimo/apps"));
    match plan.socket {
        DataPlaneSocket::Unix { path } => assert_eq!(path, "/run/tokimo/apps/notes.sock"),
        other => panic!("unexpected {other:?}"),
    }
}

#[test]
fn app_socket_needs_broker_socket() {
    assert_eq!(app_socket_plan("notes", None, false, 1).unwrap_err(), AppSocketError::BusSocketUnset);
    assert_eq!(app_socket_plan("notes", Some("/".into()), false, 1).unwrap_err(), AppSocketError::NoParent);
    assert_eq!(AppSocketError::BusSocketUnset.message(), "TOKIMO_BUS_SOCKET not set");
    assert_eq!(AppSocketError::NoParent.message(), "TOKIMO_BUS_SOCKET has no parent");
}

#[test]
fn app_pipe_on_windows() {
    let plan = app_socket_plan("notes", None, true, 4242).unwrap();
    assert!(plan.apps_dir.is_none());
    match plan.socket {
        DataPlaneSocket::NamedPipe { name } => assert_eq!(name, "tokimo-app-notes-4242"),
        other => panic!("unexpected {other:?}"),
    }
}
