use std::time::Duration;

use tokimo_bus::frame::BusError;
use tokimo_bus::supervisor::{AppSpec, Backoff, Lifecycle, Supervisor};

fn spec(service: &str, lifecycle: Lifecycle) -> AppSpec {
    AppSpec {
        service: service.into(),
        binary: format!("/opt/apps/{service}"),
        args: vec!["--quiet".into()],
        env: vec![("RUST_LOG".into(), "info".into())],
        lifecycle,
    }
}

fn on_demand(ms: u64) -> Lifecycle {
    Lifecycle::OnDemand { idle_timeout: Duration::from_millis(ms) }
}

#[test]
fn backoff_doubles_and_caps() {
    let mut b = Backoff::new();
    let mut seen = Vec::new();
    for _ in 0..12 {
        seen.push(b.bump().as_millis() as u64);
    }
    assert_eq!(
        seen,
        vec![1000, 2000, 4000, 8000, 16000, 32000, 64000, 128000, 256000, 300000, 300000, 300000]
    );
}

#[test]
fn backoff_reset_starts_over() {
    let mut b = Backoff::new();
    b.bump();
    b.bump();
    b.reset();
    assert_eq!(b.bump(), Duration::from_secs(1));
}

#[test]
fn spawn_plan_sets_bus_environment() {
    let mut s = Supervisor::new("/run/tokimo/bus.sock".into());
    s.register(spec("notes", on_demand(90_000)));
    let plan = s.spawn_plan("notes", "tok-123".into()).unwrap();
    assert_eq!(plan.binary, "/opt/apps/notes");
    assert_eq!(plan.args, vec!["--quiet".to_string()]);
    let env: Vec<(&str, &str)> = plan.env.iter().map(|(k, v)| (k.as_str(), v.as_str())).collect();
    assert_eq!(
        env,
        vec![
            ("TOKIMO_BUS_SOCKET", "/run/tokimo/bus.sock"),
            ("TOKIMO_BUS_TOKEN", "tok-123"),
            ("TOKIMO_BUS_IDLE_MS", "90000"),
            ("RUST_LOG", "info"),
        ]
    );
}

#[test]
fn resident_app_idle_ms_is_zero() {
    let mut s = Supervisor::new("/s".into());
    s.register(spec("core", Lifecycle::Resident));
    let plan = s.spawn_plan("core", "t".into()).unwrap();
    assert_eq!(plan.env[2].0, "TOKIMO_BUS_IDLE_MS");
    assert_eq!(plan.env[2].1, "0");
}

#[test]
fn unknown_service_is_not_found() {
    let mut s = Supervisor::new("/s".into());
    match s.spawn_plan("ghost", "t".into()) {
        Err(BusError::ServiceNotFound(n)) => assert_eq!(n, "ghost"),
        other => panic!("unexpected {:?}", other.map(|p| p.binary)),
    }
    assert!(matches!(s.needs_spawn("ghost", false), Err(BusError::ServiceNotFound(_))));
    assert!(matches!(s.unregister("ghost"), Err(BusError::ServiceNotFound(_))));
    assert!(s.after_exit("ghost", true).is_none());
    assert!(s.after_spawn_failure("ghost").is_none());
}

#[test]
fn needs_spawn_only_when_not_running() {
    let mut s = Supervisor::new("/s".into());
    s.register(spec("notes", on_demand(1000)));
    assert_eq!(s.needs_spawn("notes", false).unwrap(), true);
    assert_eq!(s.needs_spawn("notes", true).unwrap(), false);
}

#[test]
fn unregister_removes_definition() {
    let mut s = Supervisor::new("/s".into());
    s.register(spec("notes", on_demand(1000)));
    assert!(s.unregister("notes").is_ok());
    assert!(s.spawn_plan("notes", "t".into()).is_err());
}

#[test]
fn resident_services_lists_only_resident() {
    let mut s = Supervisor::new("/s".into());
    s.register(spec("a", Lifecycle::Resident));
    s.register(spec("b", on_demand(5)));
    s.register(spec("c", Lifecycle::Resident));
    let mut r = s.resident_services();
    r.sort();
    assert_eq!(r, vec!["a".to_string(), "c".to_string()]);
}

#[test]
fn replace_reports_what_to_do() {
    let mut s = Supervisor::new("/s".into());
    let first = s.register_or_replace(spec("a", on_demand(5)));
    assert!(!first.stop_old);
    assert!(!first.start_resident);
    let second = s.register_or_replace(spec("a", Lifecycle::Resident));
    assert!(second.stop_old);
    assert!(second.start_resident);
}

#[test]
fn crash_backoff_grows_and_clean_exit_resets() {
    let mut s = Supervisor::new("/s".into());
    s.register(spec("core", Lifecycle::Resident));
    assert_eq!(s.after_exit("core", false), Some(Duration::from_secs(1)));
    assert_eq!(s.after_exit("core", false), Some(Duration::from_secs(2)));
    assert_eq!(s.after_spawn_failure("core"), Some(Duration::from_secs(4)));
    assert_eq!(s.after_exit("core", true), Some(Duration::from_secs(1)));
    assert_eq!(s.after_exit("core", false), Some(Duration::from_secs(2)));
}

#[test]
fn replacing_resets_backoff() {
    let mut s = Supervisor::new("/s".into());
    s.register(spec("core", Lifecycle::Resident));
    s.after_exit("core", false);
    s.after_exit("core", false);
    s.register_or_replace(spec("core", Lifecycle::Resident));
    assert_eq!(s.after_exit("core", false), Some(Duration::from_secs(1)));
}
