use orbuculum::bus::{
    created_uuid, needs_lookup, respond, settle, submit, targets_mac, CreateOutcome, NetworkCommand,
    NetworkError, NetworkRequest, NetworkResponse, State, CREATE_TIMEOUT_MS,
};
use tokio::sync::mpsc::unbounded_channel;

#[test]
fn submit_returns_before_the_worker_runs() {
    let (tx, mut rx) = unbounded_channel::<NetworkRequest>();
    let state = State::new(tx);
    let mut first = submit(&state, NetworkCommand::GetHostname).ok().unwrap();
    let _second = submit(&state, NetworkCommand::GetNetworking).ok().unwrap();
    assert!(first.try_recv().is_err());
    let request = rx.try_recv().ok().unwrap();
    assert!(matches!(request.command, NetworkCommand::GetHostname));
    let next = rx.try_recv().ok().unwrap();
    assert!(matches!(next.command, NetworkCommand::GetNetworking));
    respond(request, Ok(NetworkResponse::Hostname("myhostname".to_string())));
    match settle(first.blocking_recv()) {
        Ok(NetworkResponse::Hostname(h)) => assert_eq!(h, "myhostname"),
        _ => panic!("expected the hostname"),
    }
}

#[test]
fn submit_after_shutdown_fails() {
    let (tx, rx) = unbounded_channel::<NetworkRequest>();
    drop(rx);
    let state = State::new(tx);
    let r = submit(&state, NetworkCommand::ListDevices);
    assert!(matches!(r, Err(NetworkError::WorkerUnavailable)));
}

#[test]
fn dropped_request_resolves_to_worker_unavailable() {
    let (tx, mut rx) = unbounded_channel::<NetworkRequest>();
    let state = State::new(tx);
    let receiver = submit(&state, NetworkCommand::ListConnections).ok().unwrap();
    let request = rx.try_recv().ok().unwrap();
    drop(request);
    drop(rx);
    assert!(matches!(settle(receiver.blocking_recv()), Err(NetworkError::WorkerUnavailable)));
}

#[test]
fn handler_errors_reach_the_caller() {
    let (tx, mut rx) = unbounded_channel::<NetworkRequest>();
    let state = State::new(tx);
    let receiver = submit(&state, NetworkCommand::GetConnection("nope".to_string())).ok().unwrap();
    let request = rx.try_recv().ok().unwrap();
    respond(request, Err(NetworkError::NotFound("nope".to_string())));
    match settle(receiver.blocking_recv()) {
        Err(NetworkError::NotFound(u)) => assert_eq!(u, "nope"),
        _ => panic!("expected not found"),
    }
}

#[test]
fn reply_to_abandoned_caller_is_dropped() {
    let (tx, mut rx) = unbounded_channel::<NetworkRequest>();
    let state = State::new(tx);
    let receiver = submit(&state, NetworkCommand::SetNetworking(true)).ok().unwrap();
    drop(receiver);
    let request = rx.try_recv().ok().unwrap();
    respond(request, Ok(NetworkResponse::Success));
}

#[test]
fn create_timeout_falls_back_to_lookup() {
    assert!(needs_lookup(&CreateOutcome::TimedOut));
    let uuid = created_uuid(CreateOutcome::TimedOut, Some("found-uuid".to_string())).ok().unwrap();
    assert_eq!(uuid, "found-uuid");
    let uuid = created_uuid(CreateOutcome::TimedOut, None).ok().unwrap();
    assert_eq!(uuid, "");
}

#[test]
fn create_in_time_keeps_reported_uuid() {
    assert!(!needs_lookup(&CreateOutcome::Created(None)));
    let uuid = created_uuid(CreateOutcome::Created(Some("u1".to_string())), Some("other".to_string()));
    assert_eq!(uuid.ok().unwrap(), "u1");
    assert_eq!(created_uuid(CreateOutcome::Created(None), None).ok().unwrap(), "");
    assert_eq!(CREATE_TIMEOUT_MS, 1000);
}

#[test]
fn create_target_kind() {
    assert!(targets_mac("52:54:5E:13:7F:43"));
    assert!(!targets_mac("eth4"));
    assert!(!targets_mac(""));
}

#[test]
fn failed_create_is_an_error() {
    let failed = CreateOutcome::Failed("no such device".to_string());
    assert!(!needs_lookup(&failed));
    match created_uuid(failed, Some("other".to_string())) {
        Err(NetworkError::Failed(m)) => assert_eq!(m, "no such device"),
        _ => panic!("expected the failure"),
    }
}
