use orbuculum::bus::{NetworkCommand, NetworkError, NetworkResponse};
use orbuculum::model::{Connection, ConnectionItem, NetDevice, NetInfo};
use orbuculum::reconcile::{overlay_connection, Action, Reconciler};
use orbuculum::rules::DesiredDevice;

fn net_info(method: &str, address: &str) -> NetInfo {
    NetInfo {
        method: method.to_string(),
        addresses: vec![address.to_string()],
        gateway: None,
        dns: vec![],
        routes: vec![],
    }
}

fn desired(name: &str, con_name: &str, id: Option<&str>, uuid: Option<&str>, managed: bool) -> DesiredDevice {
    DesiredDevice {
        device: NetDevice {
            name: name.to_string(),
            connection: ConnectionItem { id: id.map(|s| s.to_string()), uuid: uuid.map(|s| s.to_string()) },
            mac: "52:54:5E:13:7F:43".to_string(),
            state: "Activated".to_string(),
            device_type: "Ethernet".to_string(),
            is_virtual: false,
            is_managed: managed,
            driver: None,
            ip4info: None,
            ip6info: None,
            ip4_override: None,
            ip6_override: None,
            conn: vec![],
            dev_path: None,
            id_path: None,
            net_link_modes: vec![],
        },
        type_ord: 3,
        con_name: con_name.to_string(),
    }
}

/// A readable form of an action.
fn show(a: &Action) -> String {
    match a {
        Action::Send(c) => match c {
            NetworkCommand::RenameConnection(u, n) => format!("rename {} {}", u, n),
            NetworkCommand::CreateWiredConnection(n, d) => format!("create {} {}", n, d),
            NetworkCommand::GetConnection(u) => format!("get {}", u),
            NetworkCommand::UpdateConnection(c) => format!("update {} {}", c.uuid, c.ip4info.method),
            NetworkCommand::Reactivate(u) => format!("reactivate {}", u),
            NetworkCommand::SetManage(d, m) => format!("manage {} {}", d, m),
            NetworkCommand::SetNetworking(b) => format!("networking {}", b),
            _ => "other".to_string(),
        },
        Action::Finished(b) => format!("finished {}", b),
        Action::Abort(_) => "abort".to_string(),
    }
}

/// Runs a pass answering every command with success, the given uuid for a
/// creation and the given connection for a fetch.
fn run(devices: Vec<DesiredDevice>, uuid: &str) -> Vec<String> {
    let (mut r, mut a) = Reconciler::start(devices);
    let mut log = vec![];
    loop {
        log.push(show(&a));
        let reply = match &a {
            Action::Send(NetworkCommand::CreateWiredConnection(..)) => Ok(NetworkResponse::Uuid(uuid.to_string())),
            Action::Send(NetworkCommand::GetConnection(u)) => Ok(NetworkResponse::Connection(Connection {
                name: "x".to_string(),
                uuid: u.clone(),
                interface: None,
                mac: None,
                ip4info: net_info("auto", "10.0.0.1/8"),
                ip6info: net_info("auto", "fe80::1/64"),
            })),
            Action::Send(_) => Ok(NetworkResponse::Success),
            _ => break,
        };
        a = r.resume(reply);
    }
    log
}

#[test]
fn rename_scenario() {
    let log = run(vec![desired("enp1s0", "eth0", Some("old-name"), Some("abc-1"), true)], "");
    assert_eq!(
        log,
        vec!["rename abc-1 eth0", "manage enp1s0 true", "networking false", "networking true", "finished true"]
    );
}

#[test]
fn second_pass_is_quiet() {
    let log = run(vec![desired("enp1s0", "eth0", Some("eth0"), Some("abc-1"), false)], "");
    assert_eq!(log, vec!["manage enp1s0 false", "finished false"]);
}

#[test]
fn empty_pass_finishes_at_once() {
    let log = run(vec![], "");
    assert_eq!(log, vec!["finished false"]);
}

#[test]
fn create_scenario_without_override() {
    let log = run(vec![desired("enp2s0", "eth1", None, None, true)], "new-uuid");
    assert_eq!(
        log,
        vec!["create eth1 enp2s0", "manage enp2s0 true", "networking false", "networking true", "finished true"]
    );
}

#[test]
fn create_scenario_with_override() {
    let mut d = desired("enp2s0", "eth1", None, None, true);
    d.device.ip4_override = Some(net_info("manual", "192.168.100.1/24"));
    let log = run(vec![d], "new-uuid");
    assert_eq!(
        log,
        vec![
            "create eth1 enp2s0",
            "get new-uuid",
            "update new-uuid manual",
            "reactivate new-uuid",
            "manage enp2s0 true",
            "networking false",
            "networking true",
            "finished true"
        ]
    );
}

#[test]
fn devices_in_order() {
    let log = run(
        vec![
            desired("a", "eth0", Some("eth0"), Some("u-a"), true),
            desired("b", "eth1", None, Some("u-b"), true),
        ],
        "",
    );
    assert_eq!(
        log,
        vec!["manage a true", "rename u-b eth1", "manage b true", "networking false", "networking true", "finished true"]
    );
}

#[test]
fn failure_aborts_the_pass() {
    let (mut r, a) = Reconciler::start(vec![
        desired("a", "eth0", None, None, true),
        desired("b", "eth1", None, None, true),
    ]);
    assert_eq!(show(&a), "create eth0 a");
    let a = r.resume(Err(NetworkError::DaemonUnreachable));
    assert!(matches!(a, Action::Abort(NetworkError::DaemonUnreachable)));
}

#[test]
fn failed_reactivation_and_stop_are_passed_over() {
    let mut d = desired("a", "eth0", None, None, true);
    d.device.ip6_override = Some(net_info("manual", "fd00::1/64"));
    let (mut r, a) = Reconciler::start(vec![d]);
    assert_eq!(show(&a), "create eth0 a");
    let a = r.resume(Ok(NetworkResponse::Uuid("u".to_string())));
    assert_eq!(show(&a), "get u");
    let conn = Connection {
        name: "eth0".to_string(),
        uuid: "u".to_string(),
        interface: Some("a".to_string()),
        mac: None,
        ip4info: net_info("auto", ""),
        ip6info: net_info("auto", ""),
    };
    let a = r.resume(Ok(NetworkResponse::Connection(conn)));
    match &a {
        Action::Send(NetworkCommand::UpdateConnection(c)) => {
            assert_eq!(c.ip6info.method, "manual");
            assert_eq!(c.ip6info.addresses, vec!["fd00::1/64".to_string()]);
            assert_eq!(c.ip4info.method, "auto");
        },
        _ => panic!("expected an update"),
    }
    let a = r.resume(Ok(NetworkResponse::Success));
    assert_eq!(show(&a), "reactivate u");
    let a = r.resume(Err(NetworkError::Failed("no".to_string())));
    assert_eq!(show(&a), "manage a true");
    let a = r.resume(Ok(NetworkResponse::Success));
    assert_eq!(show(&a), "networking false");
    let a = r.resume(Err(NetworkError::Failed("no".to_string())));
    assert_eq!(show(&a), "networking true");
    let a = r.resume(Err(NetworkError::DaemonUnreachable));
    assert!(matches!(a, Action::Abort(NetworkError::DaemonUnreachable)));
}

#[test]
fn unexpected_reply_to_create_aborts() {
    let (mut r, _) = Reconciler::start(vec![desired("a", "eth0", None, None, true)]);
    let a = r.resume(Ok(NetworkResponse::Success));
    assert!(matches!(a, Action::Abort(NetworkError::UnexpectedResponse)));
}

#[test]
fn overlay_replaces_given_families() {
    let conn = Connection::new(
        "c".to_string(),
        "u".to_string(),
        None,
        None,
        net_info("auto", "1.1.1.1/32"),
        net_info("auto", "::1/128"),
    );
    let out = overlay_connection(conn, Some(net_info("manual", "192.168.100.1/24")), None);
    assert_eq!(out.ip4info.method, "manual");
    assert_eq!(out.ip4info.addresses, vec!["192.168.100.1/24".to_string()]);
    assert_eq!(out.ip6info.addresses, vec!["::1/128".to_string()]);
    assert_eq!(out.uuid, "u");
}

#[test]
fn live_configuration_is_no_override() {
    let mut d = desired("enp2s0", "eth1", None, None, true);
    d.device.ip4info = Some(net_info("auto", "10.0.0.5/8"));
    let log = run(vec![d], "new-uuid");
    assert_eq!(
        log,
        vec!["create eth1 enp2s0", "manage enp2s0 true", "networking false", "networking true", "finished true"]
    );
}
