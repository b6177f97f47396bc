use orbuculum::model::{ConnectionItem, NetDevice};
use orbuculum::rules::{
    get_desired_devices, insert_device_con_names, insert_nic_ord_types, sort_classified, sort_devices,
    ClassifiedDevice, RuleError,
};
use orbuculum::json::device_to_json;

const TYPE_ORD_SCRIPT: &str = r#"
    fn insert_nic_type_ord(device) {
        let lower_net_link_modes = device["net_link_modes"].map(|x| x.to_lower());
        let type_ord = -1;
        if lower_net_link_modes.contains("fibre") || lower_net_link_modes.contains("fiber") {
             type_ord = 10;
        }
        else if device["dev_path"].contains("platform") {
            type_ord = 2;
        }
        else if device["device_type"] == "Ethernet" {
            type_ord = 3;
        }
        device["type_ord"] = type_ord;
        return device;
    }
"#;

const NAMING_SCRIPT: &str = r#"
    fn modify_connections(devices, device_type) {
        let new_devices = [];
        if device_type == "Ethernet" {
            for (device, idx) in devices {
                device["con_name"] = "eth" + idx;
                new_devices.push(device);
            }
        }
        if device_type == "Wireless" {
            for (device, idx) in devices {
                device["con_name"] = "wifi" + idx;
                new_devices.push(device);
            }
        }
        return new_devices;
    }
"#;

fn full_script() -> String {
    format!("{}\n{}", TYPE_ORD_SCRIPT, NAMING_SCRIPT)
}

fn device(name: &str, device_type: &str, dev_path: &str, id_path: Option<&str>, link_modes: &[&str]) -> NetDevice {
    NetDevice {
        name: name.to_string(),
        connection: ConnectionItem { id: None, uuid: None },
        mac: String::new(),
        state: String::new(),
        device_type: device_type.to_string(),
        is_virtual: false,
        is_managed: true,
        driver: None,
        ip4info: None,
        ip6info: None,
        ip4_override: None,
        ip6_override: None,
        conn: vec![],
        dev_path: Some(dev_path.to_string()),
        id_path: id_path.map(|s| s.to_string()),
        net_link_modes: link_modes.iter().map(|s| s.to_string()).collect(),
    }
}

fn type_ord_of(d: NetDevice) -> i64 {
    let out = insert_nic_ord_types(TYPE_ORD_SCRIPT, vec![d]).ok().unwrap();
    out[0].type_ord
}

#[test]
fn classify_fiber_link_mode() {
    assert_eq!(type_ord_of(device("a", "Ethernet", "/pci/to/slot", None, &["FIBER"])), 10);
}

#[test]
fn classify_fibre_link_mode() {
    assert_eq!(type_ord_of(device("a", "Ethernet", "/pci/to/slot", None, &["FIBRE"])), 10);
}

#[test]
fn classify_fibre_beats_platform() {
    assert_eq!(type_ord_of(device("a", "Ethernet", "/platform/to/slot", None, &["FIBRE"])), 10);
}

#[test]
fn classify_platform_path() {
    assert_eq!(type_ord_of(device("a", "Ethernet", "/platform/to/slot", None, &[])), 2);
}

#[test]
fn classify_plain_ethernet() {
    assert_eq!(type_ord_of(device("a", "Ethernet", "/pci/to/slot", None, &[])), 3);
}

#[test]
fn classify_other_type() {
    assert_eq!(type_ord_of(device("a", "Loopback", "/pci/to/slot", None, &[])), -1);
}

#[test]
fn classify_keeps_devices_in_order() {
    let devices = vec![
        device("a", "Ethernet", "/pci/to/slot", None, &[]),
        device("b", "Loopback", "/pci/to/slot", None, &[]),
    ];
    let out = insert_nic_ord_types(TYPE_ORD_SCRIPT, devices).ok().unwrap();
    assert_eq!(out.len(), 2);
    assert_eq!(out[0].device.name, "a");
    assert_eq!(out[0].type_ord, 3);
    assert_eq!(out[1].device.name, "b");
    assert_eq!(out[1].type_ord, -1);
}

#[test]
fn classify_fails_without_entry_point() {
    let devices = vec![device("a", "Ethernet", "/pci/to/slot", None, &[])];
    let r = insert_nic_ord_types("fn other(x) { x }", devices);
    assert!(matches!(r, Err(RuleError::ClassifyFailed)));
}

#[test]
fn classify_fails_on_broken_script() {
    let devices = vec![device("a", "Ethernet", "/pci/to/slot", None, &[])];
    let r = insert_nic_ord_types("fn insert_nic_type_ord(x) {", devices);
    assert!(matches!(r, Err(RuleError::ClassifyFailed)));
}

#[test]
fn classify_of_no_devices_is_empty() {
    let r = insert_nic_ord_types("this is not a script", vec![]);
    assert_eq!(r.ok().unwrap().len(), 0);
}

fn classified(name: &str, type_ord: i64, id_path: Option<&str>) -> ClassifiedDevice {
    ClassifiedDevice { device: device(name, "Ethernet", "/pci", id_path, &[]), type_ord }
}

fn names(v: &[ClassifiedDevice]) -> Vec<String> {
    v.iter().map(|d| d.device.name.clone()).collect()
}

#[test]
fn sort_puts_smaller_key_first() {
    let out = sort_classified(vec![
        classified("a", 3, Some("pci-0000:00:01.0")),
        classified("z", 2, Some("pci-0000:09:01.0")),
    ]);
    assert_eq!(names(&out), vec!["z", "a"]);
}

#[test]
fn sort_breaks_ties_by_id_path() {
    let out = sort_classified(vec![
        classified("second", 3, Some("pci-0000:01:05.0")),
        classified("first", 3, Some("pci-0000:01:04.0")),
    ]);
    assert_eq!(names(&out), vec!["first", "second"]);
}

#[test]
fn sort_missing_id_path_first() {
    let out = sort_classified(vec![
        classified("b", 3, Some("a")),
        classified("a", 3, None),
    ]);
    assert_eq!(names(&out), vec!["a", "b"]);
}

#[test]
fn sort_is_stable_on_equal_keys() {
    let out = sort_classified(vec![
        classified("x", 5, Some("p")),
        classified("y", 1, None),
        classified("z", 5, Some("p")),
        classified("w", 5, Some("p")),
    ]);
    assert_eq!(names(&out), vec!["y", "x", "z", "w"]);
}

#[test]
fn sort_devices_classifies_then_sorts() {
    let devices = vec![
        device("enp1s0", "Ethernet", "/pci/to/slot", Some("2"), &["FIBER"]),
        device("enp2s0", "Ethernet", "/pci/to/slot", Some("1"), &[]),
        device("plat0", "Ethernet", "/platform/x", Some("9"), &[]),
    ];
    let out = sort_devices(TYPE_ORD_SCRIPT, devices).ok().unwrap();
    assert_eq!(names(&out), vec!["plat0", "enp2s0", "enp1s0"]);
}

#[test]
fn test_get_desired_devices() {
    let script = full_script();
    let devices = vec![
        device("enp1s0", "Ethernet", "/pci/to/slot", Some("2"), &["FIBER"]),
        device("enp2s0", "Ethernet", "/pci/to/slot", Some("1"), &[]),
        device("wlp3s0", "Wireless", "/pci/to/slot", Some("3"), &[]),
    ];
    let out = get_desired_devices(&script, devices).ok().unwrap();
    let expected = [("enp2s0", "eth0"), ("enp1s0", "eth1"), ("wlp3s0", "wifi0")];
    assert_eq!(out.len(), 3);
    for d in &out {
        let found = expected.iter().find(|(n, _)| *n == d.device.name).unwrap();
        assert_eq!(d.con_name, found.1);
    }
}

#[test]
fn desired_devices_keep_sorted_order() {
    let script = full_script();
    let devices = vec![
        device("wlp3s0", "Wireless", "/pci/to/slot", Some("3"), &[]),
        device("enp1s0", "Ethernet", "/pci/to/slot", Some("2"), &[]),
        device("enp2s0", "Ethernet", "/pci/to/slot", Some("1"), &[]),
    ];
    let out = get_desired_devices(&script, devices).ok().unwrap();
    let got: Vec<(String, String)> = out.iter().map(|d| (d.device.name.clone(), d.con_name.clone())).collect();
    assert_eq!(
        got,
        vec![
            ("wlp3s0".to_string(), "wifi0".to_string()),
            ("enp2s0".to_string(), "eth0".to_string()),
            ("enp1s0".to_string(), "eth1".to_string()),
        ]
    );
}

#[test]
fn naming_fails_when_group_not_named() {
    let script = full_script();
    let devices = vec![device("lo", "Loopback", "/virtual", None, &[])];
    let r = get_desired_devices(&script, devices);
    assert!(matches!(r, Err(RuleError::NamingFailed)));
}

#[test]
fn naming_fails_without_naming_function() {
    let devices = vec![classified("a", 3, None)];
    let r = insert_device_con_names(TYPE_ORD_SCRIPT, devices);
    assert!(matches!(r, Err(RuleError::NamingFailed)));
}

#[test]
fn desired_devices_report_classification_failure() {
    let devices = vec![device("a", "Ethernet", "/pci", None, &[])];
    let r = get_desired_devices(NAMING_SCRIPT, devices);
    assert!(matches!(r, Err(RuleError::ClassifyFailed)));
}

#[test]
fn device_json_text() {
    let mut d = device("e\"0", "Ethernet", "/pci", None, &["A", "B"]);
    d.connection = ConnectionItem { id: Some("c\\1".to_string()), uuid: None };
    d.conn = vec!["u1".to_string()];
    d.driver = Some("virtio\n".to_string());
    let text = device_to_json(&d, Some(-12));
    assert_eq!(
        text,
        "{\"name\":\"e\\\"0\",\"connection\":{\"id\":\"c\\\\1\",\"uuid\":null},\"mac\":\"\",\"state\":\"\",\
         \"device_type\":\"Ethernet\",\"virtual\":false,\"is_managed\":true,\"driver\":\"virtio\\u000a\",\
         \"conn\":[\"u1\"],\"dev_path\":\"/pci\",\"id_path\":\"\",\"net_link_modes\":[\"A\",\"B\"],\
         \"ip4info\":\"\",\"ip6info\":\"\",\"type_ord\":-12}"
    );
    let parsed: serde_json::Value = serde_json::from_str(&text).unwrap();
    assert_eq!(parsed["name"], "e\"0");
    assert_eq!(parsed["driver"], "virtio\n");
}

#[test]
fn device_json_large_key() {
    let d = device("a", "Ethernet", "/pci", Some("p"), &[]);
    let text = device_to_json(&d, Some(i64::MIN));
    let parsed: serde_json::Value = serde_json::from_str(&text).unwrap();
    assert_eq!(parsed["type_ord"].as_i64(), Some(i64::MIN));
    let text = device_to_json(&d, None);
    let parsed: serde_json::Value = serde_json::from_str(&text).unwrap();
    assert!(parsed.get("type_ord").is_none());
    assert_eq!(parsed["id_path"], "p");
}

#[test]
fn device_json_leaves_out_present_address_blocks() {
    let mut d = device("a", "Ethernet", "/pci", None, &[]);
    d.ip4info = Some(orbuculum::model::NetInfo {
        method: "manual".to_string(),
        addresses: vec!["192.168.100.1/24".to_string()],
        gateway: None,
        dns: vec![],
        routes: vec![],
    });
    let parsed: serde_json::Value = serde_json::from_str(&device_to_json(&d, None)).unwrap();
    assert!(parsed.get("ip4info").is_none());
    assert_eq!(parsed["ip6info"], "");
}

#[test]
fn endless_script_fails() {
    let script = "fn insert_nic_type_ord(device) { loop { } }";
    let r = insert_nic_ord_types(script, vec![device("a", "Ethernet", "/pci", None, &[])]);
    assert!(matches!(r, Err(RuleError::ClassifyFailed)));
}

#[test]
fn growing_script_fails() {
    let script = "fn insert_nic_type_ord(device) { let s = \"x\"; loop { s += s; } }";
    let r = insert_nic_ord_types(script, vec![device("a", "Ethernet", "/pci", None, &[])]);
    assert!(matches!(r, Err(RuleError::ClassifyFailed)));
}

#[test]
fn script_has_no_clock_or_sleep() {
    let device_of = || vec![device("a", "Ethernet", "/pci", None, &[])];
    let clock = "fn insert_nic_type_ord(device) { let t = timestamp(); device.type_ord = 1; device }";
    assert!(matches!(insert_nic_ord_types(clock, device_of()), Err(RuleError::ClassifyFailed)));
    let sleeper = "fn insert_nic_type_ord(device) { sleep(100000); device.type_ord = 1; device }";
    assert!(matches!(insert_nic_ord_types(sleeper, device_of()), Err(RuleError::ClassifyFailed)));
}

#[test]
fn deep_recursion_fails_within_limits() {
    let script = "fn down(n) { if n == 0 { 0 } else { down(n - 1) } } \
                  fn insert_nic_type_ord(device) { device.type_ord = down(20); device }";
    let r = insert_nic_ord_types(script, vec![device("a", "Ethernet", "/pci", None, &[])]);
    assert!(matches!(r, Err(RuleError::ClassifyFailed)));
    let script = "fn down(n) { if n == 0 { 0 } else { down(n - 1) } } \
                  fn insert_nic_type_ord(device) { device.type_ord = down(3); device }";
    let r = insert_nic_ord_types(script, vec![device("a", "Ethernet", "/pci", None, &[])]);
    assert_eq!(r.ok().unwrap()[0].type_ord, 0);
}
