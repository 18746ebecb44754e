use ppproxy::proxy::{gost_config, proxy_service, tun_service, MetaValue};
use ppproxy::route::{
    init_route_commands, is_same_address, label_of, route_table_for, should_install_route,
    AddrAttr,
};

fn words(v: &[&str]) -> Vec<String> {
    v.iter().map(|s| s.to_string()).collect()
}

#[test]
fn route_seeding_commands() {
    let cmds = init_route_commands("192.0.2.1");
    assert_eq!(cmds.len(), 9);
    assert_eq!(
        cmds[0],
        words(&["rule", "add", "iif", "tun0", "table", "100", "prio", "100"])
    );
    assert_eq!(
        cmds[7],
        words(&["rule", "add", "iif", "tun7", "table", "107", "prio", "107"])
    );
    assert_eq!(
        cmds[8],
        words(&["route", "add", "default", "via", "192.0.2.1", "dev", "eth0", "table", "100"])
    );
}

#[test]
fn interface_table_mapping() {
    assert_eq!(route_table_for("eth0"), Some(100));
    assert_eq!(route_table_for("ppp0"), Some(101));
    assert_eq!(route_table_for("ppp6"), Some(107));
    assert_eq!(route_table_for("ppp7"), None); // only seven sessions have tables
    assert_eq!(route_table_for("wlan0"), None);
}

#[test]
fn address_attributes_must_agree() {
    let a = 0x0A000001u32; // 10.0.0.1
    let b = 0x0A000002u32;
    assert!(is_same_address(&vec![
        AddrAttr::Address(a),
        AddrAttr::Local(a)
    ]));
    assert!(!is_same_address(&vec![
        AddrAttr::Address(a),
        AddrAttr::Local(b)
    ]));
    // The last occurrence wins, as the monitor scans in order.
    assert!(is_same_address(&vec![
        AddrAttr::Address(b),
        AddrAttr::Address(a),
        AddrAttr::Local(a)
    ]));
    // Both absent agree; one absent does not.
    assert!(is_same_address(&vec![AddrAttr::Other]));
    assert!(!is_same_address(&vec![AddrAttr::Address(a)]));
}

#[test]
fn install_needs_host_prefix() {
    let a = 0x0A000001u32;
    let attrs = vec![AddrAttr::Address(a), AddrAttr::Local(a)];
    assert!(should_install_route(32, &attrs));
    assert!(!should_install_route(24, &attrs));
}

#[test]
fn label_is_first_label_attribute() {
    let attrs = vec![
        AddrAttr::Other,
        AddrAttr::Label("ppp3".to_string()),
        AddrAttr::Label("ppp4".to_string()),
    ];
    assert_eq!(label_of(&attrs), Some("ppp3".to_string()));
    assert_eq!(label_of(&vec![AddrAttr::Other]), None);
}

#[test]
fn proxy_service_shape() {
    let s = proxy_service(1, "ppp0");
    assert_eq!(s.name, "if1-proxy");
    assert_eq!(s.addr, ":8081");
    assert_eq!(s.bypass.as_deref(), Some("local-bypass"));
    assert_eq!(s.handler.handler_type, "auto");
    assert_eq!(s.handler.metadata.len(), 2);
    assert_eq!(s.handler.metadata[0].key, "udp");
    match &s.handler.metadata[0].value {
        MetaValue::Text(t) => assert_eq!(t, "true"),
        _ => panic!("udp flag must be textual"),
    }
    assert_eq!(s.listener.listener_type, "tcp");
    assert!(s.listener.metadata.is_empty());
    assert_eq!(s.metadata.len(), 1);
    assert_eq!(s.metadata[0].key, "interface");
    match &s.metadata[0].value {
        MetaValue::Text(t) => assert_eq!(t, "ppp0"),
        _ => panic!("interface must be textual"),
    }
}

#[test]
fn tun_service_shape() {
    let s = tun_service(2, "tun2");
    assert_eq!(s.name, "if2-tun");
    assert_eq!(s.addr, ":8882");
    assert_eq!(s.handler.handler_type, "tun");
    assert_eq!(s.handler.metadata.len(), 1);
    assert_eq!(s.handler.metadata[0].key, "bufferSize");
    match s.handler.metadata[0].value {
        MetaValue::Number(n) => assert_eq!(n, 65535),
        _ => panic!("bufferSize must be numeric"),
    }
    assert_eq!(s.listener.listener_type, "tun");
    assert_eq!(s.listener.metadata[0].key, "name");
    match &s.listener.metadata[0].value {
        MetaValue::Text(t) => assert_eq!(t, "tun2"),
        _ => panic!("name must be textual"),
    }
    assert_eq!(s.listener.metadata[1].key, "net");
    match &s.listener.metadata[1].value {
        MetaValue::Text(t) => assert_eq!(t, "192.168.102.1/24"),
        _ => panic!("net must be textual"),
    }
}

#[test]
fn engine_config_pairs_uplink_and_sessions() {
    let c = gost_config(2, "warn".to_string());
    assert_eq!(c.services.len(), 6);
    assert_eq!(c.services[0].name, "if0-proxy");
    assert_eq!(c.services[1].name, "if0-tun");
    assert_eq!(c.services[2].name, "if1-proxy");
    assert_eq!(c.services[3].name, "if1-tun");
    assert_eq!(c.services[4].name, "if2-proxy");
    assert_eq!(c.services[5].name, "if2-tun");
    // Slot 0 serves the uplink; session i egresses through ppp<i>.
    match &c.services[0].metadata[0].value {
        MetaValue::Text(t) => assert_eq!(t, "eth0"),
        _ => panic!("interface must be textual"),
    }
    match &c.services[2].metadata[0].value {
        MetaValue::Text(t) => assert_eq!(t, "ppp0"),
        _ => panic!("interface must be textual"),
    }
    assert_eq!(c.bypasses.len(), 1);
    assert_eq!(c.bypasses[0].name, "local-bypass");
    assert_eq!(
        c.bypasses[0].matchers,
        words(&["127.0.0.1/8", "10.0.0.0/8", "172.16.0.0/12", "192.168.0.0/16", "::1/128", "fc00::/7"])
    );
    assert_eq!(c.api_addr, ":18080");
    assert_eq!(c.metrics_addr, ":9000");
    assert_eq!(c.log_format, "text");
    assert_eq!(c.log_level, "warn");
}
