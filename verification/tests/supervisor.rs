use ppproxy::manager::{
    ClientCommand, IpRotationConfig, NetSample, PpmsError, PpmsEvent, PPPoEManager,
};

fn test_config() -> IpRotationConfig {
    IpRotationConfig {
        rotation_time: "1".to_string(),
        wait_seconds: 3,
        health_check_enabled: true,
        health_check_interval_secs: 30,
        health_check_failure_threshold: 3,
        health_check_target: "8.8.8.8".to_string(),
    }
}

fn manager_with_clients(count: u16) -> PPPoEManager {
    let mut m = PPPoEManager::new(test_config());
    let clients = m.start_clients("user", "pass", count);
    assert_eq!(clients.len(), count as usize);
    m
}

fn ip_updated(iface: &str, ip: &str, at: i64) -> PpmsEvent {
    PpmsEvent::IpUpdated {
        interface: iface.to_string(),
        local_ip: Some(ip.to_string()),
        connected_at: Some(at),
    }
}

#[test]
fn start_clients_registers_interfaces_in_order() {
    let mut m = PPPoEManager::new(test_config());
    let clients = m.start_clients("u", "p", 3);
    let names: Vec<&str> = clients.iter().map(|c| c.interface.as_str()).collect();
    assert_eq!(names, vec!["ppp0", "ppp1", "ppp2"]);
}

#[test]
fn single_session_happy_path() {
    // One session; the dialer reports 10.20.30.40; the supervisor records it
    // and owes `ip route add default dev ppp0 table 101`.
    let mut m = manager_with_clients(1);
    let route = m.apply_event(ip_updated("ppp0", "10.20.30.40", 1_700_000_000));
    let route = route.expect("IpUpdated must install a route");
    assert_eq!(route.interface, "ppp0");
    assert_eq!(route.table_id, 101);
    assert_eq!(
        route.argv(),
        vec!["route", "add", "default", "dev", "ppp0", "table", "101"]
            .into_iter()
            .map(String::from)
            .collect::<Vec<String>>()
    );
    let stats = m.get_all_stats();
    assert_eq!(stats.len(), 1);
    assert_eq!(stats[0].0, "ppp0");
    assert_eq!(stats[0].1.local_ip.as_deref(), Some("10.20.30.40"));
    assert_eq!(stats[0].1.connected_at, Some(1_700_000_000));
}

#[test]
fn table_id_tracks_full_numeric_suffix() {
    let mut m = manager_with_clients(1);
    let route = m
        .apply_event(ip_updated("ppp10", "10.0.0.1", 0))
        .expect("route owed");
    assert_eq!(route.table_id, 111); // 101 + 10, not 101 + 0 ("last digit")
}

#[test]
fn disconnected_clears_ip_and_instant() {
    let mut m = manager_with_clients(1);
    m.apply_event(ip_updated("ppp0", "10.20.30.40", 50));
    let route = m.apply_event(PpmsEvent::Disconnected {
        interface: "ppp0".to_string(),
    });
    assert!(route.is_none());
    let info = m.get_stats("ppp0").expect("row persists");
    assert!(info.local_ip.is_none());
    assert!(info.connected_at.is_none());
}

#[test]
fn disconnected_interface_stays_down_through_other_updates() {
    let mut m = manager_with_clients(2);
    m.apply_event(ip_updated("ppp0", "10.0.0.1", 10));
    m.apply_event(ip_updated("ppp1", "10.0.0.2", 10));
    m.apply_event(PpmsEvent::Disconnected {
        interface: "ppp0".to_string(),
    });
    // Health and traffic updates, and events for other interfaces, do not
    // resurrect ppp0.
    m.update_health_status("ppp0", false, 20);
    m.update_traffic_stats("ppp0", zero_sample(), 21);
    m.apply_event(ip_updated("ppp1", "10.0.0.3", 22));
    let info = m.get_stats("ppp0").unwrap();
    assert!(info.local_ip.is_none());
    assert!(info.connected_at.is_none());
    // Until the next IpUpdated for ppp0 itself.
    m.apply_event(ip_updated("ppp0", "10.0.0.9", 30));
    let info = m.get_stats("ppp0").unwrap();
    assert_eq!(info.local_ip.as_deref(), Some("10.0.0.9"));
    assert_eq!(info.connected_at, Some(30));
}

fn zero_sample() -> NetSample {
    NetSample {
        transmitted: 0,
        received: 0,
        total_transmitted: 0,
        total_received: 0,
        total_packets_transmitted: 0,
        total_packets_received: 0,
    }
}

#[test]
fn liveness_threshold_triggers_reconnect_once_per_probe() {
    // Threshold 3: the first two failures do not trigger, the third does;
    // the trigger does not reset the streak — the next success does.
    let mut m = manager_with_clients(1);
    m.apply_event(ip_updated("ppp0", "10.0.0.1", 0));
    assert!(!m.update_health_status("ppp0", false, 1));
    assert!(!m.update_health_status("ppp0", false, 2));
    assert!(m.update_health_status("ppp0", false, 3));
    let info = m.get_stats("ppp0").unwrap();
    assert_eq!(info.consecutive_failures, 3);
    assert!(!info.is_healthy);
    assert_eq!(info.last_health_check, Some(3));
    // A successful probe resets the streak.
    assert!(!m.update_health_status("ppp0", true, 4));
    let info = m.get_stats("ppp0").unwrap();
    assert!(info.is_healthy);
    assert_eq!(info.consecutive_failures, 0);
    assert_eq!(info.last_health_check, Some(4));
}

#[test]
fn healthy_records_have_no_failure_streak() {
    let mut m = manager_with_clients(1);
    m.apply_event(ip_updated("ppp0", "10.0.0.1", 0));
    m.update_health_status("ppp0", false, 1);
    m.update_health_status("ppp0", true, 2);
    for (_, info) in m.get_all_stats() {
        if info.is_healthy {
            assert_eq!(info.consecutive_failures, 0);
        }
    }
}

#[test]
fn health_update_for_unknown_interface_is_ignored() {
    let mut m = manager_with_clients(1);
    assert!(!m.update_health_status("ppp0", false, 1));
    assert!(m.get_stats("ppp0").is_none());
}

#[test]
fn traffic_update_refreshes_rates_and_uptime() {
    let mut m = manager_with_clients(1);
    m.apply_event(ip_updated("ppp0", "10.0.0.1", 100));
    let sample = NetSample {
        transmitted: 1000,
        received: 2500,
        total_transmitted: 9000,
        total_received: 12000,
        total_packets_transmitted: 70,
        total_packets_received: 90,
    };
    m.update_traffic_stats("ppp0", sample, 160);
    let info = m.get_stats("ppp0").unwrap();
    assert_eq!(info.send_rate_bps, 8000);
    assert_eq!(info.receive_rate_bps, 20000);
    assert_eq!(info.bytes_sent, 9000);
    assert_eq!(info.bytes_received, 12000);
    assert_eq!(info.packets_sent, 70);
    assert_eq!(info.packets_received, 90);
    assert_eq!(info.uptime_seconds, 60);
}

#[test]
fn unknown_interface_returns_interface_not_found() {
    // reconnect_client("ppp99") fails and produces no side effects.
    let m = manager_with_clients(2);
    let before = m.get_all_stats().len();
    match m.reconnect_client("ppp99") {
        Err(PpmsError::InterfaceNotFound) => {}
        other => panic!("expected InterfaceNotFound, got {:?}", other.map(|s| s.command)),
    }
    assert_eq!(m.get_all_stats().len(), before);
}

#[test]
fn known_interface_yields_command_send() {
    let m = manager_with_clients(2);
    let send = m.reconnect_client("ppp1").expect("registered interface");
    assert_eq!(send.interface, "ppp1");
    assert_eq!(send.command, ClientCommand::Reconnect);
    let send = m.connect_client("ppp0").expect("registered interface");
    assert_eq!(send.command, ClientCommand::Connect);
    let send = m.disconnect_client("ppp0").expect("registered interface");
    assert_eq!(send.command, ClientCommand::Disconnect);
}

#[test]
fn closed_channel_is_reported() {
    let mut m = manager_with_clients(1);
    m.mark_channel_closed("ppp0");
    match m.reconnect_client("ppp0") {
        Err(PpmsError::ChannelClosed) => {}
        other => panic!("expected ChannelClosed, got {:?}", other.map(|s| s.command)),
    }
}

#[test]
fn rotation_plan_separates_phases_by_wait_seconds() {
    // ROTATION wait of 3 s: all clients receive Disconnect, the quiescence
    // window is exactly wait_seconds, then Connect goes out with a 100 ms
    // stagger, in stable order.
    let m = manager_with_clients(3);
    let plan = m.rotate_ips();
    assert_eq!(plan.wait_seconds, 3);
    assert_eq!(plan.down.len(), 3);
    assert_eq!(plan.up.sends.len(), 3);
    assert_eq!(plan.up.stagger_millis, 100);
    for (i, send) in plan.down.iter().enumerate() {
        assert_eq!(send.interface, format!("ppp{}", i));
        assert_eq!(send.command, ClientCommand::Disconnect);
    }
    for (i, send) in plan.up.sends.iter().enumerate() {
        assert_eq!(send.interface, format!("ppp{}", i));
        assert_eq!(send.command, ClientCommand::Connect);
    }
}

#[test]
fn stop_all_reaches_every_client() {
    let m = manager_with_clients(4);
    let sends = m.stop_all();
    assert_eq!(sends.len(), 4);
    for (i, send) in sends.iter().enumerate() {
        assert_eq!(send.interface, format!("ppp{}", i));
        assert_eq!(send.command, ClientCommand::Disconnect);
    }
}

#[test]
fn health_check_worklist_is_connected_interfaces_only() {
    let mut m = manager_with_clients(3);
    m.apply_event(ip_updated("ppp0", "10.0.0.1", 0));
    m.apply_event(ip_updated("ppp2", "10.0.0.3", 0));
    m.apply_event(PpmsEvent::Disconnected {
        interface: "ppp0".to_string(),
    });
    let targets = m.health_check_interfaces();
    assert_eq!(targets, vec!["ppp2".to_string()]);
}

#[test]
fn stats_snapshot_is_key_sorted() {
    let mut m = manager_with_clients(3);
    m.apply_event(ip_updated("ppp2", "10.0.0.3", 0));
    m.apply_event(ip_updated("ppp0", "10.0.0.1", 0));
    m.apply_event(ip_updated("ppp1", "10.0.0.2", 0));
    let keys: Vec<String> = m.get_all_stats().into_iter().map(|(k, _)| k).collect();
    assert_eq!(keys, vec!["ppp0", "ppp1", "ppp2"]);
}

#[test]
fn ping_command_uses_two_second_timeout() {
    let m = manager_with_clients(1);
    let argv = m.ping_command("ppp0");
    assert_eq!(
        argv,
        vec!["-c", "1", "-W", "2", "-I", "ppp0", "8.8.8.8"]
            .into_iter()
            .map(String::from)
            .collect::<Vec<String>>()
    );
}

#[test]
fn rotation_interval_in_minutes() {
    // "1" means one minute, not one o'clock.
    let m = manager_with_clients(1);
    assert_eq!(m.calculate_next_rotation_seconds(), 60);
    assert!(!m.rotation_disabled());
}

#[test]
fn rotation_time_zero_disables() {
    let mut cfg = test_config();
    cfg.rotation_time = "0".to_string();
    let m = PPPoEManager::new(cfg);
    assert!(m.rotation_disabled());
    assert_eq!(m.calculate_next_rotation_seconds(), 0);
}

#[test]
fn rotation_fallback_is_one_hour() {
    let mut cfg = test_config();
    cfg.rotation_time = "sometime".to_string();
    let m = PPPoEManager::new(cfg);
    assert_eq!(m.calculate_next_rotation_seconds(), 3600);
}

#[test]
fn rotation_wall_clock_is_bounded_by_a_day() {
    let mut cfg = test_config();
    cfg.rotation_time = "04:30".to_string();
    let m = PPPoEManager::new(cfg);
    assert!(m.calculate_next_rotation_seconds() < 86400);
}

#[test]
fn add_default_route_arguments() {
    let m = manager_with_clients(1);
    let argv = m.add_default_route("ppp3", 104);
    assert_eq!(
        argv,
        vec!["route", "add", "default", "dev", "ppp3", "table", "104"]
            .into_iter()
            .map(String::from)
            .collect::<Vec<String>>()
    );
}

#[test]
fn interface_completion_filters_by_prefix() {
    let mut m = manager_with_clients(2);
    m.apply_event(ip_updated("ppp0", "10.0.0.1", 0));
    m.apply_event(ip_updated("ppp1", "10.0.0.2", 0));
    assert_eq!(
        m.interfaces_with_prefix("ppp"),
        vec!["ppp0".to_string(), "ppp1".to_string()]
    );
    assert_eq!(m.interfaces_with_prefix("ppp1"), vec!["ppp1".to_string()]);
    assert!(m.interfaces_with_prefix("eth").is_empty());
}
