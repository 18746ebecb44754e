use ppproxy::client::{parse_ip_line, ClientAction, ClientState, PPPoEClient};
use ppproxy::manager::ClientCommand;

fn fresh_client() -> PPPoEClient {
    PPPoEClient::new("user".to_string(), "pass".to_string(), "ppp0".to_string())
}

#[test]
fn new_client_is_idle() {
    let c = fresh_client();
    assert_eq!(c.state(), ClientState::Idle);
    assert!(!c.has_child);
    assert!(!c.should_be_connected);
    assert_eq!(c.reconnect_attempts, 0);
    assert_eq!(c.max_reconnect_attempts, 10);
}

#[test]
fn connect_spawns_when_no_child() {
    let mut c = fresh_client();
    let acts = c.handle_command(&ClientCommand::Connect);
    assert_eq!(acts, vec![ClientAction::SpawnDialer]);
    assert!(c.should_be_connected);
    assert_eq!(c.state(), ClientState::Backoff);
    c.note_spawned();
    assert_eq!(c.state(), ClientState::Dialing);
    c.note_ip_reported();
    assert_eq!(c.state(), ClientState::Up);
}

#[test]
fn connect_with_live_child_is_quiet() {
    let mut c = fresh_client();
    c.handle_command(&ClientCommand::Connect);
    c.note_spawned();
    let acts = c.handle_command(&ClientCommand::Connect);
    assert!(acts.is_empty());
}

#[test]
fn backoff_sequence_first_eight_respawns() {
    // Linear backoff: 5, 10, 15, 20, 25, 30, 30, 30 seconds.
    let mut c = fresh_client();
    c.set_max_reconnect_attempts(0); // unbounded retry
    c.handle_command(&ClientCommand::Connect);
    c.note_spawned();
    let mut delays = Vec::new();
    for _ in 0..8 {
        let acts = c.handle_child_exit();
        assert_eq!(acts[0], ClientAction::EmitDisconnected);
        match acts[1] {
            ClientAction::SleepSeconds(d) => delays.push(d),
            _ => panic!("expected a backoff sleep"),
        }
        assert_eq!(acts[2], ClientAction::SpawnDialer);
        c.note_spawned();
    }
    assert_eq!(delays, vec![5, 10, 15, 20, 25, 30, 30, 30]);
}

#[test]
fn ip_report_resets_attempt_counter() {
    let mut c = fresh_client();
    c.handle_command(&ClientCommand::Connect);
    c.note_spawned();
    c.handle_child_exit();
    c.note_spawned();
    c.handle_child_exit();
    assert_eq!(c.reconnect_attempts, 2);
    c.note_spawned();
    c.note_ip_reported();
    assert_eq!(c.reconnect_attempts, 0);
}

#[test]
fn backoff_exhaustion_latches_intent_down() {
    // With max_attempts = 3, three consecutive spawn failures after the
    // initial attempt latch should_be_connected false; no further spawn
    // until an explicit Connect arrives.
    let mut c = fresh_client();
    c.set_max_reconnect_attempts(3);
    let acts = c.handle_command(&ClientCommand::Connect);
    assert_eq!(acts, vec![ClientAction::SpawnDialer]);
    for expected_delay in [5u64, 10, 15] {
        let acts = c.handle_spawn_failure();
        assert_eq!(
            acts,
            vec![
                ClientAction::SleepSeconds(expected_delay),
                ClientAction::SpawnDialer
            ]
        );
        assert!(c.should_be_connected);
    }
    let acts = c.handle_spawn_failure();
    assert!(acts.is_empty());
    assert!(!c.should_be_connected);
    assert_eq!(c.state(), ClientState::Idle);
    // Only an explicit Connect spawns again.
    let acts = c.handle_child_exit();
    assert_eq!(acts, vec![ClientAction::EmitDisconnected]);
    let acts = c.handle_command(&ClientCommand::Connect);
    assert_eq!(acts, vec![ClientAction::SpawnDialer]);
    assert_eq!(c.reconnect_attempts, 0);
}

#[test]
fn disconnect_is_idempotent_on_idle_client() {
    // Two Disconnects against an Idle client re-emit Disconnected twice and
    // leave no dialer running.
    let mut c = fresh_client();
    let first = c.handle_command(&ClientCommand::Disconnect);
    assert_eq!(first, vec![ClientAction::EmitDisconnected]);
    let second = c.handle_command(&ClientCommand::Disconnect);
    assert_eq!(second, vec![ClientAction::EmitDisconnected]);
    assert!(!c.has_child);
    assert_eq!(c.state(), ClientState::Idle);
}

#[test]
fn disconnect_kills_live_child() {
    let mut c = fresh_client();
    c.handle_command(&ClientCommand::Connect);
    c.note_spawned();
    let acts = c.handle_command(&ClientCommand::Disconnect);
    assert_eq!(
        acts,
        vec![ClientAction::KillDialer, ClientAction::EmitDisconnected]
    );
    assert!(!c.should_be_connected);
    assert_eq!(c.reconnect_attempts, 0);
}

#[test]
fn reconnect_preempts_backoff_and_redials() {
    let mut c = fresh_client();
    c.handle_command(&ClientCommand::Connect);
    c.note_spawned();
    c.handle_child_exit();
    assert_eq!(c.reconnect_attempts, 1);
    let acts = c.handle_command(&ClientCommand::Reconnect);
    assert_eq!(
        acts,
        vec![
            ClientAction::SleepSeconds(2),
            ClientAction::SpawnDialer
        ]
    );
    assert_eq!(c.reconnect_attempts, 0);
    assert!(c.should_be_connected);
}

#[test]
fn pppd_command_arguments() {
    let c = fresh_client();
    let argv = c.pppd_command();
    assert_eq!(
        argv,
        vec![
            "pppd", "pty", "pppoe", "noauth", "nodetach", "usepeerdns", "ifname", "ppp0", "user",
            "user", "password", "pass"
        ]
        .into_iter()
        .map(String::from)
        .collect::<Vec<String>>()
    );
}

#[test]
fn parse_ip_line_happy_path() {
    let r = parse_ip_line("local  IP address 10.20.30.40");
    assert_eq!(r, Some("10.20.30.40".to_string()));
}

#[test]
fn parse_ip_line_with_surrounding_output() {
    let r = parse_ip_line("  local  IP address 100.64.7.9\n");
    assert_eq!(r, Some("100.64.7.9".to_string()));
}

#[test]
fn parse_ip_line_rejects_other_lines() {
    assert_eq!(parse_ip_line("remote IP address 10.0.0.1"), None);
    assert_eq!(parse_ip_line("local IP address 10.0.0.1"), None); // single space
    assert_eq!(parse_ip_line(""), None);
    assert_eq!(parse_ip_line("local  IP address"), None); // no fourth token
}
