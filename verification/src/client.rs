//! One session client: the state machine that keeps a single PPPoE dialer
//! alive on one interface, and the parser for the dialer's output.

use vstd::prelude::*;

use crate::manager::ClientCommand;
use crate::text::{contains_seq, str_contains, tokens, nth_token};

verus! {

/// The externally visible phase of a client.
#[derive(Clone, Copy, Debug, PartialEq, Eq, Structural)]
pub enum ClientState {
    Idle,
    Dialing,
    Up,
    DesiredDown,
    Backoff,
}

/// What the surrounding runtime must do after a client transition.
/// Actions are carried out in order.
#[derive(Clone, Copy, Debug, PartialEq, Eq, Structural)]
pub enum ClientAction {
    SpawnDialer,
    KillDialer,
    EmitDisconnected,
    SleepSeconds(u64),
}

/// One session client. The dialer child itself lives outside; `has_child`
/// tracks whether one is believed alive.
pub struct PPPoEClient {
    pub username: String,
    pub password: String,
    pub interface: String,
    pub has_child: bool,
    pub ip_obtained: bool,
    pub should_be_connected: bool,
    pub reconnect_attempts: u32,
    pub max_reconnect_attempts: u32,
}

/// Mathematical image of a client.
pub ghost struct ClientV {
    pub username: Seq<char>,
    pub password: Seq<char>,
    pub interface: Seq<char>,
    pub has_child: bool,
    pub ip_obtained: bool,
    pub should_be_connected: bool,
    pub reconnect_attempts: int,
    pub max_reconnect_attempts: int,
}

impl View for PPPoEClient {
    type V = ClientV;

    open spec fn view(&self) -> ClientV {
        ClientV {
            username: self.username@,
            password: self.password@,
            interface: self.interface@,
            has_child: self.has_child,
            ip_obtained: self.ip_obtained,
            should_be_connected: self.should_be_connected,
            reconnect_attempts: self.reconnect_attempts as int,
            max_reconnect_attempts: self.max_reconnect_attempts as int,
        }
    }
}

/// The linear backoff before respawn attempt number `attempt`:
/// five seconds per attempt, capped at thirty.
pub open spec fn backoff_spec(attempt: int) -> int {
    if 5 * attempt < 30 {
        5 * attempt
    } else {
        30
    }
}

/// The phase a client value is in.
pub open spec fn state_spec(c: ClientV) -> ClientState {
    if c.should_be_connected {
        if c.has_child {
            if c.ip_obtained {
                ClientState::Up
            } else {
                ClientState::Dialing
            }
        } else {
            ClientState::Backoff
        }
    } else {
        if c.has_child {
            ClientState::DesiredDown
        } else {
            ClientState::Idle
        }
    }
}

/// `Connect`: intent up; spawn (with a fresh attempt counter) only when no
/// child is alive.
pub open spec fn connect_step(c: ClientV) -> ClientV {
    ClientV {
        should_be_connected: true,
        reconnect_attempts: if !c.has_child {
            0
        } else {
            c.reconnect_attempts
        },
        ..c
    }
}

pub open spec fn connect_actions(c: ClientV) -> Seq<ClientAction> {
    if !c.has_child {
        seq![ClientAction::SpawnDialer]
    } else {
        Seq::empty()
    }
}

/// `Disconnect`: intent down, counter reset, child killed, and `Disconnected`
/// re-emitted even when no child was alive, so that consumers re-converge.
pub open spec fn disconnect_step(c: ClientV) -> ClientV {
    ClientV {
        should_be_connected: false,
        reconnect_attempts: 0,
        has_child: false,
        ip_obtained: false,
        ..c
    }
}

pub open spec fn disconnect_actions(c: ClientV) -> Seq<ClientAction> {
    if c.has_child {
        seq![ClientAction::KillDialer, ClientAction::EmitDisconnected]
    } else {
        seq![ClientAction::EmitDisconnected]
    }
}

/// `Reconnect`: intent up, counter reset, child killed, two quiet seconds,
/// then a fresh dial. A pending backoff is preempted by the counter reset.
pub open spec fn reconnect_step(c: ClientV) -> ClientV {
    ClientV {
        should_be_connected: true,
        reconnect_attempts: 0,
        has_child: false,
        ip_obtained: false,
        ..c
    }
}

pub open spec fn reconnect_actions(c: ClientV) -> Seq<ClientAction> {
    let tail = seq![ClientAction::SleepSeconds(2), ClientAction::SpawnDialer];
    if c.has_child {
        seq![ClientAction::KillDialer] + tail
    } else {
        tail
    }
}

pub open spec fn command_step(c: ClientV, cmd: ClientCommand) -> ClientV {
    match cmd {
        ClientCommand::Connect => connect_step(c),
        ClientCommand::Disconnect => disconnect_step(c),
        ClientCommand::Reconnect => reconnect_step(c),
    }
}

pub open spec fn command_actions(c: ClientV, cmd: ClientCommand) -> Seq<ClientAction> {
    match cmd {
        ClientCommand::Connect => connect_actions(c),
        ClientCommand::Disconnect => disconnect_actions(c),
        ClientCommand::Reconnect => reconnect_actions(c),
    }
}

/// Whether a client that wants to be up may retry once more.
/// A `max_reconnect_attempts` of zero means unbounded retry.
pub open spec fn may_retry(c: ClientV) -> bool {
    c.max_reconnect_attempts == 0 || c.reconnect_attempts < c.max_reconnect_attempts
}

/// Dialer exit (or a failed spawn): when intent is up and attempts remain,
/// count the attempt and back off; otherwise latch intent down.
pub open spec fn respawn_step(c: ClientV) -> ClientV {
    if c.should_be_connected {
        if may_retry(c) {
            ClientV {
                has_child: false,
                ip_obtained: false,
                reconnect_attempts: if c.reconnect_attempts < u32::MAX as int {
                    c.reconnect_attempts + 1
                } else {
                    c.reconnect_attempts
                },
                ..c
            }
        } else {
            ClientV { has_child: false, ip_obtained: false, should_be_connected: false, ..c }
        }
    } else {
        ClientV { has_child: false, ip_obtained: false, ..c }
    }
}

/// The backoff-and-respawn actions shared by the exit and spawn-failure paths.
pub open spec fn respawn_actions(c: ClientV) -> Seq<ClientAction> {
    if c.should_be_connected && may_retry(c) {
        seq![
            ClientAction::SleepSeconds(backoff_spec(respawn_step(c).reconnect_attempts) as u64),
            ClientAction::SpawnDialer,
        ]
    } else {
        Seq::empty()
    }
}

pub open spec fn child_exit_actions(c: ClientV) -> Seq<ClientAction> {
    seq![ClientAction::EmitDisconnected] + respawn_actions(c)
}

impl PPPoEClient {
    /// A fresh client: no child, no intent, ten bounded reconnect attempts.
    pub fn new(username: String, password: String, interface: String) -> (r: Self)
        ensures
            r@ == (ClientV {
                username: username@,
                password: password@,
                interface: interface@,
                has_child: false,
                ip_obtained: false,
                should_be_connected: false,
                reconnect_attempts: 0,
                max_reconnect_attempts: 10,
            }),
    {
        PPPoEClient {
            username,
            password,
            interface,
            has_child: false,
            ip_obtained: false,
            should_be_connected: false,
            reconnect_attempts: 0,
            max_reconnect_attempts: 10,
        }
    }

    /// Overrides the retry bound; zero means unbounded.
    pub fn set_max_reconnect_attempts(&mut self, max: u32)
        ensures
            *final(self) == (PPPoEClient { max_reconnect_attempts: max, ..*old(self) }),
    {
        self.max_reconnect_attempts = max;
    }

    /// The client's current phase.
    pub fn state(&self) -> (r: ClientState)
        ensures
            r == state_spec(self@),
    {
        if self.should_be_connected {
            if self.has_child {
                if self.ip_obtained {
                    ClientState::Up
                } else {
                    ClientState::Dialing
                }
            } else {
                ClientState::Backoff
            }
        } else {
            if self.has_child {
                ClientState::DesiredDown
            } else {
                ClientState::Idle
            }
        }
    }

    /// Applies one command and returns the actions the runtime must perform.
    pub fn handle_command(&mut self, cmd: &ClientCommand) -> (acts: Vec<ClientAction>)
        ensures
            final(self)@ == command_step(old(self)@, *cmd),
            acts@ == command_actions(old(self)@, *cmd),
    {
        let mut acts: Vec<ClientAction> = Vec::new();
        match cmd {
            ClientCommand::Connect => {
                self.should_be_connected = true;
                if !self.has_child {
                    self.reconnect_attempts = 0;
                    acts.push(ClientAction::SpawnDialer);
                }
            },
            ClientCommand::Disconnect => {
                self.should_be_connected = false;
                self.reconnect_attempts = 0;
                if self.has_child {
                    acts.push(ClientAction::KillDialer);
                }
                self.has_child = false;
                self.ip_obtained = false;
                acts.push(ClientAction::EmitDisconnected);
            },
            ClientCommand::Reconnect => {
                self.should_be_connected = true;
                self.reconnect_attempts = 0;
                if self.has_child {
                    acts.push(ClientAction::KillDialer);
                }
                self.has_child = false;
                self.ip_obtained = false;
                acts.push(ClientAction::SleepSeconds(2));
                acts.push(ClientAction::SpawnDialer);
            },
        }
        proof {
            assert(acts@ =~= command_actions(old(self)@, *cmd));
        }
        acts
    }

    /// The dialer child exited: report the loss and, when intent is still up
    /// and attempts remain, schedule the linear-backoff respawn.
    pub fn handle_child_exit(&mut self) -> (acts: Vec<ClientAction>)
        ensures
            final(self)@ == respawn_step(old(self)@),
            acts@ == child_exit_actions(old(self)@),
    {
        let mut acts: Vec<ClientAction> = Vec::new();
        acts.push(ClientAction::EmitDisconnected);
        let mut rest = self.handle_spawn_failure();
        acts.append(&mut rest);
        proof {
            assert(acts@ =~= child_exit_actions(old(self)@));
        }
        acts
    }

    /// A spawn attempt failed: same backoff as a child exit, but nothing
    /// to report, since no link was ever up.
    pub fn handle_spawn_failure(&mut self) -> (acts: Vec<ClientAction>)
        ensures
            final(self)@ == respawn_step(old(self)@),
            acts@ == respawn_actions(old(self)@),
    {
        let mut acts: Vec<ClientAction> = Vec::new();
        self.has_child = false;
        self.ip_obtained = false;
        if self.should_be_connected {
            if self.max_reconnect_attempts == 0
                || self.reconnect_attempts < self.max_reconnect_attempts {
                if self.reconnect_attempts < u32::MAX {
                    self.reconnect_attempts = self.reconnect_attempts + 1;
                }
                let delay: u64 = if self.reconnect_attempts >= 6 {
                    30
                } else {
                    5 * (self.reconnect_attempts as u64)
                };
                acts.push(ClientAction::SleepSeconds(delay));
                acts.push(ClientAction::SpawnDialer);
            } else {
                self.should_be_connected = false;
            }
        }
        proof {
            assert(acts@ =~= respawn_actions(old(self)@));
        }
        acts
    }

    /// A spawn attempt succeeded: a child is now alive.
    pub fn note_spawned(&mut self)
        ensures
            final(self)@ == (ClientV { has_child: true, ..old(self)@ }),
    {
        self.has_child = true;
    }

    /// The dialer reported its address: the attempt counter starts over.
    pub fn note_ip_reported(&mut self)
        ensures
            final(self)@ == (ClientV { ip_obtained: true, reconnect_attempts: 0, ..old(self)@ }),
    {
        self.ip_obtained = true;
        self.reconnect_attempts = 0;
    }

    /// The argument vector of the dialer process, binary first.
    pub fn pppd_command(&self) -> (r: Vec<String>)
        ensures
            r.deep_view() == pppd_argv(self@.username, self@.password, self@.interface),
    {
        let mut v: Vec<String> = Vec::new();
        v.push("pppd".to_owned());
        v.push("pty".to_owned());
        v.push("pppoe".to_owned());
        v.push("noauth".to_owned());
        v.push("nodetach".to_owned());
        v.push("usepeerdns".to_owned());
        v.push("ifname".to_owned());
        v.push(self.interface.clone());
        v.push("user".to_owned());
        v.push(self.username.clone());
        v.push("password".to_owned());
        v.push(self.password.clone());
        proof {
            assert(v.deep_view() =~= pppd_argv(self@.username, self@.password, self@.interface));
        }
        v
    }
}

/// The dialer invocation: `pppd pty pppoe noauth nodetach usepeerdns
/// ifname <iface> user <user> password <pass>`.
pub open spec fn pppd_argv(user: Seq<char>, pass: Seq<char>, iface: Seq<char>) -> Seq<Seq<char>> {
    seq![
        "pppd"@,
        "pty"@,
        "pppoe"@,
        "noauth"@,
        "nodetach"@,
        "usepeerdns"@,
        "ifname"@,
        iface,
        "user"@,
        user,
        "password"@,
        pass,
    ]
}

/// The line of dialer output that announces the assigned address.
/// Note the double space before `IP`.
pub open spec fn ip_line_marker() -> Seq<char> {
    "local  IP address"@
}

/// Reads one line of dialer output. A line holding the marker yields the
/// fourth whitespace-separated token: the assigned IPv4 address.
pub fn parse_ip_line(line: &str) -> (r: Option<String>)
    ensures
        match r {
            Some(ip) => contains_seq(line@, ip_line_marker()) && tokens(line@).len() >= 4
                && ip@ == tokens(line@)[3],
            None => !(contains_seq(line@, ip_line_marker()) && tokens(line@).len() >= 4),
        },
{
    if !str_contains(line, "local  IP address") {
        return None;
    }
    nth_token(line, 3)
}

} // verus!
