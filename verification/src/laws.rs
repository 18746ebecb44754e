//! Fleet-wide laws: what holds of the supervisor across whole runs, proved
//! from the transition functions the executable methods are specified by.

use vstd::prelude::*;

use crate::client::{
    backoff_spec, command_step, respawn_actions, respawn_step, state_spec, ClientAction,
    ClientState, ClientV,
};
use crate::manager::{
    conn_rows, health_info, health_rows, info_at, has_key, insert_pos, lemma_conn_rows_wf,
    lemma_insert_pos_bounds, lemma_upsert_rows_wf, rows_wf, traffic_rows, upsert_rows, ClientCommand,
    EventV, NetSample, Row,
};
use crate::text::lemma_lex_trichotomy;

verus! {

/// A healthy record carries no failure streak: well-formedness pins the
/// failure counter of every healthy row at zero.
pub proof fn lemma_healthy_has_no_failures(d: Seq<Row>, key: Seq<char>)
    requires
        rows_wf(d),
        has_key(d, key),
        info_at(d, key).is_healthy,
    ensures
        info_at(d, key).consecutive_failures == 0,
{
    lemma_insert_pos_bounds(d, key);
}

/// The backoff before the first eight respawns runs
/// 5, 10, 15, 20, 25, 30, 30, 30 seconds, and stays at thirty after.
pub proof fn lemma_backoff_sequence()
    ensures
        backoff_spec(1) == 5,
        backoff_spec(2) == 10,
        backoff_spec(3) == 15,
        backoff_spec(4) == 20,
        backoff_spec(5) == 25,
        backoff_spec(6) == 30,
        backoff_spec(7) == 30,
        backoff_spec(8) == 30,
        forall|n: int| n >= 6 ==> #[trigger] backoff_spec(n) == 30,
{
}

/// Handling `Disconnect` leaves any client Desired-Down: intent down, no
/// child believed alive, and in the quiescence that follows neither a child
/// exit nor a spawn failure schedules a spawn — the client stays down until
/// an explicit `Connect` or `Reconnect` arrives.
pub proof fn lemma_disconnect_quiesces(c: ClientV)
    ensures
        !command_step(c, ClientCommand::Disconnect).should_be_connected,
        !command_step(c, ClientCommand::Disconnect).has_child,
        state_spec(command_step(c, ClientCommand::Disconnect)) == ClientState::Idle,
        respawn_actions(command_step(c, ClientCommand::Disconnect)) == Seq::<ClientAction>::empty(),
        respawn_step(command_step(c, ClientCommand::Disconnect)) == command_step(
            c,
            ClientCommand::Disconnect,
        ),
{
}

/// The suffix parser inverts the session naming: the interface of session
/// `i` parses back to `i`. With `update_connection_info` installing table
/// `101 + suffix`, session `i` therefore always lands in table `101 + i` —
/// distinct for distinct sessions, and never in the uplink's table 100.
pub proof fn lemma_table_of_session(i: int)
    requires
        0 <= i <= u32::MAX,
    ensures
        crate::manager::parse_suffix_spec(crate::manager::iface_name_spec(i)) == i,
        101 + crate::manager::parse_suffix_spec(crate::manager::iface_name_spec(i)) != 100,
{
    reveal_strlit("ppp");
    crate::text::lemma_dec_digits_value(i);
    let s = crate::manager::iface_name_spec(i);
    assert(s.len() >= 3);
    assert(s[0] == 'p' && s[1] == 'p' && s[2] == 'p');
    assert(s.skip(3) =~= crate::text::dec_digits(i));
}

/// One step of the registry, as the event loop, the liveness prober and the
/// stats collector drive it.
pub ghost enum ManagerStep {
    Event(EventV),
    Health { interface: Seq<char>, ok: bool, now: int },
    Traffic { interface: Seq<char>, sample: NetSample, now: int },
}

/// The registry after one step.
pub open spec fn step_rows(d: Seq<Row>, s: ManagerStep) -> Seq<Row> {
    match s {
        ManagerStep::Event(e) => match e {
            EventV::IpUpdated { interface, local_ip, connected_at } => conn_rows(
                d,
                interface,
                local_ip,
                connected_at,
            ),
            EventV::Disconnected { interface } => conn_rows(d, interface, None, None),
        },
        ManagerStep::Health { interface, ok, now } => health_rows(d, interface, ok, now),
        ManagerStep::Traffic { interface, sample, now } => traffic_rows(d, interface, sample, now),
    }
}

/// The registry after a run of steps.
pub open spec fn run_rows(d: Seq<Row>, steps: Seq<ManagerStep>) -> Seq<Row>
    decreases steps.len(),
{
    if steps.len() == 0 {
        d
    } else {
        run_rows(step_rows(d, steps[0]), steps.drop_first())
    }
}

/// An interface is connected: some row carries its key and an address.
pub open spec fn row_connected(d: Seq<Row>, key: Seq<char>) -> bool {
    exists|i: int| 0 <= i < d.len() && (#[trigger] d[i]).0 == key && d[i].1.local_ip is Some
}

/// The one step that can connect `key` again: an `IpUpdated` event for it
/// that carries an address.
pub open spec fn reconnects(s: ManagerStep, key: Seq<char>) -> bool {
    s matches ManagerStep::Event(
        EventV::IpUpdated { interface, local_ip, .. },
    ) && interface == key && local_ip is Some
}

/// A step's inputs are as the runtime hands them over: an `IpUpdated`
/// event carries address and instant together.
pub open spec fn step_wf(s: ManagerStep) -> bool {
    match s {
        ManagerStep::Event(e) => crate::manager::event_wf(e),
        _ => true,
    }
}

/// Sorted rows carry each key at most once.
proof fn lemma_keys_unique(d: Seq<Row>, i: int, j: int)
    requires
        rows_wf(d),
        0 <= i < d.len(),
        0 <= j < d.len(),
        i != j,
    ensures
        d[i].0 != d[j].0,
{
    if i < j {
        lemma_lex_trichotomy(d[i].0, d[j].0);
    } else {
        lemma_lex_trichotomy(d[j].0, d[i].0);
    }
}

/// An update that keeps a row's key and address presence keeps every
/// interface's connectedness.
proof fn lemma_update_keeps_connected(d: Seq<Row>, p: int, v: crate::manager::InfoV, key: Seq<char>)
    requires
        0 <= p < d.len(),
        v.local_ip is Some <==> d[p].1.local_ip is Some,
    ensures
        row_connected(d.update(p, (d[p].0, v)), key) == row_connected(d, key),
{
    let e = d.update(p, (d[p].0, v));
    if row_connected(d, key) {
        let i = choose|i: int| 0 <= i < d.len() && (#[trigger] d[i]).0 == key && d[i].1.local_ip
            is Some;
        assert(e[i].0 == key && e[i].1.local_ip is Some);
    }
    if row_connected(e, key) {
        let i = choose|i: int| 0 <= i < e.len() && (#[trigger] e[i]).0 == key && e[i].1.local_ip
            is Some;
        assert(d[i].0 == key && d[i].1.local_ip is Some);
    }
}

/// Recording an address change for `key` sets exactly its connectedness;
/// every other interface keeps its own.
proof fn lemma_conn_rows_connected(
    d: Seq<Row>,
    key: Seq<char>,
    ip: Option<Seq<char>>,
    at: Option<int>,
    k: Seq<char>,
)
    requires
        rows_wf(d),
        ip is Some <==> at is Some,
    ensures
        row_connected(conn_rows(d, key, ip, at), key) == (ip is Some),
        k != key ==> row_connected(conn_rows(d, key, ip, at), k) == row_connected(d, k),
{
    lemma_upsert_rows_wf(d, key);
    lemma_conn_rows_wf(d, key, ip, at);
    lemma_insert_pos_bounds(d, key);
    let e = upsert_rows(d, key);
    let p = insert_pos(d, key);
    let f = conn_rows(d, key, ip, at);
    assert(f[p].0 == key && f[p].1.local_ip == ip);
    // `key` is connected in `f` exactly when an address was recorded.
    if ip is Some {
        assert(row_connected(f, key));
    }
    if row_connected(f, key) && ip is None {
        let i = choose|i: int| 0 <= i < f.len() && (#[trigger] f[i]).0 == key && f[i].1.local_ip
            is Some;
        lemma_keys_unique(f, i, p);
    }
    // Any other interface keeps its rows untouched, up to the shift the
    // fresh row causes.
    if k != key {
        if row_connected(d, k) {
            let i = choose|i: int| 0 <= i < d.len() && (#[trigger] d[i]).0 == k && d[i].1.local_ip
                is Some;
            if has_key(d, key) {
                assert(i != p);
                assert(f[i] == d[i]);
                assert(row_connected(f, k));
            } else {
                if i < p {
                    assert(f[i] == d[i]);
                    assert(row_connected(f, k));
                } else {
                    assert(f[i + 1] == d[i]);
                    assert(row_connected(f, k));
                }
            }
        }
        if row_connected(f, k) {
            let j = choose|j: int| 0 <= j < f.len() && (#[trigger] f[j]).0 == k && f[j].1.local_ip
                is Some;
            assert(j != p);
            if has_key(d, key) {
                assert(f[j] == d[j]);
                assert(row_connected(d, k));
            } else {
                if j < p {
                    assert(f[j] == d[j]);
                    assert(row_connected(d, k));
                } else {
                    assert(f[j] == d[j - 1]);
                    assert(row_connected(d, k));
                }
            }
        }
    }
}

/// Well-formedness survives a liveness update.
proof fn lemma_health_rows_wf(d: Seq<Row>, key: Seq<char>, ok: bool, now: int)
    requires
        rows_wf(d),
    ensures
        rows_wf(health_rows(d, key, ok, now)),
{
    if has_key(d, key) {
        lemma_insert_pos_bounds(d, key);
    }
}

/// Well-formedness survives a traffic update.
proof fn lemma_traffic_rows_wf(d: Seq<Row>, key: Seq<char>, s: NetSample, now: int)
    requires
        rows_wf(d),
    ensures
        rows_wf(traffic_rows(d, key, s, now)),
{
    if has_key(d, key) {
        lemma_insert_pos_bounds(d, key);
    }
}

/// One step keeps the registry well formed, and can connect an interface
/// only by an `IpUpdated` event for it that carries an address.
proof fn lemma_step_connected(d: Seq<Row>, s: ManagerStep, key: Seq<char>)
    requires
        rows_wf(d),
        step_wf(s),
        !row_connected(d, key),
        !reconnects(s, key),
    ensures
        rows_wf(step_rows(d, s)),
        !row_connected(step_rows(d, s), key),
{
    match s {
        ManagerStep::Event(e) => {
            match e {
                EventV::IpUpdated { interface, local_ip, connected_at } => {
                    lemma_conn_rows_wf(d, interface, local_ip, connected_at);
                    lemma_conn_rows_connected(d, interface, local_ip, connected_at, key);
                },
                EventV::Disconnected { interface } => {
                    lemma_conn_rows_wf(d, interface, None, None);
                    lemma_conn_rows_connected(d, interface, None, None, key);
                },
            }
        },
        ManagerStep::Health { interface, ok, now } => {
            lemma_health_rows_wf(d, interface, ok, now);
            if has_key(d, interface) {
                lemma_insert_pos_bounds(d, interface);
                lemma_update_keeps_connected(
                    d,
                    insert_pos(d, interface),
                    health_info(info_at(d, interface), ok, now),
                    key,
                );
            }
        },
        ManagerStep::Traffic { interface, sample, now } => {
            lemma_traffic_rows_wf(d, interface, sample, now);
            if has_key(d, interface) {
                lemma_insert_pos_bounds(d, interface);
                lemma_update_keeps_connected(
                    d,
                    insert_pos(d, interface),
                    crate::manager::traffic_info(info_at(d, interface), sample, now),
                    key,
                );
            }
        },
    }
}

/// After a `Disconnected` event an interface stays without address and
/// instant — through any run of health updates, traffic updates and events
/// — until the next `IpUpdated` for it.
pub proof fn lemma_disconnected_until_ip_updated(
    d: Seq<Row>,
    steps: Seq<ManagerStep>,
    key: Seq<char>,
)
    requires
        rows_wf(d),
        !row_connected(d, key),
        forall|i: int| 0 <= i < steps.len() ==> step_wf(#[trigger] steps[i]),
        forall|i: int| 0 <= i < steps.len() ==> !reconnects(#[trigger] steps[i], key),
    ensures
        rows_wf(run_rows(d, steps)),
        !row_connected(run_rows(d, steps), key),
    decreases steps.len(),
{
    if steps.len() > 0 {
        lemma_step_connected(d, steps[0], key);
        assert(forall|i: int|
            0 <= i < steps.drop_first().len() ==> #[trigger] steps.drop_first()[i] == steps[i + 1]);
        lemma_disconnected_until_ip_updated(step_rows(d, steps[0]), steps.drop_first(), key);
    }
}

/// A disconnected row is not merely address-less: the connection instant is
/// cleared with the address, atomically, by well-formedness.
pub proof fn lemma_disconnected_clears_instant(d: Seq<Row>, key: Seq<char>)
    requires
        rows_wf(d),
        has_key(d, key),
        info_at(d, key).local_ip is None,
    ensures
        info_at(d, key).connected_at is None,
{
    lemma_insert_pos_bounds(d, key);
}

} // verus!