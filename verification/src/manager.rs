//! The supervisor: the connection registry, the health bookkeeping, the
//! command routing and the rotation planner.

use vstd::prelude::*;

use crate::client::{ClientV, PPPoEClient};
use crate::text::{
    dec_digits, dec_value, is_dec_numeral, lemma_lex_transitive, lemma_lex_trichotomy, lex_lt,
    parse_u32, str_eq, str_lex_lt, u64_to_string,
};

verus! {

/// Per-interface connection record. `local_ip` being present IS the
/// "connected" predicate; instants are unix seconds.
pub struct ConnectionInfo {
    pub connected_at: Option<i64>,
    pub local_ip: Option<String>,
    pub bytes_sent: u64,
    pub bytes_received: u64,
    pub packets_sent: u64,
    pub packets_received: u64,
    pub uptime_seconds: u64,
    pub send_rate_bps: u64,
    pub receive_rate_bps: u64,
    pub is_healthy: bool,
    pub last_health_check: Option<i64>,
    pub consecutive_failures: u32,
}

/// Mathematical image of a `ConnectionInfo`.
pub ghost struct InfoV {
    pub connected_at: Option<int>,
    pub local_ip: Option<Seq<char>>,
    pub bytes_sent: int,
    pub bytes_received: int,
    pub packets_sent: int,
    pub packets_received: int,
    pub uptime_seconds: int,
    pub send_rate_bps: int,
    pub receive_rate_bps: int,
    pub is_healthy: bool,
    pub last_health_check: Option<int>,
    pub consecutive_failures: int,
}

impl View for ConnectionInfo {
    type V = InfoV;

    open spec fn view(&self) -> InfoV {
        InfoV {
            connected_at: match self.connected_at {
                Some(t) => Some(t as int),
                None => None,
            },
            local_ip: match self.local_ip {
                Some(ref ip) => Some(ip@),
                None => None,
            },
            bytes_sent: self.bytes_sent as int,
            bytes_received: self.bytes_received as int,
            packets_sent: self.packets_sent as int,
            packets_received: self.packets_received as int,
            uptime_seconds: self.uptime_seconds as int,
            send_rate_bps: self.send_rate_bps as int,
            receive_rate_bps: self.receive_rate_bps as int,
            is_healthy: self.is_healthy,
            last_health_check: match self.last_health_check {
                Some(t) => Some(t as int),
                None => None,
            },
            consecutive_failures: self.consecutive_failures as int,
        }
    }
}

/// The record a registry entry starts from: no address, no history.
pub open spec fn init_info() -> InfoV {
    InfoV {
        connected_at: None,
        local_ip: None,
        bytes_sent: 0,
        bytes_received: 0,
        packets_sent: 0,
        packets_received: 0,
        uptime_seconds: 0,
        send_rate_bps: 0,
        receive_rate_bps: 0,
        is_healthy: false,
        last_health_check: None,
        consecutive_failures: 0,
    }
}

impl Default for ConnectionInfo {
    fn default() -> (r: Self)
        ensures
            r@ == init_info(),
    {
        ConnectionInfo {
            connected_at: None,
            local_ip: None,
            bytes_sent: 0,
            bytes_received: 0,
            packets_sent: 0,
            packets_received: 0,
            uptime_seconds: 0,
            send_rate_bps: 0,
            receive_rate_bps: 0,
            is_healthy: false,
            last_health_check: None,
            consecutive_failures: 0,
        }
    }
}

impl Clone for ConnectionInfo {
    fn clone(&self) -> (r: Self)
        ensures
            r == *self,
    {
        ConnectionInfo {
            connected_at: self.connected_at,
            local_ip: match &self.local_ip {
                Some(ip) => Some(ip.clone()),
                None => None,
            },
            bytes_sent: self.bytes_sent,
            bytes_received: self.bytes_received,
            packets_sent: self.packets_sent,
            packets_received: self.packets_received,
            uptime_seconds: self.uptime_seconds,
            send_rate_bps: self.send_rate_bps,
            receive_rate_bps: self.receive_rate_bps,
            is_healthy: self.is_healthy,
            last_health_check: self.last_health_check,
            consecutive_failures: self.consecutive_failures,
        }
    }
}

/// A command the supervisor sends to one session client.
#[derive(Clone, Copy, Debug, PartialEq, Eq, Structural)]
pub enum ClientCommand {
    Connect,
    Disconnect,
    Reconnect,
}

/// An event a session client reports to the supervisor.
pub enum PpmsEvent {
    IpUpdated { interface: String, local_ip: Option<String>, connected_at: Option<i64> },
    Disconnected { interface: String },
}

/// Mathematical image of a `PpmsEvent`.
pub ghost enum EventV {
    IpUpdated { interface: Seq<char>, local_ip: Option<Seq<char>>, connected_at: Option<int> },
    Disconnected { interface: Seq<char> },
}

impl View for PpmsEvent {
    type V = EventV;

    open spec fn view(&self) -> EventV {
        match self {
            PpmsEvent::IpUpdated { interface, local_ip, connected_at } => EventV::IpUpdated {
                interface: interface@,
                local_ip: match local_ip {
                    Some(ip) => Some(ip@),
                    None => None,
                },
                connected_at: match connected_at {
                    Some(t) => Some(*t as int),
                    None => None,
                },
            },
            PpmsEvent::Disconnected { interface } => EventV::Disconnected {
                interface: interface@,
            },
        }
    }
}

/// Why a control operation could not reach its client.
#[derive(Clone, Copy, Debug, PartialEq, Eq, Structural)]
pub enum PpmsError {
    InterfaceNotFound,
    ChannelClosed,
}

/// One registry row: an interface name and its record.
pub type Row = (Seq<char>, InfoV);

/// Where `key` stands, or would be inserted, in a key-sorted registry:
/// the number of rows whose key is strictly below it.
pub open spec fn insert_pos(d: Seq<Row>, key: Seq<char>) -> int
    decreases d.len(),
{
    if d.len() == 0 {
        0
    } else if !lex_lt(d[0].0, key) {
        0
    } else {
        1 + insert_pos(d.drop_first(), key)
    }
}

/// The registry has a row for `key`.
pub open spec fn has_key(d: Seq<Row>, key: Seq<char>) -> bool {
    insert_pos(d, key) < d.len() && d[insert_pos(d, key)].0 == key
}

/// The record stored under `key`.
pub open spec fn info_at(d: Seq<Row>, key: Seq<char>) -> InfoV {
    d[insert_pos(d, key)].1
}

/// Registry rows are sorted strictly by key (hence keys are unique) and
/// every record is well formed.
pub open spec fn rows_wf(d: Seq<Row>) -> bool {
    &&& forall|i: int, j: int| 0 <= i < j < d.len() ==> lex_lt((#[trigger] d[i]).0, (#[trigger] d[j]).0)
    &&& forall|i: int| 0 <= i < d.len() ==> info_wf(#[trigger] d[i].1)
}

/// The two record invariants: the address and the connection instant are
/// present together, and a healthy record has no outstanding failures.
pub open spec fn info_wf(v: InfoV) -> bool {
    &&& v.local_ip is Some <==> v.connected_at is Some
    &&& v.is_healthy ==> v.consecutive_failures == 0
}

pub proof fn lemma_insert_pos_bounds(d: Seq<Row>, key: Seq<char>)
    ensures
        0 <= insert_pos(d, key) <= d.len(),
        forall|k: int| 0 <= k < insert_pos(d, key) ==> lex_lt((#[trigger] d[k]).0, key),
        insert_pos(d, key) < d.len() ==> !lex_lt(d[insert_pos(d, key)].0, key),
    decreases d.len(),
{
    if d.len() > 0 && lex_lt(d[0].0, key) {
        lemma_insert_pos_bounds(d.drop_first(), key);
        assert forall|k: int| 0 <= k < insert_pos(d, key) implies lex_lt(
            (#[trigger] d[k]).0,
            key,
        ) by {
            if k > 0 {
                assert(d.drop_first()[k - 1] == d[k]);
            }
        }
        if insert_pos(d, key) < d.len() {
            assert(d.drop_first()[insert_pos(d, key) - 1] == d[insert_pos(d, key)]);
        }
    }
}

/// A scan that stopped at the first key not below `key` found `insert_pos`.
pub proof fn lemma_insert_pos_is(d: Seq<Row>, key: Seq<char>, p: int)
    requires
        0 <= p <= d.len(),
        forall|k: int| 0 <= k < p ==> lex_lt((#[trigger] d[k]).0, key),
        p == d.len() || !lex_lt(d[p].0, key),
    ensures
        insert_pos(d, key) == p,
    decreases p,
{
    if p > 0 {
        lemma_insert_pos_is(d.drop_first(), key, p - 1);
        assert(forall|k: int| 1 <= k < d.len() ==> d[k] == #[trigger] d.drop_first()[k - 1]);
    }
}

/// The registry after making sure `key` has a row: untouched when present,
/// else a fresh record enters at its sorted position.
pub open spec fn upsert_rows(d: Seq<Row>, key: Seq<char>) -> Seq<Row> {
    if has_key(d, key) {
        d
    } else {
        d.insert(insert_pos(d, key), (key, init_info()))
    }
}

pub proof fn lemma_upsert_rows_wf(d: Seq<Row>, key: Seq<char>)
    requires
        rows_wf(d),
    ensures
        rows_wf(upsert_rows(d, key)),
        has_key(upsert_rows(d, key), key),
        insert_pos(upsert_rows(d, key), key) == insert_pos(d, key),
        upsert_rows(d, key).len() == if has_key(d, key) { d.len() } else { d.len() + 1 },
{
    lemma_insert_pos_bounds(d, key);
    let p = insert_pos(d, key);
    if !has_key(d, key) {
        let e = d.insert(p, (key, init_info()));
        if p < d.len() {
            lemma_lex_trichotomy(d[p].0, key);
        }
        assert forall|i: int, j: int| 0 <= i < j < e.len() implies lex_lt((#[trigger] e[i]).0, (#[trigger] e[j]).0) by {
            if i < p && j == p {
                assert(lex_lt(d[i].0, key));
            } else if i == p && j > p {
                assert(e[j].0 == d[j - 1].0);
                assert(!lex_lt(d[p].0, key) && d[p].0 != key);
                assert(lex_lt(key, d[p].0));
                if j - 1 > p {
                    lemma_lex_transitive(key, d[p].0, d[j - 1].0);
                }
            } else if i < p && j > p {
                assert(lex_lt(d[i].0, d[j - 1].0));
            } else if i > p && j > p {
                assert(lex_lt(d[i - 1].0, d[j - 1].0));
            }
        }
        assert(forall|i: int| 0 <= i < e.len() ==> info_wf(#[trigger] e[i].1));
        lemma_lex_trichotomy(key, key);
        assert forall|k: int| 0 <= k < p implies lex_lt((#[trigger] e[k]).0, key) by {
            assert(e[k] == d[k]);
        }
        assert(e[p].0 == key);
        lemma_insert_pos_is(e, key, p);
    }
}

/// Configuration of the rotation and liveness subsystems.
pub struct IpRotationConfig {
    pub rotation_time: String,
    pub wait_seconds: u32,
    pub health_check_enabled: bool,
    pub health_check_interval_secs: u64,
    pub health_check_failure_threshold: u32,
    pub health_check_target: String,
}

/// Mathematical image of an `IpRotationConfig`.
pub ghost struct RotationConfigV {
    pub rotation_time: Seq<char>,
    pub wait_seconds: int,
    pub health_check_enabled: bool,
    pub health_check_interval_secs: int,
    pub health_check_failure_threshold: int,
    pub health_check_target: Seq<char>,
}

impl View for IpRotationConfig {
    type V = RotationConfigV;

    open spec fn view(&self) -> RotationConfigV {
        RotationConfigV {
            rotation_time: self.rotation_time@,
            wait_seconds: self.wait_seconds as int,
            health_check_enabled: self.health_check_enabled,
            health_check_interval_secs: self.health_check_interval_secs as int,
            health_check_failure_threshold: self.health_check_failure_threshold as int,
            health_check_target: self.health_check_target@,
        }
    }
}

impl Clone for IpRotationConfig {
    fn clone(&self) -> (r: Self)
        ensures
            r == *self,
    {
        IpRotationConfig {
            rotation_time: self.rotation_time.clone(),
            wait_seconds: self.wait_seconds,
            health_check_enabled: self.health_check_enabled,
            health_check_interval_secs: self.health_check_interval_secs,
            health_check_failure_threshold: self.health_check_failure_threshold,
            health_check_target: self.health_check_target.clone(),
        }
    }
}

/// One outbound command channel, by interface name. The channel itself lives
/// outside; `is_open` records whether its client task is still believed alive.
pub struct ControlEntry {
    pub interface: String,
    pub is_open: bool,
}

/// The supervisor of the session fleet.
pub struct PPPoEManager {
    pub data: Vec<(String, ConnectionInfo)>,
    pub client_controls: Vec<ControlEntry>,
    pub config: IpRotationConfig,
}

/// Mathematical image of the supervisor.
pub ghost struct ManagerV {
    pub data: Seq<Row>,
    pub controls: Seq<(Seq<char>, bool)>,
    pub config: RotationConfigV,
}

/// Registry rows as the mathematical model sees them.
pub open spec fn rows_of(data: Seq<(String, ConnectionInfo)>) -> Seq<Row> {
    Seq::new(data.len(), |i: int| (data[i].0@, data[i].1@))
}

impl View for PPPoEManager {
    type V = ManagerV;

    open spec fn view(&self) -> ManagerV {
        ManagerV {
            data: rows_of(self.data@),
            controls: Seq::new(
                self.client_controls@.len(),
                |i: int| (self.client_controls@[i].interface@, self.client_controls@[i].is_open),
            ),
            config: self.config@,
        }
    }
}

/// Control-channel keys are unique.
pub open spec fn controls_wf(c: Seq<(Seq<char>, bool)>) -> bool {
    forall|i: int, j: int| 0 <= i < j < c.len() ==> (#[trigger] c[i]).0 != (#[trigger] c[j]).0
}

impl PPPoEManager {
    /// The supervisor's invariant.
    pub open spec fn wf(&self) -> bool {
        &&& rows_wf(self@.data)
        &&& controls_wf(self@.controls)
    }

    /// A fresh supervisor: empty registry, no clients yet.
    pub fn new(config: IpRotationConfig) -> (r: Self)
        ensures
            r.wf(),
            r@.data == Seq::<Row>::empty(),
            r@.controls == Seq::<(Seq<char>, bool)>::empty(),
            r@.config == config@,
    {
        let r = PPPoEManager { data: Vec::new(), client_controls: Vec::new(), config };
        proof {
            assert(r@.data =~= Seq::<Row>::empty());
            assert(r@.controls =~= Seq::<(Seq<char>, bool)>::empty());
        }
        r
    }
}

/// View of an optional textual address.
pub open spec fn ip_view(o: Option<String>) -> Option<Seq<char>> {
    match o {
        Some(ip) => Some(ip@),
        None => None,
    }
}

/// View of an optional instant.
pub open spec fn at_view(o: Option<i64>) -> Option<int> {
    match o {
        Some(t) => Some(t as int),
        None => None,
    }
}

/// A record with its address and connection instant replaced.
pub open spec fn set_conn(v: InfoV, ip: Option<Seq<char>>, at: Option<int>) -> InfoV {
    InfoV { local_ip: ip, connected_at: at, ..v }
}

/// The registry after recording an address change for `key`: the row is
/// created if missing, and its address fields are replaced.
pub open spec fn conn_rows(
    d: Seq<Row>,
    key: Seq<char>,
    ip: Option<Seq<char>>,
    at: Option<int>,
) -> Seq<Row> {
    let e = upsert_rows(d, key);
    let p = insert_pos(d, key);
    e.update(p, (key, set_conn(e[p].1, ip, at)))
}

pub proof fn lemma_conn_rows_wf(d: Seq<Row>, key: Seq<char>, ip: Option<Seq<char>>, at: Option<int>)
    requires
        rows_wf(d),
        ip is Some <==> at is Some,
    ensures
        rows_wf(conn_rows(d, key, ip, at)),
        has_key(conn_rows(d, key, ip, at), key),
        info_at(conn_rows(d, key, ip, at), key) == set_conn(
            if has_key(d, key) {
                info_at(d, key)
            } else {
                init_info()
            },
            ip,
            at,
        ),
{
    lemma_upsert_rows_wf(d, key);
    lemma_insert_pos_bounds(d, key);
    let e = upsert_rows(d, key);
    let p = insert_pos(d, key);
    let f = conn_rows(d, key, ip, at);
    assert(forall|i: int| 0 <= i < f.len() ==> (#[trigger] f[i]).0 == e[i].0);
    lemma_insert_pos_is_same_keys(e, f, key);
}

/// `insert_pos` depends on the keys alone.
pub proof fn lemma_insert_pos_is_same_keys(a: Seq<Row>, b: Seq<Row>, key: Seq<char>)
    requires
        a.len() == b.len(),
        forall|i: int| 0 <= i < a.len() ==> (#[trigger] a[i]).0 == (#[trigger] b[i]).0,
    ensures
        insert_pos(a, key) == insert_pos(b, key),
    decreases a.len(),
{
    if a.len() > 0 {
        assert forall|i: int| 0 <= i < a.drop_first().len() implies (
        #[trigger] a.drop_first()[i]).0 == (#[trigger] b.drop_first()[i]).0 by {
            assert(a.drop_first()[i] == a[i + 1]);
            assert(b.drop_first()[i] == b[i + 1]);
        }
        lemma_insert_pos_is_same_keys(a.drop_first(), b.drop_first(), key);
    }
}

/// `ppp` as the first three characters of an interface name.
pub open spec fn has_ppp_prefix(s: Seq<char>) -> bool {
    s.len() >= 3 && s[0] == 'p' && s[1] == 'p' && s[2] == 'p'
}

/// The numeric suffix of an interface name: the whole digit run after the
/// `ppp` prefix, or zero when it does not parse. The whole suffix counts,
/// not just its last digit, so names beyond `ppp9` stay correct.
pub open spec fn parse_suffix_spec(s: Seq<char>) -> int {
    let t = if has_ppp_prefix(s) {
        s.skip(3)
    } else {
        s
    };
    if is_dec_numeral(t, u32::MAX as int) {
        dec_value(t)
    } else {
        0
    }
}

/// Parses the numeric suffix of an interface name.
pub fn parse_suffix(interface: &str) -> (r: u32)
    ensures
        r as int == parse_suffix_spec(interface@),
{
    let len = interface.unicode_len();
    let parsed: Option<u32> = if len >= 3 && interface.get_char(0) == 'p'
        && interface.get_char(1) == 'p' && interface.get_char(2) == 'p' {
        let rest = interface.substring_char(3, len);
        proof {
            assert(rest@ =~= interface@.skip(3));
        }
        parse_u32(rest)
    } else {
        parse_u32(interface)
    };
    match parsed {
        Some(v) => v,
        None => 0,
    }
}

/// The `ip route` invocation that installs a session's default route:
/// `ip route add default dev <iface> table <id>`.
pub open spec fn route_add_argv(iface: Seq<char>, table: int) -> Seq<Seq<char>> {
    seq!["route"@, "add"@, "default"@, "dev"@, iface, "table"@, dec_digits(table)]
}

/// A route installation the runtime owes the kernel: a default route for
/// one interface into its policy table.
pub struct RouteCmd {
    pub interface: String,
    pub table_id: u64,
}

impl RouteCmd {
    /// The argument vector for the `ip` utility.
    pub fn argv(&self) -> (r: Vec<String>)
        ensures
            r.deep_view() == route_add_argv(self.interface@, self.table_id as int),
    {
        let mut v: Vec<String> = Vec::new();
        v.push("route".to_owned());
        v.push("add".to_owned());
        v.push("default".to_owned());
        v.push("dev".to_owned());
        v.push(self.interface.clone());
        v.push("table".to_owned());
        v.push(u64_to_string(self.table_id));
        proof {
            assert(v.deep_view() =~= route_add_argv(self.interface@, self.table_id as int));
        }
        v
    }
}

impl PPPoEManager {
    /// Where `interface` stands, or would be inserted, in the registry.
    fn lookup_pos(&self, interface: &str) -> (p: usize)
        ensures
            p as int == insert_pos(self@.data, interface@),
            p <= self.data@.len(),
    {
        let n = self.data.len();
        let mut i: usize = 0;
        while i < n && str_lex_lt(self.data[i].0.as_str(), interface)
            invariant
                n == self.data@.len(),
                0 <= i <= n,
                forall|k: int| 0 <= k < i ==> lex_lt((#[trigger] self@.data[k]).0, interface@),
            decreases n - i,
        {
            i += 1;
        }
        proof {
            lemma_insert_pos_is(self@.data, interface@, i as int);
        }
        i
    }

    /// Makes sure `interface` has a registry row and returns its position.
    fn upsert_entry(&mut self, interface: &str) -> (p: usize)
        requires
            old(self).wf(),
        ensures
            final(self).wf(),
            final(self)@.data == upsert_rows(old(self)@.data, interface@),
            final(self)@.controls == old(self)@.controls,
            final(self)@.config == old(self)@.config,
            p as int == insert_pos(old(self)@.data, interface@),
            p < final(self).data@.len(),
            final(self)@.data[p as int].0 == interface@,
    {
        let p = self.lookup_pos(interface);
        proof {
            lemma_upsert_rows_wf(self@.data, interface@);
        }
        let found = p < self.data.len() && str_eq(self.data[p].0.as_str(), interface);
        if !found {
            self.data.insert(p, (interface.to_owned(), ConnectionInfo::default()));
            proof {
                assert(self@.data =~= upsert_rows(old(self)@.data, interface@));
                assert(self@.controls =~= old(self)@.controls);
            }
        } else {
            proof {
                assert(self@.controls =~= old(self)@.controls);
            }
        }
        p
    }

    /// Records an address change for `interface` — creating its row on first
    /// contact — and returns the route installation owed for it: the default
    /// route on that interface into policy table `101 + suffix`.
    pub fn update_connection_info(
        &mut self,
        interface: &str,
        local_ip: Option<String>,
        connected_at: Option<i64>,
    ) -> (route: RouteCmd)
        requires
            old(self).wf(),
            local_ip is Some <==> connected_at is Some,
        ensures
            final(self).wf(),
            final(self)@ == (ManagerV {
                data: conn_rows(
                    old(self)@.data,
                    interface@,
                    ip_view(local_ip),
                    at_view(connected_at),
                ),
                ..old(self)@
            }),
            route.interface@ == interface@,
            route.table_id as int == 101 + parse_suffix_spec(interface@),
    {
        proof {
            lemma_conn_rows_wf(
                self@.data,
                interface@,
                ip_view(local_ip),
                at_view(connected_at),
            );
        }
        let p = self.upsert_entry(interface);
        self.data[p].1.local_ip = local_ip;
        self.data[p].1.connected_at = connected_at;
        proof {
            assert(self@.data =~= conn_rows(
                old(self)@.data,
                interface@,
                ip_view(local_ip),
                at_view(connected_at),
            ));
            assert(self@.controls =~= old(self)@.controls);
        }
        let idx = parse_suffix(interface);
        RouteCmd { interface: interface.to_owned(), table_id: 101 + (idx as u64) }
    }
}

/// A record after one liveness probe: the check instant is stamped; success
/// clears the failure streak, failure extends it.
pub open spec fn health_info(v: InfoV, ok: bool, now: int) -> InfoV {
    if ok {
        InfoV { last_health_check: Some(now), is_healthy: true, consecutive_failures: 0, ..v }
    } else {
        InfoV {
            last_health_check: Some(now),
            is_healthy: false,
            consecutive_failures: if v.consecutive_failures < u32::MAX as int {
                v.consecutive_failures + 1
            } else {
                v.consecutive_failures
            },
            ..v
        }
    }
}

/// The registry after one probe result for `key`; an unknown interface
/// changes nothing.
pub open spec fn health_rows(d: Seq<Row>, key: Seq<char>, ok: bool, now: int) -> Seq<Row> {
    if has_key(d, key) {
        d.update(insert_pos(d, key), (key, health_info(info_at(d, key), ok, now)))
    } else {
        d
    }
}

/// One reading of an interface's kernel counters.
#[derive(Clone, Copy, Debug, PartialEq, Eq, Structural)]
pub struct NetSample {
    pub transmitted: u64,
    pub received: u64,
    pub total_transmitted: u64,
    pub total_received: u64,
    pub total_packets_transmitted: u64,
    pub total_packets_received: u64,
}

/// Bytes-per-interval turned into bits per second, saturating at the top.
pub open spec fn rate_bps(bytes: int) -> int {
    if 8 * bytes <= u64::MAX as int {
        8 * bytes
    } else {
        u64::MAX as int
    }
}

/// A record refreshed from one counter reading; uptime counts from the
/// connection instant when one is present.
pub open spec fn traffic_info(v: InfoV, s: NetSample, now: int) -> InfoV {
    InfoV {
        send_rate_bps: rate_bps(s.transmitted as int),
        receive_rate_bps: rate_bps(s.received as int),
        bytes_received: s.total_received as int,
        bytes_sent: s.total_transmitted as int,
        packets_received: s.total_packets_received as int,
        packets_sent: s.total_packets_transmitted as int,
        uptime_seconds: match v.connected_at {
            Some(at) => if now >= at {
                now - at
            } else {
                0
            },
            None => v.uptime_seconds,
        },
        ..v
    }
}

/// The registry after one counter reading for `key`; an unknown interface
/// changes nothing.
pub open spec fn traffic_rows(d: Seq<Row>, key: Seq<char>, s: NetSample, now: int) -> Seq<Row> {
    if has_key(d, key) {
        d.update(insert_pos(d, key), (key, traffic_info(info_at(d, key), s, now)))
    } else {
        d
    }
}

/// Seconds from `at` to `now`, zero when `now` lies before `at`.
fn elapsed_seconds(now: i64, at: i64) -> (r: u64)
    ensures
        r as int == if now >= at {
            now - at
        } else {
            0
        },
{
    if at >= 0 {
        if now >= at {
            (now - at) as u64
        } else {
            0
        }
    } else {
        if now >= 0 {
            (now as u64) + ((-(at + 1)) as u64) + 1
        } else {
            if now >= at {
                (now - at) as u64
            } else {
                0
            }
        }
    }
}

impl PPPoEManager {
    /// Finds the registry row of `interface`.
    fn find_key(&self, interface: &str) -> (r: Option<usize>)
        requires
            self.wf(),
        ensures
            match r {
                Some(p) => has_key(self@.data, interface@) && p as int == insert_pos(
                    self@.data,
                    interface@,
                ) && p < self.data@.len(),
                None => !has_key(self@.data, interface@),
            },
    {
        let p = self.lookup_pos(interface);
        if p < self.data.len() && str_eq(self.data[p].0.as_str(), interface) {
            Some(p)
        } else {
            None
        }
    }

    /// Applies one liveness probe result: stamps the check instant, tracks
    /// the failure streak, and says whether the streak has reached the
    /// configured threshold, which obliges the caller to reconnect the
    /// interface. The trigger does not reset the streak; only the next
    /// successful probe does.
    pub fn update_health_status(&mut self, interface: &str, is_healthy: bool, now: i64) -> (trigger:
        bool)
        requires
            old(self).wf(),
        ensures
            final(self).wf(),
            final(self)@ == (ManagerV {
                data: health_rows(old(self)@.data, interface@, is_healthy, now as int),
                ..old(self)@
            }),
            trigger == (has_key(old(self)@.data, interface@) && !is_healthy && health_info(
                info_at(old(self)@.data, interface@),
                is_healthy,
                now as int,
            ).consecutive_failures >= old(self)@.config.health_check_failure_threshold),
    {
        let found = self.find_key(interface);
        match found {
            Some(p) => {
                self.data[p].1.last_health_check = Some(now);
                let mut trigger = false;
                if is_healthy {
                    self.data[p].1.is_healthy = true;
                    self.data[p].1.consecutive_failures = 0;
                } else {
                    self.data[p].1.is_healthy = false;
                    if self.data[p].1.consecutive_failures < u32::MAX {
                        self.data[p].1.consecutive_failures =
                            self.data[p].1.consecutive_failures + 1;
                    }
                    trigger = self.data[p].1.consecutive_failures
                        >= self.config.health_check_failure_threshold;
                }
                proof {
                    assert(self@.data =~= health_rows(
                        old(self)@.data,
                        interface@,
                        is_healthy,
                        now as int,
                    ));
                    assert(self@.controls =~= old(self)@.controls);
                    assert forall|i: int| 0 <= i < self@.data.len() implies (
                    #[trigger] self@.data[i]).0 == old(self)@.data[i].0 by {}
                }
                trigger
            },
            None => {
                proof {
                    assert(self@.data =~= health_rows(
                        old(self)@.data,
                        interface@,
                        is_healthy,
                        now as int,
                    ));
                }
                false
            },
        }
    }

    /// Refreshes one interface's traffic counters and rates from a kernel
    /// reading; an interface without a row is left alone.
    pub fn update_traffic_stats(&mut self, interface: &str, sample: NetSample, now: i64)
        requires
            old(self).wf(),
        ensures
            final(self).wf(),
            final(self)@ == (ManagerV {
                data: traffic_rows(old(self)@.data, interface@, sample, now as int),
                ..old(self)@
            }),
    {
        let found = self.find_key(interface);
        match found {
            Some(p) => {
                let tx = sample.transmitted;
                let rx = sample.received;
                self.data[p].1.send_rate_bps = if tx <= u64::MAX / 8 {
                    8 * tx
                } else {
                    u64::MAX
                };
                self.data[p].1.receive_rate_bps = if rx <= u64::MAX / 8 {
                    8 * rx
                } else {
                    u64::MAX
                };
                self.data[p].1.bytes_received = sample.total_received;
                self.data[p].1.bytes_sent = sample.total_transmitted;
                self.data[p].1.packets_received = sample.total_packets_received;
                self.data[p].1.packets_sent = sample.total_packets_transmitted;
                match self.data[p].1.connected_at {
                    Some(at) => {
                        self.data[p].1.uptime_seconds = elapsed_seconds(now, at);
                    },
                    None => {},
                }
                proof {
                    assert(self@.data =~= traffic_rows(
                        old(self)@.data,
                        interface@,
                        sample,
                        now as int,
                    ));
                    assert(self@.controls =~= old(self)@.controls);
                }
            },
            None => {
                proof {
                    assert(self@.data =~= traffic_rows(
                        old(self)@.data,
                        interface@,
                        sample,
                        now as int,
                    ));
                }
            },
        }
    }
}

/// The supervisor after one client event: `IpUpdated` records the fresh
/// address, `Disconnected` clears address and instant together.
pub open spec fn event_step(m: ManagerV, e: EventV) -> ManagerV {
    match e {
        EventV::IpUpdated { interface, local_ip, connected_at } => ManagerV {
            data: conn_rows(m.data, interface, local_ip, connected_at),
            ..m
        },
        EventV::Disconnected { interface } => ManagerV {
            data: conn_rows(m.data, interface, None, None),
            ..m
        },
    }
}

/// An event as the clients emit it: address and instant travel together.
pub open spec fn event_wf(e: EventV) -> bool {
    match e {
        EventV::IpUpdated { local_ip, connected_at, .. } => local_ip is Some
            <==> connected_at is Some,
        EventV::Disconnected { .. } => true,
    }
}

/// A command the runtime owes one client's channel.
pub struct CmdSend {
    pub interface: String,
    pub command: ClientCommand,
}

/// The start broadcast: `Connect` to every client in registration order,
/// with a fixed gap between sends.
pub struct StartPlan {
    pub sends: Vec<CmdSend>,
    pub stagger_millis: u64,
}

/// One full rotation: take every session down, hold the quiescence window,
/// then bring every session back up, staggered.
pub struct RotationPlan {
    pub down: Vec<CmdSend>,
    pub wait_seconds: u32,
    pub up: StartPlan,
}

/// A control channel is registered for `key`.
pub open spec fn ctl_has(c: Seq<(Seq<char>, bool)>, key: Seq<char>) -> bool {
    exists|i: int| 0 <= i < c.len() && (#[trigger] c[i]).0 == key
}

/// The control channel of `key` is registered and still believed open.
pub open spec fn ctl_open(c: Seq<(Seq<char>, bool)>, key: Seq<char>) -> bool {
    exists|i: int| 0 <= i < c.len() && (#[trigger] c[i]).0 == key && c[i].1
}

impl PPPoEManager {
    /// Consumes one client event. An `IpUpdated` yields the route
    /// installation owed for the interface; a `Disconnected` yields none.
    pub fn apply_event(&mut self, event: PpmsEvent) -> (route: Option<RouteCmd>)
        requires
            old(self).wf(),
            event_wf(event@),
        ensures
            final(self).wf(),
            final(self)@ == event_step(old(self)@, event@),
            match event@ {
                EventV::IpUpdated { interface, .. } => route matches Some(rc) && rc.interface@
                    == interface && rc.table_id as int == 101 + parse_suffix_spec(interface),
                EventV::Disconnected { .. } => route is None,
            },
    {
        match event {
            PpmsEvent::IpUpdated { interface, local_ip, connected_at } => {
                let rc = self.update_connection_info(interface.as_str(), local_ip, connected_at);
                Some(rc)
            },
            PpmsEvent::Disconnected { interface } => {
                let _ = self.update_connection_info(interface.as_str(), None, None);
                None
            },
        }
    }

    /// Finds the control entry of `interface`.
    fn find_control(&self, interface: &str) -> (r: Option<usize>)
        ensures
            match r {
                Some(p) => p < self@.controls.len() && self@.controls[p as int].0 == interface@,
                None => forall|i: int|
                    0 <= i < self@.controls.len() ==> (#[trigger] self@.controls[i]).0
                        != interface@,
            },
    {
        let n = self.client_controls.len();
        let mut i: usize = 0;
        while i < n
            invariant
                n == self@.controls.len(),
                0 <= i <= n,
                forall|k: int| 0 <= k < i ==> (#[trigger] self@.controls[k]).0 != interface@,
            decreases n - i,
        {
            if str_eq(self.client_controls[i].interface.as_str(), interface) {
                return Some(i);
            }
            i += 1;
        }
        None
    }

    /// Builds the command owed to one client: `InterfaceNotFound` when no
    /// channel is registered, `ChannelClosed` when its client task is gone.
    fn command_for(&self, interface: &str, command: ClientCommand) -> (r: Result<
        CmdSend,
        PpmsError,
    >)
        requires
            self.wf(),
        ensures
            match r {
                Ok(s) => ctl_open(self@.controls, interface@) && s.interface@ == interface@
                    && s.command == command,
                Err(PpmsError::InterfaceNotFound) => !ctl_has(self@.controls, interface@),
                Err(PpmsError::ChannelClosed) => ctl_has(self@.controls, interface@) && !ctl_open(
                    self@.controls,
                    interface@,
                ),
            },
    {
        match self.find_control(interface) {
            Some(p) => {
                if self.client_controls[p].is_open {
                    Ok(CmdSend { interface: interface.to_owned(), command })
                } else {
                    proof {
                        assert forall|i: int|
                            0 <= i < self@.controls.len() && (#[trigger] self@.controls[i]).0
                                == interface@ implies !self@.controls[i].1 by {
                            if i != p {
                                assert(self@.controls[i].0 != self@.controls[p as int].0);
                            }
                        }
                    }
                    Err(PpmsError::ChannelClosed)
                }
            },
            None => Err(PpmsError::InterfaceNotFound),
        }
    }

    /// The `Connect` command owed to one client.
    pub fn connect_client(&self, interface: &str) -> (r: Result<CmdSend, PpmsError>)
        requires
            self.wf(),
        ensures
            match r {
                Ok(s) => ctl_open(self@.controls, interface@) && s.interface@ == interface@
                    && s.command == ClientCommand::Connect,
                Err(PpmsError::InterfaceNotFound) => !ctl_has(self@.controls, interface@),
                Err(PpmsError::ChannelClosed) => ctl_has(self@.controls, interface@) && !ctl_open(
                    self@.controls,
                    interface@,
                ),
            },
    {
        self.command_for(interface, ClientCommand::Connect)
    }

    /// The `Disconnect` command owed to one client.
    pub fn disconnect_client(&self, interface: &str) -> (r: Result<CmdSend, PpmsError>)
        requires
            self.wf(),
        ensures
            match r {
                Ok(s) => ctl_open(self@.controls, interface@) && s.interface@ == interface@
                    && s.command == ClientCommand::Disconnect,
                Err(PpmsError::InterfaceNotFound) => !ctl_has(self@.controls, interface@),
                Err(PpmsError::ChannelClosed) => ctl_has(self@.controls, interface@) && !ctl_open(
                    self@.controls,
                    interface@,
                ),
            },
    {
        self.command_for(interface, ClientCommand::Disconnect)
    }

    /// The `Reconnect` command owed to one client.
    pub fn reconnect_client(&self, interface: &str) -> (r: Result<CmdSend, PpmsError>)
        requires
            self.wf(),
        ensures
            match r {
                Ok(s) => ctl_open(self@.controls, interface@) && s.interface@ == interface@
                    && s.command == ClientCommand::Reconnect,
                Err(PpmsError::InterfaceNotFound) => !ctl_has(self@.controls, interface@),
                Err(PpmsError::ChannelClosed) => ctl_has(self@.controls, interface@) && !ctl_open(
                    self@.controls,
                    interface@,
                ),
            },
    {
        self.command_for(interface, ClientCommand::Reconnect)
    }

    /// Records that a client's command channel came back closed.
    pub fn mark_channel_closed(&mut self, interface: &str)
        requires
            old(self).wf(),
        ensures
            final(self).wf(),
            final(self)@.data == old(self)@.data,
            final(self)@.config == old(self)@.config,
            final(self)@.controls.len() == old(self)@.controls.len(),
            forall|i: int|
                0 <= i < old(self)@.controls.len() ==> (#[trigger] final(self)@.controls[i]) == (
                if old(self)@.controls[i].0 == interface@ {
                    (old(self)@.controls[i].0, false)
                } else {
                    old(self)@.controls[i]
                }),
    {
        match self.find_control(interface) {
            Some(p) => {
                self.client_controls[p].is_open = false;
                proof {
                    assert forall|i: int| 0 <= i < old(self)@.controls.len() implies (
                    #[trigger] self@.controls[i]) == (if old(self)@.controls[i].0 == interface@ {
                        (old(self)@.controls[i].0, false)
                    } else {
                        old(self)@.controls[i]
                    }) by {
                        if i != p && old(self)@.controls[i].0 == interface@ {
                            assert(old(self)@.controls[i].0 != old(self)@.controls[p as int].0);
                        }
                    }
                }
            },
            None => {},
        }
    }

    /// The `Disconnect` broadcast: one send per registered client, in
    /// registration order.
    pub fn stop_all(&self) -> (sends: Vec<CmdSend>)
        ensures
            sends@.len() == self@.controls.len(),
            forall|i: int|
                0 <= i < sends@.len() ==> (#[trigger] sends@[i]).interface@ == self@.controls[i].0
                    && sends@[i].command == ClientCommand::Disconnect,
    {
        let n = self.client_controls.len();
        let mut sends: Vec<CmdSend> = Vec::new();
        let mut i: usize = 0;
        while i < n
            invariant
                n == self@.controls.len(),
                0 <= i <= n,
                sends@.len() == i,
                forall|k: int|
                    0 <= k < i ==> (#[trigger] sends@[k]).interface@ == self@.controls[k].0
                        && sends@[k].command == ClientCommand::Disconnect,
            decreases n - i,
        {
            sends.push(CmdSend {
                interface: self.client_controls[i].interface.clone(),
                command: ClientCommand::Disconnect,
            });
            i += 1;
        }
        sends
    }

    /// The `Connect` broadcast: one send per registered client, in
    /// registration order, 100 ms apart.
    pub fn start_all(&self) -> (plan: StartPlan)
        ensures
            plan.stagger_millis == 100,
            plan.sends@.len() == self@.controls.len(),
            forall|i: int|
                0 <= i < plan.sends@.len() ==> (#[trigger] plan.sends@[i]).interface@
                    == self@.controls[i].0 && plan.sends@[i].command == ClientCommand::Connect,
    {
        let n = self.client_controls.len();
        let mut sends: Vec<CmdSend> = Vec::new();
        let mut i: usize = 0;
        while i < n
            invariant
                n == self@.controls.len(),
                0 <= i <= n,
                sends@.len() == i,
                forall|k: int|
                    0 <= k < i ==> (#[trigger] sends@[k]).interface@ == self@.controls[k].0
                        && sends@[k].command == ClientCommand::Connect,
            decreases n - i,
        {
            sends.push(CmdSend {
                interface: self.client_controls[i].interface.clone(),
                command: ClientCommand::Connect,
            });
            i += 1;
        }
        StartPlan { sends, stagger_millis: 100 }
    }

    /// One rotation cycle: every client is taken down, the quiescence window
    /// of exactly `wait_seconds` follows, and only then does the staggered
    /// start broadcast go out.
    pub fn rotate_ips(&self) -> (plan: RotationPlan)
        ensures
            plan.wait_seconds as int == self@.config.wait_seconds,
            plan.down@.len() == self@.controls.len(),
            forall|i: int|
                0 <= i < plan.down@.len() ==> (#[trigger] plan.down@[i]).interface@
                    == self@.controls[i].0 && plan.down@[i].command == ClientCommand::Disconnect,
            plan.up.stagger_millis == 100,
            plan.up.sends@.len() == self@.controls.len(),
            forall|i: int|
                0 <= i < plan.up.sends@.len() ==> (#[trigger] plan.up.sends@[i]).interface@
                    == self@.controls[i].0 && plan.up.sends@[i].command == ClientCommand::Connect,
    {
        RotationPlan {
            down: self.stop_all(),
            wait_seconds: self.config.wait_seconds,
            up: self.start_all(),
        }
    }

    /// A snapshot of the registry, in its stable key order.
    pub fn get_all_stats(&self) -> (r: Vec<(String, ConnectionInfo)>)
        ensures
            rows_of(r@) == self@.data,
    {
        let n = self.data.len();
        let mut r: Vec<(String, ConnectionInfo)> = Vec::new();
        let mut i: usize = 0;
        while i < n
            invariant
                n == self.data@.len(),
                0 <= i <= n,
                r@.len() == i,
                forall|k: int|
                    0 <= k < i ==> (#[trigger] r@[k]).0@ == self@.data[k].0 && r@[k].1@
                        == self@.data[k].1,
            decreases n - i,
        {
            r.push((self.data[i].0.clone(), self.data[i].1.clone()));
            i += 1;
        }
        proof {
            assert(rows_of(r@) =~= self@.data);
        }
        r
    }
}

/// The name of session number `i`: `ppp<i>`.
pub open spec fn iface_name_spec(i: int) -> Seq<char> {
    "ppp"@ + dec_digits(i)
}

/// Builds the interface name of session number `i`.
pub fn iface_name(i: u16) -> (r: String)
    ensures
        r@ == iface_name_spec(i as int),
{
    let digits = u64_to_string(i as u64);
    let r = "ppp".to_owned().concat(digits.as_str());
    proof {
        assert(r@ =~= iface_name_spec(i as int));
    }
    r
}

/// Distinct session numbers name distinct interfaces.
pub proof fn lemma_iface_names_distinct(a: int, b: int)
    requires
        a >= 0,
        b >= 0,
        a != b,
    ensures
        iface_name_spec(a) != iface_name_spec(b),
{
    crate::text::lemma_dec_digits_injective(a, b);
    if iface_name_spec(a) == iface_name_spec(b) {
        assert(("ppp"@ + dec_digits(a)).skip("ppp"@.len() as int) =~= dec_digits(a));
        assert(("ppp"@ + dec_digits(b)).skip("ppp"@.len() as int) =~= dec_digits(b));
    }
}

impl PPPoEManager {
    /// Registers `count` session clients named `ppp0 .. ppp<count-1>`, one
    /// open command channel each, and returns their state machines for the
    /// runtime to drive. Called once, before any channel exists.
    pub fn start_clients(&mut self, username: &str, password: &str, count: u16) -> (clients: Vec<
        PPPoEClient,
    >)
        requires
            old(self).wf(),
            old(self)@.controls.len() == 0,
        ensures
            final(self).wf(),
            final(self)@.data == old(self)@.data,
            final(self)@.config == old(self)@.config,
            final(self)@.controls.len() == count as int,
            forall|i: int|
                0 <= i < count as int ==> (#[trigger] final(self)@.controls[i]) == (
                iface_name_spec(i),
                true,
            ),
            clients@.len() == count as int,
            forall|i: int|
                0 <= i < count as int ==> (#[trigger] clients@[i])@ == (ClientV {
                    username: username@,
                    password: password@,
                    interface: iface_name_spec(i),
                    has_child: false,
                    ip_obtained: false,
                    should_be_connected: false,
                    reconnect_attempts: 0,
                    max_reconnect_attempts: 10,
                }),
    {
        let mut clients: Vec<PPPoEClient> = Vec::new();
        let mut i: u16 = 0;
        while i < count
            invariant
                old(self).wf(),
                0 <= i <= count,
                self@.data == old(self)@.data,
                self@.config == old(self)@.config,
                rows_wf(self@.data),
                self@.controls.len() == i as int,
                forall|k: int|
                    0 <= k < i as int ==> (#[trigger] self@.controls[k]) == (
                    iface_name_spec(k),
                    true,
                ),
                clients@.len() == i as int,
                forall|k: int|
                    0 <= k < i as int ==> (#[trigger] clients@[k])@ == (ClientV {
                        username: username@,
                        password: password@,
                        interface: iface_name_spec(k),
                        has_child: false,
                        ip_obtained: false,
                        should_be_connected: false,
                        reconnect_attempts: 0,
                        max_reconnect_attempts: 10,
                    }),
            decreases count - i,
        {
            let name = iface_name(i);
            let client = PPPoEClient::new(username.to_owned(), password.to_owned(), name.clone());
            clients.push(client);
            let ghost prev = self@.controls;
            self.client_controls.push(ControlEntry { interface: name, is_open: true });
            proof {
                assert forall|k: int| 0 <= k < i as int + 1 implies (#[trigger] self@.controls[k])
                    == (iface_name_spec(k), true) by {
                    if k < i as int {
                        assert(self@.controls[k] == prev[k]);
                    }
                }
            }
            i += 1;
        }
        proof {
            assert forall|a: int, b: int| 0 <= a < b < self@.controls.len() implies (
            #[trigger] self@.controls[a]).0 != (#[trigger] self@.controls[b]).0 by {
                lemma_iface_names_distinct(a, b);
            }
        }
        clients
    }
}

/// The liveness probe invocation: one ICMP echo bound to the interface,
/// timing out after two seconds: `ping -c 1 -W 2 -I <iface> <target>`.
pub open spec fn ping_argv(iface: Seq<char>, target: Seq<char>) -> Seq<Seq<char>> {
    seq!["-c"@, "1"@, "-W"@, "2"@, "-I"@, iface, target]
}

impl PPPoEManager {
    /// The argument vector of one liveness probe against the configured
    /// target, bound to `interface`.
    pub fn ping_command(&self, interface: &str) -> (r: Vec<String>)
        ensures
            r.deep_view() == ping_argv(interface@, self@.config.health_check_target),
    {
        let mut v: Vec<String> = Vec::new();
        v.push("-c".to_owned());
        v.push("1".to_owned());
        v.push("-W".to_owned());
        v.push("2".to_owned());
        v.push("-I".to_owned());
        v.push(interface.to_owned());
        v.push(self.config.health_check_target.clone());
        proof {
            assert(v.deep_view() =~= ping_argv(interface@, self@.config.health_check_target));
        }
        v
    }

    /// The `ip` argument vector that installs a default route on
    /// `interface` into policy table `table_id`.
    pub fn add_default_route(&self, interface: &str, table_id: u32) -> (r: Vec<String>)
        ensures
            r.deep_view() == route_add_argv(interface@, table_id as int),
    {
        let cmd = RouteCmd { interface: interface.to_owned(), table_id: table_id as u64 };
        cmd.argv()
    }

    /// The record of one interface, if it has appeared.
    pub fn get_stats(&self, interface: &str) -> (r: Option<ConnectionInfo>)
        requires
            self.wf(),
        ensures
            match r {
                Some(info) => has_key(self@.data, interface@) && info@ == info_at(
                    self@.data,
                    interface@,
                ),
                None => !has_key(self@.data, interface@),
            },
    {
        match self.find_key(interface) {
            Some(p) => Some(self.data[p].1.clone()),
            None => None,
        }
    }

    /// Whether the rotation scheduler is disabled (`rotation_time` of `0`
    /// asks for no rotation at all).
    pub fn rotation_disabled(&self) -> (r: bool)
        ensures
            r == (self@.config.rotation_time == "0"@),
    {
        str_eq(self.config.rotation_time.as_str(), "0")
    }

    /// Seconds until the next rotation: an integral `rotation_time` counts
    /// minutes; a wall-clock `HH:MM` waits for its next local occurrence;
    /// anything else falls back to one hour.
    pub fn calculate_next_rotation_seconds(&self) -> (r: u64)
        ensures
            is_dec_numeral(self@.config.rotation_time, u32::MAX as int) ==> r as int == dec_value(
                self@.config.rotation_time,
            ) * 60,
            !is_dec_numeral(self@.config.rotation_time, u32::MAX as int) && crate::config::is_hhmm(
                self@.config.rotation_time,
            ) ==> r < 86400,
            !is_dec_numeral(self@.config.rotation_time, u32::MAX as int) && !crate::config::is_hhmm(
                self@.config.rotation_time,
            ) ==> r == 3600,
    {
        match parse_u32(self.config.rotation_time.as_str()) {
            Some(minutes) => (minutes as u64) * 60,
            None => {
                match crate::config::time_string_to_sec(self.config.rotation_time.as_str()) {
                    Ok(secs) => secs as u64,
                    Err(_) => 3600,
                }
            },
        }
    }
}

/// The registry keys that start with `p`, in registry order: what interface
/// name completion offers an operator.
pub open spec fn keys_with_prefix(d: Seq<Row>, p: Seq<char>) -> Seq<Seq<char>>
    decreases d.len(),
{
    if d.len() == 0 {
        Seq::empty()
    } else {
        keys_with_prefix(d.drop_last(), p) + if crate::text::has_prefix(d.last().0, p) {
            seq![d.last().0]
        } else {
            Seq::empty()
        }
    }
}

impl PPPoEManager {
    /// The known interface names that start with `partial`, for name
    /// completion on the control surface.
    pub fn interfaces_with_prefix(&self, partial: &str) -> (r: Vec<String>)
        ensures
            r.deep_view() == keys_with_prefix(self@.data, partial@),
    {
        let n = self.data.len();
        let mut r: Vec<String> = Vec::new();
        let mut i: usize = 0;
        proof {
            assert(self@.data.take(0) =~= Seq::<Row>::empty());
        }
        while i < n
            invariant
                n == self.data@.len(),
                0 <= i <= n,
                r.deep_view() == keys_with_prefix(self@.data.take(i as int), partial@),
            decreases n - i,
        {
            proof {
                assert(self@.data.take(i + 1 as int).drop_last() =~= self@.data.take(i as int));
                assert(self@.data.take(i + 1 as int).last() == self@.data[i as int]);
            }
            if crate::text::str_has_prefix(self.data[i].0.as_str(), partial) {
                r.push(self.data[i].0.clone());
            }
            proof {
                assert(r.deep_view() =~= keys_with_prefix(self@.data.take(i + 1 as int), partial@));
            }
            i += 1;
        }
        proof {
            assert(self@.data.take(n as int) =~= self@.data);
        }
        r
    }
}

/// The interfaces that hold an address, in registry order: the liveness
/// prober's worklist.
pub open spec fn connected_keys(d: Seq<Row>) -> Seq<Seq<char>>
    decreases d.len(),
{
    if d.len() == 0 {
        Seq::empty()
    } else {
        connected_keys(d.drop_last()) + if d.last().1.local_ip is Some {
            seq![d.last().0]
        } else {
            Seq::empty()
        }
    }
}

impl PPPoEManager {
    /// The interfaces the liveness prober must probe: those with an address.
    pub fn health_check_interfaces(&self) -> (r: Vec<String>)
        ensures
            r.deep_view() == connected_keys(self@.data),
    {
        let n = self.data.len();
        let mut r: Vec<String> = Vec::new();
        let mut i: usize = 0;
        proof {
            assert(self@.data.take(0) =~= Seq::<Row>::empty());
        }
        while i < n
            invariant
                n == self.data@.len(),
                0 <= i <= n,
                r.deep_view() == connected_keys(self@.data.take(i as int)),
            decreases n - i,
        {
            proof {
                assert(self@.data.take(i + 1 as int).drop_last() =~= self@.data.take(i as int));
                assert(self@.data.take(i + 1 as int).last() == self@.data[i as int]);
            }
            if self.data[i].1.local_ip.is_some() {
                r.push(self.data[i].0.clone());
            }
            proof {
                assert(r.deep_view() =~= connected_keys(self@.data.take(i + 1 as int)));
            }
            i += 1;
        }
        proof {
            assert(self@.data.take(n as int) =~= self@.data);
        }
        r
    }
}

} // verus!
