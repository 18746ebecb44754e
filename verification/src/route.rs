//! Kernel routing state: the policy-rule seeding run at startup, the
//! interface-to-table mapping, and the decisions of the address monitor.

use vstd::prelude::*;

use crate::manager::iface_name_spec;
use crate::text::{dec_digits, str_eq, u64_to_string};

verus! {

/// One seeded policy rule: traffic entering on `tun<i>` consults table
/// `100 + i`, at priority `100 + i`.
pub open spec fn rule_add_argv(i: int) -> Seq<Seq<char>> {
    seq![
        "rule"@,
        "add"@,
        "iif"@,
        "tun"@ + dec_digits(i),
        "table"@,
        dec_digits(100 + i),
        "prio"@,
        dec_digits(100 + i),
    ]
}

/// The uplink's default route: via the gateway, on `eth0`, into table 100.
pub open spec fn uplink_route_argv(gateway: Seq<char>) -> Seq<Seq<char>> {
    seq!["route"@, "add"@, "default"@, "via"@, gateway, "dev"@, "eth0"@, "table"@, "100"@]
}

/// The `ip` invocations that seed the routing state at startup: eight
/// policy rules for `tun0 .. tun7` into tables `100 .. 107`, then the
/// uplink default route via the gateway.
pub fn init_route_commands(gateway: &str) -> (r: Vec<Vec<String>>)
    ensures
        r@.len() == 9,
        forall|i: int| 0 <= i < 8 ==> (#[trigger] r@[i]).deep_view() == rule_add_argv(i),
        r@[8].deep_view() == uplink_route_argv(gateway@),
{
    let mut r: Vec<Vec<String>> = Vec::new();
    let mut i: u64 = 0;
    while i < 8
        invariant
            0 <= i <= 8,
            r@.len() == i,
            forall|k: int| 0 <= k < i ==> (#[trigger] r@[k]).deep_view() == rule_add_argv(k),
        decreases 8 - i,
    {
        let mut cmd: Vec<String> = Vec::new();
        let tun = "tun".to_owned().concat(u64_to_string(i).as_str());
        let table = u64_to_string(100 + i);
        cmd.push("rule".to_owned());
        cmd.push("add".to_owned());
        cmd.push("iif".to_owned());
        cmd.push(tun);
        cmd.push("table".to_owned());
        cmd.push(table.clone());
        cmd.push("prio".to_owned());
        cmd.push(table);
        proof {
            assert(cmd.deep_view() =~= rule_add_argv(i as int));
        }
        r.push(cmd);
        i += 1;
    }
    let mut last: Vec<String> = Vec::new();
    last.push("route".to_owned());
    last.push("add".to_owned());
    last.push("default".to_owned());
    last.push("via".to_owned());
    last.push(gateway.to_owned());
    last.push("dev".to_owned());
    last.push("eth0".to_owned());
    last.push("table".to_owned());
    last.push("100".to_owned());
    proof {
        assert(last.deep_view() =~= uplink_route_argv(gateway@));
    }
    r.push(last);
    r
}

/// The policy table an interface writes its default route into: the uplink
/// `eth0` keeps table 100, session `ppp<i>` keeps `101 + i`; anything else
/// has no table.
pub fn route_table_for(interface: &str) -> (r: Option<u32>)
    ensures
        match r {
            Some(t) => (interface@ == "eth0"@ && t == 100) || exists|i: int|
                0 <= i < 7 && interface@ == iface_name_spec(i) && t == 101 + i,
            None => interface@ != "eth0"@ && forall|i: int|
                0 <= i < 7 ==> interface@ != iface_name_spec(i),
        },
{
    if str_eq(interface, "eth0") {
        return Some(100);
    }
    let mut i: u16 = 0;
    while i < 7
        invariant
            0 <= i <= 7,
            forall|k: int| 0 <= k < i ==> interface@ != iface_name_spec(k),
        decreases 7 - i,
    {
        let name = crate::manager::iface_name(i);
        if str_eq(interface, name.as_str()) {
            return Some(101 + i as u32);
        }
        i += 1;
    }
    None
}

/// One attribute of a kernel address message, reduced to what the monitor
/// reads: IPv4 addresses as 32-bit values, the interface label, the rest
/// opaque.
pub enum AddrAttr {
    Address(u32),
    Local(u32),
    Label(String),
    Other,
}

/// The last `Address` attribute of a message, as the monitor scans it.
pub open spec fn last_address(s: Seq<AddrAttr>) -> Option<u32>
    decreases s.len(),
{
    if s.len() == 0 {
        None
    } else {
        match s.last() {
            AddrAttr::Address(a) => Some(a),
            _ => last_address(s.drop_last()),
        }
    }
}

/// The last `Local` attribute of a message.
pub open spec fn last_local(s: Seq<AddrAttr>) -> Option<u32>
    decreases s.len(),
{
    if s.len() == 0 {
        None
    } else {
        match s.last() {
            AddrAttr::Local(a) => Some(a),
            _ => last_local(s.drop_last()),
        }
    }
}

/// The first `Label` attribute of a message: the interface name.
pub open spec fn first_label(s: Seq<AddrAttr>) -> Option<Seq<char>>
    decreases s.len(),
{
    if s.len() == 0 {
        None
    } else {
        match s[0] {
            AddrAttr::Label(l) => Some(l@),
            _ => first_label(s.drop_first()),
        }
    }
}

/// Whether a new-address message speaks of one address: its `Address` and
/// `Local` attributes agree (both may be absent).
pub fn is_same_address(attrs: &Vec<AddrAttr>) -> (r: bool)
    ensures
        r == (last_address(attrs@) == last_local(attrs@)),
{
    let n = attrs.len();
    let mut addr: Option<u32> = None;
    let mut local: Option<u32> = None;
    let mut i: usize = 0;
    proof {
        assert(attrs@.take(0) =~= Seq::<AddrAttr>::empty());
    }
    while i < n
        invariant
            n == attrs@.len(),
            0 <= i <= n,
            addr == last_address(attrs@.take(i as int)),
            local == last_local(attrs@.take(i as int)),
        decreases n - i,
    {
        proof {
            assert(attrs@.take(i + 1 as int).drop_last() =~= attrs@.take(i as int));
            assert(attrs@.take(i + 1 as int).last() == attrs@[i as int]);
        }
        match &attrs[i] {
            AddrAttr::Address(a) => {
                addr = Some(*a);
            },
            AddrAttr::Local(a) => {
                local = Some(*a);
            },
            _ => {},
        }
        i += 1;
    }
    proof {
        assert(attrs@.take(n as int) =~= attrs@);
    }
    match (addr, local) {
        (Some(a), Some(l)) => a == l,
        (None, None) => true,
        _ => false,
    }
}

/// The interface name a new-address message carries, if any.
pub fn label_of(attrs: &Vec<AddrAttr>) -> (r: Option<String>)
    ensures
        match r {
            Some(name) => first_label(attrs@) == Some(name@),
            None => first_label(attrs@) is None,
        },
{
    let n = attrs.len();
    let mut i: usize = 0;
    proof {
        assert(attrs@.skip(0) =~= attrs@);
    }
    while i < n
        invariant
            n == attrs@.len(),
            0 <= i <= n,
            first_label(attrs@) == first_label(attrs@.skip(i as int)),
        decreases n - i,
    {
        proof {
            assert(attrs@.skip(i as int)[0] == attrs@[i as int]);
            assert(attrs@.skip(i as int).drop_first() =~= attrs@.skip(i + 1 as int));
        }
        match &attrs[i] {
            AddrAttr::Label(l) => {
                return Some(l.clone());
            },
            _ => {
                i += 1;
            },
        }
    }
    proof {
        assert(attrs@.skip(n as int).len() == 0);
    }
    None
}

/// The monitor reacts to a new-address message exactly when it announces a
/// single host address: prefix length 32 and agreeing address attributes.
pub fn should_install_route(prefix_len: u8, attrs: &Vec<AddrAttr>) -> (r: bool)
    ensures
        r == (prefix_len == 32 && last_address(attrs@) == last_local(attrs@)),
{
    prefix_len == 32 && is_same_address(attrs)
}

} // verus!
