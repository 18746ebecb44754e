//! The proxy engine's configuration: one proxy and one tun service pair per
//! session plus one for the uplink, a shared RFC1918/loopback bypass, and
//! the API, metrics and log settings.

use vstd::prelude::*;

use crate::manager::iface_name_spec;
use crate::text::{dec_digits, u64_to_string};

verus! {

/// One metadata value: the engine's configuration mixes words and numbers.
pub enum MetaValue {
    Text(String),
    Number(u64),
}

/// One metadata entry.
pub struct MetaEntry {
    pub key: String,
    pub value: MetaValue,
}

/// A service's handler: its type and metadata.
pub struct Handler {
    pub handler_type: String,
    pub metadata: Vec<MetaEntry>,
}

/// A service's listener: its type and metadata.
pub struct Listener {
    pub listener_type: String,
    pub metadata: Vec<MetaEntry>,
}

/// One service of the proxy engine.
pub struct Service {
    pub name: String,
    pub addr: String,
    pub bypass: Option<String>,
    pub handler: Handler,
    pub listener: Listener,
    pub metadata: Vec<MetaEntry>,
}

/// A named set of bypass matchers.
pub struct Bypass {
    pub name: String,
    pub matchers: Vec<String>,
}

/// The whole engine configuration.
pub struct GostConfig {
    pub services: Vec<Service>,
    pub bypasses: Vec<Bypass>,
    pub api_addr: String,
    pub metrics_addr: String,
    pub log_format: String,
    pub log_level: String,
}

/// One textual metadata entry holds the given key and word.
pub open spec fn meta_text(e: MetaEntry, key: Seq<char>, value: Seq<char>) -> bool {
    &&& e.key@ == key
    &&& e.value matches MetaValue::Text(t) && t@ == value
}

/// One numeric metadata entry holds the given key and number.
pub open spec fn meta_number(e: MetaEntry, key: Seq<char>, value: int) -> bool {
    &&& e.key@ == key
    &&& e.value matches MetaValue::Number(n) && n as int == value
}

/// The proxy service of slot `index`, egressing through `iface`:
/// `auto` handler with UDP relay on port `8080 + index`, behind the
/// shared bypass.
pub open spec fn proxy_service_spec(s: Service, index: int, iface: Seq<char>) -> bool {
    &&& s.name@ == "if"@ + dec_digits(index) + "-proxy"@
    &&& s.addr@ == ":"@ + dec_digits(8080 + index)
    &&& s.bypass matches Some(b) && b@ == "local-bypass"@
    &&& s.handler.handler_type@ == "auto"@
    &&& s.handler.metadata@.len() == 2
    &&& meta_text(s.handler.metadata@[0], "udp"@, "true"@)
    &&& meta_text(s.handler.metadata@[1], "udpBufferSize"@, "65565"@)
    &&& s.listener.listener_type@ == "tcp"@
    &&& s.listener.metadata@.len() == 0
    &&& s.metadata@.len() == 1
    &&& meta_text(s.metadata@[0], "interface"@, iface)
}

/// The tun service of slot `index`, on device `iface` with net
/// `192.168.<100+index>.1/24`, on port `8880 + index`.
pub open spec fn tun_service_spec(s: Service, index: int, iface: Seq<char>) -> bool {
    &&& s.name@ == "if"@ + dec_digits(index) + "-tun"@
    &&& s.addr@ == ":"@ + dec_digits(8880 + index)
    &&& s.bypass matches Some(b) && b@ == "local-bypass"@
    &&& s.handler.handler_type@ == "tun"@
    &&& s.handler.metadata@.len() == 1
    &&& meta_number(s.handler.metadata@[0], "bufferSize"@, 65535)
    &&& s.listener.listener_type@ == "tun"@
    &&& s.listener.metadata@.len() == 2
    &&& meta_text(s.listener.metadata@[0], "name"@, iface)
    &&& meta_text(
        s.listener.metadata@[1],
        "net"@,
        "192.168."@ + dec_digits(100 + index) + ".1/24"@,
    )
    &&& s.metadata@.len() == 0
}

/// The shared bypass: loopback and the RFC1918 and unique-local ranges.
pub open spec fn bypass_spec(b: Bypass) -> bool {
    &&& b.name@ == "local-bypass"@
    &&& b.matchers@.len() == 6
    &&& b.matchers@[0]@ == "127.0.0.1/8"@
    &&& b.matchers@[1]@ == "10.0.0.0/8"@
    &&& b.matchers@[2]@ == "172.16.0.0/12"@
    &&& b.matchers@[3]@ == "192.168.0.0/16"@
    &&& b.matchers@[4]@ == "::1/128"@
    &&& b.matchers@[5]@ == "fc00::/7"@
}

/// Builds the proxy service of slot `index`, egressing through `interface`.
pub fn proxy_service(index: u16, interface: &str) -> (s: Service)
    ensures
        proxy_service_spec(s, index as int, interface@),
{
    let digits = u64_to_string(index as u64);
    let name = "if".to_owned().concat(digits.as_str()).concat("-proxy");
    let addr = ":".to_owned().concat(u64_to_string(8080 + index as u64).as_str());
    let mut handler_metadata: Vec<MetaEntry> = Vec::new();
    handler_metadata.push(MetaEntry {
        key: "udp".to_owned(),
        value: MetaValue::Text("true".to_owned()),
    });
    handler_metadata.push(MetaEntry {
        key: "udpBufferSize".to_owned(),
        value: MetaValue::Text("65565".to_owned()),
    });
    let mut service_metadata: Vec<MetaEntry> = Vec::new();
    service_metadata.push(MetaEntry {
        key: "interface".to_owned(),
        value: MetaValue::Text(interface.to_owned()),
    });
    let s = Service {
        name,
        addr,
        bypass: Some("local-bypass".to_owned()),
        handler: Handler { handler_type: "auto".to_owned(), metadata: handler_metadata },
        listener: Listener { listener_type: "tcp".to_owned(), metadata: Vec::new() },
        metadata: service_metadata,
    };
    proof {
        assert(s.name@ =~= "if"@ + dec_digits(index as int) + "-proxy"@);
        assert(s.addr@ =~= ":"@ + dec_digits(8080 + index as int));
    }
    s
}

/// Builds the tun service of slot `index` on device `interface`.
pub fn tun_service(index: u16, interface: &str) -> (s: Service)
    ensures
        tun_service_spec(s, index as int, interface@),
{
    let digits = u64_to_string(index as u64);
    let name = "if".to_owned().concat(digits.as_str()).concat("-tun");
    let addr = ":".to_owned().concat(u64_to_string(8880 + index as u64).as_str());
    let net = "192.168.".to_owned().concat(
        u64_to_string(100 + index as u64).as_str(),
    ).concat(".1/24");
    let mut handler_metadata: Vec<MetaEntry> = Vec::new();
    handler_metadata.push(MetaEntry {
        key: "bufferSize".to_owned(),
        value: MetaValue::Number(65535),
    });
    let mut listener_metadata: Vec<MetaEntry> = Vec::new();
    listener_metadata.push(MetaEntry {
        key: "name".to_owned(),
        value: MetaValue::Text(interface.to_owned()),
    });
    listener_metadata.push(MetaEntry {
        key: "net".to_owned(),
        value: MetaValue::Text(net),
    });
    let s = Service {
        name,
        addr,
        bypass: Some("local-bypass".to_owned()),
        handler: Handler { handler_type: "tun".to_owned(), metadata: handler_metadata },
        listener: Listener { listener_type: "tun".to_owned(), metadata: listener_metadata },
        metadata: Vec::new(),
    };
    proof {
        assert(s.name@ =~= "if"@ + dec_digits(index as int) + "-tun"@);
        assert(s.addr@ =~= ":"@ + dec_digits(8880 + index as int));
        assert(s.listener.metadata@[1].value matches MetaValue::Text(t) && t@ =~= "192.168."@
            + dec_digits(100 + index as int) + ".1/24"@);
    }
    s
}

/// Builds the engine configuration for `session_count` sessions: the uplink
/// pair on slot 0, then one proxy/tun pair per session `ppp<i>` on slot
/// `i + 1`, the shared bypass, and the fixed API, metrics and log settings.
pub fn gost_config(session_count: u16, logger_level: String) -> (r: GostConfig)
    ensures
        r.services@.len() == 2 + 2 * session_count as int,
        proxy_service_spec(r.services@[0], 0, "eth0"@),
        tun_service_spec(r.services@[1], 0, "tun0"@),
        forall|i: int|
            0 <= i < session_count as int ==> proxy_service_spec(
                #[trigger] r.services@[2 + 2 * i],
                i + 1,
                iface_name_spec(i),
            ),
        forall|i: int|
            0 <= i < session_count as int ==> tun_service_spec(
                #[trigger] r.services@[3 + 2 * i],
                i + 1,
                "tun"@ + dec_digits(i + 1),
            ),
        r.bypasses@.len() == 1 && bypass_spec(r.bypasses@[0]),
        r.api_addr@ == ":18080"@,
        r.metrics_addr@ == ":9000"@,
        r.log_format@ == "text"@,
        r.log_level@ == logger_level@,
{
    let mut services: Vec<Service> = Vec::new();
    services.push(proxy_service(0, "eth0"));
    services.push(tun_service(0, "tun0"));
    let mut i: u16 = 0;
    while i < session_count
        invariant
            0 <= i <= session_count,
            services@.len() == 2 + 2 * i as int,
            proxy_service_spec(services@[0], 0, "eth0"@),
            tun_service_spec(services@[1], 0, "tun0"@),
            forall|k: int|
                0 <= k < i as int ==> proxy_service_spec(
                    #[trigger] services@[2 + 2 * k],
                    k + 1,
                    iface_name_spec(k),
                ),
            forall|k: int|
                0 <= k < i as int ==> tun_service_spec(
                    #[trigger] services@[3 + 2 * k],
                    k + 1,
                    "tun"@ + dec_digits(k + 1),
                ),
        decreases session_count - i,
    {
        let ppp = crate::manager::iface_name(i);
        let tun = "tun".to_owned().concat(u64_to_string(i as u64 + 1).as_str());
        proof {
            assert(tun@ =~= "tun"@ + dec_digits(i as int + 1));
        }
        services.push(proxy_service(i + 1, ppp.as_str()));
        services.push(tun_service(i + 1, tun.as_str()));
        i += 1;
    }
    let mut matchers: Vec<String> = Vec::new();
    matchers.push("127.0.0.1/8".to_owned());
    matchers.push("10.0.0.0/8".to_owned());
    matchers.push("172.16.0.0/12".to_owned());
    matchers.push("192.168.0.0/16".to_owned());
    matchers.push("::1/128".to_owned());
    matchers.push("fc00::/7".to_owned());
    let bypass = Bypass { name: "local-bypass".to_owned(), matchers };
    let mut bypasses: Vec<Bypass> = Vec::new();
    bypasses.push(bypass);
    GostConfig {
        services,
        bypasses,
        api_addr: ":18080".to_owned(),
        metrics_addr: ":9000".to_owned(),
        log_format: "text".to_owned(),
        log_level: logger_level,
    }
}

} // verus!
