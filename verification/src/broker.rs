//! Settings of the embedded MQTT broker: one plain TCP (MQTT v4) listener on
//! the configured address, no authentication, fixed router limits.

use vstd::prelude::*;

use crate::address::{
    decimal_digit, decimal_text, host_port_text, socket_addr_from_host_port, socket_addr_of, SocketAddrView,
    SocketAddress,
};
use crate::address_laws::{law_ipv4_host_reads_back, lemma_loopback_text};
use crate::config::default_broker;

verus! {

/// Limits of the broker's message router.
#[derive(Debug, Clone, Copy)]
pub struct RouterSettings {
    pub max_connections: usize,
    pub max_outgoing_packet_count: u64,
    pub max_segment_size: usize,
    pub max_segment_count: usize,
}

/// The MQTT v4 TCP listener, with its per-connection limits. It has no TLS
/// and no authentication.
#[derive(Debug, Clone)]
pub struct ListenerSettings {
    pub name: String,
    pub listen: SocketAddress,
    pub next_connection_delay_ms: u64,
    pub connection_timeout_ms: u16,
    pub max_payload_size: usize,
    pub max_inflight_count: usize,
    pub dynamic_filters: bool,
}

/// The broker's settings: its id, its router, and its single v4 listener.
/// No v5, websocket, cluster, console, bridge or metrics endpoint is set up.
#[derive(Debug, Clone)]
pub struct BrokerSettings {
    pub id: usize,
    pub router: RouterSettings,
    pub listener: ListenerSettings,
}

pub struct ListenerView {
    pub name: Seq<char>,
    pub listen: SocketAddrView,
    pub next_connection_delay_ms: u64,
    pub connection_timeout_ms: u16,
    pub max_payload_size: usize,
    pub max_inflight_count: usize,
    pub dynamic_filters: bool,
}

pub struct BrokerSettingsView {
    pub id: usize,
    pub router: RouterSettings,
    pub listener: ListenerView,
}

impl View for ListenerSettings {
    type V = ListenerView;

    open spec fn view(&self) -> ListenerView {
        ListenerView {
            name: self.name@,
            listen: self.listen@,
            next_connection_delay_ms: self.next_connection_delay_ms,
            connection_timeout_ms: self.connection_timeout_ms,
            max_payload_size: self.max_payload_size,
            max_inflight_count: self.max_inflight_count,
            dynamic_filters: self.dynamic_filters,
        }
    }
}

impl View for BrokerSettings {
    type V = BrokerSettingsView;

    open spec fn view(&self) -> BrokerSettingsView {
        BrokerSettingsView { id: self.id, router: self.router, listener: self.listener@ }
    }
}

/// The broker settings for a listener bound to `listen`.
pub open spec fn broker_settings_for(listen: SocketAddrView) -> BrokerSettingsView {
    BrokerSettingsView {
        id: 0,
        router: RouterSettings {
            max_connections: 100,
            max_outgoing_packet_count: 200,
            max_segment_size: 524288000,
            max_segment_count: 10,
        },
        listener: ListenerView {
            name: "tcp-1"@,
            listen,
            next_connection_delay_ms: 0,
            connection_timeout_ms: 1000,
            max_payload_size: 268435465,
            max_inflight_count: 100,
            dynamic_filters: false,
        },
    }
}

/// Why no broker settings could be built.
#[derive(Debug, Clone)]
pub enum BrokerConfigError {
    /// `host:port` is not an `IP:port` socket address (a host name, say).
    InvalidBindAddress { host: String, port: u16 },
}

/// The message of a refused bind address.
pub open spec fn bind_error_text(host: Seq<char>, port: u16) -> Seq<char> {
    "invalid broker bind address '"@ + host_port_text(host, port) + "' (expected IP:port)"@
}

/// The text of one decimal digit.
fn digit_str(d: u16) -> (r: &'static str)
    requires
        d < 10,
    ensures
        r@ == seq![decimal_digit(d as nat)],
{
    proof {
        reveal_strlit("0");
        reveal_strlit("1");
        reveal_strlit("2");
        reveal_strlit("3");
        reveal_strlit("4");
        reveal_strlit("5");
        reveal_strlit("6");
        reveal_strlit("7");
        reveal_strlit("8");
        reveal_strlit("9");
    }
    if d == 0 {
        "0"
    } else if d == 1 {
        "1"
    } else if d == 2 {
        "2"
    } else if d == 3 {
        "3"
    } else if d == 4 {
        "4"
    } else if d == 5 {
        "5"
    } else if d == 6 {
        "6"
    } else if d == 7 {
        "7"
    } else if d == 8 {
        "8"
    } else {
        "9"
    }
}

fn append_decimal(out: &mut String, n: u16)
    ensures
        final(out)@ == old(out)@ + decimal_text(n as nat),
    decreases n,
{
    if n >= 10 {
        append_decimal(out, n / 10);
    }
    out.append(digit_str(n % 10));
    assert(old(out)@ + decimal_text(n as nat) =~= out@) by {
        if n >= 10 {
            assert(decimal_text(n as nat) == decimal_text((n / 10) as nat).push(
                decimal_digit((n % 10) as nat),
            ));
        }
    }
}

impl BrokerConfigError {
    /// The error's message: `invalid broker bind address 'host:port' (expected IP:port)`.
    pub fn message(&self) -> (r: String)
        ensures
            match self {
                BrokerConfigError::InvalidBindAddress { host, port } => r@ == bind_error_text(
                    host@,
                    *port,
                ),
            },
    {
        match self {
            BrokerConfigError::InvalidBindAddress { host, port } => {
                let mut text = String::from_str("invalid broker bind address '");
                text.append(host.as_str());
                text.append(":");
                append_decimal(&mut text, *port);
                text.append("' (expected IP:port)");
                proof {
                    reveal_strlit(":");
                }
                assert(text@ =~= bind_error_text(host@, *port));
                text
            },
        }
    }
}

/// Builds the broker settings: an MQTT v4 TCP listener on `host:port`.
///
/// `host` must be an IP literal (`127.0.0.1`, or `[::1]` for IPv6): the
/// broker binds a socket address directly, so a host name is refused as bad
/// configuration, with an error rather than a panic.
pub fn broker_config(host: &str, port: u16) -> (r: Result<BrokerSettings, BrokerConfigError>)
    ensures
        match socket_addr_of(host_port_text(host@, port)) {
            Some(a) => r matches Ok(c) && c@ == broker_settings_for(a),
            None => r matches Err(BrokerConfigError::InvalidBindAddress { host: h, port: p }) && h@
                == host@ && p == port,
        },
{
    match socket_addr_from_host_port(host, port) {
        None => Err(BrokerConfigError::InvalidBindAddress { host: String::from_str(host), port }),
        Some(listen) => Ok(
            BrokerSettings {
                id: 0,
                router: RouterSettings {
                    max_connections: 100,
                    max_outgoing_packet_count: 200,
                    max_segment_size: 524288000,
                    max_segment_count: 10,
                },
                listener: ListenerSettings {
                    name: String::from_str("tcp-1"),
                    listen,
                    next_connection_delay_ms: 0,
                    connection_timeout_ms: 1000,
                    max_payload_size: 268435465,
                    max_inflight_count: 100,
                    dynamic_filters: false,
                },
            },
        ),
    }
}

/// With the built-in configuration the broker listens on the loopback
/// address, port 1883.
pub proof fn law_default_broker_listens_on_loopback()
    ensures
        socket_addr_of(host_port_text(default_broker().host, default_broker().port)) == Some(
            SocketAddrView::V4 { octets: seq![127u8, 0u8, 0u8, 1u8], port: 1883 },
        ),
{
    lemma_loopback_text();
    law_ipv4_host_reads_back(seq![127u8, 0u8, 0u8, 1u8], 1883);
}

} // verus!
