use iot_gateway::address::SocketAddress;
use iot_gateway::broker::{broker_config, BrokerConfigError};

#[test]
fn broker_config_accepts_ip_literal() {
    assert!(broker_config("127.0.0.1", 1883).is_ok());
}

#[test]
fn broker_config_rejects_non_ip_host_without_panicking() {
    // A hostname is bad configuration for a direct SocketAddr bind; it must
    // surface as Err, not panic.
    assert!(broker_config("localhost", 1883).is_err());
    assert!(broker_config("not-an-ip", 1883).is_err());
}

#[test]
fn broker_settings_carry_the_fixed_limits_and_the_bind_address() {
    let cfg = broker_config("127.0.0.1", 1883).expect("valid bind address");
    assert_eq!(cfg.id, 0);
    assert_eq!(cfg.router.max_connections, 100);
    assert_eq!(cfg.router.max_outgoing_packet_count, 200);
    assert_eq!(cfg.router.max_segment_size, 524288000);
    assert_eq!(cfg.router.max_segment_count, 10);
    assert_eq!(cfg.listener.name, "tcp-1");
    assert_eq!(cfg.listener.next_connection_delay_ms, 0);
    assert_eq!(cfg.listener.connection_timeout_ms, 1000);
    assert_eq!(cfg.listener.max_payload_size, 268435465);
    assert_eq!(cfg.listener.max_inflight_count, 100);
    assert!(!cfg.listener.dynamic_filters);
    match cfg.listener.listen {
        SocketAddress::V4 { octets, port } => {
            assert_eq!(octets, vec![127, 0, 0, 1]);
            assert_eq!(port, 1883);
        }
        SocketAddress::V6 { .. } => panic!("expected an IPv4 listener"),
    }
}

#[test]
fn broker_config_binds_ipv6_literal() {
    let cfg = broker_config("[::1]", 2883).expect("valid bind address");
    match cfg.listener.listen {
        SocketAddress::V6 { segments, scope_id, port } => {
            assert_eq!(segments, vec![0, 0, 0, 0, 0, 0, 0, 1]);
            assert_eq!(scope_id, 0);
            assert_eq!(port, 2883);
        }
        SocketAddress::V4 { .. } => panic!("expected an IPv6 listener"),
    }
}

#[test]
fn broker_config_error_names_the_address() {
    match broker_config("broker.local", 1884) {
        Err(BrokerConfigError::InvalidBindAddress { host, port }) => {
            assert_eq!(host, "broker.local");
            assert_eq!(port, 1884);
        }
        Ok(_) => panic!("a host name must be refused"),
    }
}

#[test]
fn broker_config_rejects_host_with_port() {
    assert!(broker_config("127.0.0.1:1883", 1883).is_err());
    assert!(broker_config("::1", 1883).is_err());
    assert!(broker_config("", 1883).is_err());
}

#[test]
fn default_configuration_binds_the_broker_to_loopback() {
    let cfg = iot_gateway::config::Config::default();
    let settings = broker_config(&cfg.broker.host, cfg.broker.port).expect("default host is an IP literal");
    match settings.listener.listen {
        SocketAddress::V4 { octets, port } => {
            assert_eq!(octets, vec![127, 0, 0, 1]);
            assert_eq!(port, 1883);
        }
        SocketAddress::V6 { .. } => panic!("expected an IPv4 listener"),
    }
}

#[test]
fn broker_config_error_message_names_the_address() {
    match broker_config("localhost", 1883) {
        Err(e) => assert_eq!(
            e.message(),
            "invalid broker bind address 'localhost:1883' (expected IP:port)"
        ),
        Ok(_) => panic!("a host name must be refused"),
    }
    match broker_config("", 0) {
        Err(e) => assert_eq!(e.message(), "invalid broker bind address ':0' (expected IP:port)"),
        Ok(_) => panic!("an empty host must be refused"),
    }
}
