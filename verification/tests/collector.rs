use iot_gateway::address::SocketAddress;
use iot_gateway::collector::{Collector, CollectorAction, CollectorError, ReadOutcome};
use iot_gateway::simulator::{MockService, ModbusRequest};

#[test]
fn collector_targets_the_configured_endpoint() {
    let c = Collector::new("127.0.0.1", 5020, 0, 2000).expect("valid endpoint");
    assert_eq!(c.register, 0);
    assert_eq!(c.interval_ms, 2000);
    match &c.target {
        SocketAddress::V4 { octets, port } => {
            assert_eq!(*octets, vec![127, 0, 0, 1]);
            assert_eq!(*port, 5020);
        }
        SocketAddress::V6 { .. } => panic!("expected IPv4"),
    }
    assert_eq!(c.request(), ModbusRequest::ReadHoldingRegisters { address: 0, count: 1 });
}

#[test]
fn collector_refuses_host_names() {
    assert!(matches!(
        Collector::new("gateway.local", 5020, 0, 2000),
        Err(CollectorError::InvalidAddress)
    ));
}

#[test]
fn replies_become_actions() {
    let c = Collector::new("127.0.0.1", 5020, 3, 100).expect("valid endpoint");
    assert_eq!(c.request(), ModbusRequest::ReadHoldingRegisters { address: 3, count: 1 });
    assert_eq!(c.on_reply(&ReadOutcome::Registers(vec![42, 7])), CollectorAction::Deliver(42));
    assert_eq!(c.on_reply(&ReadOutcome::Registers(vec![])), CollectorAction::Nothing);
    assert_eq!(c.on_reply(&ReadOutcome::Exception(2)), CollectorAction::WarnException(2));
    assert_eq!(c.on_reply(&ReadOutcome::TransportError), CollectorAction::ReportError);
}

#[test]
fn collector_polling_the_simulator_delivers_its_counter() {
    let c = Collector::new("127.0.0.1", 5020, 0, 2000).expect("valid endpoint");
    let mut sim = MockService::new();
    for expected in [1000u16, 1001, 1002] {
        let outcome = match sim.call(c.request()) {
            Ok(regs) => ReadOutcome::Registers(regs),
            Err(e) => ReadOutcome::Exception(e.code()),
        };
        assert_eq!(c.on_reply(&outcome), CollectorAction::Deliver(expected));
    }
}

#[test]
fn collector_polling_another_register_gets_an_exception() {
    let c = Collector::new("127.0.0.1", 5020, 1, 2000).expect("valid endpoint");
    let mut sim = MockService::new();
    let outcome = match sim.call(c.request()) {
        Ok(regs) => ReadOutcome::Registers(regs),
        Err(e) => ReadOutcome::Exception(e.code()),
    };
    assert_eq!(c.on_reply(&outcome), CollectorAction::WarnException(2));
}

#[test]
fn default_configuration_polls_the_local_simulator() {
    let cfg = iot_gateway::config::Config::default();
    let c = Collector::new(&cfg.modbus.host, cfg.modbus.port, cfg.modbus.register, cfg.modbus.interval_ms)
        .expect("the default endpoint is an IP literal");
    assert_eq!(c.register, 0);
    assert_eq!(c.interval_ms, 2000);
    match &c.target {
        SocketAddress::V4 { octets, port } => {
            assert_eq!(*octets, vec![127, 0, 0, 1]);
            assert_eq!(*port, 5020);
        }
        SocketAddress::V6 { .. } => panic!("expected IPv4"),
    }
}

#[test]
fn polling_a_fresh_simulator_delivers_1000_upwards() {
    let c = Collector::new("127.0.0.1", 5020, 0, 2000).expect("valid endpoint");
    let mut sim = MockService::new();
    let mut delivered = Vec::new();
    for _ in 0..5 {
        let outcome = match sim.call(c.request()) {
            Ok(regs) => ReadOutcome::Registers(regs),
            Err(e) => ReadOutcome::Exception(e.code()),
        };
        if let CollectorAction::Deliver(v) = c.on_reply(&outcome) {
            delivered.push(v);
        }
    }
    assert_eq!(delivered, vec![1000, 1001, 1002, 1003, 1004]);
}
