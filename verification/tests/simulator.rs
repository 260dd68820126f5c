use iot_gateway::simulator::{MockService, ModbusException, ModbusRequest};

fn read(address: u16, count: u16) -> ModbusRequest {
    ModbusRequest::ReadHoldingRegisters { address, count }
}

#[test]
fn register_zero_counts_up_from_1000() {
    let mut sim = MockService::new();
    assert_eq!(sim.call(read(0, 1)), Ok(vec![1000]));
    assert_eq!(sim.call(read(0, 1)), Ok(vec![1001]));
    assert_eq!(sim.call(read(0, 1)), Ok(vec![1002]));
}

#[test]
fn other_addresses_and_counts_are_illegal_data_addresses() {
    let mut sim = MockService::new();
    assert_eq!(sim.call(read(1, 1)), Err(ModbusException::IllegalDataAddress));
    assert_eq!(sim.call(read(0, 2)), Err(ModbusException::IllegalDataAddress));
    assert_eq!(sim.call(read(0, 0)), Err(ModbusException::IllegalDataAddress));
    // refused reads do not move the counter
    assert_eq!(sim.call(read(0, 1)), Ok(vec![1000]));
}

#[test]
fn other_functions_are_illegal_functions() {
    let mut sim = MockService::new();
    assert_eq!(sim.call(ModbusRequest::Other), Err(ModbusException::IllegalFunction));
    assert_eq!(sim.call(read(0, 1)), Ok(vec![1000]));
}

#[test]
fn counter_wraps_after_65535() {
    let mut sim = MockService::new();
    for expected in 1000u32..=65535 {
        assert_eq!(sim.call(read(0, 1)), Ok(vec![expected as u16]));
    }
    assert_eq!(sim.call(read(0, 1)), Ok(vec![0]));
    assert_eq!(sim.call(read(0, 1)), Ok(vec![1]));
}

#[test]
fn exception_codes_are_the_modbus_codes() {
    assert_eq!(ModbusException::IllegalFunction.code(), 0x01);
    assert_eq!(ModbusException::IllegalDataAddress.code(), 0x02);
}

#[test]
fn served_reads_return_consecutive_values_whatever_comes_between() {
    let mut sim = MockService::new();
    let mut served = Vec::new();
    let requests = [read(0, 1), ModbusRequest::Other, read(0, 1), read(5, 1), read(0, 1), read(0, 3)];
    for req in requests {
        if let Ok(regs) = sim.call(req) {
            served.extend(regs);
        }
    }
    assert_eq!(served, vec![1000, 1001, 1002]);
}
