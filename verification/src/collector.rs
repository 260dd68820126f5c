//! The periodic collector: it polls one holding register of a Modbus TCP
//! gateway and decides, for every reply, what becomes of it.

use vstd::prelude::*;

use crate::address::{host_port_text, socket_addr_from_host_port, socket_addr_of, SocketAddrView, SocketAddress};
use crate::address_laws::{law_ipv4_host_reads_back, lemma_loopback_text};
use crate::config::default_modbus;
use crate::simulator::{
    counting_from, exception_code, initial_counter, simulator_reply, ModbusException, ModbusRequest,
};

verus! {

/// What one poll of the gateway brought back.
#[derive(Debug, Clone)]
pub enum ReadOutcome {
    /// The registers that were read.
    Registers(Vec<u16>),
    /// The gateway answered with a Modbus exception of this code.
    Exception(u8),
    /// The request did not complete (connection or protocol failure).
    TransportError,
}

pub enum ReadOutcomeView {
    Registers(Seq<u16>),
    Exception(u8),
    TransportError,
}

impl View for ReadOutcome {
    type V = ReadOutcomeView;

    open spec fn view(&self) -> ReadOutcomeView {
        match self {
            ReadOutcome::Registers(v) => ReadOutcomeView::Registers(v@),
            ReadOutcome::Exception(c) => ReadOutcomeView::Exception(*c),
            ReadOutcome::TransportError => ReadOutcomeView::TransportError,
        }
    }
}

/// What the collector does with a reply before it waits for the next poll.
#[derive(Clone, Copy, Debug, PartialEq, Eq, Structural)]
pub enum CollectorAction {
    /// Hand the register value on (to the historian and the MQTT publisher).
    Deliver(u16),
    /// The read succeeded but carried no register: nothing to hand on.
    Nothing,
    /// Log the Modbus exception as a warning.
    WarnException(u8),
    /// Log the failed request as an error.
    ReportError,
}

/// The collector's decision for a reply.
pub open spec fn action_for(outcome: ReadOutcomeView) -> CollectorAction {
    match outcome {
        ReadOutcomeView::Registers(regs) => if regs.len() > 0 {
            CollectorAction::Deliver(regs[0])
        } else {
            CollectorAction::Nothing
        },
        ReadOutcomeView::Exception(code) => CollectorAction::WarnException(code),
        ReadOutcomeView::TransportError => CollectorAction::ReportError,
    }
}

/// Why the collector could not start.
#[derive(Debug, Clone)]
pub enum CollectorError {
    /// `host:port` is not an `IP:port` socket address.
    InvalidAddress,
}

/// A collector polling one holding register of the gateway at `target`.
#[derive(Debug, Clone)]
pub struct Collector {
    pub target: SocketAddress,
    pub register: u16,
    pub interval_ms: u64,
}

impl Collector {
    /// A collector for the gateway at `host:port`. The address is read as a
    /// socket address (no name resolution); anything else is refused.
    pub fn new(host: &str, port: u16, register: u16, interval_ms: u64) -> (r: Result<
        Collector,
        CollectorError,
    >)
        ensures
            match socket_addr_of(host_port_text(host@, port)) {
                Some(a) => r matches Ok(c) && c.target@ == a && c.register == register
                    && c.interval_ms == interval_ms,
                None => r matches Err(CollectorError::InvalidAddress),
            },
    {
        match socket_addr_from_host_port(host, port) {
            Some(target) => Ok(Collector { target, register, interval_ms }),
            None => Err(CollectorError::InvalidAddress),
        }
    }

    /// The request of every poll: one holding register at the configured address.
    pub fn request(&self) -> (r: ModbusRequest)
        ensures
            r == (ModbusRequest::ReadHoldingRegisters { address: self.register, count: 1 }),
    {
        ModbusRequest::ReadHoldingRegisters { address: self.register, count: 1 }
    }

    /// What becomes of a reply: the first register of a successful read is
    /// delivered; a read without registers delivers nothing; an exception is
    /// logged as a warning and a failed request as an error. Polling goes on
    /// after each of them.
    pub fn on_reply(&self, outcome: &ReadOutcome) -> (r: CollectorAction)
        ensures
            r == action_for(outcome@),
            outcome matches ReadOutcome::Exception(code) ==> r == CollectorAction::WarnException(*code),
            outcome matches ReadOutcome::Registers(regs) ==> (regs.len() > 0 ==> r
                == CollectorAction::Deliver(regs[0])),
            outcome matches ReadOutcome::Registers(regs) && regs.len() == 0 ==> r
                == CollectorAction::Nothing,
            outcome matches ReadOutcome::TransportError ==> r == CollectorAction::ReportError,
    {
        match outcome {
            ReadOutcome::Registers(regs) => {
                if regs.len() > 0 {
                    CollectorAction::Deliver(regs[0])
                } else {
                    CollectorAction::Nothing
                }
            },
            ReadOutcome::Exception(code) => CollectorAction::WarnException(*code),
            ReadOutcome::TransportError => CollectorAction::ReportError,
        }
    }
}

/// What the collector sees of a simulator reply.
pub open spec fn outcome_of(reply: Result<Seq<u16>, ModbusException>) -> ReadOutcomeView {
    match reply {
        Ok(regs) => ReadOutcomeView::Registers(regs),
        Err(e) => ReadOutcomeView::Exception(exception_code(e)),
    }
}

/// A collector polling register 0 of the simulator delivers exactly the
/// simulator's counter, and each poll moves the counter on by one; polling
/// any other register delivers nothing and leaves the counter where it was.
pub proof fn law_collector_reads_simulator_counter(register: u16, counter: u16)
    ensures
        ({
            let req = ModbusRequest::ReadHoldingRegisters { address: register, count: 1 };
            let (reply, next) = simulator_reply(counter, req);
            if register == 0 {
                &&& action_for(outcome_of(reply)) == CollectorAction::Deliver(counter)
                &&& next as int == (counter as int + 1) % 0x1_0000
            } else {
                &&& action_for(outcome_of(reply)) == CollectorAction::WarnException(2)
                &&& next == counter
            }
        }),
{
}

/// With the built-in configuration the collector polls register 0 of the
/// simulator at the loopback address, port 5020, every 2000 ms.
pub proof fn law_default_collector_polls_simulator()
    ensures
        socket_addr_of(host_port_text(default_modbus().host, default_modbus().port)) == Some(
            SocketAddrView::V4 { octets: seq![127u8, 0u8, 0u8, 1u8], port: 5020 },
        ),
        default_modbus().register == 0,
        default_modbus().interval_ms == 2000,
{
    lemma_loopback_text();
    law_ipv4_host_reads_back(seq![127u8, 0u8, 0u8, 1u8], 5020);
}

/// The actions of `n` successive polls of register `register` of the
/// simulator, its counter starting at `c`.
pub open spec fn poll_actions(register: u16, c: u16, n: nat) -> Seq<CollectorAction>
    decreases n,
{
    if n == 0 {
        Seq::empty()
    } else {
        let (reply, next) = simulator_reply(
            c,
            ModbusRequest::ReadHoldingRegisters { address: register, count: 1 },
        );
        seq![action_for(outcome_of(reply))] + poll_actions(register, next, (n - 1) as nat)
    }
}

/// Successive polls of register 0 deliver successive counter values, one per
/// poll, in order: the j-th poll delivers `(c + j) mod 2^16`.
pub proof fn law_polls_deliver_consecutive_values(c: u16, n: nat)
    ensures
        poll_actions(0, c, n) == Seq::new(
            n,
            |j: int| CollectorAction::Deliver(counting_from(c, n)[j]),
        ),
    decreases n,
{
    if n > 0 {
        let next = simulator_reply(c, ModbusRequest::ReadHoldingRegisters { address: 0, count: 1 }).1;
        law_polls_deliver_consecutive_values(next, (n - 1) as nat);
        assert(next as int == (c as int + 1) % 0x1_0000);
        assert forall|j: int| 0 <= j < n - 1 implies #[trigger] counting_from(next, (n - 1) as nat)[j]
            == counting_from(c, n)[j + 1] by {
            assert(((c as int + 1) % 0x1_0000 + j) % 0x1_0000 == (c as int + 1 + j) % 0x1_0000)
                by (nonlinear_arith)
                requires
                    0 <= c,
                    0 <= j,
            ;
        }
        assert(poll_actions(0, c, n) =~= Seq::new(
            n,
            |j: int| CollectorAction::Deliver(counting_from(c, n)[j]),
        ));
    } else {
        assert(poll_actions(0, c, n) =~= Seq::new(
            n,
            |j: int| CollectorAction::Deliver(counting_from(c, n)[j]),
        ));
    }
}

/// A collector polling register 0 of a fresh simulator, with no other
/// client, delivers 1000, 1001, 1002, ... (modulo 2^16), one value per poll.
pub proof fn law_fresh_simulator_delivers_from_1000(n: nat)
    ensures
        poll_actions(0, initial_counter(), n) == Seq::new(
            n,
            |j: int| CollectorAction::Deliver(counting_from(1000, n)[j]),
        ),
{
    law_polls_deliver_consecutive_values(initial_counter(), n);
}

/// Every Modbus exception, whatever its code, is warned about with that
/// code; a read delivers its first register, and only a read with a register
/// delivers anything; an empty read does nothing; a failed request is
/// reported as an error.
pub proof fn law_every_reply_is_acted_on(outcome: ReadOutcomeView)
    ensures
        outcome matches ReadOutcomeView::Exception(code) ==> action_for(outcome)
            == CollectorAction::WarnException(code),
        outcome matches ReadOutcomeView::Registers(regs) ==> (regs.len() > 0 ==> action_for(outcome)
            == CollectorAction::Deliver(regs[0])),
        outcome matches ReadOutcomeView::Registers(regs) && regs.len() == 0 ==> action_for(outcome)
            == CollectorAction::Nothing,
        outcome matches ReadOutcomeView::TransportError ==> action_for(outcome)
            == CollectorAction::ReportError,
        action_for(outcome) matches CollectorAction::Deliver(v) ==> (outcome matches ReadOutcomeView::Registers(
            regs,
        ) && regs.len() > 0 && v == regs[0]),
{
}

} // verus!
