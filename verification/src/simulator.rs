//! The Modbus TCP simulator standing in for a real RS485/Modbus gateway:
//! holding register 0 answers each read with an incrementing counter.

use vstd::prelude::*;

verus! {

/// The requests the simulator tells apart. Every other Modbus function code
/// arrives as `Other`.
#[derive(Clone, Copy, Debug, PartialEq, Eq, Structural)]
pub enum ModbusRequest {
    ReadHoldingRegisters { address: u16, count: u16 },
    Other,
}

/// Modbus exception responses that the simulator sends.
#[derive(Clone, Copy, Debug, PartialEq, Eq, Structural)]
pub enum ModbusException {
    IllegalFunction,
    IllegalDataAddress,
}

/// The Modbus exception code of an exception.
pub open spec fn exception_code(e: ModbusException) -> u8 {
    match e {
        ModbusException::IllegalFunction => 1,
        ModbusException::IllegalDataAddress => 2,
    }
}

impl ModbusException {
    /// The code sent on the wire: 0x01 or 0x02.
    pub fn code(&self) -> (r: u8)
        ensures
            r == exception_code(*self),
    {
        match self {
            ModbusException::IllegalFunction => 1,
            ModbusException::IllegalDataAddress => 2,
        }
    }
}

/// The counter value that follows `c`, wrapping from 65535 to 0.
pub open spec fn next_counter(c: u16) -> u16 {
    ((c as int + 1) % 0x1_0000) as u16
}

/// Whether a request is the one read the simulator serves: one holding
/// register at address 0.
pub open spec fn is_counter_read(req: ModbusRequest) -> bool {
    req == (ModbusRequest::ReadHoldingRegisters { address: 0, count: 1 })
}

/// The simulator's answer to `req` when its counter stands at `c`, and the
/// counter afterwards.
pub open spec fn simulator_reply(c: u16, req: ModbusRequest) -> (Result<Seq<u16>, ModbusException>, u16) {
    match req {
        ModbusRequest::ReadHoldingRegisters { address, count } => if address == 0 && count == 1 {
            (Ok(seq![c]), next_counter(c))
        } else {
            (Err(ModbusException::IllegalDataAddress), c)
        },
        ModbusRequest::Other => (Err(ModbusException::IllegalFunction), c),
    }
}

/// The value the counter starts from.
pub open spec fn initial_counter() -> u16 {
    1000
}

/// The simulated device. Its counter is shared by all connections.
pub struct MockService {
    counter: u16,
}

impl MockService {
    /// The value that the next read of register 0 returns.
    pub closed spec fn counter(&self) -> u16 {
        self.counter
    }

    /// A fresh simulator whose first read of register 0 returns 1000.
    pub fn new() -> (r: MockService)
        ensures
            r.counter() == initial_counter(),
    {
        MockService { counter: 1000 }
    }

    /// Answers a request. A read of one holding register at address 0 returns
    /// the counter and advances it by one (wrapping); a read of any other
    /// address or count is an illegal data address; any other function is an
    /// illegal function. Only the served read moves the counter.
    pub fn call(&mut self, req: ModbusRequest) -> (r: Result<Vec<u16>, ModbusException>)
        ensures
            (match r {
                Ok(v) => Ok(v@),
                Err(e) => Err(e),
            }, final(self).counter()) == simulator_reply(old(self).counter(), req),
            r is Ok <==> req == (ModbusRequest::ReadHoldingRegisters { address: 0, count: 1 }),
            r matches Ok(v) ==> v@ == seq![old(self).counter()] && final(self).counter() as int == (
            old(self).counter() as int + 1) % 0x1_0000,
            req matches ModbusRequest::ReadHoldingRegisters { address, count } && !(address == 0
                && count == 1) ==> r == Err::<Vec<u16>, ModbusException>(
                ModbusException::IllegalDataAddress,
            ) && final(self).counter() == old(self).counter(),
            req == ModbusRequest::Other ==> r == Err::<Vec<u16>, ModbusException>(
                ModbusException::IllegalFunction,
            ) && final(self).counter() == old(self).counter(),
    {
        match req {
            ModbusRequest::ReadHoldingRegisters { address, count } => {
                if address == 0 && count == 1 {
                    let val = self.counter;
                    self.counter = if val == 0xffff {
                        0
                    } else {
                        val + 1
                    };
                    let mut regs: Vec<u16> = Vec::new();
                    regs.push(val);
                    assert(regs@ =~= seq![val]);
                    Ok(regs)
                } else {
                    Err(ModbusException::IllegalDataAddress)
                }
            },
            ModbusRequest::Other => Err(ModbusException::IllegalFunction),
        }
    }
}

/// The counter after the simulator has answered `reqs` in order, from `c`.
pub open spec fn counter_after(c: u16, reqs: Seq<ModbusRequest>) -> u16
    decreases reqs.len(),
{
    if reqs.len() == 0 {
        c
    } else {
        counter_after(simulator_reply(c, reqs[0]).1, reqs.drop_first())
    }
}

/// How many of `reqs` are reads of register 0 that the simulator serves.
pub open spec fn served_reads(reqs: Seq<ModbusRequest>) -> nat
    decreases reqs.len(),
{
    if reqs.len() == 0 {
        0
    } else {
        (if is_counter_read(reqs[0]) {
            1nat
        } else {
            0nat
        }) + served_reads(reqs.drop_first())
    }
}

/// Two reads of register 0 in a row return consecutive counter values
/// (modulo 2^16), and the counter moves on by one with each.
pub proof fn law_successive_reads_count_up(c: u16)
    ensures
        ({
            let read = ModbusRequest::ReadHoldingRegisters { address: 0, count: 1 };
            let (r1, c1) = simulator_reply(c, read);
            let (r2, c2) = simulator_reply(c1, read);
            &&& r1 == Ok::<Seq<u16>, ModbusException>(seq![c])
            &&& r2 == Ok::<Seq<u16>, ModbusException>(seq![next_counter(c)])
            &&& c2 == next_counter(next_counter(c))
        }),
{
}

/// Whatever requests arrive, the counter ends up advanced by exactly the
/// number of served reads of register 0 (modulo 2^16): refused requests
/// never move it.
pub proof fn law_counter_counts_served_reads(c: u16, reqs: Seq<ModbusRequest>)
    ensures
        counter_after(c, reqs) as int == (c as int + served_reads(reqs)) % 0x1_0000,
    decreases reqs.len(),
{
    if reqs.len() > 0 {
        let c1 = simulator_reply(c, reqs[0]).1;
        law_counter_counts_served_reads(c1, reqs.drop_first());
        if is_counter_read(reqs[0]) {
            assert(c1 as int == (c as int + 1) % 0x1_0000);
            assert(((c as int + 1) % 0x1_0000 + served_reads(reqs.drop_first())) % 0x1_0000 == (c as int
                + 1 + served_reads(reqs.drop_first())) % 0x1_0000) by (nonlinear_arith);
        } else {
            match reqs[0] {
                ModbusRequest::ReadHoldingRegisters { address, count } => {
                    assert(!(address == 0 && count == 1));
                },
                ModbusRequest::Other => {},
            }
        }
    } else {
        assert(c as int % 0x1_0000 == c as int);
    }
}

/// The register values that the served reads among `reqs` return, in the
/// order the simulator answers them, from counter `c`.
pub open spec fn served_values(c: u16, reqs: Seq<ModbusRequest>) -> Seq<u16>
    decreases reqs.len(),
{
    if reqs.len() == 0 {
        Seq::empty()
    } else {
        let (reply, next) = simulator_reply(c, reqs[0]);
        (match reply {
            Ok(v) => v,
            Err(_) => Seq::empty(),
        }) + served_values(next, reqs.drop_first())
    }
}

/// `k` consecutive counter values from `c`, modulo 2^16.
pub open spec fn counting_from(c: u16, k: nat) -> Seq<u16> {
    Seq::new(k, |j: int| ((c as int + j) % 0x1_0000) as u16)
}

proof fn lemma_mod_shift(a: int, b: int)
    requires
        0 <= a,
        0 <= b,
    ensures
        ((a % 0x1_0000) + b) % 0x1_0000 == (a + b) % 0x1_0000,
{
    assert(((a % 0x1_0000) + b) % 0x1_0000 == (a + b) % 0x1_0000) by (nonlinear_arith)
        requires
            0 <= a,
            0 <= b,
    ;
}

proof fn lemma_mod_distinct(c: int, i: int, j: int)
    requires
        0 <= c,
        0 <= i < j < 0x1_0000,
    ensures
        (c + i) % 0x1_0000 != (c + j) % 0x1_0000,
{
    assert((c + i) % 0x1_0000 != (c + j) % 0x1_0000) by (nonlinear_arith)
        requires
            0 <= c,
            0 <= i < j < 0x1_0000,
    ;
}

/// However requests are interleaved, the served reads return consecutive
/// counter values: the j-th served read returns `(c + j) mod 2^16`.
pub proof fn law_served_reads_count_from(c: u16, reqs: Seq<ModbusRequest>)
    ensures
        served_values(c, reqs) == counting_from(c, served_reads(reqs)),
    decreases reqs.len(),
{
    if reqs.len() > 0 {
        let (reply, next) = simulator_reply(c, reqs[0]);
        let rest = reqs.drop_first();
        law_served_reads_count_from(next, rest);
        let k = served_reads(rest);
        if is_counter_read(reqs[0]) {
            assert(next as int == (c as int + 1) % 0x1_0000);
            assert forall|j: int| 0 <= j < k implies #[trigger] counting_from(next, k)[j] == counting_from(
                c,
                k + 1,
            )[j + 1] by {
                lemma_mod_shift(c as int + 1, j);
            }
            assert(served_values(c, reqs) =~= counting_from(c, k + 1));
        } else {
            match reqs[0] {
                ModbusRequest::ReadHoldingRegisters { address, count } => {
                    assert(!(address == 0 && count == 1));
                },
                ModbusRequest::Other => {},
            }
            assert(served_values(c, reqs) =~= served_values(next, rest));
        }
    } else {
        assert(served_values(c, reqs) =~= counting_from(c, 0));
    }
}

/// Up to 65536 served reads never return the same value twice.
pub proof fn law_served_values_distinct(c: u16, reqs: Seq<ModbusRequest>)
    requires
        served_reads(reqs) <= 0x1_0000,
    ensures
        forall|i: int, j: int|
            0 <= i < j < served_values(c, reqs).len() ==> #[trigger] served_values(c, reqs)[i]
                != #[trigger] served_values(c, reqs)[j],
{
    law_served_reads_count_from(c, reqs);
    assert forall|i: int, j: int| 0 <= i < j < served_values(c, reqs).len() implies #[trigger] served_values(c, reqs)[i]
        != #[trigger] served_values(c, reqs)[j] by {
        lemma_mod_distinct(c as int, i, j);
    }
}

/// A fresh simulator answers its served reads with 1000, 1001, 1002, ...
/// (modulo 2^16), whichever connections they arrive on.
pub proof fn law_fresh_simulator_counts_from_1000(reqs: Seq<ModbusRequest>)
    ensures
        served_values(initial_counter(), reqs) == counting_from(1000, served_reads(reqs)),
{
    law_served_reads_count_from(initial_counter(), reqs);
}

/// Only a read of one holding register at address 0 is answered with
/// registers: it returns the counter alone and moves the counter on by one
/// (wrapping). A read of any other address or count is an illegal data
/// address, any other function an illegal function; neither moves the counter.
pub proof fn law_simulator_answers(c: u16, req: ModbusRequest)
    ensures
        ({
            let (reply, next) = simulator_reply(c, req);
            &&& (reply is Ok <==> req == (ModbusRequest::ReadHoldingRegisters { address: 0, count: 1 }))
            &&& (reply matches Ok(v) ==> v == seq![c] && next as int == (c as int + 1) % 0x1_0000)
            &&& (req matches ModbusRequest::ReadHoldingRegisters { address, count } && !(address == 0
                && count == 1) ==> reply == Err::<Seq<u16>, ModbusException>(
                ModbusException::IllegalDataAddress,
            ) && next == c)
            &&& (req == ModbusRequest::Other ==> reply == Err::<Seq<u16>, ModbusException>(
                ModbusException::IllegalFunction,
            ) && next == c)
        }),
{
}

} // verus!
