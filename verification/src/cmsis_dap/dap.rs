//! The debug access port engine: connects SWD or JTAG and performs DP/AP
//! register transfers with wait retries, value matching and block transfers.

use vstd::prelude::*;
use crate::cmsis_dap::port::{JTAGAccessPort, SWDAccessPort, SWJAccessPort};
use crate::cmsis_dap::types::{
    AbortToken, ConnectMode, JTAGTransferAck, Pins, Register, SWDTransferAck, TransferAck, TransferStatus,
};
use crate::bytes::{spec_splice, spec_u32_bytes, spec_u32_le, read_u32_le, write_u32_le, u32_to_le_bytes};

verus! {

/// The parity (number of one bits, modulo 2) of `v`.
pub open spec fn spec_parity(v: nat) -> nat
    decreases v,
{
    if v == 0 {
        0
    } else {
        ((v % 2) + spec_parity(v / 2)) % 2
    }
}

/// The parity of a 32-bit word.
pub fn parity_u32(v: u32) -> (r: u8)
    ensures
        r == spec_parity(v as nat),
        r <= 1,
{
    let mut x = v;
    let mut acc: u8 = 0;
    while x > 0
        invariant
            acc <= 1,
            (acc + spec_parity(x as nat)) % 2 == spec_parity(v as nat),
        decreases x,
    {
        assert(spec_parity(x as nat) == ((x as nat % 2) + spec_parity(x as nat / 2)) % 2);
        acc = (acc + (x % 2) as u8) % 2;
        x = x / 2;
    }
    assert(spec_parity(0) == 0);
    acc
}

/// The SWD request byte for an access to `reg`: start bit, APnDP, RnW, the
/// two address bits, the parity of those four, stop bit 0 and park bit 1.
pub open spec fn spec_swd_request(reg: Register, read: bool) -> u8 {
    let ap: u8 = if reg.ap { 1 } else { 0 };
    let rnw: u8 = if read { 1 } else { 0 };
    let a2: u8 = reg.address & 1;
    let a3: u8 = (reg.address >> 1) & 1;
    let parity: u8 = ((ap + rnw + a2 + a3) % 2) as u8;
    (0x81u8 | (ap << 1) | (rnw << 2) | (a2 << 3) | (a3 << 4) | (parity << 5)) as u8
}

/// SWD request bytes.
pub struct Command {}

impl Command {
    fn request(register: Register, read: bool) -> (r: u8)
        ensures
            r == spec_swd_request(register, read),
    {
        let ap: u8 = if register.ap { 1 } else { 0 };
        let rnw: u8 = if read { 1 } else { 0 };
        let addr: u8 = register.address;
        let a2: u8 = addr & 1;
        let a3: u8 = (addr >> 1) & 1;
        assert(a2 <= 1 && a3 <= 1) by (bit_vector)
            requires
                a2 == addr & 1,
                a3 == (addr >> 1) & 1,
        ;
        let parity: u8 = (ap + rnw + a2 + a3) % 2;
        0x81u8 | (ap << 1) | (rnw << 2) | (a2 << 3) | (a3 << 4) | (parity << 5)
    }

    /// The request byte of a write to `register`.
    pub fn write(register: Register) -> (r: u8)
        ensures
            r == spec_swd_request(register, false),
    {
        Self::request(register, false)
    }

    /// The request byte of a read of `register`.
    pub fn read(register: Register) -> (r: u8)
        ensures
            r == spec_swd_request(register, true),
    {
        Self::request(register, true)
    }
}

/// An SWD request byte has its start and park bits set, its stop bit clear,
/// and even parity over APnDP, RnW, A2, A3 and the parity bit; those four
/// bits are the register's and the access direction's.
pub proof fn lemma_swd_request_well_formed(reg: Register, read: bool)
    ensures
        ({
            let b = spec_swd_request(reg, read);
            &&& b & 0x81 == 0x81
            &&& b & 0x40 == 0
            &&& ((b >> 1) & 1 == 1) == reg.ap
            &&& ((b >> 2) & 1 == 1) == read
            &&& (b >> 3) & 3 == reg.address & 3
            &&& ((b >> 1) & 1) ^ ((b >> 2) & 1) ^ ((b >> 3) & 1) ^ ((b >> 4) & 1) ^ ((b >> 5) & 1) == 0
        }),
{
    let ap: u8 = if reg.ap { 1 } else { 0 };
    let rnw: u8 = if read { 1 } else { 0 };
    let addr = reg.address;
    let a2: u8 = addr & 1;
    let a3: u8 = (addr >> 1) & 1;
    assert(a2 <= 1 && a3 <= 1) by (bit_vector)
        requires
            a2 == addr & 1,
            a3 == (addr >> 1) & 1,
    ;
    let parity: u8 = ((ap + rnw + a2 + a3) % 2) as u8;
    assert(parity == ap ^ rnw ^ a2 ^ a3) by (bit_vector)
        requires
            ap <= 1,
            rnw <= 1,
            a2 <= 1,
            a3 <= 1,
            parity == (ap + rnw + a2 + a3) % 2,
    ;
    let b = (0x81u8 | (ap << 1) | (rnw << 2) | (a2 << 3) | (a3 << 4) | (parity << 5)) as u8;
    assert({
        &&& b & 0x81 == 0x81
        &&& b & 0x40 == 0
        &&& (b >> 1) & 1 == ap
        &&& (b >> 2) & 1 == rnw
        &&& (b >> 3) & 3 == addr & 3
        &&& ((b >> 1) & 1) ^ ((b >> 2) & 1) ^ ((b >> 3) & 1) ^ ((b >> 4) & 1) ^ ((b >> 5) & 1) == 0
    }) by (bit_vector)
        requires
            ap <= 1,
            rnw <= 1,
            a2 == addr & 1,
            a3 == (addr >> 1) & 1,
            parity == ap ^ rnw ^ a2 ^ a3,
            b == (0x81u8 | (ap << 1) | (rnw << 2) | (a2 << 3) | (a3 << 4) | (parity << 5)),
    ;
}

/// Whether the debug port is connected, and by which protocol.
#[derive(Clone, Copy, Debug, PartialEq, Eq, Structural)]
pub enum ConnectionState {
    Disconnected,
    SWD,
    JTAG,
}

/// SWD timing configuration.
#[derive(Clone, Copy, Debug, PartialEq, Eq, Structural)]
pub struct SWD {
    pub turnaround: usize,
    pub always_data_phase: bool,
}

impl Default for SWD {
    fn default() -> (r: Self)
        ensures
            r.turnaround == 1,
            !r.always_data_phase,
    {
        Self { turnaround: 1, always_data_phase: false }
    }
}

/// The sum of the first `n` IR lengths.
pub open spec fn spec_ir_sum(lens: Seq<u8>, n: int) -> int
    decreases n,
{
    if n <= 0 {
        0
    } else {
        spec_ir_sum(lens, n - 1) + lens[n - 1]
    }
}

proof fn lemma_ir_sum_bounds(lens: Seq<u8>, n: int)
    requires
        0 <= n <= lens.len(),
    ensures
        0 <= spec_ir_sum(lens, n) <= 255 * n,
    decreases n,
{
    if n > 0 {
        lemma_ir_sum_bounds(lens, n - 1);
    }
}

proof fn lemma_ir_sum_mono(lens: Seq<u8>, m: int, n: int)
    requires
        0 <= m <= n <= lens.len(),
    ensures
        spec_ir_sum(lens, m) <= spec_ir_sum(lens, n),
    decreases n - m,
{
    if m < n {
        lemma_ir_sum_mono(lens, m, n - 1);
    }
}

/// The JTAG scan chain: the IR length of each device and the IR bits that
/// come before each device.
#[derive(Clone, Copy)]
pub struct JTAG {
    pub ir_lengths: [u8; 64],
    pub device_count: usize,
    pub ir_before_bits: [u16; 64],
    pub ir_total_bits: usize,
}

impl Default for JTAG {
    fn default() -> (r: Self)
        ensures
            r.wf(),
            r.selectable(),
            r.device_count == 0,
    {
        let r = Self { ir_lengths: [0u8; 64], device_count: 0, ir_before_bits: [0u16; 64], ir_total_bits: 0 };
        proof {
            assert(r.ir_before_bits@[0] == 0);
        }
        r
    }
}

impl JTAG {
    /// The first device has no IR bits before it.
    pub open spec fn base_ok(&self) -> bool {
        self.ir_before_bits@[0] == 0
    }

    /// The chain positions agree with the IR lengths.
    pub open spec fn wf(&self) -> bool {
        &&& self.base_ok()
        &&& self.device_count <= 64
        &&& forall|i: int| 0 <= i < self.device_count ==> #[trigger] self.ir_before_bits@[i] == spec_ir_sum(
            self.ir_lengths@,
            i,
        )
        &&& self.ir_total_bits == spec_ir_sum(self.ir_lengths@, self.device_count as int)
    }

    /// Every device of the chain can be selected: a device with no IR bits
    /// after it has an IR of one to eight bits, so that its last bit can be
    /// taken from the 8-bit instruction.
    pub open spec fn selectable(&self) -> bool {
        forall|i: int|
            0 <= i < self.device_count ==> (spec_ir_sum(self.ir_lengths@, self.device_count as int)
                == spec_ir_sum(self.ir_lengths@, i + 1) ==> 1 <= #[trigger] self.ir_lengths@[i] <= 8)
    }

    /// The IR bits before device `i`.
    pub open spec fn before_bits(&self, i: int) -> int {
        self.ir_before_bits@[i] as int
    }

    /// The IR bits of the whole chain.
    pub open spec fn total_bits(&self) -> int {
        self.ir_total_bits as int
    }

    /// Recomputes the chain positions from the IR lengths.
    pub fn recalculate(&mut self)
        requires
            old(self).base_ok(),
            1 <= old(self).device_count <= 64,
        ensures
            final(self).wf(),
            final(self).ir_lengths == old(self).ir_lengths,
            final(self).device_count == old(self).device_count,
            forall|i: int| 0 <= i < final(self).device_count ==> final(self).before_bits(i) == spec_ir_sum(
                final(self).ir_lengths@,
                i,
            ),
            final(self).total_bits() == spec_ir_sum(final(self).ir_lengths@, final(self).device_count as int),
    {
        let count = self.device_count;
        let mut i: usize = 1;
        while i < count
            invariant
                1 <= i <= count,
                count == self.device_count,
                count <= 64,
                self.ir_lengths == old(self).ir_lengths,
                self.device_count == old(self).device_count,
                self.ir_before_bits@[0] == 0,
                forall|k: int| 0 <= k < i ==> #[trigger] self.ir_before_bits@[k] == spec_ir_sum(self.ir_lengths@, k),
            decreases count - i,
        {
            proof {
                lemma_ir_sum_bounds(self.ir_lengths@, i as int);
            }
            let v: u16 = self.ir_before_bits[i - 1] + (self.ir_lengths[i - 1] as u16);
            self.ir_before_bits[i] = v;
            i = i + 1;
        }
        proof {
            lemma_ir_sum_bounds(self.ir_lengths@, count as int);
        }
        self.ir_total_bits = (self.ir_before_bits[count - 1] as usize) + (self.ir_lengths[count - 1] as usize);
    }

    /// An operator for device `index` of the chain, if there is one.
    pub fn try_make_operator<'a, P>(&self, index: usize, port: &'a mut P) -> (r: Option<JTAGOperator<'a, P>>)
        requires
            self.wf(),
        ensures
            match r {
                Some(op) => index < self.device_count && op.ir_size_bits == self.ir_lengths@[index as int]
                    && op.ir_before_bits == spec_ir_sum(self.ir_lengths@, index as int)
                    && op.ir_after_bits == spec_ir_sum(self.ir_lengths@, self.device_count as int)
                        - spec_ir_sum(self.ir_lengths@, index + 1)
                    && op.index == index && op.count == self.device_count
                    && op.instruction == JTAGInstruction::Bypass && op.wire@ == Seq::<WireEvent>::empty()
                    && (self.selectable() ==> op.wf()),
                None => index >= self.device_count,
            },
            r is None ==> *final(port) == *old(port),
    {
        if index < self.device_count {
            let ir_size_bits = self.ir_lengths[index] as usize;
            let ir_before_bits = self.ir_before_bits[index] as usize;
            proof {
                lemma_ir_sum_mono(self.ir_lengths@, index + 1, self.device_count as int);
                lemma_ir_sum_bounds(self.ir_lengths@, self.device_count as int);
                assert(spec_ir_sum(self.ir_lengths@, index + 1) == spec_ir_sum(self.ir_lengths@, index as int)
                    + self.ir_lengths@[index as int]);
            }
            Some(JTAGOperator {
                ir_size_bits,
                ir_before_bits,
                index,
                port,
                ir_after_bits: self.ir_total_bits - ir_size_bits - ir_before_bits,
                count: self.device_count,
                instruction: JTAGInstruction::Bypass,
                wire: Ghost(Seq::empty()),
            })
        } else {
            None
        }
    }
}

/// The JTAG-DP instruction register values.
#[derive(Clone, Copy, Debug, PartialEq, Eq, Structural)]
pub enum JTAGInstruction {
    Abort,
    DebugPort,
    AccessPort,
    IDCode,
    Bypass,
}

impl JTAGInstruction {
    pub open spec fn spec_value(self) -> u8 {
        match self {
            JTAGInstruction::Abort => 0xF8,
            JTAGInstruction::DebugPort => 0xFA,
            JTAGInstruction::AccessPort => 0xFB,
            JTAGInstruction::IDCode => 0xFE,
            JTAGInstruction::Bypass => 0xFF,
        }
    }

    pub fn value(self) -> (r: u8)
        ensures
            r == self.spec_value(),
    {
        match self {
            JTAGInstruction::Abort => 0xF8,
            JTAGInstruction::DebugPort => 0xFA,
            JTAGInstruction::AccessPort => 0xFB,
            JTAGInstruction::IDCode => 0xFE,
            JTAGInstruction::Bypass => 0xFF,
        }
    }
}

/// The statuses a JTAG DP/AP access can end in: success, or the JTAG
/// acknowledge that stopped it.
pub open spec fn spec_is_jtag_status(s: TransferStatus) -> bool {
    ||| s == TransferStatus::spec_ok()
    ||| (s.ack is JTAG && !s.ack.spec_is_ok() && !s.protocol_error && !s.value_mismatch)
}

/// The statuses a JTAG DP/AP access ends in, value matching aside: success
/// (reported with the SWD OK acknowledge), or the JTAG acknowledge that
/// stopped it; never a protocol error.
pub open spec fn spec_is_jtag_access_status(s: TransferStatus) -> bool {
    &&& !s.protocol_error
    &&& (s.ack == TransferAck::SWD(SWDTransferAck(1)) || (s.ack is JTAG && !s.ack.spec_is_ok()))
}

/// The statuses an SWD DP/AP access ends in carry an SWD acknowledge.
pub open spec fn spec_is_swd_access_status(s: TransferStatus) -> bool {
    s.ack is SWD
}

/// One call made on the access port: what it was handed and what came back
/// (the buffer it filled, whether it reported success).
pub enum WireEvent {
    SwdWrite { num_bits: usize, data: Seq<u8>, ok: bool },
    SwdRead { num_bits: usize, data: Seq<u8>, ok: bool },
    JtagClock { cycles: usize, tms: bool, tdi_high: bool },
    JtagTransfer { num_bits: usize, tms: bool, tdi: Seq<u8>, tdo: Seq<u8> },
    JtagSequence { num_bits: usize, tms: bool, tdi: Seq<u8>, tdo: Seq<u8>, ok: bool },
    SwjPins { output: u8, select: u8, wait_us: u32, input: u8 },
    SwjClock { freq_hz: u32, ok: bool },
    SwjSequence { num_bits: usize, data: Seq<u8>, ok: bool },
}

/// `new` is `old` with more calls after it.
pub open spec fn spec_extends(old: Seq<WireEvent>, new: Seq<WireEvent>) -> bool {
    old.len() <= new.len() && forall|i: int| 0 <= i < old.len() ==> #[trigger] new[i] == old[i]
}

/// The calls of `new` made after those of `old`.
pub open spec fn spec_added(old: Seq<WireEvent>, new: Seq<WireEvent>) -> Seq<WireEvent> {
    new.skip(old.len() as int)
}

/// The JTAG traffic that loads `iv` into the IR of a device with
/// `before` IR bits before it, `size` IR bits of its own and `after` IR
/// bits after it (BYPASS, all ones, into the others): into Shift-IR, the
/// bits before, the device's bits, the bits after, then Update-IR and back
/// to idle. The last device's final IR bit goes out with TMS high.
pub open spec fn spec_jtag_ir_traffic(before: usize, size: usize, after: usize, iv: u8) -> Seq<WireEvent> {
    if after > 0 {
        seq![
            WireEvent::JtagClock { cycles: 2, tms: true, tdi_high: false },
            WireEvent::JtagClock { cycles: (before + 2) as usize, tms: false, tdi_high: true },
            WireEvent::JtagTransfer { num_bits: size, tms: false, tdi: seq![iv], tdo: Seq::empty() },
            WireEvent::JtagClock { cycles: (after - 1) as usize, tms: false, tdi_high: true },
            WireEvent::JtagClock { cycles: 2, tms: true, tdi_high: true },
            WireEvent::JtagClock { cycles: 1, tms: false, tdi_high: true },
        ]
    } else {
        seq![
            WireEvent::JtagClock { cycles: 2, tms: true, tdi_high: false },
            WireEvent::JtagClock { cycles: (before + 2) as usize, tms: false, tdi_high: true },
            WireEvent::JtagTransfer { num_bits: (size - 1) as usize, tms: false, tdi: seq![iv], tdo: Seq::empty() },
            WireEvent::JtagClock { cycles: 2, tms: true, tdi_high: iv & (1u8 << ((size - 1) as u8)) != 0 },
            WireEvent::JtagClock { cycles: 1, tms: false, tdi_high: true },
        ]
    }
}

/// The JTAG traffic of the data phase of a DR access to device `index` of
/// `count` that shifts `data` out, and the value captured: the 32 TDO bits
/// sampled while `data` went out, least significant first (the last
/// device's final bit shifted with TMS high), then the devices after it in
/// BYPASS, then Update-DR and back to idle.
pub open spec fn spec_jtag_data_traffic(index: usize, count: usize, data: u32, ev: Seq<WireEvent>, value: u32) -> bool {
    if index < count - 1 {
        &&& ev.len() == 4
        &&& ev[0] matches WireEvent::JtagTransfer { num_bits: n, tms: m, tdi: i, tdo: o }
        &&& n == 32 && !m && i == spec_u32_bytes(data) && o.len() == 4
        &&& ev[1] == WireEvent::JtagClock { cycles: (count - index - 2) as usize, tms: false, tdi_high: true }
        &&& ev[2] == WireEvent::JtagClock { cycles: 2, tms: true, tdi_high: true }
        &&& ev[3] == WireEvent::JtagClock { cycles: 1, tms: false, tdi_high: true }
        &&& value == spec_u32_le(o, 0)
    } else {
        &&& ev.len() == 4
        &&& ev[0] matches WireEvent::JtagTransfer { num_bits: n, tms: m, tdi: i, tdo: o }
        &&& n == 31 && !m && i == spec_u32_bytes(data) && o.len() == 4
        &&& ev[1] matches WireEvent::JtagTransfer { num_bits: n1, tms: m1, tdi: i1, tdo: o1 }
        &&& n1 == 1 && m1 && i1 == seq![(data >> 31u32) as u8] && o1.len() == 1
        &&& ev[2] == WireEvent::JtagClock { cycles: 1, tms: true, tdi_high: true }
        &&& ev[3] == WireEvent::JtagClock { cycles: 1, tms: false, tdi_high: true }
        &&& value == spec_u32_le(o, 0) | ((o1[0] as u32) << 31u32)
    }
}

/// The JTAG traffic of a DR access to device `index` of `count` with
/// `instruction` in its IR, sending the address bits `addr` and `data`, and
/// its result: into Shift-DR, past the devices before it; then (but for
/// IDCODE, which has no address phase) the 3 address bits out while the 3
/// acknowledge bits come in, stopping with the acknowledge when it has
/// neither its OK/FAULT bit; then the data phase.
pub open spec fn spec_jtag_reg_traffic(
    index: usize,
    count: usize,
    instruction: JTAGInstruction,
    addr: u8,
    data: u32,
    ev: Seq<WireEvent>,
    r: Result<u32, TransferAck>,
) -> bool {
    &&& ev.len() >= 3
    &&& ev[0] == WireEvent::JtagClock { cycles: 1, tms: true, tdi_high: true }
    &&& ev[1] == WireEvent::JtagClock { cycles: 2, tms: false, tdi_high: true }
    &&& ev[2] == WireEvent::JtagClock { cycles: index, tms: false, tdi_high: true }
    &&& if instruction == JTAGInstruction::IDCode {
        exists|v: u32| r == Ok::<u32, TransferAck>(v) && spec_jtag_data_traffic(index, count, data, ev.skip(3), v)
    } else {
        &&& ev.len() >= 4
        &&& ev[3] matches WireEvent::JtagTransfer { num_bits: n, tms: m, tdi: i, tdo: o }
        &&& n == 3 && !m && i == seq![addr] && o.len() == 1
        &&& if TransferAck::JTAG(JTAGTransferAck(o[0])).spec_is_ok() {
            exists|v: u32| r == Ok::<u32, TransferAck>(v) && spec_jtag_data_traffic(index, count, data, ev.skip(4), v)
        } else {
            &&& r == Err::<u32, TransferAck>(TransferAck::JTAG(JTAGTransferAck(o[0])))
            &&& ev.len() == 6
            &&& ev[4] == WireEvent::JtagClock { cycles: 2, tms: true, tdi_high: true }
            &&& ev[5] == WireEvent::JtagClock { cycles: 1, tms: false, tdi_high: true }
        }
    }
}

/// Accesses to one device of the JTAG chain.
pub struct JTAGOperator<'a, P> {
    pub ir_size_bits: usize,
    pub ir_before_bits: usize,
    pub ir_after_bits: usize,
    pub index: usize,
    pub count: usize,
    pub instruction: JTAGInstruction,
    pub port: &'a mut P,
    pub wire: Ghost<Seq<WireEvent>>,
}

impl<'a, P> JTAGOperator<'a, P> {
    /// The instruction register of the device can be written: the last
    /// device's IR is shifted with its final bit taken from an 8-bit value.
    pub open spec fn wf(&self) -> bool {
        &&& self.index < self.count
        &&& self.ir_before_bits <= 0x10000
        &&& self.ir_after_bits <= 0x10000
        &&& self.ir_after_bits == 0 ==> 1 <= self.ir_size_bits <= 8
    }

    /// The device's place in the chain is that of `other`.
    pub open spec fn same_chain(&self, other: &Self) -> bool {
        &&& self.ir_size_bits == other.ir_size_bits
        &&& self.ir_before_bits == other.ir_before_bits
        &&& self.ir_after_bits == other.ir_after_bits
        &&& self.index == other.index
        &&& self.count == other.count
    }

    /// The traffic of loading `instruction`, from this place in the chain.
    pub open spec fn ir_traffic(&self, instruction: JTAGInstruction) -> Seq<WireEvent> {
        spec_jtag_ir_traffic(self.ir_before_bits, self.ir_size_bits, self.ir_after_bits, instruction.spec_value())
    }
}

/// The status a JTAG DP/AP access reports for the result of its DR scan.
pub open spec fn spec_jtag_status_of(r: Result<u32, TransferAck>) -> TransferStatus {
    match r {
        Ok(_) => TransferStatus::spec_ok(),
        Err(ack) => TransferStatus { ack, protocol_error: false, value_mismatch: false },
    }
}

impl<'a, P: JTAGAccessPort> JTAGOperator<'a, P> {
    fn clock(&mut self, cycles: usize, tms: bool, tdi: bool)
        ensures
            final(self).same_chain(old(self)),
            final(self).instruction == old(self).instruction,
            final(self).wire@ == old(self).wire@.push(WireEvent::JtagClock { cycles, tms, tdi_high: tdi }),
    {
        self.port.clock(cycles, tms, tdi);
        proof {
            self.wire@ = self.wire@.push(WireEvent::JtagClock { cycles, tms, tdi_high: tdi });
        }
    }

    fn shift(&mut self, num_bits: usize, tms: bool, tdi: &[u8], tdo: &mut [u8])
        ensures
            final(self).same_chain(old(self)),
            final(self).instruction == old(self).instruction,
            final(tdo)@.len() == old(tdo)@.len(),
            final(self).wire@ == old(self).wire@.push(
                WireEvent::JtagTransfer { num_bits, tms, tdi: tdi@, tdo: final(tdo)@ },
            ),
    {
        self.port.transfer(num_bits, tms, tdi, tdo);
        proof {
            self.wire@ = self.wire@.push(WireEvent::JtagTransfer { num_bits, tms, tdi: tdi@, tdo: tdo@ });
        }
    }

    /// Reads the device's ID code register: loads IDCODE into the IR, then
    /// the value is the 32 bits captured on TDO in the data scan, least
    /// significant first; there is no acknowledge, so it always succeeds.
    pub fn read_idcode(&mut self) -> (r: (u32, TransferStatus))
        requires
            old(self).wf(),
        ensures
            r.1 == TransferStatus::spec_ok(),
            final(self).instruction == JTAGInstruction::IDCode,
            final(self).wf(),
            final(self).same_chain(old(self)),
            spec_extends(old(self).wire@, final(self).wire@),
            ({
                let ev = spec_added(old(self).wire@, final(self).wire@);
                let n = old(self).ir_traffic(JTAGInstruction::IDCode).len();
                &&& ev.take(n as int) == old(self).ir_traffic(JTAGInstruction::IDCode)
                &&& spec_jtag_reg_traffic(
                    old(self).index,
                    old(self).count,
                    JTAGInstruction::IDCode,
                    0,
                    0,
                    ev.skip(n as int),
                    Ok::<u32, TransferAck>(r.0),
                )
            }),
    {
        let ghost w0 = self.wire@;
        self.write_ir(JTAGInstruction::IDCode);
        let ghost w1 = self.wire@;
        let res = self.transfer_reg(0, 0);
        proof {
            assert(spec_added(w0, self.wire@).take(spec_added(w0, w1).len() as int) =~= spec_added(w0, w1));
            assert(spec_added(w0, self.wire@).skip(spec_added(w0, w1).len() as int) =~= spec_added(w1, self.wire@));
        }
        match res {
            Ok(value) => (value, TransferStatus::ok()),
            Err(ack) => (0, TransferStatus::from_ack(ack)),
        }
    }

    /// Writes the DP abort register: loads ABORT into the IR, then a DR
    /// access; the value's 32 bits are shifted only when the acknowledge
    /// has its OK/FAULT bit, and the status is an error exactly when it
    /// has neither.
    pub fn write_abort(&mut self, value: u32) -> (r: TransferStatus)
        requires
            old(self).wf(),
        ensures
            spec_is_jtag_status(r),
            final(self).instruction == JTAGInstruction::Abort,
            final(self).wf(),
            final(self).same_chain(old(self)),
            spec_extends(old(self).wire@, final(self).wire@),
            exists|res: Result<u32, TransferAck>| {
                let ev = spec_added(old(self).wire@, final(self).wire@);
                let n = old(self).ir_traffic(JTAGInstruction::Abort).len();
                &&& ev.take(n as int) == old(self).ir_traffic(JTAGInstruction::Abort)
                &&& spec_jtag_reg_traffic(
                    old(self).index,
                    old(self).count,
                    JTAGInstruction::Abort,
                    0,
                    value,
                    ev.skip(n as int),
                    res,
                )
                &&& r == #[trigger] spec_jtag_status_of(res)
            },
    {
        let ghost w0 = self.wire@;
        self.write_ir(JTAGInstruction::Abort);
        let ghost w1 = self.wire@;
        let res = self.transfer_reg(0, value);
        proof {
            assert(spec_added(w0, self.wire@).take(spec_added(w0, w1).len() as int) =~= spec_added(w0, w1));
            assert(spec_added(w0, self.wire@).skip(spec_added(w0, w1).len() as int) =~= spec_added(w1, self.wire@));
        }
        let r = match res {
            Ok(_) => TransferStatus::ok(),
            Err(ack) => TransferStatus::from_ack(ack),
        };
        assert(r == spec_jtag_status_of(res));
        r
    }

    /// Shifts `instruction` into the device's IR, BYPASS into the others.
    fn write_ir(&mut self, instruction: JTAGInstruction)
        requires
            old(self).wf(),
        ensures
            final(self).instruction == instruction,
            final(self).same_chain(old(self)),
            final(self).wire@ == old(self).wire@ + old(self).ir_traffic(instruction),
    {
        let ghost w0 = self.wire@;
        self.clock(2, true, false);
        self.clock(self.ir_before_bits + 2, false, true);

        let iv = instruction.value();
        let data = [iv];
        let mut empty: [u8; 0] = [];
        if self.ir_after_bits > 0 {
            self.shift(self.ir_size_bits, false, data.as_slice(), &mut empty);
            self.clock(self.ir_after_bits - 1, false, true);
            self.clock(2, true, true);
        } else {
            self.shift(self.ir_size_bits - 1, false, data.as_slice(), &mut empty);
            let shift: u8 = (self.ir_size_bits - 1) as u8;
            let last_bit = (iv & (1u8 << shift)) != 0;
            self.clock(2, true, last_bit);
        }
        self.clock(1, false, true);
        self.instruction = instruction;
        proof {
            assert(data@ =~= seq![iv]);
            assert(empty@ =~= Seq::<u8>::empty());
            assert(self.wire@ =~= w0 + old(self).ir_traffic(instruction));
        }
    }

    /// Shifts a DP/AP access through the data register: the 3-bit address
    /// and RnW (skipped for the ID code register), then the 32-bit value.
    fn transfer_reg(&mut self, addr: u8, data: u32) -> (r: Result<u32, TransferAck>)
        requires
            old(self).wf(),
        ensures
            final(self).instruction == old(self).instruction,
            final(self).same_chain(old(self)),
            final(self).wf(),
            old(self).instruction == JTAGInstruction::IDCode ==> r is Ok,
            r matches Err(a) ==> a is JTAG && !a.spec_is_ok(),
            spec_extends(old(self).wire@, final(self).wire@),
            spec_jtag_reg_traffic(
                old(self).index,
                old(self).count,
                old(self).instruction,
                addr,
                data,
                spec_added(old(self).wire@, final(self).wire@),
                r,
            ),
    {
        let ghost w0 = self.wire@;
        self.clock(1, true, true);
        self.clock(2, false, true);
        self.clock(self.index, false, true);
        let ghost w3 = self.wire@;

        if self.instruction != JTAGInstruction::IDCode {
            let mut data_in = [0u8; 1];
            let addr_buf = [addr];
            self.shift(3, false, addr_buf.as_slice(), &mut data_in);
            let ack = TransferAck::jtag(data_in[0]);
            if !ack.is_ok() {
                self.clock(2, true, true);
                self.clock(1, false, true);
                proof {
                    assert(addr_buf@ =~= seq![addr]);
                    assert(spec_added(w0, self.wire@) =~= w3.skip(w0.len() as int) + self.wire@.skip(w3.len() as int));
                }
                return Err(ack);
            }
            proof {
                assert(addr_buf@ =~= seq![addr]);
            }
        }
        let ghost wd = self.wire@;

        let bytes = u32_to_le_bytes(data);
        if self.index < self.count - 1 {
            let mut reg_data = [0u8; 4];
            self.shift(32, false, bytes.as_slice(), &mut reg_data);
            self.clock(self.count - self.index - 2, false, true);
            self.clock(2, true, true);
            self.clock(1, false, true);
            let v = read_u32_le(reg_data.as_slice(), 0);
            proof {
                let ev = spec_added(w0, self.wire@);
                let k = wd.len() - w0.len();
                assert(ev.skip(k) =~= spec_added(wd, self.wire@));
                assert(spec_jtag_data_traffic(self.index, self.count, data, ev.skip(k), v));
            }
            Ok(v)
        } else {
            let mut reg_data = [0u8; 4];
            self.shift(31, false, bytes.as_slice(), &mut reg_data);
            let mut last_bit = [0u8; 1];
            let top = [(data >> 31u32) as u8];
            self.shift(1, true, top.as_slice(), &mut last_bit);
            self.clock(1, true, true);
            self.clock(1, false, true);
            let low = read_u32_le(reg_data.as_slice(), 0);
            let v = low | ((last_bit[0] as u32) << 31u32);
            proof {
                assert(top@ =~= seq![(data >> 31u32) as u8]);
                let ev = spec_added(w0, self.wire@);
                let k = wd.len() - w0.len();
                assert(ev.skip(k) =~= spec_added(wd, self.wire@));
                assert(spec_jtag_data_traffic(self.index, self.count, data, ev.skip(k), v));
            }
            Ok(v)
        }
    }
}

/// A register access through SWD or through one device of a JTAG chain.
trait RegisterOperator {
    /// Whether the accesses go through JTAG, where a read returns the result
    /// of the previous access.
    const IS_JTAG: bool;

    /// What fixes the traffic of an access, besides the access itself.
    type Setup;

    /// The operator can run.
    spec fn inv(&self) -> bool;

    /// The operator's fixed settings.
    spec fn setup(&self) -> Self::Setup;

    /// The calls made on the port through this operator so far.
    spec fn wire(&self) -> Seq<WireEvent>;

    /// Whether `s` is a status that an access through this operator can end
    /// in, value matching aside.
    spec fn access_status(s: TransferStatus) -> bool;

    /// Whether `ev` is the traffic of a read of `reg` from this state of the
    /// operator that gives `r`.
    spec fn read_access(&self, reg: Register, ev: Seq<WireEvent>, r: (u32, TransferStatus)) -> bool;

    /// Whether `ev` is the traffic of a write of `data` to `reg` from this
    /// state of the operator that gives `r`.
    spec fn write_access(&self, reg: Register, data: u32, ev: Seq<WireEvent>, r: TransferStatus) -> bool;

    /// Idles the bus for `cycles` clock cycles.
    fn wait_idle_cycles(&mut self, cycles: usize) -> (ok: bool)
        requires
            old(self).inv(),
            cycles <= 0xFFFF,
        ensures
            final(self).inv(),
            final(self).setup() == old(self).setup(),
            spec_extends(old(self).wire(), final(self).wire()),
    ;

    /// Reads a DP or AP register.
    fn read_register(&mut self, reg: Register) -> (r: (u32, TransferStatus))
        requires
            old(self).inv(),
        ensures
            final(self).inv(),
            final(self).setup() == old(self).setup(),
            !r.1.value_mismatch,
            Self::access_status(r.1),
            spec_extends(old(self).wire(), final(self).wire()),
            old(self).read_access(reg, spec_added(old(self).wire(), final(self).wire()), r),
    ;

    /// Writes a DP or AP register.
    fn write_register(&mut self, reg: Register, data: u32) -> (r: TransferStatus)
        requires
            old(self).inv(),
        ensures
            final(self).inv(),
            final(self).setup() == old(self).setup(),
            !r.value_mismatch,
            Self::access_status(r),
            spec_extends(old(self).wire(), final(self).wire()),
            old(self).write_access(reg, data, spec_added(old(self).wire(), final(self).wire()), r),
    ;
}

/// The result of an SWD register read, given what the wire returned: whether
/// the request went out and the acknowledge came in (`request_ok`), the
/// captured acknowledge bits with the turnaround bits first, whether the data
/// phase (or the turnaround after a refused request) went through, and the
/// 33 data and parity bits.
pub open spec fn spec_swd_read_outcome(
    request_ok: bool,
    ack_bits: u8,
    turnaround: usize,
    phase_ok: bool,
    data: Seq<u8>,
) -> (u32, TransferStatus) {
    if !request_ok {
        (0u32, TransferStatus { ack: TransferAck::SWD(SWDTransferAck(0)), protocol_error: true, value_mismatch: false })
    } else {
        let ack = TransferAck::SWD(SWDTransferAck(ack_bits >> turnaround));
        if !phase_ok {
            (0u32, TransferStatus { ack, protocol_error: true, value_mismatch: false })
        } else if ack.spec_is_ok() {
            let v = spec_u32_le(data, 0);
            (v, TransferStatus { ack, protocol_error: spec_parity(v as nat) != (data[4] & 1) as nat, value_mismatch: false })
        } else {
            (0u32, TransferStatus { ack, protocol_error: false, value_mismatch: false })
        }
    }
}

/// The status of an SWD register write, given what the wire returned.
pub open spec fn spec_swd_write_outcome(request_ok: bool, ack_bits: u8, turnaround: usize, phase_ok: bool) -> TransferStatus {
    if !request_ok {
        TransferStatus { ack: TransferAck::SWD(SWDTransferAck(0)), protocol_error: true, value_mismatch: false }
    } else {
        TransferStatus {
            ack: TransferAck::SWD(SWDTransferAck(ack_bits >> turnaround)),
            protocol_error: !phase_ok,
            value_mismatch: false,
        }
    }
}

/// The value and status of an SWD register read, from what the wire
/// returned: whether the request went out and the acknowledge came in, the
/// captured acknowledge bits (turnaround bits first), whether the data
/// phase (or the turnaround after a refused request) went through, and the
/// 33 data and parity bits.
pub fn swd_read_outcome(request_ok: bool, ack_bits: u8, turnaround: usize, phase_ok: bool, data: &[u8]) -> (r: (
    u32,
    TransferStatus,
))
    requires
        turnaround <= 4,
        data@.len() == 5,
    ensures
        r == spec_swd_read_outcome(request_ok, ack_bits, turnaround, phase_ok, data@),
{
    if !request_ok {
        return (0, TransferStatus { ack: TransferAck::swd(0), protocol_error: true, value_mismatch: false });
    }
    let ack = TransferAck::swd(ack_bits >> turnaround);
    if !phase_ok {
        (0, TransferStatus { ack, protocol_error: true, value_mismatch: false })
    } else if ack.is_ok() {
        let v = read_u32_le(data, 0);
        let parity = parity_u32(v);
        (v, TransferStatus { ack, protocol_error: parity != data[4] & 0x01, value_mismatch: false })
    } else {
        (0, TransferStatus { ack, protocol_error: false, value_mismatch: false })
    }
}

/// The status of an SWD register write, from what the wire returned.
pub fn swd_write_outcome(request_ok: bool, ack_bits: u8, turnaround: usize, phase_ok: bool) -> (r: TransferStatus)
    requires
        turnaround <= 4,
    ensures
        r == spec_swd_write_outcome(request_ok, ack_bits, turnaround, phase_ok),
{
    if !request_ok {
        TransferStatus { ack: TransferAck::swd(0), protocol_error: true, value_mismatch: false }
    } else {
        TransferStatus { ack: TransferAck::swd(ack_bits >> turnaround), protocol_error: !phase_ok, value_mismatch: false }
    }
}

/// Whether the acknowledge bits captured with `turnaround` bits first say OK.
pub open spec fn spec_swd_ack_ok(ack_bits: u8, turnaround: usize) -> bool {
    TransferAck::SWD(SWDTransferAck(ack_bits >> turnaround)).spec_is_ok()
}

/// Whether `ev` is the traffic of an SWD read of `reg` that gives `r`: the
/// request byte out, the acknowledge in, then the 33 data and parity bits
/// (when the acknowledge is OK, or always with `always_data_phase`) or the
/// turnaround; nothing after a request or acknowledge the port failed.
pub open spec fn spec_swd_read_access(
    reg: Register,
    turnaround: usize,
    always_data_phase: bool,
    ev: Seq<WireEvent>,
    r: (u32, TransferStatus),
) -> bool {
    &&& ev.len() >= 2
    &&& ev[0] matches WireEvent::SwdWrite { num_bits: nw, data: dw, ok: w }
    &&& nw == 8 && dw == seq![spec_swd_request(reg, true)]
    &&& ev[1] matches WireEvent::SwdRead { num_bits: na, data: da, ok: a }
    &&& na == turnaround + 3 && da.len() == 1
    &&& if !(w && a) {
        ev.len() == 2 && r == spec_swd_read_outcome(false, da[0], turnaround, true, seq![0u8, 0, 0, 0, 0])
    } else {
        &&& ev.len() == 3
        &&& ev[2] matches WireEvent::SwdRead { num_bits: nd, data: dd, ok: p }
        &&& if always_data_phase || spec_swd_ack_ok(da[0], turnaround) {
            nd == 33 + turnaround && dd.len() == 5 && r == spec_swd_read_outcome(true, da[0], turnaround, p, dd)
        } else {
            nd == turnaround && dd.len() == 1 && r == spec_swd_read_outcome(
                true,
                da[0],
                turnaround,
                p,
                seq![0u8, 0, 0, 0, 0],
            )
        }
    }
}

/// Whether `ev` is the traffic of an SWD write of `data` to `reg` that
/// gives `r`: the request byte out, the acknowledge in, the turnaround,
/// then (when the acknowledge is OK, or always with `always_data_phase`)
/// the 32 data bits, least significant first, and the parity bit.
pub open spec fn spec_swd_write_access(
    reg: Register,
    data: u32,
    turnaround: usize,
    always_data_phase: bool,
    ev: Seq<WireEvent>,
    r: TransferStatus,
) -> bool {
    &&& ev.len() >= 2
    &&& ev[0] matches WireEvent::SwdWrite { num_bits: nw, data: dw, ok: w }
    &&& nw == 8 && dw == seq![spec_swd_request(reg, false)]
    &&& ev[1] matches WireEvent::SwdRead { num_bits: na, data: da, ok: a }
    &&& na == turnaround + 3 && da.len() == 1
    &&& if !(w && a) {
        ev.len() == 2 && r == spec_swd_write_outcome(false, da[0], turnaround, true)
    } else {
        &&& ev.len() >= 3
        &&& ev[2] matches WireEvent::SwdRead { num_bits: nt, data: dt, ok: b }
        &&& nt == turnaround && dt.len() == 1
        &&& if always_data_phase || spec_swd_ack_ok(da[0], turnaround) {
            &&& ev.len() == 5
            &&& ev[3] matches WireEvent::SwdWrite { num_bits: n3, data: d3, ok: c }
            &&& n3 == 32 && d3 == spec_u32_bytes(data)
            &&& ev[4] matches WireEvent::SwdWrite { num_bits: n4, data: d4, ok: d }
            &&& n4 == 1 && d4 == seq![spec_parity(data as nat) as u8]
            &&& r == spec_swd_write_outcome(true, da[0], turnaround, b && c && d)
        } else {
            ev.len() == 3 && r == spec_swd_write_outcome(true, da[0], turnaround, b)
        }
    }
}

/// Whether the port call `e` reported success.
pub open spec fn spec_event_ok(e: WireEvent) -> bool {
    match e {
        WireEvent::SwdWrite { ok, .. } => ok,
        WireEvent::SwdRead { ok, .. } => ok,
        _ => true,
    }
}

/// Whether `ev` is the traffic of idling an SWD bus for `cycles` cycles:
/// zero bits written 32 at a time, the rest in the last write.
pub open spec fn spec_swd_idle(cycles: usize, ev: Seq<WireEvent>) -> bool {
    &&& ev.len() == (cycles + 31) / 32
    &&& forall|i: int|
        0 <= i < ev.len() ==> (#[trigger] ev[i] matches WireEvent::SwdWrite { num_bits, data, .. } && num_bits
            == (if cycles - 32 * i < 32 {
            cycles - 32 * i
        } else {
            32
        }) && data == seq![0u8, 0, 0, 0])
}

/// Register accesses over SWD.
pub struct SWDOperator<'a, P> {
    pub config: SWD,
    pub port: &'a mut P,
    pub wire: Ghost<Seq<WireEvent>>,
}

impl<'a, P: SWDAccessPort> RegisterOperator for SWDOperator<'a, P> {
    const IS_JTAG: bool = false;

    type Setup = SWD;

    spec fn inv(&self) -> bool {
        self.config.turnaround <= 4
    }

    spec fn setup(&self) -> SWD {
        self.config
    }

    spec fn wire(&self) -> Seq<WireEvent> {
        self.wire@
    }

    spec fn access_status(s: TransferStatus) -> bool {
        spec_is_swd_access_status(s)
    }

    spec fn read_access(&self, reg: Register, ev: Seq<WireEvent>, r: (u32, TransferStatus)) -> bool {
        spec_swd_read_access(reg, self.config.turnaround, self.config.always_data_phase, ev, r)
    }

    spec fn write_access(&self, reg: Register, data: u32, ev: Seq<WireEvent>, r: TransferStatus) -> bool {
        spec_swd_write_access(reg, data, self.config.turnaround, self.config.always_data_phase, ev, r)
    }

    fn wait_idle_cycles(&mut self, cycles: usize) -> (ok: bool)
        ensures
            final(self).config == old(self).config,
            spec_swd_idle(cycles, spec_added(old(self).wire@, final(self).wire@)),
            ok <==> forall|i: int|
                0 <= i < spec_added(old(self).wire@, final(self).wire@).len() ==> #[trigger] spec_event_ok(
                    spec_added(old(self).wire@, final(self).wire@)[i],
                ),
    {
        let ghost w0 = self.wire@;
        let mut ok = true;
        let mut remaining = cycles;
        let zeros = [0u8; 4];
        let rounds = (cycles + 31) / 32;
        let mut k: usize = 0;
        while k < rounds
            invariant
                self.config == old(self).config,
                self.config.turnaround <= 4,
                zeros@ == seq![0u8, 0, 0, 0],
                k <= rounds,
                rounds == (cycles + 31) / 32,
                remaining == cycles - 32 * k || (k == rounds && remaining == 0),
                k < rounds ==> remaining == cycles - 32 * k,
                spec_extends(w0, self.wire@),
                spec_added(w0, self.wire@).len() == k,
                forall|i: int|
                    0 <= i < k ==> (#[trigger] spec_added(w0, self.wire@)[i] matches WireEvent::SwdWrite {
                        num_bits,
                        data,
                        ..
                    } && num_bits == (if cycles - 32 * i < 32 {
                        cycles - 32 * i
                    } else {
                        32
                    }) && data == seq![0u8, 0, 0, 0]),
                ok <==> forall|i: int| 0 <= i < k ==> #[trigger] spec_event_ok(spec_added(w0, self.wire@)[i]),
            decreases rounds - k,
        {
            let num_bits = if remaining < 32 { remaining } else { 32 };
            let w = self.port.write(num_bits, zeros.as_slice());
            let ghost before = self.wire@;
            proof {
                self.wire@ = self.wire@.push(WireEvent::SwdWrite { num_bits, data: zeros@, ok: w });
                assert forall|i: int| 0 <= i < k implies #[trigger] spec_added(w0, self.wire@)[i] == spec_added(
                    w0,
                    before,
                )[i] by {}
                assert(spec_added(w0, self.wire@)[k as int] == WireEvent::SwdWrite { num_bits, data: zeros@, ok: w });
                if ok && w {
                    assert forall|i: int| 0 <= i < k + 1 implies #[trigger] spec_event_ok(
                        spec_added(w0, self.wire@)[i],
                    ) by {
                        if i < k {
                            assert(spec_event_ok(spec_added(w0, before)[i]));
                        }
                    }
                }
                if !(ok && w) {
                    if !w {
                        assert(!spec_event_ok(spec_added(w0, self.wire@)[k as int]));
                    } else {
                        let j = choose|j: int| 0 <= j < k && !spec_event_ok(spec_added(w0, before)[j]);
                        assert(!spec_event_ok(spec_added(w0, self.wire@)[j]));
                    }
                }
            }
            ok = ok && w;
            remaining = remaining - num_bits;
            k = k + 1;
        }
        ok
    }

    fn read_register(&mut self, register: Register) -> (r: (u32, TransferStatus)) {
        let ghost w0 = self.wire@;
        let t = self.config.turnaround;
        let command_byte = Command::read(register);
        let mut ack = [0u8; 1];
        let mut data = [0u8; 5];
        let cmd = [command_byte];
        let w = self.port.write(8, cmd.as_slice());
        proof {
            self.wire@ = self.wire@.push(WireEvent::SwdWrite { num_bits: 8, data: cmd@, ok: w });
        }
        let a = self.port.read(t + 3, &mut ack);
        proof {
            self.wire@ = self.wire@.push(WireEvent::SwdRead { num_bits: (t + 3) as usize, data: ack@, ok: a });
        }
        let request_ok = w && a;
        let ack_bits = ack[0];
        let mut phase_ok = true;
        if request_ok {
            let ack_ok = TransferAck::swd(ack_bits >> t).is_ok();
            if self.config.always_data_phase || ack_ok {
                phase_ok = self.port.read(33 + t, &mut data);
                proof {
                    self.wire@ = self.wire@.push(WireEvent::SwdRead { num_bits: (33 + t) as usize, data: data@, ok: phase_ok });
                }
            } else {
                phase_ok = self.port.read(t, &mut ack);
                proof {
                    self.wire@ = self.wire@.push(WireEvent::SwdRead { num_bits: t, data: ack@, ok: phase_ok });
                }
            }
        }
        let r = swd_read_outcome(request_ok, ack_bits, t, phase_ok, data.as_slice());
        proof {
            let ev = spec_added(w0, self.wire@);
            assert(spec_extends(w0, self.wire@));
            assert(ev[0] == WireEvent::SwdWrite { num_bits: 8, data: cmd@, ok: w });
            assert(cmd@ =~= seq![spec_swd_request(register, true)]);
            assert(data@ =~= seq![0u8, 0, 0, 0, 0] || request_ok);
        }
        r
    }

    fn write_register(&mut self, register: Register, data: u32) -> (r: TransferStatus) {
        let ghost w0 = self.wire@;
        let t = self.config.turnaround;
        let command_byte = Command::write(register);
        let mut ack = [0u8; 1];
        let parity = parity_u32(data);
        let cmd = [command_byte];
        let w = self.port.write(8, cmd.as_slice());
        proof {
            self.wire@ = self.wire@.push(WireEvent::SwdWrite { num_bits: 8, data: cmd@, ok: w });
        }
        let a = self.port.read(t + 3, &mut ack);
        proof {
            self.wire@ = self.wire@.push(WireEvent::SwdRead { num_bits: (t + 3) as usize, data: ack@, ok: a });
        }
        let request_ok = w && a;
        let ack_bits = ack[0];
        let mut phase_ok = true;
        if request_ok {
            let ack_ok = TransferAck::swd(ack_bits >> t).is_ok();
            let b = self.port.read(t, &mut ack);
            proof {
                self.wire@ = self.wire@.push(WireEvent::SwdRead { num_bits: t, data: ack@, ok: b });
            }
            phase_ok = b;
            if self.config.always_data_phase || ack_ok {
                let bytes = u32_to_le_bytes(data);
                let c = self.port.write(32, bytes.as_slice());
                proof {
                    self.wire@ = self.wire@.push(WireEvent::SwdWrite { num_bits: 32, data: bytes@, ok: c });
                }
                let par = [parity];
                let d = self.port.write(1, par.as_slice());
                proof {
                    self.wire@ = self.wire@.push(WireEvent::SwdWrite { num_bits: 1, data: par@, ok: d });
                    assert(par@ =~= seq![spec_parity(data as nat) as u8]);
                }
                phase_ok = phase_ok && c && d;
            }
        }
        let r = swd_write_outcome(request_ok, ack_bits, t, phase_ok);
        proof {
            assert(spec_extends(w0, self.wire@));
            assert(cmd@ =~= seq![spec_swd_request(register, false)]);
        }
        r
    }
}

/// The IR value for accesses to the AP (`ap`) or the DP.
pub open spec fn spec_port_instruction(ap: bool) -> JTAGInstruction {
    if ap {
        JTAGInstruction::AccessPort
    } else {
        JTAGInstruction::DebugPort
    }
}

/// The value a JTAG DP/AP read reports for the result of its DR scan.
pub open spec fn spec_jtag_value_of(r: Result<u32, TransferAck>) -> u32 {
    match r {
        Ok(v) => v,
        Err(_) => 0,
    }
}

impl<'a, P: JTAGAccessPort> JTAGOperator<'a, P> {
    /// Whether `ev` is the traffic of a DR access to `reg` sending `addr` and
    /// `data` from this state, with DR scan result `res`: the IR is loaded
    /// with the DP or AP instruction first when it holds another.
    pub open spec fn access_traffic(&self, reg: Register, addr: u8, data: u32, ev: Seq<WireEvent>, res: Result<u32, TransferAck>) -> bool {
        spec_jtag_access_at(self.chain(), self.instruction, reg, addr, data, ev, res)
    }

    /// The device's place in the chain: its IR bits, the IR bits before and
    /// after it, its index and the number of devices.
    pub open spec fn chain(&self) -> (usize, usize, usize, usize, usize) {
        (self.ir_size_bits, self.ir_before_bits, self.ir_after_bits, self.index, self.count)
    }
}

/// Whether `ev` is the traffic of a DR access to `reg`, sending `addr` and
/// `data`, to the device at `chain` (its IR bits, the IR bits before and
/// after it, its index, the number of devices) whose IR holds `current`,
/// with DR scan result `res`: the IR is loaded with the DP or AP
/// instruction first when it holds another.
pub open spec fn spec_jtag_access_at(
    chain: (usize, usize, usize, usize, usize),
    current: JTAGInstruction,
    reg: Register,
    addr: u8,
    data: u32,
    ev: Seq<WireEvent>,
    res: Result<u32, TransferAck>,
) -> bool {
    let instruction = spec_port_instruction(reg.ap);
    let ir = spec_jtag_ir_traffic(chain.1, chain.0, chain.2, instruction.spec_value());
    let n = if instruction != current { ir.len() as int } else { 0 };
    &&& n <= ev.len()
    &&& ev.take(n) == (if instruction != current { ir } else { Seq::empty() })
    &&& spec_jtag_reg_traffic(chain.3, chain.4, instruction, addr, data, ev.skip(n), res)
}

/// The JTAG reads the device at `chain` makes, whatever its IR holds: of a
/// register, the traffic and the result.
pub open spec fn spec_jtag_reads(chain: (usize, usize, usize, usize, usize)) -> spec_fn(
    Register,
    Seq<WireEvent>,
    (u32, TransferStatus),
) -> bool {
    |g: Register, e: Seq<WireEvent>, x: (u32, TransferStatus)|
        exists|current: JTAGInstruction, res: Result<u32, TransferAck>|
            #[trigger] spec_jtag_access_at(chain, current, g, (0x01u8 | (g.address << 1u8)) as u8, 0, e, res) && x == (
                spec_jtag_value_of(res),
                spec_jtag_status_of(res),
            )
}

/// The JTAG writes of `data` to `reg` the device at `chain` makes, whatever
/// its IR holds.
pub open spec fn spec_jtag_writes(chain: (usize, usize, usize, usize, usize), reg: Register, data: u32) -> spec_fn(
    Seq<WireEvent>,
    TransferStatus,
) -> bool {
    |e: Seq<WireEvent>, x: TransferStatus|
        exists|current: JTAGInstruction, res: Result<u32, TransferAck>|
            #[trigger] spec_jtag_access_at(chain, current, reg, (reg.address << 1u8) as u8, data, e, res) && x
                == spec_jtag_status_of(res)
}

impl<'a, P: JTAGAccessPort> RegisterOperator for JTAGOperator<'a, P> {
    const IS_JTAG: bool = true;

    type Setup = (usize, usize, usize, usize, usize);

    spec fn inv(&self) -> bool {
        self.wf()
    }

    spec fn setup(&self) -> (usize, usize, usize, usize, usize) {
        self.chain()
    }

    spec fn wire(&self) -> Seq<WireEvent> {
        self.wire@
    }

    spec fn access_status(s: TransferStatus) -> bool {
        spec_is_jtag_access_status(s)
    }

    spec fn read_access(&self, reg: Register, ev: Seq<WireEvent>, r: (u32, TransferStatus)) -> bool {
        exists|res: Result<u32, TransferAck>|
            self.access_traffic(reg, (0x01u8 | (reg.address << 1u8)) as u8, 0, ev, res) && r == (
                spec_jtag_value_of(res),
                spec_jtag_status_of(res),
            )
    }

    spec fn write_access(&self, reg: Register, data: u32, ev: Seq<WireEvent>, r: TransferStatus) -> bool {
        exists|res: Result<u32, TransferAck>|
            self.access_traffic(reg, (reg.address << 1u8) as u8, data, ev, res) && r == spec_jtag_status_of(res)
    }

    fn wait_idle_cycles(&mut self, cycles: usize) -> (ok: bool)
        ensures
            ok,
            final(self).same_chain(old(self)),
            final(self).instruction == old(self).instruction,
            final(self).wire@ == old(self).wire@.push(WireEvent::JtagClock { cycles, tms: false, tdi_high: false }),
    {
        self.clock(cycles, false, false);
        true
    }

    fn read_register(&mut self, reg: Register) -> (r: (u32, TransferStatus))
        ensures
            r.1 == TransferStatus::spec_ok() || (r.0 == 0 && spec_is_jtag_status(r.1)),
    {
        let ghost w0 = self.wire@;
        let ghost s0 = *self;
        let instruction = if reg.ap { JTAGInstruction::AccessPort } else { JTAGInstruction::DebugPort };
        if instruction != self.instruction {
            self.write_ir(instruction);
        }
        let ghost w1 = self.wire@;
        let addr: u8 = 0x01 | (reg.address << 1u8);
        let res = self.transfer_reg(addr, 0);
        let r = match res {
            Ok(value) => (value, TransferStatus::ok()),
            Err(ack) => (0, TransferStatus::from_ack(ack)),
        };
        proof {
            let ev = spec_added(w0, self.wire@);
            let n = spec_added(w0, w1).len() as int;
            assert(ev.take(n) =~= spec_added(w0, w1));
            assert(ev.skip(n) =~= spec_added(w1, self.wire@));
            assert(spec_added(w0, w1) =~= (if instruction != s0.instruction { s0.ir_traffic(instruction) } else { Seq::empty() }));
            assert(s0.access_traffic(reg, addr, 0, ev, res));
            assert(r == (spec_jtag_value_of(res), spec_jtag_status_of(res)));
            assert(s0.read_access(reg, ev, r));
        }
        r
    }

    fn write_register(&mut self, reg: Register, data: u32) -> (r: TransferStatus)
        ensures
            spec_is_jtag_status(r),
    {
        let ghost w0 = self.wire@;
        let ghost s0 = *self;
        let instruction = if reg.ap { JTAGInstruction::AccessPort } else { JTAGInstruction::DebugPort };
        if instruction != self.instruction {
            self.write_ir(instruction);
        }
        let ghost w1 = self.wire@;
        let addr: u8 = reg.address << 1u8;
        let res = self.transfer_reg(addr, data);
        let r = match res {
            Ok(_) => TransferStatus::ok(),
            Err(ack) => TransferStatus::from_ack(ack),
        };
        proof {
            let ev = spec_added(w0, self.wire@);
            let n = spec_added(w0, w1).len() as int;
            assert(ev.take(n) =~= spec_added(w0, w1));
            assert(ev.skip(n) =~= spec_added(w1, self.wire@));
            assert(spec_added(w0, w1) =~= (if instruction != s0.instruction { s0.ir_traffic(instruction) } else { Seq::empty() }));
            assert(s0.access_traffic(reg, addr, data, ev, res));
            assert(r == spec_jtag_status_of(res));
            assert(s0.write_access(reg, data, ev, r));
        }
        r
    }
}


/// The transfer configuration: idle cycles after a WAIT, how often a WAIT
/// or a value mismatch is retried, the mask for value matching, and the
/// SWD and JTAG settings.
#[derive(Clone, Copy)]
pub struct Transfer {
    pub idle_cycles: usize,
    pub wait_retry: usize,
    pub match_retry: usize,
    pub match_mask: u32,
    pub swd: SWD,
    pub jtag: JTAG,
}

impl Default for Transfer {
    fn default() -> (r: Self)
        ensures
            r.wf(),
            r.is_default(),
    {
        Self { idle_cycles: 0, wait_retry: 0, match_retry: 0, match_mask: 0, swd: SWD::default(), jtag: JTAG::default() }
    }
}

impl Transfer {
    /// The counts fit the host's encodings (an 8-bit idle count, 16-bit
    /// retry counts, a turnaround of one to four cycles) and the JTAG chain
    /// is consistent.
    pub open spec fn wf(&self) -> bool {
        &&& self.idle_cycles <= 0xFFFF
        &&& self.wait_retry <= 0xFFFF
        &&& self.match_retry <= 0xFFFF
        &&& self.swd.turnaround <= 4
        &&& self.jtag.wf()
        &&& self.jtag.selectable()
    }

    /// The configuration a port starts with.
    pub open spec fn is_default(&self) -> bool {
        &&& self.idle_cycles == 0
        &&& self.wait_retry == 0
        &&& self.match_retry == 0
        &&& self.match_mask == 0
        &&& self.swd.turnaround == 1
        &&& !self.swd.always_data_phase
        &&& self.jtag.device_count == 0
    }

    fn operate_swd<'a, 'p, P: SWDAccessPort>(&self, port: &'p mut P, abort: &'a AbortToken, wire: Ghost<Seq<WireEvent>>) -> (r: TransferOperator<'a, SWDOperator<'p, P>>)
        requires
            self.wf(),
        ensures
            r.wf(),
            r.config == *self,
            r.register_operator.config == self.swd,
            r.register_operator.wire@ == wire@,
    {
        TransferOperator { config: *self, register_operator: SWDOperator { config: self.swd, port, wire }, abort }
    }

    fn try_operate_jtag<'a, 'p, P: JTAGAccessPort>(&self, index: usize, port: &'p mut P, abort: &'a AbortToken, wire: Ghost<Seq<WireEvent>>) -> (r: Option<TransferOperator<'a, JTAGOperator<'p, P>>>)
        requires
            self.wf(),
        ensures
            r is Some <==> index < self.jtag.device_count,
            r matches Some(op) ==> op.wf() && op.config == *self && op.register_operator.wire@ == wire@
                && op.register_operator.instruction == JTAGInstruction::Bypass
                && op.register_operator.chain() == spec_jtag_chain(self.jtag, index),
            r is None ==> *final(port) == *old(port),
    {
        match self.jtag.try_make_operator(index, port) {
            Some(mut operator) => {
                operator.wire = wire;
                Some(TransferOperator { config: *self, register_operator: operator, abort })
            },
            None => None,
        }
    }
}

/// Whether `ev` is the traffic of an access retried while the target
/// answers WAIT, ending in `r`: it starts with a first access (`first`)
/// whose result is all there is when that access did not answer WAIT, and
/// ends with an access (`any`) whose result is `r`.
pub open spec fn spec_retried<T>(
    first: spec_fn(Seq<WireEvent>, T) -> bool,
    any: spec_fn(Seq<WireEvent>, T) -> bool,
    waiting: spec_fn(T) -> bool,
    ev: Seq<WireEvent>,
    r: T,
) -> bool {
    &&& exists|k: int, r0: T|
        0 <= k <= ev.len() && #[trigger] first(ev.take(k), r0) && (!waiting(r0) ==> k == ev.len() && r == r0)
    &&& exists|j: int| 0 <= j <= ev.len() && #[trigger] any(ev.skip(j), r)
}

/// A read result answered WAIT.
pub open spec fn spec_read_waiting() -> spec_fn((u32, TransferStatus)) -> bool {
    |r: (u32, TransferStatus)| r.1.ack.spec_is_wait()
}

/// A write status answered WAIT.
pub open spec fn spec_write_waiting() -> spec_fn(TransferStatus) -> bool {
    |r: TransferStatus| r.ack.spec_is_wait()
}

/// Whether `ev` is the traffic of a read of `reg` that gives `r`, where an
/// AP read (and any JTAG read) is posted: when the retried read of `reg`
/// succeeds its value comes from a retried read of RDBUFF. `first` and
/// `any` say which accesses of a register can happen first and later.
pub open spec fn spec_posted_read(
    posted: bool,
    first: spec_fn(Register, Seq<WireEvent>, (u32, TransferStatus)) -> bool,
    any: spec_fn(Register, Seq<WireEvent>, (u32, TransferStatus)) -> bool,
    reg: Register,
    ev: Seq<WireEvent>,
    r: (u32, TransferStatus),
) -> bool {
    let first_reg = |e: Seq<WireEvent>, x: (u32, TransferStatus)| first(reg, e, x);
    let any_reg = |e: Seq<WireEvent>, x: (u32, TransferStatus)| any(reg, e, x);
    let any_rdbuff = |e: Seq<WireEvent>, x: (u32, TransferStatus)| any(Register { ap: false, address: 3 }, e, x);
    if !posted {
        spec_retried(first_reg, any_reg, spec_read_waiting(), ev, r)
    } else {
        exists|k: int, r1: (u32, TransferStatus)|
            0 <= k <= ev.len() && #[trigger] spec_retried(first_reg, any_reg, spec_read_waiting(), ev.take(k), r1)
                && (r1.1.spec_has_errors() ==> k == ev.len() && r == r1) && (!r1.1.spec_has_errors()
                ==> spec_retried(any_rdbuff, any_rdbuff, spec_read_waiting(), ev.skip(k), r))
    }
}

/// The calls after `w1` in `w2`, seen from `w0`, split at `w1`.
proof fn lemma_added_split(w0: Seq<WireEvent>, w1: Seq<WireEvent>, w2: Seq<WireEvent>)
    requires
        spec_extends(w0, w1),
        spec_extends(w1, w2),
    ensures
        spec_extends(w0, w2),
        spec_added(w0, w2).take(spec_added(w0, w1).len() as int) == spec_added(w0, w1),
        spec_added(w0, w2).skip(spec_added(w0, w1).len() as int) == spec_added(w1, w2),
{
    assert(spec_added(w0, w2).take(spec_added(w0, w1).len() as int) =~= spec_added(w0, w1));
    assert(spec_added(w0, w2).skip(spec_added(w0, w1).len() as int) =~= spec_added(w1, w2));
}

/// A retried access stays one when what its accesses may be is widened.
proof fn lemma_retried_weaken<T>(
    f1: spec_fn(Seq<WireEvent>, T) -> bool,
    a1: spec_fn(Seq<WireEvent>, T) -> bool,
    f2: spec_fn(Seq<WireEvent>, T) -> bool,
    a2: spec_fn(Seq<WireEvent>, T) -> bool,
    waiting: spec_fn(T) -> bool,
    ev: Seq<WireEvent>,
    r: T,
)
    requires
        spec_retried(f1, a1, waiting, ev, r),
        forall|e: Seq<WireEvent>, x: T| #[trigger] f1(e, x) ==> f2(e, x),
        forall|e: Seq<WireEvent>, x: T| #[trigger] a1(e, x) ==> a2(e, x),
    ensures
        spec_retried(f2, a2, waiting, ev, r),
{
    let (k, r0) = choose|k: int, r0: T|
        0 <= k <= ev.len() && #[trigger] f1(ev.take(k), r0) && (!waiting(r0) ==> k == ev.len() && r == r0);
    assert(f2(ev.take(k), r0));
    let j = choose|j: int| 0 <= j <= ev.len() && #[trigger] a1(ev.skip(j), r);
    assert(a2(ev.skip(j), r));
}

/// A posted read stays one when what its accesses may be is widened.
proof fn lemma_posted_weaken(
    posted: bool,
    f1: spec_fn(Register, Seq<WireEvent>, (u32, TransferStatus)) -> bool,
    a1: spec_fn(Register, Seq<WireEvent>, (u32, TransferStatus)) -> bool,
    f2: spec_fn(Register, Seq<WireEvent>, (u32, TransferStatus)) -> bool,
    a2: spec_fn(Register, Seq<WireEvent>, (u32, TransferStatus)) -> bool,
    reg: Register,
    ev: Seq<WireEvent>,
    r: (u32, TransferStatus),
)
    requires
        spec_posted_read(posted, f1, a1, reg, ev, r),
        forall|g: Register, e: Seq<WireEvent>, x: (u32, TransferStatus)| #[trigger] f1(g, e, x) ==> f2(g, e, x),
        forall|g: Register, e: Seq<WireEvent>, x: (u32, TransferStatus)| #[trigger] a1(g, e, x) ==> a2(g, e, x),
    ensures
        spec_posted_read(posted, f2, a2, reg, ev, r),
{
    let rd = Register { ap: false, address: 3 };
    let f1r = |e: Seq<WireEvent>, x: (u32, TransferStatus)| f1(reg, e, x);
    let a1r = |e: Seq<WireEvent>, x: (u32, TransferStatus)| a1(reg, e, x);
    let f2r = |e: Seq<WireEvent>, x: (u32, TransferStatus)| f2(reg, e, x);
    let a2r = |e: Seq<WireEvent>, x: (u32, TransferStatus)| a2(reg, e, x);
    let a1d = |e: Seq<WireEvent>, x: (u32, TransferStatus)| a1(rd, e, x);
    let a2d = |e: Seq<WireEvent>, x: (u32, TransferStatus)| a2(rd, e, x);
    assert forall|e: Seq<WireEvent>, x: (u32, TransferStatus)| #[trigger] f1r(e, x) implies f2r(e, x) by {
        assert(f1(reg, e, x));
    }
    assert forall|e: Seq<WireEvent>, x: (u32, TransferStatus)| #[trigger] a1r(e, x) implies a2r(e, x) by {
        assert(a1(reg, e, x));
    }
    assert forall|e: Seq<WireEvent>, x: (u32, TransferStatus)| #[trigger] a1d(e, x) implies a2d(e, x) by {
        assert(a1(rd, e, x));
    }
    if !posted {
        lemma_retried_weaken(f1r, a1r, f2r, a2r, spec_read_waiting(), ev, r);
    } else {
        let (k, r1) = choose|k: int, r1: (u32, TransferStatus)|
            0 <= k <= ev.len() && #[trigger] spec_retried(f1r, a1r, spec_read_waiting(), ev.take(k), r1)
                && (r1.1.spec_has_errors() ==> k == ev.len() && r == r1) && (!r1.1.spec_has_errors()
                ==> spec_retried(a1d, a1d, spec_read_waiting(), ev.skip(k), r));
        lemma_retried_weaken(f1r, a1r, f2r, a2r, spec_read_waiting(), ev.take(k), r1);
        if !r1.1.spec_has_errors() {
            lemma_retried_weaken(a1d, a1d, a2d, a2d, spec_read_waiting(), ev.skip(k), r);
        }
        assert(spec_retried(f2r, a2r, spec_read_waiting(), ev.take(k), r1));
    }
}

/// Reads through an operator with the setup of `op0` can be taken as reads
/// through any operator with that setup.
proof fn lemma_same_setup_reads<R: RegisterOperator>(op0: R, op1: R)
    requires
        op1.setup() == op0.setup(),
    ensures
        forall|g: Register, e: Seq<WireEvent>, x: (u32, TransferStatus)|
            #[trigger] first_read(op1)(g, e, x) ==> any_read(op0)(g, e, x),
        forall|g: Register, e: Seq<WireEvent>, x: (u32, TransferStatus)|
            #[trigger] any_read(op1)(g, e, x) ==> any_read(op0)(g, e, x),
{
    assert forall|g: Register, e: Seq<WireEvent>, x: (u32, TransferStatus)|
        #[trigger] first_read(op1)(g, e, x) implies any_read(op0)(g, e, x) by {
        assert(op1.read_access(g, e, x));
    }
    assert forall|g: Register, e: Seq<WireEvent>, x: (u32, TransferStatus)|
        #[trigger] any_read(op1)(g, e, x) implies any_read(op0)(g, e, x) by {
        let op = choose|op: R| op.setup() == op1.setup() && #[trigger] op.read_access(g, e, x);
        assert(op.setup() == op0.setup() && op.read_access(g, e, x));
    }
}

/// Whether a read of `reg` is posted: an AP read, or any read over JTAG.
pub open spec fn spec_posted(is_jtag: bool, reg: Register) -> bool {
    is_jtag || reg.ap
}

/// The calls of `segs`, one after the other.
pub open spec fn spec_concat(segs: Seq<Seq<WireEvent>>) -> Seq<WireEvent>
    decreases segs.len(),
{
    if segs.len() == 0 {
        Seq::empty()
    } else {
        spec_concat(segs.drop_last()) + segs.last()
    }
}

/// A write of `data` to `reg`, retried on WAIT, over single writes that
/// `writes` allows.
pub open spec fn spec_retried_write(
    writes: spec_fn(Register, u32, Seq<WireEvent>, TransferStatus) -> bool,
    reg: Register,
    data: u32,
    ev: Seq<WireEvent>,
    r: TransferStatus,
) -> bool {
    spec_retried(
        |e: Seq<WireEvent>, x: TransferStatus| writes(reg, data, e, x),
        |e: Seq<WireEvent>, x: TransferStatus| writes(reg, data, e, x),
        spec_write_waiting(),
        ev,
        r,
    )
}

/// A read of `reg`, retried on WAIT, over single reads that `reads` allows.
pub open spec fn spec_retried_read(
    reads: spec_fn(Register, Seq<WireEvent>, (u32, TransferStatus)) -> bool,
    reg: Register,
    ev: Seq<WireEvent>,
    r: (u32, TransferStatus),
) -> bool {
    spec_retried(
        |e: Seq<WireEvent>, x: (u32, TransferStatus)| reads(reg, e, x),
        |e: Seq<WireEvent>, x: (u32, TransferStatus)| reads(reg, e, x),
        spec_read_waiting(),
        ev,
        r,
    )
}

/// Whether `ev` is the traffic of a block write of the words of `block` to
/// `reg` giving `r` (words written, status): the words written one after
/// the other, each retried on WAIT, stopping at the first that fails; when
/// none fails, all of them, then a read of RDBUFF for the final status.
pub open spec fn spec_block_write_traffic(
    writes: spec_fn(Register, u32, Seq<WireEvent>, TransferStatus) -> bool,
    reads: spec_fn(Register, Seq<WireEvent>, (u32, TransferStatus)) -> bool,
    reg: Register,
    block: Seq<u8>,
    ev: Seq<WireEvent>,
    r: (usize, TransferStatus),
) -> bool {
    exists|segs: Seq<Seq<WireEvent>>, sts: Seq<TransferStatus>|
        #[trigger] spec_block_write_steps(writes, reads, reg, block, ev, r, segs, sts)
}

/// The steps of a block write (see `spec_block_write_traffic`): the word
/// writes `segs` with statuses `sts`.
pub open spec fn spec_block_write_steps(
    writes: spec_fn(Register, u32, Seq<WireEvent>, TransferStatus) -> bool,
    reads: spec_fn(Register, Seq<WireEvent>, (u32, TransferStatus)) -> bool,
    reg: Register,
    block: Seq<u8>,
    ev: Seq<WireEvent>,
    r: (usize, TransferStatus),
    segs: Seq<Seq<WireEvent>>,
    sts: Seq<TransferStatus>,
) -> bool {
    let n = r.0 as int;
    &&& 1 <= n <= block.len() / 4
    &&& segs.len() == n && sts.len() == n
    &&& forall|i: int| 0 <= i < n ==> spec_retried_write(writes, reg, spec_u32_le(block, 4 * i), #[trigger] segs[i], sts[i])
    &&& forall|i: int| 0 <= i < n - 1 ==> !(#[trigger] sts[i]).spec_has_errors()
    &&& if sts[n - 1].spec_has_errors() {
        ev == spec_concat(segs) && r.1 == sts[n - 1]
    } else {
        &&& n == block.len() / 4
        &&& spec_concat(segs).len() <= ev.len()
        &&& ev.take(spec_concat(segs).len() as int) == spec_concat(segs)
        &&& exists|x: u32| spec_retried_read(reads, Register { ap: false, address: 3 }, ev.skip(spec_concat(segs).len() as int), (x, r.1))
    }
}

/// Whether `ev` is the traffic of a block read of `reg` into the words of a
/// block, `before` and `after` the call, giving `r` (words moved, status):
/// a posted read (`posted`) is started ahead, and its failure ends the
/// block with nothing read; then the words are read one after the other
/// (the last of a posted block from RDBUFF), each retried on WAIT, stopping
/// at the first that fails; each word read goes into its place,
/// little-endian, and the rest of the block is kept.
pub open spec fn spec_block_read_traffic(
    posted: bool,
    reads: spec_fn(Register, Seq<WireEvent>, (u32, TransferStatus)) -> bool,
    reg: Register,
    before: Seq<u8>,
    after: Seq<u8>,
    ev: Seq<WireEvent>,
    r: (usize, TransferStatus),
) -> bool {
    exists|pre: Seq<WireEvent>, p0: (u32, TransferStatus), segs: Seq<Seq<WireEvent>>, res: Seq<(u32, TransferStatus)>|
        #[trigger] spec_block_read_steps(posted, reads, reg, before, after, ev, r, pre, p0, segs, res)
}

/// The steps of a block read (see `spec_block_read_traffic`): the posted
/// read ahead `pre` with result `p0`, then the word reads `segs` with
/// results `res`.
pub open spec fn spec_block_read_steps(
    posted: bool,
    reads: spec_fn(Register, Seq<WireEvent>, (u32, TransferStatus)) -> bool,
    reg: Register,
    before: Seq<u8>,
    after: Seq<u8>,
    ev: Seq<WireEvent>,
    r: (usize, TransferStatus),
    pre: Seq<WireEvent>,
    p0: (u32, TransferStatus),
    segs: Seq<Seq<WireEvent>>,
    res: Seq<(u32, TransferStatus)>,
) -> bool {
    let count = before.len() / 4;
    let n = r.0 as int;
    &&& !posted ==> pre.len() == 0
    &&& posted ==> spec_retried_read(reads, reg, pre, p0)
    &&& after.len() == before.len()
    &&& if posted && p0.1.spec_has_errors() {
        r == (0usize, p0.1) && ev == pre && after == before
    } else {
        let done = if res[n - 1].1.spec_has_errors() { n - 1 } else { n };
        &&& 1 <= n <= count
        &&& segs.len() == n && res.len() == n
        &&& forall|i: int|
            0 <= i < n ==> spec_retried_read(
                reads,
                if posted && i == count - 1 { Register { ap: false, address: 3 } } else { reg },
                #[trigger] segs[i],
                res[i],
            )
        &&& forall|i: int| 0 <= i < n - 1 ==> !(#[trigger] res[i]).1.spec_has_errors()
        &&& ev == pre + spec_concat(segs)
        &&& r.1 == res[n - 1].1
        &&& res[n - 1].1.spec_has_errors() || n == count
        &&& forall|i: int| 0 <= i < done ==> #[trigger] after.subrange(4 * i, 4 * i + 4) == spec_u32_bytes(res[i].0)
        &&& forall|j: int| 4 * done <= j < after.len() ==> #[trigger] after[j] == before[j]
    }
}

/// Every write through an operator with the setup of `op0`.
spec fn all_writes<R: RegisterOperator>(op0: R) -> spec_fn(Register, u32, Seq<WireEvent>, TransferStatus) -> bool {
    |g: Register, d: u32, e: Seq<WireEvent>, x: TransferStatus| any_write(op0, g, d)(e, x)
}

/// Writes through an operator with the setup of `op0` can be taken as
/// writes through any operator with that setup.
proof fn lemma_same_setup_writes<R: RegisterOperator>(op0: R, op1: R, reg: Register, data: u32)
    requires
        op1.setup() == op0.setup(),
    ensures
        forall|e: Seq<WireEvent>, x: TransferStatus|
            #[trigger] first_write(op1, reg, data)(e, x) ==> (|e: Seq<WireEvent>, x: TransferStatus| all_writes(op0)(reg, data, e, x))(e, x),
        forall|e: Seq<WireEvent>, x: TransferStatus|
            #[trigger] any_write(op1, reg, data)(e, x) ==> (|e: Seq<WireEvent>, x: TransferStatus| all_writes(op0)(reg, data, e, x))(e, x),
{
    assert forall|e: Seq<WireEvent>, x: TransferStatus|
        #[trigger] any_write(op1, reg, data)(e, x) implies all_writes(op0)(reg, data, e, x) by {
        let op = choose|op: R| op.setup() == op1.setup() && #[trigger] op.write_access(reg, data, e, x);
        assert(op.setup() == op0.setup() && op.write_access(reg, data, e, x));
    }
    assert forall|e: Seq<WireEvent>, x: TransferStatus|
        #[trigger] first_write(op1, reg, data)(e, x) implies all_writes(op0)(reg, data, e, x) by {
        assert(op1.setup() == op0.setup() && op1.write_access(reg, data, e, x));
    }
}

/// The first read through `op0`.
spec fn first_read<R: RegisterOperator>(op0: R) -> spec_fn(Register, Seq<WireEvent>, (u32, TransferStatus)) -> bool {
    |reg: Register, e: Seq<WireEvent>, x: (u32, TransferStatus)| op0.read_access(reg, e, x)
}

/// A read through an operator with the setup of `op0`.
spec fn any_read<R: RegisterOperator>(op0: R) -> spec_fn(Register, Seq<WireEvent>, (u32, TransferStatus)) -> bool {
    |reg: Register, e: Seq<WireEvent>, x: (u32, TransferStatus)|
        exists|op: R| op.setup() == op0.setup() && #[trigger] op.read_access(reg, e, x)
}

/// The first write through `op0`.
spec fn first_write<R: RegisterOperator>(op0: R, reg: Register, data: u32) -> spec_fn(Seq<WireEvent>, TransferStatus) -> bool {
    |e: Seq<WireEvent>, x: TransferStatus| op0.write_access(reg, data, e, x)
}

/// A write through an operator with the setup of `op0`.
spec fn any_write<R: RegisterOperator>(op0: R, reg: Register, data: u32) -> spec_fn(Seq<WireEvent>, TransferStatus) -> bool {
    |e: Seq<WireEvent>, x: TransferStatus| exists|op: R| op.setup() == op0.setup() && #[trigger] op.write_access(reg, data, e, x)
}

/// Register transfers with WAIT retries, value matching and block transfers
/// on top of a register operator.
struct TransferOperator<'a, R> {
    config: Transfer,
    register_operator: R,
    abort: &'a AbortToken,
}

impl<'a, R: RegisterOperator> TransferOperator<'a, R> {
    spec fn wf(&self) -> bool {
        self.register_operator.inv() && self.config.wf()
    }

    /// Writes `reg`, retrying while the target answers WAIT.
    fn write(&mut self, reg: Register, value: u32) -> (r: TransferStatus)
        requires
            old(self).wf(),
        ensures
            final(self).wf(),
            final(self).config == old(self).config,
            final(self).register_operator.setup() == old(self).register_operator.setup(),
            !r.value_mismatch,
            R::access_status(r),
            spec_extends(old(self).register_operator.wire(), final(self).register_operator.wire()),
            spec_retried(
                first_write(old(self).register_operator, reg, value),
                any_write(old(self).register_operator, reg, value),
                spec_write_waiting(),
                spec_added(old(self).register_operator.wire(), final(self).register_operator.wire()),
                r,
            ),
    {
        let ghost config = self.config;
        let ghost op0 = self.register_operator;
        let ghost w0 = self.register_operator.wire();
        let mut status = self.register_operator.write_register(reg, value);
        let ghost w1 = self.register_operator.wire();
        let ghost r0 = status;
        let ghost first = first_write(op0, reg, value);
        let ghost any = any_write(op0, reg, value);
        proof {
            assert(spec_added(w0, w1).take(spec_added(w0, w1).len() as int) =~= spec_added(w0, w1));
            assert(spec_added(w0, w1).skip(0) =~= spec_added(w0, w1));
            assert(first(spec_added(w0, w1).take(spec_added(w0, w1).len() as int), r0));
            assert(any(spec_added(w0, w1).skip(0), r0));
        }
        if status.ack.is_wait() && !self.abort.is_set() {
            let retries = self.config.wait_retry;
            let mut k: usize = 0;
            while k < retries
                invariant
                    self.wf(),
                    self.config == config,
                    !status.value_mismatch,
                    R::access_status(status),
                    self.register_operator.setup() == op0.setup(),
                    spec_extends(w0, w1),
                    spec_extends(w1, self.register_operator.wire()),
                    first == first_write(op0, reg, value),
                    any == any_write(op0, reg, value),
                    first(spec_added(w0, w1), r0),
                    r0.ack.spec_is_wait(),
                    exists|j: int|
                        0 <= j <= spec_added(w0, self.register_operator.wire()).len() && #[trigger] any(
                            spec_added(w0, self.register_operator.wire()).skip(j),
                            status,
                        ),
                decreases retries - k,
            {
                self.register_operator.wait_idle_cycles(self.config.idle_cycles);
                let ghost w2 = self.register_operator.wire();
                let ghost s2 = self.register_operator;
                status = self.register_operator.write_register(reg, value);
                proof {
                    let w3 = self.register_operator.wire();
                    lemma_added_split(w0, w2, w3);
                    let j = spec_added(w0, w2).len() as int;
                    assert(s2.write_access(reg, value, spec_added(w2, w3), status));
                    assert(any(spec_added(w0, w3).skip(j), status));
                }
                if !status.ack.is_wait() || self.abort.is_set() {
                    break;
                }
                k = k + 1;
            }
        }
        proof {
            let w = self.register_operator.wire();
            lemma_added_split(w0, w1, w);
            let kk = spec_added(w0, w1).len() as int;
            assert(first(spec_added(w0, w).take(kk), r0));
        }
        status
    }

    /// Reads `reg` once, retrying while the target answers WAIT.
    fn read_inner(&mut self, reg: Register) -> (r: (u32, TransferStatus))
        requires
            old(self).wf(),
        ensures
            final(self).wf(),
            final(self).config == old(self).config,
            final(self).register_operator.setup() == old(self).register_operator.setup(),
            !r.1.value_mismatch,
            R::access_status(r.1),
            spec_extends(old(self).register_operator.wire(), final(self).register_operator.wire()),
            spec_retried(
                |e: Seq<WireEvent>, x: (u32, TransferStatus)| first_read(old(self).register_operator)(reg, e, x),
                |e: Seq<WireEvent>, x: (u32, TransferStatus)| any_read(old(self).register_operator)(reg, e, x),
                spec_read_waiting(),
                spec_added(old(self).register_operator.wire(), final(self).register_operator.wire()),
                r,
            ),
    {
        let ghost config = self.config;
        let ghost op0 = self.register_operator;
        let ghost w0 = self.register_operator.wire();
        let (mut value, mut status) = self.register_operator.read_register(reg);
        let ghost w1 = self.register_operator.wire();
        let ghost r0 = (value, status);
        let ghost first = |e: Seq<WireEvent>, x: (u32, TransferStatus)| first_read(op0)(reg, e, x);
        let ghost any = |e: Seq<WireEvent>, x: (u32, TransferStatus)| any_read(op0)(reg, e, x);
        proof {
            assert(spec_added(w0, w1).take(spec_added(w0, w1).len() as int) =~= spec_added(w0, w1));
            assert(spec_added(w0, w1).skip(0) =~= spec_added(w0, w1));
            assert(first(spec_added(w0, w1).take(spec_added(w0, w1).len() as int), r0));
            assert(any(spec_added(w0, w1).skip(0), r0));
        }
        if status.ack.is_wait() && !self.abort.is_set() {
            let retries = self.config.wait_retry;
            let mut k: usize = 0;
            while k < retries
                invariant
                    self.wf(),
                    self.config == config,
                    !status.value_mismatch,
                    R::access_status(status),
                    self.register_operator.setup() == op0.setup(),
                    spec_extends(w0, w1),
                    spec_extends(w1, self.register_operator.wire()),
                    first == (|e: Seq<WireEvent>, x: (u32, TransferStatus)| first_read(op0)(reg, e, x)),
                    any == (|e: Seq<WireEvent>, x: (u32, TransferStatus)| any_read(op0)(reg, e, x)),
                    first(spec_added(w0, w1), r0),
                    r0.1.ack.spec_is_wait(),
                    exists|j: int|
                        0 <= j <= spec_added(w0, self.register_operator.wire()).len() && #[trigger] any(
                            spec_added(w0, self.register_operator.wire()).skip(j),
                            (value, status),
                        ),
                decreases retries - k,
            {
                self.register_operator.wait_idle_cycles(self.config.idle_cycles);
                let ghost w2 = self.register_operator.wire();
                let ghost s2 = self.register_operator;
                let (v, st) = self.register_operator.read_register(reg);
                value = v;
                status = st;
                proof {
                    let w3 = self.register_operator.wire();
                    lemma_added_split(w0, w2, w3);
                    let j = spec_added(w0, w2).len() as int;
                    assert(s2.read_access(reg, spec_added(w2, w3), (value, status)));
                    assert(any(spec_added(w0, w3).skip(j), (value, status)));
                }
                if !status.ack.is_wait() || self.abort.is_set() {
                    break;
                }
                k = k + 1;
            }
        }
        proof {
            let w = self.register_operator.wire();
            lemma_added_split(w0, w1, w);
            let kk = spec_added(w0, w1).len() as int;
            assert(first(spec_added(w0, w).take(kk), r0));
        }
        (value, status)
    }

    /// Reads `reg`; an AP read, and any JTAG read, is posted, so its value
    /// is collected from RDBUFF.
    fn read(&mut self, reg: Register) -> (r: (u32, TransferStatus))
        requires
            old(self).wf(),
        ensures
            final(self).wf(),
            final(self).config == old(self).config,
            final(self).register_operator.setup() == old(self).register_operator.setup(),
            !r.1.value_mismatch,
            R::access_status(r.1),
            spec_extends(old(self).register_operator.wire(), final(self).register_operator.wire()),
            spec_posted_read(
                R::IS_JTAG || reg.ap,
                first_read(old(self).register_operator),
                any_read(old(self).register_operator),
                reg,
                spec_added(old(self).register_operator.wire(), final(self).register_operator.wire()),
                r,
            ),
    {
        let ghost op0 = self.register_operator;
        let ghost w0 = self.register_operator.wire();
        let (value, status) = self.read_inner(reg);
        let ghost w1 = self.register_operator.wire();
        let ghost op1 = self.register_operator;
        let ghost first_reg = |e: Seq<WireEvent>, x: (u32, TransferStatus)| first_read(op0)(reg, e, x);
        let ghost any_reg = |e: Seq<WireEvent>, x: (u32, TransferStatus)| any_read(op0)(reg, e, x);
        proof {
            assert(first_reg =~= (|e: Seq<WireEvent>, x: (u32, TransferStatus)| first_read(op0)(reg, e, x)));
        }
        if !status.has_errors() && (R::IS_JTAG || reg.ap) {
            let rd = Register::rdbuff();
            let r = self.read_inner(rd);
            proof {
                let w2 = self.register_operator.wire();
                lemma_added_split(w0, w1, w2);
                let any_rd = |e: Seq<WireEvent>, x: (u32, TransferStatus)| any_read(op0)(Register { ap: false, address: 3 }, e, x);
                let f1 = |e: Seq<WireEvent>, x: (u32, TransferStatus)| first_read(op1)(rd, e, x);
                let a1 = |e: Seq<WireEvent>, x: (u32, TransferStatus)| any_read(op1)(rd, e, x);
                assert forall|e: Seq<WireEvent>, x: (u32, TransferStatus)| #[trigger] f1(e, x) implies any_rd(e, x) by {
                    assert(op1.setup() == op0.setup() && op1.read_access(rd, e, x));
                }
                assert forall|e: Seq<WireEvent>, x: (u32, TransferStatus)| #[trigger] a1(e, x) implies any_rd(e, x) by {
                    let op = choose|op: R| op.setup() == op1.setup() && #[trigger] op.read_access(rd, e, x);
                    assert(op.setup() == op0.setup() && op.read_access(rd, e, x));
                }
                assert(spec_retried(f1, a1, spec_read_waiting(), spec_added(w1, w2), r));
                lemma_retried_weaken(f1, a1, any_rd, any_rd, spec_read_waiting(), spec_added(w1, w2), r);
                let k = spec_added(w0, w1).len() as int;
                assert(spec_retried(first_reg, any_reg, spec_read_waiting(), spec_added(w0, w2).take(k), (value, status)));
            }
            r
        } else {
            proof {
                let w = self.register_operator.wire();
                assert(w == w1);
                assert(spec_added(w0, w1).take(spec_added(w0, w1).len() as int) =~= spec_added(w0, w1));
            }
            (value, status)
        }
    }

    /// Writes the little-endian words of `block` to `reg`, stopping at the
    /// first failed write, then collects the final status from RDBUFF.
    fn write_block(&mut self, reg: Register, block: &[u8]) -> (r: (usize, TransferStatus))
        requires
            old(self).wf(),
            block@.len() >= 4,
        ensures
            final(self).wf(),
            final(self).config == old(self).config,
            final(self).register_operator.setup() == old(self).register_operator.setup(),
            spec_extends(old(self).register_operator.wire(), final(self).register_operator.wire()),
            1 <= r.0 <= block@.len() / 4,
            r.0 < block@.len() / 4 ==> r.1.spec_has_errors(),
            spec_block_write_traffic(
                all_writes(old(self).register_operator),
                any_read(old(self).register_operator),
                reg,
                block@,
                spec_added(old(self).register_operator.wire(), final(self).register_operator.wire()),
                r,
            ),
    {
        let ghost config = self.config;
        let ghost op0 = self.register_operator;
        let ghost w0 = self.register_operator.wire();
        let ghost mut segs: Seq<Seq<WireEvent>> = Seq::empty();
        let ghost mut sts: Seq<TransferStatus> = Seq::empty();
        let len = block.len();
        let count = len / 4;
        let mut i: usize = 0;
        proof {
            assert(spec_added(w0, w0) =~= Seq::<WireEvent>::empty());
        }
        while i < count
            invariant
                self.wf(),
                self.config == config,
                self.register_operator.setup() == old(self).register_operator.setup(),
                op0 == old(self).register_operator,
                w0 == op0.wire(),
                spec_extends(old(self).register_operator.wire(), self.register_operator.wire()),
                config == old(self).config,
                len == block@.len(),
                count == block@.len() / 4,
                i <= count,
                segs.len() == i,
                sts.len() == i,
                spec_concat(segs) == spec_added(w0, self.register_operator.wire()),
                forall|k: int|
                    0 <= k < i ==> spec_retried_write(all_writes(op0), reg, spec_u32_le(block@, 4 * k), #[trigger] segs[k], sts[k]),
                forall|k: int| 0 <= k < i ==> !(#[trigger] sts[k]).spec_has_errors(),
            decreases count - i,
        {
            assert(i * 4 + 4 <= block@.len()) by (nonlinear_arith)
                requires
                    i < count,
                    count == block@.len() / 4,
            ;
            let value = read_u32_le(block, i * 4);
            let ghost wa = self.register_operator.wire();
            let ghost sa = self.register_operator;
            let status = self.write(reg, value);
            proof {
                let wb = self.register_operator.wire();
                lemma_added_split(w0, wa, wb);
                lemma_same_setup_writes(op0, sa, reg, value);
                let f2 = |e: Seq<WireEvent>, x: TransferStatus| all_writes(op0)(reg, value, e, x);
                lemma_retried_weaken(
                    first_write(sa, reg, value),
                    any_write(sa, reg, value),
                    f2,
                    f2,
                    spec_write_waiting(),
                    spec_added(wa, wb),
                    status,
                );
                let segs2 = segs.push(spec_added(wa, wb));
                let sts2 = sts.push(status);
                assert(segs2.drop_last() =~= segs);
                assert(spec_added(w0, wb) =~= spec_added(w0, wa) + spec_added(wa, wb));
                assert(spec_u32_le(block@, 4 * i) == value);
                assert forall|k: int|
                    0 <= k < i + 1 implies spec_retried_write(all_writes(op0), reg, spec_u32_le(block@, 4 * k), #[trigger] segs2[k], sts2[k]) by {
                    if k < i {
                        assert(segs2[k] == segs[k] && sts2[k] == sts[k]);
                    }
                }
                segs = segs2;
                sts = sts2;
            }
            if status.has_errors() {
                proof {
                    let n = (i + 1) as int;
                    assert(sts[n - 1] == status);
                    assert forall|k: int| 0 <= k < n - 1 implies !(#[trigger] sts[k]).spec_has_errors() by {}
                    assert(1 <= n <= block@.len() / 4);
                    assert(spec_added(op0.wire(), self.register_operator.wire()) == spec_concat(segs));
                    assert(forall|k: int|
                        0 <= k < n ==> spec_retried_write(all_writes(op0), reg, spec_u32_le(block@, 4 * k), #[trigger] segs[k], sts[k]));
                    assert(segs.len() == n && sts.len() == n);
                    assert(spec_block_write_steps(
                        all_writes(op0),
                        any_read(op0),
                        reg,
                        block@,
                        spec_added(op0.wire(), self.register_operator.wire()),
                        ((i + 1) as usize, status),
                        segs,
                        sts,
                    ));
                }
                return (i + 1, status);
            }
            proof {
                assert forall|k: int| 0 <= k < i + 1 implies !(#[trigger] sts[k]).spec_has_errors() by {
                    if k == i {
                        assert(sts[k] == status);
                    }
                }
            }
            i = i + 1;
        }
        let ghost wa = self.register_operator.wire();
        let ghost sa = self.register_operator;
        let rd = Register::rdbuff();
        let (x, final_status) = self.read_inner(rd);
        proof {
            let wb = self.register_operator.wire();
            lemma_added_split(w0, wa, wb);
            lemma_same_setup_reads(op0, sa);
            let f1 = |e: Seq<WireEvent>, y: (u32, TransferStatus)| first_read(sa)(rd, e, y);
            let a1 = |e: Seq<WireEvent>, y: (u32, TransferStatus)| any_read(sa)(rd, e, y);
            let f2 = |e: Seq<WireEvent>, y: (u32, TransferStatus)| any_read(op0)(rd, e, y);
            assert forall|e: Seq<WireEvent>, y: (u32, TransferStatus)| #[trigger] f1(e, y) implies f2(e, y) by {
                assert(first_read(sa)(rd, e, y));
            }
            assert forall|e: Seq<WireEvent>, y: (u32, TransferStatus)| #[trigger] a1(e, y) implies f2(e, y) by {
                assert(any_read(sa)(rd, e, y));
            }
            lemma_retried_weaken(f1, a1, f2, f2, spec_read_waiting(), spec_added(wa, wb), (x, final_status));
            let ev = spec_added(w0, wb);
            let c = spec_concat(segs);
            assert(ev.take(c.len() as int) =~= c);
            assert(ev.skip(c.len() as int) =~= spec_added(wa, wb));
            assert(rd == Register { ap: false, address: 3 });
            assert(spec_retried_read(any_read(op0), rd, ev.skip(c.len() as int), (x, final_status)));
            assert(!sts[count - 1].spec_has_errors());
            let n = count as int;
            assert(1 <= n <= block@.len() / 4);
            assert(segs.len() == n && sts.len() == n);
            assert(forall|k: int| 0 <= k < n - 1 ==> !(#[trigger] sts[k]).spec_has_errors());
            assert(c.len() <= ev.len());
            let r = (count, final_status);
            let nn = r.0 as int;
            assert(nn == n);
            assert(ev.take(spec_concat(segs).len() as int) == spec_concat(segs));
            assert(spec_retried_read(any_read(op0), Register { ap: false, address: 3 }, ev.skip(spec_concat(segs).len() as int), (x, r.1)));
            assert(spec_block_write_steps(all_writes(op0), any_read(op0), reg, block@, ev, r, segs, sts));
        }
        (count, final_status)
    }

    /// Reads words from `reg` into `block`, stopping at the first failed
    /// read; posted reads are started ahead and the last one is collected
    /// from RDBUFF.
    fn read_block(&mut self, reg: Register, block: &mut [u8]) -> (r: (usize, TransferStatus))
        requires
            old(self).wf(),
            old(block)@.len() >= 4,
        ensures
            final(self).wf(),
            final(self).config == old(self).config,
            final(self).register_operator.setup() == old(self).register_operator.setup(),
            spec_extends(old(self).register_operator.wire(), final(self).register_operator.wire()),
            final(block)@.len() == old(block)@.len(),
            r.0 <= old(block)@.len() / 4,
            r.0 < old(block)@.len() / 4 ==> r.1.spec_has_errors(),
            forall|j: int| 4 * r.0 <= j < old(block)@.len() ==> final(block)@[j] == old(block)@[j],
            spec_block_read_traffic(
                spec_posted(R::IS_JTAG, reg),
                any_read(old(self).register_operator),
                reg,
                old(block)@,
                final(block)@,
                spec_added(old(self).register_operator.wire(), final(self).register_operator.wire()),
                r,
            ),
    {
        let ghost config = self.config;
        let ghost before = block@;
        let ghost op0 = self.register_operator;
        let ghost w0 = self.register_operator.wire();
        let ghost mut pre: Seq<WireEvent> = Seq::empty();
        let ghost mut p0: (u32, TransferStatus) = (0u32, TransferStatus::spec_ok());
        let ghost mut segs: Seq<Seq<WireEvent>> = Seq::empty();
        let ghost mut res: Seq<(u32, TransferStatus)> = Seq::empty();
        let rd = Register::rdbuff();
        let len = block.len();
        let count = len / 4;
        let mut status = TransferStatus::default();
        let post_read = R::IS_JTAG || reg.ap;
        proof {
            assert(spec_added(w0, w0) =~= Seq::<WireEvent>::empty());
        }
        if post_read {
            let ghost sa = self.register_operator;
            let (v, st) = self.read_inner(reg);
            status = st;
            proof {
                let wb = self.register_operator.wire();
                lemma_same_setup_reads(op0, sa);
                let f1 = |e: Seq<WireEvent>, y: (u32, TransferStatus)| first_read(sa)(reg, e, y);
                let a1 = |e: Seq<WireEvent>, y: (u32, TransferStatus)| any_read(sa)(reg, e, y);
                let f2 = |e: Seq<WireEvent>, y: (u32, TransferStatus)| any_read(op0)(reg, e, y);
                assert forall|e: Seq<WireEvent>, y: (u32, TransferStatus)| #[trigger] f1(e, y) implies f2(e, y) by {
                    assert(first_read(sa)(reg, e, y));
                }
                assert forall|e: Seq<WireEvent>, y: (u32, TransferStatus)| #[trigger] a1(e, y) implies f2(e, y) by {
                    assert(any_read(sa)(reg, e, y));
                }
                lemma_retried_weaken(f1, a1, f2, f2, spec_read_waiting(), spec_added(w0, wb), (v, st));
                pre = spec_added(w0, wb);
                p0 = (v, st);
            }
            if status.has_errors() {
                proof {
                    assert(spec_retried_read(any_read(op0), reg, pre, p0));
                    assert(spec_concat(segs) =~= Seq::<WireEvent>::empty());
                    assert(res.len() == 0 && pre.len() == pre.len() && p0.1 == st);
                    assert(spec_block_read_steps(spec_posted(R::IS_JTAG, reg), any_read(op0), reg, before, block@, pre, (0usize, status), pre, p0, segs, res));
                }
                return (0, status);
            }
        }
        proof {
            assert(pre + spec_concat(segs) =~= spec_added(w0, self.register_operator.wire()));
        }
        let mut i: usize = 0;
        while i < count
            invariant
                self.wf(),
                self.config == config,
                self.register_operator.setup() == old(self).register_operator.setup(),
                op0 == old(self).register_operator,
                w0 == op0.wire(),
                rd == (Register { ap: false, address: 3 }),
                spec_extends(old(self).register_operator.wire(), self.register_operator.wire()),
                count == len / 4,
                config == old(self).config,
                before == old(block)@,
                len == before.len(),
                block@.len() == len,
                i <= count,
                post_read == spec_posted(R::IS_JTAG, reg),
                !post_read ==> pre.len() == 0,
                post_read ==> spec_retried_read(any_read(op0), reg, pre, p0) && !p0.1.spec_has_errors(),
                segs.len() == i,
                res.len() == i,
                pre + spec_concat(segs) == spec_added(w0, self.register_operator.wire()),
                forall|k: int|
                    0 <= k < i ==> spec_retried_read(
                        any_read(op0),
                        if post_read && k == count - 1 { Register { ap: false, address: 3 } } else { reg },
                        #[trigger] segs[k],
                        res[k],
                    ),
                forall|k: int| 0 <= k < i ==> !(#[trigger] res[k]).1.spec_has_errors(),
                forall|k: int| 0 <= k < i ==> #[trigger] block@.subrange(4 * k, 4 * k + 4) == spec_u32_bytes(res[k].0),
                forall|j: int| 4 * i <= j < len ==> block@[j] == before[j],
                i > 0 ==> status == res[i - 1].1,
            decreases count - i,
        {
            let ghost wa = self.register_operator.wire();
            let ghost sa = self.register_operator;
            let target = if post_read && i >= count - 1 { rd } else { reg };
            let (value, new_status) = self.read_inner(target);
            proof {
                let wb = self.register_operator.wire();
                lemma_added_split(w0, wa, wb);
                lemma_same_setup_reads(op0, sa);
                let f1 = |e: Seq<WireEvent>, y: (u32, TransferStatus)| first_read(sa)(target, e, y);
                let a1 = |e: Seq<WireEvent>, y: (u32, TransferStatus)| any_read(sa)(target, e, y);
                let f2 = |e: Seq<WireEvent>, y: (u32, TransferStatus)| any_read(op0)(target, e, y);
                assert forall|e: Seq<WireEvent>, y: (u32, TransferStatus)| #[trigger] f1(e, y) implies f2(e, y) by {
                    assert(first_read(sa)(target, e, y));
                }
                assert forall|e: Seq<WireEvent>, y: (u32, TransferStatus)| #[trigger] a1(e, y) implies f2(e, y) by {
                    assert(any_read(sa)(target, e, y));
                }
                lemma_retried_weaken(f1, a1, f2, f2, spec_read_waiting(), spec_added(wa, wb), (value, new_status));
                let segs2 = segs.push(spec_added(wa, wb));
                let res2 = res.push((value, new_status));
                assert(segs2.drop_last() =~= segs);
                assert(pre + spec_concat(segs2) =~= spec_added(w0, wb)) by {
                    assert(spec_added(w0, wb) =~= spec_added(w0, wa) + spec_added(wa, wb));
                }
                assert(target == (if post_read && i == count - 1 { Register { ap: false, address: 3 } } else { reg }));
                assert forall|k: int|
                    0 <= k < i + 1 implies spec_retried_read(
                        any_read(op0),
                        if post_read && k == count - 1 { Register { ap: false, address: 3 } } else { reg },
                        #[trigger] segs2[k],
                        res2[k],
                    ) by {
                    if k < i {
                        assert(segs2[k] == segs[k] && res2[k] == res[k]);
                    }
                }
                segs = segs2;
                res = res2;
            }
            status = new_status;
            if status.has_errors() {
                proof {
                    let n = (i + 1) as int;
                    assert forall|k: int| 0 <= k < n - 1 implies !(#[trigger] res[k]).1.spec_has_errors() by {}
                    assert forall|k: int| 0 <= k < n - 1 implies #[trigger] block@.subrange(4 * k, 4 * k + 4) == spec_u32_bytes(res[k].0) by {}
                    assert(res[n - 1].1 == status);
                    assert(!(post_read && p0.1.spec_has_errors()));
                    assert(1 <= n <= count);
                    assert(segs.len() == n && res.len() == n);
                    assert(forall|j: int| 4 * (n - 1) <= j < block@.len() ==> #[trigger] block@[j] == before[j]);
                    assert(block@.len() == before.len());
                    assert(spec_posted(R::IS_JTAG, reg) == post_read);
                    assert(spec_block_read_steps(
                        spec_posted(R::IS_JTAG, reg),
                        any_read(op0),
                        reg,
                        before,
                        block@,
                        pre + spec_concat(segs),
                        ((i + 1) as usize, status),
                        pre,
                        p0,
                        segs,
                        res,
                    ));
                }
                return (i + 1, status);
            }
            assert(i * 4 + 4 <= len) by (nonlinear_arith)
                requires
                    i < count,
                    count == len / 4,
            ;
            let ghost b0 = block@;
            write_u32_le(block, i * 4, value);
            proof {
                assert forall|k: int| 0 <= k < i + 1 implies #[trigger] block@.subrange(4 * k, 4 * k + 4) == spec_u32_bytes(res[k].0) by {
                    if k < i {
                        assert(block@.subrange(4 * k, 4 * k + 4) =~= b0.subrange(4 * k, 4 * k + 4));
                    } else {
                        assert(block@.subrange(4 * k, 4 * k + 4) =~= spec_u32_bytes(value));
                    }
                }
                assert forall|k: int| 0 <= k < i + 1 implies !(#[trigger] res[k]).1.spec_has_errors() by {
                    if k == i {
                        assert(res[k].1 == new_status);
                    }
                }
            }
            i = i + 1;
        }
        proof {
            let n = count as int;
            assert(spec_block_read_steps(
                spec_posted(R::IS_JTAG, reg),
                any_read(op0),
                reg,
                before,
                block@,
                pre + spec_concat(segs),
                (count, status),
                pre,
                p0,
                segs,
                res,
            ));
        }
        (count, status)
    }

    /// Reads `reg` until its masked value equals `match_value`, at most
    /// `match_retry + 1` times.
    fn read_match(&mut self, reg: Register, match_value: u32) -> (r: TransferStatus)
        requires
            old(self).wf(),
        ensures
            final(self).wf(),
            final(self).config == old(self).config,
            final(self).register_operator.setup() == old(self).register_operator.setup(),
            r.value_mismatch ==> !r.protocol_error && r.ack.spec_is_ok(),
            R::access_status((TransferStatus { ack: r.ack, protocol_error: r.protocol_error, value_mismatch: false })),
            spec_extends(old(self).register_operator.wire(), final(self).register_operator.wire()),
            ({
                let ev = spec_added(old(self).register_operator.wire(), final(self).register_operator.wire());
                let mask = old(self).config.match_mask;
                let posted = spec_posted(R::IS_JTAG, reg);
                &&& exists|k: int, r1: (u32, TransferStatus)|
                    0 <= k <= ev.len() && #[trigger] spec_posted_read(
                        posted,
                        first_read(old(self).register_operator),
                        any_read(old(self).register_operator),
                        reg,
                        ev.take(k),
                        r1,
                    ) && (r1.1.spec_has_errors() || r1.0 & mask == match_value ==> k == ev.len() && r == r1.1)
                &&& exists|j: int, rl: (u32, TransferStatus)|
                    0 <= j <= ev.len() && #[trigger] spec_posted_read(
                        posted,
                        any_read(old(self).register_operator),
                        any_read(old(self).register_operator),
                        reg,
                        ev.skip(j),
                        rl,
                    ) && r.ack == rl.1.ack && r.protocol_error == rl.1.protocol_error && (r.value_mismatch
                        ==> !rl.1.spec_has_errors() && rl.0 & mask != match_value)
            }),
    {
        let ghost config = self.config;
        let ghost op0 = self.register_operator;
        let ghost w0 = self.register_operator.wire();
        let ghost posted = spec_posted(R::IS_JTAG, reg);
        let ghost mask = config.match_mask;
        let ghost mut k1: int = 0;
        let ghost mut r1: (u32, TransferStatus) = (0u32, TransferStatus::spec_default());
        let ghost mut jl: int = 0;
        let ghost mut rl: (u32, TransferStatus) = (0u32, TransferStatus::spec_default());
        let mut status = TransferStatus::default();
        let tries = self.config.match_retry + 1;
        let mut k: usize = 0;
        while k < tries
            invariant_except_break
                k == 0 ==> self.register_operator == op0,
                k == 0 ==> self.register_operator.wire() == w0,
                k > 0 ==> 0 <= k1 <= spec_added(w0, self.register_operator.wire()).len() && spec_posted_read(
                    posted,
                    first_read(op0),
                    any_read(op0),
                    reg,
                    spec_added(w0, self.register_operator.wire()).take(k1),
                    r1,
                ) && !r1.1.spec_has_errors() && r1.0 & mask != match_value,
                k > 0 ==> 0 <= jl <= spec_added(w0, self.register_operator.wire()).len() && spec_posted_read(
                    posted,
                    any_read(op0),
                    any_read(op0),
                    reg,
                    spec_added(w0, self.register_operator.wire()).skip(jl),
                    rl,
                ) && status.ack == rl.1.ack && status.protocol_error == rl.1.protocol_error && status.value_mismatch
                    && !rl.1.spec_has_errors() && rl.0 & mask != match_value,
            invariant
                self.wf(),
                self.config == config,
                tries == config.match_retry + 1,
                status.value_mismatch ==> !status.protocol_error && status.ack.spec_is_ok(),
                k > 0 ==> R::access_status(
                    (TransferStatus { ack: status.ack, protocol_error: status.protocol_error, value_mismatch: false }),
                ),
                self.register_operator.setup() == op0.setup(),
                spec_extends(w0, self.register_operator.wire()),
                posted == spec_posted(R::IS_JTAG, reg),
                mask == config.match_mask,
            ensures
                self.wf(),
                self.config == config,
                self.register_operator.setup() == op0.setup(),
                spec_extends(w0, self.register_operator.wire()),
                status.value_mismatch ==> !status.protocol_error && status.ack.spec_is_ok(),
                R::access_status(
                    (TransferStatus { ack: status.ack, protocol_error: status.protocol_error, value_mismatch: false }),
                ),
                0 <= k1 <= spec_added(w0, self.register_operator.wire()).len(),
                spec_posted_read(
                    posted,
                    first_read(op0),
                    any_read(op0),
                    reg,
                    spec_added(w0, self.register_operator.wire()).take(k1),
                    r1,
                ),
                r1.1.spec_has_errors() || r1.0 & mask == match_value ==> k1 == spec_added(
                    w0,
                    self.register_operator.wire(),
                ).len() && status == r1.1,
                0 <= jl <= spec_added(w0, self.register_operator.wire()).len(),
                spec_posted_read(
                    posted,
                    any_read(op0),
                    any_read(op0),
                    reg,
                    spec_added(w0, self.register_operator.wire()).skip(jl),
                    rl,
                ),
                status.ack == rl.1.ack && status.protocol_error == rl.1.protocol_error,
                status.value_mismatch ==> !rl.1.spec_has_errors() && rl.0 & mask != match_value,
            decreases tries - k,
        {
            let ghost wa = self.register_operator.wire();
            let ghost sa = self.register_operator;
            let (value, new_status) = self.read(reg);
            proof {
                let wb = self.register_operator.wire();
                lemma_added_split(w0, wa, wb);
                lemma_same_setup_reads(op0, sa);
                lemma_posted_weaken(
                    posted,
                    first_read(sa),
                    any_read(sa),
                    any_read(op0),
                    any_read(op0),
                    reg,
                    spec_added(wa, wb),
                    (value, new_status),
                );
                jl = spec_added(w0, wa).len() as int;
                rl = (value, new_status);
                if k == 0 {
                    assert(sa == op0);
                    assert(wa == w0);
                    assert(spec_added(w0, wa).len() == 0);
                    assert(spec_added(wa, wb) =~= spec_added(w0, wb));
                    assert(sa == op0);
                    k1 = spec_added(w0, wb).len() as int;
                    r1 = (value, new_status);
                    assert(spec_added(w0, wb).take(k1) =~= spec_added(w0, wb));
                } else {
                    assert(spec_added(w0, wb).take(k1) =~= spec_added(w0, wa).take(k1));
                }
            }
            status = new_status;
            if self.abort.is_set() || status.has_errors() {
                break;
            }
            status.value_mismatch = (value & self.config.match_mask) != match_value;
            if !status.value_mismatch {
                break;
            }
            k = k + 1;
        }
        proof {
            let ev = spec_added(w0, self.register_operator.wire());
            assert(spec_posted_read(posted, first_read(op0), any_read(op0), reg, ev.take(k1), r1));
            assert(spec_posted_read(posted, any_read(op0), any_read(op0), reg, ev.skip(jl), rl));
        }
        status
    }
}


/// The SWD reads a port with timing `cfg` makes: of a register, the
/// traffic and the result.
pub open spec fn spec_swd_reads(cfg: SWD) -> spec_fn(Register, Seq<WireEvent>, (u32, TransferStatus)) -> bool {
    |g: Register, e: Seq<WireEvent>, x: (u32, TransferStatus)|
        spec_swd_read_access(g, cfg.turnaround, cfg.always_data_phase, e, x)
}

/// The SWD writes of `data` to `reg` a port with timing `cfg` makes.
pub open spec fn spec_swd_writes(cfg: SWD, reg: Register, data: u32) -> spec_fn(Seq<WireEvent>, TransferStatus) -> bool {
    |e: Seq<WireEvent>, x: TransferStatus| spec_swd_write_access(reg, data, cfg.turnaround, cfg.always_data_phase, e, x)
}

/// Whether `ev` is the SWD traffic of a transfer read of `reg` that gives
/// `r`: the read, retried on WAIT, and for an AP register the read of
/// RDBUFF that collects the posted value.
pub open spec fn spec_swd_transfer_read(cfg: SWD, reg: Register, ev: Seq<WireEvent>, r: (u32, TransferStatus)) -> bool {
    spec_posted_read(reg.ap, spec_swd_reads(cfg), spec_swd_reads(cfg), reg, ev, r)
}

/// Whether `ev` is the SWD traffic of a transfer write of `data` to `reg`
/// that gives `r`: the write, retried on WAIT.
pub open spec fn spec_swd_transfer_write(cfg: SWD, reg: Register, data: u32, ev: Seq<WireEvent>, r: TransferStatus) -> bool {
    spec_retried(spec_swd_writes(cfg, reg, data), spec_swd_writes(cfg, reg, data), spec_write_waiting(), ev, r)
}

/// Whether `ev` is the traffic of a read of `reg` until its value under
/// `mask` is `match_value`, giving `r`, where `reads` says which reads of a
/// register can happen: it starts with a transfer read whose result is all
/// there is when that read failed or matched, and it ends with a transfer
/// read whose acknowledge and protocol error `r` carries, with a value
/// mismatch only when that read succeeded and did not match.
pub open spec fn spec_read_match_traffic(
    posted: bool,
    reads: spec_fn(Register, Seq<WireEvent>, (u32, TransferStatus)) -> bool,
    mask: u32,
    reg: Register,
    match_value: u32,
    ev: Seq<WireEvent>,
    r: TransferStatus,
) -> bool {
    &&& exists|k: int, r1: (u32, TransferStatus)|
        0 <= k <= ev.len() && #[trigger] spec_posted_read(posted, reads, reads, reg, ev.take(k), r1) && (
        r1.1.spec_has_errors() || r1.0 & mask == match_value ==> k == ev.len() && r == r1.1)
    &&& exists|j: int, rl: (u32, TransferStatus)|
        0 <= j <= ev.len() && #[trigger] spec_posted_read(posted, reads, reads, reg, ev.skip(j), rl) && r.ack
            == rl.1.ack && r.protocol_error == rl.1.protocol_error && (r.value_mismatch ==> !rl.1.spec_has_errors()
            && rl.0 & mask != match_value)
}

/// The SWD traffic of a read with match on a port with timing `cfg`.
pub open spec fn spec_swd_transfer_read_match(
    cfg: SWD,
    mask: u32,
    reg: Register,
    match_value: u32,
    ev: Seq<WireEvent>,
    r: TransferStatus,
) -> bool {
    spec_read_match_traffic(reg.ap, spec_swd_reads(cfg), mask, reg, match_value, ev, r)
}

/// The place in the chain of device `index`: its IR bits, the IR bits
/// before and after it, its index and the number of devices.
pub open spec fn spec_jtag_chain(jtag: JTAG, index: usize) -> (usize, usize, usize, usize, usize) {
    (
        jtag.ir_lengths@[index as int] as usize,
        spec_ir_sum(jtag.ir_lengths@, index as int) as usize,
        (spec_ir_sum(jtag.ir_lengths@, jtag.device_count as int) - spec_ir_sum(jtag.ir_lengths@, index + 1)) as usize,
        index,
        jtag.device_count,
    )
}

/// The accesses through a JTAG operator are the JTAG accesses of its place
/// in the chain.
proof fn lemma_jtag_bridge<'p, P: JTAGAccessPort>(op0: JTAGOperator<'p, P>, reg: Register, data: u32)
    ensures
        forall|g: Register, e: Seq<WireEvent>, x: (u32, TransferStatus)|
            #[trigger] first_read(op0)(g, e, x) ==> spec_jtag_reads(op0.chain())(g, e, x),
        forall|g: Register, e: Seq<WireEvent>, x: (u32, TransferStatus)|
            #[trigger] any_read(op0)(g, e, x) ==> spec_jtag_reads(op0.chain())(g, e, x),
        forall|e: Seq<WireEvent>, x: TransferStatus|
            #[trigger] first_write(op0, reg, data)(e, x) ==> spec_jtag_writes(op0.chain(), reg, data)(e, x),
        forall|e: Seq<WireEvent>, x: TransferStatus|
            #[trigger] any_write(op0, reg, data)(e, x) ==> spec_jtag_writes(op0.chain(), reg, data)(e, x),
{
    assert forall|g: Register, e: Seq<WireEvent>, x: (u32, TransferStatus)|
        #[trigger] first_read(op0)(g, e, x) implies spec_jtag_reads(op0.chain())(g, e, x) by {
        let res = choose|res: Result<u32, TransferAck>|
            op0.access_traffic(g, (0x01u8 | (g.address << 1u8)) as u8, 0, e, res) && x == (
                spec_jtag_value_of(res),
                spec_jtag_status_of(res),
            );
        assert(spec_jtag_access_at(op0.chain(), op0.instruction, g, (0x01u8 | (g.address << 1u8)) as u8, 0, e, res));
    }
    assert forall|g: Register, e: Seq<WireEvent>, x: (u32, TransferStatus)|
        #[trigger] any_read(op0)(g, e, x) implies spec_jtag_reads(op0.chain())(g, e, x) by {
        let op = choose|op: JTAGOperator<'p, P>| op.setup() == op0.setup() && #[trigger] op.read_access(g, e, x);
        let res = choose|res: Result<u32, TransferAck>|
            op.access_traffic(g, (0x01u8 | (g.address << 1u8)) as u8, 0, e, res) && x == (
                spec_jtag_value_of(res),
                spec_jtag_status_of(res),
            );
        assert(spec_jtag_access_at(op0.chain(), op.instruction, g, (0x01u8 | (g.address << 1u8)) as u8, 0, e, res));
    }
    assert forall|e: Seq<WireEvent>, x: TransferStatus|
        #[trigger] first_write(op0, reg, data)(e, x) implies spec_jtag_writes(op0.chain(), reg, data)(e, x) by {
        let res = choose|res: Result<u32, TransferAck>|
            op0.access_traffic(reg, (reg.address << 1u8) as u8, data, e, res) && x == spec_jtag_status_of(res);
        assert(spec_jtag_access_at(op0.chain(), op0.instruction, reg, (reg.address << 1u8) as u8, data, e, res));
    }
    assert forall|e: Seq<WireEvent>, x: TransferStatus|
        #[trigger] any_write(op0, reg, data)(e, x) implies spec_jtag_writes(op0.chain(), reg, data)(e, x) by {
        let op = choose|op: JTAGOperator<'p, P>| op.setup() == op0.setup() && #[trigger] op.write_access(reg, data, e, x);
        let res = choose|res: Result<u32, TransferAck>|
            op.access_traffic(reg, (reg.address << 1u8) as u8, data, e, res) && x == spec_jtag_status_of(res);
        assert(spec_jtag_access_at(op0.chain(), op.instruction, reg, (reg.address << 1u8) as u8, data, e, res));
    }
}

/// The accesses through an SWD operator are the SWD accesses of its timing.
proof fn lemma_swd_bridge<'p, P: SWDAccessPort>(op0: SWDOperator<'p, P>, reg: Register, data: u32)
    ensures
        forall|g: Register, e: Seq<WireEvent>, x: (u32, TransferStatus)|
            #[trigger] first_read(op0)(g, e, x) ==> spec_swd_reads(op0.config)(g, e, x),
        forall|g: Register, e: Seq<WireEvent>, x: (u32, TransferStatus)|
            #[trigger] any_read(op0)(g, e, x) ==> spec_swd_reads(op0.config)(g, e, x),
        forall|e: Seq<WireEvent>, x: TransferStatus|
            #[trigger] first_write(op0, reg, data)(e, x) ==> spec_swd_writes(op0.config, reg, data)(e, x),
        forall|e: Seq<WireEvent>, x: TransferStatus|
            #[trigger] any_write(op0, reg, data)(e, x) ==> spec_swd_writes(op0.config, reg, data)(e, x),
{
    assert forall|g: Register, e: Seq<WireEvent>, x: (u32, TransferStatus)|
        #[trigger] any_read(op0)(g, e, x) implies spec_swd_reads(op0.config)(g, e, x) by {
        let op = choose|op: SWDOperator<'p, P>| op.setup() == op0.setup() && #[trigger] op.read_access(g, e, x);
        assert(op.config == op0.config);
    }
    assert forall|e: Seq<WireEvent>, x: TransferStatus|
        #[trigger] any_write(op0, reg, data)(e, x) implies spec_swd_writes(op0.config, reg, data)(e, x) by {
        let op = choose|op: SWDOperator<'p, P>| op.setup() == op0.setup() && #[trigger] op.write_access(reg, data, e, x);
        assert(op.config == op0.config);
    }
}

/// A read with match through an operator whose reads are among `reads` is
/// a read with match over `reads`.
proof fn lemma_match_bridge<R: RegisterOperator>(
    op0: R,
    reads: spec_fn(Register, Seq<WireEvent>, (u32, TransferStatus)) -> bool,
    mask: u32,
    reg: Register,
    match_value: u32,
    ev: Seq<WireEvent>,
    r: TransferStatus,
)
    requires
        forall|g: Register, e: Seq<WireEvent>, x: (u32, TransferStatus)| #[trigger] first_read(op0)(g, e, x) ==> reads(g, e, x),
        forall|g: Register, e: Seq<WireEvent>, x: (u32, TransferStatus)| #[trigger] any_read(op0)(g, e, x) ==> reads(g, e, x),
        ({
            let posted = spec_posted(R::IS_JTAG, reg);
            &&& exists|k: int, r1: (u32, TransferStatus)|
                0 <= k <= ev.len() && #[trigger] spec_posted_read(posted, first_read(op0), any_read(op0), reg, ev.take(k), r1)
                    && (r1.1.spec_has_errors() || r1.0 & mask == match_value ==> k == ev.len() && r == r1.1)
            &&& exists|j: int, rl: (u32, TransferStatus)|
                0 <= j <= ev.len() && #[trigger] spec_posted_read(posted, any_read(op0), any_read(op0), reg, ev.skip(j), rl)
                    && r.ack == rl.1.ack && r.protocol_error == rl.1.protocol_error && (r.value_mismatch
                    ==> !rl.1.spec_has_errors() && rl.0 & mask != match_value)
        }),
    ensures
        spec_read_match_traffic(spec_posted(R::IS_JTAG, reg), reads, mask, reg, match_value, ev, r),
{
    let posted = spec_posted(R::IS_JTAG, reg);
    let (k, r1) = choose|k: int, r1: (u32, TransferStatus)|
        0 <= k <= ev.len() && #[trigger] spec_posted_read(posted, first_read(op0), any_read(op0), reg, ev.take(k), r1)
            && (r1.1.spec_has_errors() || r1.0 & mask == match_value ==> k == ev.len() && r == r1.1);
    lemma_posted_weaken(posted, first_read(op0), any_read(op0), reads, reads, reg, ev.take(k), r1);
    let (j, rl) = choose|j: int, rl: (u32, TransferStatus)|
        0 <= j <= ev.len() && #[trigger] spec_posted_read(posted, any_read(op0), any_read(op0), reg, ev.skip(j), rl)
            && r.ack == rl.1.ack && r.protocol_error == rl.1.protocol_error && (r.value_mismatch
            ==> !rl.1.spec_has_errors() && rl.0 & mask != match_value);
    lemma_posted_weaken(posted, any_read(op0), any_read(op0), reads, reads, reg, ev.skip(j), rl);
}

/// Every SWD write a port with timing `cfg` makes.
pub open spec fn spec_swd_all_writes(cfg: SWD) -> spec_fn(Register, u32, Seq<WireEvent>, TransferStatus) -> bool {
    |g: Register, d: u32, e: Seq<WireEvent>, x: TransferStatus| spec_swd_writes(cfg, g, d)(e, x)
}

/// Every JTAG write the device at `chain` makes.
pub open spec fn spec_jtag_all_writes(chain: (usize, usize, usize, usize, usize)) -> spec_fn(
    Register,
    u32,
    Seq<WireEvent>,
    TransferStatus,
) -> bool {
    |g: Register, d: u32, e: Seq<WireEvent>, x: TransferStatus| spec_jtag_writes(chain, g, d)(e, x)
}

/// A retried write stays one when what its single writes may be is
/// widened.
proof fn lemma_retried_write_weaken(
    w1: spec_fn(Register, u32, Seq<WireEvent>, TransferStatus) -> bool,
    w2: spec_fn(Register, u32, Seq<WireEvent>, TransferStatus) -> bool,
    reg: Register,
    data: u32,
    ev: Seq<WireEvent>,
    r: TransferStatus,
)
    requires
        spec_retried_write(w1, reg, data, ev, r),
        forall|g: Register, d: u32, e: Seq<WireEvent>, x: TransferStatus| #[trigger] w1(g, d, e, x) ==> w2(g, d, e, x),
    ensures
        spec_retried_write(w2, reg, data, ev, r),
{
    let f1 = |e: Seq<WireEvent>, x: TransferStatus| w1(reg, data, e, x);
    let f2 = |e: Seq<WireEvent>, x: TransferStatus| w2(reg, data, e, x);
    assert forall|e: Seq<WireEvent>, x: TransferStatus| #[trigger] f1(e, x) implies f2(e, x) by {
        assert(w1(reg, data, e, x));
    }
    lemma_retried_weaken(f1, f1, f2, f2, spec_write_waiting(), ev, r);
}

/// A retried read stays one when what its single reads may be is widened.
proof fn lemma_retried_read_weaken(
    r1: spec_fn(Register, Seq<WireEvent>, (u32, TransferStatus)) -> bool,
    r2: spec_fn(Register, Seq<WireEvent>, (u32, TransferStatus)) -> bool,
    reg: Register,
    ev: Seq<WireEvent>,
    r: (u32, TransferStatus),
)
    requires
        spec_retried_read(r1, reg, ev, r),
        forall|g: Register, e: Seq<WireEvent>, x: (u32, TransferStatus)| #[trigger] r1(g, e, x) ==> r2(g, e, x),
    ensures
        spec_retried_read(r2, reg, ev, r),
{
    let f1 = |e: Seq<WireEvent>, x: (u32, TransferStatus)| r1(reg, e, x);
    let f2 = |e: Seq<WireEvent>, x: (u32, TransferStatus)| r2(reg, e, x);
    assert forall|e: Seq<WireEvent>, x: (u32, TransferStatus)| #[trigger] f1(e, x) implies f2(e, x) by {
        assert(r1(reg, e, x));
    }
    lemma_retried_weaken(f1, f1, f2, f2, spec_read_waiting(), ev, r);
}

/// A block write stays one when what its single accesses may be is
/// widened.
proof fn lemma_block_write_weaken(
    w1: spec_fn(Register, u32, Seq<WireEvent>, TransferStatus) -> bool,
    r1: spec_fn(Register, Seq<WireEvent>, (u32, TransferStatus)) -> bool,
    w2: spec_fn(Register, u32, Seq<WireEvent>, TransferStatus) -> bool,
    r2: spec_fn(Register, Seq<WireEvent>, (u32, TransferStatus)) -> bool,
    reg: Register,
    block: Seq<u8>,
    ev: Seq<WireEvent>,
    r: (usize, TransferStatus),
)
    requires
        spec_block_write_traffic(w1, r1, reg, block, ev, r),
        forall|g: Register, d: u32, e: Seq<WireEvent>, x: TransferStatus| #[trigger] w1(g, d, e, x) ==> w2(g, d, e, x),
        forall|g: Register, e: Seq<WireEvent>, x: (u32, TransferStatus)| #[trigger] r1(g, e, x) ==> r2(g, e, x),
    ensures
        spec_block_write_traffic(w2, r2, reg, block, ev, r),
{
    let (segs, sts) = choose|segs: Seq<Seq<WireEvent>>, sts: Seq<TransferStatus>|
        #[trigger] spec_block_write_steps(w1, r1, reg, block, ev, r, segs, sts);
    let n = r.0 as int;
    assert forall|i: int| 0 <= i < n implies spec_retried_write(w2, reg, spec_u32_le(block, 4 * i), #[trigger] segs[i], sts[i]) by {
        lemma_retried_write_weaken(w1, w2, reg, spec_u32_le(block, 4 * i), segs[i], sts[i]);
    }
    if !sts[n - 1].spec_has_errors() {
        let rest = ev.skip(spec_concat(segs).len() as int);
        let x = choose|x: u32| spec_retried_read(r1, Register { ap: false, address: 3 }, rest, (x, r.1));
        lemma_retried_read_weaken(r1, r2, Register { ap: false, address: 3 }, rest, (x, r.1));
    }
    assert(spec_block_write_steps(w2, r2, reg, block, ev, r, segs, sts));
}

/// A block read stays one when what its single reads may be is widened.
proof fn lemma_block_read_weaken(
    posted: bool,
    r1: spec_fn(Register, Seq<WireEvent>, (u32, TransferStatus)) -> bool,
    r2: spec_fn(Register, Seq<WireEvent>, (u32, TransferStatus)) -> bool,
    reg: Register,
    before: Seq<u8>,
    after: Seq<u8>,
    ev: Seq<WireEvent>,
    r: (usize, TransferStatus),
)
    requires
        spec_block_read_traffic(posted, r1, reg, before, after, ev, r),
        forall|g: Register, e: Seq<WireEvent>, x: (u32, TransferStatus)| #[trigger] r1(g, e, x) ==> r2(g, e, x),
    ensures
        spec_block_read_traffic(posted, r2, reg, before, after, ev, r),
{
    let count = before.len() / 4;
    let (pre, p0, segs, res) = choose|pre: Seq<WireEvent>, p0: (u32, TransferStatus), segs: Seq<Seq<WireEvent>>, res: Seq<(u32, TransferStatus)>|
        #[trigger] spec_block_read_steps(posted, r1, reg, before, after, ev, r, pre, p0, segs, res);
    if posted {
        lemma_retried_read_weaken(r1, r2, reg, pre, p0);
    }
    if !(posted && p0.1.spec_has_errors()) {
        let n = r.0 as int;
        assert forall|i: int| 0 <= i < n implies spec_retried_read(
            r2,
            if posted && i == count - 1 { Register { ap: false, address: 3 } } else { reg },
            #[trigger] segs[i],
            res[i],
        ) by {
            lemma_retried_read_weaken(
                r1,
                r2,
                if posted && i == count - 1 { Register { ap: false, address: 3 } } else { reg },
                segs[i],
                res[i],
            );
        }
    }
    assert(spec_block_read_steps(posted, r2, reg, before, after, ev, r, pre, p0, segs, res));
}

/// A debug access port: the probe's pins behind the SWD and JTAG protocol
/// engines, with the transfer configuration the host has set.
pub struct DebugAccessPort<P> {
    pub port: P,
    pub transfer_config: Transfer,
    pub state: ConnectionState,
    /// The calls made on the port so far: register transfers, SWJ pins,
    /// clock and sequences, and SWD and JTAG sequences.
    pub wire: Ghost<Seq<WireEvent>>,
}

impl<P> DebugAccessPort<P> {
    /// A disconnected port with the default transfer configuration.
    pub fn new(port: P) -> (r: Self)
        ensures
            r.state() == ConnectionState::Disconnected,
            r.transfer_config.wf(),
            r.transfer_config.is_default(),
    {
        Self {
            port,
            transfer_config: Transfer::default(),
            state: ConnectionState::Disconnected,
            wire: Ghost(Seq::empty()),
        }
    }

    /// The protocol the port is connected with.
    pub open spec fn state(&self) -> ConnectionState {
        self.state
    }

    /// A transfer for device `index` reaches the target: SWD is connected,
    /// or JTAG is connected and the chain has such a device.
    pub open spec fn engaged(&self, index: u8) -> bool {
        ||| self.state() == ConnectionState::SWD
        ||| (self.state() == ConnectionState::JTAG && index < self.transfer_config.jtag.device_count)
    }
}

impl<P: JTAGAccessPort + SWJAccessPort + SWDAccessPort> DebugAccessPort<P> {
    /// Connects with the requested protocol (the default is SWD). On success
    /// the port is in that protocol; on failure its state is unchanged.
    pub fn connect(&mut self, mode: ConnectMode) -> (r: Result<ConnectMode, ()>)
        ensures
            final(self).transfer_config == old(self).transfer_config,
            match r {
                Ok(m) => {
                    ||| (m == ConnectMode::SWD && (mode == ConnectMode::Default || mode == ConnectMode::SWD)
                        && <P as SWDAccessPort>::SUPPORTED && final(self).state() == ConnectionState::SWD)
                    ||| (m == ConnectMode::JTAG && mode == ConnectMode::JTAG && <P as JTAGAccessPort>::SUPPORTED
                        && final(self).state() == ConnectionState::JTAG)
                },
                Err(_) => final(self).state() == old(self).state(),
            },
            mode is Unknown ==> r is Err,
            ({
                ||| mode is Unknown
                ||| ((mode is Default || mode is SWD) && !<P as SWDAccessPort>::SUPPORTED)
                ||| (mode is JTAG && !<P as JTAGAccessPort>::SUPPORTED)
            }) ==> r is Err && *final(self) == *old(self),
    {
        match mode {
            ConnectMode::Default | ConnectMode::SWD => {
                if <P as SWDAccessPort>::SUPPORTED {
                    if <P as SWDAccessPort>::open(&mut self.port) {
                        self.state = ConnectionState::SWD;
                        return Ok(ConnectMode::SWD);
                    }
                }
            },
            ConnectMode::JTAG => {
                if <P as JTAGAccessPort>::SUPPORTED {
                    if <P as JTAGAccessPort>::open(&mut self.port) {
                        self.state = ConnectionState::JTAG;
                        return Ok(ConnectMode::JTAG);
                    }
                }
            },
            _ => {},
        }
        Err(())
    }

    /// Closes whichever protocol is open; the port is then disconnected.
    pub fn disconnect(&mut self) -> (r: bool)
        ensures
            final(self).state() == ConnectionState::Disconnected,
            final(self).transfer_config == old(self).transfer_config,
            old(self).state() == ConnectionState::Disconnected ==> r,
    {
        match self.state {
            ConnectionState::SWD => {
                self.state = ConnectionState::Disconnected;
                <P as SWDAccessPort>::close(&mut self.port)
            },
            ConnectionState::JTAG => {
                self.state = ConnectionState::Disconnected;
                <P as JTAGAccessPort>::close(&mut self.port)
            },
            ConnectionState::Disconnected => true,
        }
    }

    /// Drives and reads the SWJ pins.
    pub fn swj_pins(&mut self, out: Pins, mask: Pins, wait_us: u32) -> (r: Pins)
        ensures
            final(self).state() == old(self).state(),
            final(self).transfer_config == old(self).transfer_config,
            final(self).wire@ == old(self).wire@.push(
                WireEvent::SwjPins { output: out.0, select: mask.0, wait_us, input: r.0 },
            ),
    {
        let r = <P as SWJAccessPort>::pins(&mut self.port, out, mask, wait_us);
        let ghost w = self.wire@.push(WireEvent::SwjPins { output: out.0, select: mask.0, wait_us, input: r.0 });
        self.wire = Ghost(w);
        r
    }

    /// Sets the SWJ clock frequency.
    pub fn swj_clock(&mut self, freq_hz: u32) -> (r: bool)
        ensures
            final(self).state() == old(self).state(),
            final(self).transfer_config == old(self).transfer_config,
            final(self).wire@ == old(self).wire@.push(WireEvent::SwjClock { freq_hz, ok: r }),
    {
        let r = <P as SWJAccessPort>::set_frequency(&mut self.port, freq_hz);
        let ghost w = self.wire@.push(WireEvent::SwjClock { freq_hz, ok: r });
        self.wire = Ghost(w);
        r
    }

    /// Clocks out an SWJ sequence.
    pub fn swj_sequence(&mut self, num_bits: usize, data: &[u8]) -> (r: bool)
        ensures
            final(self).state() == old(self).state(),
            final(self).transfer_config == old(self).transfer_config,
            final(self).wire@ == old(self).wire@.push(WireEvent::SwjSequence { num_bits, data: data@, ok: r }),
    {
        let r = <P as SWJAccessPort>::write_sequence(&mut self.port, num_bits, data);
        let ghost w = self.wire@.push(WireEvent::SwjSequence { num_bits, data: data@, ok: r });
        self.wire = Ghost(w);
        r
    }

    /// Reads an SWD sequence; refused unless SWD is connected.
    pub fn swd_read_sequence(&mut self, num_bits: usize, data: &mut [u8]) -> (r: bool)
        requires
            num_bits <= old(data)@.len() * 8,
        ensures
            final(self).state() == old(self).state(),
            final(self).transfer_config == old(self).transfer_config,
            final(data)@.len() == old(data)@.len(),
            old(self).state() != ConnectionState::SWD ==> !r && final(data)@ == old(data)@ && *final(self)
                == *old(self),
            old(self).state() == ConnectionState::SWD ==> final(self).wire@ == old(self).wire@.push(
                WireEvent::SwdRead { num_bits, data: final(data)@, ok: r },
            ),
    {
        if self.state == ConnectionState::SWD {
            let r = <P as SWDAccessPort>::read(&mut self.port, num_bits, data);
            let ghost w = self.wire@.push(WireEvent::SwdRead { num_bits, data: data@, ok: r });
            self.wire = Ghost(w);
            r
        } else {
            false
        }
    }

    /// Writes an SWD sequence; refused unless SWD is connected.
    pub fn swd_write_sequence(&mut self, num_bits: usize, data: &[u8]) -> (r: bool)
        requires
            num_bits <= data@.len() * 8,
        ensures
            final(self).state() == old(self).state(),
            final(self).transfer_config == old(self).transfer_config,
            old(self).state() != ConnectionState::SWD ==> !r && *final(self) == *old(self),
            old(self).state() == ConnectionState::SWD ==> final(self).wire@ == old(self).wire@.push(
                WireEvent::SwdWrite { num_bits, data: data@, ok: r },
            ),
    {
        if self.state == ConnectionState::SWD {
            let r = <P as SWDAccessPort>::write(&mut self.port, num_bits, data);
            let ghost w = self.wire@.push(WireEvent::SwdWrite { num_bits, data: data@, ok: r });
            self.wire = Ghost(w);
            r
        } else {
            false
        }
    }

    /// Reads the ID code of JTAG device `index`; `None` unless JTAG is
    /// connected and the chain has that device.
    pub fn jtag_read_idcode(&mut self, index: u8) -> (r: Option<u32>)
        requires
            old(self).transfer_config.wf(),
        ensures
            final(self).state() == old(self).state(),
            final(self).transfer_config == old(self).transfer_config,
            r is Some <==> (old(self).state() == ConnectionState::JTAG && index
                < old(self).transfer_config.jtag.device_count),
            r is None ==> *final(self) == *old(self),
            spec_extends(old(self).wire@, final(self).wire@),
            r matches Some(v) ==> ({
                let chain = spec_jtag_chain(old(self).transfer_config.jtag, index as usize);
                let ir = spec_jtag_ir_traffic(chain.1, chain.0, chain.2, 0xFE);
                let ev = spec_added(old(self).wire@, final(self).wire@);
                &&& ev.take(ir.len() as int) == ir
                &&& spec_jtag_reg_traffic(chain.3, chain.4, JTAGInstruction::IDCode, 0, 0, ev.skip(ir.len() as int), Ok::<u32, TransferAck>(v))
            }),
    {
        let abort = AbortToken::new();
        if self.state == ConnectionState::JTAG {
            if let Some(mut transfer) = self.transfer_config.try_operate_jtag(index as usize, &mut self.port, &abort, self.wire) {
                let (id_code, status) = transfer.register_operator.read_idcode();
                let ghost w = transfer.register_operator.wire@;
                self.wire = Ghost(w);
                if !status.has_errors() {
                    return Some(id_code);
                }
            }
        }
        None
    }

    /// Shifts a JTAG sequence; refused unless JTAG is connected.
    pub fn jtag_sequence(&mut self, num_bits: usize, tms: bool, tdi: &[u8], tdo: &mut [u8]) -> (r: bool)
        ensures
            final(self).state() == old(self).state(),
            final(self).transfer_config == old(self).transfer_config,
            final(tdo)@.len() == old(tdo)@.len(),
            old(self).state() != ConnectionState::JTAG ==> !r && final(tdo)@ == old(tdo)@ && *final(self)
                == *old(self),
            old(self).state() == ConnectionState::JTAG ==> final(self).wire@ == old(self).wire@.push(
                WireEvent::JtagSequence { num_bits, tms, tdi: tdi@, tdo: final(tdo)@, ok: r },
            ),
    {
        if self.state == ConnectionState::JTAG {
            let r = <P as JTAGAccessPort>::transfer(&mut self.port, num_bits, tms, tdi, tdo);
            let ghost w = self.wire@.push(WireEvent::JtagSequence { num_bits, tms, tdi: tdi@, tdo: tdo@, ok: r });
            self.wire = Ghost(w);
            r
        } else {
            false
        }
    }

    /// Writes the DP abort register (through the ABORT instruction on JTAG).
    pub fn write_abort(&mut self, index: u8, value: u32, abort: &AbortToken) -> (r: TransferStatus)
        requires
            old(self).transfer_config.wf(),
        ensures
            final(self).state() == old(self).state(),
            final(self).transfer_config == old(self).transfer_config,
            !old(self).engaged(index) ==> r == TransferStatus::spec_default() && final(self).wire@ == old(self).wire@,
            !r.value_mismatch,
            spec_extends(old(self).wire@, final(self).wire@),
            old(self).state() == ConnectionState::SWD ==> spec_swd_transfer_write(
                old(self).transfer_config.swd,
                Register { ap: false, address: 0 },
                value,
                spec_added(old(self).wire@, final(self).wire@),
                r,
            ),
            old(self).state() == ConnectionState::JTAG && old(self).engaged(index) ==> exists|res: Result<u32, TransferAck>| {
                let chain = spec_jtag_chain(old(self).transfer_config.jtag, index as usize);
                let ir = spec_jtag_ir_traffic(chain.1, chain.0, chain.2, 0xF8);
                let ev = spec_added(old(self).wire@, final(self).wire@);
                &&& ev.take(ir.len() as int) == ir
                &&& spec_jtag_reg_traffic(chain.3, chain.4, JTAGInstruction::Abort, 0, value, ev.skip(ir.len() as int), res)
                &&& r == #[trigger] spec_jtag_status_of(res)
            },
    {
        match self.state {
            ConnectionState::SWD => {
                let reg = Register::debug_port(0);
                let mut op = self.transfer_config.operate_swd(&mut self.port, abort, self.wire);
                let ghost op0 = op.register_operator;
                let r = op.write(reg, value);
                let ghost w = op.register_operator.wire();
                proof {
                    lemma_swd_bridge(op0, reg, value);
                    lemma_retried_weaken(
                        first_write(op0, reg, value),
                        any_write(op0, reg, value),
                        spec_swd_writes(op0.config, reg, value),
                        spec_swd_writes(op0.config, reg, value),
                        spec_write_waiting(),
                        spec_added(op0.wire(), w),
                        r,
                    );
                }
                self.wire = Ghost(w);
                r
            },
            ConnectionState::JTAG => {
                if let Some(mut transfer) = self.transfer_config.try_operate_jtag(index as usize, &mut self.port, abort, self.wire) {
                    let r = transfer.register_operator.write_abort(value);
                    let ghost w = transfer.register_operator.wire@;
                    self.wire = Ghost(w);
                    r
                } else {
                    TransferStatus::default()
                }
            },
            ConnectionState::Disconnected => TransferStatus::default(),
        }
    }

    /// Writes a DP or AP register.
    pub fn transfer_write(&mut self, index: u8, register: Register, data: u32, abort: &AbortToken) -> (r: TransferStatus)
        requires
            old(self).transfer_config.wf(),
        ensures
            final(self).state() == old(self).state(),
            final(self).transfer_config == old(self).transfer_config,
            !old(self).engaged(index) ==> r == TransferStatus::spec_default(),
            !r.value_mismatch,
            old(self).state() == ConnectionState::SWD ==> spec_is_swd_access_status(r),
            old(self).state() == ConnectionState::JTAG && old(self).engaged(index) ==> spec_is_jtag_access_status(r),
            !old(self).engaged(index) ==> final(self).wire@ == old(self).wire@,
            spec_extends(old(self).wire@, final(self).wire@),
            old(self).state() == ConnectionState::SWD ==> spec_swd_transfer_write(
                old(self).transfer_config.swd,
                register,
                data,
                spec_added(old(self).wire@, final(self).wire@),
                r,
            ),
            old(self).state() == ConnectionState::JTAG && old(self).engaged(index) ==> spec_retried(
                spec_jtag_writes(spec_jtag_chain(old(self).transfer_config.jtag, index as usize), register, data),
                spec_jtag_writes(spec_jtag_chain(old(self).transfer_config.jtag, index as usize), register, data),
                spec_write_waiting(),
                spec_added(old(self).wire@, final(self).wire@),
                r,
            ),
    {
        match self.state {
            ConnectionState::SWD => {
                let mut op = self.transfer_config.operate_swd(&mut self.port, abort, self.wire);
                let ghost op0 = op.register_operator;
                let r = op.write(register, data);
                let ghost w = op.register_operator.wire();
                proof {
                    lemma_swd_bridge(op0, register, data);
                    lemma_retried_weaken(
                        first_write(op0, register, data),
                        any_write(op0, register, data),
                        spec_swd_writes(op0.config, register, data),
                        spec_swd_writes(op0.config, register, data),
                        spec_write_waiting(),
                        spec_added(op0.wire(), w),
                        r,
                    );
                }
                self.wire = Ghost(w);
                r
            },
            ConnectionState::JTAG => {
                if let Some(mut transfer) = self.transfer_config.try_operate_jtag(index as usize, &mut self.port, abort, self.wire) {
                    let ghost op0 = transfer.register_operator;
                    let r = transfer.write(register, data);
                    let ghost w = transfer.register_operator.wire();
                    proof {
                        lemma_jtag_bridge(op0, register, data);
                        lemma_retried_weaken(
                            first_write(op0, register, data),
                            any_write(op0, register, data),
                            spec_jtag_writes(op0.chain(), register, data),
                            spec_jtag_writes(op0.chain(), register, data),
                            spec_write_waiting(),
                            spec_added(op0.wire(), w),
                            r,
                        );
                    }
                    self.wire = Ghost(w);
                    r
                } else {
                    TransferStatus::default()
                }
            },
            ConnectionState::Disconnected => TransferStatus::default(),
        }
    }

    /// Reads a DP or AP register.
    pub fn transfer_read(&mut self, index: u8, register: Register, abort: &AbortToken) -> (r: (u32, TransferStatus))
        requires
            old(self).transfer_config.wf(),
        ensures
            final(self).state() == old(self).state(),
            final(self).transfer_config == old(self).transfer_config,
            !old(self).engaged(index) ==> r == (0u32, TransferStatus::spec_default()),
            !r.1.value_mismatch,
            old(self).state() == ConnectionState::SWD ==> spec_is_swd_access_status(r.1),
            old(self).state() == ConnectionState::JTAG && old(self).engaged(index) ==> spec_is_jtag_access_status(r.1),
            !old(self).engaged(index) ==> final(self).wire@ == old(self).wire@,
            spec_extends(old(self).wire@, final(self).wire@),
            old(self).state() == ConnectionState::SWD ==> spec_swd_transfer_read(
                old(self).transfer_config.swd,
                register,
                spec_added(old(self).wire@, final(self).wire@),
                r,
            ),
            old(self).state() == ConnectionState::JTAG && old(self).engaged(index) ==> spec_posted_read(
                true,
                spec_jtag_reads(spec_jtag_chain(old(self).transfer_config.jtag, index as usize)),
                spec_jtag_reads(spec_jtag_chain(old(self).transfer_config.jtag, index as usize)),
                register,
                spec_added(old(self).wire@, final(self).wire@),
                r,
            ),
    {
        match self.state {
            ConnectionState::SWD => {
                let mut op = self.transfer_config.operate_swd(&mut self.port, abort, self.wire);
                let ghost op0 = op.register_operator;
                let r = op.read(register);
                let ghost w = op.register_operator.wire();
                proof {
                    lemma_swd_bridge(op0, register, 0);
                    lemma_posted_weaken(
                        spec_posted(false, register),
                        first_read(op0),
                        any_read(op0),
                        spec_swd_reads(op0.config),
                        spec_swd_reads(op0.config),
                        register,
                        spec_added(op0.wire(), w),
                        r,
                    );
                }
                self.wire = Ghost(w);
                r
            },
            ConnectionState::JTAG => {
                if let Some(mut transfer) = self.transfer_config.try_operate_jtag(index as usize, &mut self.port, abort, self.wire) {
                    let ghost op0 = transfer.register_operator;
                    let r = transfer.read(register);
                    let ghost w = transfer.register_operator.wire();
                    proof {
                        lemma_jtag_bridge(op0, register, 0);
                        lemma_posted_weaken(
                            spec_posted(true, register),
                            first_read(op0),
                            any_read(op0),
                            spec_jtag_reads(op0.chain()),
                            spec_jtag_reads(op0.chain()),
                            register,
                            spec_added(op0.wire(), w),
                            r,
                        );
                    }
                    self.wire = Ghost(w);
                    r
                } else {
                    (0, TransferStatus::default())
                }
            },
            ConnectionState::Disconnected => (0, TransferStatus::default()),
        }
    }

    /// Reads a register until its value, under the configured mask, equals
    /// `match_value`.
    pub fn transfer_read_match(&mut self, index: u8, register: Register, match_value: u32, abort: &AbortToken) -> (r: TransferStatus)
        requires
            old(self).transfer_config.wf(),
        ensures
            final(self).state() == old(self).state(),
            final(self).transfer_config == old(self).transfer_config,
            !old(self).engaged(index) ==> r == TransferStatus::spec_default(),
            r.value_mismatch ==> !r.protocol_error && r.ack.spec_is_ok(),
            old(self).state() == ConnectionState::SWD ==> spec_is_swd_access_status(r),
            old(self).state() == ConnectionState::JTAG && old(self).engaged(index) ==> spec_is_jtag_access_status(
                (TransferStatus { ack: r.ack, protocol_error: r.protocol_error, value_mismatch: false }),
            ),
            !old(self).engaged(index) ==> final(self).wire@ == old(self).wire@,
            spec_extends(old(self).wire@, final(self).wire@),
            old(self).state() == ConnectionState::SWD ==> spec_swd_transfer_read_match(
                old(self).transfer_config.swd,
                old(self).transfer_config.match_mask,
                register,
                match_value,
                spec_added(old(self).wire@, final(self).wire@),
                r,
            ),
            old(self).state() == ConnectionState::JTAG && old(self).engaged(index) ==> spec_read_match_traffic(
                true,
                spec_jtag_reads(spec_jtag_chain(old(self).transfer_config.jtag, index as usize)),
                old(self).transfer_config.match_mask,
                register,
                match_value,
                spec_added(old(self).wire@, final(self).wire@),
                r,
            ),
    {
        match self.state {
            ConnectionState::SWD => {
                let mut op = self.transfer_config.operate_swd(&mut self.port, abort, self.wire);
                let ghost op0 = op.register_operator;
                let r = op.read_match(register, match_value);
                let ghost w = op.register_operator.wire();
                proof {
                    lemma_swd_bridge(op0, register, 0);
                    lemma_match_bridge(
                        op0,
                        spec_swd_reads(op0.config),
                        self.transfer_config.match_mask,
                        register,
                        match_value,
                        spec_added(op0.wire(), w),
                        r,
                    );
                }
                self.wire = Ghost(w);
                r
            },
            ConnectionState::JTAG => {
                if let Some(mut transfer) = self.transfer_config.try_operate_jtag(index as usize, &mut self.port, abort, self.wire) {
                    let ghost op0 = transfer.register_operator;
                    let r = transfer.read_match(register, match_value);
                    let ghost w = transfer.register_operator.wire();
                    proof {
                        lemma_jtag_bridge(op0, register, 0);
                        lemma_match_bridge(
                            op0,
                            spec_jtag_reads(op0.chain()),
                            self.transfer_config.match_mask,
                            register,
                            match_value,
                            spec_added(op0.wire(), w),
                            r,
                        );
                    }
                    self.wire = Ghost(w);
                    r
                } else {
                    TransferStatus::default()
                }
            },
            ConnectionState::Disconnected => TransferStatus::default(),
        }
    }

    /// Reads a block of words from a register; returns how many transfers
    /// were attempted and the last status.
    pub fn transfer_read_block(&mut self, index: u8, register: Register, block: &mut [u8], abort: &AbortToken) -> (r: (usize, TransferStatus))
        requires
            old(self).transfer_config.wf(),
            old(self).engaged(index) ==> old(block)@.len() >= 4,
        ensures
            final(self).state() == old(self).state(),
            final(self).transfer_config == old(self).transfer_config,
            final(block)@.len() == old(block)@.len(),
            !old(self).engaged(index) ==> r == (0usize, TransferStatus::spec_default()) && final(block)@ == old(block)@
                && final(self).wire@ == old(self).wire@,
            r.0 <= old(block)@.len() / 4,
            old(self).engaged(index) && r.0 < old(block)@.len() / 4 ==> r.1.spec_has_errors(),
            forall|j: int| 4 * r.0 <= j < old(block)@.len() ==> final(block)@[j] == old(block)@[j],
            spec_extends(old(self).wire@, final(self).wire@),
            old(self).state() == ConnectionState::SWD ==> spec_block_read_traffic(
                register.ap,
                spec_swd_reads(old(self).transfer_config.swd),
                register,
                old(block)@,
                final(block)@,
                spec_added(old(self).wire@, final(self).wire@),
                r,
            ),
            old(self).state() == ConnectionState::JTAG && old(self).engaged(index) ==> spec_block_read_traffic(
                true,
                spec_jtag_reads(spec_jtag_chain(old(self).transfer_config.jtag, index as usize)),
                register,
                old(block)@,
                final(block)@,
                spec_added(old(self).wire@, final(self).wire@),
                r,
            ),
    {
        match self.state {
            ConnectionState::SWD => {
                let ghost b0 = block@;
                let mut op = self.transfer_config.operate_swd(&mut self.port, abort, self.wire);
                let ghost op0 = op.register_operator;
                let r = op.read_block(register, block);
                let ghost w = op.register_operator.wire();
                proof {
                    lemma_swd_bridge(op0, register, 0);
                    lemma_block_read_weaken(
                        spec_posted(false, register),
                        any_read(op0),
                        spec_swd_reads(op0.config),
                        register,
                        b0,
                        block@,
                        spec_added(op0.wire(), w),
                        r,
                    );
                }
                self.wire = Ghost(w);
                r
            },
            ConnectionState::JTAG => {
                if let Some(mut transfer) = self.transfer_config.try_operate_jtag(index as usize, &mut self.port, abort, self.wire) {
                    let ghost b0 = block@;
                    let ghost op0 = transfer.register_operator;
                    let r = transfer.read_block(register, block);
                    let ghost w = transfer.register_operator.wire();
                    proof {
                        lemma_jtag_bridge(op0, register, 0);
                        lemma_block_read_weaken(
                            spec_posted(true, register),
                            any_read(op0),
                            spec_jtag_reads(op0.chain()),
                            register,
                            b0,
                            block@,
                            spec_added(op0.wire(), w),
                            r,
                        );
                    }
                    self.wire = Ghost(w);
                    r
                } else {
                    (0, TransferStatus::default())
                }
            },
            ConnectionState::Disconnected => (0, TransferStatus::default()),
        }
    }

    /// Writes a block of words to a register; returns how many transfers
    /// were attempted and the last status.
    pub fn transfer_write_block(&mut self, index: u8, register: Register, block: &[u8], abort: &AbortToken) -> (r: (usize, TransferStatus))
        requires
            old(self).transfer_config.wf(),
            old(self).engaged(index) ==> block@.len() >= 4,
        ensures
            final(self).state() == old(self).state(),
            final(self).transfer_config == old(self).transfer_config,
            !old(self).engaged(index) ==> r == (0usize, TransferStatus::spec_default()) && final(self).wire@ == old(self).wire@,
            old(self).engaged(index) ==> 1 <= r.0 <= block@.len() / 4,
            old(self).engaged(index) && r.0 < block@.len() / 4 ==> r.1.spec_has_errors(),
            spec_extends(old(self).wire@, final(self).wire@),
            old(self).state() == ConnectionState::SWD ==> spec_block_write_traffic(
                spec_swd_all_writes(old(self).transfer_config.swd),
                spec_swd_reads(old(self).transfer_config.swd),
                register,
                block@,
                spec_added(old(self).wire@, final(self).wire@),
                r,
            ),
            old(self).state() == ConnectionState::JTAG && old(self).engaged(index) ==> spec_block_write_traffic(
                spec_jtag_all_writes(spec_jtag_chain(old(self).transfer_config.jtag, index as usize)),
                spec_jtag_reads(spec_jtag_chain(old(self).transfer_config.jtag, index as usize)),
                register,
                block@,
                spec_added(old(self).wire@, final(self).wire@),
                r,
            ),
    {
        match self.state {
            ConnectionState::SWD => {
                let mut op = self.transfer_config.operate_swd(&mut self.port, abort, self.wire);
                let ghost op0 = op.register_operator;
                let r = op.write_block(register, block);
                let ghost w = op.register_operator.wire();
                proof {
                    lemma_swd_bridge(op0, register, 0);
                    assert forall|g: Register, d: u32, e: Seq<WireEvent>, x: TransferStatus|
                        #[trigger] all_writes(op0)(g, d, e, x) implies spec_swd_all_writes(op0.config)(g, d, e, x) by {
                        lemma_swd_bridge(op0, g, d);
                        assert(any_write(op0, g, d)(e, x));
                    }
                    lemma_block_write_weaken(
                        all_writes(op0),
                        any_read(op0),
                        spec_swd_all_writes(op0.config),
                        spec_swd_reads(op0.config),
                        register,
                        block@,
                        spec_added(op0.wire(), w),
                        r,
                    );
                }
                self.wire = Ghost(w);
                r
            },
            ConnectionState::JTAG => {
                if let Some(mut transfer) = self.transfer_config.try_operate_jtag(index as usize, &mut self.port, abort, self.wire) {
                    let ghost op0 = transfer.register_operator;
                    let r = transfer.write_block(register, block);
                    let ghost w = transfer.register_operator.wire();
                    proof {
                        lemma_jtag_bridge(op0, register, 0);
                        assert forall|g: Register, d: u32, e: Seq<WireEvent>, x: TransferStatus|
                            #[trigger] all_writes(op0)(g, d, e, x) implies spec_jtag_all_writes(op0.chain())(g, d, e, x) by {
                            lemma_jtag_bridge(op0, g, d);
                            assert(any_write(op0, g, d)(e, x));
                        }
                        lemma_block_write_weaken(
                            all_writes(op0),
                            any_read(op0),
                            spec_jtag_all_writes(op0.chain()),
                            spec_jtag_reads(op0.chain()),
                            register,
                            block@,
                            spec_added(op0.wire(), w),
                            r,
                        );
                    }
                    self.wire = Ghost(w);
                    r
                } else {
                    (0, TransferStatus::default())
                }
            },
            ConnectionState::Disconnected => (0, TransferStatus::default()),
        }
    }
}

} // verus!
