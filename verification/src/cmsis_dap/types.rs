//! Plain data types shared by the CMSIS-DAP codec and the access port engine.

use vstd::prelude::*;

verus! {

/// The mode requested by a host connect command.
#[derive(Clone, Copy, Debug, PartialEq, Eq, Structural)]
pub enum ConnectMode {
    Default,
    SWD,
    JTAG,
    Unknown(u8),
}

/// A host status report (connected / running indications).
#[derive(Clone, Copy, Debug, PartialEq, Eq, Structural)]
pub enum HostStatus {
    Connected(bool),
    Running(bool),
    Unknown(u8, u8),
}

/// A debug port or access port register, addressed by its two address bits.
#[derive(Clone, Copy, Debug, PartialEq, Eq, Structural)]
pub struct Register {
    pub ap: bool,
    pub address: u8,
}

impl Register {
    pub fn access_port(address: u8) -> (r: Self)
        ensures
            r == (Register { ap: true, address }),
    {
        Self { ap: true, address }
    }

    pub fn debug_port(address: u8) -> (r: Self)
        ensures
            r == (Register { ap: false, address }),
    {
        Self { ap: false, address }
    }

    /// The debug port read buffer register (DP address 3).
    pub fn rdbuff() -> (r: Self)
        ensures
            r == (Register { ap: false, address: 3 }),
    {
        Self::debug_port(0x03)
    }
}

/// The request byte of one transfer in a DAP transfer command.
#[derive(Clone, Copy, Debug, PartialEq, Eq, Structural)]
pub struct TransferRequest(pub u8);

impl TransferRequest {
    pub open spec fn spec_is_read(self) -> bool {
        self.0 & 0x02 != 0
    }

    pub open spec fn spec_is_value_match(self) -> bool {
        self.0 & 0x10 != 0
    }

    pub open spec fn spec_is_match_mask(self) -> bool {
        self.0 & 0x20 != 0
    }

    pub open spec fn spec_timestamp(self) -> bool {
        self.0 & 0x80 != 0
    }

    pub open spec fn spec_register(self) -> Register {
        Register { ap: self.0 & 0x01 != 0, address: (self.0 >> 2) & 0x03 }
    }

    pub fn is_read(&self) -> (r: bool)
        ensures
            r == self.spec_is_read(),
    {
        (self.0 & 0x02) != 0
    }

    pub fn is_value_match(&self) -> (r: bool)
        ensures
            r == self.spec_is_value_match(),
    {
        (self.0 & 0x10) != 0
    }

    pub fn is_match_mask(&self) -> (r: bool)
        ensures
            r == self.spec_is_match_mask(),
    {
        (self.0 & 0x20) != 0
    }

    pub fn timestamp(&self) -> (r: bool)
        ensures
            r == self.spec_timestamp(),
    {
        (self.0 & 0x80) != 0
    }

    pub fn get_register(&self) -> (r: Register)
        ensures
            r == self.spec_register(),
            r.address < 4,
    {
        let b = self.0;
        let address = (b >> 2) & 0x03;
        assert(((b >> 2) & 0x03) < 4) by (bit_vector);
        if self.0 & 0x01 == 0 {
            Register::debug_port(address)
        } else {
            Register::access_port(address)
        }
    }
}

/// The three acknowledge bits of a JTAG DP/AP access.
#[derive(Clone, Copy, Debug, PartialEq, Eq, Structural)]
pub struct JTAGTransferAck(pub u8);

impl Default for JTAGTransferAck {
    fn default() -> (r: Self)
        ensures
            r.0 == 0,
    {
        JTAGTransferAck(0)
    }
}

impl JTAGTransferAck {
    pub open spec fn spec_is_wait(self) -> bool {
        self.0 == 1
    }

    pub open spec fn spec_is_ok(self) -> bool {
        self.0 & 0x06 != 0
    }

    pub open spec fn spec_is_no_response(self) -> bool {
        self.0 == 7 || self.0 == 0
    }

    pub fn is_wait(&self) -> (r: bool)
        ensures
            r == self.spec_is_wait(),
    {
        self.0 == 1
    }

    pub fn is_ok(&self) -> (r: bool)
        ensures
            r == self.spec_is_ok(),
    {
        (self.0 & 0x06) != 0
    }

    pub fn is_no_response(&self) -> (r: bool)
        ensures
            r == self.spec_is_no_response(),
    {
        self.0 == 7 || self.0 == 0
    }
}

/// The three acknowledge bits of an SWD DP/AP access.
#[derive(Clone, Copy, Debug, PartialEq, Eq, Structural)]
pub struct SWDTransferAck(pub u8);

impl Default for SWDTransferAck {
    fn default() -> (r: Self)
        ensures
            r.0 == 0,
    {
        SWDTransferAck(0)
    }
}

impl SWDTransferAck {
    pub fn is_ok(&self) -> (r: bool)
        ensures
            r == (self.0 == 1),
    {
        self.0 == 1
    }

    pub fn is_wait(&self) -> (r: bool)
        ensures
            r == (self.0 == 2),
    {
        self.0 == 2
    }

    pub fn is_fault(&self) -> (r: bool)
        ensures
            r == (self.0 == 4),
    {
        self.0 == 4
    }

    pub fn is_no_response(&self) -> (r: bool)
        ensures
            r == (self.0 == 7),
    {
        self.0 == 7
    }
}

/// The acknowledge of a register access, by wire protocol.
#[derive(Clone, Copy, Debug, PartialEq, Eq, Structural)]
pub enum TransferAck {
    JTAG(JTAGTransferAck),
    SWD(SWDTransferAck),
}

impl Default for TransferAck {
    fn default() -> (r: Self)
        ensures
            r == TransferAck::SWD(SWDTransferAck(0)),
    {
        Self::SWD(SWDTransferAck(0))
    }
}

impl TransferAck {
    pub open spec fn spec_inner(self) -> u8 {
        match self {
            TransferAck::JTAG(a) => a.0,
            TransferAck::SWD(a) => a.0,
        }
    }

    pub open spec fn spec_is_wait(self) -> bool {
        match self {
            TransferAck::JTAG(a) => a.0 == 1,
            TransferAck::SWD(a) => a.0 == 2,
        }
    }

    pub open spec fn spec_is_ok(self) -> bool {
        match self {
            TransferAck::JTAG(a) => a.0 & 0x06 != 0,
            TransferAck::SWD(a) => a.0 == 1,
        }
    }

    pub open spec fn spec_is_fault(self) -> bool {
        match self {
            TransferAck::JTAG(_) => false,
            TransferAck::SWD(a) => a.0 == 4,
        }
    }

    pub open spec fn spec_is_no_response(self) -> bool {
        match self {
            TransferAck::JTAG(a) => a.0 == 7 || a.0 == 0,
            TransferAck::SWD(a) => a.0 == 7,
        }
    }

    pub fn jtag(value: u8) -> (r: Self)
        ensures
            r == TransferAck::JTAG(JTAGTransferAck(value)),
    {
        Self::JTAG(JTAGTransferAck(value))
    }

    pub fn swd(value: u8) -> (r: Self)
        ensures
            r == TransferAck::SWD(SWDTransferAck(value)),
    {
        Self::SWD(SWDTransferAck(value))
    }

    pub fn get_inner(&self) -> (r: u8)
        ensures
            r == self.spec_inner(),
    {
        match self {
            Self::JTAG(ack) => ack.0,
            Self::SWD(ack) => ack.0,
        }
    }

    pub fn is_wait(&self) -> (r: bool)
        ensures
            r == self.spec_is_wait(),
    {
        match self {
            Self::JTAG(ack) => ack.is_wait(),
            Self::SWD(ack) => ack.is_wait(),
        }
    }

    pub fn is_ok(&self) -> (r: bool)
        ensures
            r == self.spec_is_ok(),
    {
        match self {
            Self::JTAG(ack) => ack.is_ok(),
            Self::SWD(ack) => ack.is_ok(),
        }
    }

    pub fn is_fault(&self) -> (r: bool)
        ensures
            r == self.spec_is_fault(),
    {
        match self {
            Self::JTAG(_) => false,
            Self::SWD(ack) => ack.is_fault(),
        }
    }

    pub fn is_no_response(&self) -> (r: bool)
        ensures
            r == self.spec_is_no_response(),
    {
        match self {
            Self::JTAG(ack) => ack.is_no_response(),
            Self::SWD(ack) => ack.is_no_response(),
        }
    }
}

/// The outcome of one register transfer.
#[derive(Clone, Copy, Debug, PartialEq, Eq, Structural)]
pub struct TransferStatus {
    pub ack: TransferAck,
    pub protocol_error: bool,
    pub value_mismatch: bool,
}

impl Default for TransferStatus {
    fn default() -> (r: Self)
        ensures
            r == TransferStatus::spec_default(),
    {
        Self { ack: TransferAck::default(), protocol_error: false, value_mismatch: false }
    }
}

impl TransferStatus {
    /// A status carrying the SWD acknowledge 0 and no error flags.
    pub open spec fn spec_default() -> TransferStatus {
        TransferStatus {
            ack: TransferAck::SWD(SWDTransferAck(0)),
            protocol_error: false,
            value_mismatch: false,
        }
    }

    /// A successful status: SWD OK acknowledge, no error flags.
    pub open spec fn spec_ok() -> TransferStatus {
        TransferStatus {
            ack: TransferAck::SWD(SWDTransferAck(1)),
            protocol_error: false,
            value_mismatch: false,
        }
    }

    pub open spec fn spec_has_errors(self) -> bool {
        !self.ack.spec_is_ok() || self.protocol_error || self.value_mismatch
    }

    pub fn from_ack(ack: TransferAck) -> (r: Self)
        ensures
            r == (TransferStatus { ack, protocol_error: false, value_mismatch: false }),
    {
        Self { ack, protocol_error: false, value_mismatch: false }
    }

    pub fn ok() -> (r: Self)
        ensures
            r == TransferStatus::spec_ok(),
            !r.spec_has_errors(),
    {
        Self { ack: TransferAck::swd(1), protocol_error: false, value_mismatch: false }
    }

    pub fn has_errors(&self) -> (r: bool)
        ensures
            r == self.spec_has_errors(),
    {
        !self.ack.is_ok() || self.protocol_error || self.value_mismatch
    }
}

/// The SWJ pin levels, one bit per pin.
#[derive(Clone, Copy, Debug, PartialEq, Eq, Structural)]
pub struct Pins(pub u8);

/// `bits` with the bits of `mask` cleared, then set when `value` holds.
pub open spec fn spec_with_flag(bits: u8, mask: u8, value: bool) -> u8 {
    (bits & !mask) | (if value { mask } else { 0u8 })
}

/// Setting one flag bit makes it read back as the value written and leaves
/// every other bit as it was.
pub proof fn lemma_with_flag(bits: u8, mask: u8, value: bool, other: u8)
    requires
        mask == 0x01 || mask == 0x02 || mask == 0x04 || mask == 0x08 || mask == 0x10 || mask
            == 0x20 || mask == 0x40 || mask == 0x80,
        other & mask == 0,
    ensures
        (spec_with_flag(bits, mask, value) & mask != 0) == value,
        spec_with_flag(bits, mask, value) & other == bits & other,
{
    if value {
        assert(((bits & !mask) | mask) & mask != 0) by (bit_vector)
            requires
                mask != 0,
        ;
        assert(((bits & !mask) | mask) & other == bits & other) by (bit_vector)
            requires
                other & mask == 0,
        ;
    } else {
        assert(((bits & !mask) | 0u8) & mask == 0) by (bit_vector);
        assert(((bits & !mask) | 0u8) & other == bits & other) by (bit_vector)
            requires
                other & mask == 0,
        ;
    }
}

impl Pins {
    pub fn only_writable(self) -> (r: Self)
        ensures
            r.0 == self.0 & !0x08u8,
    {
        Self(self.0 & !0x08)
    }

    pub fn get_swclk_tck(&self) -> (r: bool)
        ensures
            r == (self.0 & 0x01 != 0),
    {
        self.0 & 0x01 != 0
    }

    pub fn set_swclk_tck(&mut self, value: bool)
        ensures
            final(self).0 == spec_with_flag(old(self).0, 0x01, value),
    {
        self.0 = (self.0 & !0x01) | if value { 0x01 } else { 0 };
    }

    pub fn get_swdio_tms(&self) -> (r: bool)
        ensures
            r == (self.0 & 0x02 != 0),
    {
        self.0 & 0x02 != 0
    }

    pub fn set_swdio_tms(&mut self, value: bool)
        ensures
            final(self).0 == spec_with_flag(old(self).0, 0x02, value),
    {
        self.0 = (self.0 & !0x02) | if value { 0x02 } else { 0 };
    }

    pub fn get_tdi(&self) -> (r: bool)
        ensures
            r == (self.0 & 0x04 != 0),
    {
        self.0 & 0x04 != 0
    }

    pub fn set_tdi(&mut self, value: bool)
        ensures
            final(self).0 == spec_with_flag(old(self).0, 0x04, value),
    {
        self.0 = (self.0 & !0x04) | if value { 0x04 } else { 0 };
    }

    pub fn get_tdo(&self) -> (r: bool)
        ensures
            r == (self.0 & 0x08 != 0),
    {
        self.0 & 0x08 != 0
    }

    pub fn set_tdo(&mut self, value: bool)
        ensures
            final(self).0 == spec_with_flag(old(self).0, 0x08, value),
    {
        self.0 = (self.0 & !0x08) | if value { 0x08 } else { 0 };
    }

    pub fn get_ntrst(&self) -> (r: bool)
        ensures
            r == (self.0 & 0x20 != 0),
    {
        self.0 & 0x20 != 0
    }

    pub fn set_ntrst(&mut self, value: bool)
        ensures
            final(self).0 == spec_with_flag(old(self).0, 0x20, value),
    {
        self.0 = (self.0 & !0x20) | if value { 0x20 } else { 0 };
    }

    pub fn get_nreset(&self) -> (r: bool)
        ensures
            r == (self.0 & 0x80 != 0),
    {
        self.0 & 0x80 != 0
    }

    pub fn set_nreset(&mut self, value: bool)
        ensures
            final(self).0 == spec_with_flag(old(self).0, 0x80, value),
    {
        self.0 = (self.0 & !0x80) | if value { 0x80 } else { 0 };
    }
}

/// The SWO transport selected by the host.
#[derive(Clone, Copy, Debug, PartialEq, Eq, Structural)]
pub enum SWOTransport {
    NoTransport,
    SWOData,
    USBBulkEndpoint,
}

impl SWOTransport {
    pub open spec fn spec_from_u8(v: u8) -> Option<SWOTransport> {
        if v == 0 {
            Some(SWOTransport::NoTransport)
        } else if v == 1 {
            Some(SWOTransport::SWOData)
        } else if v == 2 {
            Some(SWOTransport::USBBulkEndpoint)
        } else {
            None
        }
    }

    /// The transport with wire number `v`, if there is one.
    pub fn try_from_u8(v: u8) -> (r: Option<SWOTransport>)
        ensures
            r == SWOTransport::spec_from_u8(v),
    {
        if v == 0 {
            Some(SWOTransport::NoTransport)
        } else if v == 1 {
            Some(SWOTransport::SWOData)
        } else if v == 2 {
            Some(SWOTransport::USBBulkEndpoint)
        } else {
            None
        }
    }

    /// The wire number of the transport.
    pub fn to_u8(self) -> (r: u8)
        ensures
            SWOTransport::spec_from_u8(r) == Some(self),
    {
        match self {
            SWOTransport::NoTransport => 0,
            SWOTransport::SWOData => 1,
            SWOTransport::USBBulkEndpoint => 2,
        }
    }
}

/// The SWO capture mode selected by the host.
#[derive(Clone, Copy, Debug, PartialEq, Eq, Structural)]
pub enum SWOMode {
    Off,
    Uart,
    Manchester,
}

impl Default for SWOMode {
    fn default() -> (r: Self)
        ensures
            r == SWOMode::Off,
    {
        Self::Off
    }
}

impl SWOMode {
    pub open spec fn spec_from_u8(v: u8) -> Option<SWOMode> {
        if v == 0 {
            Some(SWOMode::Off)
        } else if v == 1 {
            Some(SWOMode::Uart)
        } else if v == 2 {
            Some(SWOMode::Manchester)
        } else {
            None
        }
    }

    /// The mode with wire number `v`, if there is one.
    pub fn try_from_u8(v: u8) -> (r: Option<SWOMode>)
        ensures
            r == SWOMode::spec_from_u8(v),
    {
        if v == 0 {
            Some(SWOMode::Off)
        } else if v == 1 {
            Some(SWOMode::Uart)
        } else if v == 2 {
            Some(SWOMode::Manchester)
        } else {
            None
        }
    }

    /// The wire number of the mode.
    pub fn to_u8(self) -> (r: u8)
        ensures
            SWOMode::spec_from_u8(r) == Some(self),
    {
        match self {
            SWOMode::Off => 0,
            SWOMode::Uart => 1,
            SWOMode::Manchester => 2,
        }
    }
}

/// The SWO trace status word (active, stream error, buffer overrun flags).
#[derive(Clone, Copy, Debug, PartialEq, Eq, Structural)]
pub struct SWOTraceStatus(pub u8);

impl Default for SWOTraceStatus {
    fn default() -> (r: Self)
        ensures
            r.0 == 0,
    {
        SWOTraceStatus(0)
    }
}

impl SWOTraceStatus {
    pub fn set_active(&mut self, active: bool)
        ensures
            final(self).0 == spec_with_flag(old(self).0, 0x01, active),
    {
        self.0 = (self.0 & !0x01) | if active { 0x01 } else { 0x00 };
    }

    pub fn set_stream_error(&mut self, error: bool)
        ensures
            final(self).0 == spec_with_flag(old(self).0, 0x40, error),
    {
        self.0 = (self.0 & !0x40) | if error { 0x40 } else { 0x00 };
    }

    pub fn set_buffer_overrun(&mut self, overrun: bool)
        ensures
            final(self).0 == spec_with_flag(old(self).0, 0x80, overrun),
    {
        self.0 = (self.0 & !0x80) | if overrun { 0x80 } else { 0x00 };
    }

    pub fn is_buffer_overrun(&self) -> (r: bool)
        ensures
            r == (self.0 & 0x80 != 0),
    {
        let b = self.0;
        let r = b & 0x80 == 0x80;
        assert((b & 0x80 == 0x80) == (b & 0x80 != 0)) by (bit_vector);
        r
    }
}

/// The SWO status reported to the host.
#[derive(Clone, Copy, Debug, PartialEq, Eq, Structural)]
pub struct SWOStatus {
    pub flags: SWOTraceStatus,
    pub buffered_traces: u32,
    pub next_trace_index: u32,
    pub next_trace_timestamp: u32,
}

impl Default for SWOStatus {
    fn default() -> (r: Self)
        ensures
            r.flags.0 == 0,
            r.buffered_traces == 0,
            r.next_trace_index == 0,
            r.next_trace_timestamp == 0,
    {
        SWOStatus {
            flags: SWOTraceStatus(0),
            buffered_traces: 0,
            next_trace_index: 0,
            next_trace_timestamp: 0,
        }
    }
}

/// A flag that a transfer in progress should stop; set from another task.
pub struct AbortToken(core::sync::atomic::AtomicBool);

impl AbortToken {
    /// A token that is not set.
    pub fn new() -> Self {
        Self(core::sync::atomic::AtomicBool::new(false))
    }

    /// Sets the token.
    pub fn abort(&self) {
        self.0.store(true, core::sync::atomic::Ordering::Relaxed);
    }

    /// Whether the token has been set. The value is read from an atomic that
    /// other tasks write, so nothing is promised of it.
    pub fn is_set(&self) -> bool {
        self.0.load(core::sync::atomic::Ordering::Relaxed)
    }

    /// Whether the token has been set, with the answer added to `log`.
    pub fn check(&self, log: &mut AbortChecks) -> (r: bool)
        ensures
            final(log).answers() == old(log).answers().push(r),
    {
        let r = self.is_set();
        log.answers = Ghost(log.answers@.push(r));
        r
    }
}

/// The answers an abort token gave to the checks made through
/// `AbortToken::check`, in order; nothing else adds to them.
pub struct AbortChecks {
    answers: Ghost<Seq<bool>>,
}

impl AbortChecks {
    pub closed spec fn answers(&self) -> Seq<bool> {
        self.answers@
    }

    /// No checks yet.
    pub fn new() -> (r: Self)
        ensures
            r.answers() == Seq::<bool>::empty(),
    {
        AbortChecks { answers: Ghost(Seq::empty()) }
    }
}

} // verus!
