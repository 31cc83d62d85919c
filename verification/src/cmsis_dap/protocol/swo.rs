//! SWO commands: transport, mode, baudrate, control, status, extended
//! status and data.

use vstd::prelude::*;
use crate::bytes::{
    read_u16_le, read_u32_le, spec_splice, spec_u16_bytes, spec_u16_le, spec_u32_bytes, spec_u32_le,
    write_u16_le, write_u32_le,
};
use crate::cmsis_dap::types::{SWOMode, SWOStatus, SWOTransport};
use super::common::{CommandProperties, CommandType, Error, Packet, PacketMut, StandardResponse};

verus! {

pub struct SWOTransportProps {}

impl CommandProperties for SWOTransportProps {
    const TYPE: CommandType = CommandType::SWOTransport;
}

/// SWO transport request: the transport number.
pub struct SWOTransportCommand<'a> {
    inner: Packet<'a>,
}

impl<'a> SWOTransportCommand<'a> {
    #[verifier::type_invariant]
    closed spec fn wf(self) -> bool {
        self.inner.payload().len() >= 1
    }

    pub closed spec fn payload(&self) -> Seq<u8> {
        self.inner.payload()
    }

    pub fn try_from(inner: Packet<'a>) -> (r: Result<Self, Error>)
        requires
            inner.command() == CommandType::SWOTransport,
        ensures
            match r {
                Ok(c) => inner.payload().len() >= 1 && c.payload() == inner.payload(),
                Err(e) => inner.payload().len() < 1 && e == Error::BufferNotBigEnough,
            },
    {
        if inner.get_payload().len() >= 1 {
            Ok(Self { inner })
        } else {
            Err(Error::BufferNotBigEnough)
        }
    }

    pub fn try_get_transport(&self) -> (r: Option<SWOTransport>)
        ensures
            r == SWOTransport::spec_from_u8(self.payload()[0]),
    {
        proof {
            use_type_invariant(self);
        }
        SWOTransport::try_from_u8(self.inner.get_payload()[0])
    }
}

pub type SWOTransportResponse<'a> = StandardResponse<'a, SWOTransportProps>;

pub struct SWOModeProps {}

impl CommandProperties for SWOModeProps {
    const TYPE: CommandType = CommandType::SWOMode;
}

/// SWO mode request: the mode number.
pub struct SWOModeCommand<'a> {
    inner: Packet<'a>,
}

impl<'a> SWOModeCommand<'a> {
    #[verifier::type_invariant]
    closed spec fn wf(self) -> bool {
        self.inner.payload().len() >= 1
    }

    pub closed spec fn payload(&self) -> Seq<u8> {
        self.inner.payload()
    }

    pub fn try_from(inner: Packet<'a>) -> (r: Result<Self, Error>)
        requires
            inner.command() == CommandType::SWOMode,
        ensures
            match r {
                Ok(c) => inner.payload().len() >= 1 && c.payload() == inner.payload(),
                Err(e) => inner.payload().len() < 1 && e == Error::BufferNotBigEnough,
            },
    {
        if inner.get_payload().len() >= 1 {
            Ok(Self { inner })
        } else {
            Err(Error::BufferNotBigEnough)
        }
    }

    pub fn try_get_mode(&self) -> (r: Option<SWOMode>)
        ensures
            r == SWOMode::spec_from_u8(self.payload()[0]),
    {
        proof {
            use_type_invariant(self);
        }
        SWOMode::try_from_u8(self.inner.get_payload()[0])
    }
}

pub type SWOModeResponse<'a> = StandardResponse<'a, SWOModeProps>;

/// SWO baudrate request: a little-endian baudrate.
pub struct SWOBaudrateCommand<'a> {
    inner: Packet<'a>,
}

impl<'a> SWOBaudrateCommand<'a> {
    #[verifier::type_invariant]
    closed spec fn wf(self) -> bool {
        self.inner.payload().len() >= 4
    }

    pub closed spec fn payload(&self) -> Seq<u8> {
        self.inner.payload()
    }

    pub fn try_from(inner: Packet<'a>) -> (r: Result<Self, Error>)
        requires
            inner.command() == CommandType::SWOBaudrate,
        ensures
            match r {
                Ok(c) => inner.payload().len() >= 4 && c.payload() == inner.payload(),
                Err(e) => inner.payload().len() < 4 && e == Error::BufferNotBigEnough,
            },
    {
        if inner.get_payload().len() >= 4 {
            Ok(Self { inner })
        } else {
            Err(Error::BufferNotBigEnough)
        }
    }

    pub fn get_baudrate(&self) -> (r: u32)
        ensures
            r == spec_u32_le(self.payload(), 0),
    {
        proof {
            use_type_invariant(self);
        }
        read_u32_le(self.inner.get_payload(), 0)
    }
}

/// SWO baudrate reply: the baudrate actually set.
pub struct SWOBaudrateResponse<'a> {
    pub inner: PacketMut<'a>,
}

impl<'a> SWOBaudrateResponse<'a> {
    pub open spec fn wf(&self) -> bool {
        self.inner.buf@.len() >= 5 && self.inner.command == CommandType::SWOBaudrate
    }

    pub fn try_alloc(inner: &'a mut [u8]) -> (r: Result<Self, Error>)
        ensures
            match r {
                Ok(p) => old(inner)@.len() >= 5 && p.wf() && p.inner.buf@ == old(inner)@
                    && final(p.inner.buf)@ == final(inner)@,
                Err(e) => old(inner)@.len() < 5 && e == Error::BufferNotBigEnough
                    && final(inner)@ == old(inner)@,
            },
    {
        if inner.len() < 5 {
            return Err(Error::BufferNotBigEnough);
        }
        Ok(Self { inner: PacketMut { command: CommandType::SWOBaudrate, buf: inner } })
    }

    pub fn commit(self, baudrate: u32) -> (r: usize)
        requires
            self.wf(),
        ensures
            r == 5,
            final(self.inner.buf)@ == spec_splice(old(self.inner.buf)@, 1, spec_u32_bytes(baudrate)).update(0, 0x19u8),
    {
        let SWOBaudrateResponse { inner } = self;
        let PacketMut { command, buf } = inner;
        write_u32_le(buf, 1, baudrate);
        buf[0] = 0x19;
        5
    }
}

pub struct SWOControlProps {}

impl CommandProperties for SWOControlProps {
    const TYPE: CommandType = CommandType::SWOControl;
}

/// SWO control request: start (nonzero) or stop (zero).
pub struct SWOControlCommand<'a> {
    inner: Packet<'a>,
}

impl<'a> SWOControlCommand<'a> {
    #[verifier::type_invariant]
    closed spec fn wf(self) -> bool {
        self.inner.payload().len() >= 1
    }

    pub closed spec fn payload(&self) -> Seq<u8> {
        self.inner.payload()
    }

    pub fn try_from(inner: Packet<'a>) -> (r: Result<Self, Error>)
        requires
            inner.command() == CommandType::SWOControl,
        ensures
            match r {
                Ok(c) => inner.payload().len() >= 1 && c.payload() == inner.payload(),
                Err(e) => inner.payload().len() < 1 && e == Error::BufferNotBigEnough,
            },
    {
        if inner.get_payload().len() >= 1 {
            Ok(Self { inner })
        } else {
            Err(Error::BufferNotBigEnough)
        }
    }

    pub fn is_start(&self) -> (r: bool)
        ensures
            r == (self.payload()[0] != 0),
    {
        proof {
            use_type_invariant(self);
        }
        self.inner.get_payload()[0] != 0
    }
}

pub type SWOControlResponse<'a> = StandardResponse<'a, SWOControlProps>;

/// SWO status request: no payload.
pub struct SWOStatusCommand {}

impl SWOStatusCommand {
    pub fn try_from(inner: Packet<'_>) -> (r: Result<Self, Error>)
        requires
            inner.command() == CommandType::SWOStatus,
        ensures
            r is Ok,
    {
        Ok(Self {})
    }
}

/// SWO status reply: trace status byte and buffered trace count.
pub struct SWOStatusResponse<'a> {
    pub inner: PacketMut<'a>,
}

impl<'a> SWOStatusResponse<'a> {
    pub open spec fn wf(&self) -> bool {
        self.inner.buf@.len() >= 6 && self.inner.command == CommandType::SWOStatus
    }

    pub fn try_alloc(inner: &'a mut [u8]) -> (r: Result<Self, Error>)
        ensures
            match r {
                Ok(p) => old(inner)@.len() >= 6 && p.wf() && p.inner.buf@ == old(inner)@
                    && final(p.inner.buf)@ == final(inner)@,
                Err(e) => old(inner)@.len() < 6 && e == Error::BufferNotBigEnough
                    && final(inner)@ == old(inner)@,
            },
    {
        if inner.len() < 6 {
            return Err(Error::BufferNotBigEnough);
        }
        Ok(Self { inner: PacketMut { command: CommandType::SWOStatus, buf: inner } })
    }

    pub fn commit(self, status: &SWOStatus) -> (r: usize)
        requires
            self.wf(),
        ensures
            r == 6,
            final(self.inner.buf)@ == spec_splice(old(self.inner.buf)@, 2, spec_u32_bytes(status.buffered_traces))
                .update(1, status.flags.0).update(0, 0x1Bu8),
    {
        let SWOStatusResponse { inner } = self;
        let PacketMut { command, buf } = inner;
        write_u32_le(buf, 2, status.buffered_traces);
        buf[1] = status.flags.0;
        buf[0] = 0x1B;
        6
    }
}

/// Which fields an extended status request asks for.
pub struct SWOStatusControl(pub u8);

impl SWOStatusControl {
    pub open spec fn spec_status(self) -> bool {
        self.0 & 0x01 == 0x01
    }

    pub open spec fn spec_count(self) -> bool {
        self.0 & 0x02 == 0x02
    }

    pub open spec fn spec_idxts(self) -> bool {
        self.0 & 0x04 == 0x04
    }

    /// The length of the reply payload: 1 byte of status, 4 of count, 8 of
    /// index and timestamp, each when asked for.
    pub open spec fn spec_payload_len(self) -> nat {
        (if self.spec_status() { 1nat } else { 0nat }) + (if self.spec_count() { 4nat } else { 0nat })
            + (if self.spec_idxts() { 8nat } else { 0nat })
    }

    pub fn status_requested(&self) -> (r: bool)
        ensures
            r == self.spec_status(),
            r == (self.0 & 0x01 != 0),
    {
        let b = self.0;
        assert((b & 0x01 == 0x01) == (b & 0x01 != 0)) by (bit_vector);
        (b & 0x01) == 0x01
    }

    pub fn count_requested(&self) -> (r: bool)
        ensures
            r == self.spec_count(),
            r == (self.0 & 0x02 != 0),
    {
        let b = self.0;
        assert((b & 0x02 == 0x02) == (b & 0x02 != 0)) by (bit_vector);
        (b & 0x02) == 0x02
    }

    pub fn idxts_requested(&self) -> (r: bool)
        ensures
            r == self.spec_idxts(),
            r == (self.0 & 0x04 != 0),
    {
        let b = self.0;
        assert((b & 0x04 == 0x04) == (b & 0x04 != 0)) by (bit_vector);
        (b & 0x04) == 0x04
    }

    /// The three request flags, each 0 or 1: status (bit 0), trace count
    /// (bit 1), index and timestamp (bit 2).
    pub fn get_fields(&self) -> (r: [u8; 3])
        ensures
            r@ == seq![
                (if self.spec_status() { 1u8 } else { 0u8 }),
                (if self.spec_count() { 1u8 } else { 0u8 }),
                (if self.spec_idxts() { 1u8 } else { 0u8 }),
            ],
            r@ == seq![
                (if self.0 & 0x01 != 0 { 1u8 } else { 0u8 }),
                (if self.0 & 0x02 != 0 { 1u8 } else { 0u8 }),
                (if self.0 & 0x04 != 0 { 1u8 } else { 0u8 }),
            ],
    {
        let b = self.0;
        let r = [(b & 0x01), (b >> 1 & 0x01), (b >> 2 & 0x01)];
        assert(b & 0x01 == (if b & 0x01 == 0x01 { 1u8 } else { 0u8 })) by (bit_vector);
        assert(b >> 1 & 0x01 == (if b & 0x02 == 0x02 { 1u8 } else { 0u8 })) by (bit_vector);
        assert(b >> 2 & 0x01 == (if b & 0x04 == 0x04 { 1u8 } else { 0u8 })) by (bit_vector);
        assert((b & 0x01 == 0x01) == (b & 0x01 != 0)) by (bit_vector);
        assert((b & 0x02 == 0x02) == (b & 0x02 != 0)) by (bit_vector);
        assert((b & 0x04 == 0x04) == (b & 0x04 != 0)) by (bit_vector);
        assert(r@ =~= seq![
            (if self.spec_status() { 1u8 } else { 0u8 }),
            (if self.spec_count() { 1u8 } else { 0u8 }),
            (if self.spec_idxts() { 1u8 } else { 0u8 }),
        ]);
        r
    }
}

/// SWO extended status request: the field selection byte.
pub struct SWOExtendedStatusCommand<'a> {
    inner: Packet<'a>,
}

impl<'a> SWOExtendedStatusCommand<'a> {
    #[verifier::type_invariant]
    closed spec fn wf(self) -> bool {
        self.inner.payload().len() >= 1
    }

    pub closed spec fn payload(&self) -> Seq<u8> {
        self.inner.payload()
    }

    pub fn try_from(inner: Packet<'a>) -> (r: Result<Self, Error>)
        requires
            inner.command() == CommandType::SWOExtendedStatus,
        ensures
            match r {
                Ok(c) => inner.payload().len() >= 1 && c.payload() == inner.payload(),
                Err(e) => inner.payload().len() < 1 && e == Error::BufferNotBigEnough,
            },
    {
        if inner.get_payload().len() >= 1 {
            Ok(Self { inner })
        } else {
            Err(Error::BufferNotBigEnough)
        }
    }

    pub fn get_control(&self) -> (r: SWOStatusControl)
        ensures
            r.0 == self.payload()[0],
    {
        proof {
            use_type_invariant(self);
        }
        SWOStatusControl(self.inner.get_payload()[0])
    }
}

/// The payload of an extended status reply: the selected fields in order.
pub open spec fn spec_ext_status_payload(control: SWOStatusControl, status: SWOStatus) -> Seq<u8> {
    (if control.spec_status() { seq![status.flags.0] } else { Seq::empty() })
        + (if control.spec_count() { spec_u32_bytes(status.buffered_traces) } else { Seq::empty() })
        + (if control.spec_idxts() {
            spec_u32_bytes(status.next_trace_index) + spec_u32_bytes(status.next_trace_timestamp)
        } else {
            Seq::empty()
        })
}

/// What an extended status request selects, by the bits of its control
/// byte: bit 0 the status byte, bit 1 the 4-byte trace count, bit 2 the
/// trace index and timestamp; the reply carries exactly the selected
/// fields, in that order, and nothing else.
pub proof fn lemma_ext_status_selection(control: u8, status: SWOStatus)
    ensures
        SWOStatusControl(control).spec_status() == (control & 0x01 != 0),
        SWOStatusControl(control).spec_count() == (control & 0x02 != 0),
        SWOStatusControl(control).spec_idxts() == (control & 0x04 != 0),
        spec_ext_status_payload(SWOStatusControl(control), status) == (if control & 0x01 != 0 {
            seq![status.flags.0]
        } else {
            Seq::empty()
        }) + (if control & 0x02 != 0 { spec_u32_bytes(status.buffered_traces) } else { Seq::empty() }) + (if control
            & 0x04 != 0 {
            spec_u32_bytes(status.next_trace_index) + spec_u32_bytes(status.next_trace_timestamp)
        } else {
            Seq::empty()
        }),
        SWOStatusControl(control).spec_payload_len() == spec_ext_status_payload(SWOStatusControl(control), status).len(),
{
    assert((control & 0x01 == 0x01) == (control & 0x01 != 0)) by (bit_vector);
    assert((control & 0x02 == 0x02) == (control & 0x02 != 0)) by (bit_vector);
    assert((control & 0x04 == 0x04) == (control & 0x04 != 0)) by (bit_vector);
}

/// SWO extended status reply: the fields the request selected.
pub struct SWOExtendedStatusResponse<'a> {
    pub inner: PacketMut<'a>,
    pub control: SWOStatusControl,
}

impl<'a> SWOExtendedStatusResponse<'a> {
    pub open spec fn wf(&self) -> bool {
        &&& self.inner.buf@.len() >= 1 + self.control.spec_payload_len()
        &&& self.inner.command == CommandType::SWOExtendedStatus
    }

    pub fn try_alloc(inner: &'a mut [u8], control: SWOStatusControl) -> (r: Result<Self, Error>)
        ensures
            match r {
                Ok(p) => old(inner)@.len() >= 1 + control.spec_payload_len() && p.wf() && p.control == control
                    && p.inner.buf@ == old(inner)@ && final(p.inner.buf)@ == final(inner)@,
                Err(e) => old(inner)@.len() < 1 + control.spec_payload_len() && e == Error::BufferNotBigEnough
                    && final(inner)@ == old(inner)@,
            },
    {
        let fields = control.get_fields();
        let payload_len: usize = fields[0] as usize * 1 + fields[1] as usize * 4 + fields[2] as usize * 8;
        if inner.len() < 1 || inner.len() - 1 < payload_len {
            return Err(Error::BufferNotBigEnough);
        }
        Ok(Self { inner: PacketMut { command: CommandType::SWOExtendedStatus, buf: inner }, control })
    }

    pub fn commit(self, status: &SWOStatus) -> (r: usize)
        requires
            self.wf(),
        ensures
            r == 1 + self.control.spec_payload_len(),
            final(self.inner.buf)@ == spec_splice(old(self.inner.buf)@, 1, spec_ext_status_payload(self.control, *status))
                .update(0, 0x1Eu8),
    {
        let SWOExtendedStatusResponse { inner, control } = self;
        let PacketMut { command, buf } = inner;
        let ghost b0 = buf@;
        let mut idx: usize = 1;
        let ghost s1: Seq<u8> = if control.spec_status() { seq![status.flags.0] } else { Seq::empty() };
        let ghost s2: Seq<u8> = if control.spec_count() { spec_u32_bytes(status.buffered_traces) } else { Seq::empty() };
        if control.status_requested() {
            buf[idx] = status.flags.0;
            idx = idx + 1;
        }
        assert(buf@ =~= spec_splice(b0, 1, s1));
        if control.count_requested() {
            write_u32_le(buf, idx, status.buffered_traces);
            idx = idx + 4;
        }
        assert(buf@ =~= spec_splice(b0, 1, s1 + s2));
        if control.idxts_requested() {
            write_u32_le(buf, idx, status.next_trace_index);
            write_u32_le(buf, idx + 4, status.next_trace_timestamp);
            idx = idx + 8;
        }
        assert(buf@ =~= spec_splice(b0, 1, spec_ext_status_payload(control, *status)));
        buf[0] = 0x1E;
        idx
    }
}

/// SWO data request: the most trace bytes the host wants.
pub struct SWODataCommand<'a> {
    inner: Packet<'a>,
}

impl<'a> SWODataCommand<'a> {
    #[verifier::type_invariant]
    closed spec fn wf(self) -> bool {
        self.inner.payload().len() >= 2
    }

    pub closed spec fn payload(&self) -> Seq<u8> {
        self.inner.payload()
    }

    pub fn try_from(inner: Packet<'a>) -> (r: Result<Self, Error>)
        requires
            inner.command() == CommandType::SWOData,
        ensures
            match r {
                Ok(c) => inner.payload().len() >= 2 && c.payload() == inner.payload(),
                Err(e) => inner.payload().len() < 2 && e == Error::BufferNotBigEnough,
            },
    {
        if inner.get_payload().len() >= 2 {
            Ok(Self { inner })
        } else {
            Err(Error::BufferNotBigEnough)
        }
    }

    pub fn get_max_trace_count(&self) -> (r: u16)
        ensures
            r == spec_u16_le(self.payload(), 0),
    {
        proof {
            use_type_invariant(self);
        }
        read_u16_le(self.inner.get_payload(), 0)
    }
}

/// SWO data reply: trace status, trace byte count, then the trace bytes.
pub struct SWODataResponse<'a> {
    pub inner: PacketMut<'a>,
}

impl<'a> SWODataResponse<'a> {
    pub open spec fn wf(&self) -> bool {
        self.inner.buf@.len() >= 4 && self.inner.command == CommandType::SWOData
    }

    pub fn try_alloc(inner: &'a mut [u8]) -> (r: Result<Self, Error>)
        ensures
            match r {
                Ok(p) => old(inner)@.len() >= 4 && p.wf() && p.inner.buf@ == old(inner)@
                    && final(p.inner.buf)@ == final(inner)@,
                Err(e) => old(inner)@.len() < 4 && e == Error::BufferNotBigEnough
                    && final(inner)@ == old(inner)@,
            },
    {
        if inner.len() < 4 {
            return Err(Error::BufferNotBigEnough);
        }
        Ok(Self { inner: PacketMut { command: CommandType::SWOData, buf: inner } })
    }

    /// The room for trace bytes.
    pub fn get_trace_data_mut(&mut self) -> (r: &mut [u8])
        requires
            old(self).wf(),
        ensures
            r@ == old(self).inner.buf@.skip(4),
            final(self).inner.buf@ == old(self).inner.buf@.take(4) + final(r)@,
            final(final(self).inner.buf)@ == final(old(self).inner.buf)@,
            final(self).inner.command == old(self).inner.command,
    {
        let (_, rest) = self.inner.buf.split_at_mut(4);
        rest
    }

    pub fn commit(self, status: &SWOStatus, trace_count: u16) -> (r: usize)
        requires
            self.wf(),
        ensures
            r == 4 + trace_count,
            final(self.inner.buf)@ == spec_splice(old(self.inner.buf)@, 2, spec_u16_bytes(trace_count))
                .update(1, status.flags.0).update(0, 0x1Cu8),
    {
        let SWODataResponse { inner } = self;
        let PacketMut { command, buf } = inner;
        write_u16_le(buf, 2, trace_count);
        buf[1] = status.flags.0;
        buf[0] = 0x1C;
        4 + trace_count as usize
    }
}

} // verus!
