//! The Grapple vendor packets carried beside CMSIS-DAP: a 0xE0 header byte,
//! a packet type, then the packet's fields, little-endian.

use vstd::prelude::*;
use crate::bytes::{copy_into, read_u16_le, spec_splice, spec_u16_bytes, spec_u16_le, write_u16_le};

verus! {

/// Why a packet could not be read or written.
#[derive(Clone, Copy, Debug, PartialEq, Eq, Structural)]
pub enum Error {
    NotEnoughBytes,
    InvalidPacket,
}

/// The first byte of every vendor packet.
pub const PACKET_HEADER: u8 = 0xE0;

/// The packet types.
pub const STATUS: u8 = 0;
pub const READ_FIELD: u8 = 1;
pub const WRITE_FIELD: u8 = 2;
pub const RESET: u8 = 254;

/// The status flag bits: bit 7 is set when ground is detected.
pub struct StatusFlags {
    pub inner: u8,
}

impl StatusFlags {
    pub fn default() -> (r: Self)
        ensures
            r.inner == 0,
    {
        Self { inner: 0 }
    }

    pub fn gnd_detect(&self) -> (r: bool)
        ensures
            r == (self.inner & 0x80 != 0),
    {
        self.inner & 0x80 != 0
    }

    pub fn set_gnd_detect(&mut self, value: bool)
        ensures
            final(self).inner == ((old(self).inner & 0x7F) | (if value { 0x80u8 } else { 0u8 })),
            (final(self).inner & 0x80 != 0) == value,
            final(self).inner & 0x7F == old(self).inner & 0x7F,
    {
        let v: u8 = if value { 0x80 } else { 0 };
        let b = self.inner;
        let r = (b & !0x80) | v;
        assert((b & !0x80u8) == (b & 0x7Fu8)) by (bit_vector);
        assert(((b & 0x7F) | v) & 0x80 != 0 <==> v == 0x80) by (bit_vector)
            requires
                v == 0x80u8 || v == 0u8,
        ;
        assert(((b & 0x7F) | v) & 0x7F == b & 0x7F) by (bit_vector)
            requires
                v == 0x80u8 || v == 0u8,
        ;
        self.inner = r;
    }
}

/// The kinds of reset a host can ask for.
#[derive(Clone, Copy, Debug, PartialEq, Eq, Structural)]
pub enum ResetType {
    /// Crash the firmware on purpose.
    Panic,
}

impl ResetType {
    /// The reset type with wire number `v`: only 255, a panic, is defined.
    pub fn try_from(v: u8) -> (r: Option<ResetType>)
        ensures
            r is Some <==> v == 255,
    {
        if v == 255 {
            Some(ResetType::Panic)
        } else {
            None
        }
    }

    pub fn to_u8(self) -> (r: u8)
        ensures
            r == 255,
    {
        255
    }
}

/// Why `s` is not a vendor packet, if it is not.
pub open spec fn spec_base_error(s: Seq<u8>) -> Option<Error> {
    if s.len() < 2 {
        Some(Error::NotEnoughBytes)
    } else if s[0] != PACKET_HEADER {
        Some(Error::InvalidPacket)
    } else {
        None
    }
}

/// A received vendor packet.
pub struct BasePacket<'a> {
    inner: &'a [u8],
}

impl<'a> BasePacket<'a> {
    #[verifier::type_invariant]
    closed spec fn wf(self) -> bool {
        spec_base_error(self.inner@) is None
    }

    pub closed spec fn bytes(&self) -> Seq<u8> {
        self.inner@
    }

    pub open spec fn packet_type(&self) -> u8 {
        self.bytes()[1]
    }

    pub open spec fn payload(&self) -> Seq<u8> {
        self.bytes().skip(2)
    }

    pub fn try_parse(inner: &'a [u8]) -> (r: Result<Self, Error>)
        ensures
            match r {
                Ok(p) => spec_base_error(inner@) is None && p.bytes() == inner@,
                Err(e) => spec_base_error(inner@) == Some(e),
            },
    {
        if inner.len() >= 2 {
            if inner[0] == PACKET_HEADER {
                Ok(Self { inner })
            } else {
                Err(Error::InvalidPacket)
            }
        } else {
            Err(Error::NotEnoughBytes)
        }
    }

    /// Starts a packet in `inner`: writes the header byte.
    pub fn try_alloc(inner: &'a mut [u8]) -> (r: Result<BasePacketMut<'a>, Error>)
        ensures
            match r {
                Ok(p) => old(inner)@.len() >= 2 && p.inner@ == old(inner)@.update(0, PACKET_HEADER)
                    && final(p.inner)@ == final(inner)@,
                Err(e) => old(inner)@.len() < 2 && e == Error::NotEnoughBytes && final(inner)@ == old(inner)@,
            },
    {
        if inner.len() >= 2 {
            inner[0] = PACKET_HEADER;
            Ok(BasePacketMut { inner })
        } else {
            Err(Error::NotEnoughBytes)
        }
    }

    pub fn get_type(&self) -> (r: u8)
        ensures
            r == self.packet_type(),
    {
        proof {
            use_type_invariant(self);
        }
        self.inner[1]
    }

    /// The packet id; vendor packets carry none, so it is always 0.
    pub fn get_id(&self) -> (r: u8)
        ensures
            r == 0,
    {
        0
    }

    pub fn get_payload(&self) -> (r: &'a [u8])
        ensures
            r@ == self.payload(),
    {
        proof {
            use_type_invariant(self);
        }
        vstd::slice::slice_subrange(self.inner, 2, self.inner.len())
    }
}

/// A vendor packet being written.
pub struct BasePacketMut<'a> {
    pub inner: &'a mut [u8],
}

impl<'a> BasePacketMut<'a> {
    pub open spec fn wf(&self) -> bool {
        self.inner@.len() >= 2
    }

    pub fn set_type(&mut self, packet_type: u8)
        requires
            old(self).wf(),
        ensures
            final(self).inner@ == old(self).inner@.update(1, packet_type),
            final(final(self).inner)@ == final(old(self).inner)@,
    {
        self.inner[1] = packet_type;
    }

    /// Vendor packets carry no id; nothing is written.
    pub fn set_id(&mut self, id: u8)
        ensures
            *final(self) == *old(self),
    {
    }

    /// Writes a byte of the payload.
    fn put_u8(&mut self, offset: usize, value: u8)
        requires
            2 + offset < old(self).inner@.len(),
        ensures
            final(self).inner@ == old(self).inner@.update(2 + offset, value),
            final(final(self).inner)@ == final(old(self).inner)@,
    {
        let _len = self.inner.len();
        self.inner[2 + offset] = value;
    }

    /// Writes a little-endian `u16` into the payload.
    fn put_u16(&mut self, offset: usize, value: u16)
        requires
            2 + offset + 2 <= old(self).inner@.len(),
        ensures
            final(self).inner@ == spec_splice(old(self).inner@, 2 + offset, spec_u16_bytes(value)),
            final(final(self).inner)@ == final(old(self).inner)@,
    {
        let _len = self.inner.len();
        write_u16_le(self.inner, 2 + offset, value);
    }

    /// Copies `data` into the payload at `offset`, as much as fits;
    /// returns the bytes copied.
    fn put_bytes(&mut self, offset: usize, data: &[u8]) -> (n: usize)
        requires
            2 + offset <= old(self).inner@.len(),
        ensures
            n == if data@.len() <= old(self).inner@.len() - 2 - offset {
                data@.len() as int
            } else {
                old(self).inner@.len() - 2 - offset
            },
            final(self).inner@ == spec_splice(old(self).inner@, 2 + offset, data@.take(n as int)),
            final(final(self).inner)@ == final(old(self).inner)@,
    {
        let room = self.inner.len() - 2 - offset;
        let n = if data.len() <= room { data.len() } else { room };
        copy_into(self.inner, 2 + offset, vstd::slice::slice_subrange(data, 0, n));
        n
    }

    /// The packet's size for a payload of `payload_len` bytes.
    pub fn commit(self, payload_len: usize) -> (r: usize)
        requires
            payload_len <= usize::MAX - 2,
        ensures
            r == 2 + payload_len,
            final(self.inner)@ == old(self.inner)@,
    {
        let BasePacketMut { inner } = self;
        let _len = inner.len();
        2 + payload_len
    }
}

/// The size of the fixed fields of a request of type `t`, for the types a
/// probe answers.
pub open spec fn spec_request_size(t: u8) -> Option<nat> {
    if t == STATUS {
        Some(0nat)
    } else if t == READ_FIELD || t == WRITE_FIELD || t == RESET {
        Some(1nat)
    } else {
        None
    }
}

/// The size of the fixed fields of a response of type `t`.
pub open spec fn spec_response_size(t: u8) -> Option<nat> {
    if t == STATUS {
        Some(5nat)
    } else if t == READ_FIELD || t == WRITE_FIELD {
        Some(2nat)
    } else {
        None
    }
}

/// Why `s` is not a packet whose type `sizes` knows, if it is not.
pub open spec fn spec_packet_error(s: Seq<u8>, size: Option<nat>) -> Option<Error> {
    if spec_base_error(s) is Some {
        spec_base_error(s)
    } else if size is None {
        Some(Error::InvalidPacket)
    } else if s.len() < 2 + size->0 {
        Some(Error::NotEnoughBytes)
    } else {
        None
    }
}

/// A parsed vendor packet.
pub enum Packet<'a> {
    GetStatusRequest(GetStatusRequest<'a>),
    GetStatusResponse(GetStatusResponse<'a>),
    ReadFieldRequest(ReadFieldRequest<'a>),
    ReadFieldResponse(ReadFieldResponse<'a>),
    WriteFieldRequest(WriteFieldRequest<'a>),
    WriteFieldResponse(WriteFieldResponse<'a>),
    ResetRequest(ResetRequest<'a>),
}

impl<'a> Packet<'a> {
    /// The bytes of the packet.
    pub open spec fn bytes(&self) -> Seq<u8> {
        match self {
            Packet::GetStatusRequest(p) => p.base.bytes(),
            Packet::GetStatusResponse(p) => p.base.bytes(),
            Packet::ReadFieldRequest(p) => p.base.bytes(),
            Packet::ReadFieldResponse(p) => p.base.bytes(),
            Packet::WriteFieldRequest(p) => p.base.bytes(),
            Packet::WriteFieldResponse(p) => p.base.bytes(),
            Packet::ResetRequest(p) => p.base.bytes(),
        }
    }

    /// The request types a probe answers: status, read field, write field
    /// and reset.
    pub fn try_parse_request(inner: &'a [u8]) -> (r: Result<Self, Error>)
        ensures
            match r {
                Ok(p) => spec_packet_error(inner@, spec_request_size(inner@[1])) is None && p.bytes() == inner@ && (
                inner@[1] == STATUS ==> p is GetStatusRequest) && (inner@[1] == READ_FIELD ==> p is ReadFieldRequest)
                    && (inner@[1] == WRITE_FIELD ==> p is WriteFieldRequest) && (inner@[1] == RESET
                    ==> p is ResetRequest),
                Err(e) => spec_packet_error(inner@, spec_request_size(inner@[1])) == Some(e),
            },
    {
        let base = BasePacket::try_parse(inner)?;
        let t = base.get_type();
        if t == STATUS {
            Ok(Packet::GetStatusRequest(GetStatusRequest::try_from(base)?))
        } else if t == READ_FIELD {
            Ok(Packet::ReadFieldRequest(ReadFieldRequest::try_from(base)?))
        } else if t == WRITE_FIELD {
            Ok(Packet::WriteFieldRequest(WriteFieldRequest::try_from(base)?))
        } else if t == RESET {
            Ok(Packet::ResetRequest(ResetRequest::try_from(base)?))
        } else {
            Err(Error::InvalidPacket)
        }
    }

    /// The response types a host receives: status, read field and write
    /// field.
    pub fn try_parse_response(inner: &'a [u8]) -> (r: Result<Self, Error>)
        ensures
            match r {
                Ok(p) => spec_packet_error(inner@, spec_response_size(inner@[1])) is None && p.bytes() == inner@ && (
                inner@[1] == STATUS ==> p is GetStatusResponse) && (inner@[1] == READ_FIELD
                    ==> p is ReadFieldResponse) && (inner@[1] == WRITE_FIELD ==> p is WriteFieldResponse),
                Err(e) => spec_packet_error(inner@, spec_response_size(inner@[1])) == Some(e),
            },
    {
        let base = BasePacket::try_parse(inner)?;
        let t = base.get_type();
        if t == STATUS {
            Ok(Packet::GetStatusResponse(GetStatusResponse::try_from(base)?))
        } else if t == READ_FIELD {
            Ok(Packet::ReadFieldResponse(ReadFieldResponse::try_from(base)?))
        } else if t == WRITE_FIELD {
            Ok(Packet::WriteFieldResponse(WriteFieldResponse::try_from(base)?))
        } else {
            Err(Error::InvalidPacket)
        }
    }
}

/// Status request: no fields.
pub struct GetStatusRequest<'a> {
    pub base: BasePacket<'a>,
}

impl<'a> GetStatusRequest<'a> {
    pub fn try_from(base: BasePacket<'a>) -> (r: Result<Self, Error>)
        requires
            base.packet_type() == STATUS,
        ensures
            r matches Ok(p) && p.base == base,
    {
        Ok(Self { base })
    }

    /// Starts a status request in `buf`.
    pub fn try_alloc(buf: &'a mut [u8]) -> (r: Result<BasePacketMut<'a>, Error>)
        ensures
            match r {
                Ok(p) => old(buf)@.len() >= 2 && p.inner@ == old(buf)@.update(0, PACKET_HEADER).update(1, STATUS)
                    && final(p.inner)@ == final(buf)@,
                Err(e) => old(buf)@.len() < 2 && e == Error::NotEnoughBytes && final(buf)@ == old(buf)@,
            },
    {
        let mut base = BasePacket::try_alloc(buf)?;
        base.set_type(STATUS);
        Ok(base)
    }

    /// Starts the response to this request in `buf`.
    pub fn try_alloc_response<'b>(&self, buf: &'b mut [u8]) -> (r: Result<GetStatusResponseMut<'b>, Error>)
        ensures
            match r {
                Ok(p) => old(buf)@.len() >= 7 && p.base.inner@ == old(buf)@.update(0, PACKET_HEADER).update(1, STATUS)
                    && final(p.base.inner)@ == final(buf)@,
                Err(e) => old(buf)@.len() < 7 && e == Error::NotEnoughBytes && final(buf)@ == old(buf)@,
            },
    {
        let mut res = GetStatusResponse::try_alloc(buf)?;
        res.base.set_id(self.base.get_id());
        Ok(res)
    }
}

/// Status response: the status flags, the measured target voltage and the
/// commanded signal voltage, both in millivolts.
pub struct GetStatusResponse<'a> {
    pub base: BasePacket<'a>,
}

impl<'a> GetStatusResponse<'a> {
    pub fn try_from(base: BasePacket<'a>) -> (r: Result<Self, Error>)
        requires
            base.packet_type() == STATUS,
        ensures
            match r {
                Ok(p) => base.payload().len() >= 5 && p.base == base,
                Err(e) => base.payload().len() < 5 && e == Error::NotEnoughBytes,
            },
    {
        if base.get_payload().len() >= 5 {
            Ok(Self { base })
        } else {
            Err(Error::NotEnoughBytes)
        }
    }

    pub fn get_flags(&self) -> (r: u8)
        requires
            self.base.payload().len() >= 5,
        ensures
            r == self.base.payload()[0],
    {
        self.base.get_payload()[0]
    }

    pub fn get_target_voltage(&self) -> (r: u16)
        requires
            self.base.payload().len() >= 5,
        ensures
            r == spec_u16_le(self.base.payload(), 1),
    {
        read_u16_le(self.base.get_payload(), 1)
    }

    pub fn get_signal_voltage(&self) -> (r: u16)
        requires
            self.base.payload().len() >= 5,
        ensures
            r == spec_u16_le(self.base.payload(), 3),
    {
        read_u16_le(self.base.get_payload(), 3)
    }

    /// Starts a status response in `buf`.
    pub fn try_alloc(buf: &'a mut [u8]) -> (r: Result<GetStatusResponseMut<'a>, Error>)
        ensures
            match r {
                Ok(p) => old(buf)@.len() >= 7 && p.base.inner@ == old(buf)@.update(0, PACKET_HEADER).update(1, STATUS)
                    && final(p.base.inner)@ == final(buf)@,
                Err(e) => old(buf)@.len() < 7 && e == Error::NotEnoughBytes && final(buf)@ == old(buf)@,
            },
    {
        if buf.len() < 7 {
            return Err(Error::NotEnoughBytes);
        }
        let mut base = BasePacket::try_alloc(buf)?;
        base.set_type(STATUS);
        Ok(GetStatusResponseMut { base })
    }
}

/// A status response being written.
pub struct GetStatusResponseMut<'a> {
    pub base: BasePacketMut<'a>,
}

impl<'a> GetStatusResponseMut<'a> {
    pub open spec fn wf(&self) -> bool {
        self.base.inner@.len() >= 7
    }

    pub fn set_flags(&mut self, value: u8)
        requires
            old(self).wf(),
        ensures
            final(self).base.inner@ == old(self).base.inner@.update(2, value),
            final(final(self).base.inner)@ == final(old(self).base.inner)@,
    {
        self.base.put_u8(0, value);
    }

    pub fn set_target_voltage(&mut self, value: u16)
        requires
            old(self).wf(),
        ensures
            final(self).base.inner@ == spec_splice(old(self).base.inner@, 3, spec_u16_bytes(value)),
            final(final(self).base.inner)@ == final(old(self).base.inner)@,
    {
        self.base.put_u16(1, value);
    }

    pub fn set_signal_voltage(&mut self, value: u16)
        requires
            old(self).wf(),
        ensures
            final(self).base.inner@ == spec_splice(old(self).base.inner@, 5, spec_u16_bytes(value)),
            final(final(self).base.inner)@ == final(old(self).base.inner)@,
    {
        self.base.put_u16(3, value);
    }

    pub fn commit(self) -> (r: usize)
        ensures
            r == 7,
            final(self.base.inner)@ == old(self.base.inner)@,
    {
        self.base.commit(5)
    }
}

/// Read field request: the id of the field to read.
pub struct ReadFieldRequest<'a> {
    pub base: BasePacket<'a>,
}

impl<'a> ReadFieldRequest<'a> {
    pub fn try_from(base: BasePacket<'a>) -> (r: Result<Self, Error>)
        requires
            base.packet_type() == READ_FIELD,
        ensures
            match r {
                Ok(p) => base.payload().len() >= 1 && p.base == base,
                Err(e) => base.payload().len() < 1 && e == Error::NotEnoughBytes,
            },
    {
        if base.get_payload().len() >= 1 {
            Ok(Self { base })
        } else {
            Err(Error::NotEnoughBytes)
        }
    }

    pub fn get_field_id(&self) -> (r: u8)
        requires
            self.base.payload().len() >= 1,
        ensures
            r == self.base.payload()[0],
    {
        self.base.get_payload()[0]
    }

    /// Starts a read field request in `buf`.
    pub fn try_alloc(buf: &'a mut [u8]) -> (r: Result<FieldRequestMut<'a>, Error>)
        ensures
            match r {
                Ok(p) => old(buf)@.len() >= 3 && p.base.inner@ == old(buf)@.update(0, PACKET_HEADER).update(
                    1,
                    READ_FIELD,
                ) && final(p.base.inner)@ == final(buf)@,
                Err(e) => old(buf)@.len() < 3 && e == Error::NotEnoughBytes && final(buf)@ == old(buf)@,
            },
    {
        FieldRequestMut::try_alloc(buf, READ_FIELD)
    }

    /// Starts the response to this request in `buf`.
    pub fn try_alloc_response<'b>(&self, buf: &'b mut [u8]) -> (r: Result<FieldResponseMut<'b>, Error>)
        ensures
            match r {
                Ok(p) => old(buf)@.len() >= 4 && p.base.inner@ == old(buf)@.update(0, PACKET_HEADER).update(
                    1,
                    READ_FIELD,
                ) && final(p.base.inner)@ == final(buf)@,
                Err(e) => old(buf)@.len() < 4 && e == Error::NotEnoughBytes && final(buf)@ == old(buf)@,
            },
    {
        let mut res = ReadFieldResponse::try_alloc(buf)?;
        res.base.set_id(self.base.get_id());
        Ok(res)
    }
}

/// Read field response: a status (0 on success), the field id, then the
/// field's bytes.
pub struct ReadFieldResponse<'a> {
    pub base: BasePacket<'a>,
}

impl<'a> ReadFieldResponse<'a> {
    pub fn try_from(base: BasePacket<'a>) -> (r: Result<Self, Error>)
        requires
            base.packet_type() == READ_FIELD,
        ensures
            match r {
                Ok(p) => base.payload().len() >= 2 && p.base == base,
                Err(e) => base.payload().len() < 2 && e == Error::NotEnoughBytes,
            },
    {
        if base.get_payload().len() >= 2 {
            Ok(Self { base })
        } else {
            Err(Error::NotEnoughBytes)
        }
    }

    pub fn get_status(&self) -> (r: u8)
        requires
            self.base.payload().len() >= 2,
        ensures
            r == self.base.payload()[0],
    {
        self.base.get_payload()[0]
    }

    pub fn get_field_id(&self) -> (r: u8)
        requires
            self.base.payload().len() >= 2,
        ensures
            r == self.base.payload()[1],
    {
        self.base.get_payload()[1]
    }

    pub fn get_data(&self) -> (r: &'a [u8])
        requires
            self.base.payload().len() >= 2,
        ensures
            r@ == self.base.payload().skip(2),
    {
        let p = self.base.get_payload();
        vstd::slice::slice_subrange(p, 2, p.len())
    }

    /// Starts a read field response in `buf`.
    pub fn try_alloc(buf: &'a mut [u8]) -> (r: Result<FieldResponseMut<'a>, Error>)
        ensures
            match r {
                Ok(p) => old(buf)@.len() >= 4 && p.base.inner@ == old(buf)@.update(0, PACKET_HEADER).update(
                    1,
                    READ_FIELD,
                ) && final(p.base.inner)@ == final(buf)@,
                Err(e) => old(buf)@.len() < 4 && e == Error::NotEnoughBytes && final(buf)@ == old(buf)@,
            },
    {
        FieldResponseMut::try_alloc(buf, READ_FIELD)
    }
}

/// Write field request: the id of the field to write, then its bytes.
pub struct WriteFieldRequest<'a> {
    pub base: BasePacket<'a>,
}

impl<'a> WriteFieldRequest<'a> {
    pub fn try_from(base: BasePacket<'a>) -> (r: Result<Self, Error>)
        requires
            base.packet_type() == WRITE_FIELD,
        ensures
            match r {
                Ok(p) => base.payload().len() >= 1 && p.base == base,
                Err(e) => base.payload().len() < 1 && e == Error::NotEnoughBytes,
            },
    {
        if base.get_payload().len() >= 1 {
            Ok(Self { base })
        } else {
            Err(Error::NotEnoughBytes)
        }
    }

    pub fn get_field_id(&self) -> (r: u8)
        requires
            self.base.payload().len() >= 1,
        ensures
            r == self.base.payload()[0],
    {
        self.base.get_payload()[0]
    }

    pub fn get_data(&self) -> (r: &'a [u8])
        requires
            self.base.payload().len() >= 1,
        ensures
            r@ == self.base.payload().skip(1),
    {
        let p = self.base.get_payload();
        vstd::slice::slice_subrange(p, 1, p.len())
    }

    /// Starts a write field request in `buf`.
    pub fn try_alloc(buf: &'a mut [u8]) -> (r: Result<FieldRequestMut<'a>, Error>)
        ensures
            match r {
                Ok(p) => old(buf)@.len() >= 3 && p.base.inner@ == old(buf)@.update(0, PACKET_HEADER).update(
                    1,
                    WRITE_FIELD,
                ) && final(p.base.inner)@ == final(buf)@,
                Err(e) => old(buf)@.len() < 3 && e == Error::NotEnoughBytes && final(buf)@ == old(buf)@,
            },
    {
        FieldRequestMut::try_alloc(buf, WRITE_FIELD)
    }

    /// Starts the response to this request in `buf`.
    pub fn try_alloc_response<'b>(&self, buf: &'b mut [u8]) -> (r: Result<FieldResponseMut<'b>, Error>)
        ensures
            match r {
                Ok(p) => old(buf)@.len() >= 4 && p.base.inner@ == old(buf)@.update(0, PACKET_HEADER).update(
                    1,
                    WRITE_FIELD,
                ) && final(p.base.inner)@ == final(buf)@,
                Err(e) => old(buf)@.len() < 4 && e == Error::NotEnoughBytes && final(buf)@ == old(buf)@,
            },
    {
        let mut res = WriteFieldResponse::try_alloc(buf)?;
        res.base.set_id(self.base.get_id());
        Ok(res)
    }
}

/// Write field response: a status (0 on success) and the field id.
pub struct WriteFieldResponse<'a> {
    pub base: BasePacket<'a>,
}

impl<'a> WriteFieldResponse<'a> {
    pub fn try_from(base: BasePacket<'a>) -> (r: Result<Self, Error>)
        requires
            base.packet_type() == WRITE_FIELD,
        ensures
            match r {
                Ok(p) => base.payload().len() >= 2 && p.base == base,
                Err(e) => base.payload().len() < 2 && e == Error::NotEnoughBytes,
            },
    {
        if base.get_payload().len() >= 2 {
            Ok(Self { base })
        } else {
            Err(Error::NotEnoughBytes)
        }
    }

    pub fn get_status(&self) -> (r: u8)
        requires
            self.base.payload().len() >= 2,
        ensures
            r == self.base.payload()[0],
    {
        self.base.get_payload()[0]
    }

    pub fn get_field_id(&self) -> (r: u8)
        requires
            self.base.payload().len() >= 2,
        ensures
            r == self.base.payload()[1],
    {
        self.base.get_payload()[1]
    }

    /// Starts a write field response in `buf`.
    pub fn try_alloc(buf: &'a mut [u8]) -> (r: Result<FieldResponseMut<'a>, Error>)
        ensures
            match r {
                Ok(p) => old(buf)@.len() >= 4 && p.base.inner@ == old(buf)@.update(0, PACKET_HEADER).update(
                    1,
                    WRITE_FIELD,
                ) && final(p.base.inner)@ == final(buf)@,
                Err(e) => old(buf)@.len() < 4 && e == Error::NotEnoughBytes && final(buf)@ == old(buf)@,
            },
    {
        FieldResponseMut::try_alloc(buf, WRITE_FIELD)
    }
}

/// Reset request: the kind of reset.
pub struct ResetRequest<'a> {
    pub base: BasePacket<'a>,
}

impl<'a> ResetRequest<'a> {
    pub fn try_from(base: BasePacket<'a>) -> (r: Result<Self, Error>)
        requires
            base.packet_type() == RESET,
        ensures
            match r {
                Ok(p) => base.payload().len() >= 1 && p.base == base,
                Err(e) => base.payload().len() < 1 && e == Error::NotEnoughBytes,
            },
    {
        if base.get_payload().len() >= 1 {
            Ok(Self { base })
        } else {
            Err(Error::NotEnoughBytes)
        }
    }

    pub fn get_reset_type(&self) -> (r: u8)
        requires
            self.base.payload().len() >= 1,
        ensures
            r == self.base.payload()[0],
    {
        self.base.get_payload()[0]
    }

    /// Starts a reset request in `buf`.
    pub fn try_alloc(buf: &'a mut [u8]) -> (r: Result<FieldRequestMut<'a>, Error>)
        ensures
            match r {
                Ok(p) => old(buf)@.len() >= 3 && p.base.inner@ == old(buf)@.update(0, PACKET_HEADER).update(1, RESET)
                    && final(p.base.inner)@ == final(buf)@,
                Err(e) => old(buf)@.len() < 3 && e == Error::NotEnoughBytes && final(buf)@ == old(buf)@,
            },
    {
        FieldRequestMut::try_alloc(buf, RESET)
    }
}

/// A request with a one-byte first field (a field id or a reset type) and,
/// for a write, the data after it, being written.
pub struct FieldRequestMut<'a> {
    pub base: BasePacketMut<'a>,
}

impl<'a> FieldRequestMut<'a> {
    pub open spec fn wf(&self) -> bool {
        self.base.inner@.len() >= 3
    }

    fn try_alloc(buf: &'a mut [u8], packet_type: u8) -> (r: Result<Self, Error>)
        ensures
            match r {
                Ok(p) => old(buf)@.len() >= 3 && p.base.inner@ == old(buf)@.update(0, PACKET_HEADER).update(
                    1,
                    packet_type,
                ) && final(p.base.inner)@ == final(buf)@,
                Err(e) => old(buf)@.len() < 3 && e == Error::NotEnoughBytes && final(buf)@ == old(buf)@,
            },
    {
        if buf.len() < 3 {
            return Err(Error::NotEnoughBytes);
        }
        let mut base = BasePacket::try_alloc(buf)?;
        base.set_type(packet_type);
        Ok(Self { base })
    }

    pub fn set_field_id(&mut self, value: u8)
        requires
            old(self).wf(),
        ensures
            final(self).base.inner@ == old(self).base.inner@.update(2, value),
            final(final(self).base.inner)@ == final(old(self).base.inner)@,
    {
        self.base.put_u8(0, value);
    }

    pub fn set_reset_type(&mut self, value: u8)
        requires
            old(self).wf(),
        ensures
            final(self).base.inner@ == old(self).base.inner@.update(2, value),
            final(final(self).base.inner)@ == final(old(self).base.inner)@,
    {
        self.base.put_u8(0, value);
    }

    /// Copies a field's bytes after the first field, as many as fit;
    /// returns how many were copied.
    pub fn set_data(&mut self, data: &[u8]) -> (n: usize)
        requires
            old(self).wf(),
        ensures
            n == if data@.len() <= old(self).base.inner@.len() - 3 {
                data@.len() as int
            } else {
                old(self).base.inner@.len() - 3
            },
            final(self).base.inner@ == spec_splice(old(self).base.inner@, 3, data@.take(n as int)),
            final(final(self).base.inner)@ == final(old(self).base.inner)@,
    {
        self.base.put_bytes(1, data)
    }

    /// The request's size with `count` data bytes.
    pub fn commit(self, count: usize) -> (r: usize)
        requires
            count <= usize::MAX - 3,
        ensures
            r == 3 + count,
            final(self.base.inner)@ == old(self.base.inner)@,
    {
        self.base.commit(1 + count)
    }
}

/// A field response (a status, a field id and, for a read, the data) being
/// written.
pub struct FieldResponseMut<'a> {
    pub base: BasePacketMut<'a>,
}

impl<'a> FieldResponseMut<'a> {
    pub open spec fn wf(&self) -> bool {
        self.base.inner@.len() >= 4
    }

    fn try_alloc(buf: &'a mut [u8], packet_type: u8) -> (r: Result<Self, Error>)
        ensures
            match r {
                Ok(p) => old(buf)@.len() >= 4 && p.base.inner@ == old(buf)@.update(0, PACKET_HEADER).update(
                    1,
                    packet_type,
                ) && final(p.base.inner)@ == final(buf)@,
                Err(e) => old(buf)@.len() < 4 && e == Error::NotEnoughBytes && final(buf)@ == old(buf)@,
            },
    {
        if buf.len() < 4 {
            return Err(Error::NotEnoughBytes);
        }
        let mut base = BasePacket::try_alloc(buf)?;
        base.set_type(packet_type);
        Ok(Self { base })
    }

    pub fn set_status(&mut self, value: u8)
        requires
            old(self).wf(),
        ensures
            final(self).base.inner@ == old(self).base.inner@.update(2, value),
            final(final(self).base.inner)@ == final(old(self).base.inner)@,
    {
        self.base.put_u8(0, value);
    }

    pub fn set_field_id(&mut self, value: u8)
        requires
            old(self).wf(),
        ensures
            final(self).base.inner@ == old(self).base.inner@.update(3, value),
            final(final(self).base.inner)@ == final(old(self).base.inner)@,
    {
        self.base.put_u8(1, value);
    }

    /// Copies a field's bytes after the field id, as many as fit; returns
    /// how many were copied.
    pub fn set_data(&mut self, data: &[u8]) -> (n: usize)
        requires
            old(self).wf(),
        ensures
            n == if data@.len() <= old(self).base.inner@.len() - 4 {
                data@.len() as int
            } else {
                old(self).base.inner@.len() - 4
            },
            final(self).base.inner@ == spec_splice(old(self).base.inner@, 4, data@.take(n as int)),
            final(final(self).base.inner)@ == final(old(self).base.inner)@,
    {
        self.base.put_bytes(2, data)
    }

    /// The response's size with `count` data bytes.
    pub fn commit(self, count: usize) -> (r: usize)
        requires
            count <= usize::MAX - 4,
        ensures
            r == 4 + count,
            final(self.base.inner)@ == old(self.base.inner)@,
    {
        self.base.commit(2 + count)
    }
}

} // verus!
