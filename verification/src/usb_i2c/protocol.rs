//! USB-I2C bridge packets: a type byte, an id byte that a response copies
//! from its request, then the packet's fields, little-endian.

use vstd::prelude::*;
use crate::bytes::{read_u16_le, read_u32_le, spec_u16_le, spec_u32_le};

verus! {

/// Why a packet could not be read or written.
#[derive(Clone, Copy, Debug, PartialEq, Eq, Structural)]
pub enum Error {
    NotEnoughBytes,
    UnknownId,
}

/// The packet types.
pub const CONFIGURE: u8 = 0;
pub const WRITE: u8 = 1;
pub const READ: u8 = 2;
pub const WRITE_READ: u8 = 3;
pub const GENERAL_ERROR: u8 = 255;

/// A received packet: its type, its id and its payload.
pub struct BasePacket<'a> {
    inner: &'a [u8],
}

impl<'a> BasePacket<'a> {
    #[verifier::type_invariant]
    closed spec fn wf(self) -> bool {
        self.inner@.len() >= 2
    }

    pub closed spec fn bytes(&self) -> Seq<u8> {
        self.inner@
    }

    pub open spec fn payload(&self) -> Seq<u8> {
        self.bytes().skip(2)
    }

    pub fn try_parse(inner: &'a [u8]) -> (r: Result<Self, Error>)
        ensures
            match r {
                Ok(p) => inner@.len() >= 2 && p.bytes() == inner@,
                Err(e) => inner@.len() < 2 && e == Error::NotEnoughBytes,
            },
    {
        if inner.len() >= 2 {
            Ok(Self { inner })
        } else {
            Err(Error::NotEnoughBytes)
        }
    }

    /// Starts a packet in `inner`, which must hold the header.
    pub fn try_alloc(inner: &'a mut [u8]) -> (r: Result<BasePacketMut<'a>, Error>)
        ensures
            match r {
                Ok(p) => old(inner)@.len() >= 2 && p.inner@ == old(inner)@ && final(p.inner)@ == final(inner)@,
                Err(e) => old(inner)@.len() < 2 && e == Error::NotEnoughBytes && final(inner)@ == old(inner)@,
            },
    {
        if inner.len() >= 2 {
            Ok(BasePacketMut { inner })
        } else {
            Err(Error::NotEnoughBytes)
        }
    }

    pub fn get_type(&self) -> (r: u8)
        ensures
            r == self.bytes()[0],
    {
        proof {
            use_type_invariant(self);
        }
        self.inner[0]
    }

    pub fn get_id(&self) -> (r: u8)
        ensures
            r == self.bytes()[1],
    {
        proof {
            use_type_invariant(self);
        }
        self.inner[1]
    }

    pub fn get_payload(&self) -> (r: &'a [u8])
        ensures
            r@ == self.payload(),
    {
        proof {
            use_type_invariant(self);
        }
        vstd::slice::slice_subrange(self.inner, 2, self.inner.len())
    }
}

/// A packet being written.
pub struct BasePacketMut<'a> {
    pub inner: &'a mut [u8],
}

impl<'a> BasePacketMut<'a> {
    pub open spec fn wf(&self) -> bool {
        self.inner@.len() >= 2
    }

    pub fn set_type(&mut self, packet_type: u8)
        requires
            old(self).wf(),
        ensures
            final(self).inner@ == old(self).inner@.update(0, packet_type),
            final(final(self).inner)@ == final(old(self).inner)@,
    {
        self.inner[0] = packet_type;
    }

    pub fn set_id(&mut self, id: u8)
        requires
            old(self).wf(),
        ensures
            final(self).inner@ == old(self).inner@.update(1, id),
            final(final(self).inner)@ == final(old(self).inner)@,
    {
        self.inner[1] = id;
    }

    /// The payload, after the header.
    pub fn get_payload_mut(&mut self) -> (r: &mut [u8])
        requires
            old(self).wf(),
        ensures
            r@ == old(self).inner@.skip(2),
            final(self).inner@ == old(self).inner@.take(2) + final(r)@,
            final(final(self).inner)@ == final(old(self).inner)@,
    {
        let (_, rest) = self.inner.split_at_mut(2);
        rest
    }

    /// The packet's size for a payload of `len` bytes.
    pub fn commit(self, len: usize) -> (r: usize)
        requires
            len <= usize::MAX - 2,
        ensures
            r == 2 + len,
            final(self.inner)@ == old(self.inner)@,
    {
        let BasePacketMut { inner } = self;
        let _len = inner.len();
        2 + len
    }
}

/// The size of the fixed fields of a request of type `t`.
pub open spec fn spec_request_size(t: u8) -> Option<nat> {
    if t == CONFIGURE {
        Some(5nat)
    } else if t == WRITE {
        Some(2nat)
    } else if t == READ || t == WRITE_READ {
        Some(3nat)
    } else {
        None
    }
}

/// The size of the fixed fields of a response of type `t`.
pub open spec fn spec_response_size(t: u8) -> Option<nat> {
    if t == CONFIGURE || t == WRITE || t == READ || t == WRITE_READ {
        Some(1nat)
    } else {
        None
    }
}

/// Why `s` is not a packet of a type that `size` knows, if it is not.
pub open spec fn spec_packet_error(s: Seq<u8>, size: Option<nat>) -> Option<Error> {
    if s.len() < 2 {
        Some(Error::NotEnoughBytes)
    } else if size is None {
        Some(Error::UnknownId)
    } else if s.len() < 2 + size->0 {
        Some(Error::NotEnoughBytes)
    } else {
        None
    }
}

/// A request of the bridge, parsed.
pub struct Request<'a> {
    pub base: BasePacket<'a>,
}

/// A response of the bridge, parsed.
pub struct Response<'a> {
    pub base: BasePacket<'a>,
}

/// A parsed packet.
pub enum Packet<'a> {
    ConfigureRequest(Request<'a>),
    ConfigureResponse(Response<'a>),
    WriteRequest(Request<'a>),
    WriteResponse(Response<'a>),
    ReadRequest(Request<'a>),
    ReadResponse(Response<'a>),
    WriteReadRequest(Request<'a>),
    WriteReadResponse(Response<'a>),
}

impl<'a> Packet<'a> {
    /// Parses a request: configure, write, read or write-read.
    pub fn try_parse_request(inner: &'a [u8]) -> (r: Result<Self, Error>)
        ensures
            match r {
                Ok(p) => spec_packet_error(inner@, spec_request_size(inner@[0])) is None && match p {
                    Packet::ConfigureRequest(q) => inner@[0] == CONFIGURE && q.base.bytes() == inner@,
                    Packet::WriteRequest(q) => inner@[0] == WRITE && q.base.bytes() == inner@,
                    Packet::ReadRequest(q) => inner@[0] == READ && q.base.bytes() == inner@,
                    Packet::WriteReadRequest(q) => inner@[0] == WRITE_READ && q.base.bytes() == inner@,
                    _ => false,
                },
                Err(e) => spec_packet_error(inner@, spec_request_size(inner@[0])) == Some(e),
            },
    {
        let base = BasePacket::try_parse(inner)?;
        let t = base.get_type();
        let n = base.get_payload().len();
        if t == CONFIGURE {
            if n >= 5 { Ok(Packet::ConfigureRequest(Request { base })) } else { Err(Error::NotEnoughBytes) }
        } else if t == WRITE {
            if n >= 2 { Ok(Packet::WriteRequest(Request { base })) } else { Err(Error::NotEnoughBytes) }
        } else if t == READ {
            if n >= 3 { Ok(Packet::ReadRequest(Request { base })) } else { Err(Error::NotEnoughBytes) }
        } else if t == WRITE_READ {
            if n >= 3 { Ok(Packet::WriteReadRequest(Request { base })) } else { Err(Error::NotEnoughBytes) }
        } else {
            Err(Error::UnknownId)
        }
    }

    /// Parses a response: configure, write, read or write-read.
    pub fn try_parse_response(inner: &'a [u8]) -> (r: Result<Self, Error>)
        ensures
            match r {
                Ok(p) => spec_packet_error(inner@, spec_response_size(inner@[0])) is None && match p {
                    Packet::ConfigureResponse(q) => inner@[0] == CONFIGURE && q.base.bytes() == inner@,
                    Packet::WriteResponse(q) => inner@[0] == WRITE && q.base.bytes() == inner@,
                    Packet::ReadResponse(q) => inner@[0] == READ && q.base.bytes() == inner@,
                    Packet::WriteReadResponse(q) => inner@[0] == WRITE_READ && q.base.bytes() == inner@,
                    _ => false,
                },
                Err(e) => spec_packet_error(inner@, spec_response_size(inner@[0])) == Some(e),
            },
    {
        let base = BasePacket::try_parse(inner)?;
        let t = base.get_type();
        let n = base.get_payload().len();
        if t == CONFIGURE || t == WRITE || t == READ || t == WRITE_READ {
            if n < 1 {
                return Err(Error::NotEnoughBytes);
            }
            if t == CONFIGURE {
                Ok(Packet::ConfigureResponse(Response { base }))
            } else if t == WRITE {
                Ok(Packet::WriteResponse(Response { base }))
            } else if t == READ {
                Ok(Packet::ReadResponse(Response { base }))
            } else {
                Ok(Packet::WriteReadResponse(Response { base }))
            }
        } else {
            Err(Error::UnknownId)
        }
    }
}

impl<'a> Request<'a> {
    /// Configure request: the protocol version byte.
    pub fn get_version(&self) -> (r: u8)
        requires
            self.base.payload().len() >= 5,
        ensures
            r == self.base.payload()[0],
    {
        self.base.get_payload()[0]
    }

    /// Configure request: the bus frequency.
    pub fn get_freq_hz(&self) -> (r: u32)
        requires
            self.base.payload().len() >= 5,
        ensures
            r == spec_u32_le(self.base.payload(), 1),
    {
        read_u32_le(self.base.get_payload(), 1)
    }

    /// Write, read and write-read requests: the target address as sent.
    pub fn get_address(&self) -> (r: u16)
        requires
            self.base.payload().len() >= 2,
        ensures
            r == spec_u16_le(self.base.payload(), 0),
    {
        read_u16_le(self.base.get_payload(), 0)
    }

    /// Write request: the bytes to write.
    pub fn get_data(&self) -> (r: &'a [u8])
        requires
            self.base.payload().len() >= 2,
        ensures
            r@ == self.base.payload().skip(2),
    {
        let p = self.base.get_payload();
        vstd::slice::slice_subrange(p, 2, p.len())
    }

    /// Read request: the count of bytes to read; write-read request: the
    /// count of bytes to read after the write.
    pub fn get_len(&self) -> (r: u8)
        requires
            self.base.payload().len() >= 3,
        ensures
            r == self.base.payload()[2],
    {
        self.base.get_payload()[2]
    }

    /// Write-read request: the bytes to write first.
    pub fn get_write_data(&self) -> (r: &'a [u8])
        requires
            self.base.payload().len() >= 3,
        ensures
            r@ == self.base.payload().skip(3),
    {
        let p = self.base.get_payload();
        vstd::slice::slice_subrange(p, 3, p.len())
    }

    /// Starts the response to this request in `buf`: the request's type and
    /// id.
    pub fn try_alloc_response<'b>(&self, buf: &'b mut [u8]) -> (r: Result<ResultResponseMut<'b>, Error>)
        ensures
            match r {
                Ok(p) => old(buf)@.len() >= 3 && p.base.inner@ == old(buf)@.update(0, self.base.bytes()[0]).update(
                    1,
                    self.base.bytes()[1],
                ) && final(p.base.inner)@ == final(buf)@,
                Err(e) => old(buf)@.len() < 3 && e == Error::NotEnoughBytes && final(buf)@ == old(buf)@,
            },
    {
        if buf.len() < 3 {
            return Err(Error::NotEnoughBytes);
        }
        let mut base = BasePacket::try_alloc(buf)?;
        base.set_type(self.base.get_type());
        base.set_id(self.base.get_id());
        Ok(ResultResponseMut { base })
    }
}

impl<'a> Response<'a> {
    pub fn get_result(&self) -> (r: u8)
        requires
            self.base.payload().len() >= 1,
        ensures
            r == self.base.payload()[0],
    {
        self.base.get_payload()[0]
    }

    /// Read and write-read responses: the bytes read.
    pub fn get_data(&self) -> (r: &'a [u8])
        requires
            self.base.payload().len() >= 1,
        ensures
            r@ == self.base.payload().skip(1),
    {
        let p = self.base.get_payload();
        vstd::slice::slice_subrange(p, 1, p.len())
    }
}

/// A response (a result byte, then for reads the bytes read) being written.
pub struct ResultResponseMut<'a> {
    pub base: BasePacketMut<'a>,
}

impl<'a> ResultResponseMut<'a> {
    pub open spec fn wf(&self) -> bool {
        self.base.inner@.len() >= 3
    }

    pub fn set_result(&mut self, value: u8)
        requires
            old(self).wf(),
        ensures
            final(self).base.inner@ == old(self).base.inner@.update(2, value),
            final(final(self).base.inner)@ == final(old(self).base.inner)@,
    {
        self.base.inner[2] = value;
    }

    /// The room for the bytes read, after the result byte.
    pub fn get_data_mut(&mut self) -> (r: &mut [u8])
        requires
            old(self).wf(),
        ensures
            r@ == old(self).base.inner@.skip(3),
            final(self).base.inner@ == old(self).base.inner@.take(3) + final(r)@,
            final(final(self).base.inner)@ == final(old(self).base.inner)@,
    {
        let (_, rest) = self.base.inner.split_at_mut(3);
        rest
    }

    /// The response's size with `count` bytes read.
    pub fn commit(self, count: usize) -> (r: usize)
        requires
            count <= usize::MAX - 3,
        ensures
            r == 3 + count,
            final(self.base.inner)@ == old(self.base.inner)@,
    {
        self.base.commit(1 + count)
    }
}

/// Writes the general error packet, the answer to a request that cannot
/// be served, carrying the packet ID `id` of that request; returns its size.
pub fn general_error(buf: &mut [u8], id: u8) -> (r: usize)
    requires
        old(buf)@.len() >= 2,
    ensures
        r == 2,
        final(buf)@ == old(buf)@.update(0, GENERAL_ERROR).update(1, id),
{
    match BasePacket::try_alloc(buf) {
        Ok(mut base) => {
            base.set_type(GENERAL_ERROR);
            base.set_id(id);
            base.commit(0)
        },
        Err(_) => 0,
    }
}

} // verus!
