//! General commands: info, host status, connect, disconnect, write abort,
//! delay and reset target.

use vstd::prelude::*;
use crate::bytes::{copy_into, read_u16_le, read_u32_le, spec_splice, spec_u16_le, spec_u32_le};
use crate::cmsis_dap::types::{ConnectMode, HostStatus};
use super::common::{spec_status_reply, CommandType, Error, Packet, PacketMut};

verus! {

/// Info request: payload byte 0 is the id of the information asked for.
pub struct InfoCommand<'a> {
    inner: Packet<'a>,
}

impl<'a> InfoCommand<'a> {
    #[verifier::type_invariant]
    closed spec fn wf(self) -> bool {
        self.inner.payload().len() >= 1
    }

    pub closed spec fn payload(&self) -> Seq<u8> {
        self.inner.payload()
    }

    pub fn try_from(inner: Packet<'a>) -> (r: Result<Self, Error>)
        requires
            inner.command() == CommandType::Info,
        ensures
            match r {
                Ok(c) => inner.payload().len() >= 1 && c.payload() == inner.payload(),
                Err(e) => inner.payload().len() < 1 && e == Error::BufferNotBigEnough,
            },
    {
        if inner.get_command() == CommandType::Info && inner.get_payload().len() >= 1 {
            Ok(Self { inner })
        } else {
            Err(Error::BufferNotBigEnough)
        }
    }

    pub fn get_id(&self) -> (r: u8)
        ensures
            r == self.payload()[0],
    {
        proof {
            use_type_invariant(self);
        }
        self.inner.get_payload()[0]
    }
}

/// Info reply: a length byte, then that many bytes of information.
pub struct InfoResponse<'a> {
    pub inner: PacketMut<'a>,
}

/// `buf` holding an info reply of `data`.
pub open spec fn spec_info_reply(buf: Seq<u8>, data: Seq<u8>) -> Seq<u8> {
    spec_splice(buf, 2, data).update(1, data.len() as u8).update(0, 0x00)
}

impl<'a> InfoResponse<'a> {
    pub open spec fn wf(&self) -> bool {
        self.inner.buf@.len() >= 2 && self.inner.command == CommandType::Info
    }

    pub fn try_alloc(inner: &'a mut [u8]) -> (r: Result<Self, Error>)
        ensures
            match r {
                Ok(p) => old(inner)@.len() >= 2 && p.wf() && p.inner.buf@ == old(inner)@
                    && final(p.inner.buf)@ == final(inner)@,
                Err(e) => old(inner)@.len() < 2 && e == Error::BufferNotBigEnough
                    && final(inner)@ == old(inner)@,
            },
    {
        if inner.len() < 2 {
            return Err(Error::BufferNotBigEnough);
        }
        Ok(Self { inner: PacketMut { command: CommandType::Info, buf: inner } })
    }

    /// The room for information bytes, after the length byte.
    pub fn get_payload_mut(&mut self) -> (r: &mut [u8])
        requires
            old(self).wf(),
        ensures
            r@ == old(self).inner.buf@.skip(2),
            final(self).inner.buf@ == old(self).inner.buf@.take(2) + final(r)@,
            final(final(self).inner.buf)@ == final(old(self).inner.buf)@,
            final(self).inner.command == old(self).inner.command,
    {
        let (_, rest) = self.inner.buf.split_at_mut(2);
        rest
    }

    /// Writes the length byte and the command byte; the information bytes
    /// must already be in place.
    pub fn commit(self, payload_size: usize) -> (r: usize)
        requires
            self.wf(),
            payload_size < usize::MAX - 1,
        ensures
            r == payload_size + 2,
            final(self.inner.buf)@ == old(self.inner.buf)@.update(1, payload_size as u8).update(0, 0x00),
    {
        let InfoResponse { inner } = self;
        let PacketMut { command, buf } = inner;
        buf[1] = payload_size as u8;
        buf[0] = 0x00;
        payload_size + 2
    }

    pub fn commit_bytes(self, bytes: &[u8]) -> (r: usize)
        requires
            self.wf(),
            self.inner.buf@.len() >= 2 + bytes@.len(),
        ensures
            r == bytes@.len() + 2,
            final(self.inner.buf)@ == spec_info_reply(old(self.inner.buf)@, bytes@),
    {
        let InfoResponse { inner } = self;
        let PacketMut { command, buf } = inner;
        copy_into(buf, 2, bytes);
        buf[1] = bytes.len() as u8;
        buf[0] = 0x00;
        bytes.len() + 2
    }

    pub fn commit_unrecognized(self) -> (r: usize)
        requires
            self.wf(),
        ensures
            r == 2,
            final(self.inner.buf)@ == old(self.inner.buf)@.update(1, 0u8).update(0, 0x00),
    {
        self.commit(0)
    }
}

/// Host status request: status type then status value.
pub struct HostStatusCommand<'a> {
    inner: Packet<'a>,
}

/// The host status that a two-byte payload encodes.
pub open spec fn spec_host_status(kind: u8, value: u8) -> HostStatus {
    if kind == 0 {
        HostStatus::Connected(value != 0)
    } else if kind == 1 {
        HostStatus::Running(value != 0)
    } else {
        HostStatus::Unknown(kind, value)
    }
}

/// A host status payload says which indicator it drives by its first
/// byte, 0 for connected and 1 for running, and whether it is on by its
/// second byte being other than 0; other kinds are passed on as they are.
pub proof fn lemma_host_status_decoding(kind: u8, value: u8)
    ensures
        kind == 0 ==> spec_host_status(kind, value) == HostStatus::Connected(value != 0),
        kind == 1 ==> spec_host_status(kind, value) == HostStatus::Running(value != 0),
        kind > 1 ==> spec_host_status(kind, value) == HostStatus::Unknown(kind, value),
{
}

impl<'a> HostStatusCommand<'a> {
    #[verifier::type_invariant]
    closed spec fn wf(self) -> bool {
        self.inner.payload().len() >= 2
    }

    pub closed spec fn payload(&self) -> Seq<u8> {
        self.inner.payload()
    }

    pub fn try_from(inner: Packet<'a>) -> (r: Result<Self, Error>)
        requires
            inner.command() == CommandType::HostStatus,
        ensures
            match r {
                Ok(c) => inner.payload().len() >= 2 && c.payload() == inner.payload(),
                Err(e) => inner.payload().len() < 2 && e == Error::BufferNotBigEnough,
            },
    {
        if inner.get_payload().len() >= 2 {
            Ok(Self { inner })
        } else {
            Err(Error::BufferNotBigEnough)
        }
    }

    pub fn get(&self) -> (r: HostStatus)
        ensures
            r == spec_host_status(self.payload()[0], self.payload()[1]),
            self.payload()[0] == 0 ==> r == HostStatus::Connected(self.payload()[1] != 0),
            self.payload()[0] == 1 ==> r == HostStatus::Running(self.payload()[1] != 0),
            self.payload()[0] > 1 ==> r == HostStatus::Unknown(self.payload()[0], self.payload()[1]),
    {
        proof {
            use_type_invariant(self);
        }
        let p = self.inner.get_payload();
        if p[0] == 0 {
            HostStatus::Connected(p[1] != 0)
        } else if p[0] == 1 {
            HostStatus::Running(p[1] != 0)
        } else {
            HostStatus::Unknown(p[0], p[1])
        }
    }
}

/// Host status reply: status byte 0.
pub struct HostStatusResponse<'a> {
    pub inner: PacketMut<'a>,
}

impl<'a> HostStatusResponse<'a> {
    pub open spec fn wf(&self) -> bool {
        self.inner.buf@.len() >= 2 && self.inner.command == CommandType::HostStatus
    }

    pub fn try_alloc(inner: &'a mut [u8]) -> (r: Result<Self, Error>)
        ensures
            match r {
                Ok(p) => old(inner)@.len() >= 2 && p.wf() && p.inner.buf@ == old(inner)@
                    && final(p.inner.buf)@ == final(inner)@,
                Err(e) => old(inner)@.len() < 2 && e == Error::BufferNotBigEnough
                    && final(inner)@ == old(inner)@,
            },
    {
        if inner.len() < 2 {
            return Err(Error::BufferNotBigEnough);
        }
        Ok(Self { inner: PacketMut { command: CommandType::HostStatus, buf: inner } })
    }

    pub fn commit(self) -> (r: usize)
        requires
            self.wf(),
        ensures
            r == 2,
            final(self.inner.buf)@ == spec_status_reply(old(self.inner.buf)@, CommandType::HostStatus, 0),
    {
        self.inner.commit_with_status(0)
    }
}

/// Connect request: payload byte 0 is the port mode.
pub struct ConnectCommand<'a> {
    inner: Packet<'a>,
}

/// The mode a connect payload byte asks for.
pub open spec fn spec_connect_mode(v: u8) -> ConnectMode {
    if v == 0 {
        ConnectMode::Default
    } else if v == 1 {
        ConnectMode::SWD
    } else if v == 2 {
        ConnectMode::JTAG
    } else {
        ConnectMode::Unknown(v)
    }
}

/// The byte a connect reply carries for a connected mode.
pub open spec fn spec_connect_mode_byte(mode: ConnectMode) -> u8 {
    match mode {
        ConnectMode::SWD => 1,
        ConnectMode::JTAG => 2,
        _ => 0,
    }
}

impl<'a> ConnectCommand<'a> {
    #[verifier::type_invariant]
    closed spec fn wf(self) -> bool {
        self.inner.payload().len() >= 1
    }

    pub closed spec fn payload(&self) -> Seq<u8> {
        self.inner.payload()
    }

    pub fn try_from(inner: Packet<'a>) -> (r: Result<Self, Error>)
        requires
            inner.command() == CommandType::Connect,
        ensures
            match r {
                Ok(c) => inner.payload().len() >= 1 && c.payload() == inner.payload(),
                Err(e) => inner.payload().len() < 1 && e == Error::BufferNotBigEnough,
            },
    {
        if inner.get_payload().len() >= 1 {
            Ok(Self { inner })
        } else {
            Err(Error::BufferNotBigEnough)
        }
    }

    pub fn get_mode(&self) -> (r: ConnectMode)
        ensures
            r == spec_connect_mode(self.payload()[0]),
    {
        proof {
            use_type_invariant(self);
        }
        let v = self.inner.get_payload()[0];
        if v == 0 {
            ConnectMode::Default
        } else if v == 1 {
            ConnectMode::SWD
        } else if v == 2 {
            ConnectMode::JTAG
        } else {
            ConnectMode::Unknown(v)
        }
    }
}

/// Connect reply: the mode connected, or 0 on failure.
pub struct ConnectResponse<'a> {
    pub inner: PacketMut<'a>,
}

impl<'a> ConnectResponse<'a> {
    pub open spec fn wf(&self) -> bool {
        self.inner.buf@.len() >= 2 && self.inner.command == CommandType::Connect
    }

    pub fn try_alloc(inner: &'a mut [u8]) -> (r: Result<Self, Error>)
        ensures
            match r {
                Ok(p) => old(inner)@.len() >= 2 && p.wf() && p.inner.buf@ == old(inner)@
                    && final(p.inner.buf)@ == final(inner)@,
                Err(e) => old(inner)@.len() < 2 && e == Error::BufferNotBigEnough
                    && final(inner)@ == old(inner)@,
            },
    {
        if inner.len() < 2 {
            return Err(Error::BufferNotBigEnough);
        }
        Ok(Self { inner: PacketMut { command: CommandType::Connect, buf: inner } })
    }

    pub fn commit_ok(self, mode: ConnectMode) -> (r: usize)
        requires
            self.wf(),
        ensures
            r == 2,
            final(self.inner.buf)@ == spec_status_reply(
                old(self.inner.buf)@,
                CommandType::Connect,
                spec_connect_mode_byte(mode),
            ),
    {
        let v: u8 = match mode {
            ConnectMode::SWD => 1,
            ConnectMode::JTAG => 2,
            _ => 0,
        };
        self.inner.commit_with_status(v)
    }

    pub fn commit_err(self) -> (r: usize)
        requires
            self.wf(),
        ensures
            r == 2,
            final(self.inner.buf)@ == spec_status_reply(old(self.inner.buf)@, CommandType::Connect, 0),
    {
        self.inner.commit_with_status(0)
    }
}

/// Disconnect request: no payload.
pub struct DisconnectCommand<'a> {
    _inner: Packet<'a>,
}

impl<'a> DisconnectCommand<'a> {
    /// The request packet the command was parsed from.
    pub closed spec fn packet(&self) -> Packet<'a> {
        self._inner
    }

    pub fn try_from(inner: Packet<'a>) -> (r: Result<Self, Error>)
        requires
            inner.command() == CommandType::Disconnect,
        ensures
            r matches Ok(c) && c.packet() == inner,
    {
        Ok(Self { _inner: inner })
    }
}

/// Disconnect reply: status byte.
pub struct DisconnectResponse<'a> {
    pub inner: PacketMut<'a>,
}

impl<'a> DisconnectResponse<'a> {
    pub open spec fn wf(&self) -> bool {
        self.inner.buf@.len() >= 2 && self.inner.command == CommandType::Disconnect
    }

    pub fn try_alloc(inner: &'a mut [u8]) -> (r: Result<Self, Error>)
        ensures
            match r {
                Ok(p) => old(inner)@.len() >= 2 && p.wf() && p.inner.buf@ == old(inner)@
                    && final(p.inner.buf)@ == final(inner)@,
                Err(e) => old(inner)@.len() < 2 && e == Error::BufferNotBigEnough
                    && final(inner)@ == old(inner)@,
            },
    {
        if inner.len() < 2 {
            return Err(Error::BufferNotBigEnough);
        }
        Ok(Self { inner: PacketMut { command: CommandType::Disconnect, buf: inner } })
    }

    pub fn commit_ok(self) -> (r: usize)
        requires
            self.wf(),
        ensures
            r == 2,
            final(self.inner.buf)@ == spec_status_reply(old(self.inner.buf)@, CommandType::Disconnect, 0),
    {
        self.inner.commit_with_status(0)
    }

    pub fn commit_err(self) -> (r: usize)
        requires
            self.wf(),
        ensures
            r == 2,
            final(self.inner.buf)@ == spec_status_reply(old(self.inner.buf)@, CommandType::Disconnect, 0xFF),
    {
        self.inner.commit_with_status(0xFF)
    }
}

/// Write abort request: DAP index, then the abort register value.
pub struct WriteAbortCommand<'a> {
    inner: Packet<'a>,
}

impl<'a> WriteAbortCommand<'a> {
    #[verifier::type_invariant]
    closed spec fn wf(self) -> bool {
        self.inner.payload().len() >= 5
    }

    pub closed spec fn payload(&self) -> Seq<u8> {
        self.inner.payload()
    }

    pub fn try_from(inner: Packet<'a>) -> (r: Result<Self, Error>)
        requires
            inner.command() == CommandType::WriteAbort,
        ensures
            match r {
                Ok(c) => inner.payload().len() >= 5 && c.payload() == inner.payload(),
                Err(e) => inner.payload().len() < 5 && e == Error::BufferNotBigEnough,
            },
    {
        if inner.get_payload().len() >= 5 {
            Ok(Self { inner })
        } else {
            Err(Error::BufferNotBigEnough)
        }
    }

    pub fn get_dap_index(&self) -> (r: u8)
        ensures
            r == self.payload()[0],
    {
        proof {
            use_type_invariant(self);
        }
        self.inner.get_payload()[0]
    }

    pub fn get_abort_value(&self) -> (r: u32)
        ensures
            r == spec_u32_le(self.payload(), 1),
    {
        proof {
            use_type_invariant(self);
        }
        read_u32_le(self.inner.get_payload(), 1)
    }
}

/// Write abort reply: status byte.
pub struct WriteAbortResponse<'a> {
    pub inner: PacketMut<'a>,
}

impl<'a> WriteAbortResponse<'a> {
    pub open spec fn wf(&self) -> bool {
        self.inner.buf@.len() >= 2 && self.inner.command == CommandType::WriteAbort
    }

    pub fn try_alloc(inner: &'a mut [u8]) -> (r: Result<Self, Error>)
        ensures
            match r {
                Ok(p) => old(inner)@.len() >= 2 && p.wf() && p.inner.buf@ == old(inner)@
                    && final(p.inner.buf)@ == final(inner)@,
                Err(e) => old(inner)@.len() < 2 && e == Error::BufferNotBigEnough
                    && final(inner)@ == old(inner)@,
            },
    {
        if inner.len() < 2 {
            return Err(Error::BufferNotBigEnough);
        }
        Ok(Self { inner: PacketMut { command: CommandType::WriteAbort, buf: inner } })
    }

    pub fn commit_ok(self) -> (r: usize)
        requires
            self.wf(),
        ensures
            r == 2,
            final(self.inner.buf)@ == spec_status_reply(old(self.inner.buf)@, CommandType::WriteAbort, 0),
    {
        self.inner.commit_with_status(0)
    }

    pub fn commit_err(self) -> (r: usize)
        requires
            self.wf(),
        ensures
            r == 2,
            final(self.inner.buf)@ == spec_status_reply(old(self.inner.buf)@, CommandType::WriteAbort, 0xFF),
    {
        self.inner.commit_with_status(0xFF)
    }
}

/// Delay request: a little-endian delay in microseconds.
pub struct DelayCommand<'a> {
    inner: Packet<'a>,
}

impl<'a> DelayCommand<'a> {
    #[verifier::type_invariant]
    closed spec fn wf(self) -> bool {
        self.inner.payload().len() >= 2
    }

    pub closed spec fn payload(&self) -> Seq<u8> {
        self.inner.payload()
    }

    pub fn try_from(inner: Packet<'a>) -> (r: Result<Self, Error>)
        requires
            inner.command() == CommandType::Delay,
        ensures
            match r {
                Ok(c) => inner.payload().len() >= 2 && c.payload() == inner.payload(),
                Err(e) => inner.payload().len() < 2 && e == Error::BufferNotBigEnough,
            },
    {
        if inner.get_payload().len() >= 2 {
            Ok(Self { inner })
        } else {
            Err(Error::BufferNotBigEnough)
        }
    }

    pub fn get_delay_us(&self) -> (r: u16)
        ensures
            r == spec_u16_le(self.payload(), 0),
    {
        proof {
            use_type_invariant(self);
        }
        read_u16_le(self.inner.get_payload(), 0)
    }
}

/// Delay reply: status byte.
pub struct DelayResponse<'a> {
    pub inner: PacketMut<'a>,
}

impl<'a> DelayResponse<'a> {
    pub open spec fn wf(&self) -> bool {
        self.inner.buf@.len() >= 2 && self.inner.command == CommandType::Delay
    }

    pub fn try_alloc(inner: &'a mut [u8]) -> (r: Result<Self, Error>)
        ensures
            match r {
                Ok(p) => old(inner)@.len() >= 2 && p.wf() && p.inner.buf@ == old(inner)@
                    && final(p.inner.buf)@ == final(inner)@,
                Err(e) => old(inner)@.len() < 2 && e == Error::BufferNotBigEnough
                    && final(inner)@ == old(inner)@,
            },
    {
        if inner.len() < 2 {
            return Err(Error::BufferNotBigEnough);
        }
        Ok(Self { inner: PacketMut { command: CommandType::Delay, buf: inner } })
    }

    pub fn commit_ok(self) -> (r: usize)
        requires
            self.wf(),
        ensures
            r == 2,
            final(self.inner.buf)@ == spec_status_reply(old(self.inner.buf)@, CommandType::Delay, 0),
    {
        self.inner.commit_with_status(0)
    }
}

/// Reset target request: no payload.
pub struct ResetTargetCommand<'a> {
    _inner: Packet<'a>,
}

impl<'a> ResetTargetCommand<'a> {
    /// The request packet the command was parsed from.
    pub closed spec fn packet(&self) -> Packet<'a> {
        self._inner
    }

    pub fn try_from(inner: Packet<'a>) -> (r: Result<Self, Error>)
        requires
            inner.command() == CommandType::ResetTarget,
        ensures
            r matches Ok(c) && c.packet() == inner,
    {
        Ok(Self { _inner: inner })
    }
}

/// Reset target reply: status byte, then whether a device specific reset
/// sequence ran.
pub struct ResetTargetResponse<'a> {
    pub inner: PacketMut<'a>,
    pub device_specific: bool,
}

/// `buf` holding a reset target reply.
pub open spec fn spec_reset_reply(buf: Seq<u8>, status: u8, device_specific: bool) -> Seq<u8> {
    buf.update(1, status).update(2, if device_specific { 1u8 } else { 0u8 }).update(0, 0x0Au8)
}

impl<'a> ResetTargetResponse<'a> {
    pub open spec fn wf(&self) -> bool {
        self.inner.buf@.len() >= 3 && self.inner.command == CommandType::ResetTarget
    }

    pub fn try_alloc(inner: &'a mut [u8]) -> (r: Result<Self, Error>)
        ensures
            match r {
                Ok(p) => old(inner)@.len() >= 3 && p.wf() && !p.device_specific && p.inner.buf@ == old(inner)@
                    && final(p.inner.buf)@ == final(inner)@,
                Err(e) => old(inner)@.len() < 3 && e == Error::BufferNotBigEnough
                    && final(inner)@ == old(inner)@,
            },
    {
        if inner.len() < 3 {
            return Err(Error::BufferNotBigEnough);
        }
        Ok(Self { inner: PacketMut { command: CommandType::ResetTarget, buf: inner }, device_specific: false })
    }

    pub fn set_device_specific(&mut self, value: bool)
        ensures
            final(self).device_specific == value,
            final(self).inner == old(self).inner,
    {
        self.device_specific = value;
    }

    fn commit_status(self, status: u8) -> (r: usize)
        requires
            self.wf(),
        ensures
            r == 3,
            final(self.inner.buf)@ == spec_reset_reply(old(self.inner.buf)@, status, self.device_specific),
    {
        let ResetTargetResponse { inner, device_specific } = self;
        let PacketMut { command, buf } = inner;
        buf[1] = status;
        buf[2] = if device_specific { 1 } else { 0 };
        buf[0] = 0x0A;
        3
    }

    pub fn commit_ok(self) -> (r: usize)
        requires
            self.wf(),
        ensures
            r == 3,
            final(self.inner.buf)@ == spec_reset_reply(old(self.inner.buf)@, 0, self.device_specific),
    {
        self.commit_status(0)
    }

    pub fn commit_err(self) -> (r: usize)
        requires
            self.wf(),
        ensures
            r == 3,
            final(self.inner.buf)@ == spec_reset_reply(old(self.inner.buf)@, 0xFF, self.device_specific),
    {
        self.commit_status(0xFF)
    }
}

} // verus!
