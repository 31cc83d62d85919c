//! The CMSIS-DAP packet frame: a command byte followed by a payload.

use vstd::prelude::*;

verus! {

/// A protocol error.
#[derive(Clone, Copy, Debug, PartialEq, Eq, Structural)]
pub enum Error {
    BufferNotBigEnough,
    UnsupportedCommand(u8),
}

/// The command byte of a CMSIS-DAP packet.
#[derive(Clone, Copy, Debug, PartialEq, Eq, Structural)]
pub enum CommandType {
    Info,
    HostStatus,
    Connect,
    Disconnect,
    TransferConfigure,
    Transfer,
    TransferBlock,
    TransferAbort,
    WriteAbort,
    Delay,
    ResetTarget,
    SWJPins,
    SWJClock,
    SWJSequence,
    SWDConfigure,
    JTAGSequence,
    JTAGConfigure,
    JTAGIDCode,
    SWOTransport,
    SWOMode,
    SWOBaudrate,
    SWOControl,
    SWOStatus,
    SWOData,
    SWDSequence,
    SWOExtendedStatus,
    Unsupported,
}

impl CommandType {
    /// The wire value of each command.
    pub open spec fn spec_to_u8(self) -> u8 {
        match self {
            CommandType::Info => 0x00,
            CommandType::HostStatus => 0x01,
            CommandType::Connect => 0x02,
            CommandType::Disconnect => 0x03,
            CommandType::TransferConfigure => 0x04,
            CommandType::Transfer => 0x05,
            CommandType::TransferBlock => 0x06,
            CommandType::TransferAbort => 0x07,
            CommandType::WriteAbort => 0x08,
            CommandType::Delay => 0x09,
            CommandType::ResetTarget => 0x0A,
            CommandType::SWJPins => 0x10,
            CommandType::SWJClock => 0x11,
            CommandType::SWJSequence => 0x12,
            CommandType::SWDConfigure => 0x13,
            CommandType::JTAGSequence => 0x14,
            CommandType::JTAGConfigure => 0x15,
            CommandType::JTAGIDCode => 0x16,
            CommandType::SWOTransport => 0x17,
            CommandType::SWOMode => 0x18,
            CommandType::SWOBaudrate => 0x19,
            CommandType::SWOControl => 0x1A,
            CommandType::SWOStatus => 0x1B,
            CommandType::SWOData => 0x1C,
            CommandType::SWDSequence => 0x1D,
            CommandType::SWOExtendedStatus => 0x1E,
            CommandType::Unsupported => 0xFF,
        }
    }

    /// The command whose wire value is `v`, if there is one.
    pub open spec fn spec_from_u8(v: u8) -> Option<CommandType> {
        if v == 0x00 { Some(CommandType::Info) }
        else if v == 0x01 { Some(CommandType::HostStatus) }
        else if v == 0x02 { Some(CommandType::Connect) }
        else if v == 0x03 { Some(CommandType::Disconnect) }
        else if v == 0x04 { Some(CommandType::TransferConfigure) }
        else if v == 0x05 { Some(CommandType::Transfer) }
        else if v == 0x06 { Some(CommandType::TransferBlock) }
        else if v == 0x07 { Some(CommandType::TransferAbort) }
        else if v == 0x08 { Some(CommandType::WriteAbort) }
        else if v == 0x09 { Some(CommandType::Delay) }
        else if v == 0x0A { Some(CommandType::ResetTarget) }
        else if v == 0x10 { Some(CommandType::SWJPins) }
        else if v == 0x11 { Some(CommandType::SWJClock) }
        else if v == 0x12 { Some(CommandType::SWJSequence) }
        else if v == 0x13 { Some(CommandType::SWDConfigure) }
        else if v == 0x14 { Some(CommandType::JTAGSequence) }
        else if v == 0x15 { Some(CommandType::JTAGConfigure) }
        else if v == 0x16 { Some(CommandType::JTAGIDCode) }
        else if v == 0x17 { Some(CommandType::SWOTransport) }
        else if v == 0x18 { Some(CommandType::SWOMode) }
        else if v == 0x19 { Some(CommandType::SWOBaudrate) }
        else if v == 0x1A { Some(CommandType::SWOControl) }
        else if v == 0x1B { Some(CommandType::SWOStatus) }
        else if v == 0x1C { Some(CommandType::SWOData) }
        else if v == 0x1D { Some(CommandType::SWDSequence) }
        else if v == 0x1E { Some(CommandType::SWOExtendedStatus) }
        else if v == 0xFF { Some(CommandType::Unsupported) }
        else { None }
    }

    pub fn to_u8(self) -> (r: u8)
        ensures
            r == self.spec_to_u8(),
    {
        match self {
            CommandType::Info => 0x00,
            CommandType::HostStatus => 0x01,
            CommandType::Connect => 0x02,
            CommandType::Disconnect => 0x03,
            CommandType::TransferConfigure => 0x04,
            CommandType::Transfer => 0x05,
            CommandType::TransferBlock => 0x06,
            CommandType::TransferAbort => 0x07,
            CommandType::WriteAbort => 0x08,
            CommandType::Delay => 0x09,
            CommandType::ResetTarget => 0x0A,
            CommandType::SWJPins => 0x10,
            CommandType::SWJClock => 0x11,
            CommandType::SWJSequence => 0x12,
            CommandType::SWDConfigure => 0x13,
            CommandType::JTAGSequence => 0x14,
            CommandType::JTAGConfigure => 0x15,
            CommandType::JTAGIDCode => 0x16,
            CommandType::SWOTransport => 0x17,
            CommandType::SWOMode => 0x18,
            CommandType::SWOBaudrate => 0x19,
            CommandType::SWOControl => 0x1A,
            CommandType::SWOStatus => 0x1B,
            CommandType::SWOData => 0x1C,
            CommandType::SWDSequence => 0x1D,
            CommandType::SWOExtendedStatus => 0x1E,
            CommandType::Unsupported => 0xFF,
        }
    }

    pub fn try_from_u8(v: u8) -> (r: Option<CommandType>)
        ensures
            r == CommandType::spec_from_u8(v),
    {
        if v == 0x00 { Some(CommandType::Info) }
        else if v == 0x01 { Some(CommandType::HostStatus) }
        else if v == 0x02 { Some(CommandType::Connect) }
        else if v == 0x03 { Some(CommandType::Disconnect) }
        else if v == 0x04 { Some(CommandType::TransferConfigure) }
        else if v == 0x05 { Some(CommandType::Transfer) }
        else if v == 0x06 { Some(CommandType::TransferBlock) }
        else if v == 0x07 { Some(CommandType::TransferAbort) }
        else if v == 0x08 { Some(CommandType::WriteAbort) }
        else if v == 0x09 { Some(CommandType::Delay) }
        else if v == 0x0A { Some(CommandType::ResetTarget) }
        else if v == 0x10 { Some(CommandType::SWJPins) }
        else if v == 0x11 { Some(CommandType::SWJClock) }
        else if v == 0x12 { Some(CommandType::SWJSequence) }
        else if v == 0x13 { Some(CommandType::SWDConfigure) }
        else if v == 0x14 { Some(CommandType::JTAGSequence) }
        else if v == 0x15 { Some(CommandType::JTAGConfigure) }
        else if v == 0x16 { Some(CommandType::JTAGIDCode) }
        else if v == 0x17 { Some(CommandType::SWOTransport) }
        else if v == 0x18 { Some(CommandType::SWOMode) }
        else if v == 0x19 { Some(CommandType::SWOBaudrate) }
        else if v == 0x1A { Some(CommandType::SWOControl) }
        else if v == 0x1B { Some(CommandType::SWOStatus) }
        else if v == 0x1C { Some(CommandType::SWOData) }
        else if v == 0x1D { Some(CommandType::SWDSequence) }
        else if v == 0x1E { Some(CommandType::SWOExtendedStatus) }
        else if v == 0xFF { Some(CommandType::Unsupported) }
        else { None }
    }
}

/// Decoding a command's wire value gives the command back.
pub proof fn lemma_command_type_roundtrip(c: CommandType)
    ensures
        CommandType::spec_from_u8(c.spec_to_u8()) == Some(c),
{
}

/// A command type known at compile time, for the standard one-status-byte
/// responses.
pub trait CommandProperties {
    const TYPE: CommandType;
}

/// A received packet: a command byte that names a known command, then the
/// payload.
pub struct Packet<'a> {
    command: CommandType,
    inner: &'a [u8],
}

impl<'a> Packet<'a> {
    #[verifier::type_invariant]
    closed spec fn wf(self) -> bool {
        &&& self.inner@.len() >= 1
        &&& CommandType::spec_from_u8(self.inner@[0]) == Some(self.command)
    }

    /// Every byte of the packet.
    pub closed spec fn bytes(&self) -> Seq<u8> {
        self.inner@
    }

    pub closed spec fn command(&self) -> CommandType {
        self.command
    }

    /// The bytes after the command byte.
    pub open spec fn payload(&self) -> Seq<u8> {
        self.bytes().skip(1)
    }

    /// The outcome of parsing `s` as a packet.
    pub open spec fn spec_parse_error(s: Seq<u8>) -> Option<Error> {
        if s.len() == 0 {
            Some(Error::BufferNotBigEnough)
        } else if CommandType::spec_from_u8(s[0]) is None {
            Some(Error::UnsupportedCommand(s[0]))
        } else {
            None
        }
    }

    pub fn try_parse(inner: &'a [u8]) -> (r: Result<Self, Error>)
        ensures
            match r {
                Ok(p) => Packet::spec_parse_error(inner@) is None && p.bytes() == inner@
                    && Some(p.command()) == CommandType::spec_from_u8(inner@[0]),
                Err(e) => Packet::spec_parse_error(inner@) == Some(e),
            },
    {
        if inner.len() == 0 {
            return Err(Error::BufferNotBigEnough);
        }
        let command_byte = inner[0];
        match CommandType::try_from_u8(command_byte) {
            Some(command) => Ok(Self { command, inner }),
            None => Err(Error::UnsupportedCommand(command_byte)),
        }
    }

    pub fn get_command(&self) -> (r: CommandType)
        ensures
            r == self.command(),
    {
        self.command
    }

    pub fn get_payload(&self) -> (r: &'a [u8])
        ensures
            r@ == self.payload(),
    {
        proof {
            use_type_invariant(self);
        }
        let s: &'a [u8] = self.inner;
        vstd::slice::slice_subrange(s, 1, s.len())
    }
}

/// A packet being written into a caller's buffer: the command byte is
/// written on commit, the payload by the response types.
pub struct PacketMut<'a> {
    pub command: CommandType,
    pub buf: &'a mut [u8],
}

impl<'a> PacketMut<'a> {
    pub open spec fn wf(&self) -> bool {
        self.buf@.len() >= 1
    }

    /// The payload as it stands.
    pub open spec fn payload(&self) -> Seq<u8> {
        self.buf@.skip(1)
    }

    pub fn try_alloc(inner: &'a mut [u8], command: CommandType) -> (r: Result<Self, Error>)
        ensures
            match r {
                Ok(p) => old(inner)@.len() >= 1 && p.command == command && p.buf@ == old(inner)@
                    && final(p.buf)@ == final(inner)@,
                Err(e) => old(inner)@.len() == 0 && e == Error::BufferNotBigEnough
                    && final(inner)@ == old(inner)@,
            },
    {
        if inner.len() >= 1 {
            Ok(Self { command, buf: inner })
        } else {
            Err(Error::BufferNotBigEnough)
        }
    }

    /// Writes the command byte and returns the packet's size.
    pub fn commit(self, payload_size: usize) -> (r: usize)
        requires
            self.wf(),
            payload_size < usize::MAX,
        ensures
            r == payload_size + 1,
            final(self.buf)@ == old(self.buf)@.update(0, self.command.spec_to_u8()),
    {
        let PacketMut { command, buf } = self;
        buf[0] = command.to_u8();
        payload_size + 1
    }
}

/// `buf` with the command byte and one status byte written.
pub open spec fn spec_status_reply(buf: Seq<u8>, cmd: CommandType, status: u8) -> Seq<u8> {
    buf.update(1, status).update(0, cmd.spec_to_u8())
}

impl<'a> PacketMut<'a> {
    /// Writes a one-byte status payload and the command byte.
    pub fn commit_with_status(self, status: u8) -> (r: usize)
        requires
            self.buf@.len() >= 2,
        ensures
            r == 2,
            final(self.buf)@ == spec_status_reply(old(self.buf)@, self.command, status),
    {
        let PacketMut { command, buf } = self;
        buf[1] = status;
        buf[0] = command.to_u8();
        2
    }
}

/// A response whose payload is one status byte.
pub struct StandardResponse<'a, C> {
    pub inner: PacketMut<'a>,
    pub _command: core::marker::PhantomData<C>,
}

impl<'a, C: CommandProperties> StandardResponse<'a, C> {
    pub fn try_alloc(inner: &'a mut [u8]) -> (r: Result<Self, Error>)
        ensures
            match r {
                Ok(p) => old(inner)@.len() >= 2 && p.inner.command == C::TYPE && p.inner.buf@ == old(inner)@
                    && final(p.inner.buf)@ == final(inner)@,
                Err(e) => old(inner)@.len() < 2 && e == Error::BufferNotBigEnough
                    && final(inner)@ == old(inner)@,
            },
    {
        if inner.len() < 2 {
            return Err(Error::BufferNotBigEnough);
        }
        let inner = PacketMut { command: C::TYPE, buf: inner };
        Ok(Self { inner, _command: core::marker::PhantomData })
    }

    pub open spec fn wf(&self) -> bool {
        self.inner.buf@.len() >= 2
    }

    pub fn commit_ok(self) -> (r: usize)
        requires
            self.wf(),
        ensures
            r == 2,
            final(self.inner.buf)@ == spec_status_reply(old(self.inner.buf)@, self.inner.command, 0),
    {
        self.inner.commit_with_status(0)
    }

    pub fn commit_err(self) -> (r: usize)
        requires
            self.wf(),
        ensures
            r == 2,
            final(self.inner.buf)@ == spec_status_reply(old(self.inner.buf)@, self.inner.command, 0xFF),
    {
        self.inner.commit_with_status(0xFF)
    }
}

impl Error {
    /// Writes the reply to an unsupported command into `buf`: the single
    /// byte 0xFF.
    pub fn respond(buf: &mut [u8]) -> (r: Result<usize, Error>)
        ensures
            match r {
                Ok(n) => n == 1 && old(buf)@.len() >= 1 && final(buf)@ == old(buf)@.update(0, 0xFFu8),
                Err(e) => old(buf)@.len() == 0 && e == Error::BufferNotBigEnough && final(buf)@ == old(buf)@,
            },
    {
        let packet = PacketMut::try_alloc(buf, CommandType::Unsupported)?;
        Ok(packet.commit(0))
    }
}

} // verus!
