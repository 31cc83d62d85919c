//! The CMSIS-DAP command and response codec.

pub mod common;
pub mod general;
pub mod jtag;
pub mod swd;
pub mod swj;
pub mod swo;
pub mod transfer;

use vstd::prelude::*;
use common::{CommandType, Error, Packet};
use general::{
    ConnectCommand, DelayCommand, DisconnectCommand, HostStatusCommand, InfoCommand, ResetTargetCommand,
    WriteAbortCommand,
};
use jtag::{JTAGConfigureCommand, JTAGIDCodeCommand, JTAGSequenceCommand};
use swd::{SWDConfigureCommand, SWDSequenceCommand};
use swj::{SWJClockCommand, SWJPinsCommand, SWJSequenceCommand};
use swo::{
    SWOBaudrateCommand, SWOControlCommand, SWODataCommand, SWOExtendedStatusCommand, SWOModeCommand,
    SWOStatusCommand, SWOTransportCommand,
};
use transfer::{TransferBlockCommand, TransferCommand, TransferConfigureCommand};

verus! {

/// A parsed DAP request.
pub enum Command<'a> {
    Info(InfoCommand<'a>),
    HostStatus(HostStatusCommand<'a>),
    Connect(ConnectCommand<'a>),
    Disconnect(DisconnectCommand<'a>),
    TransferConfigure(TransferConfigureCommand<'a>),
    Transfer(TransferCommand<'a>),
    TransferBlock(TransferBlockCommand<'a>),
    WriteAbort(WriteAbortCommand<'a>),
    Delay(DelayCommand<'a>),
    ResetTarget(ResetTargetCommand<'a>),
    SWJPins(SWJPinsCommand<'a>),
    SWJClock(SWJClockCommand<'a>),
    SWJSequence(SWJSequenceCommand<'a>),
    SWDConfigure(SWDConfigureCommand<'a>),
    SWDSequence(SWDSequenceCommand<'a>),
    SWOTransport(SWOTransportCommand<'a>),
    SWOMode(SWOModeCommand<'a>),
    SWOBaudrate(SWOBaudrateCommand<'a>),
    SWOControl(SWOControlCommand<'a>),
    SWOStatus(SWOStatusCommand),
    SWOExtendedStatus(SWOExtendedStatusCommand<'a>),
    SWOData(SWODataCommand<'a>),
    JTAGSequence(JTAGSequenceCommand<'a>),
    JTAGConfigure(JTAGConfigureCommand<'a>),
    JTAGIDCode(JTAGIDCodeCommand<'a>),
}

/// Whether `payload` is long enough for a request of type `cmd`.
pub open spec fn spec_payload_ok(cmd: CommandType, payload: Seq<u8>) -> bool {
    match cmd {
        CommandType::Info => payload.len() >= 1,
        CommandType::HostStatus => payload.len() >= 2,
        CommandType::Connect => payload.len() >= 1,
        CommandType::Disconnect => true,
        CommandType::TransferConfigure => payload.len() >= 5,
        CommandType::Transfer => payload.len() >= 2,
        CommandType::TransferBlock => payload.len() >= 4,
        CommandType::WriteAbort => payload.len() >= 5,
        CommandType::Delay => payload.len() >= 2,
        CommandType::ResetTarget => true,
        CommandType::SWJPins => payload.len() >= 6,
        CommandType::SWJClock => payload.len() >= 4,
        CommandType::SWJSequence => SWJSequenceCommand::spec_accepts(payload),
        CommandType::SWDConfigure => payload.len() >= 1,
        CommandType::SWDSequence => payload.len() >= 1,
        CommandType::SWOTransport => payload.len() >= 1,
        CommandType::SWOMode => payload.len() >= 1,
        CommandType::SWOBaudrate => payload.len() >= 4,
        CommandType::SWOControl => payload.len() >= 1,
        CommandType::SWOStatus => true,
        CommandType::SWOExtendedStatus => payload.len() >= 1,
        CommandType::SWOData => payload.len() >= 2,
        CommandType::JTAGSequence => payload.len() >= 1,
        CommandType::JTAGConfigure => JTAGConfigureCommand::spec_accepts(payload),
        CommandType::JTAGIDCode => payload.len() >= 1,
        CommandType::TransferAbort => true,
        CommandType::Unsupported => true,
    }
}

/// The outcome of parsing a request: the error, if any.
pub open spec fn spec_command_error(s: Seq<u8>) -> Option<Error> {
    if s.len() == 0 {
        Some(Error::BufferNotBigEnough)
    } else {
        match CommandType::spec_from_u8(s[0]) {
            None => Some(Error::UnsupportedCommand(s[0])),
            Some(CommandType::TransferAbort) => Some(Error::UnsupportedCommand(s[0])),
            Some(CommandType::Unsupported) => Some(Error::UnsupportedCommand(s[0])),
            Some(cmd) => if spec_payload_ok(cmd, s.skip(1)) {
                None
            } else {
                Some(Error::BufferNotBigEnough)
            },
        }
    }
}

impl<'a> Command<'a> {
    /// The request type of a parsed command.
    pub open spec fn spec_type(&self) -> CommandType {
        match self {
            Command::Info(_) => CommandType::Info,
            Command::HostStatus(_) => CommandType::HostStatus,
            Command::Connect(_) => CommandType::Connect,
            Command::Disconnect(_) => CommandType::Disconnect,
            Command::TransferConfigure(_) => CommandType::TransferConfigure,
            Command::Transfer(_) => CommandType::Transfer,
            Command::TransferBlock(_) => CommandType::TransferBlock,
            Command::WriteAbort(_) => CommandType::WriteAbort,
            Command::Delay(_) => CommandType::Delay,
            Command::ResetTarget(_) => CommandType::ResetTarget,
            Command::SWJPins(_) => CommandType::SWJPins,
            Command::SWJClock(_) => CommandType::SWJClock,
            Command::SWJSequence(_) => CommandType::SWJSequence,
            Command::SWDConfigure(_) => CommandType::SWDConfigure,
            Command::SWDSequence(_) => CommandType::SWDSequence,
            Command::SWOTransport(_) => CommandType::SWOTransport,
            Command::SWOMode(_) => CommandType::SWOMode,
            Command::SWOBaudrate(_) => CommandType::SWOBaudrate,
            Command::SWOControl(_) => CommandType::SWOControl,
            Command::SWOStatus(_) => CommandType::SWOStatus,
            Command::SWOExtendedStatus(_) => CommandType::SWOExtendedStatus,
            Command::SWOData(_) => CommandType::SWOData,
            Command::JTAGSequence(_) => CommandType::JTAGSequence,
            Command::JTAGConfigure(_) => CommandType::JTAGConfigure,
            Command::JTAGIDCode(_) => CommandType::JTAGIDCode,
        }
    }

    /// Whether the command's payload is `p` (commands that keep no payload
    /// match any).
    pub open spec fn spec_payload_is(&self, p: Seq<u8>) -> bool {
        match self {
            Command::Info(c) => c.payload() == p,
            Command::HostStatus(c) => c.payload() == p,
            Command::Connect(c) => c.payload() == p,
            Command::Disconnect(_) => true,
            Command::TransferConfigure(c) => c.payload() == p,
            Command::Transfer(c) => c.payload() == p,
            Command::TransferBlock(c) => c.payload() == p,
            Command::WriteAbort(c) => c.payload() == p,
            Command::Delay(c) => c.payload() == p,
            Command::ResetTarget(_) => true,
            Command::SWJPins(c) => c.payload() == p,
            Command::SWJClock(c) => c.payload() == p,
            Command::SWJSequence(c) => c.payload() == p,
            Command::SWDConfigure(c) => c.payload() == p,
            Command::SWDSequence(c) => c.payload() == p,
            Command::SWOTransport(c) => c.payload() == p,
            Command::SWOMode(c) => c.payload() == p,
            Command::SWOBaudrate(c) => c.payload() == p,
            Command::SWOControl(c) => c.payload() == p,
            Command::SWOStatus(_) => true,
            Command::SWOExtendedStatus(c) => c.payload() == p,
            Command::SWOData(c) => c.payload() == p,
            Command::JTAGSequence(c) => c.payload() == p,
            Command::JTAGConfigure(c) => c.payload() == p,
            Command::JTAGIDCode(c) => c.payload() == p,
        }
    }

    /// Parses a request: its type from the first byte, its payload checked
    /// for length.
    pub fn try_parse(inner: &'a [u8]) -> (r: Result<Self, Error>)
        ensures
            match r {
                Ok(c) => spec_command_error(inner@) is None && Some(c.spec_type()) == CommandType::spec_from_u8(
                    inner@[0],
                ) && c.spec_payload_is(inner@.skip(1)),
                Err(e) => spec_command_error(inner@) == Some(e),
            },
    {
        let packet = Packet::try_parse(inner)?;
        match packet.get_command() {
            CommandType::Info => Ok(Self::Info(InfoCommand::try_from(packet)?)),
            CommandType::HostStatus => Ok(Self::HostStatus(HostStatusCommand::try_from(packet)?)),
            CommandType::Connect => Ok(Self::Connect(ConnectCommand::try_from(packet)?)),
            CommandType::Disconnect => Ok(Self::Disconnect(DisconnectCommand::try_from(packet)?)),
            CommandType::TransferConfigure => Ok(
                Self::TransferConfigure(TransferConfigureCommand::try_from(packet)?),
            ),
            CommandType::Transfer => Ok(Self::Transfer(TransferCommand::try_from(packet)?)),
            CommandType::TransferBlock => Ok(Self::TransferBlock(TransferBlockCommand::try_from(packet)?)),
            CommandType::WriteAbort => Ok(Self::WriteAbort(WriteAbortCommand::try_from(packet)?)),
            CommandType::Delay => Ok(Self::Delay(DelayCommand::try_from(packet)?)),
            CommandType::ResetTarget => Ok(Self::ResetTarget(ResetTargetCommand::try_from(packet)?)),
            CommandType::SWJPins => Ok(Self::SWJPins(SWJPinsCommand::try_from(packet)?)),
            CommandType::SWJClock => Ok(Self::SWJClock(SWJClockCommand::try_from(packet)?)),
            CommandType::SWJSequence => Ok(Self::SWJSequence(SWJSequenceCommand::try_from(packet)?)),
            CommandType::SWDConfigure => Ok(Self::SWDConfigure(SWDConfigureCommand::try_from(packet)?)),
            CommandType::SWDSequence => Ok(Self::SWDSequence(SWDSequenceCommand::try_from(packet)?)),
            CommandType::SWOTransport => Ok(Self::SWOTransport(SWOTransportCommand::try_from(packet)?)),
            CommandType::SWOMode => Ok(Self::SWOMode(SWOModeCommand::try_from(packet)?)),
            CommandType::SWOBaudrate => Ok(Self::SWOBaudrate(SWOBaudrateCommand::try_from(packet)?)),
            CommandType::SWOControl => Ok(Self::SWOControl(SWOControlCommand::try_from(packet)?)),
            CommandType::SWOStatus => Ok(Self::SWOStatus(SWOStatusCommand::try_from(packet)?)),
            CommandType::SWOExtendedStatus => Ok(
                Self::SWOExtendedStatus(SWOExtendedStatusCommand::try_from(packet)?),
            ),
            CommandType::SWOData => Ok(Self::SWOData(SWODataCommand::try_from(packet)?)),
            CommandType::JTAGSequence => Ok(Self::JTAGSequence(JTAGSequenceCommand::try_from(packet)?)),
            CommandType::JTAGConfigure => Ok(Self::JTAGConfigure(JTAGConfigureCommand::try_from(packet)?)),
            CommandType::JTAGIDCode => Ok(Self::JTAGIDCode(JTAGIDCodeCommand::try_from(packet)?)),
            cmd => Err(Error::UnsupportedCommand(cmd.to_u8())),
        }
    }
}

} // verus!
