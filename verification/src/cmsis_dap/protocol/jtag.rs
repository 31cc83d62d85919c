//! JTAG commands: sequence, configure and ID code.

use vstd::prelude::*;
use crate::bytes::{spec_splice, spec_u32_bytes, write_u32_le};
use super::common::{CommandProperties, CommandType, Error, Packet, PacketMut, StandardResponse};

verus! {

/// JTAG sequence request: a sequence count, then the sequences.
pub struct JTAGSequenceCommand<'a> {
    inner: Packet<'a>,
}

impl<'a> JTAGSequenceCommand<'a> {
    #[verifier::type_invariant]
    closed spec fn wf(self) -> bool {
        self.inner.payload().len() >= 1
    }

    pub closed spec fn payload(&self) -> Seq<u8> {
        self.inner.payload()
    }

    pub fn try_from(inner: Packet<'a>) -> (r: Result<Self, Error>)
        requires
            inner.command() == CommandType::JTAGSequence,
        ensures
            match r {
                Ok(c) => inner.payload().len() >= 1 && c.payload() == inner.payload(),
                Err(e) => inner.payload().len() < 1 && e == Error::BufferNotBigEnough,
            },
    {
        if inner.get_payload().len() >= 1 {
            Ok(Self { inner })
        } else {
            Err(Error::BufferNotBigEnough)
        }
    }

    pub fn get_sequences(&self) -> (r: JTAGSequenceIterator<'a>)
        ensures
            r.payload@ == self.payload(),
            r.payload@.len() >= 1,
            r.payload_idx == 1,
            r.sequences_left == self.payload()[0],
    {
        proof {
            use_type_invariant(self);
        }
        let payload = self.inner.get_payload();
        JTAGSequenceIterator { payload, payload_idx: 1, sequences_left: payload[0] as usize }
    }
}

/// JTAG sequence reply: status byte, then the captured TDO data.
pub struct JTAGSequenceResponse<'a> {
    pub inner: PacketMut<'a>,
}

impl<'a> JTAGSequenceResponse<'a> {
    pub open spec fn wf(&self) -> bool {
        self.inner.buf@.len() >= 2 && self.inner.command == CommandType::JTAGSequence
    }

    pub fn try_alloc(inner: &'a mut [u8]) -> (r: Result<Self, Error>)
        ensures
            match r {
                Ok(p) => old(inner)@.len() >= 2 && p.wf() && p.inner.buf@ == old(inner)@
                    && final(p.inner.buf)@ == final(inner)@,
                Err(e) => old(inner)@.len() < 2 && e == Error::BufferNotBigEnough
                    && final(inner)@ == old(inner)@,
            },
    {
        if inner.len() < 2 {
            return Err(Error::BufferNotBigEnough);
        }
        Ok(Self { inner: PacketMut { command: CommandType::JTAGSequence, buf: inner } })
    }

    /// The room for captured TDO data, after the status byte.
    pub fn get_tdo_data_mut(&mut self) -> (r: &mut [u8])
        requires
            old(self).wf(),
        ensures
            r@ == old(self).inner.buf@.skip(2),
            final(self).inner.buf@ == old(self).inner.buf@.take(2) + final(r)@,
            final(final(self).inner.buf)@ == final(old(self).inner.buf)@,
            final(self).inner.command == old(self).inner.command,
    {
        let (_, rest) = self.inner.buf.split_at_mut(2);
        rest
    }

    pub fn commit_ok(self, tdo_size: usize) -> (r: usize)
        requires
            self.wf(),
            tdo_size <= usize::MAX - 2,
        ensures
            r == tdo_size + 2,
            final(self.inner.buf)@ == old(self.inner.buf)@.update(1, 0u8).update(0, 0x14u8),
    {
        let JTAGSequenceResponse { inner } = self;
        let PacketMut { command, buf } = inner;
        buf[1] = 0;
        buf[0] = 0x14;
        tdo_size + 2
    }

    pub fn commit_err(self) -> (r: usize)
        requires
            self.wf(),
        ensures
            r == 2,
            final(self.inner.buf)@ == old(self.inner.buf)@.update(1, 0xFFu8).update(0, 0x14u8),
    {
        let JTAGSequenceResponse { inner } = self;
        let PacketMut { command, buf } = inner;
        buf[1] = 0xFF;
        buf[0] = 0x14;
        2
    }
}

/// The bit count of a JTAG sequence info byte: its low six bits, 0 meaning 64.
pub open spec fn spec_jtag_num_bits(info: u8) -> nat {
    if info & 0x3F == 0 { 64 } else { (info & 0x3F) as nat }
}

/// The length in bytes of the JTAG sequence at the start of `s`, if `s`
/// holds a complete one.
pub open spec fn spec_jtag_sequence_len(s: Seq<u8>) -> Option<nat> {
    if s.len() >= 1 && s.len() >= 1 + (spec_jtag_num_bits(s[0]) + 7) / 8 {
        Some((1 + (spec_jtag_num_bits(s[0]) + 7) / 8) as nat)
    } else {
        None
    }
}

/// The TDO bytes that JTAG sequences capture: of the `left` sequences from
/// payload index `i`, as far as the payload holds them, the TDI byte count
/// of each one that captures.
pub open spec fn spec_jtag_capture_len(payload: Seq<u8>, i: int, left: nat) -> int
    decreases left,
{
    if left == 0 {
        0
    } else {
        let rest = payload.skip(i);
        match spec_jtag_sequence_len(rest) {
            None => 0,
            Some(n) => (if rest[0] & 0x80 == 0x80 {
                ((spec_jtag_num_bits(rest[0]) + 7) / 8) as int
            } else {
                0
            }) + spec_jtag_capture_len(payload, i + n, (left - 1) as nat),
        }
    }
}

/// Walks the sequences of a JTAG sequence request.
pub struct JTAGSequenceIterator<'a> {
    pub payload: &'a [u8],
    pub payload_idx: usize,
    pub sequences_left: usize,
}

impl<'a> JTAGSequenceIterator<'a> {
    pub fn next(&mut self) -> (r: Option<JTAGSequence<'a>>)
        requires
            old(self).payload_idx <= old(self).payload@.len(),
        ensures
            final(self).payload_idx <= final(self).payload@.len(),
            final(self).payload == old(self).payload,
            ({
                let rest = old(self).payload@.skip(old(self).payload_idx as int);
                if old(self).sequences_left > 0 && spec_jtag_sequence_len(rest) is Some {
                    let n = spec_jtag_sequence_len(rest)->0;
                    &&& r matches Some(seq) && seq.bytes() == rest.take(n as int)
                        && seq.num_bits() == spec_jtag_num_bits(rest[0])
                    &&& final(self).payload_idx == old(self).payload_idx + n
                    &&& final(self).sequences_left == old(self).sequences_left - 1
                } else {
                    r is None && *final(self) == *old(self)
                }
            }),
    {
        if self.sequences_left > 0 {
            let rest = vstd::slice::slice_subrange(self.payload, self.payload_idx, self.payload.len());
            if let Ok(sequence) = JTAGSequence::try_from(rest) {
                self.payload_idx = self.payload_idx + sequence.inner.len();
                self.sequences_left = self.sequences_left - 1;
                return Some(sequence);
            }
        }
        None
    }
}

/// One JTAG sequence: an info byte (bit count, TMS level, capture flag) and
/// the TDI bytes.
pub struct JTAGSequence<'a> {
    inner: &'a [u8],
    num_bits: usize,
}

impl<'a> JTAGSequence<'a> {
    #[verifier::type_invariant]
    closed spec fn wf(self) -> bool {
        &&& self.inner@.len() >= 1
        &&& self.num_bits == spec_jtag_num_bits(self.inner@[0])
        &&& self.inner@.len() == 1 + (self.num_bits + 7) / 8
    }

    /// The info byte and the TDI bytes of the sequence.
    pub closed spec fn bytes(&self) -> Seq<u8> {
        self.inner@
    }

    pub closed spec fn num_bits(&self) -> nat {
        self.num_bits as nat
    }

    pub fn try_from(inner: &'a [u8]) -> (r: Result<Self, Error>)
        ensures
            match r {
                Ok(s) => spec_jtag_sequence_len(inner@) is Some
                    && s.bytes() == inner@.take(spec_jtag_sequence_len(inner@)->0 as int)
                    && s.num_bits() == spec_jtag_num_bits(inner@[0]),
                Err(e) => spec_jtag_sequence_len(inner@) is None && e == Error::BufferNotBigEnough,
            },
    {
        if inner.len() >= 1 {
            let info = inner[0];
            assert(info & 0x3F <= 63) by (bit_vector);
            let num_bits = (info & 0x3F) as usize;
            let num_bits: usize = if num_bits == 0 { 64 } else { num_bits };
            let num_bytes = (num_bits + 7) / 8;
            if inner.len() >= 1 + num_bytes {
                return Ok(Self { inner: vstd::slice::slice_subrange(inner, 0, 1 + num_bytes), num_bits });
            }
        }
        Err(Error::BufferNotBigEnough)
    }

    pub fn get_num_bits(&self) -> (r: usize)
        ensures
            r == self.num_bits(),
            1 <= r <= 64,
    {
        proof {
            use_type_invariant(self);
            let b = self.inner@[0];
            assert(b & 0x3F <= 63) by (bit_vector);
        }
        self.num_bits
    }

    pub fn get_tms(&self) -> (r: bool)
        ensures
            r == (self.bytes()[0] & 0x40 == 0x40),
    {
        proof {
            use_type_invariant(self);
        }
        self.inner[0] & 0x40 == 0x40
    }

    pub fn get_capture_tdo(&self) -> (r: bool)
        ensures
            r == (self.bytes()[0] & 0x80 == 0x80),
    {
        proof {
            use_type_invariant(self);
        }
        self.inner[0] & 0x80 == 0x80
    }

    pub fn get_tdi_data(&self) -> (r: &'a [u8])
        ensures
            r@ == self.bytes().skip(1),
            r@.len() == (self.num_bits() + 7) / 8,
    {
        proof {
            use_type_invariant(self);
        }
        vstd::slice::slice_subrange(self.inner, 1, self.inner.len())
    }
}

pub struct JTAGConfigureProps {}

impl CommandProperties for JTAGConfigureProps {
    const TYPE: CommandType = CommandType::JTAGConfigure;
}

/// JTAG configure request: a device count, then each device's IR length.
pub struct JTAGConfigureCommand<'a> {
    inner: Packet<'a>,
    num_devices: usize,
}

impl<'a> JTAGConfigureCommand<'a> {
    #[verifier::type_invariant]
    closed spec fn wf(self) -> bool {
        &&& self.inner.payload().len() >= 1
        &&& self.num_devices == self.inner.payload()[0]
        &&& self.inner.payload().len() >= 1 + self.num_devices
    }

    pub closed spec fn payload(&self) -> Seq<u8> {
        self.inner.payload()
    }

    /// Whether a payload holds a device count and that many IR lengths.
    pub open spec fn spec_accepts(payload: Seq<u8>) -> bool {
        payload.len() >= 1 && payload.len() >= 1 + payload[0]
    }

    pub fn try_from(inner: Packet<'a>) -> (r: Result<Self, Error>)
        requires
            inner.command() == CommandType::JTAGConfigure,
        ensures
            match r {
                Ok(c) => JTAGConfigureCommand::spec_accepts(inner.payload()) && c.payload() == inner.payload(),
                Err(e) => !JTAGConfigureCommand::spec_accepts(inner.payload()) && e == Error::BufferNotBigEnough,
            },
    {
        let payload = inner.get_payload();
        if payload.len() >= 1 {
            let num_devices = payload[0] as usize;
            if payload.len() >= 1 + num_devices {
                return Ok(Self { inner, num_devices });
            }
        }
        Err(Error::BufferNotBigEnough)
    }

    pub fn get_ir_lengths(&self) -> (r: &'a [u8])
        ensures
            r@ == self.payload().subrange(1, 1 + self.payload()[0]),
            r@.len() == self.payload()[0],
    {
        proof {
            use_type_invariant(self);
        }
        vstd::slice::slice_subrange(self.inner.get_payload(), 1, self.num_devices + 1)
    }
}

pub type JTAGConfigureResponse<'a> = StandardResponse<'a, JTAGConfigureProps>;

/// JTAG ID code request: the index of the device on the chain.
pub struct JTAGIDCodeCommand<'a> {
    inner: Packet<'a>,
}

impl<'a> JTAGIDCodeCommand<'a> {
    #[verifier::type_invariant]
    closed spec fn wf(self) -> bool {
        self.inner.payload().len() >= 1
    }

    pub closed spec fn payload(&self) -> Seq<u8> {
        self.inner.payload()
    }

    pub fn try_from(inner: Packet<'a>) -> (r: Result<Self, Error>)
        requires
            inner.command() == CommandType::JTAGIDCode,
        ensures
            match r {
                Ok(c) => inner.payload().len() >= 1 && c.payload() == inner.payload(),
                Err(e) => inner.payload().len() < 1 && e == Error::BufferNotBigEnough,
            },
    {
        if inner.get_payload().len() >= 1 {
            Ok(Self { inner })
        } else {
            Err(Error::BufferNotBigEnough)
        }
    }

    pub fn get_index(&self) -> (r: u8)
        ensures
            r == self.payload()[0],
    {
        proof {
            use_type_invariant(self);
        }
        self.inner.get_payload()[0]
    }
}

/// JTAG ID code reply: status byte, then the 32-bit ID code.
pub struct JTAGIDCodeResponse<'a> {
    pub inner: PacketMut<'a>,
}

impl<'a> JTAGIDCodeResponse<'a> {
    pub open spec fn wf(&self) -> bool {
        self.inner.buf@.len() >= 6 && self.inner.command == CommandType::JTAGIDCode
    }

    pub fn try_alloc(inner: &'a mut [u8]) -> (r: Result<Self, Error>)
        ensures
            match r {
                Ok(p) => old(inner)@.len() >= 6 && p.wf() && p.inner.buf@ == old(inner)@
                    && final(p.inner.buf)@ == final(inner)@,
                Err(e) => old(inner)@.len() < 6 && e == Error::BufferNotBigEnough
                    && final(inner)@ == old(inner)@,
            },
    {
        if inner.len() < 6 {
            return Err(Error::BufferNotBigEnough);
        }
        Ok(Self { inner: PacketMut { command: CommandType::JTAGIDCode, buf: inner } })
    }

    pub fn commit_ok(self, idcode: u32) -> (r: usize)
        requires
            self.wf(),
        ensures
            r == 6,
            final(self.inner.buf)@ == spec_splice(old(self.inner.buf)@, 2, spec_u32_bytes(idcode)).update(1, 0u8).update(0, 0x16u8),
    {
        let JTAGIDCodeResponse { inner } = self;
        let PacketMut { command, buf } = inner;
        write_u32_le(buf, 2, idcode);
        buf[1] = 0;
        buf[0] = 0x16;
        6
    }

    pub fn commit_err(self) -> (r: usize)
        requires
            self.wf(),
        ensures
            r == 6,
            final(self.inner.buf)@ == old(self.inner.buf)@.update(1, 0xFFu8).update(0, 0x16u8),
    {
        let JTAGIDCodeResponse { inner } = self;
        let PacketMut { command, buf } = inner;
        buf[1] = 0xFF;
        buf[0] = 0x16;
        6
    }
}

} // verus!
