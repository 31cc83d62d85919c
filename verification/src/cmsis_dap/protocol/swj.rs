//! SWJ commands: pins, clock and sequence.

use vstd::prelude::*;
use crate::bytes::{read_u32_le, spec_u32_le};
use crate::cmsis_dap::types::Pins;
use super::common::{spec_status_reply, CommandType, Error, Packet, PacketMut};

verus! {

/// SWJ pins request: output levels, pin select mask, wait time.
pub struct SWJPinsCommand<'a> {
    inner: Packet<'a>,
}

impl<'a> SWJPinsCommand<'a> {
    #[verifier::type_invariant]
    closed spec fn wf(self) -> bool {
        self.inner.payload().len() >= 6
    }

    pub closed spec fn payload(&self) -> Seq<u8> {
        self.inner.payload()
    }

    pub fn try_from(inner: Packet<'a>) -> (r: Result<Self, Error>)
        requires
            inner.command() == CommandType::SWJPins,
        ensures
            match r {
                Ok(c) => inner.payload().len() >= 6 && c.payload() == inner.payload(),
                Err(e) => inner.payload().len() < 6 && e == Error::BufferNotBigEnough,
            },
    {
        if inner.get_payload().len() >= 6 {
            Ok(Self { inner })
        } else {
            Err(Error::BufferNotBigEnough)
        }
    }

    pub fn get_output_pins(&self) -> (r: Pins)
        ensures
            r == Pins(self.payload()[0]),
    {
        proof {
            use_type_invariant(self);
        }
        Pins(self.inner.get_payload()[0])
    }

    pub fn get_selected_pins(&self) -> (r: Pins)
        ensures
            r == Pins(self.payload()[1]),
    {
        proof {
            use_type_invariant(self);
        }
        Pins(self.inner.get_payload()[1])
    }

    pub fn get_wait_us(&self) -> (r: u32)
        ensures
            r == spec_u32_le(self.payload(), 2),
    {
        proof {
            use_type_invariant(self);
        }
        read_u32_le(self.inner.get_payload(), 2)
    }
}

/// SWJ pins reply: the pin levels read back.
pub struct SWJPinsResponse<'a> {
    pub inner: PacketMut<'a>,
}

impl<'a> SWJPinsResponse<'a> {
    pub open spec fn wf(&self) -> bool {
        self.inner.buf@.len() >= 2 && self.inner.command == CommandType::SWJPins
    }

    pub fn try_alloc(inner: &'a mut [u8]) -> (r: Result<Self, Error>)
        ensures
            match r {
                Ok(p) => old(inner)@.len() >= 2 && p.wf() && p.inner.buf@ == old(inner)@
                    && final(p.inner.buf)@ == final(inner)@,
                Err(e) => old(inner)@.len() < 2 && e == Error::BufferNotBigEnough
                    && final(inner)@ == old(inner)@,
            },
    {
        if inner.len() < 2 {
            return Err(Error::BufferNotBigEnough);
        }
        Ok(Self { inner: PacketMut { command: CommandType::SWJPins, buf: inner } })
    }

    pub fn commit(self, pins_input: Pins) -> (r: usize)
        requires
            self.wf(),
        ensures
            r == 2,
            final(self.inner.buf)@ == spec_status_reply(old(self.inner.buf)@, CommandType::SWJPins, pins_input.0),
    {
        self.inner.commit_with_status(pins_input.0)
    }
}

/// SWJ clock request: a little-endian frequency in Hz.
pub struct SWJClockCommand<'a> {
    inner: Packet<'a>,
}

impl<'a> SWJClockCommand<'a> {
    #[verifier::type_invariant]
    closed spec fn wf(self) -> bool {
        self.inner.payload().len() >= 4
    }

    pub closed spec fn payload(&self) -> Seq<u8> {
        self.inner.payload()
    }

    pub fn try_from(inner: Packet<'a>) -> (r: Result<Self, Error>)
        requires
            inner.command() == CommandType::SWJClock,
        ensures
            match r {
                Ok(c) => inner.payload().len() >= 4 && c.payload() == inner.payload(),
                Err(e) => inner.payload().len() < 4 && e == Error::BufferNotBigEnough,
            },
    {
        if inner.get_payload().len() >= 4 {
            Ok(Self { inner })
        } else {
            Err(Error::BufferNotBigEnough)
        }
    }

    pub fn get_freq_hz(&self) -> (r: u32)
        ensures
            r == spec_u32_le(self.payload(), 0),
    {
        proof {
            use_type_invariant(self);
        }
        read_u32_le(self.inner.get_payload(), 0)
    }
}

/// SWJ clock reply: status byte.
pub struct SWJClockResponse<'a> {
    pub inner: PacketMut<'a>,
}

impl<'a> SWJClockResponse<'a> {
    pub open spec fn wf(&self) -> bool {
        self.inner.buf@.len() >= 2 && self.inner.command == CommandType::SWJClock
    }

    pub fn try_alloc(inner: &'a mut [u8]) -> (r: Result<Self, Error>)
        ensures
            match r {
                Ok(p) => old(inner)@.len() >= 2 && p.wf() && p.inner.buf@ == old(inner)@
                    && final(p.inner.buf)@ == final(inner)@,
                Err(e) => old(inner)@.len() < 2 && e == Error::BufferNotBigEnough
                    && final(inner)@ == old(inner)@,
            },
    {
        if inner.len() < 2 {
            return Err(Error::BufferNotBigEnough);
        }
        Ok(Self { inner: PacketMut { command: CommandType::SWJClock, buf: inner } })
    }

    pub fn commit_ok(self) -> (r: usize)
        requires
            self.wf(),
        ensures
            r == 2,
            final(self.inner.buf)@ == spec_status_reply(old(self.inner.buf)@, CommandType::SWJClock, 0),
    {
        self.inner.commit_with_status(0)
    }

    pub fn commit_err(self) -> (r: usize)
        requires
            self.wf(),
        ensures
            r == 2,
            final(self.inner.buf)@ == spec_status_reply(old(self.inner.buf)@, CommandType::SWJClock, 0xFF),
    {
        self.inner.commit_with_status(0xFF)
    }
}

/// The bit count a sequence count byte encodes: 0 means 256.
pub open spec fn spec_swj_num_bits(v: u8) -> nat {
    if v == 0 { 256 } else { v as nat }
}

/// SWJ sequence request: a bit count, then the bits, LSB first.
pub struct SWJSequenceCommand<'a> {
    inner: Packet<'a>,
    num_bits: usize,
}

impl<'a> SWJSequenceCommand<'a> {
    #[verifier::type_invariant]
    closed spec fn wf(self) -> bool {
        &&& self.inner.payload().len() > 1
        &&& self.num_bits == spec_swj_num_bits(self.inner.payload()[0])
        &&& self.inner.payload().len() >= (self.num_bits + 7) / 8 + 1
    }

    pub closed spec fn payload(&self) -> Seq<u8> {
        self.inner.payload()
    }

    /// Whether a payload holds a complete sequence.
    pub open spec fn spec_accepts(payload: Seq<u8>) -> bool {
        payload.len() > 1 && payload.len() >= (spec_swj_num_bits(payload[0]) + 7) / 8 + 1
    }

    pub fn try_from(inner: Packet<'a>) -> (r: Result<Self, Error>)
        requires
            inner.command() == CommandType::SWJSequence,
        ensures
            match r {
                Ok(c) => SWJSequenceCommand::spec_accepts(inner.payload()) && c.payload() == inner.payload(),
                Err(e) => !SWJSequenceCommand::spec_accepts(inner.payload()) && e == Error::BufferNotBigEnough,
            },
    {
        let payload = inner.get_payload();
        if payload.len() > 1 {
            let num_bits = payload[0];
            let num_bits: usize = if num_bits == 0 { 256 } else { num_bits as usize };
            let num_bytes = (num_bits + 7) / 8;
            if payload.len() >= num_bytes + 1 {
                Ok(Self { num_bits, inner })
            } else {
                Err(Error::BufferNotBigEnough)
            }
        } else {
            Err(Error::BufferNotBigEnough)
        }
    }

    pub fn get_sequence(&self) -> (r: (usize, &'a [u8]))
        ensures
            r.0 == spec_swj_num_bits(self.payload()[0]),
            r.1@ == self.payload().skip(1),
    {
        proof {
            use_type_invariant(self);
        }
        let p = self.inner.get_payload();
        (self.num_bits, vstd::slice::slice_subrange(p, 1, p.len()))
    }
}

/// SWJ sequence reply: status byte.
pub struct SWJSequenceResponse<'a> {
    pub inner: PacketMut<'a>,
}

impl<'a> SWJSequenceResponse<'a> {
    pub open spec fn wf(&self) -> bool {
        self.inner.buf@.len() >= 2 && self.inner.command == CommandType::SWJSequence
    }

    pub fn try_alloc(inner: &'a mut [u8]) -> (r: Result<Self, Error>)
        ensures
            match r {
                Ok(p) => old(inner)@.len() >= 2 && p.wf() && p.inner.buf@ == old(inner)@
                    && final(p.inner.buf)@ == final(inner)@,
                Err(e) => old(inner)@.len() < 2 && e == Error::BufferNotBigEnough
                    && final(inner)@ == old(inner)@,
            },
    {
        if inner.len() < 2 {
            return Err(Error::BufferNotBigEnough);
        }
        Ok(Self { inner: PacketMut { command: CommandType::SWJSequence, buf: inner } })
    }

    pub fn commit_ok(self) -> (r: usize)
        requires
            self.wf(),
        ensures
            r == 2,
            final(self.inner.buf)@ == spec_status_reply(old(self.inner.buf)@, CommandType::SWJSequence, 0),
    {
        self.inner.commit_with_status(0)
    }

    pub fn commit_err(self) -> (r: usize)
        requires
            self.wf(),
        ensures
            r == 2,
            final(self.inner.buf)@ == spec_status_reply(old(self.inner.buf)@, CommandType::SWJSequence, 0xFF),
    {
        self.inner.commit_with_status(0xFF)
    }
}

} // verus!
