//! SWD commands: configure and sequence.

use vstd::prelude::*;
use super::common::{spec_status_reply, CommandType, Error, Packet, PacketMut};

verus! {

/// SWD configure request: turnaround period and data phase flag.
pub struct SWDConfigureCommand<'a> {
    inner: Packet<'a>,
}

impl<'a> SWDConfigureCommand<'a> {
    #[verifier::type_invariant]
    closed spec fn wf(self) -> bool {
        self.inner.payload().len() >= 1
    }

    pub closed spec fn payload(&self) -> Seq<u8> {
        self.inner.payload()
    }

    pub fn try_from(inner: Packet<'a>) -> (r: Result<Self, Error>)
        requires
            inner.command() == CommandType::SWDConfigure,
        ensures
            match r {
                Ok(c) => inner.payload().len() >= 1 && c.payload() == inner.payload(),
                Err(e) => inner.payload().len() < 1 && e == Error::BufferNotBigEnough,
            },
    {
        if inner.get_payload().len() >= 1 {
            Ok(Self { inner })
        } else {
            Err(Error::BufferNotBigEnough)
        }
    }

    /// The turnaround period in clock cycles, 1 to 4.
    pub fn get_turnaround(&self) -> (r: usize)
        ensures
            r == (self.payload()[0] & 0x03) + 1,
            1 <= r <= 4,
    {
        proof {
            use_type_invariant(self);
        }
        let b = self.inner.get_payload()[0];
        assert(b & 0x03 <= 3) by (bit_vector);
        (b & 0x03) as usize + 1
    }

    pub fn get_always_data_phase(&self) -> (r: bool)
        ensures
            r == (self.payload()[0] & 0x04 != 0),
    {
        proof {
            use_type_invariant(self);
        }
        (self.inner.get_payload()[0] & 0x04) != 0
    }
}

/// SWD configure reply: status byte.
pub struct SWDConfigureResponse<'a> {
    pub inner: PacketMut<'a>,
}

impl<'a> SWDConfigureResponse<'a> {
    pub open spec fn wf(&self) -> bool {
        self.inner.buf@.len() >= 2 && self.inner.command == CommandType::SWDConfigure
    }

    pub fn try_alloc(inner: &'a mut [u8]) -> (r: Result<Self, Error>)
        ensures
            match r {
                Ok(p) => old(inner)@.len() >= 2 && p.wf() && p.inner.buf@ == old(inner)@
                    && final(p.inner.buf)@ == final(inner)@,
                Err(e) => old(inner)@.len() < 2 && e == Error::BufferNotBigEnough
                    && final(inner)@ == old(inner)@,
            },
    {
        if inner.len() < 2 {
            return Err(Error::BufferNotBigEnough);
        }
        Ok(Self { inner: PacketMut { command: CommandType::SWDConfigure, buf: inner } })
    }

    pub fn commit_ok(self) -> (r: usize)
        requires
            self.wf(),
        ensures
            r == 2,
            final(self.inner.buf)@ == spec_status_reply(old(self.inner.buf)@, CommandType::SWDConfigure, 0),
    {
        self.inner.commit_with_status(0)
    }
}

/// One step of decoding the sequences of an SWD sequence request: from
/// payload index `i`, the next sequence's bit count and output data (empty
/// for an input sequence) and the index after it; `None` where the payload
/// ends early.
pub open spec fn spec_swd_sequence_at(payload: Seq<u8>, i: int) -> Option<(usize, Seq<u8>, int)> {
    if 0 <= i < payload.len() {
        let info = payload[i];
        let num_bits = (info & 0x3F) as usize;
        if info & 0x80 == 0 {
            let num_bytes = (num_bits + 7) / 8;
            if i + 1 + num_bytes <= payload.len() {
                Some((num_bits, payload.subrange(i + 1, i + 1 + num_bytes), i + 1 + num_bytes))
            } else {
                None
            }
        } else {
            Some((num_bits, Seq::empty(), i + 1))
        }
    } else {
        None
    }
}

/// The reply bytes that the input sequences of an SWD sequence request
/// fill: of the `left` sequences from payload index `i`, as far as the
/// payload holds them, each input sequence's bytes when they fit the
/// `room` left in the reply (one that does not fit is skipped).
pub open spec fn spec_swd_read_len(payload: Seq<u8>, i: int, left: nat, room: int) -> int
    decreases left,
{
    if left == 0 {
        0
    } else {
        match spec_swd_sequence_at(payload, i) {
            None => 0,
            Some((num_bits, data, next)) => if data.len() > 0 {
                spec_swd_read_len(payload, next, (left - 1) as nat, room)
            } else {
                let num_bytes = (num_bits + 7) / 8;
                if num_bytes <= room {
                    num_bytes + spec_swd_read_len(payload, next, (left - 1) as nat, room - num_bytes)
                } else {
                    spec_swd_read_len(payload, next, (left - 1) as nat, room)
                }
            },
        }
    }
}

/// Walks the sequences of an SWD sequence request.
pub struct SWDSequenceIterator<'a> {
    pub payload: &'a [u8],
    pub payload_index: usize,
    pub sequences_left: usize,
}

impl<'a> SWDSequenceIterator<'a> {
    /// The next sequence: its bit count and, for an output sequence, its
    /// data; an input sequence has empty data.
    pub fn next(&mut self) -> (r: Option<(usize, &'a [u8])>)
        ensures
            r matches Some((n, _)) ==> n <= 63,
            old(self).sequences_left == 0 ==> r is None && *final(self) == *old(self),
            old(self).sequences_left > 0 ==> match spec_swd_sequence_at(old(self).payload@, old(self).payload_index as int) {
                None => r is None && *final(self) == *old(self),
                Some((n, data, next)) => r matches Some((rn, rd)) && rn == n && rd@ == data
                    && final(self).payload == old(self).payload
                    && final(self).payload_index == next
                    && final(self).sequences_left == old(self).sequences_left - 1,
            },
    {
        if self.sequences_left == 0 {
            return None;
        }
        let i = self.payload_index;
        if i >= self.payload.len() {
            return None;
        }
        let info = self.payload[i];
        let is_output = (info & 0x80) == 0;
        let num_bits = (info & 0x3F) as usize;
        assert(info & 0x3F <= 63) by (bit_vector);
        if is_output {
            let num_bytes = (num_bits + 7) / 8;
            if num_bytes > self.payload.len() - (i + 1) {
                return None;
            }
            let data = vstd::slice::slice_subrange(self.payload, i + 1, i + 1 + num_bytes);
            self.payload_index = i + 1 + num_bytes;
            self.sequences_left = self.sequences_left - 1;
            Some((num_bits, data))
        } else {
            let empty: &'a [u8] = vstd::slice::slice_subrange(self.payload, 0, 0);
            self.payload_index = i + 1;
            self.sequences_left = self.sequences_left - 1;
            Some((num_bits, empty))
        }
    }
}

/// SWD sequence request: a sequence count, then the sequences.
pub struct SWDSequenceCommand<'a> {
    inner: Packet<'a>,
}

impl<'a> SWDSequenceCommand<'a> {
    #[verifier::type_invariant]
    closed spec fn wf(self) -> bool {
        self.inner.payload().len() >= 1
    }

    pub closed spec fn payload(&self) -> Seq<u8> {
        self.inner.payload()
    }

    pub fn try_from(inner: Packet<'a>) -> (r: Result<Self, Error>)
        requires
            inner.command() == CommandType::SWDSequence,
        ensures
            match r {
                Ok(c) => inner.payload().len() >= 1 && c.payload() == inner.payload(),
                Err(e) => inner.payload().len() < 1 && e == Error::BufferNotBigEnough,
            },
    {
        if inner.get_payload().len() >= 1 {
            Ok(Self { inner })
        } else {
            Err(Error::BufferNotBigEnough)
        }
    }

    pub fn sequences(&self) -> (r: SWDSequenceIterator<'a>)
        ensures
            r.payload@ == self.payload(),
            r.payload_index == 1,
            r.sequences_left == self.payload()[0],
    {
        proof {
            use_type_invariant(self);
        }
        let payload = self.inner.get_payload();
        SWDSequenceIterator { payload, payload_index: 1, sequences_left: payload[0] as usize }
    }
}

/// The room in an SWD sequence reply for one input sequence's data.
pub struct SWDSequenceData<'b, 'a> {
    pub parent: &'b mut SWDSequenceResponse<'a>,
    pub num_bytes: usize,
}

impl<'b, 'a> SWDSequenceData<'b, 'a> {
    pub open spec fn wf(&self) -> bool {
        &&& self.parent.wf()
        &&& 1 + self.parent.packet_index + self.num_bytes <= self.parent.inner.buf@.len()
    }

    /// The bytes the sequence's data goes to.
    pub fn data(&mut self) -> (r: &mut [u8])
        requires
            old(self).wf(),
        ensures
            ({
                let at = 1 + old(self).parent.packet_index;
                let b = old(self).parent.inner.buf@;
                &&& r@ == b.subrange(at as int, at + old(self).num_bytes)
                &&& final(self).parent.inner.buf@ == b.take(at as int) + final(r)@ + b.skip(at + old(self).num_bytes)
            }),
            final(final(self).parent.inner.buf)@ == final(old(self).parent.inner.buf)@,
            final(self).parent.inner.command == old(self).parent.inner.command,
            final(self).parent.packet_index == old(self).parent.packet_index,
            final(self).num_bytes == old(self).num_bytes,
            *final(final(self).parent) == *final(old(self).parent),
    {
        let _len = self.parent.inner.buf.len();
        let i = 1 + self.parent.packet_index;
        let n = self.num_bytes;
        let (_, rest) = self.parent.inner.buf.split_at_mut(i);
        let (mid, _) = rest.split_at_mut(n);
        mid
    }

    /// Leaves the data out of the reply.
    pub fn abandon(self)
        requires
            self.wf(),
        ensures
            *final(self.parent) == *old(self.parent),
    {
        let SWDSequenceData { parent, num_bytes } = self;
        let _len = parent.inner.buf.len();
    }

    /// Keeps the data in the reply.
    pub fn commit(self)
        requires
            self.wf(),
        ensures
            final(self.parent).packet_index == old(self.parent).packet_index + self.num_bytes,
            final(self.parent).inner.buf@ == old(self.parent).inner.buf@,
            final(self.parent).inner.command == old(self.parent).inner.command,
            final(final(self.parent).inner.buf)@ == final(old(self.parent).inner.buf)@,
    {
        let SWDSequenceData { parent, num_bytes } = self;
        let _len = parent.inner.buf.len();
        parent.packet_index = parent.packet_index + num_bytes;
    }
}

/// SWD sequence reply: status byte, then the data of the input sequences.
pub struct SWDSequenceResponse<'a> {
    pub inner: PacketMut<'a>,
    pub packet_index: usize,
}

impl<'a> SWDSequenceResponse<'a> {
    pub open spec fn wf(&self) -> bool {
        &&& self.inner.buf@.len() >= 2
        &&& self.inner.command == CommandType::SWDSequence
        &&& 1 <= self.packet_index
        &&& 1 + self.packet_index <= self.inner.buf@.len()
    }

    pub fn try_alloc(inner: &'a mut [u8]) -> (r: Result<Self, Error>)
        ensures
            match r {
                Ok(p) => old(inner)@.len() >= 2 && p.wf() && p.packet_index == 1 && p.inner.buf@ == old(inner)@
                    && final(p.inner.buf)@ == final(inner)@,
                Err(e) => old(inner)@.len() < 2 && e == Error::BufferNotBigEnough
                    && final(inner)@ == old(inner)@,
            },
    {
        if inner.len() < 2 {
            return Err(Error::BufferNotBigEnough);
        }
        Ok(Self { inner: PacketMut { command: CommandType::SWDSequence, buf: inner }, packet_index: 1 })
    }

    /// Room for the data of an input sequence of `num_bits` bits, if the
    /// reply has it.
    pub fn try_alloc_data<'b>(&'b mut self, num_bits: usize) -> (r: Option<SWDSequenceData<'b, 'a>>)
        requires
            old(self).wf(),
            num_bits < usize::MAX - 7,
        ensures
            match r {
                Some(d) => (num_bits + 7) / 8 <= old(self).inner.buf@.len() - 1 - old(self).packet_index
                    && d.num_bytes == (num_bits + 7) / 8 && *d.parent == *old(self)
                    && *final(d.parent) == *final(self) && d.wf(),
                None => (num_bits + 7) / 8 > old(self).inner.buf@.len() - 1 - old(self).packet_index
                    && *final(self) == *old(self),
            },
    {
        let num_bytes = (num_bits + 7) / 8;
        if (self.inner.buf.len() - 1 - self.packet_index) >= num_bytes {
            Some(SWDSequenceData { parent: self, num_bytes })
        } else {
            None
        }
    }

    pub fn commit_ok(self) -> (r: usize)
        requires
            self.wf(),
        ensures
            r == self.packet_index + 1,
            final(self.inner.buf)@ == old(self.inner.buf)@.update(1, 0u8).update(0, 0x1Du8),
    {
        let SWDSequenceResponse { inner, packet_index } = self;
        let PacketMut { command, buf } = inner;
        buf[1] = 0;
        buf[0] = 0x1D;
        packet_index + 1
    }

    pub fn commit_err(self) -> (r: usize)
        requires
            self.wf(),
        ensures
            r == self.packet_index + 1,
            final(self.inner.buf)@ == old(self.inner.buf)@.update(1, 0xFFu8).update(0, 0x1Du8),
    {
        let SWDSequenceResponse { inner, packet_index } = self;
        let PacketMut { command, buf } = inner;
        buf[1] = 0xFF;
        buf[0] = 0x1D;
        packet_index + 1
    }
}

} // verus!
