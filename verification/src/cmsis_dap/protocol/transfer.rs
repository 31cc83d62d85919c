//! Transfer commands: configure, transfer and transfer block.

use vstd::prelude::*;
use crate::bytes::{
    read_u16_le, read_u32_le, spec_splice, spec_u16_bytes, spec_u16_le, spec_u32_bytes, spec_u32_le,
    write_u16_le, write_u32_le,
};
use crate::cmsis_dap::types::{TransferRequest, TransferStatus};
use super::common::{CommandProperties, CommandType, Error, Packet, PacketMut, StandardResponse};

verus! {

pub struct TransferConfigureProps {}

impl CommandProperties for TransferConfigureProps {
    const TYPE: CommandType = CommandType::TransferConfigure;
}

/// Transfer configure request: idle cycles, wait retries, match retries.
pub struct TransferConfigureCommand<'a> {
    inner: Packet<'a>,
}

impl<'a> TransferConfigureCommand<'a> {
    #[verifier::type_invariant]
    closed spec fn wf(self) -> bool {
        self.inner.payload().len() >= 5
    }

    pub closed spec fn payload(&self) -> Seq<u8> {
        self.inner.payload()
    }

    pub fn try_from(inner: Packet<'a>) -> (r: Result<Self, Error>)
        requires
            inner.command() == CommandType::TransferConfigure,
        ensures
            match r {
                Ok(c) => inner.payload().len() >= 5 && c.payload() == inner.payload(),
                Err(e) => inner.payload().len() < 5 && e == Error::BufferNotBigEnough,
            },
    {
        if inner.get_payload().len() >= 5 {
            Ok(Self { inner })
        } else {
            Err(Error::BufferNotBigEnough)
        }
    }

    pub fn get_idle_cycles(&self) -> (r: u8)
        ensures
            r == self.payload()[0],
    {
        proof {
            use_type_invariant(self);
        }
        self.inner.get_payload()[0]
    }

    pub fn get_wait_retry(&self) -> (r: u16)
        ensures
            r == spec_u16_le(self.payload(), 1),
    {
        proof {
            use_type_invariant(self);
        }
        read_u16_le(self.inner.get_payload(), 1)
    }

    pub fn get_match_retry(&self) -> (r: u16)
        ensures
            r == spec_u16_le(self.payload(), 3),
    {
        proof {
            use_type_invariant(self);
        }
        read_u16_le(self.inner.get_payload(), 3)
    }
}

pub type TransferConfigureResponse<'a> = StandardResponse<'a, TransferConfigureProps>;

/// Whether a transfer request carries a data word: a write carries the
/// value to write (or the match mask), a read with value match the value
/// to match.
pub open spec fn spec_has_data(request: TransferRequest) -> bool {
    !request.spec_is_read() || request.spec_is_value_match()
}

/// One step of decoding the transfers of a transfer request: from payload
/// index `i`, the next request, its data word (0 where it has none) and the
/// index after it; `None` where the payload ends early.
pub open spec fn spec_transfer_at(payload: Seq<u8>, i: int) -> Option<(TransferRequest, u32, int)> {
    if 0 <= i < payload.len() {
        let request = TransferRequest(payload[i]);
        if spec_has_data(request) {
            if i + 5 <= payload.len() {
                Some((request, spec_u32_le(payload, i + 1), i + 5))
            } else {
                None
            }
        } else {
            Some((request, 0u32, i + 1))
        }
    } else {
        None
    }
}

/// Walks the transfers of a transfer request.
pub struct TransferIterator<'a> {
    pub payload: &'a [u8],
    pub packet_index: usize,
    pub requests: usize,
}

impl<'a> TransferIterator<'a> {
    pub fn next(&mut self) -> (r: Option<(TransferRequest, u32)>)
        ensures
            final(self).payload == old(self).payload,
            old(self).requests == 0 ==> r is None && *final(self) == *old(self),
            old(self).requests > 0 ==> match spec_transfer_at(old(self).payload@, old(self).packet_index as int) {
                None => r is None && *final(self) == *old(self),
                Some((req, data, next)) => r == Some((req, data))
                    && final(self).packet_index == next
                    && final(self).requests == old(self).requests - 1,
            },
    {
        if self.requests == 0 {
            return None;
        }
        let i = self.packet_index;
        if i >= self.payload.len() {
            return None;
        }
        let request = TransferRequest(self.payload[i]);
        if !request.is_read() || request.is_value_match() {
            if self.payload.len() - i < 5 {
                return None;
            }
            let data = read_u32_le(self.payload, i + 1);
            self.packet_index = i + 5;
            self.requests = self.requests - 1;
            Some((request, data))
        } else {
            self.packet_index = i + 1;
            self.requests = self.requests - 1;
            Some((request, 0))
        }
    }
}

/// Transfer request: DAP index, transfer count, then the transfers.
pub struct TransferCommand<'a> {
    inner: Packet<'a>,
}

impl<'a> TransferCommand<'a> {
    #[verifier::type_invariant]
    closed spec fn wf(self) -> bool {
        self.inner.payload().len() >= 2
    }

    pub closed spec fn payload(&self) -> Seq<u8> {
        self.inner.payload()
    }

    pub fn try_from(inner: Packet<'a>) -> (r: Result<Self, Error>)
        requires
            inner.command() == CommandType::Transfer,
        ensures
            match r {
                Ok(c) => inner.payload().len() >= 2 && c.payload() == inner.payload(),
                Err(e) => inner.payload().len() < 2 && e == Error::BufferNotBigEnough,
            },
    {
        if inner.get_payload().len() >= 2 {
            Ok(Self { inner })
        } else {
            Err(Error::BufferNotBigEnough)
        }
    }

    pub fn get_index(&self) -> (r: u8)
        ensures
            r == self.payload()[0],
    {
        proof {
            use_type_invariant(self);
        }
        self.inner.get_payload()[0]
    }

    pub fn get_transfers(&self) -> (r: TransferIterator<'a>)
        ensures
            r.payload@ == self.payload(),
            r.packet_index == 2,
            r.requests == self.payload()[1],
    {
        proof {
            use_type_invariant(self);
        }
        let payload = self.inner.get_payload();
        TransferIterator { payload, packet_index: 2, requests: payload[1] as usize }
    }
}

/// The transfer status byte of a reply: the acknowledge bits and the error
/// flags.
pub open spec fn spec_transfer_status_byte(status: TransferStatus) -> u8 {
    (if status.ack.spec_is_ok() { 0x01u8 } else { 0u8 }) | (if status.ack.spec_is_wait() { 0x02u8 } else { 0u8 })
        | (if status.ack.spec_is_fault() { 0x04u8 } else { 0u8 }) | (if status.ack.spec_is_no_response() {
        0x07u8
    } else {
        0u8
    }) | (if status.protocol_error { 0x08u8 } else { 0u8 }) | (if status.value_mismatch { 0x10u8 } else { 0u8 })
}

/// The transfer block status byte: as the transfer status byte, without the
/// value mismatch flag.
pub open spec fn spec_block_status_byte(status: TransferStatus) -> u8 {
    (if status.ack.spec_is_ok() { 0x01u8 } else { 0u8 }) | (if status.ack.spec_is_wait() { 0x02u8 } else { 0u8 })
        | (if status.ack.spec_is_fault() { 0x04u8 } else { 0u8 }) | (if status.ack.spec_is_no_response() {
        0x07u8
    } else {
        0u8
    }) | (if status.protocol_error { 0x08u8 } else { 0u8 })
}

fn status_byte(status: &TransferStatus, with_mismatch: bool) -> (r: u8)
    ensures
        with_mismatch ==> r == spec_transfer_status_byte(*status),
        !with_mismatch ==> r == spec_block_status_byte(*status),
{
    let a: u8 = if status.ack.is_ok() { 0x01 } else { 0 };
    let b: u8 = if status.ack.is_wait() { 0x02 } else { 0 };
    let c: u8 = if status.ack.is_fault() { 0x04 } else { 0 };
    let d: u8 = if status.ack.is_no_response() { 0x07 } else { 0 };
    let e: u8 = if status.protocol_error { 0x08 } else { 0 };
    let f: u8 = if with_mismatch && status.value_mismatch { 0x10 } else { 0 };
    if with_mismatch {
        a | b | c | d | e | f
    } else {
        a | b | c | d | e
    }
}

/// The length of the reply data for one transfer: a timestamp word when
/// asked for, and the data word of a plain read.
pub open spec fn spec_response_len(request: TransferRequest) -> nat {
    (if request.spec_timestamp() { 4nat } else { 0nat }) + (if request.spec_is_read()
        && !request.spec_is_value_match() {
        4nat
    } else {
        0nat
    })
}

/// The reply words of one transfer: the timestamp, then the data word.
pub open spec fn spec_one_response(timestamp: Option<u32>, data: Option<u32>) -> Seq<u8> {
    (match timestamp {
        Some(t) => spec_u32_bytes(t),
        None => Seq::empty(),
    }) + (match data {
        Some(d) => spec_u32_bytes(d),
        None => Seq::empty(),
    })
}

/// The transfers a transfer request asks for: up to `n` of them decoded
/// from payload index `i`, as far as the payload holds them.
pub open spec fn spec_transfers(payload: Seq<u8>, i: int, n: nat) -> Seq<(TransferRequest, u32)>
    decreases n,
{
    if n == 0 {
        Seq::empty()
    } else {
        match spec_transfer_at(payload, i) {
            None => Seq::empty(),
            Some((request, data, next)) => seq![(request, data)] + spec_transfers(payload, next, (n - 1) as nat),
        }
    }
}

/// The reply bytes that the transfers `done` take: their timestamp and data
/// words.
pub open spec fn spec_reply_len(done: Seq<(TransferRequest, u32)>) -> nat
    decreases done.len(),
{
    if done.len() == 0 {
        0
    } else {
        spec_reply_len(done.drop_last()) + spec_response_len(done.last().0)
    }
}

/// The timestamp word a transfer writes into the reply: the time, for a
/// request that asks for one and is neither a value match nor a match mask.
pub open spec fn spec_reply_timestamp(request: TransferRequest, time: u32) -> Option<u32> {
    if request.spec_timestamp() && !(request.spec_is_read() && request.spec_is_value_match()) && !(
    !request.spec_is_read() && request.spec_is_match_mask()) {
        Some(time)
    } else {
        None
    }
}

/// The data word a transfer writes into the reply: the word read, for a
/// plain read.
pub open spec fn spec_reply_data(request: TransferRequest, value: u32) -> Option<u32> {
    if request.spec_is_read() && !request.spec_is_value_match() {
        Some(value)
    } else {
        None
    }
}

/// The reply buffer `a` once the transfers `done` are recorded, the `j`th
/// with the outcome `outs[j]` (its status, the word read, the time): each
/// transfer's words at its place after the count and status bytes, and
/// the status byte of the last. A word that a transfer reserves and does
/// not write keeps what the buffer held.
pub open spec fn spec_transfer_words(
    a: Seq<u8>,
    done: Seq<(TransferRequest, u32)>,
    outs: Seq<(TransferStatus, u32, u32)>,
) -> Seq<u8>
    decreases done.len(),
{
    if done.len() == 0 {
        a
    } else {
        let k = done.len() - 1;
        let request = done[k].0;
        let out = outs[k];
        spec_splice(
            spec_transfer_words(a, done.drop_last(), outs),
            3 + spec_reply_len(done.drop_last()) as int,
            spec_one_response(spec_reply_timestamp(request, out.2), spec_reply_data(request, out.1)),
        ).update(2, spec_transfer_status_byte(out.0))
    }
}

/// The words of a reply depend only on the outcomes of the transfers done.
pub proof fn lemma_transfer_words_prefix(
    a: Seq<u8>,
    done: Seq<(TransferRequest, u32)>,
    outs: Seq<(TransferStatus, u32, u32)>,
    more: Seq<(TransferStatus, u32, u32)>,
)
    requires
        outs.len() >= done.len(),
        more.len() >= done.len(),
        forall|j: int| 0 <= j < done.len() ==> outs[j] == more[j],
    ensures
        spec_transfer_words(a, done, outs) == spec_transfer_words(a, done, more),
    decreases done.len(),
{
    if done.len() > 0 {
        lemma_transfer_words_prefix(a, done.drop_last(), outs, more);
    }
}

/// The match mask after the transfers `done`: the word of the last match
/// mask write among them, else `mask`.
pub open spec fn spec_last_mask(done: Seq<(TransferRequest, u32)>, mask: u32) -> u32
    decreases done.len(),
{
    if done.len() == 0 {
        mask
    } else if !done.last().0.spec_is_read() && done.last().0.spec_is_match_mask() {
        done.last().1
    } else {
        spec_last_mask(done.drop_last(), mask)
    }
}

/// The room in a transfer reply for one transfer's reply words.
pub struct OneTransferResponse<'b, 'a> {
    pub parent: &'b mut TransferResponse<'a>,
    pub response_len: usize,
}

impl<'b, 'a> OneTransferResponse<'b, 'a> {
    pub open spec fn wf(&self) -> bool {
        &&& self.parent.wf()
        &&& 1 + self.parent.payload_index + self.response_len <= self.parent.inner.buf@.len()
        &&& self.parent.response_count < usize::MAX
    }

    /// Records one transfer: writes its reply words and the status byte and
    /// counts it.
    pub fn commit(self, status: TransferStatus, timestamp: Option<u32>, data: Option<u32>)
        requires
            self.wf(),
            spec_one_response(timestamp, data).len() <= self.response_len,
        ensures
            ({
                let p = old(self.parent);
                let written = spec_splice(p.inner.buf@, 1 + p.payload_index, spec_one_response(timestamp, data));
                &&& final(self.parent).inner.buf@ == written.update(2, spec_transfer_status_byte(status))
                &&& final(self.parent).payload_index == p.payload_index + self.response_len
                &&& final(self.parent).response_count == p.response_count + 1
                &&& final(self.parent).inner.command == p.inner.command
            }),
            final(final(self.parent).inner.buf)@ == final(old(self.parent).inner.buf)@,
    {
        let OneTransferResponse { parent, response_len } = self;
        let _len = parent.inner.buf.len();
        let at = 1 + parent.payload_index;
        let ghost b0 = parent.inner.buf@;
        match timestamp {
            Some(t) => {
                write_u32_le(parent.inner.buf, at, t);
                match data {
                    Some(d) => {
                        write_u32_le(parent.inner.buf, at + 4, d);
                    },
                    None => {},
                }
            },
            None => {
                match data {
                    Some(d) => {
                        write_u32_le(parent.inner.buf, at, d);
                    },
                    None => {},
                }
            },
        }
        assert(parent.inner.buf@ =~= spec_splice(b0, at as int, spec_one_response(timestamp, data)));
        parent.set_status(status);
        parent.payload_index = parent.payload_index + response_len;
        parent.response_count = parent.response_count + 1;
    }
}

/// Transfer reply: count of transfers done, status of the last, then the
/// reply words of each transfer.
pub struct TransferResponse<'a> {
    pub inner: PacketMut<'a>,
    pub payload_index: usize,
    pub response_count: usize,
}

impl<'a> TransferResponse<'a> {
    pub open spec fn wf(&self) -> bool {
        &&& self.inner.buf@.len() >= 3
        &&& self.inner.command == CommandType::Transfer
        &&& 2 <= self.payload_index
        &&& 1 + self.payload_index <= self.inner.buf@.len()
    }

    pub fn try_alloc(inner: &'a mut [u8]) -> (r: Result<Self, Error>)
        ensures
            match r {
                Ok(p) => old(inner)@.len() >= 3 && p.wf() && p.payload_index == 2 && p.response_count == 0
                    && p.inner.buf@ == old(inner)@ && final(p.inner.buf)@ == final(inner)@,
                Err(e) => old(inner)@.len() < 3 && e == Error::BufferNotBigEnough
                    && final(inner)@ == old(inner)@,
            },
    {
        if inner.len() < 3 {
            return Err(Error::BufferNotBigEnough);
        }
        Ok(Self { inner: PacketMut { command: CommandType::Transfer, buf: inner }, payload_index: 2, response_count: 0 })
    }

    pub fn set_status(&mut self, status: TransferStatus)
        requires
            old(self).wf(),
        ensures
            final(self).inner.buf@ == old(self).inner.buf@.update(2, spec_transfer_status_byte(status)),
            final(self).inner.command == old(self).inner.command,
            final(self).payload_index == old(self).payload_index,
            final(self).response_count == old(self).response_count,
            final(final(self).inner.buf)@ == final(old(self).inner.buf)@,
    {
        let v = status_byte(&status, true);
        self.inner.buf[2] = v;
    }

    /// Room for the reply words of one transfer, if the reply has it.
    pub fn try_allocate_response<'b>(&'b mut self, request: TransferRequest) -> (r: Option<OneTransferResponse<'b, 'a>>)
        requires
            old(self).wf(),
            old(self).response_count < usize::MAX,
        ensures
            match r {
                Some(o) => 1 + old(self).payload_index + spec_response_len(request) <= old(self).inner.buf@.len()
                    && o.response_len == spec_response_len(request) && *o.parent == *old(self)
                    && *final(o.parent) == *final(self) && o.wf(),
                None => 1 + old(self).payload_index + spec_response_len(request) > old(self).inner.buf@.len()
                    && *final(self) == *old(self),
            },
    {
        let timestamp_len: usize = if request.timestamp() { 4 } else { 0 };
        let data_len: usize = if request.is_read() && !request.is_value_match() { 4 } else { 0 };
        let response_len = timestamp_len + data_len;
        if self.inner.buf.len() - 1 - self.payload_index >= response_len {
            Some(OneTransferResponse { parent: self, response_len })
        } else {
            None
        }
    }

    /// Writes the transfer count and the command byte; returns the size.
    pub fn commit(self) -> (r: usize)
        requires
            self.wf(),
        ensures
            r == self.payload_index + 1,
            final(self.inner.buf)@ == old(self.inner.buf)@.update(1, self.response_count as u8).update(0, 0x05u8),
    {
        let TransferResponse { inner, payload_index, response_count } = self;
        let PacketMut { command, buf } = inner;
        buf[1] = #[verifier::truncate] (response_count as u8);
        buf[0] = 0x05;
        payload_index + 1
    }
}

/// Transfer block request: DAP index, word count, request byte, then the
/// words to write.
pub struct TransferBlockCommand<'a> {
    inner: Packet<'a>,
}

impl<'a> TransferBlockCommand<'a> {
    #[verifier::type_invariant]
    closed spec fn wf(self) -> bool {
        self.inner.payload().len() >= 4
    }

    pub closed spec fn payload(&self) -> Seq<u8> {
        self.inner.payload()
    }

    pub fn try_from(inner: Packet<'a>) -> (r: Result<Self, Error>)
        requires
            inner.command() == CommandType::TransferBlock,
        ensures
            match r {
                Ok(c) => inner.payload().len() >= 4 && c.payload() == inner.payload(),
                Err(e) => inner.payload().len() < 4 && e == Error::BufferNotBigEnough,
            },
    {
        if inner.get_payload().len() >= 4 {
            Ok(Self { inner })
        } else {
            Err(Error::BufferNotBigEnough)
        }
    }

    pub fn get_index(&self) -> (r: u8)
        ensures
            r == self.payload()[0],
    {
        proof {
            use_type_invariant(self);
        }
        self.inner.get_payload()[0]
    }

    pub fn get_count(&self) -> (r: usize)
        ensures
            r == spec_u16_le(self.payload(), 1),
    {
        proof {
            use_type_invariant(self);
        }
        read_u16_le(self.inner.get_payload(), 1) as usize
    }

    pub fn get_request(&self) -> (r: TransferRequest)
        ensures
            r == TransferRequest(self.payload()[3]),
    {
        proof {
            use_type_invariant(self);
        }
        TransferRequest(self.inner.get_payload()[3])
    }

    pub fn get_data(&self) -> (r: &'a [u8])
        ensures
            self.payload().len() >= 4,
            r@ == self.payload().skip(4),
    {
        proof {
            use_type_invariant(self);
        }
        let p = self.inner.get_payload();
        vstd::slice::slice_subrange(p, 4, p.len())
    }
}

/// Transfer block reply: word count, status byte, then the words read.
pub struct TransferBlockResponse<'a> {
    pub inner: PacketMut<'a>,
}

impl<'a> TransferBlockResponse<'a> {
    /// The header (command, count, status) fits.
    pub open spec fn wf(&self) -> bool {
        self.inner.buf@.len() >= 4 && self.inner.command == CommandType::TransferBlock
    }

    pub fn try_alloc(inner: &'a mut [u8]) -> (r: Result<Self, Error>)
        ensures
            match r {
                Ok(p) => old(inner)@.len() >= 2 && p.inner.command == CommandType::TransferBlock
                    && p.inner.buf@ == old(inner)@ && final(p.inner.buf)@ == final(inner)@,
                Err(e) => old(inner)@.len() < 2 && e == Error::BufferNotBigEnough
                    && final(inner)@ == old(inner)@,
            },
    {
        if inner.len() < 2 {
            return Err(Error::BufferNotBigEnough);
        }
        Ok(Self { inner: PacketMut { command: CommandType::TransferBlock, buf: inner } })
    }

    pub fn set_status(&mut self, status: TransferStatus)
        requires
            old(self).wf(),
        ensures
            final(self).inner.buf@ == old(self).inner.buf@.update(3, spec_block_status_byte(status)),
            final(self).inner.command == old(self).inner.command,
            final(final(self).inner.buf)@ == final(old(self).inner.buf)@,
    {
        let v = status_byte(&status, false);
        self.inner.buf[3] = v;
    }

    /// The room for the words read.
    pub fn get_data_mut(&mut self) -> (r: &mut [u8])
        requires
            old(self).wf(),
        ensures
            r@ == old(self).inner.buf@.skip(4),
            final(self).inner.buf@ == old(self).inner.buf@.take(4) + final(r)@,
            final(final(self).inner.buf)@ == final(old(self).inner.buf)@,
            final(self).inner.command == old(self).inner.command,
    {
        let (_, rest) = self.inner.buf.split_at_mut(4);
        rest
    }

    pub fn commit_with_data(self, count: usize) -> (r: usize)
        requires
            self.wf(),
            count * 4 + 4 <= usize::MAX,
        ensures
            r == count * 4 + 4,
            final(self.inner.buf)@ == spec_splice(old(self.inner.buf)@, 1, spec_u16_bytes(count as u16)).update(0, 0x06u8),
    {
        let TransferBlockResponse { inner } = self;
        let PacketMut { command, buf } = inner;
        write_u16_le(buf, 1, #[verifier::truncate] (count as u16));
        buf[0] = 0x06;
        count * 4 + 4
    }

    pub fn commit_without_data(self, count: usize) -> (r: usize)
        requires
            self.wf(),
        ensures
            r == 4,
            final(self.inner.buf)@ == spec_splice(old(self.inner.buf)@, 1, spec_u16_bytes(count as u16)).update(0, 0x06u8),
    {
        let TransferBlockResponse { inner } = self;
        let PacketMut { command, buf } = inner;
        write_u16_le(buf, 1, #[verifier::truncate] (count as u16));
        buf[0] = 0x06;
        4
    }
}

} // verus!
