//! The request dispatcher: parses a DAP request, drives the debug access
//! port and the trace capture, and writes the reply. Waiting (the delay
//! request) and the reactor's asynchronous hooks are left to the caller,
//! which the outcome of each request tells what to do.

use vstd::prelude::*;
use crate::bytes::{spec_splice, spec_u16_le, spec_u32_bytes, u16_to_le_bytes, u32_to_le_bytes, copy_into, read_u16_le};
use crate::cmsis_dap::dap::{
    spec_added, spec_block_read_traffic, spec_block_write_traffic, spec_extends, spec_ir_sum, spec_jtag_all_writes,
    spec_jtag_chain, spec_jtag_ir_traffic, spec_jtag_reads, spec_jtag_reg_traffic, spec_jtag_status_of,
    spec_jtag_writes, spec_posted_read, spec_swd_all_writes, spec_swd_reads, JTAGInstruction,
    spec_read_match_traffic, spec_retried, spec_swd_transfer_read, spec_swd_transfer_read_match,
    spec_swd_transfer_write, spec_write_waiting, spec_concat, ConnectionState, DebugAccessPort, Transfer, WireEvent,
};
use crate::cmsis_dap::port::{
    ask_firmware_version, FirmwareVersions, JTAGAccessPort, Reactor, SWDAccessPort, SWJAccessPort, MAX_PACKET_SIZE,
};
use crate::cmsis_dap::protocol::Command;
use crate::cmsis_dap::protocol::common::{spec_status_reply, CommandType, Error, PacketMut};
use crate::cmsis_dap::protocol::general::{
    spec_info_reply, spec_reset_reply, ConnectCommand, ConnectResponse, DelayCommand, DelayResponse,
    DisconnectResponse, HostStatusCommand, HostStatusResponse, InfoCommand, InfoResponse, ResetTargetResponse,
    WriteAbortCommand, WriteAbortResponse,
};
use crate::cmsis_dap::protocol::jtag::{
    spec_jtag_capture_len, JTAGConfigureCommand, JTAGIDCodeCommand, JTAGIDCodeResponse, JTAGSequenceCommand,
    JTAGSequenceResponse,
};
use crate::cmsis_dap::protocol::swd::{
    spec_swd_read_len, spec_swd_sequence_at, SWDConfigureCommand, SWDConfigureResponse, SWDSequenceCommand, SWDSequenceResponse,
};
use crate::cmsis_dap::protocol::swj::{
    SWJClockCommand, SWJClockResponse, SWJPinsCommand, SWJPinsResponse, SWJSequenceCommand, SWJSequenceResponse,
};
use crate::cmsis_dap::protocol::swo::{
    spec_ext_status_payload, SWOStatusControl, SWOBaudrateCommand, SWOBaudrateResponse, SWOControlCommand, SWODataCommand,
    SWODataResponse, SWOExtendedStatusCommand, SWOExtendedStatusResponse, SWOModeCommand,
    SWOStatusResponse, SWOTransportCommand,
};
use crate::cmsis_dap::protocol::transfer::{
    spec_one_response,
    lemma_transfer_words_prefix, spec_last_mask, spec_reply_data, spec_reply_len, spec_reply_timestamp, spec_response_len,
    spec_transfer_at, spec_transfer_words, spec_transfers, TransferBlockCommand, TransferBlockResponse,
    TransferCommand, TransferConfigureCommand, TransferResponse,
};
use crate::cmsis_dap::swo::SWOAccessBehavior;
use crate::cmsis_dap::types::{
    AbortChecks, AbortToken, HostStatus, Register, SWOMode, SWOStatus, TransferAck, TransferRequest, TransferStatus,
};

verus! {

/// The protocol version reported by the info request.
pub const DAP_PROTOCOL_VERSION: [u8; 5] = [0x32, 0x2E, 0x31, 0x2E, 0x31];

/// What the caller must do to finish a request.
#[derive(Clone, Copy, Debug, PartialEq, Eq, Structural)]
pub enum DispatchOutcome {
    /// Send the reply of this size that is in the response buffer.
    Reply(usize),
    /// Report the host status to the reactor, then send the reply.
    HostStatus(HostStatus, usize),
    /// Wait this many microseconds, then send the reply.
    Delay(u16, usize),
    /// The request is not a DAP request; the reactor answers it.
    Unrecognized,
}

/// The information bytes of an info reply for `id`, other than the firmware
/// version (id 9), given the probe's capabilities.
pub open spec fn spec_info_data(id: u8, swd: bool, jtag: bool, uart: bool, manchester: bool, buffer_size: usize) -> Seq<u8> {
    if id == 4 {
        seq![0x32u8, 0x2Eu8, 0x31u8, 0x2Eu8, 0x31u8]
    } else if id == 0xF0 {
        seq![(if swd { 0x01u8 } else { 0u8 }) | (if jtag { 0x02u8 } else { 0u8 }) | (if uart { 0x04u8 } else { 0u8 })
            | (if manchester { 0x08u8 } else { 0u8 }) | 0x40u8]
    } else if id == 0xFD {
        spec_u32_bytes(buffer_size as u32)
    } else if id == 0xFE {
        seq![1u8]
    } else if id == 0xFF {
        seq![64u8, 0u8]
    } else {
        Seq::empty()
    }
}

/// The data of the firmware version info reply, in a reply buffer of
/// `len` bytes, for the version `v` the reactor gave: its bytes when it has
/// one and they fit after the two header bytes, else nothing.
pub open spec fn spec_fw_version_data(v: Option<Seq<u8>>, len: int) -> Seq<u8> {
    match v {
        Some(bytes) => if bytes.len() + 2 <= len {
            bytes
        } else {
            Seq::empty()
        },
        None => Seq::empty(),
    }
}

/// Every device of a chain with these IR lengths can be selected (see
/// `JTAG::selectable`).
pub open spec fn spec_chain_selectable(lens: Seq<u8>) -> bool {
    forall|i: int|
        0 <= i < lens.len() ==> (spec_ir_sum(lens, lens.len() as int) == spec_ir_sum(lens, i + 1) ==> 1
            <= #[trigger] lens[i] <= 8)
}

proof fn lemma_ir_sum_prefix(s: Seq<u8>, n: int, k: int)
    requires
        0 <= k <= n <= s.len(),
    ensures
        spec_ir_sum(s.take(n), k) == spec_ir_sum(s, k),
    decreases k,
{
    if k > 0 {
        lemma_ir_sum_prefix(s, n, k - 1);
    }
}

/// Whether every device of a chain with these IR lengths can be selected.
fn chain_selectable(lens: &[u8]) -> (r: bool)
    requires
        lens@.len() <= 255,
    ensures
        r == spec_chain_selectable(lens@),
{
    let n = lens.len();
    let mut total: u32 = 0;
    let mut i: usize = 0;
    while i < n
        invariant
            n == lens@.len() <= 255,
            i <= n,
            total == spec_ir_sum(lens@, i as int),
            total <= 255 * i,
        decreases n - i,
    {
        total = total + lens[i] as u32;
        i = i + 1;
    }
    let mut prefix: u32 = 0;
    let mut j: usize = 0;
    while j < n
        invariant
            n == lens@.len() <= 255,
            j <= n,
            total == spec_ir_sum(lens@, n as int),
            prefix == spec_ir_sum(lens@, j as int),
            prefix <= 255 * j,
            forall|k: int|
                0 <= k < j ==> (spec_ir_sum(lens@, n as int) == spec_ir_sum(lens@, k + 1) ==> 1
                    <= #[trigger] lens@[k] <= 8),
        decreases n - j,
    {
        prefix = prefix + lens[j] as u32;
        if prefix == total && !(1 <= lens[j] && lens[j] <= 8) {
            assert(!(spec_ir_sum(lens@, n as int) == spec_ir_sum(lens@, j + 1) ==> 1 <= lens@[j as int] <= 8));
            return false;
        }
        j = j + 1;
    }
    true
}

/// What can come of one transfer (`out`: its status, the word read, the
/// time) for a port that reaches the target (`engaged`) or not: a match
/// mask write always succeeds; anything else fails with the default status
/// and reads 0 when the target is not reached; a value mismatch is only
/// reported by a value match read that was acknowledged.
pub open spec fn spec_transfer_outcome_ok(engaged: bool, request: TransferRequest, out: (TransferStatus, u32, u32)) -> bool {
    if !request.spec_is_read() && request.spec_is_match_mask() {
        out.0 == TransferStatus::spec_ok()
    } else if !engaged {
        out.0 == TransferStatus::spec_default() && out.1 == 0
    } else if request.spec_is_read() && request.spec_is_value_match() {
        out.0.value_mismatch ==> !out.0.protocol_error && out.0.ack.spec_is_ok()
    } else {
        !out.0.value_mismatch
    }
}

/// Whether `ev` is the port traffic of one transfer (`request` with its
/// `data` word, under match mask `mask`) with outcome `out` (status, word
/// read, time), for a port in `state` with `config`, addressing device
/// `index`: none for a match mask write or when the target is not reached;
/// otherwise the register read (with match), or write, over SWD or over
/// the JTAG device.
pub open spec fn spec_transfer_traffic(
    state: ConnectionState,
    config: Transfer,
    index: u8,
    mask: u32,
    request: TransferRequest,
    data: u32,
    ev: Seq<WireEvent>,
    out: (TransferStatus, u32, u32),
) -> bool {
    let reg = request.spec_register();
    let chain = spec_jtag_chain(config.jtag, index as usize);
    if !request.spec_is_read() && request.spec_is_match_mask() {
        ev.len() == 0
    } else if state == ConnectionState::SWD {
        if request.spec_is_read() && request.spec_is_value_match() {
            spec_swd_transfer_read_match(config.swd, mask, reg, data, ev, out.0)
        } else if request.spec_is_read() {
            spec_swd_transfer_read(config.swd, reg, ev, (out.1, out.0))
        } else {
            spec_swd_transfer_write(config.swd, reg, data, ev, out.0)
        }
    } else if state == ConnectionState::JTAG && index < config.jtag.device_count {
        if request.spec_is_read() && request.spec_is_value_match() {
            spec_read_match_traffic(true, spec_jtag_reads(chain), mask, reg, data, ev, out.0)
        } else if request.spec_is_read() {
            spec_posted_read(true, spec_jtag_reads(chain), spec_jtag_reads(chain), reg, ev, (out.1, out.0))
        } else {
            spec_retried(spec_jtag_writes(chain, reg, data), spec_jtag_writes(chain, reg, data), spec_write_waiting(), ev, out.0)
        }
    } else {
        ev.len() == 0
    }
}

/// A transfer request with payload `p` was served: the transfers done are
/// the first `k` of those asked for (at least one, when any is asked for),
/// each with an outcome that `spec_transfer_outcome_ok` allows; the reply
/// (`a` before, `b` after, `n` bytes) holds their count, the last status
/// and their words; the match mask is that of the last match mask write
/// done, else unchanged; the port traffic `ev` is that of the transfers
/// done, one after the other. The abort token is checked after each
/// transfer done (`checks`, its answers): the transfers stop short of
/// those asked for only when the reply has no room for the next one's
/// words or the last check found the token set.
pub open spec fn spec_transfer_served(
    engaged: bool,
    mask_before: u32,
    mask_after: u32,
    p: Seq<u8>,
    a: Seq<u8>,
    b: Seq<u8>,
    n: usize,
    state: ConnectionState,
    config: Transfer,
    ev: Seq<WireEvent>,
    checks: Seq<bool>,
) -> bool {
    let total = spec_transfers(p, 2, p[1] as nat);
    exists|k: nat, outs: Seq<(TransferStatus, u32, u32)>, segs: Seq<Seq<WireEvent>>|
        #![trigger spec_transfer_words(a, total.take(k as int), outs), spec_concat(segs)]
        {
            let done = total.take(k as int);
            &&& k <= total.len()
            &&& (total.len() >= 1 ==> k >= 1)
            &&& outs.len() == k
            &&& n == 3 + spec_reply_len(done)
            &&& b == spec_transfer_words(a, done, outs).update(1, k as u8).update(0, 0x05u8)
            &&& mask_after == spec_last_mask(done, mask_before)
            &&& forall|j: int| 0 <= j < k ==> spec_transfer_outcome_ok(engaged, #[trigger] done[j].0, outs[j])
            &&& segs.len() == k
            &&& spec_concat(segs) == ev
            &&& b.len() == a.len()
            &&& checks.len() == k
            &&& forall|j: int| 0 <= j < k - 1 ==> !#[trigger] checks[j]
            &&& (k < total.len() ==> 3 + spec_reply_len(total.take(k + 1int)) > a.len() || (k >= 1 && checks[k - 1]))
            &&& forall|j: int|
                0 <= j < k ==> spec_transfer_traffic(
                    state,
                    config,
                    p[0],
                    spec_last_mask(done.take(j), mask_before),
                    done[j].0,
                    done[j].1,
                    #[trigger] segs[j],
                    outs[j],
                )
        }
}

/// The reply bytes of the first `i` transfers are no more than those of
/// all of them.
proof fn lemma_reply_len_prefix(s: Seq<(TransferRequest, u32)>, i: int)
    requires
        0 <= i <= s.len(),
    ensures
        spec_reply_len(s.take(i)) <= spec_reply_len(s),
    decreases s.len(),
{
    if i < s.len() {
        lemma_reply_len_prefix(s.drop_last(), i);
        assert(s.drop_last().take(i) =~= s.take(i));
    } else {
        assert(s.take(i) =~= s);
    }
}

/// Recording transfers whose words fit the reply keeps its length.
proof fn lemma_transfer_words_len(
    a: Seq<u8>,
    done: Seq<(TransferRequest, u32)>,
    outs: Seq<(TransferStatus, u32, u32)>,
)
    requires
        3 + spec_reply_len(done) <= a.len(),
        outs.len() >= done.len(),
    ensures
        spec_transfer_words(a, done, outs).len() == a.len(),
    decreases done.len(),
{
    if done.len() > 0 {
        let k = done.len() - 1;
        let request = done[k].0;
        let out = outs[k];
        lemma_transfer_words_len(a, done.drop_last(), outs);
        let w = spec_one_response(spec_reply_timestamp(request, out.2), spec_reply_data(request, out.1));
        assert(w.len() <= spec_response_len(request));
        let prev = spec_transfer_words(a, done.drop_last(), outs);
        let at = 3 + spec_reply_len(done.drop_last()) as int;
        assert(spec_splice(prev, at, w).len() == prev.len());
    }
}

/// A transfer request is served in full when nothing stops it: if every
/// check of the abort token found it clear and the reply has room for the
/// words of all the transfers the request carries, every one of them is
/// done, and the reply counts them all and holds all their words.
pub proof fn lemma_every_transfer_served(
    engaged: bool,
    mask_before: u32,
    mask_after: u32,
    p: Seq<u8>,
    a: Seq<u8>,
    b: Seq<u8>,
    n: usize,
    state: ConnectionState,
    config: Transfer,
    ev: Seq<WireEvent>,
    checks: Seq<bool>,
)
    requires
        spec_transfer_served(engaged, mask_before, mask_after, p, a, b, n, state, config, ev, checks),
        forall|j: int| 0 <= j < checks.len() ==> !#[trigger] checks[j],
        3 + spec_reply_len(spec_transfers(p, 2, p[1] as nat)) <= a.len(),
    ensures
        checks.len() == spec_transfers(p, 2, p[1] as nat).len(),
        b[1] == spec_transfers(p, 2, p[1] as nat).len() as u8,
        n == 3 + spec_reply_len(spec_transfers(p, 2, p[1] as nat)),
{
    let total = spec_transfers(p, 2, p[1] as nat);
    let (k, outs, segs) = choose|k: nat, outs: Seq<(TransferStatus, u32, u32)>, segs: Seq<Seq<WireEvent>>|
        #![trigger spec_transfer_words(a, total.take(k as int), outs), spec_concat(segs)]
        {
            let done = total.take(k as int);
            &&& k <= total.len()
            &&& (total.len() >= 1 ==> k >= 1)
            &&& outs.len() == k
            &&& n == 3 + spec_reply_len(done)
            &&& b == spec_transfer_words(a, done, outs).update(1, k as u8).update(0, 0x05u8)
            &&& mask_after == spec_last_mask(done, mask_before)
            &&& forall|j: int| 0 <= j < k ==> spec_transfer_outcome_ok(engaged, #[trigger] done[j].0, outs[j])
            &&& segs.len() == k
            &&& spec_concat(segs) == ev
            &&& b.len() == a.len()
            &&& checks.len() == k
            &&& forall|j: int| 0 <= j < k - 1 ==> !#[trigger] checks[j]
            &&& (k < total.len() ==> 3 + spec_reply_len(total.take(k + 1int)) > a.len() || (k >= 1 && checks[k - 1]))
            &&& forall|j: int|
                0 <= j < k ==> spec_transfer_traffic(
                    state,
                    config,
                    p[0],
                    spec_last_mask(done.take(j), mask_before),
                    done[j].0,
                    done[j].1,
                    #[trigger] segs[j],
                    outs[j],
                )
        };
    if k < total.len() {
        lemma_reply_len_prefix(total, k + 1int);
        if k >= 1 {
            assert(!checks[k - 1]);
        }
    }
    assert(k == total.len());
    assert(total.take(k as int) =~= total);
    lemma_transfer_words_len(a, total.take(k as int), outs);
    assert(b[1] == k as u8);
}

/// A transfer block reply, from the buffer `a`: `done` words moved, the
/// block status, and the words read.
pub open spec fn spec_block_reply(a: Seq<u8>, words: Seq<u8>, status: TransferStatus, done: int) -> Seq<u8> {
    spec_splice(
        spec_splice(a, 4, words).update(3, crate::cmsis_dap::protocol::transfer::spec_block_status_byte(status)),
        1,
        crate::bytes::spec_u16_bytes(done as u16),
    ).update(0, 0x06u8)
}

/// A transfer block request with payload `p` was served (reply buffer `a`
/// before, `b` after, `n` bytes): of the words the request asks for, as
/// many as the reply has room for (a read) or the request carries (a
/// write), `done` moved; none and the default status when the target is
/// not reached; fewer than all only with an error status; a write moves at
/// least one. A read's reply holds the words read.
pub open spec fn spec_block_served(
    engaged: bool,
    p: Seq<u8>,
    a: Seq<u8>,
    b: Seq<u8>,
    n: usize,
    state: ConnectionState,
    config: Transfer,
    ev: Seq<WireEvent>,
) -> bool {
    let count = spec_u16_le(p, 1) as int;
    let reg = TransferRequest(p[3]).spec_register();
    if TransferRequest(p[3]).spec_is_read() {
        let room = (a.len() - 4) / 4;
        let max = if count <= room { count } else { room };
        let size = if a.len() - 4 < 4 * count { a.len() - 4 } else { 4 * count };
        exists|done: int, status: TransferStatus, words: Seq<u8>|
            #![trigger spec_block_reply(a, words, status, done)]
            {
                &&& 0 <= done <= max
                &&& words.len() == 4 * done
                &&& (!engaged ==> done == 0 && status == TransferStatus::spec_default())
                &&& (engaged && done < max ==> status.spec_has_errors())
                &&& n == 4 + 4 * done
                &&& b == spec_block_reply(a, words, status, done)
                &&& spec_block_traffic(
                    state,
                    config,
                    p[0],
                    true,
                    reg,
                    a.subrange(4, 4 + size),
                    spec_splice(a, 4, words).subrange(4, 4 + size),
                    ev,
                    (done as usize, status),
                )
            }
    } else {
        let carried = (p.len() - 4) / 4;
        let max = if count <= carried { count } else { carried };
        let size = if p.len() - 4 < 4 * count { p.len() - 4 } else { 4 * count };
        exists|done: int, status: TransferStatus|
            #![trigger spec_block_reply(a, Seq::<u8>::empty(), status, done)]
            {
                &&& 0 <= done <= max
                &&& (!engaged ==> done == 0 && status == TransferStatus::spec_default())
                &&& (engaged ==> 1 <= done)
                &&& (engaged && done < max ==> status.spec_has_errors())
                &&& n == 4
                &&& b == spec_block_reply(a, Seq::<u8>::empty(), status, done)
                &&& spec_block_traffic(
                    state,
                    config,
                    p[0],
                    false,
                    reg,
                    p.subrange(4, 4 + size),
                    p.subrange(4, 4 + size),
                    ev,
                    (done as usize, status),
                )
            }
    }
}

/// The port traffic `ev` of a block transfer of `reg` for the device
/// `index`, a read (`read`) or a write, over the words of `before` (the
/// data written, or the reply's data area before a read) and `after` (that
/// area after a read), giving `r` (words moved, status): over SWD, or over
/// the JTAG device; none when the target is not reached.
pub open spec fn spec_block_traffic(
    state: ConnectionState,
    config: Transfer,
    index: u8,
    read: bool,
    reg: Register,
    before: Seq<u8>,
    after: Seq<u8>,
    ev: Seq<WireEvent>,
    r: (usize, TransferStatus),
) -> bool {
    let chain = spec_jtag_chain(config.jtag, index as usize);
    if state == ConnectionState::SWD {
        if read {
            spec_block_read_traffic(reg.ap, spec_swd_reads(config.swd), reg, before, after, ev, r)
        } else {
            spec_block_write_traffic(spec_swd_all_writes(config.swd), spec_swd_reads(config.swd), reg, before, ev, r)
        }
    } else if state == ConnectionState::JTAG && index < config.jtag.device_count {
        if read {
            spec_block_read_traffic(true, spec_jtag_reads(chain), reg, before, after, ev, r)
        } else {
            spec_block_write_traffic(spec_jtag_all_writes(chain), spec_jtag_reads(chain), reg, before, ev, r)
        }
    } else {
        ev.len() == 0
    }
}

/// The trace status reply for the status `st`.
pub open spec fn spec_swo_status_reply(a: Seq<u8>, st: SWOStatus) -> Seq<u8> {
    spec_splice(a, 2, spec_u32_bytes(st.buffered_traces)).update(1, st.flags.0).update(0, 0x1Bu8)
}

/// The extended trace status reply with the fields `control` selects.
pub open spec fn spec_swo_ext_reply(a: Seq<u8>, control: u8, st: SWOStatus) -> Seq<u8> {
    spec_splice(a, 1, spec_ext_status_payload(SWOStatusControl(control), st)).update(0, 0x1Eu8)
}

/// The trace data reply: the status flags, the count `n` of trace bytes,
/// and the bytes of the reply's data area as the capture left them (the
/// first `n` are the trace bytes).
pub open spec fn spec_swo_data_reply(a: Seq<u8>, st: SWOStatus, area: Seq<u8>, n: int) -> Seq<u8> {
    spec_splice(spec_splice(a, 4, area), 2, crate::bytes::spec_u16_bytes(n as u16)).update(1, st.flags.0).update(
        0,
        0x1Cu8,
    )
}

/// A block transfer request can be carried out: it asks for at least one
/// word, and a write brings at least one.
pub open spec fn spec_block_request_ok(payload: Seq<u8>) -> bool {
    spec_u16_le(payload, 1) >= 1 && (TransferRequest(payload[3]).spec_is_read() || payload.len() >= 8)
}

/// A reply whose payload is one status byte, for a request of type `command`.
fn status_reply(response: &mut [u8], command: CommandType) -> (r: Result<PacketMut<'_>, Error>)
    ensures
        match r {
            Ok(p) => old(response)@.len() >= 2 && p.command == command && p.buf@ == old(response)@
                && final(p.buf)@ == final(response)@,
            Err(e) => old(response)@.len() < 2 && final(response)@ == old(response)@,
        },
{
    if response.len() < 2 {
        return Err(Error::BufferNotBigEnough);
    }
    PacketMut::try_alloc(response, command)
}

/// The time in ticks of the probe's clock, from `embassy_time::Instant::now`
/// and `as_ticks`. Nothing is promised of the value: it is the time.
#[verifier::external_body]
fn now_ticks() -> (r: u64) {
    embassy_time::Instant::now().as_ticks()
}

/// Serves DAP requests with a debug access port, a reactor and, where the
/// probe has one, a trace capture.
pub struct Dispatcher<'a, P, R, SWO> {
    pub dap: DebugAccessPort<P>,
    pub reactor: &'a R,
    pub swo: Option<SWO>,
    /// What the abort token answered each time a transfer request checked
    /// it between transfers, in order.
    pub abort_checks: AbortChecks,
    /// The firmware versions (as bytes) the reactor gave, one for each info
    /// request that asked for it, in order.
    pub firmware_versions: FirmwareVersions,
}

impl<'a, P, R, SWO: SWOAccessBehavior> Dispatcher<'a, P, R, SWO> {
    /// The transfer configuration is consistent and the trace capture, if
    /// there is one, can be driven.
    pub open spec fn wf(&self) -> bool {
        &&& self.dap.transfer_config.wf()
        &&& (self.swo matches Some(s) ==> s.available())
    }

    /// The request carries nothing that the port cannot carry out: a block
    /// transfer to a connected target moves at least one word, and a JTAG
    /// chain holds at least one device, each of which can be selected.
    pub open spec fn request_ok(&self, command: Seq<u8>) -> bool {
        let payload = command.skip(1);
        &&& (command.len() >= 5 && CommandType::spec_from_u8(command[0]) == Some(CommandType::TransferBlock)
            && self.dap.engaged(payload[0])) ==> spec_block_request_ok(payload)
        &&& (command.len() >= 1 && CommandType::spec_from_u8(command[0]) == Some(CommandType::JTAGConfigure)
            && JTAGConfigureCommand::spec_accepts(payload) && payload[0] <= 64) ==> (payload[0] >= 1
            && spec_chain_selectable(payload.subrange(1, 1 + payload[0])))
    }

    /// Whether the port can carry out the request (`request_ok`): what a
    /// caller tests before `dispatch_one`.
    pub fn accepts(&self, command: &[u8]) -> (r: bool)
        ensures
            r == self.request_ok(command@),
    {
        let len = command.len();
        let block_ok = if len >= 5 {
            match CommandType::try_from_u8(command[0]) {
                Some(CommandType::TransferBlock) => {
                    let index = command[1];
                    let engaged = match self.dap.state {
                        ConnectionState::SWD => true,
                        ConnectionState::JTAG => (index as usize) < self.dap.transfer_config.jtag.device_count,
                        ConnectionState::Disconnected => false,
                    };
                    proof {
                        assert(spec_u16_le(command@.skip(1), 1) == spec_u16_le(command@, 2));
                    }
                    !engaged || (read_u16_le(command, 2) >= 1 && (TransferRequest(command[4]).is_read() || len >= 9))
                },
                _ => true,
            }
        } else {
            true
        };
        let jtag_ok = if len >= 2 {
            match CommandType::try_from_u8(command[0]) {
                Some(CommandType::JTAGConfigure) => {
                    let n = command[1] as usize;
                    if len >= 2 + n && n <= 64 {
                        let lens = vstd::slice::slice_subrange(command, 2, 2 + n);
                        proof {
                            assert(lens@ =~= command@.skip(1).subrange(1, 1 + command@[1]));
                        }
                        n >= 1 && chain_selectable(lens)
                    } else {
                        true
                    }
                },
                _ => true,
            }
        } else {
            true
        };
        block_ok && jtag_ok
    }
}

/// The port traffic `ev` of a write of `value` to the abort register of
/// the device `index`, ending in status `st`: the DP write over SWD, or
/// the ABORT scan of the JTAG device; none, with the default status, when
/// the target is not reached.
pub open spec fn spec_abort_traffic(
    state: ConnectionState,
    config: Transfer,
    index: u8,
    value: u32,
    ev: Seq<WireEvent>,
    st: TransferStatus,
) -> bool {
    if state == ConnectionState::SWD {
        spec_swd_transfer_write(config.swd, Register { ap: false, address: 0 }, value, ev, st)
    } else if state == ConnectionState::JTAG && index < config.jtag.device_count {
        exists|res: Result<u32, TransferAck>| {
            let chain = spec_jtag_chain(config.jtag, index as usize);
            let ir = spec_jtag_ir_traffic(chain.1, chain.0, chain.2, 0xF8);
            &&& ev.take(ir.len() as int) == ir
            &&& spec_jtag_reg_traffic(chain.3, chain.4, JTAGInstruction::Abort, 0, value, ev.skip(ir.len() as int), res)
            &&& st == #[trigger] spec_jtag_status_of(res)
        }
    } else {
        ev.len() == 0 && st == TransferStatus::spec_default()
    }
}

/// The abort write reply (`a` before, `b` after) and port traffic `ev`
/// for device `index` and `value`: status 0 exactly when the write ended
/// without error.
pub open spec fn spec_abort_served(
    state: ConnectionState,
    config: Transfer,
    index: u8,
    value: u32,
    a: Seq<u8>,
    b: Seq<u8>,
    ev: Seq<WireEvent>,
) -> bool {
    exists|st: TransferStatus|
        #[trigger] spec_abort_traffic(state, config, index, value, ev, st) && b == spec_status_reply(
            a,
            CommandType::WriteAbort,
            if st.spec_has_errors() { 0xFFu8 } else { 0u8 },
        )
}

/// The ID code reply (`a` before, `b` after) and port traffic `ev` for
/// JTAG device `index`: over JTAG with the device in the chain, IR loaded
/// with IDCODE, the data register scanned, and the captured value with
/// status 0; otherwise status 0xFF and no traffic.
pub open spec fn spec_idcode_served(
    state: ConnectionState,
    config: Transfer,
    index: u8,
    a: Seq<u8>,
    b: Seq<u8>,
    ev: Seq<WireEvent>,
) -> bool {
    if state == ConnectionState::JTAG && index < config.jtag.device_count {
        exists|v: u32| {
            let chain = spec_jtag_chain(config.jtag, index as usize);
            let ir = spec_jtag_ir_traffic(chain.1, chain.0, chain.2, 0xFE);
            &&& ev.take(ir.len() as int) == ir
            &&& spec_jtag_reg_traffic(chain.3, chain.4, JTAGInstruction::IDCode, 0, 0, ev.skip(ir.len() as int), Ok::<u32, TransferAck>(v))
            &&& b == #[trigger] spec_splice(a, 2, spec_u32_bytes(v)).update(1, 0u8).update(0, 0x16u8)
        }
    } else {
        ev.len() == 0 && b == a.update(1, 0xFFu8).update(0, 0x16u8)
    }
}

/// Whether the sequence call `e` reported success.
pub open spec fn spec_call_ok(e: WireEvent) -> bool {
    match e {
        WireEvent::JtagSequence { ok, .. } => ok,
        WireEvent::SwdRead { ok, .. } => ok,
        WireEvent::SwdWrite { ok, .. } => ok,
        _ => true,
    }
}

/// Whether `ev` are the port calls that run the JTAG sequences of payload
/// `p` from index `i`, `left` of them at most: one call per complete
/// sequence, in order, handed its bit count, TMS level and TDI bytes, up
/// to the first call that fails.
pub open spec fn spec_jtag_seq_calls(p: Seq<u8>, i: int, left: nat, ev: Seq<WireEvent>) -> bool
    decreases left,
{
    if left == 0 {
        ev.len() == 0
    } else {
        match crate::cmsis_dap::protocol::jtag::spec_jtag_sequence_len(p.skip(i)) {
            None => ev.len() == 0,
            Some(n) => {
                &&& ev.len() >= 1
                &&& ev[0] matches WireEvent::JtagSequence { num_bits, tms, tdi, .. }
                &&& num_bits == crate::cmsis_dap::protocol::jtag::spec_jtag_num_bits(p[i])
                &&& tms == (p[i] & 0x40 == 0x40)
                &&& tdi == p.subrange(i + 1, i + n)
                &&& if spec_call_ok(ev[0]) {
                    spec_jtag_seq_calls(p, i + n, (left - 1) as nat, ev.drop_first())
                } else {
                    ev.len() == 1
                }
            },
        }
    }
}

/// Whether `ev` are the port calls that run the SWD sequences of payload
/// `p` from index `i`, `left` of them at most, with `room` bytes left in
/// the reply: an output sequence is written with its bit count and data,
/// an input sequence is read with its bit count into as many bytes as it
/// needs when they fit the room (one that does not fit makes no call), in
/// order, up to the first call that fails.
pub open spec fn spec_swd_seq_calls(p: Seq<u8>, i: int, left: nat, room: int, ev: Seq<WireEvent>) -> bool
    decreases left,
{
    if left == 0 {
        ev.len() == 0
    } else {
        match spec_swd_sequence_at(p, i) {
            None => ev.len() == 0,
            Some((bits, data, next)) => {
                let num_bytes = (bits + 7) / 8;
                if data.len() > 0 {
                    &&& ev.len() >= 1
                    &&& ev[0] matches WireEvent::SwdWrite { num_bits: nb, data: d, .. }
                    &&& nb == bits && d == data
                    &&& if spec_call_ok(ev[0]) {
                        spec_swd_seq_calls(p, next, (left - 1) as nat, room, ev.drop_first())
                    } else {
                        ev.len() == 1
                    }
                } else if num_bytes <= room {
                    &&& ev.len() >= 1
                    &&& ev[0] matches WireEvent::SwdRead { num_bits: nb, data: d, .. }
                    &&& nb == bits && d.len() == num_bytes
                    &&& if spec_call_ok(ev[0]) {
                        spec_swd_seq_calls(p, next, (left - 1) as nat, room - num_bytes, ev.drop_first())
                    } else {
                        ev.len() == 1
                    }
                } else {
                    spec_swd_seq_calls(p, next, (left - 1) as nat, room, ev)
                }
            },
        }
    }
}

/// The bytes the SWD read calls of `ev` filled, in order.
pub open spec fn spec_swd_read_bytes(ev: Seq<WireEvent>) -> Seq<u8>
    decreases ev.len(),
{
    if ev.len() == 0 {
        Seq::empty()
    } else {
        spec_swd_read_bytes(ev.drop_last()) + match ev.last() {
            WireEvent::SwdRead { data, .. } => data,
            _ => Seq::empty(),
        }
    }
}

/// Whether every call of `ev` reported success.
pub open spec fn spec_calls_ok(ev: Seq<WireEvent>) -> bool {
    forall|j: int| 0 <= j < ev.len() ==> spec_call_ok(#[trigger] ev[j])
}

/// The payload index at which the `m`-th sequence of a JTAG sequence
/// request starts (the first at 1, after the count byte).
pub open spec fn spec_jtag_seq_idx(p: Seq<u8>, m: nat) -> int
    decreases m,
{
    if m == 0 {
        1
    } else {
        let i = spec_jtag_seq_idx(p, (m - 1) as nat);
        match crate::cmsis_dap::protocol::jtag::spec_jtag_sequence_len(p.skip(i)) {
            Some(n) => i + n,
            None => i,
        }
    }
}

/// The TDO bytes a JTAG sequence call captured.
pub open spec fn spec_captured_tdo(e: WireEvent) -> Seq<u8> {
    match e {
        WireEvent::JtagSequence { tdo, .. } => tdo,
        _ => Seq::empty(),
    }
}

/// The TDO bytes a JTAG sequence reply carries for the sequences of payload
/// `p` run by the calls `ev`, in order: what each call captured, for each
/// sequence that asks for capture.
pub open spec fn spec_jtag_captured(p: Seq<u8>, ev: Seq<WireEvent>) -> Seq<u8>
    decreases ev.len(),
{
    if ev.len() == 0 {
        Seq::empty()
    } else {
        let i = spec_jtag_seq_idx(p, (ev.len() - 1) as nat);
        spec_jtag_captured(p, ev.drop_last()) + (if p[i] & 0x80 == 0x80 {
            spec_captured_tdo(ev.last())
        } else {
            Seq::empty()
        })
    }
}

impl<'a, P: JTAGAccessPort + SWJAccessPort + SWDAccessPort, R: Reactor, SWO: SWOAccessBehavior> Dispatcher<
    'a,
    P,
    R,
    SWO,
> {
    /// What serving a well-formed request of the type in its first byte
    /// does: `s` and `t` are the dispatcher before and after, `a` and `b`
    /// the response buffer before and after, `r` the outcome. What the port
    /// answers is its own choice: the clauses tie the reply to the calls
    /// recorded in `wire` and to what those calls returned. What the trace
    /// capture reports is left open.
    pub open spec fn spec_dispatched(s: Self, t: Self, command: Seq<u8>, a: Seq<u8>, b: Seq<u8>, r: DispatchOutcome) -> bool {
        let p = command.skip(1);
        let same_port = t.dap.state == s.dap.state && t.dap.transfer_config == s.dap.transfer_config;
        let no_swo = r == DispatchOutcome::Reply(1) && b == a.update(0, 0xFFu8);
        match CommandType::spec_from_u8(command[0]) {
            Some(CommandType::Info) => (p[0] != 9 ==> t == s) && (p[0] == 9 ==> ({
                let d = spec_fw_version_data(t.firmware_versions.versions().last(), a.len() as int);
                &&& t.dap == s.dap
                &&& t.swo == s.swo
                &&& t.reactor == s.reactor
                &&& t.abort_checks == s.abort_checks
                &&& t.firmware_versions.versions().len() == s.firmware_versions.versions().len() + 1
                &&& t.firmware_versions.versions().drop_last() == s.firmware_versions.versions()
                &&& r == DispatchOutcome::Reply((2 + d.len()) as usize)
                &&& b == spec_info_reply(a, d)
            })) && b.len() == a.len() && (r matches DispatchOutcome::Reply(n) && n
                <= a.len() && (p[0] != 9 ==> ({
                let d = spec_info_data(
                    p[0],
                    <P as SWDAccessPort>::SUPPORTED,
                    <P as JTAGAccessPort>::SUPPORTED,
                    SWO::SUPPORTS_UART,
                    SWO::SUPPORTS_MANCHESTER,
                    SWO::BUFFER_SIZE,
                );
                n == 2 + d.len() && b == spec_info_reply(a, d)
            })) && (p[0] == 9 ==> exists|d: Seq<u8>|
                d.len() + 2 <= a.len() && n == 2 + d.len() && b == spec_info_reply(a, d))),
            Some(CommandType::HostStatus) => t == s && r == DispatchOutcome::HostStatus(
                crate::cmsis_dap::protocol::general::spec_host_status(p[0], p[1]),
                2,
            ) && b == spec_status_reply(a, CommandType::HostStatus, 0),
            Some(CommandType::Connect) => r == DispatchOutcome::Reply(2) && t.dap.transfer_config
                == s.dap.transfer_config && t.swo == s.swo && (exists|x: u8|
                b == spec_status_reply(a, CommandType::Connect, x) && (x == 1 ==> t.dap.state == ConnectionState::SWD)
                    && (x == 2 ==> t.dap.state == ConnectionState::JTAG) && (x == 0 ==> t.dap.state == s.dap.state) && (
                x == 0 || x == 1 || x == 2)) && b == spec_status_reply(a, CommandType::Connect, b[1]) && (b[1] == 1 ==> p[0]
                == 0 || p[0] == 1) && (b[1] == 2 ==> p[0] == 2),
            Some(CommandType::Disconnect) => r == DispatchOutcome::Reply(2) && t.dap.state
                == ConnectionState::Disconnected && t.dap.transfer_config == s.dap.transfer_config && (b
                == spec_status_reply(a, CommandType::Disconnect, 0) || b == spec_status_reply(
                a,
                CommandType::Disconnect,
                0xFF,
            )) && (s.dap.state == ConnectionState::Disconnected ==> b == spec_status_reply(
                a,
                CommandType::Disconnect,
                0,
            )),
            Some(CommandType::TransferConfigure) => r == DispatchOutcome::Reply(2) && t.dap.state == s.dap.state
                && t.dap.transfer_config.idle_cycles == p[0] && t.dap.transfer_config.wait_retry == spec_u16_le(p, 1)
                && t.dap.transfer_config.match_retry == spec_u16_le(p, 3) && t.dap.transfer_config.match_mask
                == s.dap.transfer_config.match_mask && t.dap.transfer_config.swd == s.dap.transfer_config.swd
                && t.dap.transfer_config.jtag == s.dap.transfer_config.jtag && b == spec_status_reply(
                a,
                CommandType::TransferConfigure,
                0,
            ),
            Some(CommandType::Transfer) => t.dap.state == s.dap.state && t.dap.transfer_config.jtag
                == s.dap.transfer_config.jtag && t.dap.transfer_config.swd == s.dap.transfer_config.swd
                && t.dap.transfer_config.idle_cycles == s.dap.transfer_config.idle_cycles
                && t.dap.transfer_config.wait_retry == s.dap.transfer_config.wait_retry
                && t.dap.transfer_config.match_retry == s.dap.transfer_config.match_retry && b.len() == a.len()
                && (r matches DispatchOutcome::Reply(n) && 3 <= n <= a.len() && spec_transfer_served(
                s.dap.engaged(p[0]),
                s.dap.transfer_config.match_mask,
                t.dap.transfer_config.match_mask,
                p,
                a,
                b,
                n,
                s.dap.state,
                s.dap.transfer_config,
                spec_added(s.dap.wire@, t.dap.wire@),
                t.abort_checks.answers().skip(s.abort_checks.answers().len() as int),
            )) && t.abort_checks.answers().take(s.abort_checks.answers().len() as int) == s.abort_checks.answers(),
            Some(CommandType::TransferBlock) => same_port && b.len() == a.len() && (r matches DispatchOutcome::Reply(n)
                && 4 <= n <= a.len() && spec_block_served(
                s.dap.engaged(p[0]),
                p,
                a,
                b,
                n,
                s.dap.state,
                s.dap.transfer_config,
                spec_added(s.dap.wire@, t.dap.wire@),
            )),
            Some(CommandType::WriteAbort) => r == DispatchOutcome::Reply(2) && same_port && spec_abort_served(
                s.dap.state,
                s.dap.transfer_config,
                p[0],
                crate::bytes::spec_u32_le(p, 1),
                a,
                b,
                spec_added(s.dap.wire@, t.dap.wire@),
            ),
            Some(CommandType::Delay) => t == s && r == DispatchOutcome::Delay(spec_u16_le(p, 0), 2) && b
                == spec_status_reply(a, CommandType::Delay, 0),
            Some(CommandType::ResetTarget) => t == s && r == DispatchOutcome::Reply(3) && b == spec_reset_reply(
                a,
                0,
                false,
            ),
            Some(CommandType::SWJPins) => r == DispatchOutcome::Reply(2) && same_port && b == spec_status_reply(a, CommandType::SWJPins, b[1]) && t.dap.wire@
                == s.dap.wire@.push(
                WireEvent::SwjPins { output: p[0], select: p[1], wait_us: crate::bytes::spec_u32_le(p, 2), input: b[1] },
            ),
            Some(CommandType::SWJClock) => r == DispatchOutcome::Reply(2) && same_port && (b == spec_status_reply(
                a,
                CommandType::SWJClock,
                0,
            ) || b == spec_status_reply(a, CommandType::SWJClock, 0xFF)) && t.dap.wire@ == s.dap.wire@.push(
                WireEvent::SwjClock { freq_hz: crate::bytes::spec_u32_le(p, 0), ok: b[1] == 0 },
            ),
            Some(CommandType::SWJSequence) => r == DispatchOutcome::Reply(2) && same_port && (b == spec_status_reply(
                a,
                CommandType::SWJSequence,
                0,
            ) || b == spec_status_reply(a, CommandType::SWJSequence, 0xFF)) && t.dap.wire@ == s.dap.wire@.push(
                WireEvent::SwjSequence {
                    num_bits: crate::cmsis_dap::protocol::swj::spec_swj_num_bits(p[0]) as usize,
                    data: p.skip(1),
                    ok: b[1] == 0,
                },
            ),
            Some(CommandType::SWDConfigure) => r == DispatchOutcome::Reply(2) && t.dap.state == s.dap.state
                && t.dap.transfer_config.swd.turnaround == (p[0] & 0x03) + 1
                && t.dap.transfer_config.swd.always_data_phase == (p[0] & 0x04 != 0) && t.dap.transfer_config.jtag
                == s.dap.transfer_config.jtag && b == spec_status_reply(a, CommandType::SWDConfigure, 0),
            Some(CommandType::SWDSequence) => same_port && b.len() == a.len() && b[0] == 0x1D && (b[1] == 0 || b[1]
                == 0xFF) && (r matches DispatchOutcome::Reply(n) && 2 <= n <= a.len() && (b[1] == 0 ==> n == 2
                + spec_swd_read_len(p, 1, p[0] as nat, a.len() - 2)) && (s.dap.state != ConnectionState::SWD && p[0]
                >= 1 && spec_swd_sequence_at(p, 1) is Some ==> n == 2 && b == a.update(1, 0xFFu8).update(0, 0x1Du8))) && ({
                let ev = spec_added(s.dap.wire@, t.dap.wire@);
                if s.dap.state == ConnectionState::SWD {
                    &&& spec_swd_seq_calls(p, 1, p[0] as nat, a.len() - 2, ev)
                    &&& (b[1] == 0 <==> spec_calls_ok(ev))
                    &&& (b[1] == 0 ==> (r matches DispatchOutcome::Reply(n) && b.subrange(2, n as int) == spec_swd_read_bytes(ev)))
                } else {
                    &&& ev.len() == 0
                    &&& (b[1] == 0 <==> spec_swd_seq_calls(p, 1, p[0] as nat, a.len() - 2, ev))
                }
            }),
            Some(CommandType::SWOTransport) => t.dap == s.dap && (s.swo is None ==> no_swo) && (s.swo is Some ==> r
                == DispatchOutcome::Reply(2) && (b == spec_status_reply(a, CommandType::SWOTransport, 0) || b
                == spec_status_reply(a, CommandType::SWOTransport, 0xFF))) && (s.swo is Some
                && crate::cmsis_dap::types::SWOTransport::spec_from_u8(p[0]) is None ==> b == spec_status_reply(
                a,
                CommandType::SWOTransport,
                0xFF,
            )),
            Some(CommandType::SWOMode) => t.dap == s.dap && (s.swo is None ==> no_swo) && (s.swo is Some ==> r
                == DispatchOutcome::Reply(2) && (b == spec_status_reply(a, CommandType::SWOMode, 0) || b
                == spec_status_reply(a, CommandType::SWOMode, 0xFF))) && (s.swo is Some && SWOMode::spec_from_u8(
                p[0],
            ) is None ==> b == spec_status_reply(a, CommandType::SWOMode, 0xFF)),
            Some(CommandType::SWOBaudrate) => t.dap == s.dap && (s.swo is None ==> no_swo) && (s.swo is Some ==> r
                == DispatchOutcome::Reply(5) && (b == spec_splice(
                a,
                1,
                spec_u32_bytes(crate::bytes::spec_u32_le(p, 0)),
            ).update(0, 0x19u8) || b == spec_splice(a, 1, spec_u32_bytes(0)).update(0, 0x19u8))),
            Some(CommandType::SWOControl) => t.dap == s.dap && (s.swo is None ==> no_swo) && (s.swo is Some ==> r
                == DispatchOutcome::Reply(2) && b == spec_status_reply(a, CommandType::SWOControl, 0)),
            Some(CommandType::SWOStatus) => t.dap == s.dap && (s.swo is None ==> no_swo) && (s.swo is Some ==> r
                == DispatchOutcome::Reply(6) && exists|st: SWOStatus| b == #[trigger] spec_swo_status_reply(a, st)),
            Some(CommandType::SWOExtendedStatus) => t.dap == s.dap && (s.swo is None ==> no_swo) && (s.swo is Some
                ==> r == DispatchOutcome::Reply((1 + SWOStatusControl(p[0]).spec_payload_len()) as usize) && exists|
                st: SWOStatus,
            | b == #[trigger] spec_swo_ext_reply(a, p[0], st)),
            Some(CommandType::SWOData) => t.dap == s.dap && (s.swo is None ==> no_swo) && (s.swo is Some ==> (r matches DispatchOutcome::Reply(
                n,
            ) && 4 <= n <= 4 + spec_u16_le(p, 0) && n <= a.len() && exists|st: SWOStatus, area: Seq<u8>|
                area.len() == (if spec_u16_le(p, 0) <= a.len() - 4 {
                    spec_u16_le(p, 0) as int
                } else {
                    a.len() - 4
                }) && b == #[trigger] spec_swo_data_reply(a, st, area, n - 4)) && b.len() == a.len()),
            Some(CommandType::JTAGSequence) => same_port && b.len() == a.len() && b[0] == 0x14 && (b[1] == 0 || b[1]
                == 0xFF) && (r matches DispatchOutcome::Reply(n) && 2 <= n <= a.len() && (b[1] == 0xFF ==> n == 2) && (
            b[1] == 0 ==> n == 2 + spec_jtag_capture_len(p, 1, p[0] as nat)) && (s.dap.state == ConnectionState::JTAG
                && b[1] == 0 ==> b.subrange(2, n as int) == spec_jtag_captured(p, spec_added(s.dap.wire@, t.dap.wire@)))
                && (s.dap.state != ConnectionState::JTAG
                && p[0] >= 1 && crate::cmsis_dap::protocol::jtag::spec_jtag_sequence_len(p.skip(1)) is Some ==> n == 2
                && b == a.update(1, 0xFFu8).update(0, 0x14u8))) && ({
                let ev = spec_added(s.dap.wire@, t.dap.wire@);
                if s.dap.state == ConnectionState::JTAG {
                    &&& spec_jtag_seq_calls(p, 1, p[0] as nat, ev)
                    &&& (b[1] == 0 <==> spec_calls_ok(ev))
                } else {
                    &&& ev.len() == 0
                    &&& (b[1] == 0 <==> spec_jtag_seq_calls(p, 1, p[0] as nat, ev))
                }
            }),
            Some(CommandType::JTAGConfigure) => r == DispatchOutcome::Reply(2) && t.dap.state == s.dap.state && (p[0]
                <= 64 ==> t.dap.transfer_config.jtag.device_count == p[0]
                && t.dap.transfer_config.jtag.ir_lengths@.take(p[0] as int) == p.subrange(1, 1 + p[0]) && b
                == spec_status_reply(a, CommandType::JTAGConfigure, 0)) && (p[0] > 64 ==> t.dap.transfer_config
                == s.dap.transfer_config && b == spec_status_reply(a, CommandType::JTAGConfigure, 0xFF)),
            Some(CommandType::JTAGIDCode) => r == DispatchOutcome::Reply(6) && same_port && spec_idcode_served(
                s.dap.state,
                s.dap.transfer_config,
                p[0],
                a,
                b,
                spec_added(s.dap.wire@, t.dap.wire@),
            ),
            _ => true,
        }
    }

    /// A connect request connects the port it asks for: the reply's status
    /// is 0 when nothing was connected (the state is as it was), 1 with SWD
    /// connected for a request for the default port or for SWD, 2 with JTAG
    /// connected for a request for JTAG.
    pub proof fn lemma_connect_follows_request(
        s: Self,
        t: Self,
        command: Seq<u8>,
        a: Seq<u8>,
        b: Seq<u8>,
        r: DispatchOutcome,
    )
        requires
            command.len() >= 2,
            command[0] == 0x02,
            a.len() >= 2,
            Self::spec_dispatched(s, t, command, a, b, r),
        ensures
            r == DispatchOutcome::Reply(2),
            b[0] == 0x02,
            b[1] == 0 || b[1] == 1 || b[1] == 2,
            b[1] == 0 ==> t.dap.state == s.dap.state,
            b[1] == 1 ==> (command[1] == 0 || command[1] == 1) && t.dap.state == ConnectionState::SWD,
            b[1] == 2 ==> command[1] == 2 && t.dap.state == ConnectionState::JTAG,
    {
        assert(CommandType::spec_from_u8(command[0]) == Some(CommandType::Connect));
        let x = choose|x: u8|
            b == spec_status_reply(a, CommandType::Connect, x) && (x == 1 ==> t.dap.state == ConnectionState::SWD)
                && (x == 2 ==> t.dap.state == ConnectionState::JTAG) && (x == 0 ==> t.dap.state == s.dap.state) && (x
                == 0 || x == 1 || x == 2);
        assert(b[1] == x);
        assert(command.skip(1)[0] == command[1]);
    }

    /// The firmware version info request reports the version the reactor
    /// gave, byte for byte after its length, whenever it has one that fits
    /// the reply, and an empty answer only when it has none (or one too long
    /// for the reply).
    pub proof fn lemma_info_reports_firmware_version(
        s: Self,
        t: Self,
        command: Seq<u8>,
        a: Seq<u8>,
        b: Seq<u8>,
        r: DispatchOutcome,
    )
        requires
            command.len() >= 2,
            command[0] == 0x00,
            command[1] == 9,
            a.len() >= 2,
            Self::spec_dispatched(s, t, command, a, b, r),
        ensures
            t.firmware_versions.versions().len() == s.firmware_versions.versions().len() + 1,
            t.firmware_versions.versions().last() matches Some(v) ==> (v.len() + 2 <= a.len() ==> r == DispatchOutcome::Reply(
                (2 + v.len()) as usize,
            ) && b[0] == 0 && b[1] == v.len() as u8 && b.subrange(2, 2 + v.len() as int) == v),
            t.firmware_versions.versions().last() is None ==> r == DispatchOutcome::Reply(2) && b[0] == 0 && b[1] == 0,
    {
        assert(CommandType::spec_from_u8(command[0]) == Some(CommandType::Info));
        assert(command.skip(1)[0] == command[1]);
        let d = spec_fw_version_data(t.firmware_versions.versions().last(), a.len() as int);
        if t.firmware_versions.versions().last() is Some {
            assert(b.subrange(2, 2 + d.len() as int) =~= d);
        }
    }

    /// A dispatcher for a disconnected port.
    pub fn new(port: P, reactor: &'a R, swo: Option<SWO>) -> (r: Self)
        requires
            swo matches Some(s) ==> s.available(),
        ensures
            r.wf(),
            r.dap.state == ConnectionState::Disconnected,
            r.dap.transfer_config.is_default(),
            r.abort_checks.answers() == Seq::<bool>::empty(),
            r.firmware_versions.versions() == Seq::<Option<Seq<u8>>>::empty(),
    {
        Self {
            dap: DebugAccessPort::new(port),
            reactor,
            swo,
            abort_checks: AbortChecks::new(),
            firmware_versions: FirmwareVersions::new(),
        }
    }

    /// Serves one request: writes the reply into `response` and says what
    /// is left to do. A request that cannot be parsed is answered with the
    /// single byte 0xFF; one that is not a DAP request goes to the reactor.
    pub fn dispatch_one(&mut self, command: &[u8], response: &mut [u8], abort: &AbortToken) -> (r: DispatchOutcome)
        requires
            old(self).wf(),
            old(self).request_ok(command@),
            command@.len() <= old(response)@.len(),
            old(response)@.len() >= MAX_PACKET_SIZE,
        ensures
            final(self).wf(),
            final(response)@.len() == old(response)@.len(),
            match r {
                DispatchOutcome::Reply(n) => n <= old(response)@.len(),
                DispatchOutcome::HostStatus(_, n) => n == 2,
                DispatchOutcome::Delay(_, n) => n == 2,
                DispatchOutcome::Unrecognized => final(response)@ == old(response)@,
            },
            (r is Unrecognized) <==> (crate::cmsis_dap::protocol::spec_command_error(command@) matches Some(
                Error::UnsupportedCommand(_),
            )),
            crate::cmsis_dap::protocol::spec_command_error(command@) == Some(Error::BufferNotBigEnough) ==> r
                == DispatchOutcome::Reply(1) && final(response)@ == old(response)@.update(0, 0xFFu8),
            crate::cmsis_dap::protocol::spec_command_error(command@) is None ==> Self::spec_dispatched(
                *old(self),
                *final(self),
                command@,
                old(response)@,
                final(response)@,
                r,
            ),
    {
        match Command::try_parse(command) {
            Ok(Command::Info(c)) => DispatchOutcome::Reply(self.handle_info(&c, response)),
            Ok(Command::HostStatus(c)) => {
                let (status, n) = self.handle_host_status(&c, response);
                DispatchOutcome::HostStatus(status, n)
            },
            Ok(Command::Connect(c)) => DispatchOutcome::Reply(self.handle_connect(&c, response)),
            Ok(Command::Disconnect(_)) => DispatchOutcome::Reply(self.handle_disconnect(response)),
            Ok(Command::TransferConfigure(c)) => DispatchOutcome::Reply(self.handle_transfer_configure(&c, response)),
            Ok(Command::Transfer(c)) => DispatchOutcome::Reply(self.handle_transfer(&c, response, abort)),
            Ok(Command::TransferBlock(c)) => DispatchOutcome::Reply(self.handle_transfer_block(&c, response, abort)),
            Ok(Command::WriteAbort(c)) => DispatchOutcome::Reply(self.handle_write_abort(&c, response, abort)),
            Ok(Command::Delay(c)) => {
                let (us, n) = self.handle_delay(&c, response);
                DispatchOutcome::Delay(us, n)
            },
            Ok(Command::ResetTarget(_)) => DispatchOutcome::Reply(self.handle_reset_target(response)),
            Ok(Command::SWJPins(c)) => DispatchOutcome::Reply(self.handle_swj_pins(&c, response)),
            Ok(Command::SWJClock(c)) => DispatchOutcome::Reply(self.handle_swj_clock(&c, response)),
            Ok(Command::SWJSequence(c)) => DispatchOutcome::Reply(self.handle_swj_sequence(&c, response)),
            Ok(Command::SWDConfigure(c)) => DispatchOutcome::Reply(self.handle_swd_configure(&c, response)),
            Ok(Command::SWDSequence(c)) => DispatchOutcome::Reply(self.handle_swd_sequence(&c, response)),
            Ok(Command::SWOTransport(c)) => DispatchOutcome::Reply(self.handle_swo_transport(&c, response)),
            Ok(Command::SWOMode(c)) => DispatchOutcome::Reply(self.handle_swo_mode(&c, response)),
            Ok(Command::SWOBaudrate(c)) => DispatchOutcome::Reply(self.handle_swo_baudrate(&c, response)),
            Ok(Command::SWOControl(c)) => DispatchOutcome::Reply(self.handle_swo_control(&c, response)),
            Ok(Command::SWOStatus(_)) => DispatchOutcome::Reply(self.handle_swo_status(response)),
            Ok(Command::SWOExtendedStatus(c)) => DispatchOutcome::Reply(self.handle_swo_extended_status(&c, response)),
            Ok(Command::SWOData(c)) => DispatchOutcome::Reply(self.handle_swo_data(&c, response)),
            Ok(Command::JTAGSequence(c)) => DispatchOutcome::Reply(self.handle_jtag_sequence(&c, response)),
            Ok(Command::JTAGConfigure(c)) => DispatchOutcome::Reply(self.handle_jtag_configure(&c, response)),
            Ok(Command::JTAGIDCode(c)) => DispatchOutcome::Reply(self.handle_jtag_idcode(&c, response)),
            Err(Error::UnsupportedCommand(_)) => DispatchOutcome::Unrecognized,
            Err(_) => match Error::respond(response) {
                Ok(n) => DispatchOutcome::Reply(n),
                Err(_) => DispatchOutcome::Reply(0),
            },
        }
    }
}


impl<'a, P: JTAGAccessPort + SWJAccessPort + SWDAccessPort, R: Reactor, SWO: SWOAccessBehavior> Dispatcher<
    'a,
    P,
    R,
    SWO,
> {
    /// Answers an info request: the protocol version, the capabilities, the
    /// trace buffer size, the packet count and size, and the firmware
    /// version when the reactor has one (and the reply has room for it).
    fn handle_info(&mut self, command: &InfoCommand, response: &mut [u8]) -> (r: usize)
        requires
            old(response)@.len() >= MAX_PACKET_SIZE,
        ensures
            command.payload()[0] != 9 ==> *final(self) == *old(self),
            command.payload()[0] == 9 ==> ({
                let versions = final(self).firmware_versions.versions();
                let d = spec_fw_version_data(versions.last(), old(response)@.len() as int);
                &&& final(self).dap == old(self).dap
                &&& final(self).swo == old(self).swo
                &&& final(self).reactor == old(self).reactor
                &&& final(self).abort_checks == old(self).abort_checks
                &&& versions.len() == old(self).firmware_versions.versions().len() + 1
                &&& versions.drop_last() == old(self).firmware_versions.versions()
                &&& r == 2 + d.len()
                &&& final(response)@ == spec_info_reply(old(response)@, d)
            }),
            final(response)@.len() == old(response)@.len(),
            r <= old(response)@.len(),
            command.payload()[0] != 9 ==> ({
                let d = spec_info_data(
                    command.payload()[0],
                    <P as SWDAccessPort>::SUPPORTED,
                    <P as JTAGAccessPort>::SUPPORTED,
                    SWO::SUPPORTS_UART,
                    SWO::SUPPORTS_MANCHESTER,
                    SWO::BUFFER_SIZE,
                );
                r == 2 + d.len() && final(response)@ == spec_info_reply(old(response)@, d)
            }),
            command.payload()[0] == 9 ==> exists|d: Seq<u8>|
                d.len() + 2 <= old(response)@.len() && r == 2 + d.len() && final(response)@ == spec_info_reply(
                    old(response)@,
                    d,
                ),
    {
        let ghost b0 = response@;
        let resp = match InfoResponse::try_alloc(response) {
            Ok(p) => p,
            Err(_) => {
                return 0;
            },
        };
        let id = command.get_id();
        let room = resp.inner.buf.len() - 2;
        proof {
            assert(spec_splice(b0, 2, Seq::empty()) =~= b0);
            assert(spec_info_reply(b0, Seq::empty()) == b0.update(1, 0u8).update(0, 0u8));
        }
        if id == 4 {
            let v = DAP_PROTOCOL_VERSION;
            assert(v@ =~= seq![0x32u8, 0x2Eu8, 0x31u8, 0x2Eu8, 0x31u8]);
            resp.commit_bytes(v.as_slice())
        } else if id == 9 {
            let version = ask_firmware_version(self.reactor, &mut self.firmware_versions);
            proof {
                assert(self.firmware_versions.versions().drop_last() =~= old(self).firmware_versions.versions());
            }
            match version {
                Some(fw) => {
                    let b = fw.as_bytes();
                    if b.len() <= room {
                        resp.commit_bytes(b)
                    } else {
                        resp.commit(0)
                    }
                },
                None => resp.commit(0),
            }
        } else if id == 0xF0 {
            let cap: u8 = (if <P as SWDAccessPort>::SUPPORTED { 0x01u8 } else { 0u8 }) | (if <P as JTAGAccessPort>::SUPPORTED {
                0x02u8
            } else {
                0u8
            }) | (if SWO::SUPPORTS_UART { 0x04u8 } else { 0u8 }) | (if SWO::SUPPORTS_MANCHESTER { 0x08u8 } else { 0u8 })
                | 0x40u8;
            let b = [cap];
            resp.commit_bytes(b.as_slice())
        } else if id == 0xFD {
            let b = u32_to_le_bytes(#[verifier::truncate] (SWO::BUFFER_SIZE as u32));
            resp.commit_bytes(b.as_slice())
        } else if id == 0xFE {
            let b = [1u8];
            resp.commit_bytes(b.as_slice())
        } else if id == 0xFF {
            let b = [64u8, 0u8];
            resp.commit_bytes(b.as_slice())
        } else {
            resp.commit(0)
        }
    }

    /// Acknowledges a host status report; the reactor is told of it by the
    /// caller.
    fn handle_host_status(&self, command: &HostStatusCommand, response: &mut [u8]) -> (r: (HostStatus, usize))
        requires
            old(response)@.len() >= MAX_PACKET_SIZE,
        ensures
            r.1 == 2,
            r.0 == crate::cmsis_dap::protocol::general::spec_host_status(command.payload()[0], command.payload()[1]),
            final(response)@ == spec_status_reply(old(response)@, CommandType::HostStatus, 0),
    {
        let status = command.get();
        match HostStatusResponse::try_alloc(response) {
            Ok(resp) => (status, resp.commit()),
            Err(_) => (status, 0),
        }
    }

    /// Connects in the requested mode; the reply is the mode connected, or 0.
    fn handle_connect(&mut self, command: &ConnectCommand, response: &mut [u8]) -> (r: usize)
        requires
            old(self).wf(),
            old(response)@.len() >= MAX_PACKET_SIZE,
        ensures
            final(self).wf(),
            r == 2,
            final(self).dap.transfer_config == old(self).dap.transfer_config,
            final(self).swo == old(self).swo,
            exists|b: u8|
                final(response)@ == spec_status_reply(old(response)@, CommandType::Connect, b)
                    && (b == 1 ==> final(self).dap.state == ConnectionState::SWD)
                    && (b == 2 ==> final(self).dap.state == ConnectionState::JTAG)
                    && (b == 0 ==> final(self).dap.state == old(self).dap.state) && (b == 0 || b == 1 || b == 2),
            final(response)@ == spec_status_reply(old(response)@, CommandType::Connect, final(response)@[1]),
            final(response)@[1] == 1 ==> command.payload()[0] == 0 || command.payload()[0] == 1,
            final(response)@[1] == 2 ==> command.payload()[0] == 2,
    {
        let resp = match ConnectResponse::try_alloc(response) {
            Ok(p) => p,
            Err(_) => {
                return 0;
            },
        };
        let mode = command.get_mode();
        match self.dap.connect(mode) {
            Ok(connected) => resp.commit_ok(connected),
            Err(_) => resp.commit_err(),
        }
    }

    /// Disconnects; a trace capture is switched off when that succeeds.
    fn handle_disconnect(&mut self, response: &mut [u8]) -> (r: usize)
        requires
            old(self).wf(),
            old(response)@.len() >= MAX_PACKET_SIZE,
        ensures
            final(self).wf(),
            r == 2,
            final(self).dap.state == ConnectionState::Disconnected,
            final(self).dap.transfer_config == old(self).dap.transfer_config,
            final(response)@ == spec_status_reply(old(response)@, CommandType::Disconnect, 0) || final(response)@
                == spec_status_reply(old(response)@, CommandType::Disconnect, 0xFF),
            old(self).dap.state == ConnectionState::Disconnected ==> final(response)@ == spec_status_reply(
                old(response)@,
                CommandType::Disconnect,
                0,
            ),
    {
        let resp = match DisconnectResponse::try_alloc(response) {
            Ok(p) => p,
            Err(_) => {
                return 0;
            },
        };
        if self.dap.disconnect() {
            match &mut self.swo {
                Some(swo) => {
                    swo.set_mode(SWOMode::Off);
                },
                None => {},
            }
            resp.commit_ok()
        } else {
            resp.commit_err()
        }
    }

    /// Sets the idle cycles and the WAIT and match retry counts.
    fn handle_transfer_configure(&mut self, command: &TransferConfigureCommand, response: &mut [u8]) -> (r: usize)
        requires
            old(self).wf(),
            old(response)@.len() >= MAX_PACKET_SIZE,
        ensures
            final(self).wf(),
            r == 2,
            final(self).dap.state == old(self).dap.state,
            final(self).dap.transfer_config.idle_cycles == command.payload()[0],
            final(self).dap.transfer_config.wait_retry == spec_u16_le(command.payload(), 1),
            final(self).dap.transfer_config.match_retry == spec_u16_le(command.payload(), 3),
            final(self).dap.transfer_config.match_mask == old(self).dap.transfer_config.match_mask,
            final(self).dap.transfer_config.swd == old(self).dap.transfer_config.swd,
            final(self).dap.transfer_config.jtag == old(self).dap.transfer_config.jtag,
            final(response)@ == spec_status_reply(old(response)@, CommandType::TransferConfigure, 0),
    {
        let resp = match status_reply(response, CommandType::TransferConfigure) {
            Ok(p) => p,
            Err(_) => {
                return 0;
            },
        };
        self.dap.transfer_config.idle_cycles = command.get_idle_cycles() as usize;
        self.dap.transfer_config.wait_retry = command.get_wait_retry() as usize;
        self.dap.transfer_config.match_retry = command.get_match_retry() as usize;
        resp.commit_with_status(0)
    }

    /// Writes the DP abort register; the reply is 0, or 0xFF when the
    /// write failed or the port is not connected.
    fn handle_write_abort(&mut self, command: &WriteAbortCommand, response: &mut [u8], abort: &AbortToken) -> (r: usize)
        requires
            old(self).wf(),
            old(response)@.len() >= MAX_PACKET_SIZE,
        ensures
            final(self).wf(),
            r == 2,
            final(self).dap.state == old(self).dap.state,
            final(self).dap.transfer_config == old(self).dap.transfer_config,
            spec_abort_served(
                old(self).dap.state,
                old(self).dap.transfer_config,
                command.payload()[0],
                crate::bytes::spec_u32_le(command.payload(), 1),
                old(response)@,
                final(response)@,
                spec_added(old(self).dap.wire@, final(self).dap.wire@),
            ),
    {
        let resp = match WriteAbortResponse::try_alloc(response) {
            Ok(p) => p,
            Err(_) => {
                return 0;
            },
        };
        let index = command.get_dap_index();
        let data = command.get_abort_value();
        let ghost s0 = self.dap;
        let status = self.dap.write_abort(index, data, abort);
        proof {
            let ev = spec_added(s0.wire@, self.dap.wire@);
            if !s0.engaged(index) {
                assert(ev =~= Seq::<WireEvent>::empty());
            }
            assert(spec_abort_traffic(s0.state, s0.transfer_config, index, data, ev, status));
        }
        if status.has_errors() {
            resp.commit_err()
        } else {
            resp.commit_ok()
        }
    }

    /// Acknowledges a delay request; the caller waits before replying.
    fn handle_delay(&self, command: &DelayCommand, response: &mut [u8]) -> (r: (u16, usize))
        requires
            old(response)@.len() >= MAX_PACKET_SIZE,
        ensures
            r.0 == spec_u16_le(command.payload(), 0),
            r.1 == 2,
            final(response)@ == spec_status_reply(old(response)@, CommandType::Delay, 0),
    {
        let us = command.get_delay_us();
        match DelayResponse::try_alloc(response) {
            Ok(resp) => (us, resp.commit_ok()),
            Err(_) => (us, 0),
        }
    }

    /// Answers a target reset request: no device-specific reset is done.
    fn handle_reset_target(&self, response: &mut [u8]) -> (r: usize)
        requires
            old(response)@.len() >= MAX_PACKET_SIZE,
        ensures
            r == 3,
            final(response)@ == spec_reset_reply(old(response)@, 0, false),
    {
        let mut resp = match ResetTargetResponse::try_alloc(response) {
            Ok(p) => p,
            Err(_) => {
                return 0;
            },
        };
        resp.set_device_specific(false);
        resp.commit_ok()
    }

    /// Drives the selected SWJ pins and replies with the levels read.
    fn handle_swj_pins(&mut self, command: &SWJPinsCommand, response: &mut [u8]) -> (r: usize)
        requires
            old(self).wf(),
            old(response)@.len() >= MAX_PACKET_SIZE,
        ensures
            final(self).wf(),
            r == 2,
            final(self).dap.state == old(self).dap.state,
            final(self).dap.transfer_config == old(self).dap.transfer_config,
            final(response)@ == spec_status_reply(old(response)@, CommandType::SWJPins, final(response)@[1]),
            final(self).dap.wire@ == old(self).dap.wire@.push(
                WireEvent::SwjPins {
                    output: command.payload()[0],
                    select: command.payload()[1],
                    wait_us: crate::bytes::spec_u32_le(command.payload(), 2),
                    input: final(response)@[1],
                },
            ),
    {
        let resp = match SWJPinsResponse::try_alloc(response) {
            Ok(p) => p,
            Err(_) => {
                return 0;
            },
        };
        self.reactor.activity();
        let input_pins = self.dap.swj_pins(command.get_output_pins(), command.get_selected_pins(), command.get_wait_us());
        resp.commit(input_pins)
    }

    /// Sets the SWJ clock; the reply is 0, or 0xFF when the port refused.
    fn handle_swj_clock(&mut self, command: &SWJClockCommand, response: &mut [u8]) -> (r: usize)
        requires
            old(self).wf(),
            old(response)@.len() >= MAX_PACKET_SIZE,
        ensures
            final(self).wf(),
            r == 2,
            final(self).dap.state == old(self).dap.state,
            final(self).dap.transfer_config == old(self).dap.transfer_config,
            final(response)@ == spec_status_reply(old(response)@, CommandType::SWJClock, 0) || final(response)@
                == spec_status_reply(old(response)@, CommandType::SWJClock, 0xFF),
            final(self).dap.wire@ == old(self).dap.wire@.push(
                WireEvent::SwjClock { freq_hz: crate::bytes::spec_u32_le(command.payload(), 0), ok: final(response)@[1] == 0 },
            ),
    {
        let resp = match SWJClockResponse::try_alloc(response) {
            Ok(p) => p,
            Err(_) => {
                return 0;
            },
        };
        if self.dap.swj_clock(command.get_freq_hz()) {
            resp.commit_ok()
        } else {
            resp.commit_err()
        }
    }

    /// Clocks out an SWJ sequence; the reply is 0, or 0xFF on failure.
    fn handle_swj_sequence(&mut self, command: &SWJSequenceCommand, response: &mut [u8]) -> (r: usize)
        requires
            old(self).wf(),
            old(response)@.len() >= MAX_PACKET_SIZE,
        ensures
            final(self).wf(),
            r == 2,
            final(self).dap.state == old(self).dap.state,
            final(self).dap.transfer_config == old(self).dap.transfer_config,
            final(response)@ == spec_status_reply(old(response)@, CommandType::SWJSequence, 0) || final(response)@
                == spec_status_reply(old(response)@, CommandType::SWJSequence, 0xFF),
            final(self).dap.wire@ == old(self).dap.wire@.push(
                WireEvent::SwjSequence {
                    num_bits: crate::cmsis_dap::protocol::swj::spec_swj_num_bits(command.payload()[0]) as usize,
                    data: command.payload().skip(1),
                    ok: final(response)@[1] == 0,
                },
            ),
    {
        let resp = match SWJSequenceResponse::try_alloc(response) {
            Ok(p) => p,
            Err(_) => {
                return 0;
            },
        };
        self.reactor.activity();
        let (num_bits, data) = command.get_sequence();
        if self.dap.swj_sequence(num_bits, data) {
            resp.commit_ok()
        } else {
            resp.commit_err()
        }
    }

    /// Sets the SWD turnaround and data phase.
    fn handle_swd_configure(&mut self, command: &SWDConfigureCommand, response: &mut [u8]) -> (r: usize)
        requires
            old(self).wf(),
            old(response)@.len() >= MAX_PACKET_SIZE,
        ensures
            final(self).wf(),
            r == 2,
            final(self).dap.state == old(self).dap.state,
            final(self).dap.transfer_config.swd.turnaround == (command.payload()[0] & 0x03) + 1,
            final(self).dap.transfer_config.swd.always_data_phase == (command.payload()[0] & 0x04 != 0),
            final(self).dap.transfer_config.jtag == old(self).dap.transfer_config.jtag,
            final(response)@ == spec_status_reply(old(response)@, CommandType::SWDConfigure, 0),
    {
        let resp = match SWDConfigureResponse::try_alloc(response) {
            Ok(p) => p,
            Err(_) => {
                return 0;
            },
        };
        let turnaround = command.get_turnaround();
        let ghost b: u8 = command.payload()[0];
        assert(b & 0x03 <= 3) by (bit_vector);
        self.dap.transfer_config.swd.turnaround = turnaround;
        self.dap.transfer_config.swd.always_data_phase = command.get_always_data_phase();
        resp.commit_ok()
    }

    /// Sets the JTAG chain's IR lengths; refused (0xFF) for more devices
    /// than the chain can hold.
    fn handle_jtag_configure(&mut self, command: &JTAGConfigureCommand, response: &mut [u8]) -> (r: usize)
        requires
            old(self).wf(),
            old(response)@.len() >= MAX_PACKET_SIZE,
            command.payload()[0] <= 64 ==> command.payload()[0] >= 1 && spec_chain_selectable(
                command.payload().subrange(1, 1 + command.payload()[0]),
            ),
        ensures
            final(self).wf(),
            r == 2,
            final(self).dap.state == old(self).dap.state,
            command.payload()[0] <= 64 ==> final(self).dap.transfer_config.jtag.device_count == command.payload()[0]
                && final(self).dap.transfer_config.jtag.ir_lengths@.take(command.payload()[0] as int)
                == command.payload().subrange(1, 1 + command.payload()[0])
                && final(response)@ == spec_status_reply(old(response)@, CommandType::JTAGConfigure, 0),
            command.payload()[0] > 64 ==> final(self).dap.transfer_config == old(self).dap.transfer_config
                && final(response)@ == spec_status_reply(old(response)@, CommandType::JTAGConfigure, 0xFF),
    {
        let resp = match status_reply(response, CommandType::JTAGConfigure) {
            Ok(p) => p,
            Err(_) => {
                return 0;
            },
        };
        let ir_lengths = command.get_ir_lengths();
        let n = ir_lengths.len();
        if n <= 64 {
            let ghost lens = ir_lengths@;
            let mut i: usize = 0;
            while i < n
                invariant
                    n == ir_lengths@.len(),
                    n <= 64,
                    i <= n,
                    lens == ir_lengths@,
                    self.dap.transfer_config.jtag.ir_before_bits@[0] == 0,
                    forall|k: int| 0 <= k < i ==> self.dap.transfer_config.jtag.ir_lengths@[k] == lens[k],
                    self.dap.state == old(self).dap.state,
                    self.swo == old(self).swo,
                    self.dap.transfer_config.idle_cycles == old(self).dap.transfer_config.idle_cycles,
                    self.dap.transfer_config.wait_retry == old(self).dap.transfer_config.wait_retry,
                    self.dap.transfer_config.match_retry == old(self).dap.transfer_config.match_retry,
                    self.dap.transfer_config.swd == old(self).dap.transfer_config.swd,
                decreases n - i,
            {
                self.dap.transfer_config.jtag.ir_lengths[i] = ir_lengths[i];
                i = i + 1;
            }
            self.dap.transfer_config.jtag.device_count = n;
            self.dap.transfer_config.jtag.recalculate();
            proof {
                let j = self.dap.transfer_config.jtag;
                assert(j.ir_lengths@.take(n as int) =~= lens);
                assert forall|k: int| 0 <= k <= n implies spec_ir_sum(j.ir_lengths@, k) == spec_ir_sum(lens, k) by {
                    lemma_ir_sum_prefix(j.ir_lengths@, n as int, k);
                }
                assert(j.selectable()) by {
                    assert forall|k: int| 0 <= k < j.device_count && spec_ir_sum(j.ir_lengths@, j.device_count as int)
                        == spec_ir_sum(j.ir_lengths@, k + 1) implies 1 <= #[trigger] j.ir_lengths@[k] <= 8 by {
                        lemma_ir_sum_prefix(j.ir_lengths@, n as int, k + 1);
                        lemma_ir_sum_prefix(j.ir_lengths@, n as int, n as int);
                        assert(lens[k] == j.ir_lengths@[k]);
                    }
                }
            }
            resp.commit_with_status(0)
        } else {
            resp.commit_with_status(0xFF)
        }
    }

    /// Reads the ID code of a JTAG device; 0xFF when there is none to read.
    fn handle_jtag_idcode(&mut self, command: &JTAGIDCodeCommand, response: &mut [u8]) -> (r: usize)
        requires
            old(self).wf(),
            old(response)@.len() >= MAX_PACKET_SIZE,
        ensures
            final(self).wf(),
            r == 6,
            final(self).dap.state == old(self).dap.state,
            final(self).dap.transfer_config == old(self).dap.transfer_config,
            spec_idcode_served(
                old(self).dap.state,
                old(self).dap.transfer_config,
                command.payload()[0],
                old(response)@,
                final(response)@,
                spec_added(old(self).dap.wire@, final(self).dap.wire@),
            ),
    {
        let resp = match JTAGIDCodeResponse::try_alloc(response) {
            Ok(p) => p,
            Err(_) => {
                return 0;
            },
        };
        self.reactor.activity();
        match self.dap.jtag_read_idcode(command.get_index()) {
            Some(idcode) => resp.commit_ok(idcode),
            None => resp.commit_err(),
        }
    }
}


impl<'a, P: JTAGAccessPort + SWJAccessPort + SWDAccessPort, R: Reactor, SWO: SWOAccessBehavior> Dispatcher<
    'a,
    P,
    R,
    SWO,
> {
    /// Carries out the transfers of a transfer request, in order, until one
    /// fails to fit the reply, the request runs out, or the abort token is
    /// set; a match mask write only sets the mask.
    #[verifier::spinoff_prover]
    #[verifier::rlimit(50)]
    fn handle_transfer(&mut self, command: &TransferCommand, response: &mut [u8], abort: &AbortToken) -> (r: usize)
        requires
            old(self).wf(),
            old(response)@.len() >= MAX_PACKET_SIZE,
        ensures
            final(self).wf(),
            final(self).dap.state == old(self).dap.state,
            final(self).dap.transfer_config.jtag == old(self).dap.transfer_config.jtag,
            final(self).dap.transfer_config.swd == old(self).dap.transfer_config.swd,
            final(self).dap.transfer_config.idle_cycles == old(self).dap.transfer_config.idle_cycles,
            final(self).dap.transfer_config.wait_retry == old(self).dap.transfer_config.wait_retry,
            final(self).dap.transfer_config.match_retry == old(self).dap.transfer_config.match_retry,
            3 <= r <= old(response)@.len(),
            final(response)@.len() == old(response)@.len(),
            spec_transfer_served(
                old(self).dap.engaged(command.payload()[0]),
                old(self).dap.transfer_config.match_mask,
                final(self).dap.transfer_config.match_mask,
                command.payload(),
                old(response)@,
                final(response)@,
                r,
                old(self).dap.state,
                old(self).dap.transfer_config,
                spec_added(old(self).dap.wire@, final(self).dap.wire@),
                final(self).abort_checks.answers().skip(old(self).abort_checks.answers().len() as int),
            ),
            spec_extends(old(self).dap.wire@, final(self).dap.wire@),
            final(self).abort_checks.answers().take(old(self).abort_checks.answers().len() as int)
                == old(self).abort_checks.answers(),
    {
        let ghost fin = final(response)@;
        let ghost c0 = self.abort_checks.answers();
        let ghost a = response@;
        let ghost p = command.payload();
        let ghost engaged = self.dap.engaged(p[0]);
        let ghost w0 = self.dap.wire@;
        let ghost state0 = self.dap.state;
        let ghost config0 = self.dap.transfer_config;
        let ghost mut segs: Seq<Seq<WireEvent>> = Seq::empty();
        let ghost mask0 = self.dap.transfer_config.match_mask;
        let ghost total = spec_transfers(p, 2, p[1] as nat);
        let mut resp = match TransferResponse::try_alloc(response) {
            Ok(p) => p,
            Err(_) => {
                return 0;
            },
        };
        let ghost len = resp.inner.buf@.len();
        let index = command.get_index();
        let mut transfers = command.get_transfers();
        let ghost mut done: Seq<(TransferRequest, u32)> = Seq::empty();
        let ghost mut outs: Seq<(TransferStatus, u32, u32)> = Seq::empty();
        proof {
            assert(total =~= done + spec_transfers(p, transfers.packet_index as int, transfers.requests as nat));
            assert(total.take(0) =~= done);
            assert(spec_transfer_words(a, done, outs) == a);
        }
        loop
            invariant_except_break
                total == done + spec_transfers(p, transfers.packet_index as int, transfers.requests as nat),
                forall|j: int|
                    0 <= j < done.len() ==> !#[trigger] self.abort_checks.answers().skip(c0.len() as int)[j],
            invariant
                c0 == old(self).abort_checks.answers(),
                self.abort_checks.answers().take(c0.len() as int) == c0,
                self.abort_checks.answers().len() == c0.len() + done.len(),
                resp.wf(),
                resp.inner.buf@.len() == len,
                len == a.len(),
                len >= MAX_PACKET_SIZE,
                resp.response_count + transfers.requests <= 255,
                final(resp.inner.buf)@ == fin,
                self.wf(),
                self.dap.state == old(self).dap.state,
                self.swo == old(self).swo,
                self.dap.transfer_config.jtag == old(self).dap.transfer_config.jtag,
                self.dap.transfer_config.swd == old(self).dap.transfer_config.swd,
                self.dap.transfer_config.idle_cycles == old(self).dap.transfer_config.idle_cycles,
                self.dap.transfer_config.wait_retry == old(self).dap.transfer_config.wait_retry,
                self.dap.transfer_config.match_retry == old(self).dap.transfer_config.match_retry,
                transfers.payload@ == p,
                index == p[0],
                engaged == self.dap.engaged(index),
                done.len() <= total.len(),
                total.take(done.len() as int) == done,
                outs.len() == done.len(),
                resp.response_count == done.len(),
                resp.payload_index == 2 + spec_reply_len(done),
                resp.inner.buf@ == spec_transfer_words(a, done, outs),
                self.dap.transfer_config.match_mask == spec_last_mask(done, mask0),
                forall|j: int| 0 <= j < done.len() ==> spec_transfer_outcome_ok(engaged, #[trigger] done[j].0, outs[j]),
                state0 == old(self).dap.state,
                config0 == old(self).dap.transfer_config,
                w0 == old(self).dap.wire@,
                mask0 == old(self).dap.transfer_config.match_mask,
                spec_extends(w0, self.dap.wire@),
                segs.len() == done.len(),
                spec_concat(segs) == spec_added(w0, self.dap.wire@),
                forall|j: int|
                    0 <= j < done.len() ==> spec_transfer_traffic(
                        state0,
                        config0,
                        p[0],
                        spec_last_mask(done.take(j), mask0),
                        done[j].0,
                        done[j].1,
                        #[trigger] segs[j],
                        outs[j],
                    ),
            ensures
                total.len() >= 1 ==> done.len() >= 1,
                forall|j: int|
                    0 <= j < done.len() - 1 ==> !#[trigger] self.abort_checks.answers().skip(c0.len() as int)[j],
                done.len() < total.len() ==> 3 + spec_reply_len(total.take(done.len() + 1int)) > len || (done.len() >= 1
                    && self.abort_checks.answers().skip(c0.len() as int)[done.len() - 1]),
            decreases transfers.requests,
        {
            let ghost idx = transfers.packet_index as int;
            let ghost reqs = transfers.requests as nat;
            let next = transfers.next();
            match next {
                None => {
                    assert(spec_transfers(p, idx, reqs) =~= Seq::<(TransferRequest, u32)>::empty());
                    assert(total =~= done);
                    break;
                },
                Some((request, data)) => {
                    let ghost rest = spec_transfers(p, transfers.packet_index as int, transfers.requests as nat);
                    assert(spec_transfers(p, idx, reqs) == seq![(request, data)] + rest);
                    assert(total =~= done.push((request, data)) + rest);
                    assert(total.take(done.len() + 1int) =~= done.push((request, data)));
                    match resp.try_allocate_response(request) {
                        None => {
                            assert(done.len() >= 1) by {
                                if done.len() == 0 {
                                    assert(spec_reply_len(done) == 0);
                                }
                            }
                            proof {
                                let d2 = done.push((request, data));
                                assert(d2.drop_last() =~= done);
                                assert(spec_reply_len(d2) == spec_reply_len(done) + spec_response_len(request));
                                assert(total.take(done.len() + 1int) == d2);
                            }
                            break;
                        },
                        Some(one) => {
                            let ghost wb = self.dap.wire@;
                            let ghost maskb = self.dap.transfer_config.match_mask;
                            self.reactor.activity();
                            let timestamp = if request.timestamp() {
                                Some(#[verifier::truncate] (now_ticks() as u32))
                            } else {
                                None
                            };
                            let ghost time: u32 = match timestamp {
                                Some(t) => t,
                                None => 0,
                            };
                            let ghost out: (TransferStatus, u32, u32);
                            let register = request.get_register();
                            if request.is_read() {
                                if request.is_value_match() {
                                    let status = self.dap.transfer_read_match(index, register, data, abort);
                                    one.commit(status, None, None);
                                    proof {
                                        out = (status, 0u32, time);
                                    }
                                } else {
                                    let (value, status) = self.dap.transfer_read(index, register, abort);
                                    one.commit(status, timestamp, Some(value));
                                    proof {
                                        out = (status, value, time);
                                    }
                                }
                            } else if request.is_match_mask() {
                                self.dap.transfer_config.match_mask = data;
                                one.commit(TransferStatus::ok(), None, None);
                                proof {
                                    out = (TransferStatus::spec_ok(), 0u32, time);
                                }
                            } else {
                                let status = self.dap.transfer_write(index, register, data, abort);
                                one.commit(status, timestamp, None);
                                proof {
                                    out = (status, 0u32, time);
                                }
                            }
                            proof {
                                let done2 = done.push((request, data));
                                let outs2 = outs.push(out);
                                let seg = spec_added(wb, self.dap.wire@);
                                let segs2 = segs.push(seg);
                                assert(done2.drop_last() =~= done);
                                assert(segs2.drop_last() =~= segs);
                                assert(spec_added(w0, self.dap.wire@) =~= spec_added(w0, wb) + seg);
                                assert(done2.take(done.len() as int) =~= done);
                                assert(spec_transfer_traffic(state0, config0, p[0], maskb, request, data, seg, out));
                                assert forall|j: int| 0 <= j < done2.len() implies spec_transfer_traffic(
                                    state0,
                                    config0,
                                    p[0],
                                    spec_last_mask(done2.take(j), mask0),
                                    done2[j].0,
                                    done2[j].1,
                                    #[trigger] segs2[j],
                                    outs2[j],
                                ) by {
                                    if j < done.len() {
                                        assert(done2.take(j) =~= done.take(j));
                                        assert(done2[j] == done[j]);
                                        assert(segs2[j] == segs[j]);
                                        assert(outs2[j] == outs[j]);
                                    }
                                }
                                segs = segs2;
                                lemma_transfer_words_prefix(a, done, outs, outs2);
                                assert(spec_reply_timestamp(request, out.2) == timestamp || request.spec_is_read()
                                    && request.spec_is_value_match() || !request.spec_is_read()
                                    && request.spec_is_match_mask());
                                assert forall|j: int| 0 <= j < done2.len() implies spec_transfer_outcome_ok(
                                    engaged,
                                    #[trigger] done2[j].0,
                                    outs2[j],
                                ) by {
                                    if j < done.len() {
                                        assert(done2[j] == done[j]);
                                        assert(outs2[j] == outs[j]);
                                    }
                                }
                                done = done2;
                                outs = outs2;
                            }
                        },
                    }
                },
            }
            let ghost ch0 = self.abort_checks.answers();
            let set = abort.check(&mut self.abort_checks);
            proof {
                let ch = self.abort_checks.answers();
                assert(ch.take(c0.len() as int) =~= c0) by {
                    assert(ch0.take(c0.len() as int) == c0);
                }
                assert forall|j: int| 0 <= j < done.len() - 1 implies !#[trigger] ch.skip(c0.len() as int)[j] by {
                    assert(ch.skip(c0.len() as int)[j] == ch0.skip(c0.len() as int)[j]);
                }
                assert(ch.skip(c0.len() as int)[done.len() - 1] == set);
            }
            if set {
                break;
            }
        }
        resp.commit()
    }

    /// Reads or writes a block of words through one register; the reply
    /// holds the count of transfers done, the last status and the words
    /// read.
    fn handle_transfer_block(&mut self, command: &TransferBlockCommand, response: &mut [u8], abort: &AbortToken) -> (r: usize)
        requires
            old(self).wf(),
            old(response)@.len() >= MAX_PACKET_SIZE,
            old(self).dap.engaged(command.payload()[0]) ==> spec_block_request_ok(command.payload()),
        ensures
            final(self).wf(),
            final(self).dap.state == old(self).dap.state,
            final(self).dap.transfer_config == old(self).dap.transfer_config,
            4 <= r <= old(response)@.len(),
            final(response)@.len() == old(response)@.len(),
            spec_block_served(
                old(self).dap.engaged(command.payload()[0]),
                command.payload(),
                old(response)@,
                final(response)@,
                r,
                old(self).dap.state,
                old(self).dap.transfer_config,
                spec_added(old(self).dap.wire@, final(self).dap.wire@),
            ),
    {
        let ghost a = response@;
        let ghost p = command.payload();
        let ghost engaged = self.dap.engaged(p[0]);
        let ghost w0 = self.dap.wire@;
        let mut resp = match TransferBlockResponse::try_alloc(response) {
            Ok(p) => p,
            Err(_) => {
                return 0;
            },
        };
        let ghost len = resp.inner.buf@.len();
        self.reactor.activity();
        let index = command.get_index();
        let request = command.get_request();
        let count = command.get_count();
        if request.is_read() {
            let ghost before = resp.inner.buf@;
            let ghost mut words: Seq<u8> = Seq::empty();
            let (done, status) = {
                let data = resp.get_data_mut();
                let wanted = count * 4;
                let block_size = if data.len() < wanted { data.len() } else { wanted };
                let (block, rest) = data.split_at_mut(block_size);
                let ghost block0 = block@;
                let ghost rest0 = rest@;
                let res = self.dap.transfer_read_block(index, request.get_register(), block, abort);
                proof {
                    words = block@.take(4 * res.0);
                    assert(block0.len() / 4 == if count <= (len - 4) / 4 { count as int } else { (len - 4) / 4 }) by (nonlinear_arith)
                        requires
                            block0.len() == if len - 4 < count * 4 { len - 4 } else { count * 4 },
                            len >= 4,
                    ;
                    assert(before.take(4) + (block@ + rest0) =~= spec_splice(a, 4, words)) by {
                        assert forall|j: int| 4 * res.0 <= j < block0.len() implies block@[j] == block0[j] by {}
                    }
                    let size = block0.len() as int;
                    assert(block0 =~= a.subrange(4, 4 + size));
                    assert(block@ =~= spec_splice(a, 4, words).subrange(4, 4 + size));
                    assert(spec_block_traffic(
                        self.dap.state,
                        self.dap.transfer_config,
                        p[0],
                        true,
                        TransferRequest(p[3]).spec_register(),
                        a.subrange(4, 4 + size),
                        spec_splice(a, 4, words).subrange(4, 4 + size),
                        spec_added(w0, self.dap.wire@),
                        res,
                    ));
                }
                res
            };
            assert(done * 4 + 4 <= len) by (nonlinear_arith)
                requires
                    done <= (len - 4) / 4,
                    len >= 4,
            ;
            assert(resp.inner.buf@ == spec_splice(a, 4, words));
            resp.set_status(status);
            let r = resp.commit_with_data(done);
            assert(final(response)@ == spec_block_reply(a, words, status, done as int));
            r
        } else {
            let data = command.get_data();
            let wanted = count * 4;
            let block_size = if data.len() < wanted { data.len() } else { wanted };
            let block = vstd::slice::slice_subrange(data, 0, block_size);
            let (done, status) = self.dap.transfer_write_block(index, request.get_register(), block, abort);
            resp.set_status(status);
            let r = resp.commit_without_data(done);
            proof {
                assert(block@.len() / 4 == if count <= (p.len() - 4) / 4 { count as int } else { (p.len() - 4) / 4 }) by (nonlinear_arith)
                    requires
                        block@.len() == if p.len() - 4 < count * 4 { p.len() - 4 } else { count * 4 },
                        p.len() >= 4,
                ;
                assert(spec_splice(a, 4, Seq::<u8>::empty()) =~= a);
                assert(final(response)@ == spec_block_reply(a, Seq::<u8>::empty(), status, done as int));
                let size = block@.len() as int;
                assert(block@ =~= p.subrange(4, 4 + size));
                assert(spec_block_traffic(
                    self.dap.state,
                    self.dap.transfer_config,
                    p[0],
                    false,
                    TransferRequest(p[3]).spec_register(),
                    p.subrange(4, 4 + size),
                    p.subrange(4, 4 + size),
                    spec_added(w0, self.dap.wire@),
                    (done, status),
                ));
            }
            r
        }
    }

    /// Runs the sequences of an SWD sequence request, in order: output
    /// sequences are written, input sequences read into the reply. The
    /// first failure ends the request with status 0xFF.
    fn handle_swd_sequence(&mut self, command: &SWDSequenceCommand, response: &mut [u8]) -> (r: usize)
        requires
            old(self).wf(),
            old(response)@.len() >= MAX_PACKET_SIZE,
        ensures
            final(self).wf(),
            final(self).dap.state == old(self).dap.state,
            final(self).dap.transfer_config == old(self).dap.transfer_config,
            2 <= r <= old(response)@.len(),
            final(response)@.len() == old(response)@.len(),
            final(response)@[0] == 0x1D,
            final(response)@[1] == 0 || final(response)@[1] == 0xFF,
            final(response)@[1] == 0 ==> r == 2 + spec_swd_read_len(
                command.payload(),
                1,
                command.payload()[0] as nat,
                old(response)@.len() - 2,
            ),
            old(self).dap.state != ConnectionState::SWD && command.payload()[0] >= 1 && spec_swd_sequence_at(
                command.payload(),
                1,
            ) is Some ==> r == 2 && final(response)@ == old(response)@.update(1, 0xFFu8).update(0, 0x1Du8),
            ({
                let p = command.payload();
                let ev = spec_added(old(self).dap.wire@, final(self).dap.wire@);
                let room = old(response)@.len() - 2;
                if old(self).dap.state == ConnectionState::SWD {
                    &&& spec_swd_seq_calls(p, 1, p[0] as nat, room, ev)
                    &&& (final(response)@[1] == 0 <==> spec_calls_ok(ev))
                    &&& final(response)@[1] == 0 ==> final(response)@.subrange(2, r as int) == spec_swd_read_bytes(ev)
                } else {
                    &&& ev.len() == 0
                    &&& (final(response)@[1] == 0 <==> spec_swd_seq_calls(p, 1, p[0] as nat, room, ev))
                }
            }),
    {
        let ghost fin = final(response)@;
        let ghost w0 = self.dap.wire@;
        let ghost a = response@;
        let ghost p = command.payload();
        let ghost connected = self.dap.state == ConnectionState::SWD;
        let mut resp = match SWDSequenceResponse::try_alloc(response) {
            Ok(p) => p,
            Err(_) => {
                return 0;
            },
        };
        let ghost len = resp.inner.buf@.len();
        let ghost total = spec_swd_read_len(p, 1, p[0] as nat, len - 2);
        self.reactor.activity();
        let mut sequences = command.sequences();
        let mut failed = false;
        loop
            invariant_except_break
                !failed,
                !connected ==> sequences.payload_index == 1 && sequences.sequences_left == p[0],
                connected ==> forall|x: Seq<WireEvent>|
                    #[trigger] spec_swd_seq_calls(
                        p,
                        sequences.payload_index as int,
                        sequences.sequences_left as nat,
                        len - 1 - resp.packet_index,
                        x,
                    ) ==> spec_swd_seq_calls(p, 1, p[0] as nat, len - 2, spec_added(w0, self.dap.wire@) + x),
            invariant
                resp.wf(),
                resp.inner.buf@.len() == len,
                len == old(response)@.len(),
                len >= MAX_PACKET_SIZE,
                a.len() == len,
                final(resp.inner.buf)@ == fin,
                self.wf(),
                self.dap.state == old(self).dap.state,
                self.swo == old(self).swo,
                self.dap.transfer_config == old(self).dap.transfer_config,
                sequences.payload@ == p,
                connected == (self.dap.state == ConnectionState::SWD),
                !failed ==> resp.packet_index - 1 + spec_swd_read_len(
                    p,
                    sequences.payload_index as int,
                    sequences.sequences_left as nat,
                    len - 1 - resp.packet_index,
                ) == total,
                !connected ==> resp.inner.buf@ == a && resp.packet_index == 1,
                !connected ==> self.dap.wire@ == w0,
                spec_extends(w0, self.dap.wire@),
                w0 == old(self).dap.wire@,
                connected && !failed ==> spec_calls_ok(spec_added(w0, self.dap.wire@)),
                connected && !failed ==> resp.inner.buf@.subrange(2, 1 + resp.packet_index) == spec_swd_read_bytes(
                    spec_added(w0, self.dap.wire@),
                ),
            ensures
                !failed ==> resp.packet_index - 1 == total,
                !connected && p[0] >= 1 && spec_swd_sequence_at(p, 1) is Some ==> failed,
                !connected && failed ==> p[0] >= 1 && spec_swd_sequence_at(p, 1) is Some,
                connected ==> spec_swd_seq_calls(p, 1, p[0] as nat, len - 2, spec_added(w0, self.dap.wire@)),
                connected ==> (!failed <==> spec_calls_ok(spec_added(w0, self.dap.wire@))),
            decreases sequences.sequences_left,
        {
            let ghost idx0 = sequences.payload_index as int;
            let ghost left0 = sequences.sequences_left as nat;
            let ghost room0 = len - 1 - resp.packet_index;
            let ghost ev0 = spec_added(w0, self.dap.wire@);
            match sequences.next() {
                None => {
                    assert(spec_swd_read_len(p, idx0, left0, room0) == 0);
                    proof {
                        if connected {
                            assert(spec_swd_seq_calls(p, idx0, left0, room0, Seq::<WireEvent>::empty()));
                            assert(ev0 + Seq::<WireEvent>::empty() =~= ev0);
                        }
                    }
                    break;
                },
                Some((num_bits, data)) => {
                    assert(num_bits <= 63);
                    let ghost next = sequences.payload_index as int;
                    let ghost pi0 = resp.packet_index as int;
                    if data.len() > 0 {
                        let ok = self.dap.swd_write_sequence(num_bits, data);
                        proof {
                            if connected {
                                let ev1 = spec_added(w0, self.dap.wire@);
                                let e = ev1.last();
                                assert(ev1 =~= ev0.push(e));
                                assert(ev1.drop_last() =~= ev0);
                                assert forall|x: Seq<WireEvent>|
                                    #[trigger] spec_swd_seq_calls(p, next, (left0 - 1) as nat, room0, x) && spec_call_ok(e)
                                        implies spec_swd_seq_calls(p, 1, p[0] as nat, len - 2, ev1 + x) by {
                                    let y = seq![e] + x;
                                    assert(y[0] == e);
                                    assert(y.drop_first() =~= x);
                                    assert(spec_swd_seq_calls(p, idx0, left0, room0, y));
                                    assert(ev0 + y =~= ev1 + x);
                                }
                                if !ok {
                                    let y = seq![e];
                                    assert(spec_swd_seq_calls(p, idx0, left0, room0, y));
                                    assert(ev0 + y =~= ev1);
                                    assert(!spec_call_ok(ev1[ev1.len() - 1]));
                                } else {
                                    assert forall|j: int| 0 <= j < ev1.len() implies spec_call_ok(#[trigger] ev1[j]) by {
                                        if j < ev0.len() {
                                            assert(ev1[j] == ev0[j]);
                                        }
                                    }
                                    assert(spec_swd_read_bytes(ev1) =~= spec_swd_read_bytes(ev0));
                                }
                            }
                        }
                        if !ok {
                            failed = true;
                            break;
                        }
                    } else {
                        match resp.try_alloc_data(num_bits) {
                            Some(mut room) => {
                                let ghost buf0 = room.parent.inner.buf@;
                                let ghost at = 1 + room.parent.packet_index;
                                let ghost nb = room.num_bytes as int;
                                let buf = room.data();
                                let ghost data0 = buf@;
                                let ok = self.dap.swd_read_sequence(num_bits, buf);
                                let ghost dfin = buf@;
                                proof {
                                    if connected {
                                        let ev1 = spec_added(w0, self.dap.wire@);
                                        let e = ev1.last();
                                        assert(ev1 =~= ev0.push(e));
                                        assert(ev1.drop_last() =~= ev0);
                                        assert forall|x: Seq<WireEvent>|
                                            #[trigger] spec_swd_seq_calls(p, next, (left0 - 1) as nat, room0 - nb, x)
                                                && spec_call_ok(e) implies spec_swd_seq_calls(
                                            p,
                                            1,
                                            p[0] as nat,
                                            len - 2,
                                            ev1 + x,
                                        ) by {
                                            let y = seq![e] + x;
                                            assert(y[0] == e);
                                            assert(y.drop_first() =~= x);
                                            assert(spec_swd_seq_calls(p, idx0, left0, room0, y));
                                            assert(ev0 + y =~= ev1 + x);
                                        }
                                        if !ok {
                                            let y = seq![e];
                                            assert(spec_swd_seq_calls(p, idx0, left0, room0, y));
                                            assert(ev0 + y =~= ev1);
                                            assert(!spec_call_ok(ev1[ev1.len() - 1]));
                                        } else {
                                            assert forall|j: int| 0 <= j < ev1.len() implies spec_call_ok(#[trigger] ev1[j]) by {
                                                if j < ev0.len() {
                                                    assert(ev1[j] == ev0[j]);
                                                }
                                            }
                                            assert(spec_swd_read_bytes(ev1) =~= spec_swd_read_bytes(ev0) + dfin);
                                        }
                                    }
                                }
                                if !ok {
                                    proof {
                                        if !connected {
                                            assert(buf0.take(at as int) + data0 + buf0.skip(at + room.num_bytes) =~= buf0);
                                        }
                                    }
                                    room.abandon();
                                    failed = true;
                                    break;
                                }
                                room.commit();
                                proof {
                                    if connected {
                                        let b = resp.inner.buf@;
                                        assert(b =~= buf0.take(at as int) + dfin + buf0.skip(at + nb));
                                        assert(b.subrange(2, 1 + resp.packet_index) =~= buf0.subrange(2, at as int) + dfin);
                                    }
                                }
                            },
                            None => {
                                proof {
                                    if connected {
                                        assert forall|x: Seq<WireEvent>|
                                            #[trigger] spec_swd_seq_calls(p, next, (left0 - 1) as nat, room0, x)
                                                implies spec_swd_seq_calls(p, 1, p[0] as nat, len - 2, ev0 + x) by {
                                            assert(spec_swd_seq_calls(p, idx0, left0, room0, x));
                                        }
                                    }
                                }
                            },
                        }
                    }
                },
            }
        }
        if failed {
            return resp.commit_err();
        }
        resp.commit_ok()
    }

    /// Runs the sequences of a JTAG sequence request, in order, capturing
    /// TDO into the reply where asked; the first failure ends the request
    /// with status 0xFF.
    fn handle_jtag_sequence(&mut self, command: &JTAGSequenceCommand, response: &mut [u8]) -> (r: usize)
        requires
            old(self).wf(),
            old(response)@.len() >= MAX_PACKET_SIZE,
            command.payload().len() + 1 <= old(response)@.len(),
        ensures
            final(self).wf(),
            final(self).dap.state == old(self).dap.state,
            final(self).dap.transfer_config == old(self).dap.transfer_config,
            2 <= r <= old(response)@.len(),
            final(response)@.len() == old(response)@.len(),
            final(response)@[0] == 0x14,
            final(response)@[1] == 0 || final(response)@[1] == 0xFF,
            final(response)@[1] == 0xFF ==> r == 2,
            final(response)@[1] == 0 ==> r == 2 + spec_jtag_capture_len(command.payload(), 1, command.payload()[0] as nat),
            old(self).dap.state != ConnectionState::JTAG && command.payload()[0] >= 1
                && crate::cmsis_dap::protocol::jtag::spec_jtag_sequence_len(command.payload().skip(1)) is Some
                ==> r == 2 && final(response)@ == old(response)@.update(1, 0xFFu8).update(0, 0x14u8),
            spec_extends(old(self).dap.wire@, final(self).dap.wire@),
            old(self).dap.state == ConnectionState::JTAG && final(response)@[1] == 0 ==> final(response)@.subrange(
                2,
                r as int,
            ) == spec_jtag_captured(command.payload(), spec_added(old(self).dap.wire@, final(self).dap.wire@)),
            ({
                let p = command.payload();
                let ev = spec_added(old(self).dap.wire@, final(self).dap.wire@);
                if old(self).dap.state == ConnectionState::JTAG {
                    &&& spec_jtag_seq_calls(p, 1, p[0] as nat, ev)
                    &&& (final(response)@[1] == 0 <==> spec_calls_ok(ev))
                } else {
                    &&& ev.len() == 0
                    &&& (final(response)@[1] == 0 <==> spec_jtag_seq_calls(p, 1, p[0] as nat, ev))
                }
            }),
    {
        let ghost fin = final(response)@;
        let mut resp = match JTAGSequenceResponse::try_alloc(response) {
            Ok(p) => p,
            Err(_) => {
                return 0;
            },
        };
        let len = resp.inner.buf.len();
        let ghost a = resp.inner.buf@;
        let ghost p = command.payload();
        let ghost total = spec_jtag_capture_len(p, 1, p[0] as nat);
        let ghost connected = self.dap.state == ConnectionState::JTAG;
        let ghost w0 = self.dap.wire@;
        let ghost mut m: nat = 0;
        self.reactor.activity();
        let mut tdo_idx: usize = 0;
        let mut status = true;
        let mut sequences = command.get_sequences();
        loop
            invariant_except_break
                status,
                !connected ==> sequences.payload_idx == 1 && sequences.sequences_left == p[0],
                connected ==> forall|x: Seq<WireEvent>|
                    #[trigger] spec_jtag_seq_calls(p, sequences.payload_idx as int, sequences.sequences_left as nat, x)
                        ==> spec_jtag_seq_calls(p, 1, p[0] as nat, spec_added(w0, self.dap.wire@) + x),
            invariant
                status ==> tdo_idx + spec_jtag_capture_len(p, sequences.payload_idx as int, sequences.sequences_left as nat)
                    == total,
                !connected ==> resp.inner.buf@ == a,
                sequences.payload@ == p,
                connected == (self.dap.state == ConnectionState::JTAG),
                resp.wf(),
                resp.inner.buf@.len() == len,
                len == old(response)@.len(),
                final(resp.inner.buf)@ == fin,
                sequences.payload@.len() + 1 <= len,
                sequences.payload_idx <= sequences.payload@.len(),
                tdo_idx + 1 <= sequences.payload_idx,
                self.wf(),
                self.dap.state == old(self).dap.state,
                self.swo == old(self).swo,
                self.dap.transfer_config == old(self).dap.transfer_config,
                spec_extends(w0, self.dap.wire@),
                w0 == old(self).dap.wire@,
                connected ==> spec_added(w0, self.dap.wire@).len() == m,
                connected ==> sequences.payload_idx == spec_jtag_seq_idx(p, m),
                connected && status ==> resp.inner.buf@.subrange(2, 2 + tdo_idx) == spec_jtag_captured(
                    p,
                    spec_added(w0, self.dap.wire@),
                ),
                connected && status ==> spec_calls_ok(spec_added(w0, self.dap.wire@)),
                !connected ==> self.dap.wire@ == w0,
            ensures
                status ==> tdo_idx == total,
                !connected && p[0] >= 1 && crate::cmsis_dap::protocol::jtag::spec_jtag_sequence_len(p.skip(1)) is Some
                    ==> !status,
                !connected && !status ==> p[0] >= 1 && crate::cmsis_dap::protocol::jtag::spec_jtag_sequence_len(p.skip(1)) is Some,
                connected ==> spec_jtag_seq_calls(p, 1, p[0] as nat, spec_added(w0, self.dap.wire@)),
                connected ==> (status <==> spec_calls_ok(spec_added(w0, self.dap.wire@))),
            decreases sequences.sequences_left,
        {
            let ghost idx0 = sequences.payload_idx as int;
            let ghost left0 = sequences.sequences_left as nat;
            let ghost ev0 = spec_added(w0, self.dap.wire@);
            match sequences.next() {
                None => {
                    assert(spec_jtag_capture_len(p, idx0, left0) == 0);
                    proof {
                        if connected {
                            assert(spec_jtag_seq_calls(p, idx0, left0, Seq::<WireEvent>::empty()));
                            assert(ev0 + Seq::<WireEvent>::empty() =~= ev0);
                        }
                    }
                    break;
                },
                Some(sequence) => {
                    let ghost rest_p = p.skip(idx0);
                    let tdi = sequence.get_tdi_data();
                    let n = if sequence.get_capture_tdo() { tdi.len() } else { 0 };
                    let ghost buf0 = resp.inner.buf@;
                    let ghost wa = self.dap.wire@;
                    let ok = {
                        let region = resp.get_tdo_data_mut();
                        let (head, rest) = region.split_at_mut(tdo_idx);
                        let ghost head0 = head@;
                        let (tdo, tail) = rest.split_at_mut(n);
                        let ghost tail0 = tail@;
                        let ok = self.dap.jtag_sequence(sequence.get_num_bits(), sequence.get_tms(), tdi, tdo);
                        proof {
                            if !connected {
                                assert(buf0.take(2) + (head0 + (tdo@ + tail0)) =~= buf0);
                            }
                        }
                        ok
                    };
                    proof {
                        assert(sequence.bytes()[0] == rest_p[0]);
                    }
                    proof {
                        if connected {
                            let ev = spec_added(w0, self.dap.wire@);
                            let eva = spec_added(w0, wa);
                            assert(ev.drop_last() =~= eva);
                            assert(spec_jtag_seq_idx(p, m) == idx0);
                            if ok && status {
                                let b = resp.inner.buf@;
                                assert(b.subrange(2, 2 + tdo_idx) =~= buf0.subrange(2, 2 + tdo_idx));
                                assert(b.subrange(2, 2 + tdo_idx + n) =~= b.subrange(2, 2 + tdo_idx) + b.subrange(
                                    2 + tdo_idx,
                                    2 + tdo_idx + n,
                                ));
                                assert(spec_captured_tdo(ev.last()) == b.subrange(2 + tdo_idx, 2 + tdo_idx + n) || !(p[idx0] & 0x80 == 0x80));
                            }
                        }
                        m = m + 1;
                    }
                    proof {
                        if connected {
                            let ev1 = spec_added(w0, self.dap.wire@);
                            let e = ev1.last();
                            let ns = crate::cmsis_dap::protocol::jtag::spec_jtag_sequence_len(rest_p)->0 as int;
                            assert(ev1 =~= ev0.push(e));
                            assert(rest_p[0] == p[idx0]);
                            assert(tdi@ =~= p.subrange(idx0 + 1, idx0 + ns));
                            assert forall|x: Seq<WireEvent>|
                                #[trigger] spec_jtag_seq_calls(p, idx0 + ns, (left0 - 1) as nat, x) && spec_call_ok(e)
                                    implies spec_jtag_seq_calls(p, 1, p[0] as nat, ev1 + x) by {
                                let y = seq![e] + x;
                                assert(y[0] == e);
                                assert(y.drop_first() =~= x);
                                assert(spec_jtag_seq_calls(p, idx0, left0, y));
                                assert(ev0 + y =~= ev1 + x);
                            }
                            if !ok {
                                let y = seq![e];
                                assert(spec_jtag_seq_calls(p, idx0, left0, y));
                                assert(ev0 + y =~= ev1);
                                assert(!spec_call_ok(ev1[ev1.len() - 1]));
                            } else {
                                assert forall|j: int| 0 <= j < ev1.len() implies spec_call_ok(#[trigger] ev1[j]) by {
                                    if j < ev0.len() {
                                        assert(ev1[j] == ev0[j]);
                                    }
                                }
                            }
                        }
                    }
                    if !ok {
                        status = false;
                        break;
                    }
                    tdo_idx = tdo_idx + n;
                },
            }
        }
        let ghost b_end = resp.inner.buf@;
        if status {
            let r = resp.commit_ok(tdo_idx);
            proof {
                assert(fin.subrange(2, r as int) =~= b_end.subrange(2, 2 + tdo_idx));
            }
            r
        } else {
            resp.commit_err()
        }
    }
}

impl<'a, P: JTAGAccessPort + SWJAccessPort + SWDAccessPort, R: Reactor, SWO: SWOAccessBehavior> Dispatcher<
    'a,
    P,
    R,
    SWO,
> {
    /// Selects the trace transport; 0xFF for an unknown transport or when
    /// the capture refuses it.
    fn handle_swo_transport(&mut self, command: &SWOTransportCommand, response: &mut [u8]) -> (r: usize)
        requires
            old(self).wf(),
            old(response)@.len() >= MAX_PACKET_SIZE,
        ensures
            final(self).wf(),
            final(self).dap == old(self).dap,
            old(self).swo is None ==> r == 1 && final(response)@ == old(response)@.update(0, 0xFFu8),
            old(self).swo is Some ==> r == 2 && (final(response)@ == spec_status_reply(
                old(response)@,
                CommandType::SWOTransport,
                0,
            ) || final(response)@ == spec_status_reply(old(response)@, CommandType::SWOTransport, 0xFF)),
            old(self).swo is Some && crate::cmsis_dap::types::SWOTransport::spec_from_u8(command.payload()[0]) is None
                ==> final(response)@ == spec_status_reply(old(response)@, CommandType::SWOTransport, 0xFF),
    {
        match &mut self.swo {
            Some(swo) => {
                let resp = match status_reply(response, CommandType::SWOTransport) {
                    Ok(p) => p,
                    Err(_) => {
                        return 0;
                    },
                };
                let ok = match command.try_get_transport() {
                    Some(transport) => swo.set_transport(transport),
                    None => false,
                };
                if ok {
                    resp.commit_with_status(0)
                } else {
                    resp.commit_with_status(0xFF)
                }
            },
            None => match Error::respond(response) {
                Ok(n) => n,
                Err(_) => 0,
            },
        }
    }

    /// Selects the trace capture mode; 0xFF for an unknown mode or when the
    /// capture refuses it.
    fn handle_swo_mode(&mut self, command: &SWOModeCommand, response: &mut [u8]) -> (r: usize)
        requires
            old(self).wf(),
            old(response)@.len() >= MAX_PACKET_SIZE,
        ensures
            final(self).wf(),
            final(self).dap == old(self).dap,
            old(self).swo is None ==> r == 1 && final(response)@ == old(response)@.update(0, 0xFFu8),
            old(self).swo is Some ==> r == 2 && (final(response)@ == spec_status_reply(
                old(response)@,
                CommandType::SWOMode,
                0,
            ) || final(response)@ == spec_status_reply(old(response)@, CommandType::SWOMode, 0xFF)),
            old(self).swo is Some && SWOMode::spec_from_u8(command.payload()[0]) is None ==> final(response)@
                == spec_status_reply(old(response)@, CommandType::SWOMode, 0xFF),
    {
        match &mut self.swo {
            Some(swo) => {
                let resp = match status_reply(response, CommandType::SWOMode) {
                    Ok(p) => p,
                    Err(_) => {
                        return 0;
                    },
                };
                let ok = match command.try_get_mode() {
                    Some(mode) => swo.set_mode(mode),
                    None => false,
                };
                if ok {
                    resp.commit_with_status(0)
                } else {
                    resp.commit_with_status(0xFF)
                }
            },
            None => match Error::respond(response) {
                Ok(n) => n,
                Err(_) => 0,
            },
        }
    }

    /// Sets the trace baud rate; the reply is the rate set, or 0.
    fn handle_swo_baudrate(&mut self, command: &SWOBaudrateCommand, response: &mut [u8]) -> (r: usize)
        requires
            old(self).wf(),
            old(response)@.len() >= MAX_PACKET_SIZE,
        ensures
            final(self).wf(),
            final(self).dap == old(self).dap,
            old(self).swo is None ==> r == 1 && final(response)@ == old(response)@.update(0, 0xFFu8),
            old(self).swo is Some ==> r == 5 && (final(response)@ == spec_splice(
                old(response)@,
                1,
                spec_u32_bytes(crate::bytes::spec_u32_le(command.payload(), 0)),
            ).update(0, 0x19u8) || final(response)@ == spec_splice(old(response)@, 1, spec_u32_bytes(0)).update(
                0,
                0x19u8,
            )),
    {
        match &mut self.swo {
            Some(swo) => {
                let resp = match SWOBaudrateResponse::try_alloc(response) {
                    Ok(p) => p,
                    Err(_) => {
                        return 0;
                    },
                };
                let baudrate = command.get_baudrate();
                if swo.set_baudrate(baudrate) {
                    resp.commit(baudrate)
                } else {
                    resp.commit(0)
                }
            },
            None => match Error::respond(response) {
                Ok(n) => n,
                Err(_) => 0,
            },
        }
    }

    /// Starts or stops trace capture.
    fn handle_swo_control(&mut self, command: &SWOControlCommand, response: &mut [u8]) -> (r: usize)
        requires
            old(self).wf(),
            old(response)@.len() >= MAX_PACKET_SIZE,
        ensures
            final(self).wf(),
            final(self).dap == old(self).dap,
            old(self).swo is None ==> r == 1 && final(response)@ == old(response)@.update(0, 0xFFu8),
            old(self).swo is Some ==> r == 2 && final(response)@ == spec_status_reply(
                old(response)@,
                CommandType::SWOControl,
                0,
            ),
    {
        match &mut self.swo {
            Some(swo) => {
                let resp = match status_reply(response, CommandType::SWOControl) {
                    Ok(p) => p,
                    Err(_) => {
                        return 0;
                    },
                };
                swo.set_active(command.is_start());
                resp.commit_with_status(0)
            },
            None => match Error::respond(response) {
                Ok(n) => n,
                Err(_) => 0,
            },
        }
    }

    /// Reports the trace status: its flags and the count of buffered bytes.
    fn handle_swo_status(&mut self, response: &mut [u8]) -> (r: usize)
        requires
            old(self).wf(),
            old(response)@.len() >= MAX_PACKET_SIZE,
        ensures
            final(self).wf(),
            final(self).dap == old(self).dap,
            old(self).swo is None ==> r == 1 && final(response)@ == old(response)@.update(0, 0xFFu8),
            old(self).swo is Some ==> r == 6 && exists|st: SWOStatus|
                final(response)@ == #[trigger] spec_swo_status_reply(old(response)@, st),
    {
        match &mut self.swo {
            Some(swo) => {
                let resp = match SWOStatusResponse::try_alloc(response) {
                    Ok(p) => p,
                    Err(_) => {
                        return 0;
                    },
                };
                let status = swo.get_status();
                let r = resp.commit(&status);
                assert(final(response)@ == spec_swo_status_reply(old(response)@, status));
                r
            },
            None => match Error::respond(response) {
                Ok(n) => n,
                Err(_) => 0,
            },
        }
    }

    /// Reports the fields of the trace status that the request asks for.
    fn handle_swo_extended_status(&mut self, command: &SWOExtendedStatusCommand, response: &mut [u8]) -> (r: usize)
        requires
            old(self).wf(),
            old(response)@.len() >= MAX_PACKET_SIZE,
        ensures
            final(self).wf(),
            final(self).dap == old(self).dap,
            old(self).swo is None ==> r == 1 && final(response)@ == old(response)@.update(0, 0xFFu8),
            old(self).swo is Some ==> r == 1 + SWOStatusControl(command.payload()[0]).spec_payload_len() && exists|
                st: SWOStatus,
            | final(response)@ == #[trigger] spec_swo_ext_reply(old(response)@, command.payload()[0], st),
    {
        match &mut self.swo {
            Some(swo) => {
                let control = command.get_control();
                let resp = match SWOExtendedStatusResponse::try_alloc(response, control) {
                    Ok(p) => p,
                    Err(_) => {
                        return 0;
                    },
                };
                let status = swo.get_status();
                let r = resp.commit(&status);
                assert(final(response)@ == spec_swo_ext_reply(old(response)@, command.payload()[0], status));
                r
            },
            None => match Error::respond(response) {
                Ok(n) => n,
                Err(_) => 0,
            },
        }
    }

    /// Hands buffered trace bytes to the host, as many as the request and
    /// the reply allow.
    fn handle_swo_data(&mut self, command: &SWODataCommand, response: &mut [u8]) -> (r: usize)
        requires
            old(self).wf(),
            old(response)@.len() >= MAX_PACKET_SIZE,
        ensures
            final(self).wf(),
            final(self).dap == old(self).dap,
            old(self).swo is None ==> r == 1 && final(response)@ == old(response)@.update(0, 0xFFu8),
            old(self).swo is Some ==> 4 <= r <= 4 + spec_u16_le(command.payload(), 0) && r <= old(response)@.len()
                && final(response)@.len() == old(response)@.len() && exists|st: SWOStatus, area: Seq<u8>|
                area.len() == (if spec_u16_le(command.payload(), 0) <= old(response)@.len() - 4 {
                    spec_u16_le(command.payload(), 0) as int
                } else {
                    old(response)@.len() - 4
                }) && final(response)@ == #[trigger] spec_swo_data_reply(old(response)@, st, area, r - 4),
    {
        match &mut self.swo {
            Some(swo) => {
                let mut resp = match SWODataResponse::try_alloc(response) {
                    Ok(p) => p,
                    Err(_) => {
                        return 0;
                    },
                };
                let ghost len = resp.inner.buf@.len();
                let ghost a = resp.inner.buf@;
                let ghost mut area: Seq<u8> = Seq::empty();
                let max_count = command.get_max_trace_count() as usize;
                let read = {
                    let trace = resp.get_trace_data_mut();
                    let room = if trace.len() < max_count { trace.len() } else { max_count };
                    let (part, rest) = trace.split_at_mut(room);
                    let ghost rest0 = rest@;
                    let n = match swo.read_trace_data(part) {
                        Some(n) => n,
                        None => 0,
                    };
                    proof {
                        area = part@;
                        assert(a.take(4) + (part@ + rest0) =~= spec_splice(a, 4, area));
                    }
                    n
                };
                assert(resp.inner.buf@ == spec_splice(a, 4, area));
                let status = swo.get_status();
                let r = resp.commit(&status, read as u16);
                assert(final(response)@ == spec_swo_data_reply(old(response)@, status, area, r - 4));
                r
            },
            None => match Error::respond(response) {
                Ok(n) => n,
                Err(_) => 0,
            },
        }
    }
}

} // verus!
