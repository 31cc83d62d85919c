//! Serial wire output: what the dispatcher can ask of the trace capture, and
//! the bookkeeping that the capture and streaming tasks do on the status.

use vstd::prelude::*;
use crate::cmsis_dap::port::MAX_PACKET_SIZE;
use crate::cmsis_dap::types::{spec_with_flag, SWOMode, SWOStatus, SWOTransport};

verus! {

/// The trace capture as the dispatcher sees it.
pub trait SWOAccessBehavior {
    const SUPPORTS_UART: bool;
    const SUPPORTS_MANCHESTER: bool;
    /// The size of the trace buffer, in bytes.
    const BUFFER_SIZE: usize;

    /// The capture exists and can be driven; a capture is, unless its type
    /// says otherwise.
    open spec fn available(&self) -> bool {
        true
    }

    fn set_transport(&mut self, transport: SWOTransport) -> (r: bool)
        requires
            old(self).available(),
        ensures
            final(self).available(),
    ;

    fn set_mode(&mut self, mode: SWOMode) -> (r: bool)
        requires
            old(self).available(),
        ensures
            final(self).available(),
    ;

    fn set_baudrate(&mut self, baudrate: u32) -> (r: bool)
        requires
            old(self).available(),
        ensures
            final(self).available(),
    ;

    fn set_active(&mut self, active: bool)
        requires
            old(self).available(),
        ensures
            final(self).available(),
    ;

    fn get_status(&mut self) -> (r: SWOStatus)
        requires
            old(self).available(),
        ensures
            final(self).available(),
    ;

    /// Moves buffered trace bytes into `data`; `None` when trace data is not
    /// being delivered through the data command.
    fn read_trace_data(&mut self, data: &mut [u8]) -> (r: Option<usize>)
        requires
            old(self).available(),
        ensures
            final(self).available(),
            final(data)@.len() == old(data)@.len(),
            r matches Some(n) ==> n <= old(data)@.len(),
    ;
}

/// No trace capture: a probe without SWO. It is never available, so none of
/// its methods can be called.
impl SWOAccessBehavior for () {
    const SUPPORTS_UART: bool = false;
    const SUPPORTS_MANCHESTER: bool = false;
    const BUFFER_SIZE: usize = 0;

    open spec fn available(&self) -> bool {
        false
    }

    fn set_transport(&mut self, transport: SWOTransport) -> (r: bool) {
        false
    }

    fn set_mode(&mut self, mode: SWOMode) -> (r: bool) {
        false
    }

    fn set_baudrate(&mut self, baudrate: u32) -> (r: bool) {
        false
    }

    fn set_active(&mut self, active: bool) {
    }

    fn get_status(&mut self) -> (r: SWOStatus) {
        SWOStatus::default()
    }

    fn read_trace_data(&mut self, data: &mut [u8]) -> (r: Option<usize>) {
        None
    }
}

/// Whether a capture with the given support can run in `mode`.
pub fn mode_supported(mode: SWOMode, supports_uart: bool, supports_manchester: bool) -> (r: bool)
    ensures
        r == !((mode == SWOMode::Uart && !supports_uart) || (mode == SWOMode::Manchester && !supports_manchester)),
{
    match mode {
        SWOMode::Uart => supports_uart,
        SWOMode::Manchester => supports_manchester,
        SWOMode::Off => true,
    }
}

/// What the capture task is asked to do: its mode, its baud rate and
/// whether it runs.
#[derive(Clone, Copy, Debug, PartialEq, Eq, Structural)]
pub struct SWOTaskControl {
    pub mode: SWOMode,
    pub baudrate: u32,
    pub active: bool,
}

impl Default for SWOTaskControl {
    fn default() -> (r: Self)
        ensures
            r.mode == SWOMode::Off,
            r.baudrate == 0,
            !r.active,
    {
        Self { mode: SWOMode::Off, baudrate: 0, active: false }
    }
}

/// What the capture port is told when a new control is applied.
#[derive(Clone, Copy, Debug, PartialEq, Eq, Structural)]
pub enum SWOControlAction {
    /// Capture UART-encoded trace at the baud rate.
    Uart(u32),
    /// Capture Manchester-encoded trace at the baud rate.
    Manchester(u32),
    /// Stop capturing.
    Close,
}

impl SWOTaskControl {
    /// Sets the mode; true if it changed.
    pub fn set_mode(&mut self, mode: SWOMode) -> (changed: bool)
        ensures
            *final(self) == (SWOTaskControl { mode, ..*old(self) }),
            changed == (old(self).mode != mode),
    {
        let changed = self.mode != mode;
        self.mode = mode;
        changed
    }

    /// Sets the baud rate; true if it changed.
    pub fn set_baudrate(&mut self, baudrate: u32) -> (changed: bool)
        ensures
            *final(self) == (SWOTaskControl { baudrate, ..*old(self) }),
            changed == (old(self).baudrate != baudrate),
    {
        let changed = self.baudrate != baudrate;
        self.baudrate = baudrate;
        changed
    }

    /// Starts or stops the capture; true if that changed.
    pub fn set_active(&mut self, active: bool) -> (changed: bool)
        ensures
            *final(self) == (SWOTaskControl { active, ..*old(self) }),
            changed == (old(self).active != active),
    {
        let changed = self.active != active;
        self.active = active;
        changed
    }

    /// Whether trace is being captured.
    pub fn capturing(&self) -> (r: bool)
        ensures
            r == (self.active && self.mode != SWOMode::Off),
    {
        self.active && self.mode != SWOMode::Off
    }

    /// What the port must do for this control to take effect.
    pub fn action(&self) -> (r: SWOControlAction)
        ensures
            r == (if self.active && self.mode == SWOMode::Uart {
                SWOControlAction::Uart(self.baudrate)
            } else if self.active && self.mode == SWOMode::Manchester {
                SWOControlAction::Manchester(self.baudrate)
            } else {
                SWOControlAction::Close
            }),
    {
        if !self.active {
            return SWOControlAction::Close;
        }
        match self.mode {
            SWOMode::Uart => SWOControlAction::Uart(self.baudrate),
            SWOMode::Manchester => SWOControlAction::Manchester(self.baudrate),
            SWOMode::Off => SWOControlAction::Close,
        }
    }
}

/// Records `bytes_used` new trace bytes captured at `timestamp`: the overrun
/// flag clears, the buffered count grows, and the trace index advances
/// (wrapping).
pub fn record_trace_data(status: &mut SWOStatus, bytes_used: u32, timestamp: u32)
    requires
        old(status).buffered_traces + bytes_used <= u32::MAX,
    ensures
        final(status).flags.0 == spec_with_flag(old(status).flags.0, 0x80, false),
        final(status).buffered_traces == old(status).buffered_traces + bytes_used,
        final(status).next_trace_index == (old(status).next_trace_index + bytes_used) % 0x1_0000_0000,
        final(status).next_trace_timestamp == timestamp,
{
    status.flags.set_buffer_overrun(false);
    status.buffered_traces = status.buffered_traces + bytes_used;
    status.next_trace_index = status.next_trace_index.wrapping_add(bytes_used);
    status.next_trace_timestamp = timestamp;
}

/// Records that the trace buffer is full; true if the overrun flag was not
/// already set.
pub fn record_overrun(status: &mut SWOStatus) -> (changed: bool)
    ensures
        final(status).flags.0 == spec_with_flag(old(status).flags.0, 0x80, true),
        final(status).buffered_traces == old(status).buffered_traces,
        final(status).next_trace_index == old(status).next_trace_index,
        final(status).next_trace_timestamp == old(status).next_trace_timestamp,
        changed == (old(status).flags.0 & 0x80 == 0),
{
    let changed = !status.flags.is_buffer_overrun();
    status.flags.set_buffer_overrun(true);
    changed
}

/// How many of the `readable` buffered trace bytes one bulk endpoint
/// packet carries: all of them, up to a full packet.
pub fn bulk_chunk_len(readable: usize) -> (n: usize)
    ensures
        n == if readable <= MAX_PACKET_SIZE { readable } else { MAX_PACKET_SIZE },
{
    if readable <= MAX_PACKET_SIZE {
        readable
    } else {
        MAX_PACKET_SIZE
    }
}

/// Records that `count` buffered trace bytes were handed to the host.
pub fn release_trace_data(status: &mut SWOStatus, count: u32)
    requires
        count <= old(status).buffered_traces,
    ensures
        *final(status) == (SWOStatus { buffered_traces: (old(status).buffered_traces - count) as u32, ..*old(status) }),
{
    status.buffered_traces = status.buffered_traces - count;
}

/// Fills `data` from the two parts of a ring buffer's readable region, the
/// first part first, as far as `data` has room; returns the bytes copied.
pub fn copy_split(data: &mut [u8], first: &[u8], second: &[u8]) -> (n: usize)
    ensures
        n == if first@.len() + second@.len() <= old(data)@.len() {
            (first@.len() + second@.len()) as int
        } else {
            old(data)@.len() as int
        },
        final(data)@.len() == old(data)@.len(),
        final(data)@.take(n as int) == (first@ + second@).take(n as int),
        final(data)@.skip(n as int) == old(data)@.skip(n as int),
{
    let len = data.len();
    let first_len = if first.len() < len { first.len() } else { len };
    let second_len = if second.len() < len - first_len { second.len() } else { len - first_len };
    let ghost before = data@;
    let mut i: usize = 0;
    while i < first_len
        invariant
            first_len <= first@.len(),
            first_len <= len,
            data@.len() == len,
            len == before.len(),
            i <= first_len,
            forall|k: int| 0 <= k < i ==> data@[k] == first@[k],
            forall|k: int| i <= k < len ==> data@[k] == before[k],
        decreases first_len - i,
    {
        data[i] = first[i];
        i = i + 1;
    }
    let mut j: usize = 0;
    while j < second_len
        invariant
            first_len <= first@.len(),
            second_len <= second@.len(),
            first_len + second_len <= len,
            data@.len() == len,
            len == before.len(),
            j <= second_len,
            forall|k: int| 0 <= k < first_len ==> data@[k] == first@[k],
            forall|k: int| 0 <= k < j ==> data@[first_len + k] == second@[k],
            forall|k: int| first_len + j <= k < len ==> data@[k] == before[k],
        decreases second_len - j,
    {
        data[first_len + j] = second[j];
        j = j + 1;
    }
    let n = first_len + second_len;
    assert(data@.take(n as int) =~= (first@ + second@).take(n as int));
    assert(data@.skip(n as int) =~= before.skip(n as int));
    n
}

} // verus!
