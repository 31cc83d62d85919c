//! The interfaces a probe implements: the SWJ, SWD and JTAG access ports,
//! the SWO capture port, and the reactor that observes the dispatcher.

use vstd::prelude::*;
use vstd::string::StringSliceAdditionalSpecFns;
use crate::cmsis_dap::types::Pins;

verus! {

/// The largest DAP packet.
pub const MAX_PACKET_SIZE: usize = 64;

/// Hooks that the dispatcher calls while serving requests.
pub trait Reactor {
    /// The firmware version string reported by the info request, if any.
    fn get_firmware_version(&self) -> Option<&str> {
        None
    }

    /// Called for each request that touches the target.
    fn activity(&self) {
    }
}

/// The firmware versions (as bytes) a reactor gave when asked through
/// `ask_firmware_version`, in order; nothing else adds to them.
pub struct FirmwareVersions {
    versions: Ghost<Seq<Option<Seq<u8>>>>,
}

impl FirmwareVersions {
    pub closed spec fn versions(&self) -> Seq<Option<Seq<u8>>> {
        self.versions@
    }

    /// Nothing asked yet.
    pub fn new() -> (r: Self)
        ensures
            r.versions() == Seq::<Option<Seq<u8>>>::empty(),
    {
        FirmwareVersions { versions: Ghost(Seq::empty()) }
    }
}

/// Asks `reactor` for its firmware version, adding the answer to `log`.
pub fn ask_firmware_version<'r, R: Reactor>(reactor: &'r R, log: &mut FirmwareVersions) -> (r: Option<&'r str>)
    ensures
        final(log).versions() == old(log).versions().push(
            match r {
                Some(v) => Some(v.spec_bytes()),
                None => None,
            },
        ),
{
    let r = reactor.get_firmware_version();
    let ghost v: Option<Seq<u8>> = match r {
        Some(s) => Some(s.spec_bytes()),
        None => None,
    };
    log.versions = Ghost(log.versions@.push(v));
    r
}

/// The pins and clock shared by SWD and JTAG.
pub trait SWJAccessPort {
    /// Sets the SWCLK/TCK frequency; false if the port cannot run at it.
    fn set_frequency(&mut self, freq_hz: u32) -> bool;

    /// Drives the pins selected by `mask` to the levels in `out`, waits up
    /// to `wait_us` for them to settle and returns the levels read.
    fn pins(&mut self, out: Pins, mask: Pins, wait_us: u32) -> Pins {
        Pins(0)
    }

    /// Clocks out `num_bits` bits of `data`, LSB first, on SWDIO/TMS.
    fn write_sequence(&mut self, num_bits: usize, data: &[u8]) -> bool;
}

/// Bit-level SWD access.
pub trait SWDAccessPort {
    /// Whether the port can do SWD at all.
    const SUPPORTED: bool = false;

    /// Prepares the port for SWD.
    fn open(&mut self) -> bool {
        false
    }

    /// Releases the port so that it can be used for JTAG.
    fn close(&mut self) -> bool {
        false
    }

    fn set_turnaround(&mut self, value: usize) {
    }

    /// Reads `num_bits` bits from SWDIO into `data`, LSB first, clocking
    /// SWCLK.
    fn read(&mut self, num_bits: usize, data: &mut [u8]) -> (r: bool)
        requires
            num_bits <= old(data)@.len() * 8,
        ensures
            final(data)@.len() == old(data)@.len(),
    {
        false
    }

    /// Writes `num_bits` bits of `data` to SWDIO, LSB first, clocking SWCLK.
    fn write(&mut self, num_bits: usize, data: &[u8]) -> bool
        requires
            num_bits <= data@.len() * 8,
    {
        false
    }
}

/// Bit-level JTAG access.
pub trait JTAGAccessPort {
    /// Whether the port can do JTAG at all.
    const SUPPORTED: bool = false;

    /// Prepares the port for JTAG.
    fn open(&mut self) -> bool {
        false
    }

    /// Releases the port so that it can be used for SWD.
    fn close(&mut self) -> bool {
        false
    }

    /// Shifts `num_bits` bits of `tdi` out while capturing TDO into `tdo`
    /// (when it has room), holding TMS at `tms`.
    fn transfer(&mut self, num_bits: usize, tms: bool, tdi: &[u8], tdo: &mut [u8]) -> (r: bool)
        ensures
            final(tdo)@.len() == old(tdo)@.len(),
    {
        false
    }

    /// Toggles TCK `cycles` times with TMS and TDI held.
    fn clock(&mut self, cycles: usize, tms: bool, tdi: bool) -> bool {
        false
    }
}

/// The trace capture side of SWO: which modes the port has, and how to
/// switch it.
pub trait SWOPort {
    const SUPPORTS_UART: bool;
    const SUPPORTS_MANCHESTER: bool;

    /// Switches to UART capture at `baudrate`.
    fn set_mode_uart(&mut self, baudrate: u32) -> bool {
        false
    }

    /// Switches to Manchester capture at `baudrate`.
    fn set_mode_manchester(&mut self, baudrate: u32) -> bool {
        false
    }

    /// Called when SWO is switched off.
    fn close(&mut self);
}

/// An access port that answers every request with success and does nothing.
pub struct DefmtAccessPort {}

impl SWJAccessPort for DefmtAccessPort {
    fn set_frequency(&mut self, freq_hz: u32) -> bool {
        true
    }

    fn write_sequence(&mut self, num_bits: usize, data: &[u8]) -> bool {
        true
    }

    fn pins(&mut self, out: Pins, mask: Pins, wait_us: u32) -> Pins {
        Pins(0)
    }
}

impl SWDAccessPort for DefmtAccessPort {
    const SUPPORTED: bool = true;

    fn open(&mut self) -> bool {
        true
    }

    fn close(&mut self) -> bool {
        true
    }

    fn set_turnaround(&mut self, value: usize) {
    }

    fn read(&mut self, num_bits: usize, data: &mut [u8]) -> bool {
        true
    }

    fn write(&mut self, num_bits: usize, data: &[u8]) -> bool {
        true
    }
}

} // verus!
