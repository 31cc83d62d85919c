//! The probe firmware's decisions: the vendor requests it answers, the
//! voltages it sets, the LED colour it shows, and the arithmetic of its
//! voltage regulator, ADC and bit-level port.

use vstd::prelude::*;
use crate::bytes::{spec_splice, spec_u16_bytes};
use crate::cmsis_dap::types::HostStatus;
use crate::probe::field::{self, spec_set_flag, POWER_CONTROL_ID, SIGNAL_FOLLOW_TVCC, SIGNAL_GATED_GND_DET,
    SIGNAL_GATED_TVCC, TVCC_GATED_GND_DET, TVCC_OUTPUT};
use crate::probe::proto::{self, spec_packet_error, spec_request_size, GetStatusRequest, Packet, ReadFieldRequest,
    ResetRequest, WriteFieldRequest, READ_FIELD, RESET, STATUS, WRITE_FIELD};

verus! {

/// Below this TVCC (in millivolts) the target counts as unpowered.
pub const MIN_TVCC: u32 = 1600;

/// What the probe knows of itself, shared by its tasks.
#[derive(Clone, Copy)]
pub struct State {
    pub host_status: HostStatus,
    pub gnd_detect: bool,
    pub trans_mv: u32,
    pub tvcc_mv: u32,
    pub uart_packets: u32,
    pub debug_commands: u32,
    pub i2c_commands: u32,
    pub power_config: field::OwnedPowerControl,
}

impl State {
    /// The state at power-on.
    pub fn new() -> (r: Self)
        ensures
            r.host_status == HostStatus::Connected(false),
            !r.gnd_detect,
            r.trans_mv == 0 && r.tvcc_mv == 0,
            r.uart_packets == 0 && r.debug_commands == 0 && r.i2c_commands == 0,
            r.power_config.bytes() == seq![0x00u8, 0xC0u8, 0xE4u8, 0x0Cu8, 0x00u8, 0x00u8],
    {
        Self {
            host_status: HostStatus::Connected(false),
            gnd_detect: false,
            trans_mv: 0,
            tvcc_mv: 0,
            uart_packets: 0,
            debug_commands: 0,
            i2c_commands: 0,
            power_config: field::PowerControl::default(),
        }
    }
}

/// What the firmware does for a vendor request.
#[derive(Clone, Copy)]
pub enum VendorAction {
    /// The reply, of this size, is ready.
    Reply(usize),
    /// Read the stored field with this id, then answer with
    /// `read_config`.
    ReadField(u8),
    /// Store this power control field, then answer with `write_config`.
    StorePowerControl(field::PowerControl),
    /// Answer `write_config` that nothing was stored.
    RefuseWrite,
    /// Crash on purpose.
    Panic,
    /// An unknown reset type: nothing to do, no reply.
    Ignore,
}

/// Answers the probe's vendor requests.
pub struct CMSISDapReactor {}

impl CMSISDapReactor {
    /// Reads a vendor request and says what to do. A status request is
    /// answered at once from `state`; anything that is not a request the
    /// probe serves is answered with the single byte 0xFF.
    pub fn plan(&self, command: &[u8], response: &mut [u8], state: &State) -> (r: VendorAction)
        requires
            old(response)@.len() >= 1,
            spec_packet_error(command@, spec_request_size(command@[1])) is None && command@[1] == STATUS
                ==> old(response)@.len() >= 7,
        ensures
            ({
                let s = command@;
                if spec_packet_error(s, spec_request_size(s[1])) is Some {
                    r matches VendorAction::Reply(n) && n == 1 && final(response)@ == old(response)@.update(0, 0xFFu8)
                } else if s[1] == STATUS {
                    r matches VendorAction::Reply(n) && n == 7
                } else if s[1] == READ_FIELD {
                    r == VendorAction::ReadField(s[2])
                } else if s[1] == WRITE_FIELD {
                    if s[2] == POWER_CONTROL_ID && s.len() >= 9 && s[3] == 0 {
                        r matches VendorAction::StorePowerControl(f) && f.bytes() == s.subrange(3, 9)
                    } else {
                        r is RefuseWrite
                    }
                } else {
                    (s[2] == 255 ==> r is Panic) && (s[2] != 255 ==> r is Ignore)
                }
            }),
    {
        match Packet::try_parse_request(command) {
            Ok(Packet::GetStatusRequest(req)) => VendorAction::Reply(self.get_status(&req, response, state)),
            Ok(Packet::ReadFieldRequest(req)) => VendorAction::ReadField(req.get_field_id()),
            Ok(Packet::WriteFieldRequest(req)) => {
                if req.get_field_id() == POWER_CONTROL_ID {
                    match field::PowerControl::try_parse(req.get_data()) {
                        Ok(f) => {
                            proof {
                                assert(f.bytes() =~= command@.subrange(3, 9));
                            }
                            VendorAction::StorePowerControl(f)
                        },
                        Err(_) => VendorAction::RefuseWrite,
                    }
                } else {
                    VendorAction::RefuseWrite
                }
            },
            Ok(Packet::ResetRequest(req)) => {
                if self.reset(&req) {
                    VendorAction::Panic
                } else {
                    VendorAction::Ignore
                }
            },
            _ => {
                response[0] = 0xFF;
                VendorAction::Reply(1)
            },
        }
    }

    /// Answers a status request from `state`: the ground detect flag, TVCC
    /// and the signal voltage (each truncated to 16 bits).
    pub fn get_status(&self, req: &GetStatusRequest, res: &mut [u8], state: &State) -> (r: usize)
        requires
            old(res)@.len() >= 7,
        ensures
            r == 7,
            final(res)@ == spec_splice(
                spec_splice(
                    old(res)@.update(0, proto::PACKET_HEADER).update(1, STATUS).update(
                        2,
                        if state.gnd_detect { 0x80u8 } else { 0u8 },
                    ),
                    3,
                    spec_u16_bytes(state.tvcc_mv as u16),
                ),
                5,
                spec_u16_bytes(state.trans_mv as u16),
            ),
    {
        let mut response = match req.try_alloc_response(res) {
            Ok(p) => p,
            Err(_) => {
                return 0;
            },
        };
        let mut flags = proto::StatusFlags::default();
        flags.set_gnd_detect(state.gnd_detect);
        let fl = flags.inner;
        let g = state.gnd_detect;
        assert(fl == if g { 0x80u8 } else { 0u8 }) by (bit_vector)
            requires
                fl == ((0u8 & 0x7F) | (if g { 0x80u8 } else { 0u8 })),
        ;
        response.set_flags(fl);
        response.set_target_voltage(#[verifier::truncate] (state.tvcc_mv as u16));
        response.set_signal_voltage(#[verifier::truncate] (state.trans_mv as u16));
        response.commit()
    }

    /// Answers a read field request with the stored bytes (as many as fit
    /// the reply), or status 0xFF when there are none.
    pub fn read_config(&self, req: &ReadFieldRequest, res: &mut [u8], value: Option<&[u8]>) -> (r: usize)
        requires
            old(res)@.len() >= 4,
            req.base.payload().len() >= 1,
        ensures
            match value {
                Some(v) => {
                    let n = if v@.len() <= old(res)@.len() - 4 { v@.len() as int } else { old(res)@.len() - 4 };
                    r == 4 + n && final(res)@ == crate::bytes::spec_splice(
                        old(res)@.update(0, proto::PACKET_HEADER).update(1, READ_FIELD).update(2, 0u8).update(
                            3,
                            req.base.payload()[0],
                        ),
                        4,
                        v@.take(n),
                    )
                },
                None => r == 4 && final(res)@ == old(res)@.update(0, proto::PACKET_HEADER).update(1, READ_FIELD).update(
                    2,
                    0xFFu8,
                ),
            },
    {
        let mut response = match req.try_alloc_response(res) {
            Ok(p) => p,
            Err(_) => {
                return 0;
            },
        };
        let _len = response.base.inner.len();
        match value {
            Some(v) => {
                response.set_status(0);
                response.set_field_id(req.get_field_id());
                let n = response.set_data(v);
                response.commit(n)
            },
            None => {
                response.set_status(0xFF);
                response.commit(0)
            },
        }
    }

    /// Answers a write field request: status 0 and the field id when the
    /// field was stored, else status 0xFF.
    pub fn write_config(&self, req: &WriteFieldRequest, res: &mut [u8], stored: bool) -> (r: usize)
        requires
            old(res)@.len() >= 4,
            req.base.payload().len() >= 1,
        ensures
            r == 4,
            stored ==> final(res)@ == old(res)@.update(0, proto::PACKET_HEADER).update(1, WRITE_FIELD).update(
                2,
                0u8,
            ).update(3, req.base.payload()[0]),
            !stored ==> final(res)@ == old(res)@.update(0, proto::PACKET_HEADER).update(1, WRITE_FIELD).update(
                2,
                0xFFu8,
            ),
    {
        let mut response = match req.try_alloc_response(res) {
            Ok(p) => p,
            Err(_) => {
                return 0;
            },
        };
        if stored {
            response.set_status(0);
            response.set_field_id(req.get_field_id());
        } else {
            response.set_status(0xFF);
        }
        response.commit(0)
    }

    /// Whether a reset request asks for a crash (reset type 255).
    pub fn reset(&self, req: &ResetRequest) -> (r: bool)
        requires
            req.base.payload().len() >= 1,
        ensures
            r == (req.base.payload()[0] == 255),
    {
        proto::ResetType::try_from(req.get_reset_type()).is_some()
    }
}


/// The calibration of one PWM voltage regulator channel: the duty counts
/// that give its highest and lowest voltages.
#[derive(Clone, Copy)]
pub struct Config {
    pub max_mv: u32,
    pub min_mv: u32,
    pub max_mv_count: u16,
    pub min_mv_count: u16,
}

/// `mv` held to the range `[lo, hi]`.
pub open spec fn spec_clamp(mv: u32, lo: u32, hi: u32) -> u32 {
    if mv > hi {
        hi
    } else if mv < lo {
        lo
    } else {
        mv
    }
}

impl Config {
    /// The calibration can be interpolated: a non-empty voltage range, and
    /// products that fit 32 bits.
    pub open spec fn wf(&self) -> bool {
        &&& self.min_mv < self.max_mv
        &&& (self.max_mv - self.min_mv) * (if self.max_mv_count > self.min_mv_count {
            self.max_mv_count - self.min_mv_count
        } else {
            self.min_mv_count - self.max_mv_count
        }) <= u32::MAX
    }

    /// The duty count for `mv` held to the calibrated range, interpolated
    /// linearly between the two calibration points, and the voltage held.
    pub open spec fn spec_duty_count(&self, mv: u32) -> (u16, u32) {
        let v = spec_clamp(mv, self.min_mv, self.max_mv);
        let count = if self.max_mv_count > self.min_mv_count {
            ((v - self.min_mv) * (self.max_mv_count - self.min_mv_count) / (self.max_mv - self.min_mv))
                + self.min_mv_count
        } else {
            ((self.max_mv - v) * (self.min_mv_count - self.max_mv_count) / (self.max_mv - self.min_mv))
                + self.max_mv_count
        };
        (count as u16, v)
    }

    /// The duty count for `mv` (see `spec_duty_count`); it lies between the
    /// two calibration counts.
    pub fn duty_count(&self, mv: u32) -> (r: (u16, u32))
        requires
            self.wf(),
        ensures
            r == self.spec_duty_count(mv),
            self.min_mv_count <= r.0 <= self.max_mv_count || self.max_mv_count <= r.0 <= self.min_mv_count,
    {
        let mv_range = self.max_mv - self.min_mv;
        let mv = if mv > self.max_mv { self.max_mv } else { mv };
        let mv = if mv < self.min_mv { self.min_mv } else { mv };
        if self.max_mv_count > self.min_mv_count {
            let count_range = self.max_mv_count - self.min_mv_count;
            let k = mv - self.min_mv;
            assert(k * count_range <= mv_range * count_range) by (nonlinear_arith)
                requires
                    k <= mv_range,
            ;
            let q = (k * count_range as u32) / mv_range;
            assert(q <= count_range) by (nonlinear_arith)
                requires
                    q == (k * count_range) / (mv_range as int),
                    k <= mv_range,
                    mv_range > 0,
            ;
            ((q as u16) + self.min_mv_count, mv)
        } else {
            let count_range = self.min_mv_count - self.max_mv_count;
            let k = self.max_mv - mv;
            assert(k * count_range <= mv_range * count_range) by (nonlinear_arith)
                requires
                    k <= mv_range,
            ;
            let q = (k * count_range as u32) / mv_range;
            assert(q <= count_range) by (nonlinear_arith)
                requires
                    q == (k * count_range) / (mv_range as int),
                    k <= mv_range,
                    mv_range > 0,
            ;
            ((q as u16) + self.max_mv_count, mv)
        }
    }
}

/// How a regulator channel is set for `mv`: 0 turns it off (compare 0,
/// output disabled, 0 mV); any other voltage is held to the calibrated
/// range and set by its duty count, with the output enabled. Returns the
/// compare value, whether the output is enabled, and the voltage set.
pub fn regulator_setting(config: &Config, mv: u32) -> (r: (u16, bool, u32))
    requires
        config.wf(),
    ensures
        mv == 0 ==> r == (0u16, false, 0u32),
        mv != 0 ==> r == (config.spec_duty_count(mv).0, true, config.spec_duty_count(mv).1),
        r.2 == 0 || config.min_mv <= r.2 <= config.max_mv,
{
    if mv == 0 {
        (0, false, 0)
    } else {
        let (count, held) = config.duty_count(mv);
        (count, true, held)
    }
}

/// The LED colour (red, green, blue, in percent) for the signal voltage:
/// red when there is none, else from blue at 1.8 V to green at 3.3 V. The
/// green share is whole percent, so it stays at 100 up to 3314 mV.
pub fn led_color(trans_mv: u32) -> (r: (u8, u8, u8))
    requires
        trans_mv == 0 || 1800 <= trans_mv <= 3314,
    ensures
        trans_mv == 0 ==> r == (100u8, 0u8, 0u8),
        trans_mv != 0 ==> r.0 == 0 && r.1 == (trans_mv - 1800) * 100 / 1500 && r.2 == 100 - r.1,
{
    if trans_mv == 0 {
        (100, 0, 0)
    } else {
        let green = (trans_mv - 1800) * 100 / 1500;
        let blue = 100 - green;
        (0, green as u8, blue as u8)
    }
}

/// Whether anything happened between two states: a host status change, or
/// a debug command, UART packet or I2C command.
pub fn activity(last: &State, next: &State) -> (r: bool)
    ensures
        r == (last.host_status != next.host_status || last.debug_commands != next.debug_commands
            || last.uart_packets != next.uart_packets || last.i2c_commands != next.i2c_commands),
{
    last.host_status != next.host_status || last.debug_commands != next.debug_commands || last.uart_packets
        != next.uart_packets || last.i2c_commands != next.i2c_commands
}

/// One step of the LED: a blink (all off) on activity, unless the last
/// step blinked; else the colour. Returns the LED levels and whether this
/// step blinked.
pub fn led_step(color: (u8, u8, u8), active: bool, blinked: bool) -> (r: ((u8, u8, u8), bool))
    ensures
        active && !blinked ==> r == ((0u8, 0u8, 0u8), true),
        !(active && !blinked) ==> r == (color, false),
{
    if active && !blinked {
        ((0, 0, 0), true)
    } else {
        (color, false)
    }
}

/// The TVCC the probe drives: the configured output voltage when the
/// output is on and not gated off by a missing ground, else none.
pub fn tvcc_target_mv(config: &field::PowerControl, gnddet: bool) -> (r: u32)
    ensures
        r == if config.flag(TVCC_OUTPUT) && !(config.flag(TVCC_GATED_GND_DET) && !gnddet) {
            config.spec_tvcc_output_mv() as u32
        } else {
            0
        },
{
    if config.tvcc_output() {
        let gated = config.tvcc_gated_by_gnddet() && !gnddet;
        if gated {
            0
        } else {
            config.tvcc_output_mv() as u32
        }
    } else {
        0
    }
}

/// The signal voltage the probe drives: none when gated off (by a missing
/// ground, or by TVCC under the minimum); the measured TVCC when following
/// it and it is high enough; else the configured default.
pub fn signal_target_mv(config: &field::PowerControl, gnddet: bool, tvcc_mv: u32) -> (r: u32)
    ensures
        r == if (config.flag(SIGNAL_GATED_GND_DET) && !gnddet) || (config.flag(SIGNAL_GATED_TVCC) && tvcc_mv
            < MIN_TVCC) {
            0
        } else if config.flag(SIGNAL_FOLLOW_TVCC) && tvcc_mv >= MIN_TVCC {
            tvcc_mv
        } else {
            config.spec_transvcc_default_mv() as u32
        },
{
    let gated = config.transvcc_gated_by_gnddet() && !gnddet || config.transvcc_gated_by_tvcc() && tvcc_mv < MIN_TVCC;
    if gated {
        0
    } else if config.transvcc_follows_tvcc() && tvcc_mv >= MIN_TVCC {
        tvcc_mv
    } else {
        config.transvcc_default_mv() as u32
    }
}

/// One ADC measurement.
#[derive(Clone, Copy)]
pub struct ADCSweep {
    pub tvcc_mv: u32,
}

/// The sum of the samples.
pub open spec fn spec_sum(s: Seq<u16>) -> int
    decreases s.len(),
{
    if s.len() == 0 {
        0
    } else {
        spec_sum(s.drop_last()) + s.last()
    }
}

proof fn lemma_sum_bound(s: Seq<u16>)
    ensures
        0 <= spec_sum(s) <= 65535 * s.len(),
    decreases s.len(),
{
    if s.len() > 0 {
        lemma_sum_bound(s.drop_last());
    }
}

/// TVCC from the ADC samples of its half-voltage divider: the mean sample,
/// scaled to millivolts on a 3.3 V, 12-bit scale, doubled.
pub fn tvcc_from_samples(samples: &[u16]) -> (r: ADCSweep)
    requires
        1 <= samples@.len() <= 0x10000,
    ensures
        r.tvcc_mv == 2 * ((spec_sum(samples@) / samples@.len() as int) * 3300 / 4096),
{
    let mut sum: u32 = 0;
    let mut i: usize = 0;
    while i < samples.len()
        invariant
            i <= samples@.len() <= 0x10000,
            sum == spec_sum(samples@.take(i as int)),
        decreases samples@.len() - i,
    {
        proof {
            assert(samples@.take(i + 1).drop_last() =~= samples@.take(i as int));
            lemma_sum_bound(samples@.take(i + 1));
            assert(65535 * (i + 1) <= 65535 * 0x10000) by (nonlinear_arith)
                requires
                    i + 1 <= 0x10000,
            ;
        }
        sum = sum + samples[i] as u32;
        i = i + 1;
    }
    proof {
        assert(samples@.take(samples@.len() as int) =~= samples@);
        lemma_sum_bound(samples@);
    }
    let n = samples.len() as u32;
    let avg = sum / n;
    assert(avg <= 65535) by (nonlinear_arith)
        requires
            avg == sum / n,
            sum <= 65535 * n,
            n >= 1,
    ;
    let mv = avg * 3300 / 4096;
    ADCSweep { tvcc_mv: 2 * mv }
}

/// What a debounced input waits for next: the pin to reach `level`, or,
/// once it has, the pin to fall back to `level` within the stable time.
#[derive(Clone, Copy, Debug, PartialEq, Eq, Structural)]
pub enum DebounceWait {
    Reach(bool),
    FallBackWithin(bool),
}

/// The decisions of a debounced input: its settled level, and whether it is
/// watching the pin hold a new level for the stable time.
#[derive(Clone, Copy, Debug)]
pub struct Debouncer {
    pub state: bool,
    pub confirming: bool,
}

impl Debouncer {
    /// A debounced input whose settled level is the level read at start.
    pub fn new(level: bool) -> (r: Self)
        ensures
            r.state == level,
            !r.confirming,
    {
        Debouncer { state: level, confirming: false }
    }

    /// The settled level.
    pub fn get_state(&self) -> (r: bool)
        ensures
            r == self.state,
    {
        self.state
    }

    /// What to wait for next: the pin to leave the settled level, then the
    /// pin to come back to it within the stable time.
    pub fn next_wait(&self) -> (r: DebounceWait)
        ensures
            r == (if self.confirming {
                DebounceWait::FallBackWithin(self.state)
            } else {
                DebounceWait::Reach(!self.state)
            }),
    {
        if self.confirming {
            DebounceWait::FallBackWithin(self.state)
        } else {
            DebounceWait::Reach(!self.state)
        }
    }

    /// The end of the wait asked for; `timed_out` tells that the stable
    /// time passed without the pin coming back. The settled level changes,
    /// and is returned, only when the pin held the other level for the
    /// whole stable time; otherwise the input goes back to watching.
    pub fn on_wait_done(&mut self, timed_out: bool) -> (r: Option<bool>)
        ensures
            !old(self).confirming ==> r is None && final(self).confirming && final(self).state == old(
                self,
            ).state,
            old(self).confirming && timed_out ==> r == Some(!old(self).state) && final(self).state
                == !old(self).state && !final(self).confirming,
            old(self).confirming && !timed_out ==> r is None && final(self).state == old(self).state
                && !final(self).confirming,
    {
        if !self.confirming {
            self.confirming = true;
            None
        } else if timed_out {
            self.state = !self.state;
            self.confirming = false;
            Some(self.state)
        } else {
            self.confirming = false;
            None
        }
    }
}

} // verus!
