//! The host side of the vendor protocol: the requests a host sends and how
//! it reads the replies, and the power configuration as plain settings.

use vstd::prelude::*;
use vstd::string::StringSliceAdditionalSpecFns;
use vstd::utf8::valid_utf8;
use crate::bytes::{spec_u16_le, spec_u16_bytes};
use crate::device_info::str_from_utf8;
use crate::probe::proto::{
    self, spec_packet_error, spec_response_size, GetStatusRequest, Packet, ReadFieldRequest, ResetRequest, ResetType,
    WriteFieldRequest, READ_FIELD, STATUS, WRITE_FIELD,
};
use crate::probe::field::{self, spec_set_flag, KEY5V_ENABLE, SIGNAL_FOLLOW_TVCC, SIGNAL_GATED_GND_DET,
    SIGNAL_GATED_TVCC, TVCC_OUTPUT, TVCC_GATED_GND_DET};

verus! {

/// What went wrong talking to a probe.
#[derive(Clone, Copy, Debug, PartialEq, Eq, Structural)]
pub enum Error {
    PermissionDenied,
    DeviceDoesntHaveCMSIS,
    ConfigValueError,
    USBError,
    Timeout,
    ValueError,
}

/// A probe's status.
#[derive(Clone, Copy, Debug, PartialEq, Eq, Structural)]
pub struct Status {
    /// True if ground is detected.
    pub gnddet: bool,
    /// Measured TVCC in millivolts.
    pub target_mv: u16,
    /// Commanded signal level in millivolts.
    pub signal_mv: u16,
}

/// The power configuration as settings.
#[derive(Clone, Copy, Debug, PartialEq, Eq, Structural)]
pub struct PowerControl {
    /// True to enable the 5 V key power output.
    pub key5v_enable: bool,
    /// True if the signal voltage follows the measured TVCC.
    pub signal_follows_tvcc: bool,
    /// True if the signal voltage is gated by the ground detect signal.
    pub signal_gated_by_gnddet: bool,
    /// True if the signal voltage is gated by TVCC >= 1.6 V.
    pub signal_gated_by_tvcc: bool,
    /// Millivolts of signals when not gated and not following TVCC.
    pub signal_default_mv: u16,
    /// True if TVCC is generated by the probe.
    pub tvcc_output: bool,
    /// True if the TVCC output is gated by the ground detect signal.
    pub tvcc_gated_by_gnddet: bool,
    /// Millivolts output on TVCC when the output is enabled.
    pub tvcc_output_mv: u16,
}

/// The settings a power control field holds.
pub open spec fn spec_settings(f: field::PowerControl) -> PowerControl {
    PowerControl {
        key5v_enable: f.flag(KEY5V_ENABLE),
        signal_follows_tvcc: f.flag(SIGNAL_FOLLOW_TVCC),
        signal_gated_by_gnddet: f.flag(SIGNAL_GATED_GND_DET),
        signal_gated_by_tvcc: f.flag(SIGNAL_GATED_TVCC),
        signal_default_mv: f.spec_transvcc_default_mv(),
        tvcc_output: f.flag(TVCC_OUTPUT),
        tvcc_gated_by_gnddet: f.flag(TVCC_GATED_GND_DET),
        tvcc_output_mv: f.spec_tvcc_output_mv(),
    }
}

/// The flag byte that holds `p`'s flags, over the bits of `b` that no flag
/// uses.
pub open spec fn spec_flag_byte(p: PowerControl, b: u8) -> u8 {
    spec_set_flag(
        spec_set_flag(
            spec_set_flag(
                spec_set_flag(
                    spec_set_flag(spec_set_flag(b, KEY5V_ENABLE, p.key5v_enable), SIGNAL_FOLLOW_TVCC, p.signal_follows_tvcc),
                    SIGNAL_GATED_GND_DET,
                    p.signal_gated_by_gnddet,
                ),
                SIGNAL_GATED_TVCC,
                p.signal_gated_by_tvcc,
            ),
            TVCC_OUTPUT,
            p.tvcc_output,
        ),
        TVCC_GATED_GND_DET,
        p.tvcc_gated_by_gnddet,
    )
}

/// The bytes of a field `b` once `p` is written into it.
pub open spec fn spec_filled(p: PowerControl, b: Seq<u8>) -> Seq<u8> {
    seq![
        b[0],
        spec_flag_byte(p, b[1]),
        spec_u16_bytes(p.signal_default_mv)[0],
        spec_u16_bytes(p.signal_default_mv)[1],
        spec_u16_bytes(p.tvcc_output_mv)[0],
        spec_u16_bytes(p.tvcc_output_mv)[1],
    ]
}

impl PowerControl {
    /// The factory settings.
    pub fn default() -> (r: Self)
        ensures
            r == spec_settings(field::PowerControl { inner: [0x00u8, 0xC0u8, 0xE4u8, 0x0Cu8, 0x00u8, 0x00u8] }),
    {
        let f = field::PowerControl::default();
        assert(f.inner@ =~= [0x00u8, 0xC0u8, 0xE4u8, 0x0Cu8, 0x00u8, 0x00u8]@);
        Self::from_field(&f)
    }

    /// The settings a field holds.
    pub fn from_field(f: &field::PowerControl) -> (r: Self)
        ensures
            r == spec_settings(*f),
    {
        Self {
            key5v_enable: f.key5v_enable(),
            signal_follows_tvcc: f.transvcc_follows_tvcc(),
            signal_gated_by_gnddet: f.transvcc_gated_by_gnddet(),
            signal_gated_by_tvcc: f.transvcc_gated_by_tvcc(),
            signal_default_mv: f.transvcc_default_mv(),
            tvcc_output: f.tvcc_output(),
            tvcc_gated_by_gnddet: f.tvcc_gated_by_gnddet(),
            tvcc_output_mv: f.tvcc_output_mv(),
        }
    }

    /// Writes the settings into a field; its version byte and the flag bits
    /// no setting uses are kept.
    pub fn fill_field(&self, f: &mut field::PowerControl)
        ensures
            final(f).bytes() == spec_filled(*self, old(f).bytes()),
    {
        f.set_key5v_enable(self.key5v_enable);
        f.set_transvcc_follows_tvcc(self.signal_follows_tvcc);
        f.set_transvcc_gated_by_gnddet(self.signal_gated_by_gnddet);
        f.set_transvcc_gated_by_tvcc(self.signal_gated_by_tvcc);
        f.set_transvcc_default_mv(self.signal_default_mv);
        f.set_tvcc_output(self.tvcc_output);
        f.set_tvcc_gated_by_gnddet(self.tvcc_gated_by_gnddet);
        f.set_tvcc_output_mv(self.tvcc_output_mv);
        assert(f.bytes() =~= spec_filled(*self, old(f).bytes()));
    }

    /// The field bytes a host writes for these settings: the factory field
    /// with the settings written into it.
    pub fn to_field(&self) -> (r: field::PowerControl)
        ensures
            r.bytes() == spec_filled(*self, seq![0x00u8, 0xC0u8, 0xE4u8, 0x0Cu8, 0x00u8, 0x00u8]),
    {
        let mut f = field::PowerControl::default();
        self.fill_field(&mut f);
        f
    }
}

/// Writing settings into a field and reading them back gives the same
/// settings, whatever the field held before.
pub proof fn lemma_fill_then_read(p: PowerControl, f: field::PowerControl, g: field::PowerControl)
    requires
        g.bytes() == spec_filled(p, f.bytes()),
    ensures
        spec_settings(g) == p,
{
    let b0 = f.bytes()[1];
    let b1 = spec_set_flag(b0, KEY5V_ENABLE, p.key5v_enable);
    let b2 = spec_set_flag(b1, SIGNAL_FOLLOW_TVCC, p.signal_follows_tvcc);
    let b3 = spec_set_flag(b2, SIGNAL_GATED_GND_DET, p.signal_gated_by_gnddet);
    let b4 = spec_set_flag(b3, SIGNAL_GATED_TVCC, p.signal_gated_by_tvcc);
    let b5 = spec_set_flag(b4, TVCC_OUTPUT, p.tvcc_output);
    let b6 = spec_set_flag(b5, TVCC_GATED_GND_DET, p.tvcc_gated_by_gnddet);
    assert(g.bytes()[1] == b6);
    let masks = seq![KEY5V_ENABLE, SIGNAL_FOLLOW_TVCC, SIGNAL_GATED_GND_DET, SIGNAL_GATED_TVCC, TVCC_OUTPUT, TVCC_GATED_GND_DET];
    assert forall|i: int| 0 <= i < 6 implies {
        let m = #[trigger] masks[i];
        &&& (b6 & m != 0) == (b5 & m != 0) || m == TVCC_GATED_GND_DET
        &&& (b5 & m != 0) == (b4 & m != 0) || m == TVCC_OUTPUT
        &&& (b4 & m != 0) == (b3 & m != 0) || m == SIGNAL_GATED_TVCC
        &&& (b3 & m != 0) == (b2 & m != 0) || m == SIGNAL_GATED_GND_DET
        &&& (b2 & m != 0) == (b1 & m != 0) || m == SIGNAL_FOLLOW_TVCC
    } by {
        let m = masks[i];
        field::lemma_set_flag(b5, TVCC_GATED_GND_DET, p.tvcc_gated_by_gnddet, m);
        field::lemma_set_flag(b4, TVCC_OUTPUT, p.tvcc_output, m);
        field::lemma_set_flag(b3, SIGNAL_GATED_TVCC, p.signal_gated_by_tvcc, m);
        field::lemma_set_flag(b2, SIGNAL_GATED_GND_DET, p.signal_gated_by_gnddet, m);
        field::lemma_set_flag(b1, SIGNAL_FOLLOW_TVCC, p.signal_follows_tvcc, m);
    }
    field::lemma_set_flag(b0, KEY5V_ENABLE, p.key5v_enable, KEY5V_ENABLE);
    field::lemma_set_flag(b1, SIGNAL_FOLLOW_TVCC, p.signal_follows_tvcc, SIGNAL_FOLLOW_TVCC);
    field::lemma_set_flag(b2, SIGNAL_GATED_GND_DET, p.signal_gated_by_gnddet, SIGNAL_GATED_GND_DET);
    field::lemma_set_flag(b3, SIGNAL_GATED_TVCC, p.signal_gated_by_tvcc, SIGNAL_GATED_TVCC);
    field::lemma_set_flag(b4, TVCC_OUTPUT, p.tvcc_output, TVCC_OUTPUT);
    field::lemma_set_flag(b5, TVCC_GATED_GND_DET, p.tvcc_gated_by_gnddet, TVCC_GATED_GND_DET);
    assert(masks[0] == KEY5V_ENABLE && masks[1] == SIGNAL_FOLLOW_TVCC && masks[2] == SIGNAL_GATED_GND_DET
        && masks[3] == SIGNAL_GATED_TVCC && masks[4] == TVCC_OUTPUT && masks[5] == TVCC_GATED_GND_DET);
    let v = p.signal_default_mv;
    let w = p.tvcc_output_mv;
    assert(g.bytes()[2] == (v % 256) as u8 && g.bytes()[3] == (v / 256) as u8);
    assert(g.bytes()[4] == (w % 256) as u8 && g.bytes()[5] == (w / 256) as u8);
}


/// Writes the info request for the firmware version; returns its size.
pub fn firmware_version_request(buf: &mut [u8]) -> (r: usize)
    requires
        old(buf)@.len() >= 2,
    ensures
        r == 2,
        final(buf)@ == old(buf)@.update(0, 0x00u8).update(1, 0x09u8),
{
    buf[0] = 0x00;
    buf[1] = 0x09;
    2
}

/// The firmware version in an info reply: as many bytes as the length
/// byte says and the reply holds. A reply that is not an info reply is a
/// timeout; bytes that are not UTF-8 are a value error.
pub fn parse_firmware_version(reply: &[u8]) -> (r: Result<&str, Error>)
    ensures
        ({
            if reply@.len() >= 2 && reply@[0] == 0 {
                let n = if reply@[1] <= reply@.len() - 2 { reply@[1] as int } else { reply@.len() - 2 };
                let bytes = reply@.subrange(2, 2 + n);
                match r {
                    Ok(s) => valid_utf8(bytes) && s.spec_bytes() == bytes,
                    Err(e) => !valid_utf8(bytes) && e == Error::ValueError,
                }
            } else {
                r == Err::<&str, Error>(Error::Timeout)
            }
        }),
{
    if reply.len() >= 2 && reply[0] == 0 {
        let avail = reply.len() - 2;
        let n = if (reply[1] as usize) <= avail { reply[1] as usize } else { avail };
        match str_from_utf8(vstd::slice::slice_subrange(reply, 2, 2 + n)) {
            Some(s) => Ok(s),
            None => Err(Error::ValueError),
        }
    } else {
        Err(Error::Timeout)
    }
}

/// Writes a status request; returns its size.
pub fn status_request(buf: &mut [u8]) -> (r: usize)
    requires
        old(buf)@.len() >= 2,
    ensures
        r == 2,
        final(buf)@ == old(buf)@.update(0, proto::PACKET_HEADER).update(1, STATUS),
{
    match GetStatusRequest::try_alloc(buf) {
        Ok(p) => p.commit(0),
        Err(_) => 0,
    }
}

/// The status in a status reply; any other reply is a timeout.
pub fn parse_status(reply: &[u8]) -> (r: Result<Status, Error>)
    ensures
        ({
            if spec_packet_error(reply@, spec_response_size(reply@[1])) is None && reply@[1] == STATUS {
                r == Ok::<Status, Error>(
                    Status {
                        gnddet: reply@[2] & 0x80 != 0,
                        target_mv: spec_u16_le(reply@, 3),
                        signal_mv: spec_u16_le(reply@, 5),
                    },
                )
            } else {
                r == Err::<Status, Error>(Error::Timeout)
            }
        }),
{
    match Packet::try_parse_response(reply) {
        Ok(Packet::GetStatusResponse(res)) => {
            let flags = proto::StatusFlags { inner: res.get_flags() };
            let target_mv = res.get_target_voltage();
            let signal_mv = res.get_signal_voltage();
            proof {
                assert(spec_u16_le(res.base.payload(), 1) == spec_u16_le(reply@, 3));
                assert(spec_u16_le(res.base.payload(), 3) == spec_u16_le(reply@, 5));
            }
            Ok(Status { gnddet: flags.gnd_detect(), target_mv, signal_mv })
        },
        _ => Err(Error::Timeout),
    }
}

/// Writes a read field request for field `field`; returns its size.
pub fn read_field_request(buf: &mut [u8], field: u8) -> (r: usize)
    requires
        old(buf)@.len() >= 3,
    ensures
        r == 3,
        final(buf)@ == old(buf)@.update(0, proto::PACKET_HEADER).update(1, READ_FIELD).update(2, field),
{
    match ReadFieldRequest::try_alloc(buf) {
        Ok(mut p) => {
            p.set_field_id(field);
            p.commit(0)
        },
        Err(_) => 0,
    }
}

/// The field's bytes in a read field reply for `field` that reports
/// success; any other reply is a timeout.
pub fn parse_read_field(reply: &[u8], field: u8) -> (r: Result<Vec<u8>, Error>)
    ensures
        ({
            if spec_packet_error(reply@, spec_response_size(reply@[1])) is None && reply@[1] == READ_FIELD
                && reply@[2] == 0 && reply@[3] == field {
                r matches Ok(v) && v@ == reply@.skip(4)
            } else {
                r == Err::<Vec<u8>, Error>(Error::Timeout)
            }
        }),
{
    match Packet::try_parse_response(reply) {
        Ok(Packet::ReadFieldResponse(res)) => {
            if res.get_status() == 0 && res.get_field_id() == field {
                let data = res.get_data();
                proof {
                    assert(res.base.payload().skip(2) =~= reply@.skip(4));
                }
                Ok(vstd::slice::slice_to_vec(data))
            } else {
                Err(Error::Timeout)
            }
        },
        _ => Err(Error::Timeout),
    }
}

/// Writes a write field request for field `id` with `data`; a value error
/// if the data does not fit the buffer.
pub fn write_field_request(buf: &mut [u8], id: u8, data: &[u8]) -> (r: Result<usize, Error>)
    requires
        old(buf)@.len() >= 3,
    ensures
        data@.len() + 3 <= old(buf)@.len() ==> (r matches Ok(n) && n == 3 + data@.len()),
        data@.len() + 3 <= old(buf)@.len() ==> final(buf)@ == crate::bytes::spec_splice(
            old(buf)@.update(0, proto::PACKET_HEADER).update(1, WRITE_FIELD).update(2, id),
            3,
            data@,
        ),
        data@.len() + 3 > old(buf)@.len() ==> r == Err::<usize, Error>(Error::ConfigValueError),
{
    let len = buf.len();
    let mut p = match WriteFieldRequest::try_alloc(buf) {
        Ok(p) => p,
        Err(_) => {
            return Err(Error::ConfigValueError);
        },
    };
    p.set_field_id(id);
    if data.len() <= len - 3 {
        let n = p.set_data(data);
        proof {
            assert(data@.take(n as int) =~= data@);
        }
        Ok(p.commit(n))
    } else {
        Err(Error::ConfigValueError)
    }
}

/// The outcome of a write field reply for `id`: success, a value error
/// when the probe refused, a timeout for any other reply.
pub fn parse_write_field(reply: &[u8], id: u8) -> (r: Result<(), Error>)
    ensures
        ({
            if spec_packet_error(reply@, spec_response_size(reply@[1])) is None && reply@[1] == WRITE_FIELD {
                if reply@[2] == 0 && reply@[3] == id {
                    r == Ok::<(), Error>(())
                } else {
                    r == Err::<(), Error>(Error::ConfigValueError)
                }
            } else {
                r == Err::<(), Error>(Error::Timeout)
            }
        }),
{
    match Packet::try_parse_response(reply) {
        Ok(Packet::WriteFieldResponse(res)) => {
            if res.get_status() == 0 && res.get_field_id() == id {
                Ok(())
            } else {
                Err(Error::ConfigValueError)
            }
        },
        _ => Err(Error::Timeout),
    }
}

/// Writes a reset request; returns its size.
pub fn reset_request(buf: &mut [u8], reset_type: ResetType) -> (r: usize)
    requires
        old(buf)@.len() >= 3,
    ensures
        r == 3,
        final(buf)@ == old(buf)@.update(0, proto::PACKET_HEADER).update(1, proto::RESET).update(2, 255u8),
{
    match ResetRequest::try_alloc(buf) {
        Ok(mut p) => {
            p.set_reset_type(reset_type.to_u8());
            p.commit(0)
        },
        Err(_) => 0,
    }
}

/// The power configuration from the bytes read from the probe: the
/// settings of the stored field when it reads as one, else the factory
/// settings.
pub fn power_config_from_read(data: Option<&[u8]>) -> (r: PowerControl)
    ensures
        match data {
            Some(d) if d@.len() >= 6 && d@[0] == 0 => r == spec_settings(
                field::PowerControl { inner: [d@[0], d@[1], d@[2], d@[3], d@[4], d@[5]] },
            ),
            _ => r == spec_settings(field::PowerControl { inner: [0x00u8, 0xC0u8, 0xE4u8, 0x0Cu8, 0x00u8, 0x00u8] }),
        },
{
    match data {
        Some(d) => match field::PowerControl::try_parse(d) {
            Ok(f) => {
                let r = PowerControl::from_field(&f);
                proof {
                    assert(f.bytes() =~= [d@[0], d@[1], d@[2], d@[3], d@[4], d@[5]]@);
                }
                r
            },
            Err(_) => PowerControl::default(),
        },
        None => PowerControl::default(),
    }
}


/// The changes a user asks of the power configuration; `None` leaves a
/// setting as it is.
#[derive(Clone, Copy, Debug)]
pub struct PowerControlChanges {
    /// Start from the factory settings.
    pub default: bool,
    pub signal_gnddet: Option<bool>,
    pub signal_target: Option<bool>,
    pub follow_target: Option<bool>,
    pub signal: Option<u16>,
    pub target_output: Option<bool>,
    pub target_gnddet: Option<bool>,
    pub target: Option<u16>,
    pub key5v: Option<bool>,
}

/// `v` when asked for, else `old`.
pub open spec fn spec_pick<T>(v: Option<T>, old: T) -> T {
    match v {
        Some(x) => x,
        None => old,
    }
}

impl PowerControlChanges {
    /// Whether anything is asked for.
    pub open spec fn any(&self) -> bool {
        self.default || self.signal_gnddet is Some || self.signal_target is Some || self.follow_target is Some
            || self.signal is Some || self.target_output is Some || self.target_gnddet is Some || self.target is Some
            || self.key5v is Some
    }

    /// Applies the changes to `cfg` (the factory settings first, when asked
    /// for); true if anything was asked for.
    pub fn apply(&self, cfg: &mut PowerControl) -> (changed: bool)
        ensures
            changed == self.any(),
            ({
                let base = if self.default {
                    spec_settings(field::PowerControl { inner: [0x00u8, 0xC0u8, 0xE4u8, 0x0Cu8, 0x00u8, 0x00u8] })
                } else {
                    *old(cfg)
                };
                *final(cfg) == PowerControl {
                    key5v_enable: spec_pick(self.key5v, base.key5v_enable),
                    signal_follows_tvcc: spec_pick(self.follow_target, base.signal_follows_tvcc),
                    signal_gated_by_gnddet: spec_pick(self.signal_gnddet, base.signal_gated_by_gnddet),
                    signal_gated_by_tvcc: spec_pick(self.signal_target, base.signal_gated_by_tvcc),
                    signal_default_mv: spec_pick(self.signal, base.signal_default_mv),
                    tvcc_output: spec_pick(self.target_output, base.tvcc_output),
                    tvcc_gated_by_gnddet: spec_pick(self.target_gnddet, base.tvcc_gated_by_gnddet),
                    tvcc_output_mv: spec_pick(self.target, base.tvcc_output_mv),
                }
            }),
    {
        let base = if self.default { PowerControl::default() } else { *cfg };
        *cfg = PowerControl {
            key5v_enable: pick(self.key5v, base.key5v_enable),
            signal_follows_tvcc: pick(self.follow_target, base.signal_follows_tvcc),
            signal_gated_by_gnddet: pick(self.signal_gnddet, base.signal_gated_by_gnddet),
            signal_gated_by_tvcc: pick(self.signal_target, base.signal_gated_by_tvcc),
            signal_default_mv: pick(self.signal, base.signal_default_mv),
            tvcc_output: pick(self.target_output, base.tvcc_output),
            tvcc_gated_by_gnddet: pick(self.target_gnddet, base.tvcc_gated_by_gnddet),
            tvcc_output_mv: pick(self.target, base.tvcc_output_mv),
        };
        self.default || self.signal_gnddet.is_some() || self.signal_target.is_some() || self.follow_target.is_some()
            || self.signal.is_some() || self.target_output.is_some() || self.target_gnddet.is_some()
            || self.target.is_some() || self.key5v.is_some()
    }
}

/// The value asked for, or the old one.
fn pick<T: Copy>(v: Option<T>, old: T) -> (r: T)
    ensures
        r == spec_pick(v, old),
{
    match v {
        Some(x) => x,
        None => old,
    }
}


} // verus!
