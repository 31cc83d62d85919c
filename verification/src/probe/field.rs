//! Configuration fields: the power control field's six bytes (a zero
//! version byte, a flag byte, the default signal voltage and the TVCC
//! output voltage in millivolts, little-endian).

use vstd::prelude::*;
use crate::bytes::{read_u16_le, spec_u16_le, u16_to_le_bytes, spec_u16_bytes};
use crate::probe::proto::Error;

verus! {

/// A configuration field with a numeric id.
pub trait Field {
    const ID: u8;
}

/// The id of the power control field.
pub const POWER_CONTROL_ID: u8 = 0;

/// The flag bits of the power control flag byte.
pub const KEY5V_ENABLE: u8 = 0x80;
pub const SIGNAL_FOLLOW_TVCC: u8 = 0x40;
pub const SIGNAL_GATED_GND_DET: u8 = 0x20;
pub const SIGNAL_GATED_TVCC: u8 = 0x10;
pub const TVCC_OUTPUT: u8 = 0x08;
pub const TVCC_GATED_GND_DET: u8 = 0x04;

/// `b` with the bits of `mask` set when `value` holds, cleared otherwise.
pub open spec fn spec_set_flag(b: u8, mask: u8, value: bool) -> u8 {
    (b & !mask) | (if value { mask } else { 0u8 })
}

/// The power control field.
#[derive(Clone, Copy, Debug)]
pub struct PowerControl {
    pub inner: [u8; 6],
}

/// A power control field held by value.
pub type OwnedPowerControl = PowerControl;

impl Field for PowerControl {
    const ID: u8 = 0;
}

impl PowerControl {
    pub open spec fn bytes(&self) -> Seq<u8> {
        self.inner@
    }

    pub open spec fn flag(&self, mask: u8) -> bool {
        self.bytes()[1] & mask != 0
    }

    pub open spec fn spec_transvcc_default_mv(&self) -> u16 {
        spec_u16_le(self.bytes(), 2)
    }

    pub open spec fn spec_tvcc_output_mv(&self) -> u16 {
        spec_u16_le(self.bytes(), 4)
    }

    /// The factory setting: the signal voltage defaults to 3.3 V and
    /// follows TVCC, TVCC is an input, and the 5 V key output is on.
    pub fn default() -> (r: OwnedPowerControl)
        ensures
            r.bytes() == seq![0x00u8, 0xC0u8, 0xE4u8, 0x0Cu8, 0x00u8, 0x00u8],
    {
        let inner = [0x00, 0b11000000, 0xE4, 0x0C, 0x00, 0x00];
        PowerControl { inner }
    }

    /// Reads a field from its stored bytes: at least six, the first zero.
    pub fn try_parse(inner: &[u8]) -> (r: Result<Self, Error>)
        ensures
            match r {
                Ok(f) => inner@.len() >= 6 && inner@[0] == 0 && f.bytes() == inner@.take(6),
                Err(e) => !(inner@.len() >= 6 && inner@[0] == 0) && e == Error::InvalidPacket,
            },
    {
        if inner.len() >= 6 && inner[0] == 0 {
            let f = PowerControl { inner: [inner[0], inner[1], inner[2], inner[3], inner[4], inner[5]] };
            assert(f.bytes() =~= inner@.take(6));
            Ok(f)
        } else {
            Err(Error::InvalidPacket)
        }
    }

    /// A field over the caller's buffer, which must hold at least six
    /// bytes: what the field's setters and `commit` write goes into it.
    pub fn try_alloc<'a>(inner: &'a mut [u8]) -> (r: Result<PowerControlMut<'a>, Error>)
        ensures
            match r {
                Ok(f) => old(inner)@.len() >= 6 && f.inner@ == old(inner)@ && final(f.inner)@ == final(inner)@,
                Err(e) => old(inner)@.len() < 6 && e == Error::NotEnoughBytes && final(inner)@ == old(inner)@,
            },
    {
        if inner.len() >= 6 {
            Ok(PowerControlMut { inner })
        } else {
            Err(Error::NotEnoughBytes)
        }
    }

    /// Marks the field's version (byte 0 is zero) and returns its size.
    pub fn commit(&mut self) -> (r: usize)
        ensures
            r == 6,
            final(self).bytes() == old(self).bytes().update(0, 0u8),
    {
        self.inner[0] = 0;
        6
    }

    pub fn as_owned(&self) -> (r: OwnedPowerControl)
        ensures
            r == *self,
    {
        *self
    }

    /// The field's six bytes.
    pub fn data(&self) -> (r: &[u8])
        ensures
            r@ == self.bytes(),
    {
        self.inner.as_slice()
    }

    /// Copies the bytes of `other`.
    pub fn clone_from(&mut self, other: &PowerControl)
        ensures
            *final(self) == *other,
    {
        self.inner = other.inner;
    }

    fn get_flag(&self, mask: u8) -> (r: bool)
        ensures
            r == self.flag(mask),
    {
        self.inner[1] & mask != 0
    }

    fn set_flag(&mut self, mask: u8, value: bool)
        ensures
            final(self).bytes() == old(self).bytes().update(1, spec_set_flag(old(self).bytes()[1], mask, value)),
    {
        let v: u8 = if value { mask } else { 0 };
        self.inner[1] = (self.inner[1] & !mask) | v;
        assert(self.bytes() =~= old(self).bytes().update(1, spec_set_flag(old(self).bytes()[1], mask, value)));
    }

    pub fn key5v_enable(&self) -> (r: bool)
        ensures
            r == self.flag(KEY5V_ENABLE),
    {
        self.get_flag(KEY5V_ENABLE)
    }

    pub fn transvcc_follows_tvcc(&self) -> (r: bool)
        ensures
            r == self.flag(SIGNAL_FOLLOW_TVCC),
    {
        self.get_flag(SIGNAL_FOLLOW_TVCC)
    }

    pub fn transvcc_gated_by_gnddet(&self) -> (r: bool)
        ensures
            r == self.flag(SIGNAL_GATED_GND_DET),
    {
        self.get_flag(SIGNAL_GATED_GND_DET)
    }

    pub fn transvcc_gated_by_tvcc(&self) -> (r: bool)
        ensures
            r == self.flag(SIGNAL_GATED_TVCC),
    {
        self.get_flag(SIGNAL_GATED_TVCC)
    }

    pub fn tvcc_output(&self) -> (r: bool)
        ensures
            r == self.flag(TVCC_OUTPUT),
    {
        self.get_flag(TVCC_OUTPUT)
    }

    pub fn tvcc_gated_by_gnddet(&self) -> (r: bool)
        ensures
            r == self.flag(TVCC_GATED_GND_DET),
    {
        self.get_flag(TVCC_GATED_GND_DET)
    }

    pub fn transvcc_default_mv(&self) -> (r: u16)
        ensures
            r == self.spec_transvcc_default_mv(),
    {
        read_u16_le(self.inner.as_slice(), 2)
    }

    pub fn tvcc_output_mv(&self) -> (r: u16)
        ensures
            r == self.spec_tvcc_output_mv(),
    {
        read_u16_le(self.inner.as_slice(), 4)
    }

    pub fn set_key5v_enable(&mut self, value: bool)
        ensures
            final(self).bytes() == old(self).bytes().update(1, spec_set_flag(old(self).bytes()[1], KEY5V_ENABLE, value)),
    {
        self.set_flag(KEY5V_ENABLE, value);
    }

    pub fn set_transvcc_follows_tvcc(&mut self, value: bool)
        ensures
            final(self).bytes() == old(self).bytes().update(
                1,
                spec_set_flag(old(self).bytes()[1], SIGNAL_FOLLOW_TVCC, value),
            ),
    {
        self.set_flag(SIGNAL_FOLLOW_TVCC, value);
    }

    pub fn set_transvcc_gated_by_gnddet(&mut self, value: bool)
        ensures
            final(self).bytes() == old(self).bytes().update(
                1,
                spec_set_flag(old(self).bytes()[1], SIGNAL_GATED_GND_DET, value),
            ),
    {
        self.set_flag(SIGNAL_GATED_GND_DET, value);
    }

    pub fn set_transvcc_gated_by_tvcc(&mut self, value: bool)
        ensures
            final(self).bytes() == old(self).bytes().update(
                1,
                spec_set_flag(old(self).bytes()[1], SIGNAL_GATED_TVCC, value),
            ),
    {
        self.set_flag(SIGNAL_GATED_TVCC, value);
    }

    pub fn set_tvcc_output(&mut self, value: bool)
        ensures
            final(self).bytes() == old(self).bytes().update(1, spec_set_flag(old(self).bytes()[1], TVCC_OUTPUT, value)),
    {
        self.set_flag(TVCC_OUTPUT, value);
    }

    pub fn set_tvcc_gated_by_gnddet(&mut self, value: bool)
        ensures
            final(self).bytes() == old(self).bytes().update(
                1,
                spec_set_flag(old(self).bytes()[1], TVCC_GATED_GND_DET, value),
            ),
    {
        self.set_flag(TVCC_GATED_GND_DET, value);
    }

    pub fn set_transvcc_default_mv(&mut self, value: u16)
        ensures
            final(self).bytes() == old(self).bytes().update(2, spec_u16_bytes(value)[0]).update(3, spec_u16_bytes(value)[1]),
    {
        let b = u16_to_le_bytes(value);
        self.inner[2] = b[0];
        self.inner[3] = b[1];
        assert(self.bytes() =~= old(self).bytes().update(2, spec_u16_bytes(value)[0]).update(3, spec_u16_bytes(value)[1]));
    }

    pub fn set_tvcc_output_mv(&mut self, value: u16)
        ensures
            final(self).bytes() == old(self).bytes().update(4, spec_u16_bytes(value)[0]).update(5, spec_u16_bytes(value)[1]),
    {
        let b = u16_to_le_bytes(value);
        self.inner[4] = b[0];
        self.inner[5] = b[1];
        assert(self.bytes() =~= old(self).bytes().update(4, spec_u16_bytes(value)[0]).update(5, spec_u16_bytes(value)[1]));
    }
}

/// The power control field over a caller's buffer of at least six bytes;
/// its setters and `commit` write into that buffer.
pub struct PowerControlMut<'a> {
    pub inner: &'a mut [u8],
}

impl<'a> Field for PowerControlMut<'a> {
    const ID: u8 = 0;
}

impl<'a> PowerControlMut<'a> {
    pub open spec fn wf(&self) -> bool {
        self.inner@.len() >= 6
    }

    /// The field's six bytes.
    pub open spec fn bytes(&self) -> Seq<u8> {
        self.inner@.take(6)
    }

    pub open spec fn flag(&self, mask: u8) -> bool {
        self.bytes()[1] & mask != 0
    }

    pub open spec fn spec_transvcc_default_mv(&self) -> u16 {
        spec_u16_le(self.bytes(), 2)
    }

    pub open spec fn spec_tvcc_output_mv(&self) -> u16 {
        spec_u16_le(self.bytes(), 4)
    }

    /// Marks the field's version (byte 0 is zero) in the buffer and returns
    /// the field's size; the rest of the buffer is left as it is.
    pub fn commit(self) -> (r: usize)
        requires
            self.wf(),
        ensures
            r == 6,
            final(self.inner)@ == old(self.inner)@.update(0, 0u8),
    {
        let PowerControlMut { inner } = self;
        inner[0] = 0;
        6
    }

    /// A copy of the field's six bytes.
    pub fn as_owned(&self) -> (r: OwnedPowerControl)
        requires
            self.wf(),
        ensures
            r.bytes() == self.bytes(),
    {
        let r = PowerControl {
            inner: [self.inner[0], self.inner[1], self.inner[2], self.inner[3], self.inner[4], self.inner[5]],
        };
        assert(r.bytes() =~= self.bytes());
        r
    }

    /// The field's six bytes.
    pub fn data(&self) -> (r: &[u8])
        requires
            self.wf(),
        ensures
            r@ == self.bytes(),
    {
        vstd::slice::slice_subrange(&*self.inner, 0, 6)
    }

    /// Copies `other` into the buffer, as many bytes as the shorter of the
    /// two holds: `other` holds six and the buffer at least six, so its
    /// first six bytes become those of `other`.
    pub fn clone_from(&mut self, other: &PowerControl)
        requires
            old(self).wf(),
        ensures
            final(self).inner@ == other.bytes() + old(self).inner@.skip(6),
            final(final(self).inner)@ == final(old(self).inner)@,
    {
        let mut i: usize = 0;
        while i < 6
            invariant
                0 <= i <= 6,
                self.inner@.len() == old(self).inner@.len(),
                self.inner@.len() >= 6,
                forall|j: int| 0 <= j < i ==> self.inner@[j] == other.bytes()[j],
                forall|j: int| i <= j < self.inner@.len() ==> self.inner@[j] == old(self).inner@[j],
                final(self.inner)@ == final(old(self).inner)@,
            decreases 6 - i,
        {
            self.inner[i] = other.inner[i];
            i = i + 1;
        }
        assert(self.inner@ =~= other.bytes() + old(self).inner@.skip(6));
    }

    fn get_flag(&self, mask: u8) -> (r: bool)
        requires
            self.wf(),
        ensures
            r == self.flag(mask),
    {
        self.inner[1] & mask != 0
    }

    fn set_flag(&mut self, mask: u8, value: bool)
        requires
            old(self).wf(),
        ensures
            final(self).inner@ == old(self).inner@.update(1, spec_set_flag(old(self).inner@[1], mask, value)),
            final(final(self).inner)@ == final(old(self).inner)@,
    {
        let v: u8 = if value { mask } else { 0 };
        self.inner[1] = (self.inner[1] & !mask) | v;
    }

    pub fn key5v_enable(&self) -> (r: bool)
        requires
            self.wf(),
        ensures
            r == self.flag(KEY5V_ENABLE),
    {
        self.get_flag(KEY5V_ENABLE)
    }

    pub fn transvcc_follows_tvcc(&self) -> (r: bool)
        requires
            self.wf(),
        ensures
            r == self.flag(SIGNAL_FOLLOW_TVCC),
    {
        self.get_flag(SIGNAL_FOLLOW_TVCC)
    }

    pub fn transvcc_gated_by_gnddet(&self) -> (r: bool)
        requires
            self.wf(),
        ensures
            r == self.flag(SIGNAL_GATED_GND_DET),
    {
        self.get_flag(SIGNAL_GATED_GND_DET)
    }

    pub fn transvcc_gated_by_tvcc(&self) -> (r: bool)
        requires
            self.wf(),
        ensures
            r == self.flag(SIGNAL_GATED_TVCC),
    {
        self.get_flag(SIGNAL_GATED_TVCC)
    }

    pub fn tvcc_output(&self) -> (r: bool)
        requires
            self.wf(),
        ensures
            r == self.flag(TVCC_OUTPUT),
    {
        self.get_flag(TVCC_OUTPUT)
    }

    pub fn tvcc_gated_by_gnddet(&self) -> (r: bool)
        requires
            self.wf(),
        ensures
            r == self.flag(TVCC_GATED_GND_DET),
    {
        self.get_flag(TVCC_GATED_GND_DET)
    }

    pub fn transvcc_default_mv(&self) -> (r: u16)
        requires
            self.wf(),
        ensures
            r == self.spec_transvcc_default_mv(),
    {
        let r = read_u16_le(&*self.inner, 2);
        assert(spec_u16_le(self.inner@, 2) == spec_u16_le(self.bytes(), 2));
        r
    }

    pub fn tvcc_output_mv(&self) -> (r: u16)
        requires
            self.wf(),
        ensures
            r == self.spec_tvcc_output_mv(),
    {
        let r = read_u16_le(&*self.inner, 4);
        assert(spec_u16_le(self.inner@, 4) == spec_u16_le(self.bytes(), 4));
        r
    }

    pub fn set_key5v_enable(&mut self, value: bool)
        requires
            old(self).wf(),
        ensures
            final(self).inner@ == old(self).inner@.update(1, spec_set_flag(old(self).inner@[1], KEY5V_ENABLE, value)),
            final(final(self).inner)@ == final(old(self).inner)@,
    {
        self.set_flag(KEY5V_ENABLE, value);
    }

    pub fn set_transvcc_follows_tvcc(&mut self, value: bool)
        requires
            old(self).wf(),
        ensures
            final(self).inner@ == old(self).inner@.update(1, spec_set_flag(old(self).inner@[1], SIGNAL_FOLLOW_TVCC, value)),
            final(final(self).inner)@ == final(old(self).inner)@,
    {
        self.set_flag(SIGNAL_FOLLOW_TVCC, value);
    }

    pub fn set_transvcc_gated_by_gnddet(&mut self, value: bool)
        requires
            old(self).wf(),
        ensures
            final(self).inner@ == old(self).inner@.update(
                1,
                spec_set_flag(old(self).inner@[1], SIGNAL_GATED_GND_DET, value),
            ),
            final(final(self).inner)@ == final(old(self).inner)@,
    {
        self.set_flag(SIGNAL_GATED_GND_DET, value);
    }

    pub fn set_transvcc_gated_by_tvcc(&mut self, value: bool)
        requires
            old(self).wf(),
        ensures
            final(self).inner@ == old(self).inner@.update(1, spec_set_flag(old(self).inner@[1], SIGNAL_GATED_TVCC, value)),
            final(final(self).inner)@ == final(old(self).inner)@,
    {
        self.set_flag(SIGNAL_GATED_TVCC, value);
    }

    pub fn set_tvcc_output(&mut self, value: bool)
        requires
            old(self).wf(),
        ensures
            final(self).inner@ == old(self).inner@.update(1, spec_set_flag(old(self).inner@[1], TVCC_OUTPUT, value)),
            final(final(self).inner)@ == final(old(self).inner)@,
    {
        self.set_flag(TVCC_OUTPUT, value);
    }

    pub fn set_tvcc_gated_by_gnddet(&mut self, value: bool)
        requires
            old(self).wf(),
        ensures
            final(self).inner@ == old(self).inner@.update(1, spec_set_flag(old(self).inner@[1], TVCC_GATED_GND_DET, value)),
            final(final(self).inner)@ == final(old(self).inner)@,
    {
        self.set_flag(TVCC_GATED_GND_DET, value);
    }

    pub fn set_transvcc_default_mv(&mut self, value: u16)
        requires
            old(self).wf(),
        ensures
            final(self).inner@ == old(self).inner@.update(2, spec_u16_bytes(value)[0]).update(3, spec_u16_bytes(value)[1]),
            final(final(self).inner)@ == final(old(self).inner)@,
    {
        let b = u16_to_le_bytes(value);
        self.inner[2] = b[0];
        self.inner[3] = b[1];
    }

    pub fn set_tvcc_output_mv(&mut self, value: u16)
        requires
            old(self).wf(),
        ensures
            final(self).inner@ == old(self).inner@.update(4, spec_u16_bytes(value)[0]).update(5, spec_u16_bytes(value)[1]),
            final(final(self).inner)@ == final(old(self).inner)@,
    {
        let b = u16_to_le_bytes(value);
        self.inner[4] = b[0];
        self.inner[5] = b[1];
    }
}

/// The flag byte `b` after the six flags are set, in the order of the
/// setters: 5 V key, signal follows TVCC, signal gated by ground detect,
/// signal gated by TVCC, TVCC output, TVCC gated by ground detect.
pub open spec fn spec_flags_written(b: u8, k: bool, f: bool, gg: bool, gt: bool, o: bool, og: bool) -> u8 {
    spec_set_flag(
        spec_set_flag(
            spec_set_flag(
                spec_set_flag(spec_set_flag(spec_set_flag(b, KEY5V_ENABLE, k), SIGNAL_FOLLOW_TVCC, f), SIGNAL_GATED_GND_DET, gg),
                SIGNAL_GATED_TVCC,
                gt,
            ),
            TVCC_OUTPUT,
            o,
        ),
        TVCC_GATED_GND_DET,
        og,
    )
}

/// The buffer `b` after a field over it has had every setter called (the
/// six flags, then the default signal voltage `dm` and the TVCC output
/// voltage `om`) and has been committed.
pub open spec fn spec_power_committed(
    b: Seq<u8>,
    k: bool,
    f: bool,
    gg: bool,
    gt: bool,
    o: bool,
    og: bool,
    dm: u16,
    om: u16,
) -> Seq<u8> {
    b.update(1, spec_flags_written(b[1], k, f, gg, gt, o, og)).update(2, spec_u16_bytes(dm)[0]).update(
        3,
        spec_u16_bytes(dm)[1],
    ).update(4, spec_u16_bytes(om)[0]).update(5, spec_u16_bytes(om)[1]).update(0, 0u8)
}

/// A power control field written through the caller's buffer reads back:
/// once every setter has been called and the field committed, the
/// buffer's first six bytes parse as a field (version byte zero) whose
/// flags and voltages are the ones that were set, whatever the buffer held.
pub proof fn lemma_power_committed_reads_back(
    b: Seq<u8>,
    k: bool,
    f: bool,
    gg: bool,
    gt: bool,
    o: bool,
    og: bool,
    dm: u16,
    om: u16,
)
    requires
        b.len() >= 6,
    ensures
        ({
            let c = spec_power_committed(b, k, f, gg, gt, o, og, dm, om);
            &&& c.len() == b.len()
            &&& c[0] == 0
            &&& (c[1] & KEY5V_ENABLE != 0) == k
            &&& (c[1] & SIGNAL_FOLLOW_TVCC != 0) == f
            &&& (c[1] & SIGNAL_GATED_GND_DET != 0) == gg
            &&& (c[1] & SIGNAL_GATED_TVCC != 0) == gt
            &&& (c[1] & TVCC_OUTPUT != 0) == o
            &&& (c[1] & TVCC_GATED_GND_DET != 0) == og
            &&& spec_u16_le(c, 2) == dm
            &&& spec_u16_le(c, 4) == om
        }),
{
    let c = spec_power_committed(b, k, f, gg, gt, o, og, dm, om);
    let b1 = b[1];
    let x = spec_flags_written(b1, k, f, gg, gt, o, og);
    assert(x == (((((((((((b1 & !0x80u8) | (if k { 0x80u8 } else { 0u8 })) & !0x40u8) | (if f { 0x40u8 } else { 0u8 }))
        & !0x20u8) | (if gg { 0x20u8 } else { 0u8 })) & !0x10u8) | (if gt { 0x10u8 } else { 0u8 })) & !0x08u8) | (if o {
        0x08u8
    } else {
        0u8
    })) & !0x04u8) | (if og { 0x04u8 } else { 0u8 }));
    assert({
        let y = (((((((((((b1 & !0x80u8) | (if k { 0x80u8 } else { 0u8 })) & !0x40u8) | (if f { 0x40u8 } else { 0u8 }))
            & !0x20u8) | (if gg { 0x20u8 } else { 0u8 })) & !0x10u8) | (if gt { 0x10u8 } else { 0u8 })) & !0x08u8) | (
        if o {
            0x08u8
        } else {
            0u8
        })) & !0x04u8) | (if og { 0x04u8 } else { 0u8 });
        &&& (y & 0x80u8 != 0) == k
        &&& (y & 0x40u8 != 0) == f
        &&& (y & 0x20u8 != 0) == gg
        &&& (y & 0x10u8 != 0) == gt
        &&& (y & 0x08u8 != 0) == o
        &&& (y & 0x04u8 != 0) == og
    }) by (bit_vector);
    assert(c[1] == x);
    assert(c[2] == (dm % 256) as u8 && c[3] == (dm / 256) as u8);
    assert(c[4] == (om % 256) as u8 && c[5] == (om / 256) as u8);
}

/// Setting a flag reads back, and leaves the other flags as they were.
pub proof fn lemma_set_flag(b: u8, mask: u8, value: bool, other: u8)
    requires
        mask == KEY5V_ENABLE || mask == SIGNAL_FOLLOW_TVCC || mask == SIGNAL_GATED_GND_DET || mask
            == SIGNAL_GATED_TVCC || mask == TVCC_OUTPUT || mask == TVCC_GATED_GND_DET,
        other == KEY5V_ENABLE || other == SIGNAL_FOLLOW_TVCC || other == SIGNAL_GATED_GND_DET || other
            == SIGNAL_GATED_TVCC || other == TVCC_OUTPUT || other == TVCC_GATED_GND_DET,
    ensures
        (spec_set_flag(b, mask, value) & mask != 0) == value,
        other != mask ==> ((spec_set_flag(b, mask, value) & other != 0) == (b & other != 0)),
{
    let r = spec_set_flag(b, mask, value);
    if value {
        assert(r == (b & !mask) | mask);
        assert(((b & !mask) | mask) & mask != 0) by (bit_vector)
            requires
                mask == 0x80u8 || mask == 0x40u8 || mask == 0x20u8 || mask == 0x10u8 || mask == 0x08u8 || mask
                    == 0x04u8,
        ;
        assert(other != mask ==> ((((b & !mask) | mask) & other != 0) == (b & other != 0))) by (bit_vector)
            requires
                mask == 0x80u8 || mask == 0x40u8 || mask == 0x20u8 || mask == 0x10u8 || mask == 0x08u8 || mask
                    == 0x04u8,
                other == 0x80u8 || other == 0x40u8 || other == 0x20u8 || other == 0x10u8 || other == 0x08u8
                    || other == 0x04u8,
        ;
    } else {
        assert(r == (b & !mask) | 0u8);
        assert(((b & !mask) | 0u8) & mask == 0) by (bit_vector);
        assert(other != mask ==> ((((b & !mask) | 0u8) & other != 0) == (b & other != 0))) by (bit_vector)
            requires
                mask == 0x80u8 || mask == 0x40u8 || mask == 0x20u8 || mask == 0x10u8 || mask == 0x08u8 || mask
                    == 0x04u8,
                other == 0x80u8 || other == 0x40u8 || other == 0x20u8 || other == 0x10u8 || other == 0x08u8
                    || other == 0x04u8,
        ;
    }
}

} // verus!
