//! The decisions of a port that drives the debug pins from software: the
//! clock period, which levels an SWJ pins request drives and what it reads
//! back, and how the bits of a sequence map onto clock cycles (the first
//! bit is the least significant bit of the first byte).

use vstd::prelude::*;
use crate::cmsis_dap::types::Pins;

verus! {

/// The functions a data pin is switched between: plain GPIO, or the SWO
/// capture peripheral.
#[derive(Clone, Copy, Debug, PartialEq, Eq, Structural)]
pub enum IOFunction {
    Gpio,
    SWO,
}

impl IOFunction {
    /// The function select number of the pin's control register.
    pub fn get_pac_funcsel(&self) -> (r: u8)
        ensures
            r == (match self {
                IOFunction::Gpio => 5u8,
                IOFunction::SWO => 2u8,
            }),
    {
        match self {
            IOFunction::Gpio => 5,
            IOFunction::SWO => 2,
        }
    }
}

/// The fastest clock the port runs, in hertz.
pub const MAX_FREQ_HZ: u32 = 500000;

/// The clock period in microseconds for a requested SWJ clock of `freq_hz`;
/// requests above the fastest clock get the fastest.
pub fn tick_micros(freq_hz: u32) -> (r: u32)
    requires
        freq_hz > 0,
    ensures
        r == MAX_FREQ_HZ / (if freq_hz < MAX_FREQ_HZ { freq_hz } else { MAX_FREQ_HZ }),
{
    let f = if freq_hz < MAX_FREQ_HZ { freq_hz } else { MAX_FREQ_HZ };
    MAX_FREQ_HZ / f
}

/// The level an SWJ pins request drives on each pin; `None` leaves the pin
/// as it is.
#[derive(Clone, Copy, Debug)]
pub struct PinDrive {
    pub swclk_tck: Option<bool>,
    pub swdio_tms: Option<bool>,
    pub tdi: Option<bool>,
    pub nreset: Option<bool>,
    pub ntrst: Option<bool>,
}

/// The level driven on the pin of bit `bit`: its level in `out` when `mask`
/// selects it.
pub open spec fn spec_drive(out: u8, mask: u8, bit: u8) -> Option<bool> {
    if mask & bit != 0 {
        Some(out & bit != 0)
    } else {
        None
    }
}

/// The levels to drive for an SWJ pins request: each pin that `mask`
/// selects, at its level in `out`. TDO is an input and is never driven.
pub fn pins_to_drive(out: Pins, mask: Pins) -> (r: PinDrive)
    ensures
        r.swclk_tck == spec_drive(out.0, mask.0, 0x01),
        r.swdio_tms == spec_drive(out.0, mask.0, 0x02),
        r.tdi == spec_drive(out.0, mask.0, 0x04),
        r.ntrst == spec_drive(out.0, mask.0, 0x20),
        r.nreset == spec_drive(out.0, mask.0, 0x80),
{
    PinDrive {
        swclk_tck: if mask.get_swclk_tck() { Some(out.get_swclk_tck()) } else { None },
        swdio_tms: if mask.get_swdio_tms() { Some(out.get_swdio_tms()) } else { None },
        tdi: if mask.get_tdi() { Some(out.get_tdi()) } else { None },
        nreset: if mask.get_nreset() { Some(out.get_nreset()) } else { None },
        ntrst: if mask.get_ntrst() { Some(out.get_ntrst()) } else { None },
    }
}

/// The levels sampled on the port's pins; a pin the port lacks reads low.
#[derive(Clone, Copy, Debug)]
pub struct PinLevels {
    pub swclk_tck: bool,
    pub swdio_tms: bool,
    pub tdi: bool,
    pub tdo: bool,
    pub nreset: bool,
    pub ntrst: bool,
}

/// `w` when `b` holds, else nothing.
pub open spec fn spec_weight(b: bool, w: u8) -> int {
    if b {
        w as int
    } else {
        0
    }
}

/// The pins word reported for an SWJ pins request: the current level of
/// every pin as sampled once the request settled, whatever the request
/// selected; bits of no pin are clear.
pub fn pins_read_back(levels: PinLevels) -> (r: Pins)
    ensures
        r.0 == spec_weight(levels.swclk_tck, 0x01) + spec_weight(levels.swdio_tms, 0x02) + spec_weight(
            levels.tdi,
            0x04,
        ) + spec_weight(levels.tdo, 0x08) + spec_weight(levels.ntrst, 0x20) + spec_weight(levels.nreset, 0x80),
{
    let mut bits: u8 = 0;
    if levels.swclk_tck {
        bits = bits + 0x01;
    }
    if levels.swdio_tms {
        bits = bits + 0x02;
    }
    if levels.tdi {
        bits = bits + 0x04;
    }
    if levels.tdo {
        bits = bits + 0x08;
    }
    if levels.ntrst {
        bits = bits + 0x20;
    }
    if levels.nreset {
        bits = bits + 0x80;
    }
    Pins(bits)
}

/// Bit `k` (0 the least significant) of `b`.
pub open spec fn spec_bit(b: u8, k: int) -> bool {
    (b >> (k as u8)) & 1u8 == 1u8
}

/// Setting bit `i` of a byte sets that bit and keeps the others.
proof fn lemma_set_bit(b: u8, i: u8)
    requires
        i < 8,
    ensures
        forall|k: int| 0 <= k < 8 ==> #[trigger] spec_bit(b | (1u8 << i), k) == (k == i || spec_bit(b, k)),
{
    assert forall|k: int| 0 <= k < 8 implies #[trigger] spec_bit(b | (1u8 << i), k) == (k == i || spec_bit(b, k)) by {
        let k8 = k as u8;
        let c = b | (1u8 << i);
        assert(((c >> k8) & 1u8 == 1u8) == (k8 == i || (b >> k8) & 1u8 == 1u8)) by (bit_vector)
            requires
                i < 8,
                k8 < 8,
                c == b | (1u8 << i),
        ;
    }
}

/// No bit of zero is set.
proof fn lemma_zero_bits()
    ensures
        forall|k: int| 0 <= k < 8 ==> !#[trigger] spec_bit(0u8, k),
{
    assert forall|k: int| 0 <= k < 8 implies !#[trigger] spec_bit(0u8, k) by {
        let k8 = k as u8;
        assert((0u8 >> k8) & 1u8 != 1u8) by (bit_vector);
    }
}

/// The byte of `n` sampled bits from `start`.
fn pack_byte(samples: &[bool], start: usize, n: usize) -> (b: u8)
    requires
        n <= 8,
        start + n <= samples@.len(),
    ensures
        forall|k: int| 0 <= k < 8 ==> #[trigger] spec_bit(b, k) == (k < n && samples@[start + k]),
{
    let len = samples.len();
    let mut b: u8 = 0;
    let mut i: usize = 0;
    proof {
        lemma_zero_bits();
    }
    while i < n
        invariant
            len == samples@.len(),
            n <= 8,
            start + n <= samples@.len(),
            i <= n,
            forall|k: int| 0 <= k < 8 ==> #[trigger] spec_bit(b, k) == (k < i && samples@[start + k]),
        decreases n - i,
    {
        if samples[start + i] {
            proof {
                lemma_set_bit(b, i as u8);
            }
            b = b | (1u8 << (i as u8));
        }
        i = i + 1;
    }
    b
}

/// The levels of the first `count` bits of `data`, one per clock cycle.
pub fn unpack_bits(data: &[u8], count: usize) -> (r: Vec<bool>)
    requires
        count <= 8 * data@.len(),
    ensures
        r@.len() == count,
        forall|k: int| 0 <= k < count ==> #[trigger] r@[k] == spec_bit(data@[k / 8], k % 8),
{
    let mut r: Vec<bool> = Vec::new();
    let mut k: usize = 0;
    while k < count
        invariant
            k <= count <= 8 * data@.len(),
            r@.len() == k,
            forall|m: int| 0 <= m < k ==> #[trigger] r@[m] == spec_bit(data@[m / 8], m % 8),
        decreases count - k,
    {
        let b = data[k / 8];
        let shift = (k % 8) as u8;
        r.push((b >> shift) & 1 == 1);
        k = k + 1;
    }
    r
}

/// Packs sampled bits into bytes: the first `count` bytes of `out`, as far
/// as it reaches, are replaced, their bits past the samples clear; the
/// other bytes keep their values.
pub fn pack_bits(samples: &[bool], out: &mut [u8], count: usize)
    ensures
        final(out)@.len() == old(out)@.len(),
        forall|j: int| count <= j < old(out)@.len() ==> #[trigger] final(out)@[j] == old(out)@[j],
        forall|j: int, k: int|
            0 <= j < old(out)@.len() && j < count && 0 <= k < 8 ==> #[trigger] spec_bit(final(out)@[j], k) == (8 * j
                + k < samples@.len() && samples@[8 * j + k]),
{
    let n = if count < out.len() { count } else { out.len() };
    let mut consumed: usize = 0;
    let mut j: usize = 0;
    while j < n
        invariant
            n <= count,
            n <= out@.len() == old(out)@.len(),
            j <= n,
            consumed == if 8 * j <= samples@.len() { 8 * j } else { samples@.len() as int },
            forall|m: int| j <= m < out@.len() ==> #[trigger] out@[m] == old(out)@[m],
            forall|m: int, k: int|
                0 <= m < j && 0 <= k < 8 ==> #[trigger] spec_bit(out@[m], k) == (8 * m + k < samples@.len()
                    && samples@[8 * m + k]),
        decreases n - j,
    {
        let remaining = samples.len() - consumed;
        let b_bits = if remaining < 8 { remaining } else { 8 };
        let b = pack_byte(samples, consumed, b_bits);
        assert forall|k: int| 0 <= k < 8 implies #[trigger] spec_bit(b, k) == (8 * j + k < samples@.len()
            && samples@[8 * j + k]) by {
            if 8 * j <= samples@.len() {
                assert(consumed == 8 * j);
            }
        }
        out[j] = b;
        consumed = consumed + b_bits;
        j = j + 1;
    }
}

/// The bytes and clock cycles of a JTAG transfer of `num_bits` bits with
/// `tdi_len` bytes of data to shift out: as many whole bytes as the bits
/// need, cut to the data there is, and as many cycles as bits in them.
pub fn transfer_extent(num_bits: usize, tdi_len: usize) -> (r: (usize, usize))
    requires
        num_bits <= usize::MAX - 7,
    ensures
        r.0 == (if (num_bits + 7) / 8 <= tdi_len { (num_bits + 7) / 8 } else { tdi_len as int }),
        r.1 == (if num_bits <= 8 * r.0 { num_bits as int } else { 8 * r.0 }),
{
    let need = (num_bits + 7) / 8;
    let num_bytes = if need <= tdi_len { need } else { tdi_len };
    let cycles = if num_bits <= 8 * num_bytes { num_bits } else { 8 * num_bytes };
    (num_bytes, cycles)
}

} // verus!
