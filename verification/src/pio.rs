//! The decisions of the access port that runs SWD and JTAG on a programmable
//! I/O state machine: its clock divider and the frequencies it accepts, the
//! command words that start a sequence, how data bytes are packed into the
//! words pushed to the transmit FIFO and unpacked from the words pulled from
//! the receive FIFO, and which mode the port is in.

use vstd::prelude::*;
use crate::cmsis_dap::types::{Pins, spec_with_flag};
use fixed::traits::ToFixed;
use fixed::types::extra::U8;
use fixed::{FixedU32, FixedU64};

verus! {

/// `FixedU64::<U8>::from_num` on an integer: the fixed-point number whose
/// integer part is `n` and whose fraction is zero, handed back as its bits,
/// which are `n` times 256. With debug assertions on it panics when the value
/// does not fit in 56 integer bits, so `n` stays below 2^56.
#[verifier::external_body]
fn fixed_u64_from_int(n: u64) -> (bits: u64)
    requires
        n < 0x100_0000_0000_0000,
    ensures
        bits == n * 256,
{
    FixedU64::<U8>::from_num(n).to_bits()
}

/// `FixedU64::<U8>` divided by a `u64` (`Div<u64>`): the crate divides the
/// bits by the integer, rounding down. It panics on a zero divisor.
#[verifier::external_body]
fn fixed_u64_div_int(bits: u64, divisor: u64) -> (quotient: u64)
    requires
        divisor > 0,
    ensures
        quotient == bits / divisor,
{
    (FixedU64::<U8>::from_bits(bits) / divisor).to_bits()
}

/// `ToFixed::to_fixed` from `FixedU64::<U8>` to `FixedU32::<U8>`: both have
/// eight fractional bits, so the bits are kept. With debug assertions on it
/// panics when the value does not fit, so the bits stay within a `u32`.
#[verifier::external_body]
fn fixed_u64_to_u32(bits: u64) -> (narrow: u32)
    requires
        bits <= u32::MAX,
    ensures
        narrow == bits,
{
    let value: FixedU32<U8> = FixedU64::<U8>::from_bits(bits).to_fixed();
    value.to_bits()
}

/// The clock divider, in 8.8 fixed point (its bits), that makes a state
/// machine whose program takes `min_decimation` cycles per bit run at
/// `target_freq_hz` from a system clock of `clk_sys_hz`.
pub open spec fn spec_pio_divider(clk_sys_hz: u32, min_decimation: u32, target_freq_hz: u32) -> int {
    (clk_sys_hz * 256) / (target_freq_hz * min_decimation)
}

/// The clock divider bits for a state machine that takes `min_decimation`
/// cycles per bit to run at `target_freq_hz`: the system clock over the
/// bit rate, with eight fractional bits, rounded down.
pub fn get_pio_divider(clk_sys_hz: u32, min_decimation: u32, target_freq_hz: u32) -> (r: u32)
    requires
        0 < target_freq_hz * min_decimation <= u32::MAX,
        spec_pio_divider(clk_sys_hz, min_decimation, target_freq_hz) <= u32::MAX,
    ensures
        r == spec_pio_divider(clk_sys_hz, min_decimation, target_freq_hz),
{
    let clk_fixed = fixed_u64_from_int(clk_sys_hz as u64);
    let rate: u32 = target_freq_hz * min_decimation;
    let divider = fixed_u64_div_int(clk_fixed, rate as u64);
    fixed_u64_to_u32(divider)
}

/// The slowest clock the state machines run, in hertz.
pub const MIN_FREQ_HZ: u32 = 2000;

/// A bound used by the divider proofs: at no less than the slowest clock
/// the divider fits in a `u32`.
proof fn lemma_divider_fits(clk_sys_hz: u32, min_decimation: u32, freq_hz: u32)
    requires
        min_decimation == 2 || min_decimation == 4,
        freq_hz >= MIN_FREQ_HZ,
        freq_hz * min_decimation <= clk_sys_hz,
    ensures
        0 < freq_hz * min_decimation <= u32::MAX,
        spec_pio_divider(clk_sys_hz, min_decimation, freq_hz) <= u32::MAX,
{
    let d: int = freq_hz * min_decimation;
    let n: int = clk_sys_hz * 256;
    assert(d >= 4000) by (nonlinear_arith)
        requires
            freq_hz >= 2000,
            min_decimation >= 2,
            d == freq_hz * min_decimation,
    ;
    assert(n / d <= n / 4000) by {
        vstd::arithmetic::div_mod::lemma_div_is_ordered_by_denominator(n, 4000, d);
    }
}

/// The divider a JTAG state machine is set to for `freq_hz` (four cycles per
/// bit), or `None` when the frequency is refused: above a quarter of the
/// system clock or below the slowest clock.
pub fn jtag_clock_divider(clk_sys_hz: u32, freq_hz: u32) -> (r: Option<u32>)
    ensures
        r is Some <==> (freq_hz <= clk_sys_hz / 4 && freq_hz >= MIN_FREQ_HZ),
        r matches Some(d) ==> d == spec_pio_divider(clk_sys_hz, 4, freq_hz),
{
    if freq_hz <= clk_sys_hz / 4 && freq_hz >= MIN_FREQ_HZ {
        proof {
            lemma_divider_fits(clk_sys_hz, 4, freq_hz);
        }
        Some(get_pio_divider(clk_sys_hz, 4, freq_hz))
    } else {
        None
    }
}

/// The divider an SWD state machine is set to for `freq_hz` (two cycles per
/// bit), or `None` when the frequency is refused: above half the system
/// clock or below the slowest clock.
pub fn swd_clock_divider(clk_sys_hz: u32, freq_hz: u32) -> (r: Option<u32>)
    ensures
        r is Some <==> (freq_hz <= clk_sys_hz / 2 && freq_hz >= MIN_FREQ_HZ),
        r matches Some(d) ==> d == spec_pio_divider(clk_sys_hz, 2, freq_hz),
{
    if freq_hz <= clk_sys_hz / 2 && freq_hz >= MIN_FREQ_HZ {
        proof {
            lemma_divider_fits(clk_sys_hz, 2, freq_hz);
        }
        Some(get_pio_divider(clk_sys_hz, 2, freq_hz))
    } else {
        None
    }
}

/// The bits of a command word's sequence-length field: one less than the
/// number of bits, cut to the field by `mask`.
pub open spec fn spec_length_field(num_bits: u32, mask: u32) -> u32 {
    ((num_bits - 1) as u32) & mask
}

/// The command word that starts a JTAG (or, with `tms` clear, an SWJ)
/// sequence of `num_bits` bits on the program at `address`: the bit count
/// less one in bits 0 to 25, TMS in bit 26, the program address in bits 27
/// to 31.
pub fn jtag_command(num_bits: u32, tms: bool, address: u8) -> (r: u32)
    requires
        num_bits >= 1,
    ensures
        r & 0x03FF_FFFF == spec_length_field(num_bits, 0x03FF_FFFF),
        (r >> 26u32) & 1 == (if tms { 1u32 } else { 0u32 }),
        r >> 27u32 == (address as u32) & 0x1F,
{
    let t: u32 = if tms { 1 } else { 0 };
    let n: u32 = num_bits - 1;
    let a: u32 = address as u32;
    let r: u32 = (n & 0x03FF_FFFF) | (t << 26u32) | (a << 27u32);
    assert(r & 0x03FF_FFFF == n & 0x03FF_FFFF && (r >> 26u32) & 1 == t && r >> 27u32 == a & 0x1F)
        by (bit_vector)
        requires
            t <= 1,
            a <= 0xFF,
            r == (n & 0x03FF_FFFF) | (t << 26u32) | (a << 27u32),
    ;
    r
}

/// The command word that starts an SWD read or write of `num_bits` bits on
/// the program at `address`: the bit count less one in bits 0 to 26, the
/// program address in bits 27 to 31.
pub fn swd_command(num_bits: u32, address: u8) -> (r: u32)
    requires
        num_bits >= 1,
    ensures
        r & 0x07FF_FFFF == spec_length_field(num_bits, 0x07FF_FFFF),
        r >> 27u32 == (address as u32) & 0x1F,
{
    let n: u32 = num_bits - 1;
    let a: u32 = address as u32;
    let r: u32 = (n & 0x07FF_FFFF) | (a << 27u32);
    assert(r & 0x07FF_FFFF == n & 0x07FF_FFFF && r >> 27u32 == a & 0x1F) by (bit_vector)
        requires
            a <= 0xFF,
            r == (n & 0x07FF_FFFF) | (a << 27u32),
    ;
    r
}

/// Byte `i` of `data`, or zero past its end.
pub open spec fn spec_byte_or_zero(data: Seq<u8>, i: int) -> int {
    if 0 <= i < data.len() {
        data[i] as int
    } else {
        0
    }
}

/// The word pushed for the `k`-th group of four bytes of `data`: the group
/// read little-endian, the bytes past the end of `data` taken as zero.
pub open spec fn spec_tx_word(data: Seq<u8>, k: int) -> int {
    spec_byte_or_zero(data, 4 * k) + 256 * spec_byte_or_zero(data, 4 * k + 1) + 65536
        * spec_byte_or_zero(data, 4 * k + 2) + 16777216 * spec_byte_or_zero(data, 4 * k + 3)
}

/// The words pushed to the transmit FIFO for `data`: one per group of four
/// bytes, the last group padded with zero bytes.
pub fn tx_words(data: &[u8]) -> (r: Vec<u32>)
    ensures
        r.len() == (data.len() + 3) / 4,
        forall|k: int| 0 <= k < r.len() ==> r[k] as int == #[trigger] spec_tx_word(data@, k),
{
    let count: usize = chunk_count(data.len());
    let mut words: Vec<u32> = Vec::new();
    let mut k: usize = 0;
    while k < count
        invariant
            count == (data.len() + 3) / 4,
            k <= count,
            words.len() == k,
            forall|j: int| 0 <= j < words.len() ==> words[j] as int == #[trigger] spec_tx_word(data@, j),
        decreases count - k,
    {
        let i: usize = 4 * k;
        let b0: u32 = data[i] as u32;
        let b1: u32 = if i + 1 < data.len() { data[i + 1] as u32 } else { 0 };
        let b2: u32 = if i + 2 < data.len() { data[i + 2] as u32 } else { 0 };
        let b3: u32 = if i + 3 < data.len() { data[i + 3] as u32 } else { 0 };
        let w: u32 = b0 + 256 * b1 + 65536 * b2 + 16777216 * b3;
        proof {
            assert(spec_byte_or_zero(data@, 4 * k) == b0);
            assert(spec_byte_or_zero(data@, 4 * k + 1) == b1);
            assert(spec_byte_or_zero(data@, 4 * k + 2) == b2);
            assert(spec_byte_or_zero(data@, 4 * k + 3) == b3);
        }
        words.push(w);
        k = k + 1;
    }
    words
}

/// How many bits the `k`-th received word holds for a read of `num_bits`
/// bits: 32, but fewer in the last word.
pub open spec fn spec_chunk_bits(num_bits: u32, k: int) -> int {
    if num_bits - 32 * k < 32 {
        num_bits - 32 * k
    } else {
        32
    }
}

/// Bit `pos` (0 the least significant) of `w`.
pub open spec fn spec_word_bit(w: u32, pos: int) -> bool {
    (w >> (pos as u32)) & 1u32 == 1u32
}

/// Bit `m` (0 the least significant) of `b`.
pub open spec fn spec_byte_bit(b: u8, m: int) -> bool {
    (b >> (m as u8)) & 1u8 == 1u8
}

/// The `b`-th bit of a read of `num_bits` bits from the received `words`.
/// The state machine shifts each sample in from the top of the word, so the
/// samples of a word that holds `n` bits sit in its top `n` bits, the first
/// sample lowest. Bits past the end of the read are clear.
pub open spec fn spec_rx_bit(num_bits: u32, words: Seq<u32>, b: int) -> bool {
    let k = b / 32;
    &&& 0 <= b < num_bits
    &&& spec_word_bit(words[k], 32 - spec_chunk_bits(num_bits, k) + (b - 32 * k))
}

/// The number of bytes a sequence of `num_bits` bits takes.
pub open spec fn spec_byte_count(num_bits: u32) -> int {
    (num_bits + 7) / 8
}

/// The bits and bytes of a transfer of `num_bits` bits over a buffer of
/// `data_len` bytes: cut down to the whole buffer when it is too short.
pub fn truncate(num_bits: u32, data_len: usize) -> (r: (u32, usize))
    requires
        num_bits + 7 <= usize::MAX,
    ensures
        ({
            let num_bytes = (num_bits + 7) / 8;
            if num_bytes <= data_len {
                r == (num_bits, num_bytes as usize)
            } else {
                r == ((data_len * 8) as u32, data_len)
            }
        }),
{
    let num_bytes = (num_bits as usize + 7) / 8;
    if num_bytes < data_len {
        (num_bits, num_bytes)
    } else if num_bytes > data_len {
        (data_len as u32 * 8, data_len)
    } else {
        (num_bits, data_len)
    }
}

/// The number of FIFO words that carry `num_bytes` bytes.
pub fn chunk_count(num_bytes: usize) -> (r: usize)
    ensures
        r == (num_bytes + 3) / 4,
{
    num_bytes / 4 + if num_bytes % 4 == 0 { 0 } else { 1 }
}

/// Whether a sequence of `num_bits` bits leaves one more word in the
/// receive FIFO to be pulled and dropped: when it is a whole number of
/// words.
pub fn needs_extra_pull(num_bits: u32) -> (r: bool)
    ensures
        r == (num_bits % 32 == 0),
{
    let r = num_bits & 0x1F == 0;
    assert(r == (num_bits % 32 == 0)) by (bit_vector)
        requires
            r == (num_bits & 0x1F == 0),
    ;
    r
}

/// Bit `m` of byte `q` of `w >> s` is bit `s + 8q + m` of `w`, or clear
/// when that is past the top of the word.
proof fn lemma_shifted_byte_bit(w: u32, s: u32, q: u32, m: u32)
    requires
        s <= 31,
        q <= 3,
        m <= 7,
    ensures
        ((((w >> s) >> (8 * q)) & 0xFF) as u8 >> (m as u8)) & 1u8 == 1u8 <==> (s + 8 * q + m < 32
            && (w >> ((s + 8 * q + m) as u32)) & 1u32 == 1u32),
{
    assert(((((w >> s) >> (8 * q)) & 0xFF) as u8 >> (m as u8)) & 1u8 == 1u8 <==> (s + 8 * q + m < 32
        && (w >> ((s + 8 * q + m) as u32)) & 1u32 == 1u32)) by (bit_vector)
        requires
            s <= 31,
            q <= 3,
            m <= 7,
    ;
}

/// Writes the bytes of a read of `num_bits` bits into the front of `data`
/// from the words pulled from the receive FIFO, one word per four bytes:
/// each word is shifted down by the bits it lacks, then laid out
/// little-endian. The bytes of `data` past the read keep their values.
pub fn unpack_rx_words(num_bits: u32, words: &[u32], data: &mut [u8])
    requires
        spec_byte_count(num_bits) <= old(data).len(),
        (spec_byte_count(num_bits) + 3) / 4 <= words.len(),
    ensures
        final(data).len() == old(data).len(),
        forall|j: int|
            spec_byte_count(num_bits) <= j < final(data).len() ==> final(data)[j] == old(data)[j],
        forall|j: int, m: int|
            0 <= j < spec_byte_count(num_bits) && 0 <= m < 8 ==> (#[trigger] spec_byte_bit(
                final(data)[j],
                m,
            ) <==> spec_rx_bit(num_bits, words@, 8 * j + m)),
{
    let num_bytes: usize = (num_bits / 8 + if num_bits % 8 == 0 { 0 } else { 1 }) as usize;
    let ghost before = data@;
    let mut j: usize = 0;
    while j < num_bytes
        invariant
            num_bytes == spec_byte_count(num_bits),
            num_bytes <= data.len(),
            (spec_byte_count(num_bits) + 3) / 4 <= words.len(),
            j <= num_bytes,
            data.len() == before.len(),
            forall|i: int| j <= i < data.len() ==> data[i] == before[i],
            forall|i: int, m: int|
                0 <= i < j && 0 <= m < 8 ==> (#[trigger] spec_byte_bit(data[i], m) <==> spec_rx_bit(
                    num_bits,
                    words@,
                    8 * i + m,
                )),
        decreases num_bytes - j,
    {
        let k: usize = j / 4;
        let q: usize = j % 4;
        let consumed: u32 = (k as u32) * 32;
        let left: u32 = num_bits - consumed;
        let bits: u32 = if left < 32 { left } else { 32 };
        let shift: u32 = 32 - bits;
        let byte: u8 = (((words[k] >> shift) >> (8 * q as u32)) & 0xFF) as u8;
        proof {
            assert forall|m: int| 0 <= m < 8 implies (spec_byte_bit(byte, m) <==> spec_rx_bit(
                num_bits,
                words@,
                8 * j + m,
            )) by {
                lemma_shifted_byte_bit(words[k as int], shift, q as u32, m as u32);
                assert((8 * j + m) / 32 == k);
            }
        }
        data[j] = byte;
        j = j + 1;
    }
}

/// The bit counts of the transfers that clock `cycles` cycles with fixed TMS
/// and TDI: 32 at a time, the rest in the last.
pub fn clock_chunks(cycles: usize) -> (r: Vec<u32>)
    ensures
        r.len() == (cycles + 31) / 32,
        forall|k: int|
            0 <= k < r.len() ==> #[trigger] r[k] == (if cycles - 32 * k < 32 {
                cycles - 32 * k
            } else {
                32
            }),
{
    let count: usize = cycles / 32 + if cycles % 32 == 0 { 0 } else { 1 };
    let mut chunks: Vec<u32> = Vec::new();
    let mut k: usize = 0;
    while k < count
        invariant
            count == (cycles + 31) / 32,
            k <= count,
            chunks.len() == k,
            forall|i: int|
                0 <= i < k ==> #[trigger] chunks[i] == (if cycles - 32 * i < 32 {
                    cycles - 32 * i
                } else {
                    32
                }),
        decreases count - k,
    {
        let left: usize = cycles - 32 * k;
        let n: u32 = if left < 32 { left as u32 } else { 32 };
        chunks.push(n);
        k = k + 1;
    }
    chunks
}

/// `bits` with the flag `flag` set to the level read back, when the port
/// has the pin (`level` is `Some`).
pub open spec fn spec_read_back(bits: u8, flag: u8, level: Option<bool>) -> u8 {
    match level {
        Some(l) => spec_with_flag(bits, flag, l),
        None => bits,
    }
}

/// The levels read on the plain pins once an SWJ pins request settled;
/// `None` for a pin the port does not have (or whose lock is held
/// elsewhere).
#[derive(Clone, Copy, Debug)]
pub struct PinSample {
    pub swclk_tck: Option<bool>,
    pub swdio_tms: Option<bool>,
    pub tdi: Option<bool>,
    pub tdo: Option<bool>,
    pub nreset: Option<bool>,
    pub ntrst: Option<bool>,
}

/// The pins word reported for an SWJ pins request: the current level of
/// every pin the port has, whatever the request selected; a pin the port
/// does not have reports the level asked for in `value`.
pub fn pins_read_back(value: Pins, levels: PinSample) -> (r: Pins)
    ensures
        r.0 == spec_read_back(
            spec_read_back(
                spec_read_back(
                    spec_read_back(
                        spec_read_back(spec_read_back(value.0, 0x01, levels.swclk_tck), 0x02, levels.swdio_tms),
                        0x04,
                        levels.tdi,
                    ),
                    0x08,
                    levels.tdo,
                ),
                0x80,
                levels.nreset,
            ),
            0x20,
            levels.ntrst,
        ),
{
    let mut pins = value;
    if let Some(level) = levels.swclk_tck {
        pins.set_swclk_tck(level);
    }
    if let Some(level) = levels.swdio_tms {
        pins.set_swdio_tms(level);
    }
    if let Some(level) = levels.tdi {
        pins.set_tdi(level);
    }
    if let Some(level) = levels.tdo {
        pins.set_tdo(level);
    }
    if let Some(level) = levels.nreset {
        pins.set_nreset(level);
    }
    if let Some(level) = levels.ntrst {
        pins.set_ntrst(level);
    }
    pins
}

/// What the port's pins are driven by: the JTAG program, the SWD program,
/// or plain pins.
#[derive(Clone, Copy, Debug, PartialEq, Eq, Structural)]
pub enum PortMode {
    Jtag,
    Swd,
    Pins,
}

/// What an operation needs the port to be: JTAG (which may fall back to
/// pins when the JTAG program cannot be had), SWD, either of the two (an SWJ
/// sequence), or plain pins.
#[derive(Clone, Copy, Debug, PartialEq, Eq, Structural)]
pub enum PortRequest {
    Jtag,
    Swd,
    Swj,
    Pins,
}

/// What the port does to meet a request: nothing, or close what it has and
/// open the JTAG program, the SWD program or plain pins.
#[derive(Clone, Copy, Debug, PartialEq, Eq, Structural)]
pub enum PortChange {
    Keep,
    OpenJtag,
    OpenSwd,
    OpenPins,
}

/// The change that meets `request` in mode `mode`.
pub open spec fn spec_plan(mode: PortMode, request: PortRequest) -> PortChange {
    match (request, mode) {
        (PortRequest::Jtag, PortMode::Jtag) => PortChange::Keep,
        (PortRequest::Jtag, _) => PortChange::OpenJtag,
        (PortRequest::Swd, PortMode::Swd) => PortChange::Keep,
        (PortRequest::Swd, _) => PortChange::OpenSwd,
        (PortRequest::Swj, PortMode::Pins) => PortChange::OpenSwd,
        (PortRequest::Swj, _) => PortChange::Keep,
        (PortRequest::Pins, PortMode::Pins) => PortChange::Keep,
        (PortRequest::Pins, _) => PortChange::OpenPins,
    }
}

/// The mode after `change`, where `opened` tells whether the program asked
/// for could be had; a JTAG program that cannot be had leaves plain pins.
pub open spec fn spec_settle(mode: PortMode, change: PortChange, opened: bool) -> PortMode {
    match change {
        PortChange::Keep => mode,
        PortChange::OpenJtag => if opened {
            PortMode::Jtag
        } else {
            PortMode::Pins
        },
        PortChange::OpenSwd => PortMode::Swd,
        PortChange::OpenPins => PortMode::Pins,
    }
}

/// The clock a port starts with: the system clock, at most 1 MHz.
pub const START_FREQ_HZ: u32 = 1_000_000;

/// The state of the access port: what drives its pins and the SWJ clock it
/// runs a program at when one is opened.
#[derive(Clone, Copy, Debug)]
pub struct PioPortState {
    pub mode: PortMode,
    pub swj_freq_hz: u32,
}

impl PioPortState {
    /// A port on plain pins whose clock is the system clock, at most 1 MHz.
    pub fn new(clk_sys_hz: u32) -> (r: Self)
        ensures
            r.mode == PortMode::Pins,
            r.swj_freq_hz == (if clk_sys_hz < START_FREQ_HZ { clk_sys_hz } else { START_FREQ_HZ }),
    {
        let f = if clk_sys_hz < START_FREQ_HZ { clk_sys_hz } else { START_FREQ_HZ };
        PioPortState { mode: PortMode::Pins, swj_freq_hz: f }
    }

    /// What the port does to meet `request`.
    pub fn plan(&self, request: PortRequest) -> (r: PortChange)
        ensures
            r == spec_plan(self.mode, request),
    {
        match (request, self.mode) {
            (PortRequest::Jtag, PortMode::Jtag) => PortChange::Keep,
            (PortRequest::Jtag, _) => PortChange::OpenJtag,
            (PortRequest::Swd, PortMode::Swd) => PortChange::Keep,
            (PortRequest::Swd, _) => PortChange::OpenSwd,
            (PortRequest::Swj, PortMode::Pins) => PortChange::OpenSwd,
            (PortRequest::Swj, _) => PortChange::Keep,
            (PortRequest::Pins, PortMode::Pins) => PortChange::Keep,
            (PortRequest::Pins, _) => PortChange::OpenPins,
        }
    }

    /// Records the mode after `change`; `opened` tells whether the program
    /// asked for could be had. The SWD program must always be had: the port
    /// gives up (panics) otherwise, so that case is left out.
    pub fn settle(&mut self, change: PortChange, opened: bool)
        requires
            change == PortChange::OpenSwd ==> opened,
        ensures
            final(self).mode == spec_settle(old(self).mode, change, opened),
            final(self).swj_freq_hz == old(self).swj_freq_hz,
    {
        self.mode = match change {
            PortChange::Keep => self.mode,
            PortChange::OpenJtag => if opened {
                PortMode::Jtag
            } else {
                PortMode::Pins
            },
            PortChange::OpenSwd => PortMode::Swd,
            PortChange::OpenPins => PortMode::Pins,
        };
    }

    /// A request for an SWJ clock of `freq_hz`. Above a quarter of the
    /// system clock it is refused and nothing changes. Otherwise the clock is
    /// recorded; the answer is whether the open program takes it (always so
    /// on plain pins), and the divider is what to set the open program's
    /// state machine to.
    pub fn set_frequency(&mut self, clk_sys_hz: u32, freq_hz: u32) -> (r: (bool, Option<u32>))
        ensures
            freq_hz > clk_sys_hz / 4 ==> r == (false, None::<u32>) && *final(self) == *old(self),
            freq_hz <= clk_sys_hz / 4 ==> {
                &&& final(self).mode == old(self).mode
                &&& final(self).swj_freq_hz == freq_hz
                &&& r.1 == match old(self).mode {
                    PortMode::Jtag => if freq_hz >= MIN_FREQ_HZ {
                        Some(spec_pio_divider(clk_sys_hz, 4, freq_hz) as u32)
                    } else {
                        None
                    },
                    PortMode::Swd => if freq_hz >= MIN_FREQ_HZ {
                        Some(spec_pio_divider(clk_sys_hz, 2, freq_hz) as u32)
                    } else {
                        None
                    },
                    PortMode::Pins => None,
                }
                &&& r.0 == (old(self).mode == PortMode::Pins || freq_hz >= MIN_FREQ_HZ)
            },
    {
        if freq_hz <= clk_sys_hz / 4 {
            self.swj_freq_hz = freq_hz;
            match self.mode {
                PortMode::Jtag => {
                    let d = jtag_clock_divider(clk_sys_hz, freq_hz);
                    (d.is_some(), d)
                },
                PortMode::Swd => {
                    let d = swd_clock_divider(clk_sys_hz, freq_hz);
                    (d.is_some(), d)
                },
                PortMode::Pins => (true, None),
            }
        } else {
            (false, None)
        }
    }
}

/// Whether mode `mode` meets `request`: a JTAG request is met by the JTAG
/// program or, when it could not be had, by plain pins; an SWJ request by
/// either program.
pub open spec fn spec_meets(mode: PortMode, request: PortRequest) -> bool {
    match request {
        PortRequest::Jtag => mode == PortMode::Jtag || mode == PortMode::Pins,
        PortRequest::Swd => mode == PortMode::Swd,
        PortRequest::Swj => mode == PortMode::Jtag || mode == PortMode::Swd,
        PortRequest::Pins => mode == PortMode::Pins,
    }
}

/// Planning a request and settling the change leaves a mode that meets the
/// request, in which the same request needs no further change unless it is
/// a JTAG request whose program could not be had.
pub proof fn lemma_plan_meets_request(mode: PortMode, request: PortRequest, opened: bool)
    requires
        spec_plan(mode, request) == PortChange::OpenSwd ==> opened,
    ensures
        spec_meets(spec_settle(mode, spec_plan(mode, request), opened), request),
        spec_settle(mode, spec_plan(mode, request), opened) != PortMode::Pins || request != PortRequest::Jtag
            ==> spec_plan(spec_settle(mode, spec_plan(mode, request), opened), request) == PortChange::Keep,
{
}

/// The divider of an accepted clock is at least 1.0 (256 in its bits): the
/// state machine never runs faster than the system clock. It is the system
/// clock over the bit rate rounded down, so the bit rate it gives is the
/// requested one or just above it.
pub proof fn lemma_divider_bounds(clk_sys_hz: u32, min_decimation: u32, freq_hz: u32)
    requires
        min_decimation == 2 || min_decimation == 4,
        freq_hz >= MIN_FREQ_HZ,
        freq_hz <= clk_sys_hz / min_decimation,
    ensures
        256 <= spec_pio_divider(clk_sys_hz, min_decimation, freq_hz),
        spec_pio_divider(clk_sys_hz, min_decimation, freq_hz) * (freq_hz * min_decimation) <= clk_sys_hz
            * 256,
        clk_sys_hz * 256 < (spec_pio_divider(clk_sys_hz, min_decimation, freq_hz) + 1) * (freq_hz
            * min_decimation),
{
    let d: int = freq_hz * min_decimation;
    let n: int = clk_sys_hz * 256;
    let q: int = n / d;
    assert(d <= clk_sys_hz) by (nonlinear_arith)
        requires
            freq_hz <= clk_sys_hz / min_decimation,
            min_decimation > 0,
            d == freq_hz * min_decimation,
    ;
    assert(d > 0) by (nonlinear_arith)
        requires
            freq_hz >= 2000,
            min_decimation >= 2,
            d == freq_hz * min_decimation,
    ;
    vstd::arithmetic::div_mod::lemma_fundamental_div_mod(n, d);
    assert(256 * d <= n) by (nonlinear_arith)
        requires
            d <= clk_sys_hz,
            n == clk_sys_hz * 256,
    ;
    vstd::arithmetic::div_mod::lemma_div_is_ordered(256 * d, n, d);
    vstd::arithmetic::div_mod::lemma_div_multiples_vanish(256, d);
    assert(q * d <= n && n < (q + 1) * d) by (nonlinear_arith)
        requires
            n == d * q + n % d,
            0 <= n % d < d,
    ;
}

/// Bit `b` of the bit stream `data`, first bit the least significant bit of
/// the first byte.
pub open spec fn spec_data_bit(data: Seq<u8>, b: int) -> bool {
    spec_byte_bit(data[b / 8], b % 8)
}

/// The word received for a pushed word `tx` when the state machine samples
/// the `bits` bits it sends (a loopback): the samples enter from the top, so
/// the low `bits` bits of `tx` end up in the top `bits` bits.
pub open spec fn spec_loopback(tx: u32, bits: int) -> u32 {
    tx << ((32 - bits) as u32)
}

/// A bit sent from the bottom of a word and shifted in from the top sits
/// `sh` places higher.
proof fn lemma_shift_back(w: u32, sh: u32, t: u32)
    requires
        sh <= 31,
        t + sh < 32,
    ensures
        ((w << sh) >> ((sh + t) as u32)) & 1u32 == (w >> t) & 1u32,
{
    assert(((w << sh) >> ((sh + t) as u32)) & 1u32 == (w >> t) & 1u32) by (bit_vector)
        requires
            sh <= 31,
            t + sh < 32,
    ;
}

/// Bit `t` of a word made of four little-endian bytes is bit `t % 8` of
/// byte `t / 8`.
proof fn lemma_le_word_bit(w: u32, b0: u8, b1: u8, b2: u8, b3: u8, t: u32)
    requires
        w == b0 + 256 * b1 + 65536 * b2 + 16777216 * b3,
        t < 32,
    ensures
        t < 8 ==> ((w >> t) & 1u32 == 1u32 <==> (b0 >> (t as u8)) & 1u8 == 1u8),
        8 <= t < 16 ==> ((w >> t) & 1u32 == 1u32 <==> (b1 >> ((t - 8) as u8)) & 1u8 == 1u8),
        16 <= t < 24 ==> ((w >> t) & 1u32 == 1u32 <==> (b2 >> ((t - 16) as u8)) & 1u8 == 1u8),
        24 <= t ==> ((w >> t) & 1u32 == 1u32 <==> (b3 >> ((t - 24) as u8)) & 1u8 == 1u8),
{
    assert(t < 8 ==> ((w >> t) & 1u32 == 1u32 <==> (b0 >> (t as u8)) & 1u8 == 1u8)) by (bit_vector)
        requires
            w == b0 + 256 * b1 + 65536 * b2 + 16777216 * b3,
    ;
    assert(8 <= t < 16 ==> ((w >> t) & 1u32 == 1u32 <==> (b1 >> ((t - 8) as u8)) & 1u8 == 1u8))
        by (bit_vector)
        requires
            w == b0 + 256 * b1 + 65536 * b2 + 16777216 * b3,
    ;
    assert(16 <= t < 24 ==> ((w >> t) & 1u32 == 1u32 <==> (b2 >> ((t - 16) as u8)) & 1u8 == 1u8))
        by (bit_vector)
        requires
            w == b0 + 256 * b1 + 65536 * b2 + 16777216 * b3,
    ;
    assert(24 <= t < 32 ==> ((w >> t) & 1u32 == 1u32 <==> (b3 >> ((t - 24) as u8)) & 1u8 == 1u8))
        by (bit_vector)
        requires
            w == b0 + 256 * b1 + 65536 * b2 + 16777216 * b3,
    ;
}

/// A loopback reads back what was sent: when each word received for a
/// sequence of `num_bits` bits is the word pushed for it, sampled as it is
/// shifted out, every bit read is the bit of `data` sent in its place.
pub proof fn lemma_loopback(data: Seq<u8>, num_bits: u32, tx: Seq<u32>, rx: Seq<u32>)
    requires
        num_bits <= 8 * data.len(),
        tx.len() == (data.len() + 3) / 4,
        forall|k: int| 0 <= k < tx.len() ==> tx[k] as int == #[trigger] spec_tx_word(data, k),
        rx.len() == (spec_byte_count(num_bits) + 3) / 4,
        forall|k: int|
            0 <= k < rx.len() ==> #[trigger] rx[k] == spec_loopback(tx[k], spec_chunk_bits(num_bits, k)),
    ensures
        forall|b: int| 0 <= b < num_bits ==> #[trigger] spec_rx_bit(num_bits, rx, b) == spec_data_bit(data, b),
{
    assert forall|b: int| 0 <= b < num_bits implies #[trigger] spec_rx_bit(num_bits, rx, b) == spec_data_bit(data, b) by {
        let k = b / 32;
        let t = b - 32 * k;
        let bits = spec_chunk_bits(num_bits, k);
        let sh = 32 - bits;
        assert(0 <= k < rx.len());
        assert(k < tx.len());
        assert(1 <= bits <= 32 && 0 <= t < bits);
        lemma_shift_back(tx[k], sh as u32, t as u32);
        let b0 = spec_byte_or_zero(data, 4 * k) as u8;
        let b1 = spec_byte_or_zero(data, 4 * k + 1) as u8;
        let b2 = spec_byte_or_zero(data, 4 * k + 2) as u8;
        let b3 = spec_byte_or_zero(data, 4 * k + 3) as u8;
        assert(tx[k] as int == spec_tx_word(data, k));
        assert(0 <= spec_byte_or_zero(data, 4 * k) < 256);
        assert(0 <= spec_byte_or_zero(data, 4 * k + 1) < 256);
        assert(0 <= spec_byte_or_zero(data, 4 * k + 2) < 256);
        assert(0 <= spec_byte_or_zero(data, 4 * k + 3) < 256);
        assert(b0 == spec_byte_or_zero(data, 4 * k));
        assert(b1 == spec_byte_or_zero(data, 4 * k + 1));
        assert(b2 == spec_byte_or_zero(data, 4 * k + 2));
        assert(b3 == spec_byte_or_zero(data, 4 * k + 3));
        lemma_le_word_bit(tx[k], b0, b1, b2, b3, t as u32);
        assert(b / 8 == 4 * k + t / 8);
        assert(b % 8 == t % 8);
        assert(b / 8 < data.len());
    }
}

} // verus!
