use grapple_probe::cmsis_dap::types::Pins;
use grapple_probe::pio::{
    chunk_count, clock_chunks, get_pio_divider, jtag_clock_divider, jtag_command, needs_extra_pull,
    pins_read_back, swd_clock_divider, swd_command, tx_words, unpack_rx_words, PioPortState,
    truncate, PinSample, PortChange, PortMode, PortRequest,
};

const CLK: u32 = 125_000_000;

#[test]
fn divider_is_the_clock_over_the_bit_rate_in_eighths_of_a_byte() {
    // 125 MHz / (4 * 1 MHz) = 31.25, which is 8000 / 256
    assert_eq!(get_pio_divider(CLK, 4, 1_000_000), 8000);
    // 125 MHz / (2 * 3 MHz) = 20.8333.., rounded down in 1/256 steps
    assert_eq!(get_pio_divider(CLK, 2, 3_000_000), 5333);
}

#[test]
fn jtag_clock_accepts_up_to_a_quarter_of_the_system_clock() {
    assert_eq!(jtag_clock_divider(CLK, 1_000_000), Some(8000));
    assert_eq!(jtag_clock_divider(CLK, 100_000), Some(80000));
    assert_eq!(jtag_clock_divider(CLK, 31_250_000), Some(256));
    assert_eq!(jtag_clock_divider(CLK, 31_250_001), None);
    assert_eq!(jtag_clock_divider(CLK, 2000), Some(4_000_000));
    assert_eq!(jtag_clock_divider(CLK, 1999), None);
}

#[test]
fn swd_clock_accepts_up_to_half_the_system_clock() {
    assert_eq!(swd_clock_divider(CLK, 100_000), Some(160000));
    assert_eq!(swd_clock_divider(CLK, 62_500_000), Some(256));
    assert_eq!(swd_clock_divider(CLK, 62_500_001), None);
    assert_eq!(swd_clock_divider(CLK, 0), None);
}

#[test]
fn command_words_carry_length_tms_and_address() {
    assert_eq!(jtag_command(8, true, 3), 0x1C00_0007);
    assert_eq!(jtag_command(1, false, 0), 0);
    assert_eq!(jtag_command(64, false, 1), 0x0800_003F);
    assert_eq!(swd_command(32, 5), 0x2800_001F);
    assert_eq!(swd_command(0x0800_0000, 0), 0x07FF_FFFF);
}

#[test]
fn transmit_words_are_little_endian_and_zero_padded() {
    assert_eq!(tx_words(&[1, 2, 3, 4, 5]), vec![0x0403_0201, 0x0000_0005]);
    assert_eq!(tx_words(&[]), Vec::<u32>::new());
    assert_eq!(chunk_count(0), 0);
    assert_eq!(chunk_count(4), 1);
    assert_eq!(chunk_count(5), 2);
}

#[test]
fn received_words_are_shifted_down_by_the_bits_they_lack() {
    // 12 bits looped back: the word holds them in its top 12 bits
    let mut data = [0u8; 3];
    data[2] = 0x55;
    unpack_rx_words(12, &[0xCAB0_0000], &mut data);
    assert_eq!(data, [0xAB, 0x0C, 0x55]);

    // 40 bits: a full word, then 8 bits in the top byte of the second word
    let mut data = [0u8; 5];
    unpack_rx_words(40, &[0x4433_2211, 0x9900_0000], &mut data);
    assert_eq!(data, [0x11, 0x22, 0x33, 0x44, 0x99]);
}

#[test]
fn loopback_reads_back_what_was_sent() {
    let sent = [0xDE, 0xAD, 0xBE, 0xEF, 0x5A];
    let num_bits: u32 = 40;
    let tx = tx_words(&sent);
    // the last word holds 8 bits: they come back in its top byte
    let rx = [tx[0], tx[1] << 24];
    let mut data = [0u8; 5];
    unpack_rx_words(num_bits, &rx, &mut data);
    assert_eq!(data, sent);
}

#[test]
fn a_whole_number_of_words_leaves_an_extra_word_to_pull() {
    // a 64 bit read must not leave a word in the receive FIFO
    assert!(needs_extra_pull(64));
    assert!(needs_extra_pull(32));
    assert!(!needs_extra_pull(12));
    assert!(!needs_extra_pull(33));
}

#[test]
fn clock_cycles_go_out_32_at_a_time() {
    assert_eq!(clock_chunks(70), vec![32, 32, 6]);
    assert_eq!(clock_chunks(32), vec![32]);
    assert_eq!(clock_chunks(0), Vec::<u32>::new());
}

#[test]
fn pins_report_the_current_levels() {
    let all_high = PinSample {
        swclk_tck: Some(true),
        swdio_tms: Some(true),
        tdi: Some(true),
        tdo: Some(true),
        nreset: Some(true),
        ntrst: Some(true),
    };
    // every pin reports its level, whatever was asked for
    assert_eq!(pins_read_back(Pins(0x00), all_high), Pins(0xAF));
    let some = PinSample { swclk_tck: Some(false), swdio_tms: None, tdi: None, tdo: Some(true), nreset: Some(false), ntrst: None };
    // pins the port does not have keep the levels asked for
    assert_eq!(pins_read_back(Pins(0xA7), some), Pins(0x2E));
    let none = PinSample { swclk_tck: None, swdio_tms: None, tdi: None, tdo: None, nreset: None, ntrst: None };
    assert_eq!(pins_read_back(Pins(0x08), none), Pins(0x08));
}

#[test]
fn port_starts_on_pins_at_most_one_megahertz() {
    let s = PioPortState::new(CLK);
    assert_eq!(s.mode, PortMode::Pins);
    assert_eq!(s.swj_freq_hz, 1_000_000);
    assert_eq!(PioPortState::new(400_000).swj_freq_hz, 400_000);
}

#[test]
fn port_opens_what_each_request_needs() {
    let mut s = PioPortState::new(CLK);
    assert_eq!(s.plan(PortRequest::Swj), PortChange::OpenSwd);
    s.settle(PortChange::OpenSwd, true);
    assert_eq!(s.mode, PortMode::Swd);
    assert_eq!(s.plan(PortRequest::Swj), PortChange::Keep);
    assert_eq!(s.plan(PortRequest::Swd), PortChange::Keep);
    assert_eq!(s.plan(PortRequest::Jtag), PortChange::OpenJtag);
    // the JTAG program cannot be had: back to pins
    s.settle(PortChange::OpenJtag, false);
    assert_eq!(s.mode, PortMode::Pins);
    s.settle(PortChange::OpenJtag, true);
    assert_eq!(s.mode, PortMode::Jtag);
    assert_eq!(s.plan(PortRequest::Swj), PortChange::Keep);
    assert_eq!(s.plan(PortRequest::Pins), PortChange::OpenPins);
    s.settle(PortChange::OpenPins, true);
    assert_eq!(s.mode, PortMode::Pins);
}

#[test]
fn port_frequency_goes_to_the_open_program() {
    let mut s = PioPortState::new(CLK);
    assert_eq!(s.set_frequency(CLK, 100_000), (true, None));
    assert_eq!(s.swj_freq_hz, 100_000);
    // above a quarter of the system clock: refused and kept
    assert_eq!(s.set_frequency(CLK, 40_000_000), (false, None));
    assert_eq!(s.swj_freq_hz, 100_000);
    s.settle(PortChange::OpenSwd, true);
    assert_eq!(s.set_frequency(CLK, 1_000_000), (true, Some(16000)));
    // the SWD program refuses a clock below the slowest
    assert_eq!(s.set_frequency(CLK, 1000), (false, None));
    assert_eq!(s.swj_freq_hz, 1000);
    s.settle(PortChange::OpenJtag, true);
    assert_eq!(s.set_frequency(CLK, 1_000_000), (true, Some(8000)));
}

#[test]
fn truncate_to_buffer() {
    assert_eq!(truncate(12, 4), (12, 2));
    assert_eq!(truncate(16, 2), (16, 2));
    assert_eq!(truncate(40, 2), (16, 2));
    assert_eq!(truncate(0, 0), (0, 0));
}
