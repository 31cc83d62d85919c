use grapple_probe::cmsis_dap::bitbang::{
    pack_bits, pins_read_back, pins_to_drive, tick_micros, transfer_extent, unpack_bits, IOFunction, PinLevels,
};
use grapple_probe::cmsis_dap::types::Pins;

#[test]
fn pin_function_numbers() {
    assert_eq!(IOFunction::Gpio.get_pac_funcsel(), 5);
    assert_eq!(IOFunction::SWO.get_pac_funcsel(), 2);
}

#[test]
fn clock_period() {
    assert_eq!(tick_micros(1_000_000), 1);
    assert_eq!(tick_micros(500_000), 1);
    assert_eq!(tick_micros(100_000), 5);
    assert_eq!(tick_micros(1_000), 500);
    assert_eq!(tick_micros(3), 166_666);
}

#[test]
fn pins_request_drives_selected_pins() {
    let d = pins_to_drive(Pins(0x81), Pins(0x83));
    assert_eq!(d.swclk_tck, Some(true));
    assert_eq!(d.swdio_tms, Some(false));
    assert_eq!(d.tdi, None);
    assert_eq!(d.nreset, Some(true));
    assert_eq!(d.ntrst, None);
    let all = pins_to_drive(Pins(0x24), Pins(0xFF));
    assert_eq!(all.tdi, Some(true));
    assert_eq!(all.ntrst, Some(true));
    assert_eq!(all.swclk_tck, Some(false));
}

#[test]
fn pins_read_back_current_levels() {
    let high = PinLevels { swclk_tck: true, swdio_tms: true, tdi: true, tdo: true, nreset: true, ntrst: true };
    assert_eq!(pins_read_back(high), Pins(0xAF));
    let tdo_only = PinLevels { swclk_tck: false, swdio_tms: false, tdi: false, tdo: true, nreset: false, ntrst: false };
    assert_eq!(pins_read_back(tdo_only), Pins(0x08));
    let reset_low = PinLevels { swclk_tck: true, swdio_tms: false, tdi: false, tdo: false, nreset: false, ntrst: true };
    assert_eq!(pins_read_back(reset_low), Pins(0x21));
}

#[test]
fn bits_unpack_least_significant_first() {
    let levels = unpack_bits(&[0b1010_0101, 0x01], 10);
    assert_eq!(levels, vec![true, false, true, false, false, true, false, true, true, false]);
    assert_eq!(unpack_bits(&[0xFF], 0), Vec::<bool>::new());
}

#[test]
fn bits_pack_into_bytes() {
    let samples = [true, false, true, false, false, true, false, true, true, false];
    let mut out = [0xFFu8; 3];
    pack_bits(&samples, &mut out, 3);
    assert_eq!(out, [0xA5, 0x01, 0x00]);
    let mut partial = [0xFFu8; 3];
    pack_bits(&samples, &mut partial, 1);
    assert_eq!(partial, [0xA5, 0xFF, 0xFF]);
    let mut short = [0x11u8; 1];
    pack_bits(&samples, &mut short, 4);
    assert_eq!(short, [0xA5]);
}

#[test]
fn unpack_then_pack_gives_the_bytes_back() {
    let data = [0x3C, 0x81, 0x7E, 0x00, 0xFF];
    let levels = unpack_bits(&data, 40);
    let mut out = [0u8; 5];
    pack_bits(&levels, &mut out, 5);
    assert_eq!(out, data);
}

#[test]
fn transfer_extents() {
    assert_eq!(transfer_extent(12, 4), (2, 12));
    assert_eq!(transfer_extent(40, 2), (2, 16));
    assert_eq!(transfer_extent(16, 2), (2, 16));
    assert_eq!(transfer_extent(0, 5), (0, 0));
}
