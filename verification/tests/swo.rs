use grapple_probe::cmsis_dap::swo::{
    bulk_chunk_len, copy_split, mode_supported, record_overrun, record_trace_data, release_trace_data, SWOControlAction,
    SWOTaskControl,
};
use grapple_probe::cmsis_dap::types::{SWOMode, SWOStatus};

#[test]
fn modes_by_capture_support() {
    assert!(mode_supported(SWOMode::Off, false, false));
    assert!(mode_supported(SWOMode::Uart, true, false));
    assert!(!mode_supported(SWOMode::Uart, false, true));
    assert!(mode_supported(SWOMode::Manchester, false, true));
    assert!(!mode_supported(SWOMode::Manchester, true, false));
}

#[test]
fn task_control_changes_and_actions() {
    let mut c = SWOTaskControl::default();
    assert_eq!(c.action(), SWOControlAction::Close);
    assert!(!c.capturing());
    assert!(c.set_mode(SWOMode::Uart));
    assert!(!c.set_mode(SWOMode::Uart));
    assert!(c.set_baudrate(115_200));
    assert!(!c.set_baudrate(115_200));
    assert_eq!(c.action(), SWOControlAction::Close);
    assert!(c.set_active(true));
    assert!(c.capturing());
    assert_eq!(c.action(), SWOControlAction::Uart(115_200));
    c.set_mode(SWOMode::Manchester);
    assert_eq!(c.action(), SWOControlAction::Manchester(115_200));
    c.set_mode(SWOMode::Off);
    assert!(!c.capturing());
    assert_eq!(c.action(), SWOControlAction::Close);
}

#[test]
fn trace_status_bookkeeping() {
    let mut s = SWOStatus::default();
    assert!(record_overrun(&mut s));
    assert!(!record_overrun(&mut s));
    assert_eq!(s.flags.0, 0x80);
    record_trace_data(&mut s, 10, 1234);
    assert_eq!(s.flags.0, 0);
    assert_eq!(s.buffered_traces, 10);
    assert_eq!(s.next_trace_index, 10);
    assert_eq!(s.next_trace_timestamp, 1234);
    s.next_trace_index = u32::MAX;
    record_trace_data(&mut s, 2, 99);
    assert_eq!(s.next_trace_index, 1);
    assert_eq!(s.buffered_traces, 12);
    release_trace_data(&mut s, 5);
    assert_eq!(s.buffered_traces, 7);
    assert_eq!(s.next_trace_timestamp, 99);
}

#[test]
fn split_copy_fills_in_order() {
    let mut data = [0u8; 5];
    assert_eq!(copy_split(&mut data, &[1, 2], &[3, 4]), 4);
    assert_eq!(data, [1, 2, 3, 4, 0]);
    let mut small = [9u8; 3];
    assert_eq!(copy_split(&mut small, &[1, 2], &[3, 4]), 3);
    assert_eq!(small, [1, 2, 3]);
    let mut tiny = [9u8; 1];
    assert_eq!(copy_split(&mut tiny, &[1, 2], &[3, 4]), 1);
    assert_eq!(tiny, [1]);
}

#[test]
fn bulk_packets_carry_at_most_a_full_packet() {
    assert_eq!(bulk_chunk_len(0), 0);
    assert_eq!(bulk_chunk_len(10), 10);
    assert_eq!(bulk_chunk_len(64), 64);
    assert_eq!(bulk_chunk_len(1000), 64);
}
