use grapple_probe::cmsis_dap::types::HostStatus;
use grapple_probe::firmware::{
    activity, led_color, led_step, regulator_setting, signal_target_mv, tvcc_from_samples, tvcc_target_mv, CMSISDapReactor,
    Config, DebounceWait, Debouncer, State, VendorAction,
};
use grapple_probe::probe::field::PowerControl as PowerField;
use grapple_probe::probe::proto::Packet;

fn board_config() -> Config {
    Config { max_mv: 3300, min_mv: 1800, max_mv_count: 340, min_mv_count: 3257 }
}

#[test]
fn duty_count_interpolates_inverted_calibration() {
    let c = board_config();
    assert_eq!(c.duty_count(3300), (340, 3300));
    assert_eq!(c.duty_count(1800), (3257, 1800));
    assert_eq!(c.duty_count(2500), (1895, 2500));
    assert_eq!(c.duty_count(5000), (340, 3300));
    assert_eq!(c.duty_count(0), (3257, 1800));
}

#[test]
fn duty_count_interpolates_rising_calibration() {
    let c = Config { max_mv: 5000, min_mv: 1000, max_mv_count: 4000, min_mv_count: 0 };
    assert_eq!(c.duty_count(3000), (2000, 3000));
    assert_eq!(c.duty_count(1001), (1, 1001));
}

#[test]
fn led_colors() {
    assert_eq!(led_color(0), (100, 0, 0));
    assert_eq!(led_color(1800), (0, 0, 100));
    assert_eq!(led_color(3300), (0, 100, 0));
    assert_eq!(led_color(2550), (0, 50, 50));
    assert_eq!(led_color(3314), (0, 100, 0));
}

#[test]
fn led_blinks_once_on_activity() {
    let c = (0u8, 40u8, 60u8);
    assert_eq!(led_step(c, true, false), ((0, 0, 0), true));
    assert_eq!(led_step(c, true, true), (c, false));
    assert_eq!(led_step(c, false, false), (c, false));
}

#[test]
fn activity_follows_counters_and_host_status() {
    let a = State::new();
    let mut b = a;
    assert!(!activity(&a, &b));
    b.debug_commands += 1;
    assert!(activity(&a, &b));
    let mut c = a;
    c.host_status = HostStatus::Running(true);
    assert!(activity(&a, &c));
    let mut d = a;
    d.tvcc_mv = 3300;
    assert!(!activity(&a, &d));
}

#[test]
fn adc_average_to_millivolts() {
    assert_eq!(tvcc_from_samples(&[2048, 2048]).tvcc_mv, 3300);
    assert_eq!(tvcc_from_samples(&[1000, 1001, 1002]).tvcc_mv, 1612);
    assert_eq!(tvcc_from_samples(&[0]).tvcc_mv, 0);
}


#[test]
fn target_voltages() {
    let mut f = PowerField::default();
    assert_eq!(tvcc_target_mv(&f, true), 0);
    f.set_tvcc_output(true);
    f.set_tvcc_output_mv(5000);
    assert_eq!(tvcc_target_mv(&f, false), 5000);
    f.set_tvcc_gated_by_gnddet(true);
    assert_eq!(tvcc_target_mv(&f, false), 0);
    assert_eq!(tvcc_target_mv(&f, true), 5000);

    let mut g = PowerField::default();
    assert_eq!(signal_target_mv(&g, false, 2500), 2500);
    assert_eq!(signal_target_mv(&g, false, 1000), 3300);
    g.set_transvcc_gated_by_tvcc(true);
    assert_eq!(signal_target_mv(&g, false, 1000), 0);
    g.set_transvcc_gated_by_gnddet(true);
    assert_eq!(signal_target_mv(&g, false, 2500), 0);
    assert_eq!(signal_target_mv(&g, true, 2500), 2500);
    g.set_transvcc_follows_tvcc(false);
    assert_eq!(signal_target_mv(&g, true, 2500), 3300);
}

#[test]
fn vendor_status_reply() {
    let reactor = CMSISDapReactor {};
    let mut state = State::new();
    state.gnd_detect = true;
    state.tvcc_mv = 3300;
    state.trans_mv = 1800;
    let mut res = [0u8; 16];
    assert!(matches!(reactor.plan(&[0xE0, 0x00], &mut res, &state), VendorAction::Reply(7)));
    assert_eq!(&res[..7], &[0xE0, 0x00, 0x80, 0xE4, 0x0C, 0x08, 0x07]);
}

#[test]
fn vendor_plans() {
    let reactor = CMSISDapReactor {};
    let state = State::new();
    let mut res = [0u8; 16];
    assert!(matches!(reactor.plan(&[0xE0, 0x01, 0x00], &mut res, &state), VendorAction::ReadField(0)));
    match reactor.plan(&[0xE0, 0x02, 0x00, 0x00, 0x08, 0x10, 0x0E, 0xAC, 0x0D], &mut res, &state) {
        VendorAction::StorePowerControl(f) => assert_eq!(f.inner, [0x00, 0x08, 0x10, 0x0E, 0xAC, 0x0D]),
        _ => panic!("expected a store"),
    }
    assert!(matches!(reactor.plan(&[0xE0, 0x02, 0x01, 0x00, 0, 0, 0, 0, 0], &mut res, &state), VendorAction::RefuseWrite));
    assert!(matches!(reactor.plan(&[0xE0, 0x02, 0x00, 0x01, 0, 0, 0, 0, 0], &mut res, &state), VendorAction::RefuseWrite));
    assert!(matches!(reactor.plan(&[0xE0, 0xFE, 0xFF], &mut res, &state), VendorAction::Panic));
    assert!(matches!(reactor.plan(&[0xE0, 0xFE, 0x01], &mut res, &state), VendorAction::Ignore));
    let mut res2 = [0u8; 8];
    assert!(matches!(reactor.plan(&[0x00, 0x00], &mut res2, &state), VendorAction::Reply(1)));
    assert_eq!(res2[0], 0xFF);
}

#[test]
fn vendor_field_replies() {
    let reactor = CMSISDapReactor {};
    let read_bytes = [0xE0, 0x01, 0x00];
    let read = match Packet::try_parse_request(&read_bytes) {
        Ok(Packet::ReadFieldRequest(r)) => r,
        _ => panic!("expected a read field request"),
    };
    let mut res = [0u8; 16];
    assert_eq!(reactor.read_config(&read, &mut res, Some(&[0, 0xC0, 0xE4, 0x0C, 0, 0])), 10);
    assert_eq!(&res[..10], &[0xE0, 0x01, 0x00, 0x00, 0x00, 0xC0, 0xE4, 0x0C, 0x00, 0x00]);
    let mut res2 = [0u8; 16];
    assert_eq!(reactor.read_config(&read, &mut res2, None), 4);
    assert_eq!(&res2[..3], &[0xE0, 0x01, 0xFF]);

    let write_bytes = [0xE0, 0x02, 0x00, 0x00, 0xC0, 0xE4, 0x0C, 0x00, 0x00];
    let write = match Packet::try_parse_request(&write_bytes) {
        Ok(Packet::WriteFieldRequest(w)) => w,
        _ => panic!("expected a write field request"),
    };
    let mut res3 = [0x55u8; 8];
    assert_eq!(reactor.write_config(&write, &mut res3, true), 4);
    assert_eq!(&res3[..4], &[0xE0, 0x02, 0x00, 0x00]);
    let mut res4 = [0x55u8; 8];
    assert_eq!(reactor.write_config(&write, &mut res4, false), 4);
    assert_eq!(&res4[..4], &[0xE0, 0x02, 0xFF, 0x55]);
}

#[test]
fn regulator_off_for_zero_else_held_to_range() {
    let c = board_config();
    assert_eq!(regulator_setting(&c, 0), (0, false, 0));
    assert_eq!(regulator_setting(&c, 2500), (1895, true, 2500));
    assert_eq!(regulator_setting(&c, 1000), (3257, true, 1800));
    assert_eq!(regulator_setting(&c, 5000), (340, true, 3300));
    let (_, _, held) = regulator_setting(&c, 3000);
    assert_eq!(led_color(held), (0, 80, 20));
}

#[test]
fn debounced_input_changes_only_after_the_stable_time() {
    let mut d = Debouncer::new(true);
    assert!(d.get_state());
    assert_eq!(d.next_wait(), DebounceWait::Reach(false));
    assert_eq!(d.on_wait_done(false), None);
    assert_eq!(d.next_wait(), DebounceWait::FallBackWithin(true));
    // the pin came back high within the stable time: a glitch
    assert_eq!(d.on_wait_done(false), None);
    assert!(d.get_state());
    assert_eq!(d.next_wait(), DebounceWait::Reach(false));
    assert_eq!(d.on_wait_done(false), None);
    // it stayed low for the whole stable time
    assert_eq!(d.on_wait_done(true), Some(false));
    assert!(!d.get_state());
    assert_eq!(d.next_wait(), DebounceWait::Reach(true));
}
