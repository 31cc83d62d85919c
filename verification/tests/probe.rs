use grapple_probe::probe::field::PowerControl as PowerField;
use grapple_probe::probe::host::{
    firmware_version_request, parse_firmware_version, parse_read_field, parse_status, parse_write_field,
    power_config_from_read, read_field_request, reset_request, status_request, write_field_request, Error,
    PowerControl, PowerControlChanges,
};
use grapple_probe::probe::proto::{self, Packet, ResetType};

#[test]
fn power_field_factory_settings() {
    let f = PowerField::default();
    assert_eq!(f.inner, [0x00, 0xC0, 0xE4, 0x0C, 0x00, 0x00]);
    assert!(f.key5v_enable());
    assert!(f.transvcc_follows_tvcc());
    assert!(!f.transvcc_gated_by_gnddet());
    assert!(!f.transvcc_gated_by_tvcc());
    assert!(!f.tvcc_output());
    assert!(!f.tvcc_gated_by_gnddet());
    assert_eq!(f.transvcc_default_mv(), 3300);
    assert_eq!(f.tvcc_output_mv(), 0);
}

#[test]
fn power_field_setters_touch_one_setting() {
    let mut f = PowerField::default();
    f.set_tvcc_output(true);
    assert!(f.tvcc_output());
    assert!(f.key5v_enable());
    assert!(f.transvcc_follows_tvcc());
    f.set_key5v_enable(false);
    assert!(!f.key5v_enable());
    assert!(f.tvcc_output());
    f.set_tvcc_output_mv(5000);
    assert_eq!(f.tvcc_output_mv(), 5000);
    assert_eq!(f.transvcc_default_mv(), 3300);
    f.set_transvcc_default_mv(1800);
    assert_eq!(f.inner, [0x00, 0x48, 0x08, 0x07, 0x88, 0x13]);
}

#[test]
fn power_field_parse_and_alloc_errors() {
    assert!(matches!(PowerField::try_parse(&[0, 1, 2, 3, 4]), Err(proto::Error::InvalidPacket)));
    assert!(matches!(PowerField::try_parse(&[1, 1, 2, 3, 4, 5]), Err(proto::Error::InvalidPacket)));
    let f = PowerField::try_parse(&[0, 0x08, 0x10, 0x0E, 0xAC, 0x0D, 9]).unwrap();
    assert!(f.tvcc_output());
    assert_eq!(f.transvcc_default_mv(), 3600);
    assert_eq!(f.tvcc_output_mv(), 3500);
    assert!(matches!(PowerField::try_alloc(&mut [0; 5]), Err(proto::Error::NotEnoughBytes)));
    let mut buf = [7u8, 0, 0, 0, 0, 0, 9];
    let g = PowerField::try_alloc(&mut buf).unwrap();
    assert_eq!(g.data(), &[7, 0, 0, 0, 0, 0]);
    assert_eq!(g.commit(), 6);
    assert_eq!(buf, [0, 0, 0, 0, 0, 0, 9]);
}

#[test]
fn power_field_setters_write_the_callers_buffer() {
    let mut buf = [0u8; 6];
    let mut p = PowerField::try_alloc(&mut buf).unwrap();
    p.set_key5v_enable(true);
    p.set_transvcc_follows_tvcc(false);
    p.set_transvcc_gated_by_gnddet(true);
    p.set_transvcc_gated_by_tvcc(false);
    p.set_tvcc_output(true);
    p.set_tvcc_gated_by_gnddet(true);
    p.set_transvcc_default_mv(3300);
    p.set_tvcc_output_mv(1800);
    assert!(p.key5v_enable());
    assert_eq!(p.transvcc_default_mv(), 3300);
    assert_eq!(p.commit(), 6);
    assert_eq!(buf, [0x00, 0xAC, 0xE4, 0x0C, 0x08, 0x07]);
    let q = PowerField::try_parse(&buf).unwrap();
    assert!(q.key5v_enable());
    assert!(!q.transvcc_follows_tvcc());
    assert!(q.transvcc_gated_by_gnddet());
    assert!(!q.transvcc_gated_by_tvcc());
    assert!(q.tvcc_output());
    assert!(q.tvcc_gated_by_gnddet());
    assert_eq!(q.transvcc_default_mv(), 3300);
    assert_eq!(q.tvcc_output_mv(), 1800);
}

#[test]
fn power_field_clone_from_writes_the_callers_buffer() {
    let mut buf = [1u8, 2, 3, 4, 5, 6, 7];
    let mut p = PowerField::try_alloc(&mut buf).unwrap();
    p.clone_from(&PowerField::default());
    assert_eq!(p.as_owned().inner, [0x00, 0xC0, 0xE4, 0x0C, 0x00, 0x00]);
    p.commit();
    assert_eq!(buf, [0x00, 0xC0, 0xE4, 0x0C, 0x00, 0x00, 7]);
}

#[test]
fn settings_round_trip_through_field() {
    let p = PowerControl {
        key5v_enable: false,
        signal_follows_tvcc: false,
        signal_gated_by_gnddet: true,
        signal_gated_by_tvcc: true,
        signal_default_mv: 2500,
        tvcc_output: true,
        tvcc_gated_by_gnddet: true,
        tvcc_output_mv: 3300,
    };
    let f = p.to_field();
    assert_eq!(f.inner, [0x00, 0x3C, 0xC4, 0x09, 0xE4, 0x0C]);
    assert_eq!(PowerControl::from_field(&f), p);
    let mut g = PowerField::default();
    p.fill_field(&mut g);
    assert_eq!(PowerControl::from_field(&g), p);
}

#[test]
fn factory_settings() {
    let p = PowerControl::default();
    assert!(p.key5v_enable);
    assert!(p.signal_follows_tvcc);
    assert!(!p.tvcc_output);
    assert_eq!(p.signal_default_mv, 3300);
    assert_eq!(p.tvcc_output_mv, 0);
    assert_eq!(power_config_from_read(None), p);
    assert_eq!(power_config_from_read(Some(&[1, 0, 0, 0, 0, 0])), p);
    let read = power_config_from_read(Some(&[0, 0x08, 0x08, 0x07, 0x88, 0x13]));
    assert!(read.tvcc_output);
    assert!(!read.key5v_enable);
    assert_eq!(read.signal_default_mv, 1800);
    assert_eq!(read.tvcc_output_mv, 5000);
}

fn no_changes() -> PowerControlChanges {
    PowerControlChanges {
        default: false,
        signal_gnddet: None,
        signal_target: None,
        follow_target: None,
        signal: None,
        target_output: None,
        target_gnddet: None,
        target: None,
        key5v: None,
    }
}

#[test]
fn changes_apply_only_what_is_asked() {
    let mut cfg = PowerControl::default();
    cfg.tvcc_output = true;
    assert!(!no_changes().apply(&mut cfg));
    assert!(cfg.tvcc_output);

    let mut c = no_changes();
    c.signal = Some(1800);
    c.key5v = Some(false);
    assert!(c.apply(&mut cfg));
    assert_eq!(cfg.signal_default_mv, 1800);
    assert!(!cfg.key5v_enable);
    assert!(cfg.tvcc_output);

    let mut d = no_changes();
    d.default = true;
    d.target = Some(3000);
    assert!(d.apply(&mut cfg));
    let mut expected = PowerControl::default();
    expected.tvcc_output_mv = 3000;
    assert_eq!(cfg, expected);
}

#[test]
fn host_requests() {
    let mut buf = [0xAAu8; 8];
    assert_eq!(firmware_version_request(&mut buf), 2);
    assert_eq!(&buf[..2], &[0x00, 0x09]);
    assert_eq!(status_request(&mut buf), 2);
    assert_eq!(&buf[..2], &[0xE0, 0x00]);
    assert_eq!(read_field_request(&mut buf, 0), 3);
    assert_eq!(&buf[..3], &[0xE0, 0x01, 0x00]);
    assert_eq!(reset_request(&mut buf, ResetType::Panic), 3);
    assert_eq!(&buf[..3], &[0xE0, 0xFE, 0xFF]);
    assert_eq!(write_field_request(&mut buf, 0, &[0, 0xC0, 0xE4, 0x0C, 0, 0]), Err(Error::ConfigValueError));
    let mut big = [0u8; 16];
    assert_eq!(write_field_request(&mut big, 0, &[0, 0xC0, 0xE4, 0x0C, 0, 0]), Ok(9));
    assert_eq!(&big[..9], &[0xE0, 0x02, 0x00, 0x00, 0xC0, 0xE4, 0x0C, 0x00, 0x00]);
}

#[test]
fn host_parses_replies() {
    assert_eq!(
        parse_status(&[0xE0, 0x00, 0x80, 0xE4, 0x0C, 0x08, 0x07]),
        Ok(grapple_probe::probe::host::Status { gnddet: true, target_mv: 3300, signal_mv: 1800 })
    );
    assert_eq!(parse_status(&[0xE0, 0x00, 0x80, 0xE4]), Err(Error::Timeout));
    assert_eq!(parse_status(&[0xE1, 0x00, 0x80, 0xE4, 0x0C, 0x08, 0x07]), Err(Error::Timeout));

    assert_eq!(parse_read_field(&[0xE0, 0x01, 0x00, 0x00, 1, 2, 3], 0), Ok(vec![1, 2, 3]));
    assert_eq!(parse_read_field(&[0xE0, 0x01, 0x01, 0x00, 1, 2, 3], 0), Err(Error::Timeout));

    assert_eq!(parse_write_field(&[0xE0, 0x02, 0x00, 0x00], 0), Ok(()));
    assert_eq!(parse_write_field(&[0xE0, 0x02, 0x01, 0x00], 0), Err(Error::ConfigValueError));
    assert_eq!(parse_write_field(&[0xE0, 0x00, 0x00, 0x00], 0), Err(Error::Timeout));
}

#[test]
fn host_parses_firmware_version() {
    assert_eq!(parse_firmware_version(&[0x00, 5, b'1', b'.', b'2', b'.', b'3']), Ok("1.2.3"));
    assert_eq!(parse_firmware_version(&[0x00, 9, b'1', b'.', b'2']), Ok("1.2"));
    assert_eq!(parse_firmware_version(&[0x00, 2, 0xFF, 0xFE]), Err(Error::ValueError));
    assert_eq!(parse_firmware_version(&[0x01, 2, b'1', b'2']), Err(Error::Timeout));
}

#[test]
fn vendor_packets_parse_by_type() {
    assert!(matches!(Packet::try_parse_request(&[0xE0]), Err(proto::Error::NotEnoughBytes)));
    assert!(matches!(Packet::try_parse_request(&[0xE1, 0x00]), Err(proto::Error::InvalidPacket)));
    assert!(matches!(Packet::try_parse_request(&[0xE0, 0x07]), Err(proto::Error::InvalidPacket)));
    assert!(matches!(Packet::try_parse_request(&[0xE0, 0x01]), Err(proto::Error::NotEnoughBytes)));
    match Packet::try_parse_request(&[0xE0, 0x02, 0x00, 9, 8]) {
        Ok(Packet::WriteFieldRequest(w)) => {
            assert_eq!(w.get_field_id(), 0);
            assert_eq!(w.get_data(), &[9, 8]);
        },
        _ => panic!("expected a write field request"),
    }
    match Packet::try_parse_request(&[0xE0, 0xFE, 0xFF]) {
        Ok(Packet::ResetRequest(r)) => assert_eq!(ResetType::try_from(r.get_reset_type()), Some(ResetType::Panic)),
        _ => panic!("expected a reset request"),
    }
    assert_eq!(ResetType::try_from(3), None);
}

#[test]
fn vendor_responses_built_by_probe() {
    let req_bytes = [0xE0, 0x01, 0x00];
    let req = match Packet::try_parse_request(&req_bytes) {
        Ok(Packet::ReadFieldRequest(r)) => r,
        _ => panic!("expected a read field request"),
    };
    let mut out = [0u8; 16];
    let mut res = req.try_alloc_response(&mut out).unwrap();
    res.set_status(0);
    res.set_field_id(req.get_field_id());
    let n = res.set_data(&[0, 0xC0, 0xE4, 0x0C, 0, 0]);
    let size = res.commit(n);
    assert_eq!(size, 10);
    assert_eq!(parse_read_field(&out[..size], 0), Ok(vec![0, 0xC0, 0xE4, 0x0C, 0, 0]));
}
