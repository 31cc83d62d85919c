use grapple_probe::usb_i2c::bridge::{finish_request, i2c_address_from_protocol, plan_request, I2CAction};
use grapple_probe::usb_i2c::protocol::{general_error, Error, Packet};

#[test]
fn address_keeps_seven_bits() {
    assert_eq!(i2c_address_from_protocol(0x0050), 0x50);
    assert_eq!(i2c_address_from_protocol(0x01D0), 0x50);
    assert_eq!(i2c_address_from_protocol(0xFFFF), 0x7F);
}

#[test]
fn plan_configure() {
    let mut res = [0u8; 8];
    let req = [0u8, 7, 1, 0xA0, 0x86, 0x01, 0x00];
    assert_eq!(plan_request(&req, &mut res), I2CAction::Configure(100_000));
    assert_eq!(res, [0u8; 8]);
}

#[test]
fn plan_write_read_and_write_read() {
    let mut res = [0u8; 8];
    let write = [1u8, 3, 0xD0, 0x00, 0x10, 0x20];
    assert_eq!(plan_request(&write, &mut res), I2CAction::Write(0x50, &[0x10, 0x20]));
    let read = [2u8, 4, 0x68, 0x00, 6];
    assert_eq!(plan_request(&read, &mut res), I2CAction::Read(0x68, 6));
    let wr = [3u8, 5, 0x68, 0x80, 2, 0x3B];
    assert_eq!(plan_request(&wr, &mut res), I2CAction::WriteRead(0x68, &[0x3B], 2));
}

#[test]
fn plan_refuses_what_it_cannot_read() {
    let mut res = [0xAAu8; 4];
    assert_eq!(plan_request(&[2u8, 4, 0x68], &mut res), I2CAction::Reply(2));
    // the general error carries the request's packet ID
    assert_eq!(res, [0xFF, 0x04, 0xAA, 0xAA]);
    let mut res2 = [0u8; 4];
    assert_eq!(plan_request(&[9u8, 1, 2, 3], &mut res2), I2CAction::Reply(2));
    assert_eq!(res2[..2], [0xFF, 0x01]);
    // no packet ID in the request: 0
    let mut res4 = [0xAAu8; 4];
    assert_eq!(plan_request(&[9u8], &mut res4), I2CAction::Reply(2));
    assert_eq!(res4, [0xFF, 0x00, 0xAA, 0xAA]);
    let mut res3 = [0u8; 4];
    assert_eq!(general_error(&mut res3, 7), 2);
    assert_eq!(res3[..2], [0xFF, 0x07]);
}

#[test]
fn finish_writes_result() {
    let req_bytes = [2u8, 9, 0x68, 0x00, 2];
    let req = match Packet::try_parse_request(&req_bytes) {
        Ok(Packet::ReadRequest(r)) => r,
        _ => panic!("expected a read request"),
    };
    let mut res = [0u8, 0, 0, 0x12, 0x34, 0];
    assert_eq!(finish_request(&req, &mut res, true, 2), 5);
    assert_eq!(&res[..5], &[2, 9, 0, 0x12, 0x34]);
    assert_eq!(finish_request(&req, &mut res, false, 0), 3);
    assert_eq!(&res[..3], &[2, 9, 1]);

    let cfg_bytes = [0u8, 1, 1, 0x40, 0x0D, 0x03, 0x00];
    let cfg = match Packet::try_parse_request(&cfg_bytes) {
        Ok(Packet::ConfigureRequest(r)) => r,
        _ => panic!("expected a configure request"),
    };
    assert_eq!(cfg.get_version(), 1);
    assert_eq!(cfg.get_freq_hz(), 200_000);
    let mut out = [0u8; 3];
    assert_eq!(finish_request(&cfg, &mut out, false, 0), 3);
    assert_eq!(out, [0, 1, 255]);
}

#[test]
fn bridge_packets_parse() {
    assert!(matches!(Packet::try_parse_request(&[1u8]), Err(Error::NotEnoughBytes)));
    assert!(matches!(Packet::try_parse_request(&[7u8, 0, 0, 0]), Err(Error::UnknownId)));
    assert!(matches!(Packet::try_parse_request(&[0u8, 0, 1, 2]), Err(Error::NotEnoughBytes)));
    match Packet::try_parse_response(&[3u8, 2, 0, 0xAB, 0xCD]) {
        Ok(Packet::WriteReadResponse(r)) => {
            assert_eq!(r.get_result(), 0);
            assert_eq!(r.get_data(), &[0xAB, 0xCD]);
        },
        _ => panic!("expected a write-read response"),
    }
    assert!(matches!(Packet::try_parse_response(&[3u8, 2]), Err(Error::NotEnoughBytes)));
}
