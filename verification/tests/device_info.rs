use grapple_probe::device_info::{generate, DeviceInfo, DeviceInfoBuilder, DeviceInfoField, Error, Field};

#[test]
fn build_and_parse() {
    let mut buf = [0u8; 4096];
    let mut builder = DeviceInfoBuilder::try_alloc(&mut buf).expect("should have enough space in buffer to allocate builder");
    builder.add_device_id("grpl-probe-r1-0324");
    let size = builder.commit();

    let device_info = DeviceInfo::try_parse(&buf[..size]).expect("should produce valid device info");
    let field = device_info.get_fields().next().expect("should have a field");
    match field {
        DeviceInfoField::DeviceId(id) => assert_eq!(id.try_get(), Some("grpl-probe-r1-0324")),
    }
}

#[test]
fn devicd_id_has_buffer_scope() {
    let mut buf = [0u8; 4096];
    let mut builder = DeviceInfoBuilder::try_alloc(&mut buf).expect("should have enough space in buffer to allocate builder");
    builder.add_device_id("grpl-probe-r1-0324");
    let size = builder.commit();

    let mut device_id: Option<&str> = None;
    let device_info = DeviceInfo::try_parse(&buf[..size]).expect("should produce valid device info");
    let mut fields = device_info.get_fields();
    while let Some(field) = fields.next() {
        match field {
            DeviceInfoField::DeviceId(devid_field) => device_id = devid_field.try_get(),
        }
    }
    assert_eq!(device_id, Some("grpl-probe-r1-0324"));
}

#[test]
fn record_layout_and_checksum() {
    let mut buf = [0u8; 16];
    let mut builder = DeviceInfoBuilder::try_alloc(&mut buf).expect("room for the header");
    assert!(builder.add_device_id("ab"));
    let size = builder.commit();
    assert_eq!(size, 10);
    assert_eq!(&buf[2..10], &[6, 0, 0, 0, 2, 0, b'a', b'b']);
    assert_eq!(u16::from_le_bytes([buf[0], buf[1]]), fletcher::calc_fletcher16(&buf[2..10]));
}

#[test]
fn builder_refuses_a_field_that_does_not_fit() {
    let mut buf = [0u8; 8];
    let mut builder = DeviceInfoBuilder::try_alloc(&mut buf).expect("room for the header");
    assert!(!builder.add_device_id("abc"));
    assert_eq!(builder.commit(), 4);
    assert!(matches!(DeviceInfoBuilder::try_alloc(&mut [0u8; 3]), Err(Error::NotEnoughBytes)));
}

#[test]
fn parse_errors() {
    assert!(matches!(DeviceInfo::try_parse(&[0u8, 0, 1]), Err(Error::NotEnoughBytes)));
    assert!(matches!(DeviceInfo::try_parse(&[0u8, 0, 3, 0, 1]), Err(Error::NotEnoughBytes)));
    assert!(matches!(DeviceInfo::try_parse(&[0x12u8, 0x34, 0, 0]), Err(Error::InvalidChecksum)));
}

#[test]
fn unrecognized_fields_are_skipped() {
    let mut buf = [0u8; 64];
    let payload = [7u8, 0, 1, 0, 0xAA, 0, 0, 2, 0, b'o', b'k'];
    buf[2] = payload.len() as u8;
    buf[4..4 + payload.len()].copy_from_slice(&payload);
    let sum = fletcher::calc_fletcher16(&buf[2..4 + payload.len()]);
    buf[0..2].copy_from_slice(&sum.to_le_bytes());
    let info = DeviceInfo::try_parse(&buf[..4 + payload.len()]).expect("valid record");
    let mut fields = info.get_fields();
    match fields.next() {
        Some(DeviceInfoField::DeviceId(id)) => assert_eq!(id.try_get(), Some("ok")),
        None => panic!("should find the device id"),
    }
    assert!(fields.next().is_none());
    let field = Field::try_parse(&payload).expect("whole field");
    assert_eq!(field.get_id(), 7);
    assert_eq!(field.get_len(), 5);
    assert_eq!(field.get_payload(), &[0xAA]);
}

#[test]
fn invalid_utf8_device_id() {
    let mut buf = [0u8; 32];
    let payload = [0u8, 0, 2, 0, 0xFF, 0xFE];
    buf[2] = payload.len() as u8;
    buf[4..4 + payload.len()].copy_from_slice(&payload);
    let sum = fletcher::calc_fletcher16(&buf[2..4 + payload.len()]);
    buf[0..2].copy_from_slice(&sum.to_le_bytes());
    let info = DeviceInfo::try_parse(&buf[..4 + payload.len()]).expect("valid record");
    match info.get_fields().next() {
        Some(DeviceInfoField::DeviceId(id)) => assert_eq!(id.try_get(), None),
        None => panic!("should find the device id"),
    }
}

#[test]
fn generate_round_trips() {
    let record = generate("probe-7");
    let info = DeviceInfo::try_parse(&record).expect("generated record parses");
    match info.get_fields().next() {
        Some(DeviceInfoField::DeviceId(id)) => assert_eq!(id.try_get(), Some("probe-7")),
        None => panic!("should find the device id"),
    }
    assert_eq!(record.len(), 4 + 4 + 7);
}

fn fletcher16_by_sums(data: &[u8]) -> u16 {
    let mut sum: u64 = 0;
    let mut running: u64 = 0;
    for b in data {
        sum += *b as u64;
        running += sum;
    }
    (((running % 255) << 8) | (sum % 255)) as u16
}

#[test]
fn checksum_is_fletcher16_of_length_and_payload() {
    let mut buf = [0u8; 64];
    let mut builder = DeviceInfoBuilder::try_alloc(&mut buf).expect("room for the header");
    assert!(builder.add_device_id("abc"));
    assert!(builder.add_device_id("probe-with-a-longer-identifier"));
    let size = builder.commit();
    let sum = u16::from_le_bytes([buf[0], buf[1]]);
    assert_eq!(sum, fletcher16_by_sums(&buf[2..size]));
    // the crate's documented example
    assert_eq!(fletcher16_by_sums(&[0xC1, 0x77, 0xE9, 0xC0, 0xAB, 0x1E]), 0x3FAD);
}

#[test]
fn several_device_ids_walk_back_in_order() {
    let mut buf = [0u8; 128];
    let mut builder = DeviceInfoBuilder::try_alloc(&mut buf).expect("room for the header");
    assert!(builder.add_device_id("first"));
    assert!(builder.add_device_id("second"));
    assert!(builder.add_device_id("third"));
    let size = builder.commit();
    let info = DeviceInfo::try_parse(&buf[..size]).expect("a valid record");
    let mut fields = info.get_fields();
    let mut ids = Vec::new();
    while let Some(DeviceInfoField::DeviceId(id)) = fields.next() {
        ids.push(id.try_get().expect("utf-8").to_string());
    }
    assert_eq!(ids, vec!["first", "second", "third"]);
}

#[test]
fn only_accepted_device_ids_walk_back() {
    let mut buf = [0u8; 24];
    let mut builder = DeviceInfoBuilder::try_alloc(&mut buf).expect("room for the header");
    assert!(builder.add_device_id("abcd"));
    assert!(!builder.add_device_id("far-too-long-for-the-room-left"));
    assert!(builder.add_device_id("xy"));
    let size = builder.commit();
    assert_eq!(size, 4 + 8 + 6);
    assert_eq!(u16::from_le_bytes([buf[2], buf[3]]), 14);
    let info = DeviceInfo::try_parse(&buf[..size]).expect("a valid record");
    let mut fields = info.get_fields();
    let mut ids = Vec::new();
    while let Some(DeviceInfoField::DeviceId(id)) = fields.next() {
        ids.push(id.try_get().expect("utf-8").to_string());
    }
    assert_eq!(ids, vec!["abcd", "xy"]);
}
