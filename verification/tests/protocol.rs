use grapple_probe::cmsis_dap::protocol::common::{CommandProperties, CommandType, Error, Packet, StandardResponse};
use grapple_probe::cmsis_dap::protocol::general::{DelayResponse, ResetTargetResponse, WriteAbortResponse};
use grapple_probe::cmsis_dap::protocol::jtag::{JTAGConfigureCommand, JTAGSequenceCommand};
use grapple_probe::cmsis_dap::protocol::transfer::{TransferBlockResponse, TransferResponse};
use grapple_probe::cmsis_dap::protocol::Command;
use grapple_probe::cmsis_dap::types::{TransferAck, TransferRequest, TransferStatus};

struct TestCommandProps {}
impl CommandProperties for TestCommandProps {
    const TYPE: CommandType = CommandType::Delay;
}

#[test]
fn standard_response() {
    type TestCommandResponse<'a> = StandardResponse<'a, TestCommandProps>;

    let mut packet = [0u8; 2];

    let response = TestCommandResponse::try_alloc(&mut packet).expect("should be able to allocate response");
    assert_eq!(response.commit_ok(), 2);
    assert_eq!(packet, [9u8, 0u8]);

    let response = TestCommandResponse::try_alloc(&mut packet).expect("should be able to allocate response");
    assert_eq!(response.commit_err(), 2);
    assert_eq!(packet, [9u8, 0xFFu8]);

    let mut short_packet = [0u8; 1];
    assert!(
        matches!(TestCommandResponse::try_alloc(&mut short_packet), Err(Error::BufferNotBigEnough)),
        "shouldn't be able to allocate with a short buffer"
    );
}

#[test]
fn jtag_sequence_request() {
    let request_data = [20u8, 4, 65, 0, 1, 0, 128, 255, 255, 255, 255, 255, 255, 255, 255, 128, 255, 255, 255, 255, 255, 255, 255, 255];

    let packet = Packet::try_parse(&request_data).expect("this is a valid packet");
    let request = JTAGSequenceCommand::try_from(packet).expect("this is a valid sequence packet");
    let mut iter = request.get_sequences();

    let sequence = iter.next().expect("should have this sequence");
    assert!(!sequence.get_capture_tdo());
    assert!(sequence.get_tms());
    assert_eq!(sequence.get_num_bits(), 1);
    assert_eq!(sequence.get_tdi_data(), &[0u8]);

    let sequence = iter.next().expect("should have this sequence");
    assert!(!sequence.get_capture_tdo());
    assert!(!sequence.get_tms());
    assert_eq!(sequence.get_num_bits(), 1);
    assert_eq!(sequence.get_tdi_data(), &[0u8]);

    let sequence = iter.next().expect("should have this sequence");
    assert!(sequence.get_capture_tdo());
    assert!(!sequence.get_tms());
    assert_eq!(sequence.get_num_bits(), 64);
    assert_eq!(sequence.get_tdi_data(), &[255u8, 255, 255, 255, 255, 255, 255, 255]);
}

#[test]
fn test_sequence_request2() {
    let request_data = [20u8, 30, 1, 0, 65, 0, 1, 0, 1, 0, 8, 135, 65, 14, 1, 0, 65, 0, 65, 0, 1, 0, 65, 0, 65, 0, 1, 0, 1, 0, 5, 28, 4, 255, 65, 255, 1, 1, 65, 0, 65, 0, 1, 0, 65, 0, 1, 0, 1, 0, 8, 135, 65, 254, 1, 254, 65, 0, 65, 0, 1, 0];

    let packet = Packet::try_parse(&request_data).expect("this is a valid packet");
    let request = JTAGSequenceCommand::try_from(packet).expect("this is a valid sequence packet");
    let mut iter = request.get_sequences();

    iter.next().expect("has 30 sequences");
    iter.next().expect("has 30 sequences");
}

#[test]
fn test_jtag_configure_larger_payload() {
    let request_data = [0x15u8, 1, 4, 0];
    let packet = Packet::try_parse(&request_data).expect("valid packet");
    let request = JTAGConfigureCommand::try_from(packet).expect("valid jtag config command");

    assert_eq!(request.get_ir_lengths().len(), 1);
    assert_eq!(request.get_ir_lengths()[0], 4);
}

#[test]
fn swd_configure() {
    let packet = [0x13u8, 0];
    match Command::try_parse(&packet).expect("failed to parse valid packet") {
        Command::SWDConfigure(command) => {
            assert_eq!(command.get_turnaround(), 1);
            assert_eq!(command.get_always_data_phase(), false);
        },
        _ => assert!(false, "unexpected command response"),
    }

    let packet = [0x13u8, 0x07];
    match Command::try_parse(&packet).expect("failed to parse valid packet") {
        Command::SWDConfigure(command) => {
            assert_eq!(command.get_turnaround(), 4);
            assert_eq!(command.get_always_data_phase(), true);
        },
        _ => assert!(false, "unexpected command response"),
    }
}

#[test]
fn transfer_read_one_packet() {
    let packet = [5u8, 0, 1, 2];
    let command = Command::try_parse(&packet).expect("failed to parse valid packet");
    match command {
        Command::Transfer(command) => {
            assert_eq!(command.get_index(), 0);
            let expected_transfers = [(TransferRequest(2), 0u32)];
            let mut transfers: Vec<(TransferRequest, u32)> = Vec::new();
            let mut iter = command.get_transfers();
            while let Some(t) = iter.next() {
                transfers.push(t);
            }
            assert_eq!(expected_transfers, transfers.as_slice(), "unexpected transfers");
        },
        _ => assert!(false, "unexpected command response"),
    }
}

#[test]
fn transfer_response() {
    let mut buffer = [0u8; 64];
    let mut response = TransferResponse::try_alloc(&mut buffer).expect("buffer should be big enough");

    let request = TransferRequest(0b00000010); // normal read
    let one_response = response.try_allocate_response(request).expect("there should be enough buffer for the response");
    one_response.commit(TransferStatus::ok(), None, Some(45));

    let request = TransferRequest(0b00000000); // normal write
    let one_response = response.try_allocate_response(request).expect("there should be enough buffer for the response");
    one_response.commit(TransferStatus::ok(), None, None);

    let request = TransferRequest(0b00100000); // write match mask
    let one_response = response.try_allocate_response(request).expect("there should be enough buffer for the response");
    let status = TransferStatus { ack: TransferAck::swd(7), protocol_error: true, value_mismatch: false };
    one_response.commit(status, None, None);

    let request = TransferRequest(0b00010010); // read with value match
    let one_response = response.try_allocate_response(request).expect("there should be enough buffer for the response");
    one_response.commit(TransferStatus::ok(), None, None);

    let request = TransferRequest(0b10000010); // read with timestamp
    let one_response = response.try_allocate_response(request).expect("there should be enough buffer for the response");
    one_response.commit(TransferStatus::ok(), Some(44), Some(43));

    let packet_size = response.commit();

    let expected_packet = [0x05u8, 5, 0x01, 45, 0, 0, 0, 44, 0, 0, 0, 43, 0, 0, 0];
    assert_eq!(packet_size, expected_packet.len());
    assert_eq!(buffer[..packet_size], expected_packet);
}

#[test]
fn transfer_block_response() {
    let mut buffer = [0u8; 64];
    let mut response = TransferBlockResponse::try_alloc(&mut buffer).expect("there should be enough buffer for the response");
    response.set_status(TransferStatus::ok());
    let packet_size = response.commit_with_data(10);

    assert_eq!(packet_size, 4 + 10 * 4);
    assert_eq!(&buffer[..4], &[0x06, 0x0A, 0x00, 0x01]);

    let mut buffer = [0u8; 64];
    let mut response = TransferBlockResponse::try_alloc(&mut buffer).expect("there should be enough buffer for the response");
    response.set_status(TransferStatus::ok());
    let packet_size = response.commit_without_data(10);

    assert_eq!(packet_size, 4);
    assert_eq!(&buffer[..4], &[0x06, 0x0A, 0x00, 0x01]);
}

#[test]
fn swd_sequence_targetsel() {
    let packet = [29u8, 3, 8, 153, 133, 33, 39, 41, 0, 1, 0];
    let command = Command::try_parse(&packet).expect("failed to parse valid packet");
    let sequences = match command {
        Command::SWDSequence(command) => {
            let mut sequences: Vec<(usize, Vec<u8>)> = Vec::new();
            let mut iter = command.sequences();
            while let Some((num_bits, data)) = iter.next() {
                sequences.push((num_bits, data.to_vec()));
            }
            sequences
        },
        _ => panic!("should be a swd sequence command"),
    };

    let expected_sequences = vec![(8usize, vec![153u8]), (5, Vec::<u8>::new()), (33, vec![39u8, 41, 0, 1, 0])];
    assert_eq!(expected_sequences, sequences);
}

#[test]
fn write_abort_command() {
    let packet = [0x08u8, 0, 0x01, 0x23, 0x45, 0x67];
    let command = Command::try_parse(&packet).expect("failed to parse valid packet");
    match command {
        Command::WriteAbort(command) => {
            assert_eq!(command.get_dap_index(), 0);
            assert_eq!(command.get_abort_value(), 0x67452301);
        },
        _ => panic!("should be a write abort command"),
    };
}

#[test]
fn write_abort_response() {
    let mut packet = [0u8; 16];

    let response = WriteAbortResponse::try_alloc(&mut packet).expect("should be able to alloc write abort response");
    assert_eq!(response.commit_ok(), 2);
    assert_eq!(&packet[..2], &[0x08, 0x00]);

    let response = WriteAbortResponse::try_alloc(&mut packet).expect("should be able to alloc write abort response");
    assert_eq!(response.commit_err(), 2);
    assert_eq!(&packet[..2], &[0x08, 0xFF]);
}

#[test]
fn delay_command() {
    let packet = [0x09u8, 0x01, 0x23];
    let command = Command::try_parse(&packet).expect("failed to parse valid packet");
    match command {
        Command::Delay(command) => {
            assert_eq!(command.get_delay_us(), 0x2301);
        },
        _ => panic!("should be a delay command"),
    };
}

#[test]
fn delay_response() {
    let mut packet = [0u8; 16];

    let response = DelayResponse::try_alloc(&mut packet).expect("should be able to alloc delay response");
    assert_eq!(response.commit_ok(), 2);
    assert_eq!(&packet[..2], &[0x09, 0x00]);
}

#[test]
fn reset_target_command() {
    let packet = [0x0Au8];
    let command = Command::try_parse(&packet).expect("failed to parse valid packet");
    match command {
        Command::ResetTarget(_) => (),
        _ => panic!("should be a delay command"),
    };
}

#[test]
fn reset_target_response() {
    let mut packet = [0u8; 16];

    let mut response = ResetTargetResponse::try_alloc(&mut packet).expect("should be able to alloc reset target response");
    response.set_device_specific(false);
    assert_eq!(response.commit_ok(), 3);
    assert_eq!(&packet[..3], &[0x0A, 0x00, 0x00]);

    let mut response = ResetTargetResponse::try_alloc(&mut packet).expect("should be able to alloc reset target response");
    response.set_device_specific(true);
    assert_eq!(response.commit_ok(), 3);
    assert_eq!(&packet[..3], &[0x0A, 0x00, 0x01]);

    let response = ResetTargetResponse::try_alloc(&mut packet).expect("should be able to alloc reset target response");
    assert_eq!(response.commit_err(), 3);
    assert_eq!(&packet[..3], &[0x0A, 0xFF, 0x00]);
}

#[test]
fn unknown_and_short_requests() {
    assert!(matches!(Command::try_parse(&[]), Err(Error::BufferNotBigEnough)));
    assert!(matches!(Command::try_parse(&[0xE0u8]), Err(Error::UnsupportedCommand(0xE0))));
    assert!(matches!(Command::try_parse(&[0x08u8, 0, 1]), Err(Error::BufferNotBigEnough)));
}

#[test]
fn command_type_round_trip() {
    for v in 0u8..=255 {
        if let Some(t) = CommandType::try_from_u8(v) {
            assert_eq!(t.to_u8(), v);
        }
    }
}

#[test]
fn transfer_read_with_value_match_carries_its_value() {
    // a DP read with value match (0x12), then a plain DP read (0x06)
    let packet = [5u8, 0, 2, 0x12, 0x78, 0x56, 0x34, 0x12, 0x06];
    let command = Command::try_parse(&packet).expect("failed to parse valid packet");
    match command {
        Command::Transfer(command) => {
            let mut transfers: Vec<(TransferRequest, u32)> = Vec::new();
            let mut iter = command.get_transfers();
            while let Some(t) = iter.next() {
                transfers.push(t);
            }
            assert_eq!(transfers, vec![(TransferRequest(0x12), 0x12345678), (TransferRequest(0x06), 0)]);
        },
        _ => assert!(false, "unexpected command response"),
    }
}
