use grapple_probe::cmsis_dap::dap::{swd_read_outcome, swd_write_outcome, DebugAccessPort};
use grapple_probe::cmsis_dap::dispatcher::{DispatchOutcome, Dispatcher};
use grapple_probe::cmsis_dap::port::{JTAGAccessPort, Reactor, SWDAccessPort, SWJAccessPort};
use grapple_probe::cmsis_dap::types::{AbortToken, ConnectMode, Pins, Register};

/// A port that plays back bits for reads and records the bits written.
struct TestAccessPort {
    read_bits: Vec<bool>,
    read_pos: usize,
    written: Vec<bool>,
    open_result: bool,
}

impl TestAccessPort {
    fn new(read_bits: Vec<bool>) -> Self {
        Self { read_bits, read_pos: 0, written: Vec::new(), open_result: true }
    }

    fn written_bytes(&self) -> Vec<u8> {
        let mut out = vec![0u8; (self.written.len() + 7) / 8];
        for (i, b) in self.written.iter().enumerate() {
            if *b {
                out[i / 8] |= 1 << (i % 8);
            }
        }
        out
    }

    fn take_bits(&mut self, n: usize) -> Option<Vec<bool>> {
        if self.read_pos + n > self.read_bits.len() {
            return None;
        }
        let bits = self.read_bits[self.read_pos..self.read_pos + n].to_vec();
        self.read_pos += n;
        Some(bits)
    }
}

fn bits_of(value: u64, n: usize) -> Vec<bool> {
    (0..n).map(|i| (value >> i) & 1 == 1).collect()
}

fn pack(bits: &[bool], out: &mut [u8]) {
    for b in out.iter_mut() {
        *b = 0;
    }
    for (i, bit) in bits.iter().enumerate() {
        if *bit {
            out[i / 8] |= 1 << (i % 8);
        }
    }
}

fn unpack(data: &[u8], n: usize) -> Vec<bool> {
    (0..n).map(|i| (data[i / 8] >> (i % 8)) & 1 == 1).collect()
}

impl SWJAccessPort for TestAccessPort {
    fn set_frequency(&mut self, _freq_hz: u32) -> bool {
        true
    }

    fn pins(&mut self, out: Pins, _mask: Pins, _wait_us: u32) -> Pins {
        out
    }

    fn write_sequence(&mut self, num_bits: usize, data: &[u8]) -> bool {
        <Self as SWDAccessPort>::write(self, num_bits, data)
    }
}

impl SWDAccessPort for TestAccessPort {
    const SUPPORTED: bool = true;

    fn open(&mut self) -> bool {
        self.open_result
    }

    fn close(&mut self) -> bool {
        true
    }

    fn read(&mut self, num_bits: usize, data: &mut [u8]) -> bool {
        match self.take_bits(num_bits) {
            Some(bits) => {
                pack(&bits, data);
                true
            },
            None => false,
        }
    }

    fn write(&mut self, num_bits: usize, data: &[u8]) -> bool {
        let bits = unpack(data, num_bits);
        self.written.extend(bits);
        true
    }
}

impl JTAGAccessPort for TestAccessPort {
    const SUPPORTED: bool = true;

    fn open(&mut self) -> bool {
        self.open_result
    }

    fn close(&mut self) -> bool {
        true
    }

    fn clock(&mut self, cycles: usize, _tms: bool, tdi: bool) -> bool {
        self.written.extend(std::iter::repeat(tdi).take(cycles));
        true
    }

    fn transfer(&mut self, num_bits: usize, _tms: bool, tdi: &[u8], tdo: &mut [u8]) -> bool {
        let bits = unpack(tdi, num_bits);
        self.written.extend(bits);
        if tdo.len() > 0 {
            match self.take_bits(num_bits) {
                Some(bits) => {
                    let n = (num_bits + 7) / 8;
                    pack(&bits, &mut tdo[..n]);
                    true
                },
                None => false,
            }
        } else {
            true
        }
    }
}

/// The bits an SWD read of 0x01234567 answers with: OK acknowledge after
/// one turnaround bit, the value, even parity and a trailing bit.
fn ok_read_bits() -> Vec<bool> {
    let mut bits = bits_of(0x2, 4);
    bits.extend(bits_of(0x01234567, 32));
    bits.push(false);
    bits.push(false);
    bits
}

#[test]
fn read_register() {
    let port = TestAccessPort::new(ok_read_bits());
    let mut dap = DebugAccessPort::new(port);

    let abort = AbortToken::new();
    assert_eq!(dap.connect(ConnectMode::SWD), Ok(ConnectMode::SWD));
    let (value, status) = dap.transfer_read(0, Register::debug_port(1), &abort);
    assert!(!status.has_errors());
    assert_eq!(value, 0x01234567);
    assert_eq!(dap.port.written_bytes(), vec![0b10001101u8]);
}

#[test]
fn write_register() {
    let port = TestAccessPort::new(bits_of(0x2, 5));
    let mut dap = DebugAccessPort::new(port);

    let abort = AbortToken::new();
    assert_eq!(dap.connect(ConnectMode::SWD), Ok(ConnectMode::SWD));
    let status = dap.transfer_write(0, Register::access_port(1), 0x01234567, &abort);
    assert!(!status.has_errors());
    assert_eq!(dap.port.written_bytes(), vec![0b10001011u8, 0x67, 0x45, 0x23, 0x01, 0x00]);
}

#[test]
fn read_mask_register() {
    let port = TestAccessPort::new(ok_read_bits());
    let mut dap = DebugAccessPort::new(port);

    let abort = AbortToken::new();
    assert_eq!(dap.connect(ConnectMode::SWD), Ok(ConnectMode::SWD));
    dap.transfer_config.match_mask = 0x00FFFFFF;
    let status = dap.transfer_read_match(0, Register::debug_port(1), 0x00234567, &abort);
    assert!(!status.has_errors());
    assert_eq!(dap.port.written_bytes(), vec![0b10001101u8]);
}

#[test]
fn read_parity_error_is_reported() {
    let mut bits = bits_of(0x2, 4);
    bits.extend(bits_of(0x01234567, 32));
    bits.push(true);
    bits.push(false);
    let mut dap = DebugAccessPort::new(TestAccessPort::new(bits));
    let abort = AbortToken::new();
    dap.connect(ConnectMode::SWD).unwrap();
    let (_, status) = dap.transfer_read(0, Register::debug_port(1), &abort);
    assert!(status.protocol_error);
    assert!(status.has_errors());
}

#[test]
fn disconnected_port_does_nothing() {
    let mut dap = DebugAccessPort::new(TestAccessPort::new(Vec::new()));
    let abort = AbortToken::new();
    let (value, status) = dap.transfer_read(0, Register::debug_port(1), &abort);
    assert_eq!(value, 0);
    assert!(status.has_errors());
    assert!(dap.port.written.is_empty());
    let mut block = [0u8; 8];
    assert_eq!(dap.transfer_read_block(0, Register::access_port(3), &mut block, &abort).0, 0);
    assert!(dap.disconnect());
}

#[test]
fn connect_failure_keeps_state() {
    let mut port = TestAccessPort::new(Vec::new());
    port.open_result = false;
    let mut dap = DebugAccessPort::new(port);
    assert_eq!(dap.connect(ConnectMode::SWD), Err(()));
    assert_eq!(dap.connect(ConnectMode::Unknown(7)), Err(()));
    assert!(!dap.swd_write_sequence(8, &[0xFF]));
}

struct FakeReactor {}
impl Reactor for FakeReactor {}

fn unrecognized_packet(_command: &[u8], response: &mut [u8]) -> usize {
    let data = "unsup";
    response[..data.len()].copy_from_slice(data.as_bytes());
    data.len()
}

#[test]
fn transfer_read_command() {
    let port = TestAccessPort::new(ok_read_bits());
    let reactor = FakeReactor {};
    let abort = AbortToken::new();
    let mut dispatcher = Dispatcher::<'_, _, _, ()>::new(port, &reactor, None);

    dispatcher.dap.connect(ConnectMode::SWD).unwrap();
    let mut response = [0u8; 64];
    let size = match dispatcher.dispatch_one(&[5, 0, 1, 2], &mut response, &abort) {
        DispatchOutcome::Reply(n) => n,
        _ => panic!("should reply"),
    };
    assert_eq!(size, 7);
    assert_eq!(&response[..size], &[5, 1, 1, 0x67, 0x45, 0x23, 0x01]);
}

#[test]
fn jtag_sequence() {
    let port = TestAccessPort::new(vec![false; 40 * 8]);
    let reactor = FakeReactor {};
    let abort = AbortToken::new();
    let mut dispatcher = Dispatcher::<'_, _, _, ()>::new(port, &reactor, None);

    dispatcher.dap.connect(ConnectMode::JTAG).unwrap();
    let mut response = [0u8; 64];
    let request_buf = [20u8, 12, 65, 0, 65, 0, 65, 0, 1, 0, 65, 0, 1, 0, 1, 0, 128, 255, 255, 255, 255, 255, 255, 255, 255, 128, 255, 255, 255, 255, 255, 255, 255, 255, 128, 255, 255, 255, 255, 255, 255, 255, 255, 128, 255, 255, 255, 255, 255, 255, 255, 255, 128, 255, 255, 255, 255, 255, 255, 255, 255];
    let size = match dispatcher.dispatch_one(&request_buf, &mut response, &abort) {
        DispatchOutcome::Reply(n) => n,
        _ => panic!("should reply"),
    };
    assert_eq!(size, 42);
    assert_eq!(&response[..size], &[20u8, 0, 0, 0, 0, 0, 0, 0, 0, 0, 0, 0, 0, 0, 0, 0, 0, 0, 0, 0, 0, 0, 0, 0, 0, 0, 0, 0, 0, 0, 0, 0, 0, 0, 0, 0, 0, 0, 0, 0, 0, 0]);
}

#[test]
fn unrecognized_sequence() {
    let port = TestAccessPort::new(vec![false; 40 * 8]);
    let reactor = FakeReactor {};
    let abort = AbortToken::new();
    let mut dispatcher = Dispatcher::<'_, _, _, ()>::new(port, &reactor, None);

    let mut response = [0u8; 64];
    let command = [0xE0u8];
    let size = match dispatcher.dispatch_one(&command, &mut response, &abort) {
        DispatchOutcome::Unrecognized => unrecognized_packet(&command, &mut response),
        _ => panic!("should go to the reactor"),
    };
    assert_eq!(size, 5);
    assert_eq!(&response[..5], "unsup".as_bytes());
}

#[test]
fn info_and_simple_requests() {
    let reactor = FakeReactor {};
    let abort = AbortToken::new();
    let mut dispatcher = Dispatcher::<'_, _, _, ()>::new(TestAccessPort::new(Vec::new()), &reactor, None);
    let mut response = [0u8; 64];

    assert_eq!(dispatcher.dispatch_one(&[0x00, 0x04], &mut response, &abort), DispatchOutcome::Reply(7));
    assert_eq!(&response[..7], &[0x00, 5, b'2', b'.', b'1', b'.', b'1']);

    assert_eq!(dispatcher.dispatch_one(&[0x00, 0xF0], &mut response, &abort), DispatchOutcome::Reply(3));
    assert_eq!(&response[..3], &[0x00, 1, 0x43]);

    assert_eq!(dispatcher.dispatch_one(&[0x00, 0xFF], &mut response, &abort), DispatchOutcome::Reply(4));
    assert_eq!(&response[..4], &[0x00, 2, 64, 0]);

    assert_eq!(dispatcher.dispatch_one(&[0x00, 0x09], &mut response, &abort), DispatchOutcome::Reply(2));
    assert_eq!(&response[..2], &[0x00, 0]);

    assert_eq!(dispatcher.dispatch_one(&[0x09, 0x10, 0x00], &mut response, &abort), DispatchOutcome::Delay(16, 2));
    assert_eq!(&response[..2], &[0x09, 0x00]);

    assert_eq!(dispatcher.dispatch_one(&[0x02, 0x01], &mut response, &abort), DispatchOutcome::Reply(2));
    assert_eq!(&response[..2], &[0x02, 0x01]);

    assert_eq!(dispatcher.dispatch_one(&[0x03], &mut response, &abort), DispatchOutcome::Reply(2));
    assert_eq!(&response[..2], &[0x03, 0x00]);

    assert_eq!(dispatcher.dispatch_one(&[0x18, 0x00], &mut response, &abort), DispatchOutcome::Reply(1));
    assert_eq!(response[0], 0xFF);

    assert_eq!(dispatcher.dispatch_one(&[0x08, 0x00], &mut response, &abort), DispatchOutcome::Reply(1));
    assert_eq!(response[0], 0xFF);
}

#[test]
fn configuration_requests() {
    let reactor = FakeReactor {};
    let abort = AbortToken::new();
    let mut dispatcher = Dispatcher::<'_, _, _, ()>::new(TestAccessPort::new(Vec::new()), &reactor, None);
    let mut response = [0u8; 64];

    assert_eq!(dispatcher.dispatch_one(&[0x04, 5, 0x10, 0x00, 0x20, 0x00], &mut response, &abort), DispatchOutcome::Reply(2));
    assert_eq!(dispatcher.dap.transfer_config.idle_cycles, 5);
    assert_eq!(dispatcher.dap.transfer_config.wait_retry, 16);
    assert_eq!(dispatcher.dap.transfer_config.match_retry, 32);

    assert_eq!(dispatcher.dispatch_one(&[0x13, 0x06], &mut response, &abort), DispatchOutcome::Reply(2));
    assert_eq!(dispatcher.dap.transfer_config.swd.turnaround, 3);
    assert!(dispatcher.dap.transfer_config.swd.always_data_phase);

    assert_eq!(dispatcher.dispatch_one(&[0x15, 2, 4, 5], &mut response, &abort), DispatchOutcome::Reply(2));
    assert_eq!(&response[..2], &[0x15, 0x00]);
    assert_eq!(dispatcher.dap.transfer_config.jtag.device_count, 2);
    assert_eq!(dispatcher.dap.transfer_config.jtag.ir_total_bits, 9);
    assert_eq!(dispatcher.dap.transfer_config.jtag.ir_before_bits[1], 4);
}

#[test]
fn requests_the_port_can_carry_out() {
    let reactor = FakeReactor {};
    let dispatcher = Dispatcher::<'_, _, _, ()>::new(TestAccessPort::new(Vec::new()), &reactor, None);
    assert!(dispatcher.accepts(&[0x00, 0x04]));
    assert!(!dispatcher.accepts(&[0x15, 0x00]));
    assert!(dispatcher.accepts(&[0x15, 0x01, 0x04]));
    assert!(dispatcher.accepts(&[0x15, 0x02, 0x04, 0x05]));
    assert!(!dispatcher.accepts(&[0x15, 0x02, 0x04, 0x00]));
    assert!(!dispatcher.accepts(&[0x15, 0x01, 0x09]));
    assert!(dispatcher.accepts(&[0x15, 0x41]));
    // not connected: a block transfer of no words reaches no target
    assert!(dispatcher.accepts(&[0x06, 0x00, 0x00, 0x00, 0x02]));
}

#[test]
fn block_transfer_of_no_words_is_refused_when_connected() {
    let reactor = FakeReactor {};
    let abort = AbortToken::new();
    let mut dispatcher = Dispatcher::<'_, _, _, ()>::new(TestAccessPort::new(Vec::new()), &reactor, None);
    let mut response = [0u8; 64];
    assert_eq!(dispatcher.dispatch_one(&[0x02, 0x01], &mut response, &abort), DispatchOutcome::Reply(2));
    assert_eq!(&response[..2], &[0x02, 0x01]);
    assert!(!dispatcher.accepts(&[0x06, 0x00, 0x00, 0x00, 0x02]));
    assert!(dispatcher.accepts(&[0x06, 0x00, 0x01, 0x00, 0x02]));
    assert!(!dispatcher.accepts(&[0x06, 0x00, 0x01, 0x00, 0x00]));
    assert!(dispatcher.accepts(&[0x06, 0x00, 0x01, 0x00, 0x00, 1, 2, 3, 4]));
}

#[test]
fn swd_read_outcome_from_the_bits_read() {
    // turnaround 1: the acknowledge OK (0b001) after one turnaround bit
    let (v, s) = swd_read_outcome(true, 0b0010, 1, true, &[0x67, 0x45, 0x23, 0x01, 0]);
    assert_eq!(v, 0x01234567);
    assert!(!s.has_errors());
    // a wrong parity bit is a protocol error
    let (_, s) = swd_read_outcome(true, 0b0010, 1, true, &[0x67, 0x45, 0x23, 0x01, 1]);
    assert!(s.protocol_error);
    // WAIT (0b010): no value
    let (v, s) = swd_read_outcome(true, 0b0100, 1, true, &[0xFF; 5]);
    assert_eq!(v, 0);
    assert!(s.ack.is_wait());
    // the request could not be sent
    let (_, s) = swd_read_outcome(false, 0, 1, true, &[0; 5]);
    assert!(s.protocol_error);
}

#[test]
fn swd_write_outcome_from_the_bits_read() {
    let s = swd_write_outcome(true, 0b0010, 1, true);
    assert!(!s.has_errors());
    let s = swd_write_outcome(true, 0b1000, 1, true);
    assert!(s.ack.is_fault());
    assert!(swd_write_outcome(true, 0b0010, 1, false).protocol_error);
    assert!(swd_write_outcome(false, 0b0010, 1, true).protocol_error);
}

#[test]
fn swj_requests_answer_with_what_the_port_did() {
    let reactor = FakeReactor {};
    let abort = AbortToken::new();
    let mut dispatcher = Dispatcher::<'_, _, _, ()>::new(TestAccessPort::new(Vec::new()), &reactor, None);
    let mut response = [0u8; 64];

    // the test port reads the pins back as they are driven
    assert_eq!(dispatcher.dispatch_one(&[0x10, 0x81, 0xFF, 0, 0, 0, 0], &mut response, &abort), DispatchOutcome::Reply(2));
    assert_eq!(&response[..2], &[0x10, 0x81]);

    assert_eq!(dispatcher.dispatch_one(&[0x11, 0x40, 0x42, 0x0F, 0x00], &mut response, &abort), DispatchOutcome::Reply(2));
    assert_eq!(&response[..2], &[0x11, 0x00]);

    assert_eq!(dispatcher.dispatch_one(&[0x12, 8, 0xA5], &mut response, &abort), DispatchOutcome::Reply(2));
    assert_eq!(&response[..2], &[0x12, 0x00]);
    assert_eq!(dispatcher.dap.port.written_bytes(), vec![0xA5]);
}

#[test]
fn write_abort_reports_the_write_status() {
    let reactor = FakeReactor {};
    let abort = AbortToken::new();
    // OK acknowledge after one turnaround bit, then the turnaround before the data
    let mut bits = bits_of(0x2, 4);
    bits.push(false);
    let mut dispatcher = Dispatcher::<'_, _, _, ()>::new(TestAccessPort::new(bits), &reactor, None);
    dispatcher.dap.connect(ConnectMode::SWD).unwrap();
    let mut response = [0u8; 64];
    assert_eq!(dispatcher.dispatch_one(&[0x08, 0, 0x1E, 0, 0, 0], &mut response, &abort), DispatchOutcome::Reply(2));
    assert_eq!(&response[..2], &[0x08, 0x00]);

    // the port has no acknowledge to give: the write fails
    assert_eq!(dispatcher.dispatch_one(&[0x08, 0, 0x1E, 0, 0, 0], &mut response, &abort), DispatchOutcome::Reply(2));
    assert_eq!(&response[..2], &[0x08, 0xFF]);
}

#[test]
fn swd_sequence_writes_and_reads_in_order() {
    let reactor = FakeReactor {};
    let abort = AbortToken::new();
    let mut dispatcher = Dispatcher::<'_, _, _, ()>::new(TestAccessPort::new(bits_of(0x5A, 8)), &reactor, None);
    dispatcher.dap.connect(ConnectMode::SWD).unwrap();
    let mut response = [0u8; 64];
    assert_eq!(dispatcher.dispatch_one(&[0x1D, 2, 0x08, 0xAB, 0x88], &mut response, &abort), DispatchOutcome::Reply(3));
    assert_eq!(&response[..3], &[0x1D, 0x00, 0x5A]);
    assert_eq!(dispatcher.dap.port.written_bytes(), vec![0xAB]);

    // nothing left for the port to read: the input sequence fails
    assert_eq!(dispatcher.dispatch_one(&[0x1D, 1, 0x88], &mut response, &abort), DispatchOutcome::Reply(2));
    assert_eq!(&response[..2], &[0x1D, 0xFF]);
}

#[test]
fn jtag_idcode_is_the_value_read() {
    let reactor = FakeReactor {};
    let abort = AbortToken::new();
    let mut dispatcher = Dispatcher::<'_, _, _, ()>::new(TestAccessPort::new(bits_of(0x4BA0_0477, 32)), &reactor, None);
    dispatcher.dap.connect(ConnectMode::JTAG).unwrap();
    let mut response = [0u8; 64];
    assert_eq!(dispatcher.dispatch_one(&[0x15, 1, 4], &mut response, &abort), DispatchOutcome::Reply(2));
    assert_eq!(&response[..2], &[0x15, 0x00]);
    assert_eq!(dispatcher.dispatch_one(&[0x16, 0], &mut response, &abort), DispatchOutcome::Reply(6));
    assert_eq!(&response[..6], &[0x16, 0x00, 0x77, 0x04, 0xA0, 0x4B]);
    // no second device in the chain
    assert_eq!(dispatcher.dispatch_one(&[0x16, 1], &mut response, &abort), DispatchOutcome::Reply(6));
    assert_eq!(&response[..2], &[0x16, 0xFF]);
}
