use grapple_probe::uart_bridge::{
    uart_config, LineCoding, ParityType, StopBits, UartAction, UartBridge, UartConfig, UartEvent, UartParity,
    UartStopBits,
};

fn coding(rate: u32, parity: ParityType, stop: StopBits) -> LineCoding {
    LineCoding { stop_bits: stop, data_bits: 8, parity_type: parity, data_rate: rate }
}

#[test]
fn uart_settings_from_line_coding() {
    assert_eq!(
        uart_config(&coding(115_200, ParityType::Even, StopBits::Two)),
        UartConfig { baudrate: 115_200, parity: UartParity::ParityEven, stop_bits: UartStopBits::Stop2 }
    );
    assert_eq!(
        uart_config(&coding(9_600, ParityType::Odd, StopBits::One)),
        UartConfig { baudrate: 9_600, parity: UartParity::ParityOdd, stop_bits: UartStopBits::Stop1 }
    );
    assert_eq!(
        uart_config(&coding(57_600, ParityType::Mark, StopBits::OnePointFive)),
        UartConfig { baudrate: 57_600, parity: UartParity::ParityNone, stop_bits: UartStopBits::Stop1 }
    );
}

#[test]
fn bridge_steps() {
    let mut b = UartBridge::new(coding(115_200, ParityType::NoParity, StopBits::One));
    assert_eq!(b.step(UartEvent::UsbPacket(Some(12))), (UartAction::WriteUart(12), true));
    assert_eq!(b.step(UartEvent::UsbPacket(None)), (UartAction::Reconnect, true));
    assert_eq!(b.step(UartEvent::UartData(Some(3))), (UartAction::SendUsb(3), true));
    assert_eq!(b.step(UartEvent::UartData(None)), (UartAction::Idle, false));
    assert_eq!(
        b.step(UartEvent::ControlChanged(coding(115_200, ParityType::NoParity, StopBits::One))),
        (UartAction::Idle, false)
    );
    let new = coding(9_600, ParityType::Even, StopBits::One);
    assert_eq!(
        b.step(UartEvent::ControlChanged(new)),
        (
            UartAction::Configure(UartConfig {
                baudrate: 9_600,
                parity: UartParity::ParityEven,
                stop_bits: UartStopBits::Stop1,
            }),
            false
        )
    );
    assert_eq!(b.line_coding, new);
    let mut seven_bits = new;
    seven_bits.data_bits = 7;
    assert!(matches!(b.step(UartEvent::ControlChanged(seven_bits)), (UartAction::Configure(_), false)));
    assert_eq!(b.line_coding.data_bits, 7);
}
