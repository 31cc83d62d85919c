//! The probe's USB serial port: what it does with each thing that happens
//! (a packet from the host, bytes from the target's UART, a new line
//! coding), and the UART settings a line coding asks for.

use vstd::prelude::*;

verus! {

/// Stop bits of a line coding.
#[derive(Clone, Copy, Debug, PartialEq, Eq, Structural)]
pub enum StopBits {
    One,
    OnePointFive,
    Two,
}

/// Parity of a line coding.
#[derive(Clone, Copy, Debug, PartialEq, Eq, Structural)]
pub enum ParityType {
    NoParity,
    Odd,
    Even,
    Mark,
    Space,
}

/// The serial settings the host asks for.
#[derive(Clone, Copy, Debug, PartialEq, Eq, Structural)]
pub struct LineCoding {
    pub stop_bits: StopBits,
    pub data_bits: u8,
    pub parity_type: ParityType,
    pub data_rate: u32,
}

/// Parity the UART can generate.
#[derive(Clone, Copy, Debug, PartialEq, Eq, Structural)]
pub enum UartParity {
    ParityNone,
    ParityEven,
    ParityOdd,
}

/// Stop bits the UART can generate.
#[derive(Clone, Copy, Debug, PartialEq, Eq, Structural)]
pub enum UartStopBits {
    Stop1,
    Stop2,
}

/// The UART's settings.
#[derive(Clone, Copy, Debug, PartialEq, Eq, Structural)]
pub struct UartConfig {
    pub baudrate: u32,
    pub parity: UartParity,
    pub stop_bits: UartStopBits,
}

/// The UART settings for a line coding: its rate, even or odd parity when
/// asked for and none otherwise, two stop bits when asked for and one
/// otherwise.
pub fn uart_config(coding: &LineCoding) -> (r: UartConfig)
    ensures
        r.baudrate == coding.data_rate,
        r.parity == (match coding.parity_type {
            ParityType::Even => UartParity::ParityEven,
            ParityType::Odd => UartParity::ParityOdd,
            _ => UartParity::ParityNone,
        }),
        r.stop_bits == (if coding.stop_bits == StopBits::Two {
            UartStopBits::Stop2
        } else {
            UartStopBits::Stop1
        }),
{
    let parity = match coding.parity_type {
        ParityType::Even => UartParity::ParityEven,
        ParityType::Odd => UartParity::ParityOdd,
        _ => UartParity::ParityNone,
    };
    let stop_bits = match coding.stop_bits {
        StopBits::Two => UartStopBits::Stop2,
        _ => UartStopBits::Stop1,
    };
    UartConfig { baudrate: coding.data_rate, parity, stop_bits }
}

/// What happened on the serial port.
#[derive(Clone, Copy, Debug)]
pub enum UartEvent {
    /// A packet from the host of this many bytes; `None` when the read
    /// failed because the host went away.
    UsbPacket(Option<usize>),
    /// Bytes from the target's UART, this many; `None` on a read error.
    UartData(Option<usize>),
    /// The host changed the port's control state; its line coding now.
    ControlChanged(LineCoding),
}

/// What the port does next.
#[derive(Clone, Copy, Debug, PartialEq, Eq, Structural)]
pub enum UartAction {
    /// Write the host's bytes, this many, to the UART.
    WriteUart(usize),
    /// Send the UART's bytes, this many, to the host.
    SendUsb(usize),
    /// Set the UART up anew.
    Configure(UartConfig),
    /// Wait for the host to connect again.
    Reconnect,
    /// Nothing.
    Idle,
}

/// The serial port's state: the line coding in force.
#[derive(Clone, Copy, Debug)]
pub struct UartBridge {
    pub line_coding: LineCoding,
}

impl UartBridge {
    /// A port with the line coding the host has when it connects.
    pub fn new(line_coding: LineCoding) -> (r: Self)
        ensures
            r.line_coding == line_coding,
    {
        UartBridge { line_coding }
    }

    /// Handles one event: returns the action and whether the event counts
    /// as serial traffic (every packet from the host, and bytes read from
    /// the UART). A line coding that differs from the one in force replaces
    /// it and sets the UART up for it.
    pub fn step(&mut self, event: UartEvent) -> (r: (UartAction, bool))
        ensures
            match event {
                UartEvent::UsbPacket(Some(n)) => r == (UartAction::WriteUart(n), true) && *final(self) == *old(self),
                UartEvent::UsbPacket(None) => r == (UartAction::Reconnect, true) && *final(self) == *old(self),
                UartEvent::UartData(Some(n)) => r == (UartAction::SendUsb(n), true) && *final(self) == *old(self),
                UartEvent::UartData(None) => r == (UartAction::Idle, false) && *final(self) == *old(self),
                UartEvent::ControlChanged(coding) => if coding != old(self).line_coding {
                    &&& r.0 matches UartAction::Configure(c) && c == (UartConfig {
                        baudrate: coding.data_rate,
                        parity: match coding.parity_type {
                            ParityType::Even => UartParity::ParityEven,
                            ParityType::Odd => UartParity::ParityOdd,
                            _ => UartParity::ParityNone,
                        },
                        stop_bits: if coding.stop_bits == StopBits::Two {
                            UartStopBits::Stop2
                        } else {
                            UartStopBits::Stop1
                        },
                    })
                    &&& !r.1
                    &&& final(self).line_coding == coding
                } else {
                    r == (UartAction::Idle, false) && *final(self) == *old(self)
                },
            },
    {
        match event {
            UartEvent::UsbPacket(Some(n)) => (UartAction::WriteUart(n), true),
            UartEvent::UsbPacket(None) => (UartAction::Reconnect, true),
            UartEvent::UartData(Some(n)) => (UartAction::SendUsb(n), true),
            UartEvent::UartData(None) => (UartAction::Idle, false),
            UartEvent::ControlChanged(coding) => {
                if coding != self.line_coding {
                    self.line_coding = coding;
                    (UartAction::Configure(uart_config(&coding)), false)
                } else {
                    (UartAction::Idle, false)
                }
            },
        }
    }
}

} // verus!
