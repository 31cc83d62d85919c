//! Verified protocol logic for the Grapple Probe: the CMSIS-DAP command
//! codec and debug access port engine, the device-info record format, the
//! Grapple vendor packets and configuration fields, the USB-I2C bridge
//! packets, and the firmware's pure decision functions.

pub mod bytes;
pub mod cmsis_dap;

pub mod device_info;
pub mod probe;
pub mod usb_i2c;
pub mod firmware;
pub mod uart_bridge;
pub mod pio;
