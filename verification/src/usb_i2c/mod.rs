//! The USB-I2C bridge: its packets and the request handling that sits
//! between the USB endpoints and the I2C bus.

pub mod protocol;
pub mod bridge;
