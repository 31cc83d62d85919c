//! CMSIS-DAP: command codec, debug access port engine and dispatcher.

pub mod dap;
pub mod port;
pub mod types;
pub mod protocol;
pub mod swo;
pub mod dispatcher;
pub mod bitbang;
