//! USB devices over QUIC: what the peer that lends a device and the peer that borrows it decide.
pub mod args;
pub mod args_laws;
pub mod borrow;
pub mod buf;
pub mod codec;
pub mod dev;
pub mod device_laws;
pub mod devices;
pub mod iso;
pub mod lend;
pub mod operator;
pub mod proto;
pub mod rpc;
pub mod session;
pub mod session_laws;
pub mod state;
pub mod state_laws;
pub mod stub;
pub mod stub_laws;
pub mod usb;
pub mod utils;
