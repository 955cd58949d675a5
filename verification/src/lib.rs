//! Server side of the USB/IP protocol for a simulated USB peripheral.
//!
//! The crate holds the wire codec, the URB queue with its control-transfer
//! routing, the endpoint adapters that turn URBs into packets, the endpoint
//! allocator and the per-session request dispatch. Sockets and tasks live
//! outside of it: every function here works on plain values.

pub mod usb;
pub mod buffer;
pub mod text;
pub mod protocol;
pub mod framing;
pub mod urb;
pub mod channel;
pub mod endpoint;
pub mod routing;
pub mod control;
pub mod descriptor;
pub mod server;
pub mod usbcore;
pub mod bus;
pub mod device;
