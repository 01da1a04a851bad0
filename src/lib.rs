//! Client and server building blocks for talking to RESOL VBus devices over TCP.
//!
//! The crate is free of I/O: each part takes the bytes that arrived and hands
//! back the bytes to send and the decisions to act on.
//!
//! - [`LiveDataStream`]: request/reply correlation and retry policy for VBus
//!   datagrams on a live byte stream.
//! - [`TcpClientHandshake`] and [`TcpServerHandshake`]: the text dialog that
//!   precedes the binary phase of a VBus-over-TCP connection.
//! - [`DeviceInformation`] and [`DeviceDiscovery`]: parsing the device
//!   information page and the logic of the UDP broadcast probe.

pub mod error;
pub use error::{Error, IntoError, Result};

pub mod frame;
pub use frame::{try_as_datagram, Data, Datagram, Header, Packet, Telegram};

pub mod live_data_stream;
pub use live_data_stream::{value_id_hash, Exchange, LiveDataStream, ReadOutcome, ReplyFilter, RetryPolicy};

pub mod address;
pub use address::{DeviceAddress, IpAddress, Ipv6Segments};

pub mod device_information;
pub use device_information::DeviceInformation;

pub mod text;

pub mod line_buffer;

pub mod tcp_client_handshake;
pub use tcp_client_handshake::TcpClientHandshake;

pub mod tcp_server_handshake;
pub use tcp_server_handshake::TcpServerHandshake;

pub mod device_discovery;
pub use device_discovery::DeviceDiscovery;
