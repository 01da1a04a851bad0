//! Network endpoints of VBus-over-TCP devices.
use vstd::prelude::*;

verus! {

/// The eight 16-bit segments of an IPv6 address.
#[derive(Clone, Copy, Debug, PartialEq, Eq, Structural)]
pub struct Ipv6Segments(pub u16, pub u16, pub u16, pub u16, pub u16, pub u16, pub u16, pub u16);

/// An IP address.
#[derive(Clone, Copy, Debug, PartialEq, Eq, Structural)]
pub enum IpAddress {
    /// An IPv4 address, by its four octets.
    V4(u8, u8, u8, u8),
    /// An IPv6 address, by its eight 16-bit segments, with the flow
    /// information and scope id of the socket address.
    V6 { segments: Ipv6Segments, flowinfo: u32, scope_id: u32 },
}

/// An IP address and a port.
#[derive(Clone, Copy, Debug, PartialEq, Eq, Structural)]
pub struct DeviceAddress {
    /// The IP address.
    pub ip: IpAddress,
    /// The port.
    pub port: u16,
}

impl DeviceAddress {
    /// The same IP address with port `port`.
    pub fn with_port(&self, port: u16) -> (r: DeviceAddress)
        ensures
            r.ip == self.ip,
            r.port == port,
    {
        DeviceAddress { ip: self.ip, port }
    }
}

} // verus!
