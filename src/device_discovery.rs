//! Discovery of VBus-over-TCP devices in a local network: the settings of the
//! UDP broadcast probe, the check of its replies, and the set of addresses
//! that replied.
use vstd::prelude::*;
use vstd::string::*;

use crate::address::{DeviceAddress, IpAddress};

verus! {

/// The payload of the broadcast query.
pub open spec fn query_payload() -> Seq<u8> {
    "---RESOL-BROADCAST-QUERY---".spec_bytes()
}

/// The payload by which a device answers the query.
pub open spec fn reply_payload() -> Seq<u8> {
    "---RESOL-BROADCAST-REPLY---".spec_bytes()
}

/// Whether `addresses` holds no address twice.
pub open spec fn distinct(addresses: Seq<DeviceAddress>) -> bool {
    forall|i: int, j: int| 0 <= i < j < addresses.len() ==> addresses[i] != addresses[j]
}

/// The settings of a discovery: where the query goes, how many rounds are
/// sent, how long each round waits for replies, and how the device
/// information is fetched afterwards.
#[derive(Clone, Copy, Debug)]
pub struct DeviceDiscovery {
    broadcast_addr: DeviceAddress,
    rounds: u8,
    broadcast_timeout_ms: u64,
    fetch_port: u16,
    fetch_timeout_ms: u64,
}

impl DeviceDiscovery {
    pub closed spec fn spec_broadcast_addr(&self) -> DeviceAddress {
        self.broadcast_addr
    }

    pub closed spec fn spec_rounds(&self) -> u8 {
        self.rounds
    }

    pub closed spec fn spec_broadcast_timeout_ms(&self) -> u64 {
        self.broadcast_timeout_ms
    }

    pub closed spec fn spec_fetch_port(&self) -> u16 {
        self.fetch_port
    }

    pub closed spec fn spec_fetch_timeout_ms(&self) -> u64 {
        self.fetch_timeout_ms
    }

    /// The default settings: query `255.255.255.255:7053` in 3 rounds, wait
    /// 500 ms per round, fetch from port 80 within 2000 ms.
    pub fn new() -> (r: DeviceDiscovery)
        ensures
            r.spec_broadcast_addr() == (DeviceAddress { ip: IpAddress::V4(255, 255, 255, 255), port: 7053 }),
            r.spec_rounds() == 3,
            r.spec_broadcast_timeout_ms() == 500,
            r.spec_fetch_port() == 80,
            r.spec_fetch_timeout_ms() == 2000,
    {
        DeviceDiscovery {
            broadcast_addr: DeviceAddress { ip: IpAddress::V4(255, 255, 255, 255), port: 7053 },
            rounds: 3,
            broadcast_timeout_ms: 500,
            fetch_port: 80,
            fetch_timeout_ms: 2000,
        }
    }

    /// Sets the address the query is sent to.
    pub fn set_broadcast_addr(&mut self, addr: DeviceAddress)
        ensures
            final(self).spec_broadcast_addr() == addr,
            final(self).spec_rounds() == old(self).spec_rounds(),
            final(self).spec_broadcast_timeout_ms() == old(self).spec_broadcast_timeout_ms(),
            final(self).spec_fetch_port() == old(self).spec_fetch_port(),
            final(self).spec_fetch_timeout_ms() == old(self).spec_fetch_timeout_ms(),
    {
        self.broadcast_addr = addr;
    }

    /// Sets the number of rounds.
    pub fn set_rounds(&mut self, rounds: u8)
        ensures
            final(self).spec_broadcast_addr() == old(self).spec_broadcast_addr(),
            final(self).spec_rounds() == rounds,
            final(self).spec_broadcast_timeout_ms() == old(self).spec_broadcast_timeout_ms(),
            final(self).spec_fetch_port() == old(self).spec_fetch_port(),
            final(self).spec_fetch_timeout_ms() == old(self).spec_fetch_timeout_ms(),
    {
        self.rounds = rounds;
    }

    /// Sets how long each round waits for replies.
    pub fn set_broadcast_timeout(&mut self, timeout_ms: u64)
        ensures
            final(self).spec_broadcast_addr() == old(self).spec_broadcast_addr(),
            final(self).spec_rounds() == old(self).spec_rounds(),
            final(self).spec_broadcast_timeout_ms() == timeout_ms,
            final(self).spec_fetch_port() == old(self).spec_fetch_port(),
            final(self).spec_fetch_timeout_ms() == old(self).spec_fetch_timeout_ms(),
    {
        self.broadcast_timeout_ms = timeout_ms;
    }

    /// Sets the port the device information is fetched from.
    pub fn set_fetch_port(&mut self, port: u16)
        ensures
            final(self).spec_broadcast_addr() == old(self).spec_broadcast_addr(),
            final(self).spec_rounds() == old(self).spec_rounds(),
            final(self).spec_broadcast_timeout_ms() == old(self).spec_broadcast_timeout_ms(),
            final(self).spec_fetch_port() == port,
            final(self).spec_fetch_timeout_ms() == old(self).spec_fetch_timeout_ms(),
    {
        self.fetch_port = port;
    }

    /// Sets how long fetching the device information may take.
    pub fn set_fetch_timeout(&mut self, timeout_ms: u64)
        ensures
            final(self).spec_broadcast_addr() == old(self).spec_broadcast_addr(),
            final(self).spec_rounds() == old(self).spec_rounds(),
            final(self).spec_broadcast_timeout_ms() == old(self).spec_broadcast_timeout_ms(),
            final(self).spec_fetch_port() == old(self).spec_fetch_port(),
            final(self).spec_fetch_timeout_ms() == timeout_ms,
    {
        self.fetch_timeout_ms = timeout_ms;
    }

    /// The address the query is sent to.
    pub fn broadcast_addr(&self) -> (r: DeviceAddress)
        ensures
            r == self.spec_broadcast_addr(),
    {
        self.broadcast_addr
    }

    /// The number of rounds.
    pub fn rounds(&self) -> (r: u8)
        ensures
            r == self.spec_rounds(),
    {
        self.rounds
    }

    /// How long each round waits for replies, in milliseconds.
    pub fn broadcast_timeout_ms(&self) -> (r: u64)
        ensures
            r == self.spec_broadcast_timeout_ms(),
    {
        self.broadcast_timeout_ms
    }

    /// The port the device information is fetched from.
    pub fn fetch_port(&self) -> (r: u16)
        ensures
            r == self.spec_fetch_port(),
    {
        self.fetch_port
    }

    /// How long fetching the device information may take, in milliseconds.
    pub fn fetch_timeout_ms(&self) -> (r: u64)
        ensures
            r == self.spec_fetch_timeout_ms(),
    {
        self.fetch_timeout_ms
    }

    /// The payload of the broadcast query.
    pub fn query_bytes() -> (r: &'static [u8])
        ensures
            r@ == query_payload(),
    {
        "---RESOL-BROADCAST-QUERY---".as_bytes()
    }

    /// Whether a received payload is a device's reply: exactly the reply
    /// bytes, of the same length.
    pub fn is_reply(payload: &[u8]) -> (r: bool)
        ensures
            r == (payload@ == reply_payload()),
    {
        let expected = "---RESOL-BROADCAST-REPLY---".as_bytes();
        if payload.len() != expected.len() {
            return false;
        }
        let mut i: usize = 0;
        while i < payload.len()
            invariant
                payload@.len() == expected@.len(),
                expected@ == reply_payload(),
                forall|j: int| 0 <= j < i ==> payload@[j] == expected@[j],
            decreases payload.len() - i,
        {
            if payload[i] != expected[i] {
                return false;
            }
            i = i + 1;
        }
        assert(payload@ =~= expected@);
        true
    }

    /// Adds the address a reply came from to `addresses`, unless it is there
    /// already; the order of first arrival is kept.
    pub fn add_address(addresses: &mut Vec<DeviceAddress>, address: DeviceAddress)
        requires
            distinct(old(addresses)@),
        ensures
            distinct(final(addresses)@),
            old(addresses)@.contains(address) ==> final(addresses)@ == old(addresses)@,
            !old(addresses)@.contains(address) ==> final(addresses)@ == old(addresses)@.push(address),
    {
        let mut i: usize = 0;
        while i < addresses.len()
            invariant
                addresses@ == old(addresses)@,
                i <= addresses@.len(),
                distinct(old(addresses)@),
                forall|j: int| 0 <= j < i ==> addresses@[j] != address,
            decreases addresses.len() - i,
        {
            if addresses[i] == address {
                assert(old(addresses)@[i as int] == address);
                return;
            }
            i = i + 1;
        }
        addresses.push(address);
        assert(distinct(addresses@)) by {
            assert forall|a: int, b: int| 0 <= a < b < addresses@.len() implies addresses@[a] != addresses@[b] by {
                if b == old(addresses)@.len() {
                    assert(addresses@[a] == old(addresses)@[a]);
                }
            }
        }
    }

    /// The addresses to fetch the device information from: each discovered
    /// address with the fetch port.
    pub fn fetch_addresses(&self, addresses: &Vec<DeviceAddress>) -> (r: Vec<DeviceAddress>)
        ensures
            r@.len() == addresses@.len(),
            forall|i: int| 0 <= i < r@.len() ==> r@[i] == (DeviceAddress { port: self.spec_fetch_port(), ..addresses@[i] }),
    {
        let mut r: Vec<DeviceAddress> = Vec::new();
        let mut i: usize = 0;
        while i < addresses.len()
            invariant
                i <= addresses@.len(),
                r@.len() == i,
                forall|j: int| 0 <= j < i ==> r@[j] == (DeviceAddress { port: self.spec_fetch_port(), ..addresses@[j] }),
            decreases addresses.len() - i,
        {
            r.push(addresses[i].with_port(self.fetch_port));
            i = i + 1;
        }
        r
    }
}

impl Default for DeviceDiscovery {
    /// The default settings, as [`DeviceDiscovery::new`] gives them.
    fn default() -> (r: DeviceDiscovery)
        ensures
            r.spec_broadcast_addr() == (DeviceAddress { ip: IpAddress::V4(255, 255, 255, 255), port: 7053 }),
            r.spec_rounds() == 3,
            r.spec_broadcast_timeout_ms() == 500,
            r.spec_fetch_port() == 80,
            r.spec_fetch_timeout_ms() == 2000,
    {
        DeviceDiscovery::new()
    }
}

} // verus!
