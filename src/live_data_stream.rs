//! The transceiver core: framing incoming bytes into VBus items, matching
//! replies to requests, and the retry and timeout policy of each operation.
use vstd::prelude::*;
use vstd::string::*;

use resol_vbus::LiveDataBuffer;

use crate::frame::{
    buffer_channel, buffer_extend, buffer_read_data, buffered_bytes, encodable, live_frames, is_suffix_of, lemma_suffix_refl,
    lemma_suffix_trans, live_datagram_bytes, new_buffer, same_wire_fields, seven_bit, Data, Datagram, Header,
};

verus! {

/// The protocol version stamped on every outgoing datagram.
pub const DATAGRAM_PROTOCOL_VERSION: u8 = 0x20;

/// When to resend a request and how long to wait for its reply each time.
///
/// Attempt `n` (counting from 1) waits `initial_timeout_ms + (n - 1) * timeout_increment_ms`
/// milliseconds; there are at most `max_tries` attempts.
#[derive(Clone, Copy, Debug)]
pub struct RetryPolicy {
    max_tries: usize,
    initial_timeout_ms: u64,
    timeout_increment_ms: u64,
    tries: usize,
}

/// Whether the timeouts of `max_tries` attempts all fit in a `u64`.
pub open spec fn timeouts_fit(max_tries: usize, initial_timeout_ms: u64, timeout_increment_ms: u64) -> bool {
    max_tries == 0 || initial_timeout_ms + (max_tries - 1) * timeout_increment_ms <= u64::MAX
}

impl RetryPolicy {
    /// The number of attempts allowed.
    pub closed spec fn spec_max_tries(&self) -> nat {
        self.max_tries as nat
    }

    /// The number of attempts started so far.
    pub closed spec fn spec_tries(&self) -> nat {
        self.tries as nat
    }

    /// The timeout of the attempt that follows `tries` started ones.
    pub closed spec fn timeout_after(&self, tries: nat) -> int {
        self.initial_timeout_ms + tries * self.timeout_increment_ms
    }

    pub closed spec fn wf(&self) -> bool {
        &&& self.tries <= self.max_tries
        &&& timeouts_fit(self.max_tries, self.initial_timeout_ms, self.timeout_increment_ms)
    }

    /// A policy of `max_tries` attempts, none of them started yet.
    pub fn new(max_tries: usize, initial_timeout_ms: u64, timeout_increment_ms: u64) -> (r: RetryPolicy)
        requires
            timeouts_fit(max_tries, initial_timeout_ms, timeout_increment_ms),
        ensures
            r.wf(),
            r.spec_max_tries() == max_tries,
            r.spec_tries() == 0,
            forall|n: nat| r.timeout_after(n) == initial_timeout_ms + n * timeout_increment_ms,
    {
        RetryPolicy { max_tries, initial_timeout_ms, timeout_increment_ms, tries: 0 }
    }

    /// Starts the next attempt and returns its timeout in milliseconds, or
    /// `None` once all attempts have been used.
    pub fn next_timeout(&mut self) -> (r: Option<u64>)
        requires
            old(self).wf(),
        ensures
            final(self).wf(),
            final(self).spec_max_tries() == old(self).spec_max_tries(),
            forall|n: nat| final(self).timeout_after(n) == old(self).timeout_after(n),
            old(self).spec_tries() < old(self).spec_max_tries() ==> r == Some(
                old(self).timeout_after(old(self).spec_tries()) as u64,
            ) && final(self).spec_tries() == old(self).spec_tries() + 1,
            old(self).spec_tries() >= old(self).spec_max_tries() ==> r is None
                && final(self).spec_tries() == old(self).spec_tries(),
    {
        if self.tries >= self.max_tries {
            return None;
        }
        let ghost (t, m, i) = (self.tries as int, self.max_tries as int, self.timeout_increment_ms as int);
        assert(t * i <= (m - 1) * i) by (nonlinear_arith)
            requires
                0 <= t <= m - 1,
                0 <= i,
        ;
        let timeout = self.initial_timeout_ms + (self.tries as u64) * self.timeout_increment_ms;
        self.tries = self.tries + 1;
        Some(timeout)
    }
}

/// Which incoming item answers a request.
#[derive(Clone, Copy, Debug)]
pub enum ReplyFilter {
    /// Any item.
    AnyData,
    /// Any packet.
    AnyPacket,
    /// A datagram with command `0x0500`, by which the bus master offers the bus.
    FreeBusOffer,
    /// A datagram from `source_address` to `destination_address` whose command
    /// is `command` or `alt_command`, and whose parameters equal those given.
    Reply {
        source_address: u16,
        destination_address: u16,
        command: u16,
        alt_command: Option<u16>,
        param16: Option<i16>,
        param32: Option<i32>,
    },
}

impl ReplyFilter {
    /// Whether `d` is an item that this filter accepts.
    pub open spec fn matches(&self, d: Data) -> bool {
        match self {
            ReplyFilter::AnyData => true,
            ReplyFilter::AnyPacket => d is Packet,
            ReplyFilter::FreeBusOffer => d is Datagram && d->Datagram_0.command == 0x0500,
            ReplyFilter::Reply { source_address, destination_address, command, alt_command, param16, param32 } => {
                &&& d is Datagram
                &&& d->Datagram_0.header.source_address == source_address
                &&& d->Datagram_0.header.destination_address == destination_address
                &&& (d->Datagram_0.command == command || alt_command == Some(d->Datagram_0.command))
                &&& (param16 is None || param16 == Some(d->Datagram_0.param16))
                &&& (param32 is None || param32 == Some(d->Datagram_0.param32))
            },
        }
    }

    /// Whether `d` is an item that this filter accepts.
    pub fn accepts(&self, d: &Data) -> (r: bool)
        ensures
            r == self.matches(*d),
    {
        match self {
            ReplyFilter::AnyData => true,
            ReplyFilter::AnyPacket => d.is_packet(),
            ReplyFilter::FreeBusOffer => match d {
                Data::Datagram(g) => g.command == 0x0500,
                _ => false,
            },
            ReplyFilter::Reply { source_address, destination_address, command, alt_command, param16, param32 } => {
                match d {
                    Data::Datagram(g) => {
                        g.header.source_address == *source_address
                            && g.header.destination_address == *destination_address
                            && (g.command == *command || match alt_command {
                            Some(c) => g.command == *c,
                            None => false,
                        }) && match param16 {
                            Some(p) => g.param16 == *p,
                            None => true,
                        } && match param32 {
                            Some(p) => g.param32 == *p,
                            None => true,
                        }
                    },
                    _ => false,
                }
            },
        }
    }
}

/// Whether `reply` comes back from the receiver of `request` to its sender.
pub open spec fn addressed_as_reply(request: Datagram, reply: Data) -> bool {
    &&& reply is Datagram
    &&& reply->Datagram_0.header.source_address == request.header.destination_address
    &&& reply->Datagram_0.header.destination_address == request.header.source_address
}

/// One request/reply operation: the bytes to send at each attempt (none for a
/// plain wait), the retry policy, and the filter that recognises the answer.
#[derive(Clone, Debug)]
pub struct Exchange {
    /// The live representation of the request.
    pub tx_bytes: Option<Vec<u8>>,
    /// When to send and how long to wait.
    pub policy: RetryPolicy,
    /// Which incoming item ends the operation.
    pub filter: ReplyFilter,
}

impl Exchange {
    /// Whether the exchange sends the live representation of `d` at each attempt.
    pub open spec fn sends(&self, d: Datagram) -> bool {
        &&& self.tx_bytes is Some
        &&& self.tx_bytes->0@ == live_datagram_bytes(d)
    }

    /// Whether every item the exchange's filter accepts is a datagram from the
    /// receiver of `request` to its sender.
    pub open spec fn accepts_only_replies_to(&self, request: Datagram) -> bool {
        forall|d: Data| #[trigger] self.filter.matches(d) ==> addressed_as_reply(request, d)
    }

    /// Whether the exchange makes `max_tries` attempts, the first waiting
    /// `initial_timeout_ms` and each later one `timeout_increment_ms` longer.
    pub open spec fn retries(&self, max_tries: nat, initial_timeout_ms: nat, timeout_increment_ms: nat) -> bool {
        &&& self.policy.wf()
        &&& self.policy.spec_max_tries() == max_tries
        &&& self.policy.spec_tries() == 0
        &&& forall|n: nat| self.policy.timeout_after(n) == initial_timeout_ms + n * timeout_increment_ms
    }

    /// An exchange that sends `request` and waits for a reply accepted by `filter`.
    pub fn transceive(
        request: &Datagram,
        max_tries: usize,
        initial_timeout_ms: u64,
        timeout_increment_ms: u64,
        filter: ReplyFilter,
    ) -> (r: Exchange)
        requires
            encodable(*request),
            timeouts_fit(max_tries, initial_timeout_ms, timeout_increment_ms),
        ensures
            r.sends(*request),
            r.retries(max_tries as nat, initial_timeout_ms as nat, timeout_increment_ms as nat),
            r.filter == filter,
    {
        Exchange {
            tx_bytes: Some(request.to_live_bytes()),
            policy: RetryPolicy::new(max_tries, initial_timeout_ms, timeout_increment_ms),
            filter,
        }
    }

    /// An exchange that sends nothing and waits once, up to `timeout_ms`, for an
    /// item accepted by `filter`.
    pub fn receive(timeout_ms: u64, filter: ReplyFilter) -> (r: Exchange)
        ensures
            r.tx_bytes is None,
            r.retries(1, timeout_ms as nat, 0),
            r.filter == filter,
    {
        Exchange { tx_bytes: None, policy: RetryPolicy::new(1, timeout_ms, 0), filter }
    }
}

/// What became of an attempt after one read from the connection.
#[derive(Clone, Debug)]
pub enum ReadOutcome {
    /// The reply arrived.
    Reply(Data),
    /// No reply yet: read again.
    NeedMore,
    /// The connection ended: the exchange is over, without a reply.
    Ended,
}

/// The transceiver state of a live VBus connection: the channel and own
/// address used for outgoing datagrams, and the buffer that frames incoming
/// bytes into items.
#[derive(Debug)]
pub struct LiveDataStream {
    channel: u8,
    self_address: u16,
    buf: LiveDataBuffer,
}

impl LiveDataStream {
    /// The channel of the stream.
    pub closed spec fn spec_channel(&self) -> u8 {
        self.channel
    }

    /// The address that outgoing datagrams carry as their source.
    pub closed spec fn spec_self_address(&self) -> u16 {
        self.self_address
    }

    /// The items framed from the received bytes and not handed out yet, oldest first.
    pub open spec fn pending(&self) -> Seq<Data> {
        live_frames(self.received(), self.spec_channel())
    }

    /// The buffer frames for the stream's channel, and every pending item
    /// carries that channel.
    pub closed spec fn wf(&self) -> bool {
        &&& buffer_channel(self.buf) == self.channel
        &&& forall|i: int| 0 <= i < self.pending().len() ==> (#[trigger] self.pending()[i]).spec_header().channel == self.channel
    }

    /// The received bytes that have not been handed out as items yet (nor
    /// dropped as unframeable), oldest first.
    pub closed spec fn received(&self) -> Seq<u8> {
        buffered_bytes(self.buf)
    }

    /// The datagram that the stream sends to `destination_address`.
    pub open spec fn outgoing(&self, destination_address: u16, command: u16, param16: i16, param32: i32) -> Datagram {
        Datagram {
            header: Header {
                channel: self.spec_channel(),
                destination_address,
                source_address: self.spec_self_address(),
                protocol_version: DATAGRAM_PROTOCOL_VERSION,
            },
            command,
            param16,
            param32,
        }
    }

    /// A stream on `channel` whose datagrams come from `self_address`, with nothing received yet.
    pub fn new(channel: u8, self_address: u16) -> (r: LiveDataStream)
        ensures
            r.spec_channel() == channel,
            r.spec_self_address() == self_address,
            r.pending() == Seq::<Data>::empty(),
            r.received() == Seq::<u8>::empty(),
            r.wf(),
    {
        LiveDataStream { channel, self_address, buf: new_buffer(channel) }
    }

    /// The channel of the stream.
    #[verifier::when_used_as_spec(spec_channel)]
    pub fn channel(&self) -> (r: u8)
        ensures
            r == self.spec_channel(),
    {
        self.channel
    }

    /// The address that outgoing datagrams carry as their source.
    #[verifier::when_used_as_spec(spec_self_address)]
    pub fn self_address(&self) -> (r: u16)
        ensures
            r == self.spec_self_address(),
    {
        self.self_address
    }

    /// Builds a datagram of this stream to `destination_address`.
    pub fn create_datagram(&self, destination_address: u16, command: u16, param16: i16, param32: i32) -> (r: Datagram)
        ensures
            r == self.outgoing(destination_address, command, param16, param32),
    {
        Datagram {
            header: Header {
                channel: self.channel,
                destination_address,
                source_address: self.self_address,
                protocol_version: DATAGRAM_PROTOCOL_VERSION,
            },
            command,
            param16,
            param32,
        }
    }

    /// Waits up to 20 s for the bus master to offer the bus (a datagram with
    /// command `0x0500`).
    pub fn wait_for_free_bus(&self) -> (r: Exchange)
        ensures
            r.tx_bytes is None,
            r.retries(1, 20000, 0),
            r.filter == ReplyFilter::FreeBusOffer,
    {
        Exchange::receive(20000, ReplyFilter::FreeBusOffer)
    }

    /// Gives bus control back to the regular VBus master at `address`
    /// (command `0x0600`); any packet answers.
    pub fn release_bus(&self, address: u16) -> (r: Exchange)
        requires
            seven_bit(address),
            seven_bit(self.spec_self_address()),
        ensures
            r.sends(self.outgoing(address, 0x0600, 0, 0)),
            r.retries(2, 2500, 2500),
            r.filter == ReplyFilter::AnyPacket,
    {
        let tx = self.create_datagram(address, 0x0600, 0, 0);
        Exchange::transceive(&tx, 2, 2500, 2500, ReplyFilter::AnyPacket)
    }

    /// The filter for a reply from `address` to this stream.
    pub open spec fn reply_from(
        &self,
        address: u16,
        command: u16,
        alt_command: Option<u16>,
        param16: Option<i16>,
        param32: Option<i32>,
    ) -> ReplyFilter {
        ReplyFilter::Reply {
            source_address: address,
            destination_address: self.spec_self_address(),
            command,
            alt_command,
            param16,
            param32,
        }
    }

    /// An exchange that sends a datagram to `address` up to three times,
    /// waiting 500 ms, 1000 ms and 1500 ms, for a reply from `address` to this stream.
    fn request_reply(
        &self,
        address: u16,
        command: u16,
        param16: i16,
        param32: i32,
        reply_command: u16,
        alt_command: Option<u16>,
        reply_param16: Option<i16>,
        reply_param32: Option<i32>,
    ) -> (r: Exchange)
        requires
            seven_bit(address),
            seven_bit(self.spec_self_address()),
            seven_bit(command),
        ensures
            r.sends(self.outgoing(address, command, param16, param32)),
            r.accepts_only_replies_to(self.outgoing(address, command, param16, param32)),
            r.retries(3, 500, 500),
            r.filter == self.reply_from(address, reply_command, alt_command, reply_param16, reply_param32),
    {
        let tx = self.create_datagram(address, command, param16, param32);
        let filter = ReplyFilter::Reply {
            source_address: address,
            destination_address: self.self_address,
            command: reply_command,
            alt_command,
            param16: reply_param16,
            param32: reply_param32,
        };
        Exchange::transceive(&tx, 3, 500, 500, filter)
    }

    /// Gets the value at `index`/`subindex` from the device at `address`
    /// (command `0x0300 | subindex`, reply `0x0100 | subindex` with the same index).
    pub fn get_value_by_index(&self, address: u16, index: i16, subindex: u8) -> (r: Exchange)
        requires
            seven_bit(address),
            seven_bit(self.spec_self_address()),
            subindex < 0x80,
        ensures
            r.sends(self.outgoing(address, 0x0300 | subindex as u16, index, 0)),
            r.accepts_only_replies_to(self.outgoing(address, 0x0300 | subindex as u16, index, 0)),
            r.retries(3, 500, 500),
            r.filter == self.reply_from(address, 0x0100 | subindex as u16, None, Some(index), None),
    {
        let sub = subindex as u16;
        assert((0x0300u16 | sub) % 0x100 < 0x80 && (0x0300u16 | sub) / 0x100 < 0x80) by (bit_vector)
            requires
                sub < 0x80u16,
        ;
        self.request_reply(address, 0x0300 | sub, index, 0, 0x0100 | sub, None, Some(index), None)
    }

    /// Sets the value at `index`/`subindex` of the device at `address` to `value`
    /// (command `0x0200 | subindex`, reply `0x0100 | subindex` with the same index).
    pub fn set_value_by_index(&self, address: u16, index: i16, subindex: u8, value: i32) -> (r: Exchange)
        requires
            seven_bit(address),
            seven_bit(self.spec_self_address()),
            subindex < 0x80,
        ensures
            r.sends(self.outgoing(address, 0x0200 | subindex as u16, index, value)),
            r.accepts_only_replies_to(self.outgoing(address, 0x0200 | subindex as u16, index, value)),
            r.retries(3, 500, 500),
            r.filter == self.reply_from(address, 0x0100 | subindex as u16, None, Some(index), None),
    {
        let sub = subindex as u16;
        assert((0x0200u16 | sub) % 0x100 < 0x80 && (0x0200u16 | sub) / 0x100 < 0x80) by (bit_vector)
            requires
                sub < 0x80u16,
        ;
        self.request_reply(address, 0x0200 | sub, index, value, 0x0100 | sub, None, Some(index), None)
    }

    /// Gets the ID hash of the value at `index` (command `0x1000`, reply
    /// `0x0100` or `0x1001` with the same index).
    pub fn get_value_id_hash_by_index(&self, address: u16, index: i16) -> (r: Exchange)
        requires
            seven_bit(address),
            seven_bit(self.spec_self_address()),
        ensures
            r.sends(self.outgoing(address, 0x1000, index, 0)),
            r.accepts_only_replies_to(self.outgoing(address, 0x1000, index, 0)),
            r.retries(3, 500, 500),
            r.filter == self.reply_from(address, 0x0100, Some(0x1001u16), Some(index), None),
    {
        self.request_reply(address, 0x1000, index, 0, 0x0100, Some(0x1001), Some(index), None)
    }

    /// Gets the index of the value with ID hash `id_hash` (command `0x1100`,
    /// reply `0x0100` or `0x1101` with the same hash). The two reply commands
    /// stay distinguishable in the returned datagram.
    pub fn get_value_index_by_id_hash(&self, address: u16, id_hash: i32) -> (r: Exchange)
        requires
            seven_bit(address),
            seven_bit(self.spec_self_address()),
        ensures
            r.sends(self.outgoing(address, 0x1100, 0, id_hash)),
            r.accepts_only_replies_to(self.outgoing(address, 0x1100, 0, id_hash)),
            r.retries(3, 500, 500),
            r.filter == self.reply_from(address, 0x0100, Some(0x1101u16), None, Some(id_hash)),
    {
        self.request_reply(address, 0x1100, 0, id_hash, 0x0100, Some(0x1101), None, Some(id_hash))
    }

    /// Gets the first capability word of the device (command `0x1300`, reply `0x1301`).
    pub fn get_caps1(&self, address: u16) -> (r: Exchange)
        requires
            seven_bit(address),
            seven_bit(self.spec_self_address()),
        ensures
            r.sends(self.outgoing(address, 0x1300, 0, 0)),
            r.accepts_only_replies_to(self.outgoing(address, 0x1300, 0, 0)),
            r.retries(3, 500, 500),
            r.filter == self.reply_from(address, 0x1301, None, None, None),
    {
        self.request_reply(address, 0x1300, 0, 0, 0x1301, None, None, None)
    }

    /// Begins a bulk value transaction that the device abandons after
    /// `tx_timeout` (command `0x1400`, reply `0x1401`).
    pub fn begin_bulk_value_transaction(&self, address: u16, tx_timeout: i32) -> (r: Exchange)
        requires
            seven_bit(address),
            seven_bit(self.spec_self_address()),
        ensures
            r.sends(self.outgoing(address, 0x1400, 0, tx_timeout)),
            r.accepts_only_replies_to(self.outgoing(address, 0x1400, 0, tx_timeout)),
            r.retries(3, 500, 500),
            r.filter == self.reply_from(address, 0x1401, None, None, None),
    {
        self.request_reply(address, 0x1400, 0, tx_timeout, 0x1401, None, None, None)
    }

    /// Commits the bulk value transaction (command `0x1402`, reply `0x1403`).
    pub fn commit_bulk_value_transaction(&self, address: u16) -> (r: Exchange)
        requires
            seven_bit(address),
            seven_bit(self.spec_self_address()),
        ensures
            r.sends(self.outgoing(address, 0x1402, 0, 0)),
            r.accepts_only_replies_to(self.outgoing(address, 0x1402, 0, 0)),
            r.retries(3, 500, 500),
            r.filter == self.reply_from(address, 0x1403, None, None, None),
    {
        self.request_reply(address, 0x1402, 0, 0, 0x1403, None, None, None)
    }

    /// Rolls the bulk value transaction back (command `0x1404`, reply `0x1405`).
    pub fn rollback_bulk_value_transaction(&self, address: u16) -> (r: Exchange)
        requires
            seven_bit(address),
            seven_bit(self.spec_self_address()),
        ensures
            r.sends(self.outgoing(address, 0x1404, 0, 0)),
            r.accepts_only_replies_to(self.outgoing(address, 0x1404, 0, 0)),
            r.retries(3, 500, 500),
            r.filter == self.reply_from(address, 0x1405, None, None, None),
    {
        self.request_reply(address, 0x1404, 0, 0, 0x1405, None, None, None)
    }

    /// Sets a value inside a bulk value transaction (command `0x1500 | subindex`,
    /// reply `0x1600 | subindex` with the same index).
    pub fn set_bulk_value_by_index(&self, address: u16, index: i16, subindex: u8, value: i32) -> (r: Exchange)
        requires
            seven_bit(address),
            seven_bit(self.spec_self_address()),
            subindex < 0x80,
        ensures
            r.sends(self.outgoing(address, 0x1500 | subindex as u16, index, value)),
            r.accepts_only_replies_to(self.outgoing(address, 0x1500 | subindex as u16, index, value)),
            r.retries(3, 500, 500),
            r.filter == self.reply_from(address, 0x1600 | subindex as u16, None, Some(index), None),
    {
        let sub = subindex as u16;
        assert((0x1500u16 | sub) % 0x100 < 0x80 && (0x1500u16 | sub) / 0x100 < 0x80) by (bit_vector)
            requires
                sub < 0x80u16,
        ;
        self.request_reply(address, 0x1500 | sub, index, value, 0x1600 | sub, None, Some(index), None)
    }

    /// Hands bytes read from the connection to the framing buffer.
    pub fn extend_from_slice(&mut self, bytes: &[u8])
        requires
            old(self).wf(),
        ensures
            final(self).wf(),
            final(self).received() == old(self).received() + bytes@,
            old(self).pending().is_prefix_of(final(self).pending()),
            old(self).received().len() == 0 ==> forall|d: Datagram|
                encodable(d) && bytes@ == #[trigger] live_datagram_bytes(d) ==> {
                    let items = final(self).pending();
                    &&& items.len() == 1
                    &&& items[0] is Datagram
                    &&& same_wire_fields(items[0]->Datagram_0, d)
                    &&& items[0]->Datagram_0.header.protocol_version == 0x20
                    &&& items[0]->Datagram_0.header.channel == old(self).spec_channel()
                },
            final(self).spec_channel() == old(self).spec_channel(),
            final(self).spec_self_address() == old(self).spec_self_address(),
    {
        buffer_extend(&mut self.buf, bytes)
    }

    /// Takes framed items, oldest first, until one satisfies `filter`, and
    /// returns it. The items before it are dropped; the items after it stay.
    /// Returns `None`, with every framed item dropped, when none satisfies `filter`.
    pub fn read_data_where<F: Fn(&Data) -> bool>(&mut self, filter: F) -> (r: Option<Data>)
        requires
            old(self).wf(),
            forall|d: &Data| filter.requires((d,)),
        ensures
            final(self).wf(),
            r matches Some(d) ==> d.spec_header().channel == old(self).spec_channel(),
            final(self).spec_channel() == old(self).spec_channel(),
            final(self).spec_self_address() == old(self).spec_self_address(),
            is_suffix_of(final(self).received(), old(self).received()),
            match r {
                Some(d) => exists|k: int|
                    #![trigger old(self).pending()[k]]
                    0 <= k < old(self).pending().len()
                    && old(self).pending()[k] == d
                    && filter.ensures((&old(self).pending()[k],), true)
                    && (forall|j: int| 0 <= j < k ==> filter.ensures((&old(self).pending()[j],), false))
                    && final(self).pending() == old(self).pending().skip(k + 1),
                None => final(self).pending().len() == 0 && forall|j: int|
                    0 <= j < old(self).pending().len() ==> filter.ensures((&old(self).pending()[j],), false),
            },
    {
        let ghost start = self.pending();
        let ghost mut k: int = 0;
        proof {
            lemma_suffix_refl(self.received());
        }
        loop
            invariant
                0 <= k <= start.len(),
                self.pending() == start.skip(k),
                self.channel == old(self).channel,
                self.self_address == old(self).self_address,
                start == old(self).pending(),
                self.wf(),
                is_suffix_of(self.received(), old(self).received()),
                forall|d: &Data| filter.requires((d,)),
                forall|j: int| 0 <= j < k ==> filter.ensures((&start[j],), false),
            decreases start.len() - k,
        {
            let ghost before = self.received();
            let r = buffer_read_data(&mut self.buf);
            proof {
                lemma_suffix_trans(self.received(), before, old(self).received());
            }
            match r {
                None => {
                    proof {
                        assert(k == start.len());
                    }
                    return None;
                },
                Some(d) => {
                    assert(start[k] == d);
                    let accepted = filter(&d);
                    if accepted {
                        assert(self.pending() =~= start.skip(k + 1));
                        return Some(d);
                    }
                    proof {
                        k = k + 1;
                    }
                    assert(self.pending() =~= start.skip(k));
                },
            }
        }
    }

    /// Hands the bytes of one read to the framing buffer and looks for an item
    /// that `filter` accepts, as [`LiveDataStream::read_data_where`] does. An
    /// empty read is the end of the stream: it ends the exchange without a
    /// reply, leaving the buffer as it was.
    pub fn after_read<F: Fn(&Data) -> bool>(&mut self, bytes: &[u8], filter: F) -> (r: ReadOutcome)
        requires
            old(self).wf(),
            forall|d: &Data| filter.requires((d,)),
        ensures
            final(self).wf(),
            final(self).spec_channel() == old(self).spec_channel(),
            final(self).spec_self_address() == old(self).spec_self_address(),
            bytes@.len() == 0 ==> r is Ended && final(self).received() == old(self).received(),
            bytes@.len() > 0 ==> {
                // The items pending once the bytes are appended.
                let items = live_frames(old(self).received() + bytes@, old(self).spec_channel());
                &&& !(r is Ended)
                &&& old(self).pending().is_prefix_of(items)
                &&& is_suffix_of(final(self).received(), old(self).received() + bytes@)
                &&& match r {
                    ReadOutcome::Reply(d) => d.spec_header().channel == old(self).spec_channel() && exists|k: int|
                        #![trigger items[k]]
                        0 <= k < items.len() && items[k] == d && filter.ensures((&items[k],), true)
                        && (forall|j: int| 0 <= j < k ==> filter.ensures((&items[j],), false))
                        && final(self).pending() == items.skip(k + 1),
                    ReadOutcome::NeedMore => final(self).pending().len() == 0 && forall|j: int|
                        0 <= j < items.len() ==> filter.ensures((&items[j],), false),
                    ReadOutcome::Ended => false,
                }
            },
    {
        if bytes.len() == 0 {
            return ReadOutcome::Ended;
        }
        self.extend_from_slice(bytes);
        let found = self.read_data_where(filter);
        match found {
            Some(d) => ReadOutcome::Reply(d),
            None => ReadOutcome::NeedMore,
        }
    }
}

/// The 31-bit hash of a value's text id: starting from 0, each character `c`
/// turns `h` into `(h * 0x21 + c) mod 2^31`.
pub open spec fn id_hash(id: Seq<char>) -> int
    decreases id.len(),
{
    if id.len() == 0 {
        0
    } else {
        (id_hash(id.drop_last()) * 0x21 + ((id.last() as u32) as int)) % 0x8000_0000
    }
}

/// The hash of the value id `id`, as `get_value_index_by_id_hash` expects it.
pub fn value_id_hash(id: &str) -> (r: i32)
    ensures
        r as int == id_hash(id@),
{
    let n = id.unicode_len();
    let mut h: u64 = 0;
    let mut i: usize = 0;
    while i < n
        invariant
            n == id@.len(),
            i <= n,
            h == id_hash(id@.take(i as int)),
            h < 0x8000_0000,
        decreases n - i,
    {
        let c = id.get_char(i);
        assert(id@.take(i + 1).drop_last() =~= id@.take(i as int));
        assert(id@.take(i + 1).last() == c);
        h = (h * 0x21 + (c as u32) as u64) % 0x8000_0000;
        i = i + 1;
    }
    assert(id@.take(n as int) =~= id@);
    h as i32
}

/// Every datagram that a stream sends carries the stream's channel, the
/// stream's own address as its source, and protocol version `0x20`.
pub proof fn lemma_outgoing_header(s: LiveDataStream, destination_address: u16, command: u16, param16: i16, param32: i32)
    ensures
        s.outgoing(destination_address, command, param16, param32).header.channel == s.spec_channel(),
        s.outgoing(destination_address, command, param16, param32).header.source_address == s.spec_self_address(),
        s.outgoing(destination_address, command, param16, param32).header.protocol_version == 0x20,
        s.outgoing(destination_address, command, param16, param32).header.destination_address == destination_address,
{
}

/// A reply that the filter of a request to `address` accepts comes from the
/// request's destination and goes to the request's source.
pub proof fn lemma_reply_swaps_addresses(
    s: LiveDataStream,
    address: u16,
    command: u16,
    param16: i16,
    param32: i32,
    reply_command: u16,
    alt_command: Option<u16>,
    reply_param16: Option<i16>,
    reply_param32: Option<i32>,
    reply: Data,
)
    requires
        s.reply_from(address, reply_command, alt_command, reply_param16, reply_param32).matches(reply),
    ensures
        addressed_as_reply(s.outgoing(address, command, param16, param32), reply),
{
}

} // verus!
