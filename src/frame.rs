//! The VBus data items that travel on a live byte stream, and the codec
//! (from the `resol_vbus` crate) that turns them into bytes and back.
use vstd::prelude::*;

use resol_vbus::live_data_encoder::{bytes_from_data, length_from_data};
use resol_vbus::{Data as VbusData, Datagram as VbusDatagram, Header as VbusHeader, LiveDataBuffer};

verus! {

/// The fields that all VBus data items share (the reception time is left to
/// the codec).
#[derive(Clone, Copy, Debug, PartialEq, Eq, Structural)]
pub struct Header {
    /// The VBus channel the item was received on or is sent to.
    pub channel: u8,
    /// The VBus address of the receiver.
    pub destination_address: u16,
    /// The VBus address of the sender.
    pub source_address: u16,
    /// The VBus protocol version (`0x10` packets, `0x20` datagrams, `0x30` telegrams).
    pub protocol_version: u8,
}

/// A command or reply item of VBus protocol version 2.x.
#[derive(Clone, Copy, Debug, PartialEq, Eq, Structural)]
pub struct Datagram {
    /// The shared header.
    pub header: Header,
    /// The command code.
    pub command: u16,
    /// The 16-bit parameter.
    pub param16: i16,
    /// The 32-bit parameter.
    pub param32: i32,
}

/// A measurement item of VBus protocol version 1.x.
#[derive(Clone, Debug)]
pub struct Packet {
    /// The shared header.
    pub header: Header,
    /// The command code.
    pub command: u16,
    /// The number of 4-byte frames of payload.
    pub frame_count: u8,
    /// The payload (508 bytes, of which `4 * frame_count` are valid).
    pub frame_data: Vec<u8>,
}

/// An item of VBus protocol version 3.x.
#[derive(Clone, Debug)]
pub struct Telegram {
    /// The shared header.
    pub header: Header,
    /// The command code (its top three bits give the frame count).
    pub command: u8,
    /// The payload (21 bytes).
    pub frame_data: Vec<u8>,
}

/// One VBus data item.
#[derive(Clone, Debug)]
pub enum Data {
    Packet(Packet),
    Datagram(Datagram),
    Telegram(Telegram),
}

impl Data {
    /// The header of the item.
    pub open spec fn spec_header(&self) -> Header {
        match self {
            Data::Packet(p) => p.header,
            Data::Datagram(d) => d.header,
            Data::Telegram(t) => t.header,
        }
    }

    /// The header of the item.
    #[verifier::when_used_as_spec(spec_header)]
    pub fn header(&self) -> (r: Header)
        ensures
            r == self.spec_header(),
    {
        match self {
            Data::Packet(p) => p.header,
            Data::Datagram(d) => d.header,
            Data::Telegram(t) => t.header,
        }
    }

    /// Whether the item is a packet.
    pub fn is_packet(&self) -> (r: bool)
        ensures
            r == (self is Packet),
    {
        matches!(self, Data::Packet(_))
    }

    /// Whether the item is a datagram.
    pub fn is_datagram(&self) -> (r: bool)
        ensures
            r == (self is Datagram),
    {
        matches!(self, Data::Datagram(_))
    }
}

/// The datagram inside `data`, if it holds one.
pub fn try_as_datagram(data: &Data) -> (r: Option<&Datagram>)
    ensures
        match data {
            Data::Datagram(d) => r == Some(d),
            _ => r is None,
        },
{
    match data {
        Data::Datagram(d) => Some(d),
        _ => None,
    }
}

/// Whether both bytes of `x` are below `0x80`.
pub open spec fn seven_bit(x: u16) -> bool {
    x % 0x100 < 0x80 && x / 0x100 < 0x80
}

/// Whether both bytes of `x` are below `0x80`.
pub fn is_seven_bit(x: u16) -> (r: bool)
    ensures
        r == seven_bit(x),
{
    x % 0x100 < 0x80 && x / 0x100 < 0x80
}

/// Whether a datagram can go on the wire: the protocol carries the header and
/// command bytes as they are, so each of them must be below `0x80`.
pub open spec fn encodable(d: Datagram) -> bool {
    &&& seven_bit(d.header.destination_address)
    &&& seven_bit(d.header.source_address)
    &&& seven_bit(d.command)
}

/// The low and the high byte of `x`.
pub open spec fn le_bytes(x: u16) -> Seq<u8> {
    seq![(x % 0x100) as u8, (x / 0x100) as u8]
}

/// The six parameter bytes of a datagram: `param16`, then `param32`, both little-endian.
pub open spec fn datagram_payload(d: Datagram) -> Seq<u8> {
    let p32 = d.param32 as u32;
    le_bytes(d.param16 as u16) + le_bytes((p32 % 0x1_0000) as u16) + le_bytes((p32 / 0x1_0000) as u16)
}

/// The byte that collects the top bits of six payload bytes: bit `i` is the top bit of byte `i`.
pub open spec fn septett(p: Seq<u8>) -> u8 {
    ((if p[0] >= 0x80 { 1int } else { 0 }) + (if p[1] >= 0x80 { 2int } else { 0 }) + (if p[2] >= 0x80 { 4int } else { 0 })
        + (if p[3] >= 0x80 { 8int } else { 0 }) + (if p[4] >= 0x80 { 16int } else { 0 }) + (if p[5] >= 0x80 { 32int } else { 0 })) as u8
}

/// The VBus checksum of bytes below `0x80`: starting from `0x7F`, each byte is
/// subtracted modulo `0x80`.
pub open spec fn checksum(s: Seq<u8>) -> u8
    decreases s.len(),
{
    if s.len() == 0 {
        0x7F
    } else {
        ((0x80 + checksum(s.drop_last()) - s.last()) % 0x80) as u8
    }
}

/// The 14 bytes of a datagram after the sync byte, before the checksum.
pub open spec fn datagram_body(d: Datagram) -> Seq<u8> {
    let p = datagram_payload(d);
    le_bytes(d.header.destination_address) + le_bytes(d.header.source_address) + seq![0x20u8]
        + le_bytes(d.command) + p.map_values(|b: u8| (b % 0x80) as u8) + seq![septett(p)]
}

/// The 16 bytes of a datagram on the wire: the sync byte `0xAA`, the body, and
/// the checksum of the body.
pub open spec fn live_datagram_bytes(d: Datagram) -> Seq<u8> {
    seq![0xAAu8] + datagram_body(d) + seq![checksum(datagram_body(d))]
}

/// Whether `g` carries the fields of `d` that travel on the wire.
pub open spec fn same_wire_fields(g: Datagram, d: Datagram) -> bool {
    &&& g.header.destination_address == d.header.destination_address
    &&& g.header.source_address == d.header.source_address
    &&& g.command == d.command
    &&& g.param16 == d.param16
    &&& g.param32 == d.param32
}

/// Relies on `resol_vbus::live_data_encoder::{length_from_data, bytes_from_data}`
/// (and `utils::calc_checksum_v0`, `utils::copy_bytes_extracting_septett`): a
/// datagram is written as `live_datagram_bytes` states. Header and command
/// bytes of `0x80` or more make the checksum subtraction overflow, hence the
/// `requires`.
#[verifier::external_body]
pub(crate) fn encode_datagram(d: &Datagram) -> (r: Vec<u8>)
    requires
        encodable(*d),
    ensures
        r@ == live_datagram_bytes(*d),
{
    let h = &d.header;
    let header = VbusHeader {
        timestamp: resol_vbus::utils::current_timestamp(),
        channel: h.channel,
        destination_address: h.destination_address,
        source_address: h.source_address,
        protocol_version: h.protocol_version,
    };
    let data = VbusData::Datagram(VbusDatagram { header, command: d.command, param16: d.param16, param32: d.param32 });
    let mut bytes = vec![0u8; length_from_data(&data)];
    bytes_from_data(&data, &mut bytes);
    bytes
}

impl Datagram {
    /// Whether the datagram can go on the wire (see [`encodable`]).
    pub fn is_encodable(&self) -> (r: bool)
        ensures
            r == encodable(*self),
    {
        is_seven_bit(self.header.destination_address) && is_seven_bit(self.header.source_address)
            && is_seven_bit(self.command)
    }

    /// The live representation of the datagram: the 16 bytes sent on the wire.
    pub fn to_live_bytes(&self) -> (r: Vec<u8>)
        requires
            encodable(*self),
        ensures
            r@ == live_datagram_bytes(*self),
            r@.len() == 16,
    {
        encode_datagram(self)
    }
}

/// The codec's streaming decoder (`resol_vbus::LiveDataBuffer`), opaque here.
#[verifier::external_type_specification]
#[verifier::external_body]
pub struct ExLiveDataBuffer(LiveDataBuffer);

/// The items that the codec's streaming decoder frames from `bytes`, oldest
/// first: whole items in order, skipping single bytes that cannot start one,
/// up to the first incomplete item; each item stamped with `channel`.
pub uninterp spec fn live_frames(bytes: Seq<u8>, channel: u8) -> Seq<Data>;

/// The bytes that a `LiveDataBuffer` holds and has not handed out as items
/// (nor dropped as unframeable), oldest first.
pub uninterp spec fn buffered_bytes(b: LiveDataBuffer) -> Seq<u8>;

/// The channel a `LiveDataBuffer` was made for, which it stamps on its items.
pub uninterp spec fn buffer_channel(b: LiveDataBuffer) -> u8;

/// The items that a `LiveDataBuffer` can hand out now, oldest first.
pub open spec fn buffered_items(b: LiveDataBuffer) -> Seq<Data> {
    live_frames(buffered_bytes(b), buffer_channel(b))
}

/// Whether `s` is a suffix of `t`.
pub open spec fn is_suffix_of(s: Seq<u8>, t: Seq<u8>) -> bool {
    s.len() <= t.len() && s == t.skip(t.len() - s.len())
}

pub(crate) proof fn lemma_suffix_refl(s: Seq<u8>)
    ensures
        is_suffix_of(s, s),
{
    assert(s.skip(0) =~= s);
}

pub(crate) proof fn lemma_suffix_trans(a: Seq<u8>, b: Seq<u8>, c: Seq<u8>)
    requires
        is_suffix_of(a, b),
        is_suffix_of(b, c),
    ensures
        is_suffix_of(a, c),
{
    assert(a =~= c.skip(c.len() - a.len()));
}

/// Relies on `resol_vbus::LiveDataBuffer::new`: an empty buffer whose items get `channel`.
#[verifier::external_body]
pub(crate) fn new_buffer(channel: u8) -> (r: LiveDataBuffer)
    ensures
        buffered_bytes(r) == Seq::<u8>::empty(),
        buffer_channel(r) == channel,
        live_frames(buffered_bytes(r), buffer_channel(r)) == Seq::<Data>::empty(),
{
    LiveDataBuffer::new(channel)
}

/// Relies on `resol_vbus::LiveDataBuffer::extend_from_slice`: the bytes are
/// appended; the items already framed stay, in order, and more may complete;
/// every item carries the buffer's channel (`data_from_checked_bytes` is
/// handed the buffer's `channel`).
/// The live bytes of an encodable datagram, alone in the buffer, frame as that
/// datagram (`live_data_decoder::length_from_bytes` accepts them: every byte
/// after the sync byte is below `0x80` and the checksum matches;
/// `data_from_checked_bytes` reads the fields back).
#[verifier::external_body]
pub(crate) fn buffer_extend(b: &mut LiveDataBuffer, bytes: &[u8])
    ensures
        buffered_bytes(*final(b)) == buffered_bytes(*old(b)) + bytes@,
        buffer_channel(*final(b)) == buffer_channel(*old(b)),
        buffered_items(*old(b)).is_prefix_of(buffered_items(*final(b))),
        forall|i: int|
            0 <= i < buffered_items(*final(b)).len() ==> (#[trigger] buffered_items(*final(b))[i]).spec_header().channel
                == buffer_channel(*final(b)),
        buffered_bytes(*old(b)).len() == 0 ==> forall|d: Datagram|
            encodable(d) && bytes@ == #[trigger] live_datagram_bytes(d) ==> {
                let items = buffered_items(*final(b));
                &&& items.len() == 1
                &&& items[0] is Datagram
                &&& same_wire_fields(items[0]->Datagram_0, d)
                &&& items[0]->Datagram_0.header.protocol_version == 0x20
            },
{
    b.extend_from_slice(bytes)
}

/// Relies on `resol_vbus::LiveDataBuffer::read_data`: hands out the oldest
/// framed item and drops it from the buffer, or `None` when no whole item is
/// buffered. Either way only bytes at the front leave the buffer (the item's
/// own, and bytes that cannot start an item).
#[verifier::external_body]
pub(crate) fn buffer_read_data(b: &mut LiveDataBuffer) -> (r: Option<Data>)
    ensures
        is_suffix_of(buffered_bytes(*final(b)), buffered_bytes(*old(b))),
        buffer_channel(*final(b)) == buffer_channel(*old(b)),
        buffered_items(*old(b)).len() == 0 ==> r is None && buffered_items(*final(b)).len() == 0,
        buffered_items(*old(b)).len() > 0 ==> r == Some(buffered_items(*old(b))[0])
            && buffered_items(*final(b)) == buffered_items(*old(b)).drop_first(),
{
    let d = b.read_data()?;
    let v = d.as_header();
    let header = Header { channel: v.channel, destination_address: v.destination_address, source_address: v.source_address, protocol_version: v.protocol_version };
    Some(match d {
        VbusData::Packet(p) => Data::Packet(Packet { header, command: p.command, frame_count: p.frame_count, frame_data: p.frame_data.to_vec() }),
        VbusData::Datagram(g) => Data::Datagram(Datagram { header, command: g.command, param16: g.param16, param32: g.param32 }),
        VbusData::Telegram(t) => Data::Telegram(Telegram { header, command: t.command, frame_data: t.frame_data.to_vec() }),
    })
}

} // verus!
