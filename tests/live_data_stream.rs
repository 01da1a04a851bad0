use async_resol_vbus::{
    try_as_datagram, value_id_hash, Data, Exchange, LiveDataStream, ReadOutcome, ReplyFilter, RetryPolicy,
};

use resol_vbus::live_data_encoder;

fn extend_from_data(buf: &mut Vec<u8>, data: &resol_vbus::Data) {
    let len = live_data_encoder::length_from_data(data);
    let idx = buf.len();
    buf.resize(idx + len, 0);
    live_data_encoder::bytes_from_data(data, &mut buf[idx..]);
}

fn header(destination_address: u16, source_address: u16, protocol_version: u8) -> resol_vbus::Header {
    resol_vbus::Header {
        timestamp: resol_vbus::utils::current_timestamp(),
        channel: 0,
        destination_address,
        source_address,
        protocol_version,
    }
}

fn extend_with_empty_packet(buf: &mut Vec<u8>, destination_address: u16, source_address: u16, command: u16) {
    let data = resol_vbus::Data::Packet(resol_vbus::Packet {
        header: header(destination_address, source_address, 0x10),
        command,
        frame_count: 0,
        frame_data: [0; 508],
    });
    extend_from_data(buf, &data);
}

fn extend_from_datagram(
    buf: &mut Vec<u8>,
    destination_address: u16,
    source_address: u16,
    command: u16,
    param16: i16,
    param32: i32,
) {
    let data = resol_vbus::Data::Datagram(resol_vbus::Datagram {
        header: header(destination_address, source_address, 0x20),
        command,
        param16,
        param32,
    });
    extend_from_data(buf, &data);
}

fn hex_encode(bytes: &[u8]) -> String {
    bytes.iter().map(|b| format!("{:02x}", b)).collect::<Vec<String>>().concat()
}

/// The live bytes of an item the stream handed out.
fn data_bytes(data: &Data) -> Vec<u8> {
    match data {
        Data::Datagram(d) => d.to_live_bytes(),
        Data::Packet(p) => {
            let mut frame_data = [0u8; 508];
            frame_data.copy_from_slice(&p.frame_data);
            let packet = resol_vbus::Data::Packet(resol_vbus::Packet {
                header: header(p.header.destination_address, p.header.source_address, p.header.protocol_version),
                command: p.command,
                frame_count: p.frame_count,
                frame_data,
            });
            let mut buf = Vec::new();
            extend_from_data(&mut buf, &packet);
            buf
        }
        Data::Telegram(_) => panic!("unexpected telegram"),
    }
}

/// Runs an exchange against received bytes that arrive in chunks of 256, as
/// a reader would deliver them; returns what was written and the result.
fn simulate_run(lds: &mut LiveDataStream, mut exchange: Exchange, rx: &[u8]) -> (Vec<u8>, Option<Data>) {
    let mut written = Vec::new();
    let mut pos = 0;
    while exchange.policy.next_timeout().is_some() {
        if let Some(tx) = &exchange.tx_bytes {
            written.extend_from_slice(tx);
        }
        let filter = exchange.filter;
        if let Some(data) = lds.read_data_where(|d: &Data| filter.accepts(d)) {
            return (written, Some(data));
        }
        loop {
            let end = (pos + 256).min(rx.len());
            let chunk = &rx[pos..end];
            pos = end;
            match lds.after_read(chunk, |d: &Data| filter.accepts(d)) {
                ReadOutcome::Reply(data) => return (written, Some(data)),
                ReadOutcome::Ended => return (written, None),
                ReadOutcome::NeedMore => {}
            }
        }
    }
    (written, None)
}

fn datagram_hex(data: Option<Data>) -> String {
    let data = data.unwrap();
    hex_encode(&try_as_datagram(&data).unwrap().to_live_bytes())
}

#[test]
fn test_wait_for_free_bus() {
    let mut rx_buf = Vec::new();
    extend_with_empty_packet(&mut rx_buf, 0x0010, 0x7E11, 0x0100);
    extend_from_datagram(&mut rx_buf, 0x0000, 0x7E11, 0x0500, 0, 0);

    let mut lds = LiveDataStream::new(0, 0x0020);
    let exchange = lds.wait_for_free_bus();
    let (written, data) = simulate_run(&mut lds, exchange, &rx_buf);

    assert_eq!("", hex_encode(&written));
    assert_eq!("aa0000117e200005000000000000004b", datagram_hex(data));
}

#[test]
fn test_release_bus() {
    let mut rx_buf = Vec::new();
    extend_from_datagram(&mut rx_buf, 0x0020, 0x7E11, 0x0100, 0, 0);
    extend_with_empty_packet(&mut rx_buf, 0x0010, 0x7E11, 0x0100);

    let mut lds = LiveDataStream::new(0, 0x0020);
    let exchange = lds.release_bus(0x7E11);
    let (written, data) = simulate_run(&mut lds, exchange, &rx_buf);

    assert_eq!("aa117e2000200006000000000000002a", hex_encode(&written));
    assert_eq!("aa1000117e100001004f", hex_encode(&data_bytes(&data.unwrap())));
}

fn value_reply_feed(command: u16, wrong_command: u16) -> Vec<u8> {
    let mut rx_buf = Vec::new();
    extend_with_empty_packet(&mut rx_buf, 0x0010, 0x7E11, 0x0100);
    extend_from_datagram(&mut rx_buf, 0x0021, 0x7E11, command, 0x1234, 0x789abcde);
    extend_from_datagram(&mut rx_buf, 0x0020, 0x7E10, command, 0x1234, 0x789abcde);
    extend_from_datagram(&mut rx_buf, 0x0020, 0x7E11, wrong_command, 0x1234, 0x789abcde);
    extend_from_datagram(&mut rx_buf, 0x0020, 0x7E11, command, 0x1235, 0x789abcde);
    extend_from_datagram(&mut rx_buf, 0x0020, 0x7E11, command, 0x1234, 0x789abcde);
    rx_buf
}

#[test]
fn test_get_value_by_index() {
    let rx_buf = value_reply_feed(0x0156, 0x0157);

    let mut lds = LiveDataStream::new(0, 0x0020);
    let exchange = lds.get_value_by_index(0x7E11, 0x1234, 0x56);
    let (written, data) = simulate_run(&mut lds, exchange, &rx_buf);

    assert_eq!("aa117e20002056033412000000000011", hex_encode(&written));
    assert_eq!("aa2000117e20560134125e3c1a781c4b", datagram_hex(data));
}

#[test]
fn test_set_value_by_index() {
    let rx_buf = value_reply_feed(0x0156, 0x0157);

    let mut lds = LiveDataStream::new(0, 0x0020);
    let exchange = lds.set_value_by_index(0x7E11, 0x1234, 0x56, 0x789abcde);
    let (written, data) = simulate_run(&mut lds, exchange, &rx_buf);

    assert_eq!("aa117e200020560234125e3c1a781c4a", hex_encode(&written));
    assert_eq!("aa2000117e20560134125e3c1a781c4b", datagram_hex(data));
}

#[test]
fn test_get_value_id_hash_by_index() {
    let rx_buf = value_reply_feed(0x0100, 0x0101);

    let mut lds = LiveDataStream::new(0, 0x0020);
    let exchange = lds.get_value_id_hash_by_index(0x7E11, 0x1234);
    let (written, data) = simulate_run(&mut lds, exchange, &rx_buf);

    assert_eq!("aa117e2000200010341200000000005a", hex_encode(&written));
    assert_eq!("aa2000117e20000134125e3c1a781c21", datagram_hex(data));
}

#[test]
fn test_get_value_index_by_id_hash() {
    let mut rx_buf = Vec::new();
    extend_with_empty_packet(&mut rx_buf, 0x0010, 0x7E11, 0x0100);
    extend_from_datagram(&mut rx_buf, 0x0021, 0x7E11, 0x0100, 0x1234, 0x789abcde);
    extend_from_datagram(&mut rx_buf, 0x0020, 0x7E10, 0x0100, 0x1234, 0x789abcde);
    extend_from_datagram(&mut rx_buf, 0x0020, 0x7E11, 0x0101, 0x1234, 0x789abcde);
    extend_from_datagram(&mut rx_buf, 0x0020, 0x7E11, 0x0100, 0x1234, 0x789abcdf);
    extend_from_datagram(&mut rx_buf, 0x0020, 0x7E11, 0x0100, 0x1234, 0x789abcde);

    let mut lds = LiveDataStream::new(0, 0x0020);
    let exchange = lds.get_value_index_by_id_hash(0x7E11, 0x789abcde);
    let (written, data) = simulate_run(&mut lds, exchange, &rx_buf);

    assert_eq!("aa117e200020001100005e3c1a781c57", hex_encode(&written));
    assert_eq!("aa2000117e20000134125e3c1a781c21", datagram_hex(data));
}

fn command_reply_feed(command: u16, wrong_command: u16, param32: i32) -> Vec<u8> {
    let mut rx_buf = Vec::new();
    extend_with_empty_packet(&mut rx_buf, 0x0010, 0x7E11, 0x0100);
    extend_from_datagram(&mut rx_buf, 0x0021, 0x7E11, command, 0, param32);
    extend_from_datagram(&mut rx_buf, 0x0020, 0x7E10, command, 0, param32);
    extend_from_datagram(&mut rx_buf, 0x0020, 0x7E11, wrong_command, 0, param32);
    extend_from_datagram(&mut rx_buf, 0x0020, 0x7E11, command, 0, param32);
    rx_buf
}

#[test]
fn test_get_caps1() {
    let rx_buf = command_reply_feed(0x1301, 0x1300, 0x789abcde);

    let mut lds = LiveDataStream::new(0, 0x0020);
    let exchange = lds.get_caps1(0x7E11);
    let (written, data) = simulate_run(&mut lds, exchange, &rx_buf);

    assert_eq!("aa117e2000200013000000000000001d", hex_encode(&written));
    assert_eq!("aa2000117e20011300005e3c1a781c54", datagram_hex(data));
}

#[test]
fn test_begin_bulk_value_transaction() {
    let rx_buf = command_reply_feed(0x1401, 0x1400, 0);

    let mut lds = LiveDataStream::new(0, 0x0020);
    let exchange = lds.begin_bulk_value_transaction(0x7E11, 0x789abcde);
    let (written, data) = simulate_run(&mut lds, exchange, &rx_buf);

    assert_eq!("aa117e200020001400005e3c1a781c54", hex_encode(&written));
    assert_eq!("aa2000117e200114000000000000001b", datagram_hex(data));
}

#[test]
fn test_commit_value_transaction() {
    let rx_buf = command_reply_feed(0x1403, 0x1402, 0);

    let mut lds = LiveDataStream::new(0, 0x0020);
    let exchange = lds.commit_bulk_value_transaction(0x7E11);
    let (written, data) = simulate_run(&mut lds, exchange, &rx_buf);

    assert_eq!("aa117e2000200214000000000000001a", hex_encode(&written));
    assert_eq!("aa2000117e2003140000000000000019", datagram_hex(data));
}

#[test]
fn test_rollback_value_transaction() {
    let rx_buf = command_reply_feed(0x1405, 0x1404, 0);

    let mut lds = LiveDataStream::new(0, 0x0020);
    let exchange = lds.rollback_bulk_value_transaction(0x7E11);
    let (written, data) = simulate_run(&mut lds, exchange, &rx_buf);

    assert_eq!("aa117e20002004140000000000000018", hex_encode(&written));
    assert_eq!("aa2000117e2005140000000000000017", datagram_hex(data));
}

#[test]
fn test_set_bulk_value_by_index() {
    let rx_buf = value_reply_feed(0x1656, 0x1657);

    let mut lds = LiveDataStream::new(0, 0x0020);
    let exchange = lds.set_bulk_value_by_index(0x7E11, 0x1234, 0x56, 0x789abcde);
    let (written, data) = simulate_run(&mut lds, exchange, &rx_buf);

    assert_eq!("aa117e200020561534125e3c1a781c37", hex_encode(&written));
    assert_eq!("aa2000117e20561634125e3c1a781c36", datagram_hex(data));
}

#[test]
fn eof_ends_the_exchange() {
    let mut rx_buf = Vec::new();
    extend_with_empty_packet(&mut rx_buf, 0x0010, 0x7E11, 0x0100);

    let mut lds = LiveDataStream::new(0, 0x0020);
    let mut exchange = lds.get_caps1(0x7E11);
    let tx = exchange.tx_bytes.clone().unwrap();
    let mut policy = exchange.policy;
    assert_eq!(Some(500), policy.next_timeout());
    assert_eq!(Some(1000), policy.next_timeout());
    assert_eq!(Some(1500), policy.next_timeout());
    assert_eq!(None, policy.next_timeout());

    // The end of the input stands for EOF, which ends the exchange at once.
    exchange.policy = RetryPolicy::new(3, 500, 500);
    let (written, data) = simulate_run(&mut lds, exchange, &rx_buf);
    assert!(data.is_none());
    assert_eq!(tx, written);
}

#[test]
fn retry_policy_timeouts_grow() {
    let mut policy = RetryPolicy::new(2, 2500, 2500);
    assert_eq!(Some(2500), policy.next_timeout());
    assert_eq!(Some(5000), policy.next_timeout());
    assert_eq!(None, policy.next_timeout());
    let mut none = RetryPolicy::new(0, 10, 10);
    assert_eq!(None, none.next_timeout());
}

#[test]
fn outgoing_datagram_carries_stream_header() {
    let lds = LiveDataStream::new(3, 0x0042);
    let d = lds.create_datagram(0x7E11, 0x0300, 7, 9);
    assert_eq!(3, d.header.channel);
    assert_eq!(0x0042, d.header.source_address);
    assert_eq!(0x7E11, d.header.destination_address);
    assert_eq!(0x20, d.header.protocol_version);
    assert_eq!((0x0300, 7, 9), (d.command, d.param16, d.param32));
}

#[test]
fn datagram_round_trip() {
    let lds = LiveDataStream::new(0, 0x0020);
    let d = lds.create_datagram(0x7E11, 0x1500 | 0x56, -2, -123456789);
    let bytes = d.to_live_bytes();
    assert_eq!(16, bytes.len());

    let mut rx = LiveDataStream::new(0, 0x0010);
    rx.extend_from_slice(&bytes);
    let back = rx.read_data_where(|_: &Data| true).unwrap();
    assert_eq!(Some(&d), try_as_datagram(&back));
}

#[test]
fn skipped_items_are_consumed() {
    let mut rx_buf = Vec::new();
    extend_from_datagram(&mut rx_buf, 0x0020, 0x7E11, 0x0100, 1, 0);
    extend_with_empty_packet(&mut rx_buf, 0x0010, 0x7E11, 0x0100);
    extend_from_datagram(&mut rx_buf, 0x0020, 0x7E11, 0x0100, 2, 0);

    let mut lds = LiveDataStream::new(0, 0x0020);
    lds.extend_from_slice(&rx_buf);
    let packet = lds.read_data_where(|d: &Data| ReplyFilter::AnyPacket.accepts(d)).unwrap();
    assert!(packet.is_packet());
    // The datagram before the packet is gone; the one after it is next.
    let next = lds.read_data_where(|_: &Data| true).unwrap();
    assert_eq!(2, try_as_datagram(&next).unwrap().param16);
    assert!(lds.read_data_where(|_: &Data| true).is_none());
}

#[test]
fn partial_frame_waits_for_more_bytes() {
    let mut rx_buf = Vec::new();
    extend_from_datagram(&mut rx_buf, 0x0020, 0x7E11, 0x0100, 1, 0);

    let mut lds = LiveDataStream::new(0, 0x0020);
    lds.extend_from_slice(&rx_buf[..10]);
    assert!(lds.read_data_where(|_: &Data| true).is_none());
    lds.extend_from_slice(&rx_buf[10..]);
    assert!(lds.read_data_where(|_: &Data| true).unwrap().is_datagram());
}

#[test]
fn reply_filter_matches_swapped_addresses() {
    let lds = LiveDataStream::new(0, 0x0020);
    let exchange = lds.get_value_id_hash_by_index(0x7E11, 0x1234);
    let mut rx = LiveDataStream::new(0, 0x0010);
    let mut rx_buf = Vec::new();
    extend_from_datagram(&mut rx_buf, 0x0020, 0x7E11, 0x1001, 0x1234, 5);
    extend_from_datagram(&mut rx_buf, 0x7E11, 0x0020, 0x1001, 0x1234, 5);
    rx.extend_from_slice(&rx_buf);
    let first = rx.read_data_where(|_: &Data| true).unwrap();
    let second = rx.read_data_where(|_: &Data| true).unwrap();
    assert!(exchange.filter.accepts(&first));
    assert!(!exchange.filter.accepts(&second));
    assert!(ReplyFilter::AnyData.accepts(&second));
    assert!(!ReplyFilter::FreeBusOffer.accepts(&second));
}

#[test]
fn value_id_hash_folds_characters() {
    fn reference(id: &str) -> i32 {
        id.chars().fold(0, |acc: i32, c| acc.wrapping_mul(0x21).wrapping_add(c as i32) & 0x7fffffff)
    }
    assert_eq!(0, value_id_hash(""));
    assert_eq!(97, value_id_hash("a"));
    assert_eq!(97 * 33 + 98, value_id_hash("ab"));
    for id in ["Relais1", "Handbetrieb_Relais_1", "ÄÖÜ☀", "a_very_long_identifier_that_wraps_around_many_times"] {
        assert_eq!(reference(id), value_id_hash(id), "{}", id);
    }
}

#[test]
fn plain_receive_and_transceive_exchanges() {
    let lds = LiveDataStream::new(1, 0x0020);
    let mut receive = Exchange::receive(60000, ReplyFilter::AnyData);
    assert!(receive.tx_bytes.is_none());
    assert_eq!(Some(60000), receive.policy.next_timeout());
    assert_eq!(None, receive.policy.next_timeout());

    let request = lds.create_datagram(0x7E11, 0x0300, 1, 0);
    let mut transceive = Exchange::transceive(&request, 2, 100, 50, ReplyFilter::AnyPacket);
    assert_eq!(Some(request.to_live_bytes()), transceive.tx_bytes);
    assert_eq!(Some(100), transceive.policy.next_timeout());
    assert_eq!(Some(150), transceive.policy.next_timeout());
    assert_eq!(None, transceive.policy.next_timeout());
}

#[test]
fn only_seven_bit_header_bytes_are_encodable() {
    let lds = LiveDataStream::new(0, 0x0020);
    assert!(lds.create_datagram(0x7E11, 0x0356, -1, -1).is_encodable());
    assert!(!lds.create_datagram(0x0080, 0x0100, 0, 0).is_encodable());
    assert!(!lds.create_datagram(0xFFFF, 0x0600, 0, 0).is_encodable());
    assert!(!lds.create_datagram(0x7E11, 0x03FF, 0, 0).is_encodable());
}

#[test]
fn after_read_frames_replies_and_sees_the_end() {
    let mut rx_buf = Vec::new();
    extend_with_empty_packet(&mut rx_buf, 0x0010, 0x7E11, 0x0100);
    extend_from_datagram(&mut rx_buf, 0x0020, 0x7E11, 0x1301, 0, 0);

    let mut lds = LiveDataStream::new(0, 0x0020);
    let filter = lds.get_caps1(0x7E11).filter;
    let accepts = |d: &Data| filter.accepts(d);
    assert!(matches!(lds.after_read(&rx_buf[..12], accepts), ReadOutcome::NeedMore));
    match lds.after_read(&rx_buf[12..], accepts) {
        ReadOutcome::Reply(d) => assert_eq!(0x1301, try_as_datagram(&d).unwrap().command),
        other => panic!("unexpected {:?}", other),
    }
    assert!(matches!(lds.after_read(&[], accepts), ReadOutcome::Ended));
}

#[test]
fn decoded_items_carry_the_stream_channel() {
    let tx = LiveDataStream::new(3, 0x0020);
    let d = tx.create_datagram(0x7E11, 0x0100, 5, 6);
    let mut rx = LiveDataStream::new(3, 0x0010);
    rx.extend_from_slice(&d.to_live_bytes());
    let back = rx.read_data_where(|_: &Data| true).unwrap();
    assert_eq!(Some(&d), try_as_datagram(&back));
    assert_eq!(3, back.header().channel);
}
