use async_resol_vbus::device_information::DeviceInformation;
use async_resol_vbus::text::decimal_string;
use async_resol_vbus::{DeviceAddress, DeviceDiscovery, IpAddress, Ipv6Segments};

#[test]
fn device_discovery_test() {
    let mut discovery = DeviceDiscovery::new();
    assert_eq!(DeviceAddress { ip: IpAddress::V4(255, 255, 255, 255), port: 7053 }, discovery.broadcast_addr());
    assert_eq!(3, discovery.rounds());
    assert_eq!(500, discovery.broadcast_timeout_ms());
    assert_eq!(80, discovery.fetch_port());
    assert_eq!(2000, discovery.fetch_timeout_ms());

    discovery.set_broadcast_addr(DeviceAddress { ip: IpAddress::V4(255, 255, 255, 255), port: 4000 });
    discovery.set_broadcast_timeout(100);
    discovery.set_fetch_port(8080);
    discovery.set_fetch_timeout(100);
    discovery.set_rounds(1);
    assert_eq!(4000, discovery.broadcast_addr().port);
    assert_eq!((1, 100, 8080, 100), (
        discovery.rounds(),
        discovery.broadcast_timeout_ms(),
        discovery.fetch_port(),
        discovery.fetch_timeout_ms()
    ));

    assert_eq!(b"---RESOL-BROADCAST-QUERY---", DeviceDiscovery::query_bytes());

    // One device answers twice; a stray packet does not count.
    let device = DeviceAddress { ip: IpAddress::V4(127, 0, 0, 1), port: 4001 };
    let mut addresses = Vec::new();
    for (payload, from) in [
        (&b"---RESOL-BROADCAST-REPLY---"[..], device),
        (&b"---RESOL-BROADCAST-REPLY---"[..], device),
        (&b"---RESOL-BROADCAST-QUERY---"[..], DeviceAddress { port: 4002, ..device }),
    ] {
        if DeviceDiscovery::is_reply(payload) {
            DeviceDiscovery::add_address(&mut addresses, from);
        }
    }
    assert_eq!(1, addresses.len());
    assert_eq!(4001, addresses[0].port);

    let targets = discovery.fetch_addresses(&addresses);
    assert_eq!(vec![DeviceAddress { ip: IpAddress::V4(127, 0, 0, 1), port: 8080 }], targets);

    let response = b"HTTP/1.0 200 OK\r\n\r\nvendor = \"RESOL\"\r\nproduct = \"DL2\"\r\n";
    let info = DeviceInformation::from_http_response(targets[0], response).unwrap();
    assert_eq!(Some("RESOL"), info.vendor.as_deref());
    assert_eq!(Some("DL2"), info.product.as_deref());
}

#[test]
fn reply_must_match_exactly() {
    assert!(DeviceDiscovery::is_reply(b"---RESOL-BROADCAST-REPLY---"));
    assert!(!DeviceDiscovery::is_reply(b"---RESOL-BROADCAST-REPLY---\0"));
    assert!(!DeviceDiscovery::is_reply(b"---RESOL-BROADCAST-REPLY--"));
    assert!(!DeviceDiscovery::is_reply(b"---resol-broadcast-reply---"));
    assert!(!DeviceDiscovery::is_reply(b""));
}

#[test]
fn add_address_keeps_first_arrival_order() {
    let a = DeviceAddress { ip: IpAddress::V4(10, 0, 0, 1), port: 7053 };
    let b = DeviceAddress { ip: IpAddress::V6 { segments: Ipv6Segments(0xfe80, 0, 0, 0, 0, 0, 0, 1), flowinfo: 0, scope_id: 2 }, port: 7053 };
    let c = DeviceAddress { port: 7054, ..a };
    let mut addresses = Vec::new();
    for x in [a, b, a, c, b] {
        DeviceDiscovery::add_address(&mut addresses, x);
    }
    assert_eq!(vec![a, b, c], addresses);
}

#[test]
fn decimal_text() {
    assert_eq!("0", decimal_string(0));
    assert_eq!("80", decimal_string(80));
    assert_eq!("65535", decimal_string(65535));
    assert_eq!("18446744073709551615", decimal_string(u64::MAX));
}
