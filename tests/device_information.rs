use async_resol_vbus::device_information::DeviceInformation;
use async_resol_vbus::{DeviceAddress, IpAddress};

fn address() -> DeviceAddress {
    DeviceAddress { ip: IpAddress::V4(192, 168, 5, 217), port: 80 }
}

const RESPONSE: &[u8] = b"HTTP/1.0 200 OK\r\n\r\nvendor = \"RESOL\"\r\nproduct = \"DL2\"\r\nserial = \"001E66xxxxxx\"\r\nversion = \"2.2.0\"\r\nbuild = \"rc1\"\r\nname = \"DL2-001E66xxxxxx\"\r\nfeatures = \"vbus,dl2\"\r\n";

fn field(f: &Option<String>) -> Option<&str> {
    f.as_ref().map(|s| s.as_str())
}

#[test]
fn device_information_test() {
    let device = DeviceInformation::from_http_response(address(), RESPONSE).unwrap();

    assert_eq!(address(), device.address);
    assert_eq!(Some("RESOL"), field(&device.vendor));
    assert_eq!(Some("DL2"), field(&device.product));
    assert_eq!(Some("001E66xxxxxx"), field(&device.serial));
    assert_eq!(Some("2.2.0"), field(&device.version));
    assert_eq!(Some("rc1"), field(&device.build));
    assert_eq!(Some("DL2-001E66xxxxxx"), field(&device.name));
    assert_eq!(Some("vbus,dl2"), field(&device.features));
}

#[test]
fn parse_example() {
    let device = DeviceInformation::parse(address(), "vendor = \"RESOL\"\nproduct = \"KM2\"\n...").unwrap();
    assert_eq!(address(), device.address);
    assert_eq!(Some("RESOL"), field(&device.vendor));
    assert_eq!(Some("KM2"), field(&device.product));
    assert_eq!(None, field(&device.serial));
}

#[test]
fn parse_keys_ignore_ascii_case_and_later_lines_win() {
    let text = "VENDOR = \"A\"\nVendor=\"B\"\nNaMe = \"x y\"";
    let device = DeviceInformation::parse(address(), text).unwrap();
    assert_eq!(Some("B"), field(&device.vendor));
    assert_eq!(Some("x y"), field(&device.name));
}

#[test]
fn parse_ignores_unknown_keys() {
    let with = DeviceInformation::parse(address(), "vendor = \"A\"\nfoo = \"bar\"\nbuild = \"7\"\n").unwrap();
    let without = DeviceInformation::parse(address(), "vendor = \"A\"\nbuild = \"7\"\n").unwrap();
    assert_eq!(field(&with.vendor), field(&without.vendor));
    assert_eq!(field(&with.build), field(&without.build));
    assert_eq!(None, field(&with.features));
}

#[test]
fn parse_rejects_malformed_lines() {
    // No equals sign; a value without quotes; text after the closing quote;
    // a second equals sign (skipped before the quote); no closing quote; a well-formed line; a key of two words.
    let text = "vendor \"A\"\nproduct = B\nserial = \"C\" x\nversion == \"D\"\nbuild = \"E\nname = \"F\"\nfeatures x = \"G\"\n";
    let device = DeviceInformation::parse(address(), text).unwrap();
    assert_eq!(None, field(&device.vendor));
    assert_eq!(None, field(&device.product));
    assert_eq!(None, field(&device.serial));
    assert_eq!(Some("D"), field(&device.version));
    assert_eq!(None, field(&device.build));
    assert_eq!(Some("F"), field(&device.name));
    assert_eq!(None, field(&device.features));
}

#[test]
fn parse_empty_text_and_empty_value() {
    let device = DeviceInformation::parse(address(), "").unwrap();
    assert_eq!(None, field(&device.vendor));
    let device = DeviceInformation::parse(address(), "vendor=\"\"\r\n").unwrap();
    assert_eq!(Some(""), field(&device.vendor));
}

#[test]
fn parse_keeps_non_ascii_values() {
    let device = DeviceInformation::parse(address(), "name = \"Küche ☀\"\n").unwrap();
    assert_eq!(Some("Küche ☀"), field(&device.name));
}

#[test]
fn fmt_known_fields_round_trip() {
    let info = DeviceInformation {
        address: address(),
        vendor: Some("RESOL".to_string()),
        product: None,
        serial: Some("001E66xxxxxx".to_string()),
        version: Some("2.2.0".to_string()),
        build: None,
        name: Some("a = b".to_string()),
        features: Some("vbus,dl2".to_string()),
    };
    let text = async_resol_vbus::device_information::fmt_known_fields(&info);
    assert_eq!(
        "vendor = \"RESOL\"\nserial = \"001E66xxxxxx\"\nversion = \"2.2.0\"\nname = \"a = b\"\nfeatures = \"vbus,dl2\"\n",
        text
    );
    let back = DeviceInformation::parse(address(), &text).unwrap();
    assert_eq!(field(&info.vendor), field(&back.vendor));
    assert_eq!(field(&info.product), field(&back.product));
    assert_eq!(field(&info.serial), field(&back.serial));
    assert_eq!(field(&info.version), field(&back.version));
    assert_eq!(field(&info.build), field(&back.build));
    assert_eq!(field(&info.name), field(&back.name));
    assert_eq!(field(&info.features), field(&back.features));
}

#[test]
fn find_http_body_idx_finds_first_separator() {
    assert_eq!(Some(4), DeviceInformation::find_http_body_idx(b"\r\n\r\n"));
    assert_eq!(Some(7), DeviceInformation::find_http_body_idx(b"abc\r\n\r\n\r\n\r\nx"));
    assert_eq!(None, DeviceInformation::find_http_body_idx(b"abc\r\n\r"));
    assert_eq!(None, DeviceInformation::find_http_body_idx(b""));
}

#[test]
fn fetch_request_omits_port_80() {
    assert_eq!(
        "GET /cgi-bin/get_resol_device_information HTTP/1.0\r\nHost: 192.168.5.217\r\nUser-Agent: async-resol-vbus.rs\r\n\r\n",
        DeviceInformation::fetch_request("192.168.5.217", 80)
    );
    assert_eq!(
        "GET /cgi-bin/get_resol_device_information HTTP/1.0\r\nHost: 10.0.0.1:8080\r\nUser-Agent: async-resol-vbus.rs\r\n\r\n",
        DeviceInformation::fetch_request("10.0.0.1", 8080)
    );
}

#[test]
fn http_response_errors() {
    let err = DeviceInformation::from_http_response(address(), b"HTTP/1.0 200 OK\r\nvendor = \"X\"").unwrap_err();
    assert_eq!("No HTTP header separator found", err.message());
    assert!(DeviceInformation::from_http_response(address(), b"HTTP/1.0 200 OK\r\n\r\n\xff\xfe").is_err());
    let empty = DeviceInformation::from_http_response(address(), b"HTTP/1.0 200 OK\r\n\r\n").unwrap();
    assert_eq!(None, field(&empty.vendor));
}
