//! The device information page of a VBus-over-TCP device: lines of the form
//! `KEY = "VALUE"`, fetched over HTTP/1.0.
use vstd::prelude::*;
use vstd::slice::slice_subrange;
use vstd::string::*;
use vstd::utf8::{decode_utf8, valid_utf8};

use crate::address::DeviceAddress;
use crate::error::{Error, Result};
use crate::text::{decimal, decimal_string, utf8_error_message, utf8_to_string};

verus! {

/// Information about a VBus-over-TCP device.
#[derive(Clone, Debug)]
pub struct DeviceInformation {
    /// The address of the device's web server.
    pub address: DeviceAddress,
    /// The vendor of the device.
    pub vendor: Option<String>,
    /// The product name of the device.
    pub product: Option<String>,
    /// The serial number of the device.
    pub serial: Option<String>,
    /// The firmware version of the device.
    pub version: Option<String>,
    /// The firmware build of the device.
    pub build: Option<String>,
    /// The user-chosen name of the device.
    pub name: Option<String>,
    /// The comma separated list of features supported by the device.
    pub features: Option<String>,
}

/// The mathematical value of a [`DeviceInformation`].
pub struct DeviceInformationView {
    pub address: DeviceAddress,
    pub vendor: Option<Seq<char>>,
    pub product: Option<Seq<char>>,
    pub serial: Option<Seq<char>>,
    pub version: Option<Seq<char>>,
    pub build: Option<Seq<char>>,
    pub name: Option<Seq<char>>,
    pub features: Option<Seq<char>>,
}

pub open spec fn opt_view(o: Option<String>) -> Option<Seq<char>> {
    match o {
        Some(s) => Some(s@),
        None => None,
    }
}

impl View for DeviceInformation {
    type V = DeviceInformationView;

    open spec fn view(&self) -> DeviceInformationView {
        DeviceInformationView {
            address: self.address,
            vendor: opt_view(self.vendor),
            product: opt_view(self.product),
            serial: opt_view(self.serial),
            version: opt_view(self.version),
            build: opt_view(self.build),
            name: opt_view(self.name),
            features: opt_view(self.features),
        }
    }
}

// ---------------------------------------------------------------------------
// Lines

/// The index of the first `'\n'` in `s`, or `s.len()` if there is none.
pub open spec fn first_newline(s: Seq<char>) -> int
    decreases s.len(),
{
    if s.len() == 0 {
        0
    } else if s[0] == '\n' {
        0
    } else {
        1 + first_newline(s.drop_first())
    }
}

/// `line` without one trailing `'\r'`.
pub open spec fn strip_cr(line: Seq<char>) -> Seq<char> {
    if line.len() > 0 && line.last() == '\r' {
        line.drop_last()
    } else {
        line
    }
}

/// The lines of `s`: split at each `'\n'`, with a `'\r'` before it dropped; a
/// last line without `'\n'` is kept as it is, and an empty one is not a line.
pub open spec fn lines(s: Seq<char>) -> Seq<Seq<char>>
    decreases s.len(),
{
    if s.len() == 0 {
        Seq::empty()
    } else {
        let e = first_newline(s);
        if 0 <= e < s.len() {
            seq![strip_cr(s.subrange(0, e))] + lines(s.subrange(e + 1, s.len() as int))
        } else {
            seq![s]
        }
    }
}

proof fn lemma_first_newline(s: Seq<char>, k: int)
    requires
        0 <= k <= s.len(),
        forall|i: int| 0 <= i < k ==> s[i] != '\n',
        k == s.len() || s[k] == '\n',
    ensures
        first_newline(s) == k,
    decreases k,
{
    if k > 0 {
        lemma_first_newline(s.drop_first(), k - 1);
    }
}

// ---------------------------------------------------------------------------
// The line scanner

/// The states of the scanner of one `KEY = "VALUE"` line.
#[derive(Clone, Copy, Debug, PartialEq, Eq, Structural)]
pub enum Phase {
    InKey,
    WaitingForEquals,
    WaitingForValueStartQuote,
    InValue,
    AfterValueEndQuote,
    Malformed,
}

/// The characters that make up keys.
pub open spec fn is_word_char(c: char) -> bool {
    ('0' <= c && c <= '9') || ('A' <= c && c <= 'Z') || ('a' <= c && c <= 'z') || c == '_'
}

/// The scanner's state: the phase, where the key ends, and where the value
/// starts and ends.
pub type ScanState = (Phase, int, int, int);

/// The scanner's state after character `c` at index `idx`.
pub open spec fn scan_step(st: ScanState, c: char, idx: int) -> ScanState {
    let (phase, key_end, value_start, value_end) = st;
    match phase {
        Phase::InKey => if is_word_char(c) {
            st
        } else if c == '=' {
            (Phase::WaitingForValueStartQuote, idx, value_start, value_end)
        } else {
            (Phase::WaitingForEquals, idx, value_start, value_end)
        },
        Phase::WaitingForEquals => if c == '=' {
            (Phase::WaitingForValueStartQuote, key_end, value_start, value_end)
        } else {
            (Phase::Malformed, key_end, value_start, value_end)
        },
        Phase::WaitingForValueStartQuote => if c == '"' {
            (Phase::InValue, key_end, idx + 1, value_end)
        } else if is_word_char(c) {
            (Phase::Malformed, key_end, value_start, value_end)
        } else {
            st
        },
        Phase::InValue => if c == '"' {
            (Phase::AfterValueEndQuote, key_end, value_start, idx)
        } else {
            st
        },
        Phase::AfterValueEndQuote => (Phase::Malformed, key_end, value_start, value_end),
        Phase::Malformed => st,
    }
}

/// The scanner's state after the first `n` characters of `line`.
pub open spec fn scan_prefix(line: Seq<char>, n: nat) -> ScanState
    decreases n,
{
    if n == 0 {
        (Phase::InKey, 0, 0, 0)
    } else {
        scan_step(scan_prefix(line, (n - 1) as nat), line[n - 1], n - 1)
    }
}

/// The key and value of a well-formed line, or `None`.
pub open spec fn line_entry(line: Seq<char>) -> Option<(Seq<char>, Seq<char>)> {
    let (phase, key_end, value_start, value_end) = scan_prefix(line, line.len());
    if phase == Phase::AfterValueEndQuote {
        Some((line.subrange(0, key_end), line.subrange(value_start, value_end)))
    } else {
        None
    }
}

/// The positions recorded in a scanner state lie in order within the first `n` characters.
pub open spec fn scan_bounds(st: ScanState, n: int) -> bool {
    let (phase, key_end, value_start, value_end) = st;
    match phase {
        Phase::InKey | Phase::Malformed => true,
        Phase::WaitingForEquals | Phase::WaitingForValueStartQuote => 0 <= key_end < n,
        Phase::InValue => 0 <= key_end < value_start <= n,
        Phase::AfterValueEndQuote => 0 <= key_end < value_start <= value_end < n,
    }
}

// ---------------------------------------------------------------------------
// Keys

/// `c` with ASCII upper case letters made lower case.
pub open spec fn ascii_lower(c: char) -> char {
    if 'A' <= c && c <= 'Z' {
        ((c as u8) + 32) as char
    } else {
        c
    }
}

/// Whether `a` and `b` are equal when ASCII letter case is ignored.
pub open spec fn eq_ignore_ascii_case(a: Seq<char>, b: Seq<char>) -> bool {
    a.len() == b.len() && forall|i: int| 0 <= i < a.len() ==> ascii_lower(a[i]) == ascii_lower(b[i])
}

fn to_ascii_lower(c: char) -> (r: char)
    ensures
        r == ascii_lower(c),
{
    if 'A' <= c && c <= 'Z' {
        ((c as u8) + 32) as char
    } else {
        c
    }
}

/// Whether `a` and `b` are equal when ASCII letter case is ignored.
pub fn str_eq_ignore_ascii_case(a: &str, b: &str) -> (r: bool)
    ensures
        r == eq_ignore_ascii_case(a@, b@),
{
    let n = a.unicode_len();
    if n != b.unicode_len() {
        return false;
    }
    let mut i: usize = 0;
    while i < n
        invariant
            n == a@.len() == b@.len(),
            0 <= i <= n,
            forall|j: int| 0 <= j < i ==> ascii_lower(a@[j]) == ascii_lower(b@[j]),
        decreases n - i,
    {
        if to_ascii_lower(a.get_char(i)) != to_ascii_lower(b.get_char(i)) {
            return false;
        }
        i = i + 1;
    }
    true
}

// ---------------------------------------------------------------------------
// The record

/// The value on the last well-formed line of `lines` whose key equals `key`,
/// ignoring ASCII case.
pub open spec fn field_value(lines: Seq<Seq<char>>, key: Seq<char>) -> Option<Seq<char>>
    decreases lines.len(),
{
    if lines.len() == 0 {
        None
    } else {
        match line_entry(lines.last()) {
            Some((k, v)) => if eq_ignore_ascii_case(k, key) {
                Some(v)
            } else {
                field_value(lines.drop_last(), key)
            },
            None => field_value(lines.drop_last(), key),
        }
    }
}

/// The record that the lines `ls` describe, for the device at `address`.
pub open spec fn record_of_lines(address: DeviceAddress, ls: Seq<Seq<char>>) -> DeviceInformationView {
    DeviceInformationView {
        address,
        vendor: field_value(ls, "vendor"@),
        product: field_value(ls, "product"@),
        serial: field_value(ls, "serial"@),
        version: field_value(ls, "version"@),
        build: field_value(ls, "build"@),
        name: field_value(ls, "name"@),
        features: field_value(ls, "features"@),
    }
}

/// The record that the text `s` describes, for the device at `address`.
pub open spec fn parsed(address: DeviceAddress, s: Seq<char>) -> DeviceInformationView {
    record_of_lines(address, lines(s))
}

fn is_word(c: char) -> (r: bool)
    ensures
        r == is_word_char(c),
{
    ('0' <= c && c <= '9') || ('A' <= c && c <= 'Z') || ('a' <= c && c <= 'z') || c == '_'
}

/// Runs the scanner over the characters `start..end` of `s`; the positions
/// returned count from `start`.
fn scan_line(s: &str, start: usize, end: usize) -> (r: (Phase, usize, usize, usize))
    requires
        start <= end <= s@.len(),
    ensures
        (r.0, r.1 as int, r.2 as int, r.3 as int) == scan_prefix(
            s@.subrange(start as int, end as int),
            (end - start) as nat,
        ),
        scan_bounds((r.0, r.1 as int, r.2 as int, r.3 as int), end - start),
{
    let ghost line = s@.subrange(start as int, end as int);
    let mut phase = Phase::InKey;
    let mut key_end: usize = 0;
    let mut value_start: usize = 0;
    let mut value_end: usize = 0;
    let mut i: usize = 0;
    while i < end - start
        invariant
            start <= end <= s@.len(),
            line == s@.subrange(start as int, end as int),
            i <= end - start,
            (phase, key_end as int, value_start as int, value_end as int) == scan_prefix(line, i as nat),
            scan_bounds((phase, key_end as int, value_start as int, value_end as int), i as int),
            value_start <= i,
        decreases end - start - i,
    {
        let c = s.get_char(start + i);
        assert(line[i as int] == c);
        let word = is_word(c);
        match phase {
            Phase::InKey => {
                if !word {
                    key_end = i;
                    phase = if c == '=' {
                        Phase::WaitingForValueStartQuote
                    } else {
                        Phase::WaitingForEquals
                    };
                }
            },
            Phase::WaitingForEquals => {
                phase = if c == '=' {
                    Phase::WaitingForValueStartQuote
                } else {
                    Phase::Malformed
                };
            },
            Phase::WaitingForValueStartQuote => {
                if c == '"' {
                    value_start = i + 1;
                    phase = Phase::InValue;
                } else if word {
                    phase = Phase::Malformed;
                }
            },
            Phase::InValue => {
                if c == '"' {
                    value_end = i;
                    phase = Phase::AfterValueEndQuote;
                }
            },
            Phase::AfterValueEndQuote => {
                phase = Phase::Malformed;
            },
            Phase::Malformed => {},
        }
        i = i + 1;
    }
    (phase, key_end, value_start, value_end)
}

proof fn lemma_lines_step(s: Seq<char>, p: int, e: int)
    requires
        0 <= p < e <= s.len() || (0 <= p <= e < s.len()),
        forall|i: int| p <= i < e ==> s[i] != '\n',
        e == s.len() || s[e] == '\n',
    ensures
        e < s.len() ==> lines(s.subrange(p, s.len() as int)) == seq![strip_cr(s.subrange(p, e))]
            + lines(s.subrange(e + 1, s.len() as int)),
        e == s.len() ==> lines(s.subrange(p, s.len() as int)) == seq![s.subrange(p, e)]
            + lines(s.subrange(s.len() as int, s.len() as int)),
{
    let t = s.subrange(p, s.len() as int);
    lemma_first_newline(t, e - p);
    assert(t.subrange(0, e - p) =~= s.subrange(p, e));
    if e < s.len() {
        assert(t.subrange(e - p + 1, t.len() as int) =~= s.subrange(e + 1, s.len() as int));
    } else {
        assert(t =~= s.subrange(p, e));
        assert(lines(s.subrange(s.len() as int, s.len() as int)) =~= Seq::empty());
        assert(seq![s.subrange(p, e)] + Seq::<Seq<char>>::empty() =~= seq![s.subrange(p, e)]);
    }
}

// ---------------------------------------------------------------------------
// HTTP

/// Whether `b` holds CR LF CR LF at index `i`.
pub open spec fn separator_at(b: Seq<u8>, i: int) -> bool {
    0 <= i && i + 4 <= b.len() && b[i] == 13 && b[i + 1] == 10 && b[i + 2] == 13 && b[i + 3] == 10
}

/// The index just past the first CR LF CR LF in `b`, where an HTTP body starts.
pub open spec fn http_body_start(b: Seq<u8>) -> Option<int> {
    if exists|i: int| separator_at(b, i) {
        let i = choose|i: int| separator_at(b, i) && forall|j: int| 0 <= j < i ==> !separator_at(b, j);
        Some(i + 4)
    } else {
        None
    }
}

/// The HTTP/1.0 request for the device information page of the device whose
/// IP address reads `ip_text` and whose web server listens on `port`. The
/// `Host` header leaves the port out when it is 80.
pub open spec fn request_text(ip_text: Seq<char>, port: u16) -> Seq<char> {
    let host = if port == 80 {
        ip_text
    } else {
        ip_text + ":"@ + decimal(port as nat)
    };
    "GET /cgi-bin/get_resol_device_information HTTP/1.0\r\nHost: "@ + host + "\r\nUser-Agent: async-resol-vbus.rs\r\n\r\n"@
}

impl DeviceInformation {
    /// The index just past the first CR LF CR LF in `buf`, where an HTTP body
    /// starts, or `None` if there is none.
    pub fn find_http_body_idx(buf: &[u8]) -> (r: Option<usize>)
        ensures
            r matches Some(i) ==> http_body_start(buf@) == Some(i as int) && 4 <= i <= buf@.len(),
            r is None ==> http_body_start(buf@) is None,
    {
        let len = buf.len();
        let mut idx: usize = 0;
        while idx < len && len - idx >= 4
            invariant
                len == buf@.len(),
                idx <= len,
                forall|j: int| 0 <= j < idx ==> !separator_at(buf@, j),
            decreases len - idx,
        {
            if buf[idx] == 13 && buf[idx + 1] == 10 && buf[idx + 2] == 13 && buf[idx + 3] == 10 {
                assert(separator_at(buf@, idx as int));
                let ghost c = choose|i: int| separator_at(buf@, i) && forall|j: int| 0 <= j < i ==> !separator_at(buf@, j);
                assert(c == idx) by {
                    if c < idx {
                        assert(!separator_at(buf@, c));
                    }
                    if c > idx {
                        assert(!separator_at(buf@, idx as int));
                    }
                }
                return Some(idx + 4);
            }
            idx = idx + 1;
        }
        assert forall|i: int| !separator_at(buf@, i) by {
            if separator_at(buf@, i) && i >= idx {
                assert(i + 4 <= len);
            }
        }
        None
    }

    /// The HTTP/1.0 request for the device information page, given the text
    /// of the device's IP address and the port of its web server.
    pub fn fetch_request(ip_text: &str, port: u16) -> (r: String)
        ensures
            r@ == request_text(ip_text@, port),
    {
        let mut req = String::from_str("GET /cgi-bin/get_resol_device_information HTTP/1.0\r\nHost: ");
        req.append(ip_text);
        if port != 80 {
            req.append(":");
            let digits = decimal_string(port as u64);
            req.append(digits.as_str());
        }
        req.append("\r\nUser-Agent: async-resol-vbus.rs\r\n\r\n");
        proof {
            let host = if port == 80 {
                ip_text@
            } else {
                ip_text@ + ":"@ + decimal(port as nat)
            };
            assert(req@ =~= request_text(ip_text@, port));
        }
        req
    }

    /// The device information in the HTTP response `response` from the device
    /// at `address`: the body after the first CR LF CR LF, decoded as UTF-8,
    /// then parsed.
    pub fn from_http_response(address: DeviceAddress, response: &[u8]) -> (r: Result<DeviceInformation>)
        ensures
            http_body_start(response@) is None ==> (r matches Err(e) && e@ == "No HTTP header separator found"@),
            http_body_start(response@) matches Some(i) ==> {
                let body = response@.subrange(i, response@.len() as int);
                &&& !valid_utf8(body) ==> r is Err
                &&& valid_utf8(body) ==> (r matches Ok(info) && info@ == parsed(address, decode_utf8(body)))
            },
    {
        let idx = match DeviceInformation::find_http_body_idx(response) {
            Some(idx) => idx,
            None => return Err(Error::new("No HTTP header separator found")),
        };
        let body = slice_subrange(response, idx, response.len());
        match utf8_to_string(body) {
            Ok(text) => DeviceInformation::parse(address, text.as_str()),
            Err(e) => Err(Error::new(utf8_error_message(&e).as_str())),
        }
    }

    /// Parses the device information page `s` of the device at `address`.
    ///
    /// Each line of the form `KEY = "VALUE"` whose key is one of `vendor`,
    /// `product`, `serial`, `version`, `build`, `name` or `features` (in any
    /// ASCII letter case) sets that field; a later line wins. Other lines are
    /// ignored. Parsing always succeeds.
    pub fn parse(address: DeviceAddress, s: &str) -> (r: Result<DeviceInformation>)
        ensures
            r matches Ok(info) && info@ == parsed(address, s@),
    {
        let n = s.unicode_len();
        let mut vendor: Option<String> = None;
        let mut product: Option<String> = None;
        let mut serial: Option<String> = None;
        let mut version: Option<String> = None;
        let mut build: Option<String> = None;
        let mut name: Option<String> = None;
        let mut features: Option<String> = None;
        let mut p: usize = 0;
        let ghost mut done: Seq<Seq<char>> = Seq::empty();
        assert(s@.subrange(0, n as int) =~= s@);
        while p < n
            invariant
                n == s@.len(),
                p <= n,
                lines(s@) == done + lines(s@.subrange(p as int, n as int)),
                opt_view(vendor) == field_value(done, "vendor"@),
                opt_view(product) == field_value(done, "product"@),
                opt_view(serial) == field_value(done, "serial"@),
                opt_view(version) == field_value(done, "version"@),
                opt_view(build) == field_value(done, "build"@),
                opt_view(name) == field_value(done, "name"@),
                opt_view(features) == field_value(done, "features"@),
            decreases n - p,
        {
            let mut e = p;
            while e < n && s.get_char(e) != '\n'
                invariant
                    n == s@.len(),
                    p <= e <= n,
                    forall|i: int| p <= i < e ==> s@[i] != '\n',
                decreases n - e,
            {
                e = e + 1;
            }
            let line_end = if e < n && e > p && s.get_char(e - 1) == '\r' {
                e - 1
            } else {
                e
            };
            let ghost line = s@.subrange(p as int, line_end as int);
            proof {
                lemma_lines_step(s@, p as int, e as int);
                if e < n {
                    assert(strip_cr(s@.subrange(p as int, e as int)) =~= line);
                }
            }
            let ghost rest = if e < n {
                s@.subrange(e + 1, n as int)
            } else {
                s@.subrange(n as int, n as int)
            };
            assert(lines(s@.subrange(p as int, n as int)) == seq![line] + lines(rest));
            let (phase, key_end, value_start, value_end) = scan_line(s, p, line_end);
            if phase == Phase::AfterValueEndQuote {
                let key = s.substring_char(p, p + key_end);
                let value = s.substring_char(p + value_start, p + value_end);
                assert(key@ =~= line.subrange(0, key_end as int));
                assert(value@ =~= line.subrange(value_start as int, value_end as int));
                if str_eq_ignore_ascii_case(key, "vendor") {
                    vendor = Some(value.to_string());
                }
                if str_eq_ignore_ascii_case(key, "product") {
                    product = Some(value.to_string());
                }
                if str_eq_ignore_ascii_case(key, "serial") {
                    serial = Some(value.to_string());
                }
                if str_eq_ignore_ascii_case(key, "version") {
                    version = Some(value.to_string());
                }
                if str_eq_ignore_ascii_case(key, "build") {
                    build = Some(value.to_string());
                }
                if str_eq_ignore_ascii_case(key, "name") {
                    name = Some(value.to_string());
                }
                if str_eq_ignore_ascii_case(key, "features") {
                    features = Some(value.to_string());
                }
            }
            proof {
                let ghost prev = done;
                done = done.push(line);
                assert(done.drop_last() =~= prev);
                assert(done.last() == line);
                assert(prev + (seq![line] + lines(rest)) =~= done + lines(rest));
            }
            p = if e < n {
                e + 1
            } else {
                n
            };
        }
        assert(lines(s@.subrange(n as int, n as int)) =~= Seq::empty());
        assert(done + Seq::<Seq<char>>::empty() =~= done);
        Ok(DeviceInformation { address, vendor, product, serial, version, build, name, features })
    }
}

// ---------------------------------------------------------------------------
// Formatting

/// The line `KEY = "VALUE"`.
pub open spec fn field_line(key: Seq<char>, value: Seq<char>) -> Seq<char> {
    key + " = \""@ + value + "\""@
}

/// The line for an optional field, with its line feed, or nothing.
pub open spec fn field_text(key: Seq<char>, value: Option<Seq<char>>) -> Seq<char> {
    match value {
        Some(v) => field_line(key, v) + "\n"@,
        None => Seq::empty(),
    }
}

/// The lines for the known fields of `info` that are present.
pub open spec fn known_fields_text(info: DeviceInformationView) -> Seq<char> {
    field_text("vendor"@, info.vendor) + (field_text("product"@, info.product) + (field_text("serial"@, info.serial)
        + (field_text("version"@, info.version) + (field_text("build"@, info.build) + (field_text("name"@, info.name)
        + field_text("features"@, info.features))))))
}

fn field_string(key: &str, value: &Option<String>) -> (r: String)
    ensures
        r@ == field_text(key@, opt_view(*value)),
{
    match value {
        Some(v) => {
            let mut out = String::from_str(key);
            out.append(" = \"");
            out.append(v.as_str());
            out.append("\"\n");
            proof {
                reveal_strlit(" = \"");
                reveal_strlit("\"\n");
                reveal_strlit("\"");
                reveal_strlit("\n");
                assert(out@ =~= field_text(key@, opt_view(*value)));
            }
            out
        },
        None => String::new(),
    }
}

/// The known fields of `info` that are present, one `KEY = "VALUE"` line each,
/// in the order vendor, product, serial, version, build, name, features.
pub fn fmt_known_fields(info: &DeviceInformation) -> (r: String)
    ensures
        r@ == known_fields_text(info@),
{
    let mut out = field_string("features", &info.features);
    out = field_string("name", &info.name).concat(out.as_str());
    out = field_string("build", &info.build).concat(out.as_str());
    out = field_string("version", &info.version).concat(out.as_str());
    out = field_string("serial", &info.serial).concat(out.as_str());
    out = field_string("product", &info.product).concat(out.as_str());
    out = field_string("vendor", &info.vendor).concat(out.as_str());
    out
}

// ---------------------------------------------------------------------------
// Laws

proof fn lemma_field_value_concat(a: Seq<Seq<char>>, b: Seq<Seq<char>>, key: Seq<char>)
    ensures
        field_value(a + b, key) == match field_value(b, key) {
            Some(v) => Some(v),
            None => field_value(a, key),
        },
    decreases b.len(),
{
    if b.len() == 0 {
        assert(a + b =~= a);
    } else {
        assert((a + b).last() == b.last());
        assert((a + b).drop_last() =~= a + b.drop_last());
        lemma_field_value_concat(a, b.drop_last(), key);
    }
}

/// Whether `line` sets one of the fields of the record.
pub open spec fn is_known_key_line(line: Seq<char>) -> bool {
    match line_entry(line) {
        Some((k, v)) => eq_ignore_ascii_case(k, "vendor"@) || eq_ignore_ascii_case(k, "product"@)
            || eq_ignore_ascii_case(k, "serial"@) || eq_ignore_ascii_case(k, "version"@)
            || eq_ignore_ascii_case(k, "build"@) || eq_ignore_ascii_case(k, "name"@)
            || eq_ignore_ascii_case(k, "features"@),
        None => false,
    }
}

proof fn lemma_ignored_line(a: Seq<Seq<char>>, line: Seq<char>, b: Seq<Seq<char>>, key: Seq<char>)
    requires
        line_entry(line) matches Some((k, v)) ==> !eq_ignore_ascii_case(k, key),
    ensures
        field_value(a + seq![line] + b, key) == field_value(a + b, key),
{
    lemma_field_value_concat(a + seq![line], b, key);
    lemma_field_value_concat(a, seq![line], key);
    lemma_field_value_concat(a, b, key);
    assert(seq![line].drop_last() =~= Seq::<Seq<char>>::empty());
    assert(seq![line].last() == line);
    assert(field_value(Seq::<Seq<char>>::empty(), key) is None);
    assert(field_value(seq![line], key) is None);
}

/// A line whose key is not one of the known ones (or that is not a
/// `KEY = "VALUE"` line at all) does not change the parsed record, wherever it
/// stands among the lines.
pub proof fn lemma_unknown_key_ignored(address: DeviceAddress, ls: Seq<Seq<char>>, i: int, line: Seq<char>)
    requires
        0 <= i <= ls.len(),
        !is_known_key_line(line),
    ensures
        record_of_lines(address, ls.insert(i, line)) == record_of_lines(address, ls),
{
    let a = ls.subrange(0, i);
    let b = ls.subrange(i, ls.len() as int);
    assert(ls.insert(i, line) =~= a + seq![line] + b);
    assert(ls =~= a + b);
    lemma_ignored_line(a, line, b, "vendor"@);
    lemma_ignored_line(a, line, b, "product"@);
    lemma_ignored_line(a, line, b, "serial"@);
    lemma_ignored_line(a, line, b, "version"@);
    lemma_ignored_line(a, line, b, "build"@);
    lemma_ignored_line(a, line, b, "name"@);
    lemma_ignored_line(a, line, b, "features"@);
}

proof fn lemma_first_newline_facts(s: Seq<char>)
    ensures
        0 <= first_newline(s) <= s.len(),
        forall|i: int| 0 <= i < first_newline(s) ==> s[i] != '\n',
        first_newline(s) < s.len() ==> s[first_newline(s)] == '\n',
    decreases s.len(),
{
    if s.len() > 0 && s[0] != '\n' {
        lemma_first_newline_facts(s.drop_first());
        assert forall|i: int| 0 <= i < first_newline(s) implies s[i] != '\n' by {
            if i > 0 {
                assert(s[i] == s.drop_first()[i - 1]);
            }
        }
    }
}

/// The lines of a text that ends with a line feed (or is empty), followed by
/// more text, are its own lines followed by those of the rest.
proof fn lemma_lines_concat(a: Seq<char>, rest: Seq<char>)
    requires
        a.len() == 0 || a.last() == '\n',
    ensures
        lines(a + rest) == lines(a) + lines(rest),
    decreases a.len(),
{
    if a.len() == 0 {
        assert(a + rest =~= rest);
        assert(lines(a) + lines(rest) =~= lines(rest));
    } else {
        lemma_first_newline_facts(a);
        let e = first_newline(a);
        assert(e < a.len()) by {
            if e == a.len() {
                assert(a[a.len() - 1] != '\n');
            }
        }
        let s = a + rest;
        lemma_first_newline(s, e);
        assert(s.subrange(0, e) =~= a.subrange(0, e));
        let a2 = a.subrange(e + 1, a.len() as int);
        assert(s.subrange(e + 1, s.len() as int) =~= a2 + rest);
        if a2.len() > 0 {
            assert(a2.last() == a.last());
        }
        lemma_lines_concat(a2, rest);
        let l = seq![strip_cr(a.subrange(0, e))];
        assert(lines(s) == l + lines(a2 + rest));
        assert(lines(a) == l + lines(a2));
        assert(l + (lines(a2) + lines(rest)) =~= (l + lines(a2)) + lines(rest));
    }
}

/// Inserting a whole line (ended by a line feed) whose key is not one of the
/// known ones into a text, before any of its lines or after its last line
/// feed, leaves the parsed record as it was.
pub proof fn lemma_unknown_key_line_ignored_in_text(
    address: DeviceAddress,
    before: Seq<char>,
    line: Seq<char>,
    after: Seq<char>,
)
    requires
        before.len() == 0 || before.last() == '\n',
        forall|i: int| 0 <= i < line.len() ==> line[i] != '\n',
        !is_known_key_line(strip_cr(line)),
    ensures
        parsed(address, before + line + "\n"@ + after) == parsed(address, before + after),
{
    reveal_strlit("\n");
    let t = line + "\n"@ + after;
    assert(before + line + "\n"@ + after =~= before + t);
    lemma_lines_concat(before, t);
    lemma_lines_concat(before, after);
    lemma_first_newline(t, line.len() as int);
    assert(t.subrange(0, line.len() as int) =~= line);
    assert(t.subrange(line.len() as int + 1, t.len() as int) =~= after);
    assert(lines(t) == seq![strip_cr(line)] + lines(after));
    let la = lines(before);
    let lb = lines(after);
    lemma_unknown_key_ignored(address, la + lb, la.len() as int, strip_cr(line));
    assert((la + lb).insert(la.len() as int, strip_cr(line)) =~= la + (seq![strip_cr(line)] + lb));
}

proof fn lemma_scan_in_key(line: Seq<char>, n: nat)
    requires
        n <= line.len(),
        forall|i: int| 0 <= i < n ==> is_word_char(line[i]),
    ensures
        scan_prefix(line, n) == (Phase::InKey, 0int, 0int, 0int),
    decreases n,
{
    if n > 0 {
        lemma_scan_in_key(line, (n - 1) as nat);
    }
}

proof fn lemma_scan_in_value(line: Seq<char>, start: nat, n: nat, key_end: int)
    requires
        start <= n <= line.len(),
        scan_prefix(line, start) == (Phase::InValue, key_end, start as int, 0int),
        forall|i: int| start <= i < n ==> line[i] != '"',
    ensures
        scan_prefix(line, n) == (Phase::InValue, key_end, start as int, 0int),
    decreases n - start,
{
    if n > start {
        lemma_scan_in_value(line, start, (n - 1) as nat, key_end);
    }
}

/// Whether `v` can stand between the quotes of a line and be read back.
pub open spec fn is_plain_value(v: Seq<char>) -> bool {
    forall|i: int| 0 <= i < v.len() ==> v[i] != '"' && v[i] != '\n'
}

proof fn lemma_field_line_entry(k: Seq<char>, v: Seq<char>)
    requires
        forall|i: int| 0 <= i < k.len() ==> is_word_char(k[i]),
        is_plain_value(v),
    ensures
        line_entry(field_line(k, v)) == Some((k, v)),
{
    reveal_strlit(" = \"");
    reveal_strlit("\"");
    let line = field_line(k, v);
    let kl = k.len() as int;
    let vl = v.len() as int;
    assert(line.len() == kl + 5 + vl);
    assert forall|i: int| 0 <= i < kl implies line[i] == k[i] by {}
    lemma_scan_in_key(line, kl as nat);
    assert(line[kl] == ' ');
    assert(line[kl + 1] == '=');
    assert(line[kl + 2] == ' ');
    assert(line[kl + 3] == '"');
    assert(scan_prefix(line, (kl + 1) as nat) == (Phase::WaitingForEquals, kl, 0int, 0int));
    assert(scan_prefix(line, (kl + 2) as nat) == (Phase::WaitingForValueStartQuote, kl, 0int, 0int));
    assert(scan_prefix(line, (kl + 3) as nat) == (Phase::WaitingForValueStartQuote, kl, 0int, 0int));
    assert(scan_prefix(line, (kl + 4) as nat) == (Phase::InValue, kl, kl + 4, 0int));
    assert forall|i: int| kl + 4 <= i < kl + 4 + vl implies line[i] != '"' by {
        assert(line[i] == v[i - kl - 4]);
    }
    lemma_scan_in_value(line, (kl + 4) as nat, (kl + 4 + vl) as nat, kl);
    assert(line[kl + 4 + vl] == '"');
    assert(scan_prefix(line, line.len()) == (Phase::AfterValueEndQuote, kl, kl + 4, kl + 4 + vl));
    assert(line.subrange(0, kl) =~= k);
    assert(line.subrange(kl + 4, kl + 4 + vl) =~= v);
}

/// The lines of the text for an optional field followed by `rest`.
proof fn lemma_lines_field_text(k: Seq<char>, value: Option<Seq<char>>, rest: Seq<char>)
    requires
        forall|i: int| 0 <= i < k.len() ==> is_word_char(k[i]),
        value matches Some(v) ==> is_plain_value(v),
    ensures
        lines(field_text(k, value) + rest) == match value {
            Some(v) => seq![field_line(k, v)] + lines(rest),
            None => lines(rest),
        },
{
    reveal_strlit(" = \"");
    reveal_strlit("\"");
    reveal_strlit("\n");
    match value {
        Some(v) => {
            let line = field_line(k, v);
            let s = field_text(k, value) + rest;
            let e = line.len() as int;
            assert(s.len() > 0);
            assert forall|i: int| 0 <= i < e implies s[i] != '\n' by {
                assert(s[i] == line[i]);
                if i < k.len() {
                    assert(line[i] == k[i]);
                } else if k.len() + 4 <= i < k.len() + 4 + v.len() {
                    assert(line[i] == v[i - k.len() - 4]);
                }
            }
            assert(s[e] == '\n');
            lemma_first_newline(s, e);
            assert(s.subrange(0, e) =~= line);
            assert(line.last() == '"');
            assert(s.subrange(e + 1, s.len() as int) =~= rest);
        },
        None => {
            assert(field_text(k, value) + rest =~= rest);
        },
    }
}

/// The lines of one optional field.
pub open spec fn field_lines(k: Seq<char>, value: Option<Seq<char>>) -> Seq<Seq<char>> {
    match value {
        Some(v) => seq![field_line(k, v)],
        None => Seq::empty(),
    }
}

proof fn lemma_field_lines_value(k: Seq<char>, value: Option<Seq<char>>, key: Seq<char>)
    requires
        forall|i: int| 0 <= i < k.len() ==> is_word_char(k[i]),
        value matches Some(v) ==> is_plain_value(v),
    ensures
        field_value(field_lines(k, value), key) == if eq_ignore_ascii_case(k, key) {
            value
        } else {
            None
        },
{
    assert(field_value(Seq::<Seq<char>>::empty(), key) is None);
    if let Some(v) = value {
        lemma_field_line_entry(k, v);
        let ls = field_lines(k, value);
        assert(ls.last() == field_line(k, v));
        assert(ls.drop_last() =~= Seq::<Seq<char>>::empty());
    }
}

spec fn ind(b: bool) -> int {
    if b {
        1
    } else {
        0
    }
}

/// The value of `key` among the lines of the seven known fields, when at most
/// one of the seven names equals `key`.
proof fn lemma_known_field(info: DeviceInformationView, key: Seq<char>)
    requires
        known_values_plain(info),
        ind(eq_ignore_ascii_case("vendor"@, key)) + ind(eq_ignore_ascii_case("product"@, key))
            + ind(eq_ignore_ascii_case("serial"@, key)) + ind(eq_ignore_ascii_case("version"@, key))
            + ind(eq_ignore_ascii_case("build"@, key)) + ind(eq_ignore_ascii_case("name"@, key))
            + ind(eq_ignore_ascii_case("features"@, key)) <= 1,
    ensures
        field_value(known_lines(info), key) == if eq_ignore_ascii_case("features"@, key) {
            info.features
        } else if eq_ignore_ascii_case("name"@, key) {
            info.name
        } else if eq_ignore_ascii_case("build"@, key) {
            info.build
        } else if eq_ignore_ascii_case("version"@, key) {
            info.version
        } else if eq_ignore_ascii_case("serial"@, key) {
            info.serial
        } else if eq_ignore_ascii_case("product"@, key) {
            info.product
        } else if eq_ignore_ascii_case("vendor"@, key) {
            info.vendor
        } else {
            None
        },
{
    lemma_keys_are_words();
    let l1 = field_lines("vendor"@, info.vendor);
    let l2 = field_lines("product"@, info.product);
    let l3 = field_lines("serial"@, info.serial);
    let l4 = field_lines("version"@, info.version);
    let l5 = field_lines("build"@, info.build);
    let l6 = field_lines("name"@, info.name);
    let l7 = field_lines("features"@, info.features);
    lemma_field_lines_value("vendor"@, info.vendor, key);
    lemma_field_lines_value("product"@, info.product, key);
    lemma_field_lines_value("serial"@, info.serial, key);
    lemma_field_lines_value("version"@, info.version, key);
    lemma_field_lines_value("build"@, info.build, key);
    lemma_field_lines_value("name"@, info.name, key);
    lemma_field_lines_value("features"@, info.features, key);
    lemma_field_value_concat(l6, l7, key);
    lemma_field_value_concat(l5, l6 + l7, key);
    lemma_field_value_concat(l4, l5 + (l6 + l7), key);
    lemma_field_value_concat(l3, l4 + (l5 + (l6 + l7)), key);
    lemma_field_value_concat(l2, l3 + (l4 + (l5 + (l6 + l7))), key);
    lemma_field_value_concat(l1, l2 + (l3 + (l4 + (l5 + (l6 + l7)))), key);
}

/// The lines of the seven known fields of `info` that are present.
pub open spec fn known_lines(info: DeviceInformationView) -> Seq<Seq<char>> {
    field_lines("vendor"@, info.vendor) + (field_lines("product"@, info.product) + (field_lines("serial"@, info.serial)
        + (field_lines("version"@, info.version) + (field_lines("build"@, info.build) + (field_lines("name"@, info.name)
        + field_lines("features"@, info.features))))))
}

/// Whether every known field of `info` that is present holds a plain value.
pub open spec fn known_values_plain(info: DeviceInformationView) -> bool {
    &&& (info.vendor matches Some(v) ==> is_plain_value(v))
    &&& (info.product matches Some(v) ==> is_plain_value(v))
    &&& (info.serial matches Some(v) ==> is_plain_value(v))
    &&& (info.version matches Some(v) ==> is_plain_value(v))
    &&& (info.build matches Some(v) ==> is_plain_value(v))
    &&& (info.name matches Some(v) ==> is_plain_value(v))
    &&& (info.features matches Some(v) ==> is_plain_value(v))
}

proof fn lemma_keys_are_words()
    ensures
        forall|i: int| 0 <= i < "vendor"@.len() ==> is_word_char(#[trigger] "vendor"@[i]),
        forall|i: int| 0 <= i < "product"@.len() ==> is_word_char(#[trigger] "product"@[i]),
        forall|i: int| 0 <= i < "serial"@.len() ==> is_word_char(#[trigger] "serial"@[i]),
        forall|i: int| 0 <= i < "version"@.len() ==> is_word_char(#[trigger] "version"@[i]),
        forall|i: int| 0 <= i < "build"@.len() ==> is_word_char(#[trigger] "build"@[i]),
        forall|i: int| 0 <= i < "name"@.len() ==> is_word_char(#[trigger] "name"@[i]),
        forall|i: int| 0 <= i < "features"@.len() ==> is_word_char(#[trigger] "features"@[i]),
{
    reveal_strlit("vendor");
    reveal_strlit("product");
    reveal_strlit("serial");
    reveal_strlit("version");
    reveal_strlit("build");
    reveal_strlit("name");
    reveal_strlit("features");
}

proof fn lemma_lines_known_fields(info: DeviceInformationView)
    requires
        known_values_plain(info),
    ensures
        lines(known_fields_text(info)) == known_lines(info),
{
    lemma_keys_are_words();
    let t1 = field_text("vendor"@, info.vendor);
    let t2 = field_text("product"@, info.product);
    let t3 = field_text("serial"@, info.serial);
    let t4 = field_text("version"@, info.version);
    let t5 = field_text("build"@, info.build);
    let t6 = field_text("name"@, info.name);
    let t7 = field_text("features"@, info.features);
    let e = Seq::<char>::empty();
    assert(t7 + e =~= t7);
    lemma_lines_field_text("features"@, info.features, e);
    lemma_lines_field_text("name"@, info.name, t7 + e);
    lemma_lines_field_text("build"@, info.build, t6 + (t7 + e));
    lemma_lines_field_text("version"@, info.version, t5 + (t6 + (t7 + e)));
    lemma_lines_field_text("serial"@, info.serial, t4 + (t5 + (t6 + (t7 + e))));
    lemma_lines_field_text("product"@, info.product, t3 + (t4 + (t5 + (t6 + (t7 + e)))));
    lemma_lines_field_text("vendor"@, info.vendor, t2 + (t3 + (t4 + (t5 + (t6 + (t7 + e))))));
    assert(lines(e) =~= Seq::<Seq<char>>::empty());
    let l7 = field_lines("features"@, info.features);
    assert(l7 + Seq::<Seq<char>>::empty() =~= l7);
}

/// Parsing the text that [`fmt_known_fields`] writes gives the record back,
/// when no value holds a double quote or a line feed.
pub proof fn lemma_parse_fmt_known_fields(info: DeviceInformationView)
    requires
        known_values_plain(info),
    ensures
        parsed(info.address, known_fields_text(info)) == info,
{
    reveal_strlit("vendor");
    reveal_strlit("product");
    reveal_strlit("serial");
    reveal_strlit("version");
    reveal_strlit("build");
    reveal_strlit("name");
    reveal_strlit("features");
    lemma_lines_known_fields(info);
    assert(!eq_ignore_ascii_case("serial"@, "vendor"@)) by {
        assert(ascii_lower("serial"@[0]) != ascii_lower("vendor"@[0]));
    }
    assert(!eq_ignore_ascii_case("version"@, "product"@)) by {
        assert(ascii_lower("version"@[0]) != ascii_lower("product"@[0]));
    }
    assert(!eq_ignore_ascii_case("product"@, "version"@)) by {
        assert(ascii_lower("product"@[0]) != ascii_lower("version"@[0]));
    }
    assert(!eq_ignore_ascii_case("vendor"@, "serial"@)) by {
        assert(ascii_lower("vendor"@[0]) != ascii_lower("serial"@[0]));
    }
    lemma_known_field(info, "vendor"@);
    lemma_known_field(info, "product"@);
    lemma_known_field(info, "serial"@);
    lemma_known_field(info, "version"@);
    lemma_known_field(info, "build"@);
    lemma_known_field(info, "name"@);
    lemma_known_field(info, "features"@);
}

} // verus!
