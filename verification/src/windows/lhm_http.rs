//! LibreHardwareMonitor's HTTP server: the endpoint URL, the HTTP/1.1
//! response (with chunked transfer coding), and how its sensors are sorted
//! into components and named.

use vstd::prelude::*;

use crate::bytes::{find_bytes, find_bytes_spec, slice_bytes, string_from_utf8, string_from_utf8_lossy, utf8_lossy};
use crate::temperature::model::{normalize_sensor_label, normalized_label, Component};
use crate::text::{
    all_radix_digits, chars_eq, chars_of, concat, contains, contains_chars, lines, lines_of,
    lower_seq, parse_unsigned, parse_unsigned_chars, rsplit_once, rsplit_once_chars, runs, runs_of,
    split_once, split_once_chars, starts_with, starts_with_chars, string_of, to_lower_chars, trim,
    trim_chars, CharClass,
};

verus! {

pub const COLLECTOR_NAME: &'static str = "windows_lhm_http";
pub const SOURCE: &'static str = "windows_lhm_http";

// ---------------------------------------------------------------------------
// URL
// ---------------------------------------------------------------------------

#[derive(Debug, Clone, PartialEq, Eq)]
pub struct HttpUrl {
    pub host: String,
    pub port: u16,
    pub path: String,
}

/// Why an endpoint URL is refused.
#[derive(Debug, Clone, Copy, PartialEq, Eq, Structural)]
pub enum HttpUrlError {
    /// It does not start with `http://`.
    MissingScheme,
    /// It names no host.
    EmptyHost,
    /// A `[` opens an IPv6 host that no `]` closes.
    InvalidIpv6Host,
    /// Something other than `:` follows a bracketed host.
    InvalidPortSeparator,
    /// The port is not a number from 0 to 65535.
    InvalidPort,
}

pub open spec fn port_spec(s: Seq<char>) -> Option<u16> {
    match parse_unsigned(s, 10, u16::MAX as nat) {
        Some(v) => Some(v as u16),
        None => None,
    }
}

/// The host and port of an authority: a bracketed IPv6 host with an
/// optional port, or a host with a numeric port after its last `:`, or
/// the whole authority on port 80.
pub open spec fn authority_spec(a: Seq<char>) -> Result<(Seq<char>, u16), HttpUrlError> {
    if a.len() > 0 && a[0] == '[' {
        match split_once(a.drop_first(), ']') {
            None => Err(HttpUrlError::InvalidIpv6Host),
            Some((host, after)) => if after.len() == 0 {
                Ok((host, 80u16))
            } else if after[0] != ':' {
                Err(HttpUrlError::InvalidPortSeparator)
            } else {
                match port_spec(after.drop_first()) {
                    Some(p) => Ok((host, p)),
                    None => Err(HttpUrlError::InvalidPort),
                }
            },
        }
    } else {
        match rsplit_once(a, ':') {
            Some((host, port)) => if all_radix_digits(port, 10) {
                match port_spec(port) {
                    Some(p) => Ok((host, p)),
                    None => Err(HttpUrlError::InvalidPort),
                }
            } else {
                Ok((a, 80u16))
            },
            None => Ok((a, 80u16)),
        }
    }
}

fn all_digits_chars(v: &[char]) -> (r: bool)
    ensures
        r == all_radix_digits(v@, 10),
{
    let mut i: usize = 0;
    while i < v.len()
        invariant
            0 <= i <= v@.len(),
            forall|k: int| 0 <= k < i ==> crate::text::is_radix_digit(#[trigger] v@[k], 10),
        decreases v.len() - i,
    {
        if !crate::text::is_ascii_digit(v[i]) {
            return false;
        }
        i += 1;
    }
    true
}

fn parse_port(s: &[char]) -> (r: Option<u16>)
    ensures
        r == port_spec(s@),
{
    match crate::text::parse_u16_chars(s) {
        Some(p) => Some(p),
        None => None,
    }
}

pub fn parse_http_authority(authority: &str) -> (r: Result<(String, u16), HttpUrlError>)
    ensures
        match r {
            Ok((h, p)) => authority_spec(authority@) == Ok::<(Seq<char>, u16), HttpUrlError>((h@, p)),
            Err(e) => authority_spec(authority@) == Err::<(Seq<char>, u16), HttpUrlError>(e),
        },
{
    let a = chars_of(authority);
    if a.len() > 0 && a[0] == '[' {
        let rest = crate::text::slice_chars(&a, 1, a.len());
        assert(rest@ =~= a@.drop_first());
        match split_once_chars(&rest, ']') {
            None => Err(HttpUrlError::InvalidIpv6Host),
            Some((host, after)) => {
                if after.len() == 0 {
                    Ok((string_of(&host), 80))
                } else if after[0] != ':' {
                    Err(HttpUrlError::InvalidPortSeparator)
                } else {
                    let p = crate::text::slice_chars(&after, 1, after.len());
                    assert(p@ =~= after@.drop_first());
                    match parse_port(&p) {
                        Some(port) => Ok((string_of(&host), port)),
                        None => Err(HttpUrlError::InvalidPort),
                    }
                }
            },
        }
    } else {
        match rsplit_once_chars(&a, ':') {
            Some((host, port)) => {
                if all_digits_chars(&port) {
                    match parse_port(&port) {
                        Some(p) => Ok((string_of(&host), p)),
                        None => Err(HttpUrlError::InvalidPort),
                    }
                } else {
                    Ok((string_of(&a), 80))
                }
            },
            None => Ok((string_of(&a), 80)),
        }
    }
}

/// An `http://` URL: the authority up to the first `/` (which must name a
/// host), and the path from there (`/` when there is none).
pub open spec fn url_spec(raw: Seq<char>) -> Result<(Seq<char>, u16, Seq<char>), HttpUrlError> {
    let t = trim(raw);
    if !starts_with(t, "http://"@) {
        Err(HttpUrlError::MissingScheme)
    } else {
        let rest = t.skip(7);
        let (authority, path) = match split_once(rest, '/') {
            Some((a, p)) => (a, seq!['/'] + p),
            None => (rest, seq!['/']),
        };
        if trim(authority).len() == 0 {
            Err(HttpUrlError::EmptyHost)
        } else {
            match authority_spec(authority) {
                Ok((host, port)) => Ok((host, port, path)),
                Err(e) => Err(e),
            }
        }
    }
}

pub fn parse_http_url(raw: &str) -> (r: Result<HttpUrl, HttpUrlError>)
    ensures
        match r {
            Ok(u) => url_spec(raw@) == Ok::<(Seq<char>, u16, Seq<char>), HttpUrlError>(
                (u.host@, u.port, u.path@),
            ),
            Err(e) => url_spec(raw@) == Err::<(Seq<char>, u16, Seq<char>), HttpUrlError>(e),
        },
{
    let t = trim_chars(&chars_of(raw));
    let scheme = chars_of("http://");
    proof {
        reveal_strlit("http://");
    }
    if !starts_with_chars(&t, &scheme) {
        return Err(HttpUrlError::MissingScheme);
    }
    let rest = crate::text::slice_chars(&t, 7, t.len());
    assert(rest@ =~= t@.skip(7));
    let (authority, path) = match split_once_chars(&rest, '/') {
        Some((a, p)) => {
            let mut slash = vec!['/'];
            assert(slash@ =~= seq!['/']);
            (a, crate::text::concat(&slash, &p))
        },
        None => {
            let slash = vec!['/'];
            assert(slash@ =~= seq!['/']);
            (rest, slash)
        },
    };
    if trim_chars(&authority).len() == 0 {
        return Err(HttpUrlError::EmptyHost);
    }
    let a = string_of(&authority);
    match parse_http_authority(a.as_str()) {
        Ok((host, port)) => Ok(HttpUrl { host, port, path: string_of(&path) }),
        Err(e) => Err(e),
    }
}

// ---------------------------------------------------------------------------
// Response
// ---------------------------------------------------------------------------

/// Why a response is refused.
#[derive(Debug, Clone, Copy, PartialEq, Eq, Structural)]
pub enum HttpResponseError {
    /// No blank line ends the headers.
    MissingHeaders,
    /// The headers hold no line.
    EmptyResponse,
    /// The status line has no second word.
    MissingStatusCode,
    /// The status code is not a number up to 65535.
    InvalidStatusCode,
    /// The status is not a success (2xx).
    Status(u16),
    /// A chunk size line has no line end.
    MissingChunkSizeTerminator,
    /// A chunk size line is not UTF-8.
    ChunkSizeNotUtf8,
    /// A chunk size is not hexadecimal.
    ChunkSizeNotHex,
    /// A chunk runs past the end of the response.
    ChunkExceedsResponse,
    /// A chunk is not followed by a line end.
    MissingChunkTerminator,
    /// The body is not UTF-8.
    BodyNotUtf8,
}

pub open spec fn crlf_crlf() -> Seq<u8> {
    seq![13u8, 10u8, 13u8, 10u8]
}

pub open spec fn lf_lf() -> Seq<u8> {
    seq![10u8, 10u8]
}

pub open spec fn crlf() -> Seq<u8> {
    seq![13u8, 10u8]
}

/// The headers and body of a response: split at the first blank line
/// (CRLF CRLF, or else LF LF).
pub open spec fn split_spec(b: Seq<u8>) -> Option<(Seq<u8>, Seq<u8>)> {
    match find_bytes_spec(b, crlf_crlf()) {
        Some(i) => Some((b.take(i), b.skip(i + 4))),
        None => match find_bytes_spec(b, lf_lf()) {
            Some(i) => Some((b.take(i), b.skip(i + 2))),
            None => None,
        },
    }
}

pub fn split_http_headers_body(bytes: &[u8]) -> (r: Option<(Vec<u8>, Vec<u8>)>)
    ensures
        match r {
            Some((h, body)) => split_spec(bytes@) == Some((h@, body@)),
            None => split_spec(bytes@) is None,
        },
{
    let sep = vec![13u8, 10u8, 13u8, 10u8];
    assert(sep@ =~= crlf_crlf());
    match find_bytes(bytes, &sep) {
        Some(i) => {
            proof {
                crate::bytes::lemma_find_bytes_found(bytes@, crlf_crlf());
            }
            let h = slice_bytes(bytes, 0, i);
            let b = slice_bytes(bytes, i + 4, bytes.len());
            assert(h@ =~= bytes@.take(i as int));
            assert(b@ =~= bytes@.skip(i + 4));
            Some((h, b))
        },
        None => {
            let sep2 = vec![10u8, 10u8];
            assert(sep2@ =~= lf_lf());
            match find_bytes(bytes, &sep2) {
                Some(i) => {
                    proof {
                        assert(sep2@ == lf_lf());
                        assert(find_bytes_spec(bytes@, lf_lf()) == Some(i as int));
                        crate::bytes::lemma_find_bytes_found(bytes@, lf_lf());
                        assert(lf_lf().len() == 2);
                        assert(i + 2 <= bytes@.len());
                    }
                    let h = slice_bytes(bytes, 0, i);
                    let b = slice_bytes(bytes, i + 2, bytes.len());
                    assert(h@ =~= bytes@.take(i as int));
                    assert(b@ =~= bytes@.skip(i + 2));
                    Some((h, b))
                },
                None => None,
            }
        },
    }
}

/// The text before the first `;` (chunk extensions are ignored).
pub open spec fn before_semicolon(s: Seq<char>) -> Seq<char> {
    match split_once(s, ';') {
        Some((a, _)) => a,
        None => s,
    }
}

/// The body of a chunked transfer from `index` on, after `out` was read:
/// a hexadecimal size line, the chunk, a line end; a size of 0 ends it.
pub open spec fn chunked_from(b: Seq<u8>, index: int, out: Seq<u8>) -> Result<Seq<u8>, HttpResponseError>
    decreases b.len() - index,
{
    if index < 0 || index > b.len() {
        Err(HttpResponseError::MissingChunkSizeTerminator)
    } else {
        match find_bytes_spec(b.skip(index), crlf()) {
            None => Err(HttpResponseError::MissingChunkSizeTerminator),
            Some(off) => {
                let line = b.subrange(index, index + off);
                if off < 0 || index + off + 2 > b.len() {
                    Err(HttpResponseError::MissingChunkSizeTerminator)
                } else if !vstd::utf8::valid_utf8(line) {
                    Err(HttpResponseError::ChunkSizeNotUtf8)
                } else {
                    match parse_unsigned(
                        trim(before_semicolon(vstd::utf8::decode_utf8(line))),
                        16,
                        usize::MAX as nat,
                    ) {
                        None => Err(HttpResponseError::ChunkSizeNotHex),
                        Some(size) => {
                            let start = index + off + 2;
                            if size == 0 {
                                Ok(out)
                            } else if start + size > b.len() {
                                Err(HttpResponseError::ChunkExceedsResponse)
                            } else {
                                let end = start + size;
                                let out2 = out + b.subrange(start, end);
                                if end + 2 <= b.len() && b.subrange(end, end + 2) == crlf() {
                                    chunked_from(b, end + 2, out2)
                                } else if end < b.len() && b[end] == 10 {
                                    chunked_from(b, end + 1, out2)
                                } else {
                                    Err(HttpResponseError::MissingChunkTerminator)
                                }
                            }
                        },
                    }
                }
            },
        }
    }
}

pub open spec fn chunked_spec(b: Seq<u8>) -> Result<Seq<u8>, HttpResponseError> {
    chunked_from(b, 0, seq![])
}

pub open spec fn bytes_result_view(r: Result<Vec<u8>, HttpResponseError>) -> Result<Seq<u8>, HttpResponseError> {
    match r {
        Ok(v) => Ok(v@),
        Err(e) => Err(e),
    }
}

pub fn decode_chunked_body(bytes: &[u8]) -> (r: Result<Vec<u8>, HttpResponseError>)
    ensures
        bytes_result_view(r) == chunked_spec(bytes@),
{
    let mut output: Vec<u8> = Vec::new();
    let mut index: usize = 0;
    let crlf_v = vec![13u8, 10u8];
    assert(crlf_v@ =~= crlf());
    assert(output@ =~= Seq::<u8>::empty());
    loop
        invariant
            0 <= index <= bytes@.len(),
            crlf_v@ == crlf(),
            chunked_spec(bytes@) == chunked_from(bytes@, index as int, output@),
        decreases bytes@.len() - index,
    {
        let rest = slice_bytes(bytes, index, bytes.len());
        assert(rest@ =~= bytes@.skip(index as int));
        let off = match find_bytes(&rest, &crlf_v) {
            Some(o) => o,
            None => {
                return Err(HttpResponseError::MissingChunkSizeTerminator);
            },
        };
        proof {
            crate::bytes::lemma_find_bytes_found(rest@, crlf());
        }
        let line_end = index + off;
        let line = slice_bytes(bytes, index, line_end);
        let text = match string_from_utf8(line) {
            Some(t) => t,
            None => {
                return Err(HttpResponseError::ChunkSizeNotUtf8);
            },
        };
        let tc = chars_of(text.as_str());
        let before = match split_once_chars(&tc, ';') {
            Some((a, _)) => a,
            None => tc,
        };
        let size_text = trim_chars(&before);
        let size = match parse_unsigned_chars(&size_text, 16, usize::MAX as u64) {
            Some(s) => s as usize,
            None => {
                return Err(HttpResponseError::ChunkSizeNotHex);
            },
        };
        let start = line_end + 2;
        if size == 0 {
            return Ok(output);
        }
        if size > bytes.len() - start {
            return Err(HttpResponseError::ChunkExceedsResponse);
        }
        let end = start + size;
        let chunk = slice_bytes(bytes, start, end);
        crate::bytes::append_bytes(&mut output, &chunk);
        if bytes.len() >= 2 && end <= bytes.len() - 2 && bytes[end] == 13 && bytes[end + 1] == 10 {
            assert(bytes@.subrange(end as int, end + 2) =~= crlf());
            index = end + 2;
        } else if end < bytes.len() && bytes[end] == 10 {
            proof {
                if end + 2 <= bytes@.len() {
                    assert(bytes@.subrange(end as int, end + 2) != crlf()) by {
                        assert(bytes@.subrange(end as int, end + 2)[0] == bytes@[end as int]);
                    }
                }
            }
            index = end + 1;
        } else {
            proof {
                if end + 2 <= bytes@.len() && bytes@.subrange(end as int, end + 2) == crlf() {
                    assert(bytes@.subrange(end as int, end + 2)[0] == bytes@[end as int]);
                    assert(bytes@.subrange(end as int, end + 2)[1] == bytes@[end + 1]);
                }
            }
            return Err(HttpResponseError::MissingChunkTerminator);
        }
    }
}

/// What a response's headers say: the status code (the second word of the
/// first line), and whether the body is chunked.
pub open spec fn status_code_spec(header_text: Seq<char>) -> Result<u16, HttpResponseError> {
    let ls = lines(header_text);
    if ls.len() == 0 {
        Err(HttpResponseError::EmptyResponse)
    } else {
        let words = runs(ls[0], CharClass::NonWhitespace);
        if words.len() < 2 {
            Err(HttpResponseError::MissingStatusCode)
        } else {
            match port_spec(words[1]) {
                Some(c) => Ok(c),
                None => Err(HttpResponseError::InvalidStatusCode),
            }
        }
    }
}

/// The body of a response, as text: a success status is required, and a
/// chunked body is decoded.
pub open spec fn response_spec(b: Seq<u8>) -> Result<Seq<char>, HttpResponseError> {
    match split_spec(b) {
        None => Err(HttpResponseError::MissingHeaders),
        Some((headers, body)) => {
            let header_text = utf8_lossy(headers);
            match status_code_spec(header_text) {
                Err(e) => Err(e),
                Ok(code) => if !(200 <= code < 300) {
                    Err(HttpResponseError::Status(code))
                } else {
                    let decoded = if contains(lower_seq(header_text), "transfer-encoding: chunked"@) {
                        chunked_spec(body)
                    } else {
                        Ok(body)
                    };
                    match decoded {
                        Err(e) => Err(e),
                        Ok(d) => if vstd::utf8::valid_utf8(d) {
                            Ok(vstd::utf8::decode_utf8(d))
                        } else {
                            Err(HttpResponseError::BodyNotUtf8)
                        },
                    }
                },
            }
        },
    }
}

pub fn parse_http_response(bytes: &[u8]) -> (r: Result<String, HttpResponseError>)
    ensures
        match r {
            Ok(s) => response_spec(bytes@) == Ok::<Seq<char>, HttpResponseError>(s@),
            Err(e) => response_spec(bytes@) == Err::<Seq<char>, HttpResponseError>(e),
        },
{
    let (headers, body) = match split_http_headers_body(bytes) {
        Some(p) => p,
        None => {
            return Err(HttpResponseError::MissingHeaders);
        },
    };
    let header_text = string_from_utf8_lossy(headers.as_slice());
    let hc = chars_of(header_text.as_str());
    let ls = lines_of(&hc);
    if ls.len() == 0 {
        return Err(HttpResponseError::EmptyResponse);
    }
    let words = runs_of(&ls[0], CharClass::NonWhitespace);
    if words.len() < 2 {
        return Err(HttpResponseError::MissingStatusCode);
    }
    let code = match parse_port(&words[1]) {
        Some(c) => c,
        None => {
            return Err(HttpResponseError::InvalidStatusCode);
        },
    };
    if code < 200 || code >= 300 {
        return Err(HttpResponseError::Status(code));
    }
    let chunked = contains_chars(&to_lower_chars(&hc), &chars_of("transfer-encoding: chunked"));
    let decoded = if chunked {
        match decode_chunked_body(body.as_slice()) {
            Ok(d) => d,
            Err(e) => {
                return Err(e);
            },
        }
    } else {
        body
    };
    match string_from_utf8(decoded) {
        Some(s) => Ok(s),
        None => Err(HttpResponseError::BodyNotUtf8),
    }
}

// ---------------------------------------------------------------------------
// Sensors
// ---------------------------------------------------------------------------

/// The component a sensor belongs to, from the words of its path in the
/// sensor tree (joined and lower-cased).
pub open spec fn component_for_text(t: Seq<char>) -> Component {
    if contains(t, "gpu"@) || contains(t, "radeon"@) || contains(t, "geforce"@) || contains(t, "nvidia"@) {
        Component::Gpu
    } else if contains(t, "cpu"@) || contains(t, "processor"@) || contains(t, "ryzen"@) || contains(
        t,
        "intel core"@,
    ) {
        Component::Cpu
    } else if contains(t, "storage"@) || contains(t, "hdd"@) || contains(t, "ssd"@) || contains(
        t,
        "nvme"@,
    ) || contains(t, "drive"@) || contains(t, "disk"@) {
        Component::Storage
    } else if contains(t, "motherboard"@) || contains(t, "superio"@) || contains(t, "super i/o"@)
        || contains(t, "mainboard"@) || contains(t, "vrm"@) || contains(t, "pch"@) || contains(
        t,
        "m2 #"@,
    ) || contains(t, "asus"@) || contains(t, "embedded controller"@) {
        Component::Motherboard
    } else if contains(t, "memory"@) || contains(t, "ram"@) {
        Component::Memory
    } else if contains(t, "network"@) || contains(t, "ethernet"@) || contains(t, "wifi"@) {
        Component::Network
    } else if contains(t, "fan"@) || contains(t, "pump"@) || contains(t, "cooler"@) {
        Component::Cooling
    } else if contains(t, "battery"@) {
        Component::Battery
    } else if contains(t, "acpi"@) || contains(t, "thermal zone"@) {
        Component::System
    } else {
        Component::Unknown
    }
}

pub open spec fn path_text(path: Seq<String>) -> Seq<char> {
    lower_seq(crate::text::join(path.map_values(|s: String| s@), seq![' ']))
}

fn has(t: &Vec<char>, word: &str) -> (r: bool)
    ensures
        r == contains(t@, word@),
{
    contains_chars(t, &chars_of(word))
}

fn path_text_chars(path: &[String]) -> (r: Vec<char>)
    ensures
        r@ == path_text(path@),
{
    let mut parts: Vec<Vec<char>> = Vec::new();
    let mut i: usize = 0;
    while i < path.len()
        invariant
            0 <= i <= path@.len(),
            parts@.len() == i,
            forall|k: int| 0 <= k < i ==> (#[trigger] parts@[k])@ == path@[k]@,
        decreases path.len() - i,
    {
        parts.push(chars_of(path[i].as_str()));
        i += 1;
    }
    let sep = vec![' '];
    assert(sep@ =~= seq![' ']);
    assert(parts@.map_values(|p: Vec<char>| p@) =~= path@.map_values(|s: String| s@));
    to_lower_chars(&crate::text::join_chars(&parts, &sep))
}

pub fn map_component(path: &[String]) -> (r: Component)
    ensures
        r == component_for_text(path_text(path@)),
{
    let t = path_text_chars(path);
    if has(&t, "gpu") || has(&t, "radeon") || has(&t, "geforce") || has(&t, "nvidia") {
        Component::Gpu
    } else if has(&t, "cpu") || has(&t, "processor") || has(&t, "ryzen") || has(&t, "intel core") {
        Component::Cpu
    } else if has(&t, "storage") || has(&t, "hdd") || has(&t, "ssd") || has(&t, "nvme") || has(
        &t,
        "drive",
    ) || has(&t, "disk") {
        Component::Storage
    } else if has(&t, "motherboard") || has(&t, "superio") || has(&t, "super i/o") || has(
        &t,
        "mainboard",
    ) || has(&t, "vrm") || has(&t, "pch") || has(&t, "m2 #") || has(&t, "asus") || has(
        &t,
        "embedded controller",
    ) {
        Component::Motherboard
    } else if has(&t, "memory") || has(&t, "ram") {
        Component::Memory
    } else if has(&t, "network") || has(&t, "ethernet") || has(&t, "wifi") {
        Component::Network
    } else if has(&t, "fan") || has(&t, "pump") || has(&t, "cooler") {
        Component::Cooling
    } else if has(&t, "battery") {
        Component::Battery
    } else if has(&t, "acpi") || has(&t, "thermal zone") {
        Component::System
    } else {
        Component::Unknown
    }
}

/// A LibreHardwareMonitor sensor label in normal form: the usual form,
/// with LibreHardwareMonitor's names for the package, core, hot spot,
/// memory junction and composite sensors shortened, and `temperature_N`
/// written `tempN`.
pub open spec fn lhm_label_spec(raw: Seq<char>) -> Seq<char> {
    let n = normalized_label(raw);
    if n == "cpu_package"@ || starts_with(n, "cpu_package_"@) {
        "package"@
    } else if n == "gpu_core"@ {
        "core"@
    } else if n == "gpu_hot_spot"@ {
        "hotspot"@
    } else if n == "gpu_memory_junction"@ {
        "memory_junction"@
    } else if n == "composite_temperature"@ {
        "composite"@
    } else if starts_with(n, "temperature_"@) {
        "temp"@ + n.skip(12)
    } else if n == "temperature"@ {
        "temp"@
    } else {
        n
    }
}

pub fn normalize_lhm_sensor_label(raw: &str) -> (r: String)
    ensures
        r@ == lhm_label_spec(raw@),
{
    let n = chars_of(normalize_sensor_label(raw).as_str());
    if chars_eq(&n, &chars_of("cpu_package")) || starts_with_chars(&n, &chars_of("cpu_package_")) {
        string_of(&chars_of("package"))
    } else if chars_eq(&n, &chars_of("gpu_core")) {
        string_of(&chars_of("core"))
    } else if chars_eq(&n, &chars_of("gpu_hot_spot")) {
        string_of(&chars_of("hotspot"))
    } else if chars_eq(&n, &chars_of("gpu_memory_junction")) {
        string_of(&chars_of("memory_junction"))
    } else if chars_eq(&n, &chars_of("composite_temperature")) {
        string_of(&chars_of("composite"))
    } else if starts_with_chars(&n, &chars_of("temperature_")) {
        proof {
            reveal_strlit("temperature_");
        }
        let suffix = crate::text::slice_chars(&n, 12, n.len());
        assert(suffix@ =~= n@.skip(12));
        string_of(&concat(&chars_of("temp"), &suffix))
    } else if chars_eq(&n, &chars_of("temperature")) {
        string_of(&chars_of("temp"))
    } else {
        string_of(&n)
    }
}

/// The normalised labels of a sensor allow- or denylist.
pub fn lhm_filter_set(values: &[String]) -> (r: Vec<String>)
    ensures
        r@.len() == values@.len(),
        forall|k: int| 0 <= k < r@.len() ==> (#[trigger] r@[k])@ == lhm_label_spec(values@[k]@),
{
    let mut out: Vec<String> = Vec::new();
    let mut i: usize = 0;
    while i < values.len()
        invariant
            0 <= i <= values@.len(),
            out@.len() == i,
            forall|k: int| 0 <= k < i ==> (#[trigger] out@[k])@ == lhm_label_spec(values@[k]@),
        decreases values.len() - i,
    {
        out.push(normalize_lhm_sensor_label(values[i].as_str()));
        i += 1;
    }
    out
}

/// A zero reading is a placeholder for storage, motherboard and unknown
/// sensors.
pub fn should_skip_zero_temperature(component: Component, is_zero: bool) -> (r: bool)
    ensures
        r == (is_zero && (component == Component::Storage || component == Component::Motherboard
            || component == Component::Unknown)),
{
    is_zero && (component == Component::Storage || component == Component::Motherboard || component
        == Component::Unknown)
}

/// What a sensor's value measures (from its unit).
#[derive(Debug, Clone, Copy, PartialEq, Eq, Structural)]
pub enum LhmValueKind {
    TemperatureCelsius,
    VoltageVolts,
    CurrentAmperes,
    PowerWatts,
    PowerLimitWatts,
    ClockHertz,
    UtilizationRatio,
    FanSpeedRpm,
    FanSpeedRatio,
    MemoryBytes,
}

pub open spec fn path_has(path: Seq<String>, needle: Seq<char>) -> bool {
    exists|k: int| 0 <= k < path.len() && contains(lower_seq(#[trigger] path[k]@), needle)
}

pub fn lhm_path_contains_text(path: &[String], needle: &str) -> (r: bool)
    ensures
        r == path_has(path@, needle@),
{
    let n = chars_of(needle);
    let mut i: usize = 0;
    while i < path.len()
        invariant
            0 <= i <= path@.len(),
            n@ == needle@,
            forall|k: int| 0 <= k < i ==> !contains(lower_seq(#[trigger] path@[k]@), needle@),
        decreases path.len() - i,
    {
        if contains_chars(&to_lower_chars(&chars_of(path[i].as_str())), &n) {
            return true;
        }
        i += 1;
    }
    false
}

/// The sensor name a temperature is published under, by component.
pub open spec fn temperature_sensor_spec(component: Component, path: Seq<String>, n: Seq<char>) -> Seq<char> {
    match component {
        Component::Cpu => if n == "package"@ || contains(n, "tctl"@) || contains(n, "tdie"@) {
            "cpu_package_temp"@
        } else if starts_with(n, "core"@) {
            "cpu_core_temp"@
        } else {
            "cpu_temp"@
        },
        Component::Gpu => if contains(n, "hotspot"@) || contains(n, "hot_spot"@) {
            "gpu_hotspot_temp"@
        } else if contains(n, "memory"@) {
            "gpu_memory_temp"@
        } else {
            "gpu_edge_temp"@
        },
        Component::Storage => if n == "composite"@ && path_has(path, "nvme"@) {
            "nvme_composite_temp"@
        } else if n == "composite"@ {
            "storage_composite_temp"@
        } else {
            "storage_sensor_temp"@
        },
        Component::Motherboard => if contains(n, "vrm"@) {
            "vrm_temp"@
        } else {
            "motherboard_temp"@
        },
        Component::Memory => "memory_temp"@,
        Component::Network => "network_temp"@,
        Component::Cooling => "cooling_temp"@,
        Component::System => "system_temp"@,
        Component::Battery => "battery_temp"@,
        Component::Unknown => n,
    }
}


/// How a GPU temperature is named: a hot spot is `gpu_hotspot_temp`; else a
/// memory temperature (junction included) is `gpu_memory_temp`, never the
/// edge; only what is neither is `gpu_edge_temp`. A CPU package (or Tctl,
/// Tdie) is `cpu_package_temp`, else a core `cpu_core_temp`; an NVMe drive's
/// composite temperature is `nvme_composite_temp`, any other storage sensor
/// but the composite `storage_sensor_temp`; a VRM is `vrm_temp`.
pub proof fn lemma_gpu_temperature_names(path: Seq<String>, n: Seq<char>)
    ensures
        (contains(n, "hotspot"@) || contains(n, "hot_spot"@)) ==> temperature_sensor_spec(
            Component::Gpu,
            path,
            n,
        ) == "gpu_hotspot_temp"@,
        (contains(n, "memory"@) && !contains(n, "hotspot"@) && !contains(n, "hot_spot"@)) ==> temperature_sensor_spec(
            Component::Gpu,
            path,
            n,
        ) == "gpu_memory_temp"@,
        (temperature_sensor_spec(Component::Gpu, path, n) == "gpu_edge_temp"@) == (!contains(n, "memory"@)
            && !contains(n, "hotspot"@) && !contains(n, "hot_spot"@)),
        (n == "package"@ || contains(n, "tctl"@) || contains(n, "tdie"@)) ==> temperature_sensor_spec(
            Component::Cpu,
            path,
            n,
        ) == "cpu_package_temp"@,
        !(n == "package"@ || contains(n, "tctl"@) || contains(n, "tdie"@)) && starts_with(n, "core"@)
            ==> temperature_sensor_spec(Component::Cpu, path, n) == "cpu_core_temp"@,
        n == "composite"@ && path_has(path, "nvme"@) ==> temperature_sensor_spec(Component::Storage, path, n)
            == "nvme_composite_temp"@,
        n != "composite"@ ==> temperature_sensor_spec(Component::Storage, path, n) == "storage_sensor_temp"@,
        contains(n, "vrm"@) ==> temperature_sensor_spec(Component::Motherboard, path, n) == "vrm_temp"@,
{
    reveal_strlit("gpu_edge_temp");
    reveal_strlit("gpu_memory_temp");
    reveal_strlit("gpu_hotspot_temp");
    assert("gpu_edge_temp"@.len() != "gpu_memory_temp"@.len());
    assert("gpu_edge_temp"@.len() != "gpu_hotspot_temp"@.len());
}
fn owned(s: &str) -> (r: String)
    ensures
        r@ == s@,
{
    string_of(&chars_of(s))
}

pub fn canonical_temperature_sensor(component: Component, path: &[String], normalized_sensor: &str) -> (r: String)
    ensures
        r@ == temperature_sensor_spec(component, path@, normalized_sensor@),
{
    let n = chars_of(normalized_sensor);
    match component {
        Component::Cpu => {
            if chars_eq(&n, &chars_of("package")) || contains_chars(&n, &chars_of("tctl"))
                || contains_chars(&n, &chars_of("tdie")) {
                owned("cpu_package_temp")
            } else if starts_with_chars(&n, &chars_of("core")) {
                owned("cpu_core_temp")
            } else {
                owned("cpu_temp")
            }
        },
        Component::Gpu => {
            if contains_chars(&n, &chars_of("hotspot")) || contains_chars(&n, &chars_of("hot_spot")) {
                owned("gpu_hotspot_temp")
            } else if contains_chars(&n, &chars_of("memory")) {
                owned("gpu_memory_temp")
            } else {
                owned("gpu_edge_temp")
            }
        },
        Component::Storage => {
            let composite = chars_eq(&n, &chars_of("composite"));
            if composite && lhm_path_contains_text(path, "nvme") {
                owned("nvme_composite_temp")
            } else if composite {
                owned("storage_composite_temp")
            } else {
                owned("storage_sensor_temp")
            }
        },
        Component::Motherboard => {
            if contains_chars(&n, &chars_of("vrm")) {
                owned("vrm_temp")
            } else {
                owned("motherboard_temp")
            }
        },
        Component::Memory => owned("memory_temp"),
        Component::Network => owned("network_temp"),
        Component::Cooling => owned("cooling_temp"),
        Component::System => owned("system_temp"),
        Component::Battery => owned("battery_temp"),
        Component::Unknown => string_of(&n),
    }
}

/// The sensor name a reading of a kind is published under.
pub open spec fn sensor_name_spec(kind: LhmValueKind, component: Component, path: Seq<String>, n: Seq<char>) -> Seq<char> {
    match kind {
        LhmValueKind::TemperatureCelsius => temperature_sensor_spec(component, path, n),
        LhmValueKind::VoltageVolts => n + "_voltage"@,
        LhmValueKind::CurrentAmperes => n + "_current"@,
        LhmValueKind::PowerWatts => n + "_power"@,
        LhmValueKind::PowerLimitWatts => n + "_power_limit"@,
        LhmValueKind::ClockHertz => n + "_clock"@,
        LhmValueKind::UtilizationRatio => n + "_utilization"@,
        LhmValueKind::FanSpeedRpm => if crate::text::ends_with(n, "_rpm"@) {
            n
        } else {
            n + "_rpm"@
        },
        LhmValueKind::FanSpeedRatio => if crate::text::ends_with(n, "_fan"@) {
            n + "_percent"@
        } else {
            n + "_fan_percent"@
        },
        LhmValueKind::MemoryBytes => n + "_memory"@,
    }
}

pub fn canonical_lhm_sensor_name(kind: LhmValueKind, component: Component, path: &[String], normalized_sensor: &str) -> (r: String)
    ensures
        r@ == sensor_name_spec(kind, component, path@, normalized_sensor@),
{
    let n = chars_of(normalized_sensor);
    let with = |suffix: &str| -> (r: String)
        ensures
            r@ == normalized_sensor@ + suffix@,
        { string_of(&concat(&chars_of(normalized_sensor), &chars_of(suffix))) };
    match kind {
        LhmValueKind::TemperatureCelsius => canonical_temperature_sensor(component, path, normalized_sensor),
        LhmValueKind::VoltageVolts => with("_voltage"),
        LhmValueKind::CurrentAmperes => with("_current"),
        LhmValueKind::PowerWatts => with("_power"),
        LhmValueKind::PowerLimitWatts => with("_power_limit"),
        LhmValueKind::ClockHertz => with("_clock"),
        LhmValueKind::UtilizationRatio => with("_utilization"),
        LhmValueKind::FanSpeedRpm => {
            if crate::text::ends_with_chars(&n, &chars_of("_rpm")) {
                string_of(&n)
            } else {
                with("_rpm")
            }
        },
        LhmValueKind::FanSpeedRatio => {
            if crate::text::ends_with_chars(&n, &chars_of("_fan")) {
                with("_percent")
            } else {
                with("_fan_percent")
            }
        },
        LhmValueKind::MemoryBytes => with("_memory"),
    }
}

/// The extra label a reading of a kind carries: the clock, the engine,
/// the limit, or the memory and its state.
pub open spec fn kind_labels_spec(kind: LhmValueKind, n: Seq<char>) -> Seq<(Seq<char>, Seq<char>)> {
    match kind {
        LhmValueKind::ClockHertz => seq![(
            "clock"@,
            if contains(n, "memory"@) {
                "memory"@
            } else if contains(n, "bus"@) {
                "bus"@
            } else {
                "core"@
            },
        )],
        LhmValueKind::UtilizationRatio => seq![(
            "engine"@,
            if contains(n, "memory"@) {
                "memory"@
            } else if contains(n, "video"@) {
                "video"@
            } else {
                "total"@
            },
        )],
        LhmValueKind::PowerLimitWatts => seq![("limit"@, "current"@)],
        LhmValueKind::MemoryBytes => seq![
            ("memory"@, "ram"@),
            (
                "state"@,
                if contains(n, "free"@) {
                    "free"@
                } else if contains(n, "used"@) {
                    "used"@
                } else {
                    "total"@
                },
            ),
        ],
        _ => seq![],
    }
}

pub fn lhm_kind_labels(kind: LhmValueKind, normalized_sensor: &str) -> (r: Vec<(&'static str, &'static str)>)
    ensures
        r@.map_values(|p: (&'static str, &'static str)| (p.0@, p.1@)) == kind_labels_spec(kind, normalized_sensor@),
{
    let n = chars_of(normalized_sensor);
    let mut out: Vec<(&'static str, &'static str)> = Vec::new();
    match kind {
        LhmValueKind::ClockHertz => {
            let clock = if contains_chars(&n, &chars_of("memory")) {
                "memory"
            } else if contains_chars(&n, &chars_of("bus")) {
                "bus"
            } else {
                "core"
            };
            out.push(("clock", clock));
        },
        LhmValueKind::UtilizationRatio => {
            let engine = if contains_chars(&n, &chars_of("memory")) {
                "memory"
            } else if contains_chars(&n, &chars_of("video")) {
                "video"
            } else {
                "total"
            };
            out.push(("engine", engine));
        },
        LhmValueKind::PowerLimitWatts => {
            out.push(("limit", "current"));
        },
        LhmValueKind::MemoryBytes => {
            out.push(("memory", "ram"));
            let state = if contains_chars(&n, &chars_of("free")) {
                "free"
            } else if contains_chars(&n, &chars_of("used")) {
                "used"
            } else {
                "total"
            };
            out.push(("state", state));
        },
        _ => {},
    }
    assert(out@.map_values(|p: (&'static str, &'static str)| (p.0@, p.1@)) =~= kind_labels_spec(kind, normalized_sensor@));
    out
}

/// The first part of a storage sensor's path that names a drive.
pub open spec fn drive_part(p: Seq<char>) -> bool {
    let l = lower_seq(p);
    contains(l, "nvme"@) || contains(l, "ssd"@) || contains(l, "hdd"@) || contains(l, "disk"@)
}

/// The `device_id` label of a sensor of a component.
pub open spec fn lhm_device_id_spec(component: Component, path: Seq<String>) -> Seq<char> {
    match component {
        Component::Cpu => "cpu0"@,
        Component::Gpu => "gpu0"@,
        Component::Storage => match crate::text::first_match(path.len() as int, |k: int| drive_part(path[k]@)) {
            Some(k) => "storage:"@ + normalized_label(path[k]@),
            None => "storage"@,
        },
        Component::Motherboard => "board"@,
        Component::Memory => "memory"@,
        Component::Network => "network"@,
        Component::Cooling => "cooling"@,
        Component::System => "system"@,
        Component::Battery => "battery"@,
        Component::Unknown => "unknown"@,
    }
}

pub fn lhm_device_id(component: Component, path: &[String]) -> (r: String)
    ensures
        r@ == lhm_device_id_spec(component, path@),
{
    match component {
        Component::Cpu => owned("cpu0"),
        Component::Gpu => owned("gpu0"),
        Component::Storage => {
            let ghost p = |k: int| drive_part(path@[k]@);
            let mut i: usize = 0;
            while i < path.len()
                invariant
                    0 <= i <= path@.len(),
                    component == Component::Storage,
                    p == (|k: int| drive_part(path@[k]@)),
                    forall|j: int| 0 <= j < i ==> !#[trigger] p(j),
                decreases path.len() - i,
            {
                let l = to_lower_chars(&chars_of(path[i].as_str()));
                if contains_chars(&l, &chars_of("nvme")) || contains_chars(&l, &chars_of("ssd"))
                    || contains_chars(&l, &chars_of("hdd")) || contains_chars(&l, &chars_of("disk")) {
                    proof {
                        assert(p(i as int));
                        crate::text::lemma_first_match_from(0, path@.len() as int, p, i as int);
                    }
                    let n = normalize_sensor_label(path[i].as_str());
                    return string_of(&concat(&chars_of("storage:"), &chars_of(n.as_str())));
                }
                assert(!p(i as int));
                i += 1;
            }
            proof {
                crate::text::lemma_first_match_from(0, path@.len() as int, p, i as int);
            }
            owned("storage")
        },
        Component::Motherboard => owned("board"),
        Component::Memory => owned("memory"),
        Component::Network => owned("network"),
        Component::Cooling => owned("cooling"),
        Component::System => owned("system"),
        Component::Battery => owned("battery"),
        Component::Unknown => owned("unknown"),
    }
}

/// Whether a provider that cannot be reached is a failure.
pub fn missing_provider_status(config: &crate::config::WindowsLhmHttpConfig) -> (r: &'static str)
    ensures
        r@ == (if config.require_provider {
            "missing_required_provider"@
        } else {
            "missing_provider"@
        }),
{
    if config.require_provider {
        "missing_required_provider"
    } else {
        "missing_provider"
    }
}

#[derive(Debug, Clone, PartialEq, Eq)]
pub struct WindowsLhmHttpDiscovery {
    pub enabled: bool,
    pub supported: bool,
    pub status: &'static str,
    pub url: String,
    pub sensor_count: usize,
    pub message: Option<String>,
}

/// What asking the provider gave: no answer (with a message), sensors
/// (with a message), or an error's text.
#[derive(Debug, Clone, PartialEq, Eq)]
pub enum LhmQueryOutcome {
    Unavailable(Option<String>),
    Sensors(usize, Option<String>),
    Failed(String),
}

/// The collector's configuration and the errors it has counted.
#[derive(Debug, Clone)]
pub struct WindowsLhmHttpCollector {
    pub config: crate::config::WindowsLhmHttpConfig,
    pub errors_total: u64,
}

impl WindowsLhmHttpCollector {
    pub fn new(config: crate::config::WindowsLhmHttpConfig) -> (r: Self)
        ensures
            r.config == config,
            r.errors_total == 0,
    {
        WindowsLhmHttpCollector { config, errors_total: 0 }
    }

    /// The discovery summary: disabled, or what the provider answered.
    pub fn discover_summary(config: &crate::config::WindowsLhmHttpConfig, outcome: LhmQueryOutcome) -> (r: WindowsLhmHttpDiscovery)
        ensures
            r.url@ == config.url@,
            !config.enabled ==> !r.enabled && !r.supported && r.status@ == "disabled"@
                && r.sensor_count == 0 && r.message is None,
            config.enabled ==> r.enabled && match outcome {
                LhmQueryOutcome::Unavailable(m) => !r.supported && r.status@ == (if config.require_provider {
                    "missing_required_provider"@
                } else {
                    "missing_provider"@
                }) && r.sensor_count == 0 && r.message == m,
                LhmQueryOutcome::Sensors(n, m) => r.supported && r.status@ == "available"@
                    && r.sensor_count == n && r.message == m,
                LhmQueryOutcome::Failed(e) => r.supported && r.status@ == "error"@ && r.sensor_count
                    == 0 && r.message == Some(e),
            },
    {
        let url = string_of(&chars_of(config.url.as_str()));
        if !config.enabled {
            return WindowsLhmHttpDiscovery {
                enabled: false,
                supported: false,
                status: "disabled",
                url,
                sensor_count: 0,
                message: None,
            };
        }
        match outcome {
            LhmQueryOutcome::Unavailable(m) => WindowsLhmHttpDiscovery {
                enabled: true,
                supported: false,
                status: missing_provider_status(config),
                url,
                sensor_count: 0,
                message: m,
            },
            LhmQueryOutcome::Sensors(n, m) => WindowsLhmHttpDiscovery {
                enabled: true,
                supported: true,
                status: "available",
                url,
                sensor_count: n,
                message: m,
            },
            LhmQueryOutcome::Failed(e) => WindowsLhmHttpDiscovery {
                enabled: true,
                supported: true,
                status: "error",
                url,
                sensor_count: 0,
                message: Some(e),
            },
        }
    }
}


// ---------------------------------------------------------------------------
// Temperature readings
// ---------------------------------------------------------------------------

/// What a sensor node of the JSON tree says: its path of names, its name,
/// and what its value was found to be (a plausible temperature, from -100
/// to 250 degrees; zero).
#[derive(Debug, Clone)]
pub struct LhmHttpSensorFacts {
    pub path: Vec<String>,
    pub name: String,
    pub value_valid: bool,
    pub value_is_zero: bool,
}

/// A sensor kept as a temperature reading: its position among the
/// sensors, its component, the sensor it is published as, and its
/// instance (numbered when repeated).
#[derive(Debug, Clone, PartialEq, Eq)]
pub struct LhmHttpReadingName {
    pub index: usize,
    pub component: Component,
    pub sensor: String,
    pub instance: String,
}

pub open spec fn http_in_set(set: Seq<Seq<char>>, n: Seq<char>) -> bool {
    exists|k: int| 0 <= k < set.len() && set[k] == n
}

pub open spec fn http_filter_set(values: Seq<String>) -> Seq<Seq<char>> {
    values.map_values(|v: String| lhm_label_spec(v@))
}

pub open spec fn node_component(s: LhmHttpSensorFacts) -> Component {
    component_for_text(path_text(s.path@))
}

pub open spec fn node_sensor(s: LhmHttpSensorFacts) -> Seq<char> {
    lhm_label_spec(s.name@)
}

pub open spec fn zero_placeholder(c: Component, is_zero: bool) -> bool {
    is_zero && (c == Component::Storage || c == Component::Motherboard || c == Component::Unknown)
}

/// Whether a sensor is a temperature reading that is reported.
pub open spec fn node_kept(
    s: LhmHttpSensorFacts,
    include_unknown: bool,
    allow: Seq<Seq<char>>,
    deny: Seq<Seq<char>>,
) -> bool {
    &&& s.value_valid
    &&& !zero_placeholder(node_component(s), s.value_is_zero)
    &&& (node_component(s) != Component::Unknown || include_unknown)
    &&& (allow.len() == 0 || http_in_set(allow, node_sensor(s)))
    &&& !http_in_set(deny, node_sensor(s))
}

/// The readings kept, in order: position, component, published sensor,
/// normalised name, and the number of kept readings so far (itself
/// included) with the same component, sensor and name.
pub open spec fn kept_nodes(
    rows: Seq<LhmHttpSensorFacts>,
    include_unknown: bool,
    allow: Seq<Seq<char>>,
    deny: Seq<Seq<char>>,
) -> Seq<(int, Component, Seq<char>, Seq<char>, nat)>
    decreases rows.len(),
{
    if rows.len() == 0 {
        seq![]
    } else {
        let prev = kept_nodes(rows.drop_last(), include_unknown, allow, deny);
        let s = rows.last();
        if node_kept(s, include_unknown, allow, deny) {
            let c = node_component(s);
            let sensor = temperature_sensor_spec(c, s.path@, node_sensor(s));
            prev.push(
                (rows.len() - 1, c, sensor, node_sensor(s), same_node_count(prev, c, sensor, node_sensor(s)) + 1),
            )
        } else {
            prev
        }
    }
}

pub open spec fn same_node_count(
    prev: Seq<(int, Component, Seq<char>, Seq<char>, nat)>,
    c: Component,
    sensor: Seq<char>,
    n: Seq<char>,
) -> nat
    decreases prev.len(),
{
    if prev.len() == 0 {
        0
    } else {
        same_node_count(prev.drop_last(), c, sensor, n) + if prev.last().1 == c && prev.last().2
            == sensor && prev.last().3 == n {
            1nat
        } else {
            0nat
        }
    }
}

/// The instance of a reading: the second and later ones with the same
/// component, sensor and name get their number as a suffix.
pub open spec fn numbered_instance(n: Seq<char>, count: nat) -> Seq<char> {
    if count > 1 {
        n + seq!['_'] + crate::text::decimal(count)
    } else {
        n
    }
}

fn chars_list(values: &Vec<String>) -> (r: Vec<Vec<char>>)
    ensures
        r@.len() == values@.len(),
        forall|k: int| 0 <= k < r@.len() ==> (#[trigger] r@[k])@ == http_filter_set(values@)[k],
{
    let normalized = lhm_filter_set(values.as_slice());
    let mut out: Vec<Vec<char>> = Vec::new();
    let mut i: usize = 0;
    while i < normalized.len()
        invariant
            0 <= i <= normalized@.len() == values@.len(),
            forall|k: int| 0 <= k < normalized@.len() ==> (#[trigger] normalized@[k])@ == lhm_label_spec(values@[k]@),
            out@.len() == i,
            forall|k: int| 0 <= k < i ==> (#[trigger] out@[k])@ == http_filter_set(values@)[k],
        decreases normalized.len() - i,
    {
        out.push(chars_of(normalized[i].as_str()));
        i += 1;
    }
    out
}

fn in_list(set: &Vec<Vec<char>>, n: &Vec<char>, ghost_set: Ghost<Seq<Seq<char>>>) -> (r: bool)
    requires
        set@.len() == ghost_set@.len(),
        forall|k: int| 0 <= k < set@.len() ==> (#[trigger] set@[k])@ == ghost_set@[k],
    ensures
        r == http_in_set(ghost_set@, n@),
{
    let mut i: usize = 0;
    while i < set.len()
        invariant
            0 <= i <= set@.len() == ghost_set@.len(),
            forall|k: int| 0 <= k < set@.len() ==> (#[trigger] set@[k])@ == ghost_set@[k],
            forall|k: int| 0 <= k < i ==> ghost_set@[k] != n@,
        decreases set.len() - i,
    {
        if chars_eq(&set[i], n) {
            return true;
        }
        i += 1;
    }
    false
}

/// The temperature readings among the sensors of the JSON tree and how
/// they are published: sensors without a plausible value, with a zero
/// placeholder, of an unknown component (unless asked for), or filtered by
/// the lists are dropped; a repeated component, sensor and name has its
/// instance numbered.
pub fn http_temperature_readings(
    config: &crate::config::WindowsLhmHttpConfig,
    rows: &Vec<LhmHttpSensorFacts>,
) -> (r: Vec<LhmHttpReadingName>)
    ensures
        r@.len() == kept_nodes(
            rows@,
            config.include_unknown_sensors,
            http_filter_set(config.sensor_allowlist@),
            http_filter_set(config.sensor_denylist@),
        ).len(),
        forall|k: int|
            0 <= k < r@.len() ==> {
                let e = #[trigger] kept_nodes(
                    rows@,
                    config.include_unknown_sensors,
                    http_filter_set(config.sensor_allowlist@),
                    http_filter_set(config.sensor_denylist@),
                )[k];
                &&& r@[k].index as int == e.0
                &&& r@[k].component == e.1
                &&& r@[k].sensor@ == e.2
                &&& r@[k].instance@ == numbered_instance(e.3, e.4)
            },
{
    let ghost allow_v = http_filter_set(config.sensor_allowlist@);
    let ghost deny_v = http_filter_set(config.sensor_denylist@);
    let ghost inc = config.include_unknown_sensors;
    let allow = chars_list(&config.sensor_allowlist);
    let deny = chars_list(&config.sensor_denylist);
    let mut kept: Vec<(Component, Vec<char>, Vec<char>)> = Vec::new();
    let mut out: Vec<LhmHttpReadingName> = Vec::new();
    let mut i: usize = 0;
    assert(rows@.take(0) =~= Seq::<LhmHttpSensorFacts>::empty());
    while i < rows.len()
        invariant
            0 <= i <= rows@.len(),
            allow@.len() == allow_v.len(),
            forall|k: int| 0 <= k < allow@.len() ==> (#[trigger] allow@[k])@ == allow_v[k],
            deny@.len() == deny_v.len(),
            forall|k: int| 0 <= k < deny@.len() ==> (#[trigger] deny@[k])@ == deny_v[k],
            inc == config.include_unknown_sensors,
            kept@.len() == out@.len() == kept_nodes(rows@.take(i as int), inc, allow_v, deny_v).len(),
            kept@.len() <= i,
            forall|k: int|
                0 <= k < kept@.len() ==> {
                    let e = #[trigger] kept_nodes(rows@.take(i as int), inc, allow_v, deny_v)[k];
                    &&& kept@[k].0 == e.1
                    &&& kept@[k].1@ == e.2
                    &&& kept@[k].2@ == e.3
                    &&& out@[k].index as int == e.0
                    &&& out@[k].component == e.1
                    &&& out@[k].sensor@ == e.2
                    &&& out@[k].instance@ == numbered_instance(e.3, e.4)
                },
        decreases rows.len() - i,
    {
        let ghost prev = kept_nodes(rows@.take(i as int), inc, allow_v, deny_v);
        let row = &rows[i];
        assert(rows@.take(i + 1).drop_last() =~= rows@.take(i as int));
        assert(rows@.take(i + 1).last() == rows@[i as int]);
        let component = map_component(row.path.as_slice());
        let normalized = chars_of(normalize_lhm_sensor_label(row.name.as_str()).as_str());
        let skip_zero = should_skip_zero_temperature(component, row.value_is_zero);
        let keep = row.value_valid && !skip_zero && (component != Component::Unknown
            || config.include_unknown_sensors) && (allow.len() == 0 || in_list(
            &allow,
            &normalized,
            Ghost(allow_v),
        )) && !in_list(&deny, &normalized, Ghost(deny_v));
        proof {
            assert(node_component(rows@[i as int]) == component);
            assert(node_sensor(rows@[i as int]) == normalized@);
            assert(keep == node_kept(rows@[i as int], inc, allow_v, deny_v));
        }
        if keep {
            let sensor = chars_of(
                canonical_temperature_sensor(component, row.path.as_slice(), string_of(&normalized).as_str()).as_str(),
            );
            let mut count: usize = 0;
            let mut j: usize = 0;
            while j < kept.len()
                invariant
                    0 <= j <= kept@.len() == prev.len(),
                    kept@.len() <= i,
                    forall|k: int|
                        0 <= k < kept@.len() ==> (#[trigger] kept@[k]).0 == prev[k].1 && kept@[k].1@
                            == prev[k].2 && kept@[k].2@ == prev[k].3,
                    count as nat == same_node_count(prev.take(j as int), component, sensor@, normalized@),
                    count <= j,
                decreases kept.len() - j,
            {
                assert(prev.take(j + 1).drop_last() =~= prev.take(j as int));
                assert(prev.take(j + 1).last() == prev[j as int]);
                if kept[j].0 == component && chars_eq(&kept[j].1, &sensor) && chars_eq(&kept[j].2, &normalized) {
                    count += 1;
                }
                j += 1;
            }
            assert(prev.take(kept@.len() as int) =~= prev);
            let number = count + 1;
            let instance = if number > 1 {
                let mut n2 = normalized.clone();
                n2.push('_');
                assert(n2@ =~= normalized@ + seq!['_']);
                string_of(&concat(&n2, &crate::text::decimal_chars(number as u64)))
            } else {
                string_of(&normalized)
            };
            let ghost e = (i as int, component, sensor@, normalized@, number as nat);
            out.push(LhmHttpReadingName { index: i, component, sensor: string_of(&sensor), instance });
            kept.push((component, sensor, normalized));
            proof {
                assert(kept_nodes(rows@.take(i + 1), inc, allow_v, deny_v) =~= prev.push(e));
            }
        } else {
            proof {
                assert(kept_nodes(rows@.take(i + 1), inc, allow_v, deny_v) =~= prev);
            }
        }
        i += 1;
    }
    assert(rows@.take(rows@.len() as int) =~= rows@);
    out
}


// ---------------------------------------------------------------------------
// Values
// ---------------------------------------------------------------------------

/// `s` with commas read as decimal points.
pub open spec fn comma_to_dot(s: Seq<char>) -> Seq<char> {
    s.map_values(|c: char| if c == ',' { '.' } else { c })
}

/// Where a temperature's unit starts: `°C`, else `°c`, else ` C`.
pub open spec fn celsius_marker(t: Seq<char>) -> Option<int> {
    match crate::text::find(t, "\u{00b0}C"@) {
        Some(i) => Some(i),
        None => match crate::text::find(t, "\u{00b0}c"@) {
            Some(i) => Some(i),
            None => crate::text::find(t, " C"@),
        },
    }
}

/// The number in a temperature text such as `47,6 °C`: the last word
/// before the unit, with commas as decimal points. None without a unit.
pub open spec fn temperature_number_spec(value: Seq<char>) -> Option<Seq<char>> {
    let t = trim(value);
    match celsius_marker(t) {
        None => None,
        Some(m) => {
            let number = comma_to_dot(trim(t.take(m)));
            let words = runs(number, CharClass::NonWhitespace);
            if words.len() == 0 {
                Some(number)
            } else {
                Some(words.last())
            }
        },
    }
}

/// The number text of a temperature value, for reading as degrees.
pub fn temperature_number_text(value: &str) -> (r: Option<String>)
    ensures
        match r {
            Some(s) => temperature_number_spec(value@) == Some(s@),
            None => temperature_number_spec(value@) is None,
        },
{
    let t = trim_chars(&chars_of(value));
    let marker = match crate::text::find_chars(&t, &chars_of("\u{00b0}C")) {
        Some(i) => Some(i),
        None => match crate::text::find_chars(&t, &chars_of("\u{00b0}c")) {
            Some(i) => Some(i),
            None => crate::text::find_chars(&t, &chars_of(" C")),
        },
    };
    let m = match marker {
        Some(m) => m,
        None => return None,
    };
    proof {
        crate::text::lemma_find_from_bounds(t@, "\u{00b0}C"@, 0);
        crate::text::lemma_find_from_bounds(t@, "\u{00b0}c"@, 0);
        crate::text::lemma_find_from_bounds(t@, " C"@, 0);
    }
    let prefix = crate::text::slice_chars(&t, 0, m);
    assert(prefix@ =~= t@.take(m as int));
    let head = trim_chars(&prefix);
    let mut number: Vec<char> = Vec::new();
    let mut i: usize = 0;
    while i < head.len()
        invariant
            0 <= i <= head@.len(),
            number@ == comma_to_dot(head@.take(i as int)),
        decreases head.len() - i,
    {
        let c = if head[i] == ',' {
            '.'
        } else {
            head[i]
        };
        number.push(c);
        assert(comma_to_dot(head@.take(i + 1)) =~= comma_to_dot(head@.take(i as int)).push(c));
        i += 1;
    }
    assert(head@.take(head@.len() as int) =~= head@);
    let words = runs_of(&number, CharClass::NonWhitespace);
    if words.len() == 0 {
        Some(string_of(&number))
    } else {
        Some(string_of(&words[words.len() - 1]))
    }
}

} // verus!
