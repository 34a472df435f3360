//! The static table of header fields.

use vstd::prelude::*;

use super::{FieldView, HeaderField};

verus! {

/// The number of entries.
pub const STATIC_LEN: u64 = 99;

/// The entry at an index, as text.
pub open spec fn row(index: u64) -> (Seq<char>, Seq<char>) {
    match index {
        0 => (":authority"@, ""@),
        1 => (":path"@, "/"@),
        2 => ("age"@, "0"@),
        3 => ("content-disposition"@, ""@),
        4 => ("content-length"@, "0"@),
        5 => ("cookie"@, ""@),
        6 => ("date"@, ""@),
        7 => ("etag"@, ""@),
        8 => ("if-modified-since"@, ""@),
        9 => ("if-none-match"@, ""@),
        10 => ("last-modified"@, ""@),
        11 => ("link"@, ""@),
        12 => ("location"@, ""@),
        13 => ("referer"@, ""@),
        14 => ("set-cookie"@, ""@),
        15 => (":method"@, "CONNECT"@),
        16 => (":method"@, "DELETE"@),
        17 => (":method"@, "GET"@),
        18 => (":method"@, "HEAD"@),
        19 => (":method"@, "OPTIONS"@),
        20 => (":method"@, "POST"@),
        21 => (":method"@, "PUT"@),
        22 => (":scheme"@, "http"@),
        23 => (":scheme"@, "https"@),
        24 => (":status"@, "103"@),
        25 => (":status"@, "200"@),
        26 => (":status"@, "304"@),
        27 => (":status"@, "404"@),
        28 => (":status"@, "503"@),
        29 => ("accept"@, "*/*"@),
        30 => ("accept"@, "application/dns-message"@),
        31 => ("accept-encoding"@, "gzip, deflate, br"@),
        32 => ("accept-ranges"@, "bytes"@),
        33 => ("access-control-allow-headers"@, "cache-control"@),
        34 => ("access-control-allow-headers"@, "content-type"@),
        35 => ("access-control-allow-origin"@, "*"@),
        36 => ("cache-control"@, "max-age=0"@),
        37 => ("cache-control"@, "max-age=2592000"@),
        38 => ("cache-control"@, "max-age=604800"@),
        39 => ("cache-control"@, "no-cache"@),
        40 => ("cache-control"@, "no-store"@),
        41 => ("cache-control"@, "public, max-age=31536000"@),
        42 => ("content-encoding"@, "br"@),
        43 => ("content-encoding"@, "gzip"@),
        44 => ("content-type"@, "application/dns-message"@),
        45 => ("content-type"@, "application/javascript"@),
        46 => ("content-type"@, "application/json"@),
        47 => ("content-type"@, "application/x-www-form-urlencoded"@),
        48 => ("content-type"@, "image/gif"@),
        49 => ("content-type"@, "image/jpeg"@),
        50 => ("content-type"@, "image/png"@),
        51 => ("content-type"@, "text/css"@),
        52 => ("content-type"@, "text/html; charset=utf-8"@),
        53 => ("content-type"@, "text/plain"@),
        54 => ("content-type"@, "text/plain;charset=utf-8"@),
        55 => ("range"@, "bytes=0-"@),
        56 => ("strict-transport-security"@, "max-age=31536000"@),
        57 => ("strict-transport-security"@, "max-age=31536000; includesubdomains"@),
        58 => ("strict-transport-security"@, "max-age=31536000; includesubdomains; preload"@),
        59 => ("vary"@, "accept-encoding"@),
        60 => ("vary"@, "origin"@),
        61 => ("x-content-type-options"@, "nosniff"@),
        62 => ("x-xss-protection"@, "1; mode=block"@),
        63 => (":status"@, "100"@),
        64 => (":status"@, "204"@),
        65 => (":status"@, "206"@),
        66 => (":status"@, "302"@),
        67 => (":status"@, "400"@),
        68 => (":status"@, "403"@),
        69 => (":status"@, "421"@),
        70 => (":status"@, "425"@),
        71 => (":status"@, "500"@),
        72 => ("accept-language"@, ""@),
        73 => ("access-control-allow-credentials"@, "FALSE"@),
        74 => ("access-control-allow-credentials"@, "TRUE"@),
        75 => ("access-control-allow-headers"@, "*"@),
        76 => ("access-control-allow-methods"@, "get"@),
        77 => ("access-control-allow-methods"@, "get, post, options"@),
        78 => ("access-control-allow-methods"@, "options"@),
        79 => ("access-control-expose-headers"@, "content-length"@),
        80 => ("access-control-request-headers"@, "content-type"@),
        81 => ("access-control-request-method"@, "get"@),
        82 => ("access-control-request-method"@, "post"@),
        83 => ("alt-svc"@, "clear"@),
        84 => ("authorization"@, ""@),
        85 => ("content-security-policy"@, "script-src 'none'; object-src 'none'; base-uri 'none'"@),
        86 => ("early-data"@, "1"@),
        87 => ("expect-ct"@, ""@),
        88 => ("forwarded"@, ""@),
        89 => ("if-range"@, ""@),
        90 => ("origin"@, ""@),
        91 => ("purpose"@, "prefetch"@),
        92 => ("server"@, ""@),
        93 => ("timing-allow-origin"@, "*"@),
        94 => ("upgrade-insecure-requests"@, "1"@),
        95 => ("user-agent"@, ""@),
        96 => ("x-forwarded-for"@, ""@),
        97 => ("x-frame-options"@, "deny"@),
        98 => ("x-frame-options"@, "sameorigin"@),
        _ => (""@, ""@),
    }
}

/// The entry at an index, as bytes.
pub open spec fn entry(index: u64) -> FieldView {
    (vstd::utf8::encode_utf8(row(index).0), vstd::utf8::encode_utf8(row(index).1))
}

/// The first index from `from` on that holds the field `f`.
pub open spec fn find_from(f: FieldView, from: u64) -> Option<u64>
    decreases STATIC_LEN - from,
{
    if from >= STATIC_LEN {
        None
    } else if entry(from) == f {
        Some(from)
    } else {
        find_from(f, (from + 1) as u64)
    }
}

/// The first index from `from` on that holds a field with the given name.
pub open spec fn find_name_from(name: Seq<u8>, from: u64) -> Option<u64>
    decreases STATIC_LEN - from,
{
    if from >= STATIC_LEN {
        None
    } else if entry(from).0 == name {
        Some(from)
    } else {
        find_name_from(name, (from + 1) as u64)
    }
}

fn text(index: u64) -> (r: (&'static str, &'static str))
    requires
        index < STATIC_LEN,
    ensures
        r.0@ == row(index).0,
        r.1@ == row(index).1,
{
    match index {
        0 => (":authority", ""),
        1 => (":path", "/"),
        2 => ("age", "0"),
        3 => ("content-disposition", ""),
        4 => ("content-length", "0"),
        5 => ("cookie", ""),
        6 => ("date", ""),
        7 => ("etag", ""),
        8 => ("if-modified-since", ""),
        9 => ("if-none-match", ""),
        10 => ("last-modified", ""),
        11 => ("link", ""),
        12 => ("location", ""),
        13 => ("referer", ""),
        14 => ("set-cookie", ""),
        15 => (":method", "CONNECT"),
        16 => (":method", "DELETE"),
        17 => (":method", "GET"),
        18 => (":method", "HEAD"),
        19 => (":method", "OPTIONS"),
        20 => (":method", "POST"),
        21 => (":method", "PUT"),
        22 => (":scheme", "http"),
        23 => (":scheme", "https"),
        24 => (":status", "103"),
        25 => (":status", "200"),
        26 => (":status", "304"),
        27 => (":status", "404"),
        28 => (":status", "503"),
        29 => ("accept", "*/*"),
        30 => ("accept", "application/dns-message"),
        31 => ("accept-encoding", "gzip, deflate, br"),
        32 => ("accept-ranges", "bytes"),
        33 => ("access-control-allow-headers", "cache-control"),
        34 => ("access-control-allow-headers", "content-type"),
        35 => ("access-control-allow-origin", "*"),
        36 => ("cache-control", "max-age=0"),
        37 => ("cache-control", "max-age=2592000"),
        38 => ("cache-control", "max-age=604800"),
        39 => ("cache-control", "no-cache"),
        40 => ("cache-control", "no-store"),
        41 => ("cache-control", "public, max-age=31536000"),
        42 => ("content-encoding", "br"),
        43 => ("content-encoding", "gzip"),
        44 => ("content-type", "application/dns-message"),
        45 => ("content-type", "application/javascript"),
        46 => ("content-type", "application/json"),
        47 => ("content-type", "application/x-www-form-urlencoded"),
        48 => ("content-type", "image/gif"),
        49 => ("content-type", "image/jpeg"),
        50 => ("content-type", "image/png"),
        51 => ("content-type", "text/css"),
        52 => ("content-type", "text/html; charset=utf-8"),
        53 => ("content-type", "text/plain"),
        54 => ("content-type", "text/plain;charset=utf-8"),
        55 => ("range", "bytes=0-"),
        56 => ("strict-transport-security", "max-age=31536000"),
        57 => ("strict-transport-security", "max-age=31536000; includesubdomains"),
        58 => ("strict-transport-security", "max-age=31536000; includesubdomains; preload"),
        59 => ("vary", "accept-encoding"),
        60 => ("vary", "origin"),
        61 => ("x-content-type-options", "nosniff"),
        62 => ("x-xss-protection", "1; mode=block"),
        63 => (":status", "100"),
        64 => (":status", "204"),
        65 => (":status", "206"),
        66 => (":status", "302"),
        67 => (":status", "400"),
        68 => (":status", "403"),
        69 => (":status", "421"),
        70 => (":status", "425"),
        71 => (":status", "500"),
        72 => ("accept-language", ""),
        73 => ("access-control-allow-credentials", "FALSE"),
        74 => ("access-control-allow-credentials", "TRUE"),
        75 => ("access-control-allow-headers", "*"),
        76 => ("access-control-allow-methods", "get"),
        77 => ("access-control-allow-methods", "get, post, options"),
        78 => ("access-control-allow-methods", "options"),
        79 => ("access-control-expose-headers", "content-length"),
        80 => ("access-control-request-headers", "content-type"),
        81 => ("access-control-request-method", "get"),
        82 => ("access-control-request-method", "post"),
        83 => ("alt-svc", "clear"),
        84 => ("authorization", ""),
        85 => ("content-security-policy", "script-src 'none'; object-src 'none'; base-uri 'none'"),
        86 => ("early-data", "1"),
        87 => ("expect-ct", ""),
        88 => ("forwarded", ""),
        89 => ("if-range", ""),
        90 => ("origin", ""),
        91 => ("purpose", "prefetch"),
        92 => ("server", ""),
        93 => ("timing-allow-origin", "*"),
        94 => ("upgrade-insecure-requests", "1"),
        95 => ("user-agent", ""),
        96 => ("x-forwarded-for", ""),
        97 => ("x-frame-options", "deny"),
        98 => ("x-frame-options", "sameorigin"),
        _ => ("", ""),
    }
}

/// Whether two byte strings are equal.
pub fn same_bytes(a: &[u8], b: &[u8]) -> (r: bool)
    ensures
        r == (a@ == b@),
{
    if a.len() != b.len() {
        return false;
    }
    let mut i: usize = 0;
    while i < a.len()
        invariant
            i <= a@.len(),
            a@.len() == b@.len(),
            forall|j: int| 0 <= j < i ==> a@[j] == b@[j],
        decreases a@.len() - i,
    {
        if a[i] != b[i] {
            return false;
        }
        i = i + 1;
    }
    assert(a@ == b@);
    true
}

/// The entry at `index`.
pub fn get(index: u64) -> (r: HeaderField)
    requires
        index < STATIC_LEN,
    ensures
        r@ == entry(index),
{
    let (name, value) = text(index);
    HeaderField {
        name: vstd::slice::slice_to_vec(name.as_bytes()),
        value: vstd::slice::slice_to_vec(value.as_bytes()),
    }
}

/// The index of a field that equals `field`.
pub fn find(field: &HeaderField) -> (r: Option<u64>)
    ensures
        r == find_from(field@, 0),
{
    let mut i: u64 = 0;
    while i < STATIC_LEN
        invariant
            i <= STATIC_LEN,
            find_from(field@, 0) == find_from(field@, i),
        decreases STATIC_LEN - i,
    {
        let (name, value) = text(i);
        if same_bytes(name.as_bytes(), field.name.as_slice()) && same_bytes(
            value.as_bytes(),
            field.value.as_slice(),
        ) {
            return Some(i);
        }
        i = i + 1;
    }
    None
}

/// The index of a field with the given name.
pub fn find_name(name: &[u8]) -> (r: Option<u64>)
    ensures
        r == find_name_from(name@, 0),
{
    let mut i: u64 = 0;
    while i < STATIC_LEN
        invariant
            i <= STATIC_LEN,
            find_name_from(name@, 0) == find_name_from(name@, i),
        decreases STATIC_LEN - i,
    {
        let (own, _) = text(i);
        if same_bytes(own.as_bytes(), name) {
            return Some(i);
        }
        i = i + 1;
    }
    None
}

/// An index that a search finds holds the field that was searched.
pub proof fn find_is_right(f: FieldView, from: u64)
    ensures
        find_from(f, from) matches Some(i) ==> i < STATIC_LEN && entry(i) == f,
        find_from(f, from) is None ==> forall|i: u64|
            from <= i < STATIC_LEN ==> #[trigger] entry(i) != f,
    decreases STATIC_LEN - from,
{
    if from < STATIC_LEN && entry(from) != f {
        find_is_right(f, (from + 1) as u64);
    }
}

/// An index that a search by name finds holds a field with that name.
pub proof fn find_name_is_right(name: Seq<u8>, from: u64)
    ensures
        find_name_from(name, from) matches Some(i) ==> i < STATIC_LEN && entry(i).0 == name,
        find_name_from(name, from) is None ==> forall|i: u64|
            from <= i < STATIC_LEN ==> (#[trigger] entry(i)).0 != name,
    decreases STATIC_LEN - from,
{
    if from < STATIC_LEN && entry(from).0 != name {
        find_name_is_right(name, (from + 1) as u64);
    }
}

} // verus!
