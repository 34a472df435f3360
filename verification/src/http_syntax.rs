//! What the `http` crate accepts as parts of a message.

use vstd::prelude::*;

verus! {

/// A byte that a lower-case header name may hold.
pub open spec fn is_name_byte(b: u8) -> bool {
    33 <= b <= 39 || b == 42 || b == 43 || b == 45 || b == 46 || 48 <= b <= 57 || 94 <= b <= 122
        || b == 124 || b == 126
}

/// A lower-case header name.
pub open spec fn is_name(s: Seq<u8>) -> bool {
    &&& 1 <= s.len() <= 65535
    &&& forall|i: int| 0 <= i < s.len() ==> is_name_byte(#[trigger] s[i])
}

/// A byte that a header value may hold.
pub open spec fn is_value_byte(b: u8) -> bool {
    b >= 32 && b != 127 || b == 9
}

/// A header value.
pub open spec fn is_value(s: Seq<u8>) -> bool {
    forall|i: int| 0 <= i < s.len() ==> is_value_byte(#[trigger] s[i])
}

/// A byte that the name of a method may hold.
pub open spec fn is_method_byte(b: u8) -> bool {
    b == 33 || b == 42 || b == 43 || b == 45 || b == 46 || 48 <= b <= 57 || 65 <= b <= 90 || 94 <= b
        <= 122 || b == 124 || b == 126
}

/// The name of a method.
pub open spec fn is_method(s: Seq<u8>) -> bool {
    &&& s.len() >= 1
    &&& forall|i: int| 0 <= i < s.len() ==> is_method_byte(#[trigger] s[i])
}

/// The number that a status code of three digits stands for. The first digit is not zero.
pub open spec fn status_of(s: Seq<u8>) -> Option<u16> {
    if s.len() == 3 && 49 <= s[0] <= 57 && 48 <= s[1] <= 57 && 48 <= s[2] <= 57 {
        Some(((s[0] - 48) * 100 + (s[1] - 48) * 10 + (s[2] - 48)) as u16)
    } else {
        None
    }
}

/// `http::header::HeaderName::from_lowercase` accepts exactly the lower-case header names and
/// keeps their bytes.
#[verifier::external_body]
pub(crate) fn parse_name(src: &[u8]) -> (r: Option<Vec<u8>>)
    ensures
        match r {
            Some(v) => is_name(src@) && v@ == src@,
            None => !is_name(src@),
        },
{
    match http::header::HeaderName::from_lowercase(src) {
        Ok(name) => Some(name.as_str().as_bytes().to_vec()),
        Err(_) => None,
    }
}

/// `http::header::HeaderValue::from_bytes` accepts exactly the header values and keeps their
/// bytes.
#[verifier::external_body]
pub(crate) fn parse_value(src: &[u8]) -> (r: Option<Vec<u8>>)
    ensures
        match r {
            Some(v) => is_value(src@) && v@ == src@,
            None => !is_value(src@),
        },
{
    match http::header::HeaderValue::from_bytes(src) {
        Ok(value) => Some(value.as_bytes().to_vec()),
        Err(_) => None,
    }
}

/// `http::Method::from_bytes` accepts exactly the names of methods and keeps their bytes. Its
/// error prints as `InvalidMethod`.
#[verifier::external_body]
pub(crate) fn parse_method(src: &[u8]) -> (r: Result<Vec<u8>, String>)
    ensures
        match r {
            Ok(v) => is_method(src@) && v@ == src@,
            Err(text) => !is_method(src@) && text@ == "InvalidMethod"@,
        },
{
    match http::Method::from_bytes(src) {
        Ok(method) => Ok(method.as_str().as_bytes().to_vec()),
        Err(e) => Err(format!("{:?}", e)),
    }
}

/// `http::StatusCode::from_bytes` reads a status code of three digits that does not start with
/// zero.
#[verifier::external_body]
pub(crate) fn parse_status(src: &[u8]) -> (r: Option<u16>)
    ensures
        r == status_of(src@),
{
    match http::StatusCode::from_bytes(src) {
        Ok(status) => Some(status.as_u16()),
        Err(_) => None,
    }
}

} // verus!
