//! What the fields of a message say, and what a request says in its fields.

use vstd::prelude::*;

use crate::qpack::FieldView;
use crate::{http_syntax, text};

use super::headers;
use super::headers::{Fault, HeaderView, Uri};
use super::laws;

verus! {

/// `:method`
pub open spec fn method_name() -> Seq<u8> {
    seq![58u8, 109, 101, 116, 104, 111, 100]
}

/// `:scheme`
pub open spec fn scheme_name() -> Seq<u8> {
    seq![58u8, 115, 99, 104, 101, 109, 101]
}

/// `:authority`
pub open spec fn authority_name() -> Seq<u8> {
    seq![58u8, 97, 117, 116, 104, 111, 114, 105, 116, 121]
}

/// `:path`
pub open spec fn path_name() -> Seq<u8> {
    seq![58u8, 112, 97, 116, 104]
}

/// `:status`
pub open spec fn status_name() -> Seq<u8> {
    seq![58u8, 115, 116, 97, 116, 117, 115]
}

/// `https`
pub open spec fn https() -> Seq<u8> {
    seq![104u8, 116, 116, 112, 115]
}

/// A field that may be there.
pub open spec fn one_field(name: Seq<u8>, value: Option<Seq<u8>>) -> Seq<FieldView> {
    match value {
        Some(v) => seq![(name, v)],
        None => Seq::empty(),
    }
}

/// The three digits of a number below a thousand.
pub open spec fn three_digits(n: u16) -> Seq<u8> {
    seq![(48 + n / 100 % 10) as u8, (48 + n / 10 % 10) as u8, (48 + n % 10) as u8]
}

/// The names of the pseudo header fields, the default scheme and the default path, byte by byte.
pub proof fn names_in_bytes()
    ensures
        headers::name_bytes(":method"@) == method_name(),
        headers::name_bytes(":scheme"@) == scheme_name(),
        headers::name_bytes(":authority"@) == authority_name(),
        headers::name_bytes(":path"@) == path_name(),
        headers::name_bytes(":status"@) == status_name(),
        headers::name_bytes("https"@) == https(),
        headers::name_bytes("/"@) == seq![47u8],
        method_name() == vstd::utf8::encode_utf8(":method"@),
        scheme_name() == vstd::utf8::encode_utf8(":scheme"@),
        authority_name() == vstd::utf8::encode_utf8(":authority"@),
        path_name() == vstd::utf8::encode_utf8(":path"@),
        status_name() == vstd::utf8::encode_utf8(":status"@),
        https() == vstd::utf8::encode_utf8("https"@),
{
    reveal_strlit(":method");
    reveal_strlit(":scheme");
    reveal_strlit(":authority");
    reveal_strlit(":path");
    reveal_strlit(":status");
    reveal_strlit("https");
    reveal_strlit("/");
    vstd::utf8::is_ascii_chars_encode_utf8(":method"@);
    vstd::utf8::is_ascii_chars_encode_utf8(":scheme"@);
    vstd::utf8::is_ascii_chars_encode_utf8(":authority"@);
    vstd::utf8::is_ascii_chars_encode_utf8(":path"@);
    vstd::utf8::is_ascii_chars_encode_utf8(":status"@);
    vstd::utf8::is_ascii_chars_encode_utf8("https"@);
    vstd::utf8::is_ascii_chars_encode_utf8("/"@);
    assert(headers::name_bytes(":method"@) == method_name());
    assert(headers::name_bytes(":scheme"@) == scheme_name());
    assert(headers::name_bytes(":authority"@) == authority_name());
    assert(headers::name_bytes(":path"@) == path_name());
    assert(headers::name_bytes(":status"@) == status_name());
    assert(headers::name_bytes("https"@) == https());
    assert(headers::name_bytes("/"@) == seq![47u8]);
}

/// A field that is not there takes no place among the fields.
pub proof fn missing_field_is_not_sent(name: Seq<u8>, value: Seq<u8>)
    ensures
        one_field(name, None).len() == 0,
        one_field(name, Some(value)).len() == 1,
        one_field(name, Some(value))[0] == (name, value),
{
}

/// The digits of a status are those of its number.
pub proof fn status_is_its_digits(n: u16)
    requires
        n < 1000,
    ensures
        three_digits(n).len() == 3,
        forall|i: int| 0 <= i < 3 ==> 48 <= #[trigger] three_digits(n)[i] <= 57,
        n == (three_digits(n)[0] - 48) * 100 + (three_digits(n)[1] - 48) * 10 + (three_digits(n)[2]
            - 48),
{
}

/// A header is sent as its pseudo header fields that are there, method, scheme, authority, path
/// and status, and after them all its other fields in order.
pub proof fn fields_in_order(h: HeaderView)
    ensures
        headers::list(h) == one_field(method_name(), h.method) + one_field(
            scheme_name(),
            h.scheme,
        ) + one_field(authority_name(), h.authority) + one_field(path_name(), h.path) + one_field(
            status_name(),
            match h.status {
                Some(n) => Some(three_digits(n)),
                None => None,
            },
        ) + h.fields,
{
    names_in_bytes();
    if let Some(n) = h.status {
        assert(headers::status_bytes(n) == three_digits(n));
    }
}

/// How a header grows with one more field. A field whose name has no colon in front is kept if
/// its name and its value are valid. The five pseudo header fields set their part. What is not
/// valid, or has a colon in front and is none of the five, is a fault, which is kept from then on.
pub proof fn field_by_field(fields: Seq<FieldView>, f: FieldView)
    ensures
        headers::parse(Seq::empty()) == Ok::<HeaderView, Fault>(
            HeaderView {
                method: None,
                scheme: None,
                authority: None,
                path: None,
                status: None,
                fields: Seq::empty(),
            },
        ),
        headers::parse(fields) matches Err(fault) ==> headers::parse(fields.push(f)) == Err::<
            HeaderView,
            Fault,
        >(fault),
        headers::parse(fields) matches Ok(h) ==> headers::parse(fields.push(f)) == (if f.0.len()
            == 0 || f.0[0] != 58 {
            if !http_syntax::is_name(f.0) {
                Err::<HeaderView, Fault>(Fault::Name(f.0))
            } else if !http_syntax::is_value(f.1) {
                Err(Fault::Value(f.0, f.1))
            } else {
                Ok(HeaderView { fields: h.fields.push(f), ..h })
            }
        } else if f.0 == method_name() {
            if http_syntax::is_method(f.1) {
                Ok(HeaderView { method: Some(f.1), ..h })
            } else {
                Err(Fault::Method)
            }
        } else if f.0 == status_name() {
            if f.1.len() == 3 && 49 <= f.1[0] <= 57 && 48 <= f.1[1] <= 57 && 48 <= f.1[2] <= 57 {
                Ok(
                    HeaderView {
                        status: Some(
                            ((f.1[0] - 48) * 100 + (f.1[1] - 48) * 10 + (f.1[2] - 48)) as u16,
                        ),
                        ..h
                    },
                )
            } else {
                Err(Fault::Value(f.0, f.1))
            }
        } else if f.0 != scheme_name() && f.0 != authority_name() && f.0 != path_name() {
            Err(Fault::Name(f.0))
        } else if !http_syntax::is_value(f.1) {
            Err(Fault::Value(f.0, f.1))
        } else if f.0 == scheme_name() {
            Ok(HeaderView { scheme: Some(f.1), ..h })
        } else if f.0 == authority_name() {
            Ok(HeaderView { authority: Some(f.1), ..h })
        } else {
            Ok(HeaderView { path: Some(f.1), ..h })
        }),
{
    names_in_bytes();
    assert(fields.push(f).drop_last() == fields);
}

/// The scheme that a request is sent with.
pub open spec fn sent_scheme(uri: Uri) -> Seq<u8> {
    match uri.scheme {
        Some(s) => s@,
        None => https(),
    }
}

/// The authority that a request is sent with.
pub open spec fn sent_authority(uri: Uri) -> Option<Seq<u8>> {
    match uri.authority {
        Some(a) => Some(a@),
        None => None,
    }
}

/// The path that a request is sent with.
pub open spec fn sent_path(uri: Uri) -> Seq<u8> {
    if uri.path@.len() > 0 {
        uri.path@
    } else {
        seq![47u8]
    }
}

/// The fields that a request is sent with: its own method, the scheme, authority and path of its
/// target, and its own fields in order.
pub open spec fn request_fields(method: Seq<u8>, uri: Uri, fields: Seq<FieldView>) -> Seq<
    FieldView,
> {
    seq![(method_name(), method), (scheme_name(), sent_scheme(uri))] + one_field(
        authority_name(),
        sent_authority(uri),
    ) + seq![(path_name(), sent_path(uri))] + fields
}

/// The header of a request holds the parts of the request: its method, the scheme of its target
/// if it has one, its authority, its path unless that is empty, no status, and its fields; and
/// exactly these are sent.
pub proof fn request_holds_its_parts(method: Seq<u8>, uri: Uri, fields: Seq<FieldView>)
    ensures
        ({
            let h = headers::request_header(method, uri, fields);
            &&& h.method == Some(method)
            &&& h.scheme == Some(sent_scheme(uri))
            &&& h.authority == sent_authority(uri)
            &&& h.path == Some(sent_path(uri))
            &&& h.status is None
            &&& h.fields == fields
            &&& headers::list(h) == request_fields(method, uri, fields)
            &&& uri.scheme matches Some(v) ==> h.scheme == Some(v@)
            &&& uri.scheme is None ==> h.scheme == Some(vstd::utf8::encode_utf8("https"@))
            &&& uri.authority matches Some(v) ==> h.authority == Some(v@)
            &&& uri.authority is None ==> h.authority is None
            &&& uri.path@.len() > 0 ==> h.path == Some(uri.path@)
            &&& uri.path@.len() == 0 ==> h.path == Some(vstd::utf8::encode_utf8("/"@))
        }),
{
    names_in_bytes();
    let h = headers::request_header(method, uri, fields);
    fields_in_order(h);
    assert(headers::list(h) == request_fields(method, uri, fields));
}

/// Reading what is sent for a request gives back the parts of the request.
pub proof fn request_parts_read_back(method: Seq<u8>, uri: Uri, fields: Seq<FieldView>)
    requires
        laws::valid_request(method, uri, fields),
    ensures
        headers::parse(request_fields(method, uri, fields)) == Ok::<HeaderView, Fault>(
            HeaderView {
                method: Some(method),
                scheme: Some(sent_scheme(uri)),
                authority: sent_authority(uri),
                path: Some(sent_path(uri)),
                status: None,
                fields,
            },
        ),
{
    request_holds_its_parts(method, uri, fields);
    laws::request_reads_back(method, uri, fields);
}

/// What is read from the fields that are sent for a request is the request: its method, its own
/// scheme, authority and path where it has them, and its fields.
pub proof fn request_arrives(method: Seq<u8>, uri: Uri, fields: Seq<FieldView>)
    requires
        laws::valid_request(method, uri, fields),
    ensures
        headers::parse(headers::list(headers::request_header(method, uri, fields))) matches Ok(h)
            && {
            &&& h.method == Some(method)
            &&& h.scheme is Some
            &&& uri.scheme matches Some(v) ==> h.scheme == Some(v@)
            &&& uri.authority matches Some(v) ==> h.authority == Some(v@)
            &&& uri.authority is None ==> h.authority is None
            &&& h.path is Some
            &&& uri.path@.len() > 0 ==> h.path == Some(uri.path@)
            &&& h.status is None
            &&& h.fields == fields
        },
{
    request_holds_its_parts(method, uri, fields);
    laws::request_reads_back(method, uri, fields);
}

/// Two requests for which the same fields are sent are the same request: they have the same
/// method, scheme, authority, path and fields.
pub proof fn sent_fields_tell_the_request(
    method: Seq<u8>,
    uri: Uri,
    fields: Seq<FieldView>,
    other_method: Seq<u8>,
    other_uri: Uri,
    other_fields: Seq<FieldView>,
)
    requires
        headers::list(headers::request_header(method, uri, fields)) == headers::list(
            headers::request_header(other_method, other_uri, other_fields),
        ),
    ensures
        method == other_method,
        uri.scheme is Some && other_uri.scheme is Some ==> uri.scheme->0@ == other_uri.scheme->0@,
        uri.authority is Some <==> other_uri.authority is Some,
        uri.authority is Some ==> uri.authority->0@ == other_uri.authority->0@,
        uri.path@.len() > 0 && other_uri.path@.len() > 0 ==> uri.path@ == other_uri.path@,
        fields == other_fields,
{
    let a = request_fields(method, uri, fields);
    let b = request_fields(other_method, other_uri, other_fields);
    request_holds_its_parts(method, uri, fields);
    request_holds_its_parts(other_method, other_uri, other_fields);
    assert(a[0] == (method_name(), method));
    assert(b[0] == (method_name(), other_method));
    assert(a[1] == (scheme_name(), sent_scheme(uri)));
    assert(b[1] == (scheme_name(), sent_scheme(other_uri)));
    assert(authority_name().len() != path_name().len());
    let n: int = if uri.authority is Some {
        3
    } else {
        2
    };
    let m: int = if other_uri.authority is Some {
        3
    } else {
        2
    };
    assert(n == 3 ==> a[2] == (authority_name(), uri.authority->0@));
    assert(m == 3 ==> b[2] == (authority_name(), other_uri.authority->0@));
    assert(a[n] == (path_name(), sent_path(uri)));
    assert(b[m] == (path_name(), sent_path(other_uri)));
    assert(n == m);
    assert(a.skip(n + 1) == fields);
    assert(b.skip(m + 1) == other_fields);
}

/// An error tells of a fault: of an invalid name by its bytes, of an invalid value by the bytes of
/// the name and of the value, and of an invalid method by what the method parser says.
pub proof fn faults_are_told(e: headers::Error, fault: Fault)
    ensures
        headers::tells(e, fault) <==> match fault {
            Fault::Name(name) => e matches headers::Error::InvalidHeaderName(t) && t@
                == text::list_text(name),
            Fault::Value(name, value) => e matches headers::Error::InvalidHeaderValue(t) && t@
                == text::list_text(name) + seq![' '] + text::list_text(value),
            Fault::Method => e matches headers::Error::InvalidRequest(t) && t@
                == "InvalidMethod"@,
        },
{
    reveal_strlit(" ");
    assert(" "@ == seq![' ']);
}

} // verus!
