//! The header of a message: pseudo header fields and regular ones.

use vstd::prelude::*;

use crate::qpack::{models, static_table, FieldView, HeaderField};
use crate::{http_syntax, text};

verus! {

/// The target of a request.
#[derive(Clone, Debug, PartialEq, Eq)]
pub struct Uri {
    pub scheme: Option<Vec<u8>>,
    pub authority: Option<Vec<u8>>,
    pub path: Vec<u8>,
}

impl Default for Uri {
    fn default() -> (r: Uri)
        ensures
            r.scheme is None,
            r.authority is None,
            r.path@ == name_bytes("/"@),
    {
        Uri { scheme: None, authority: None, path: vstd::slice::slice_to_vec("/".as_bytes()) }
    }
}

/// The header of a request, a response, or the trailers of either.
#[derive(Clone, Debug, PartialEq, Eq)]
pub struct Header {
    pub method: Option<Vec<u8>>,
    pub scheme: Option<Vec<u8>>,
    pub authority: Option<Vec<u8>>,
    pub path: Option<Vec<u8>>,
    pub status: Option<u16>,
    pub fields: Vec<HeaderField>,
}

/// The model of a header.
pub struct HeaderView {
    pub method: Option<Seq<u8>>,
    pub scheme: Option<Seq<u8>>,
    pub authority: Option<Seq<u8>>,
    pub path: Option<Seq<u8>>,
    pub status: Option<u16>,
    pub fields: Seq<FieldView>,
}

/// The model of bytes that may be there.
pub open spec fn some_bytes(v: Option<Vec<u8>>) -> Option<Seq<u8>> {
    match v {
        Some(v) => Some(v@),
        None => None,
    }
}

impl View for Header {
    type V = HeaderView;

    open spec fn view(&self) -> HeaderView {
        HeaderView {
            method: some_bytes(self.method),
            scheme: some_bytes(self.scheme),
            authority: some_bytes(self.authority),
            path: some_bytes(self.path),
            status: self.status,
            fields: models(self.fields@),
        }
    }
}

/// The bytes of a text.
pub open spec fn name_bytes(text: Seq<char>) -> Seq<u8> {
    vstd::utf8::encode_utf8(text)
}

/// A pseudo header field, if it is there.
pub open spec fn pseudo(name: Seq<char>, value: Option<Seq<u8>>) -> Seq<FieldView> {
    match value {
        Some(v) => seq![(name_bytes(name), v)],
        None => Seq::empty(),
    }
}

/// The three digits of a status code.
pub open spec fn status_bytes(status: u16) -> Seq<u8> {
    seq![
        (48 + status / 100 % 10) as u8,
        (48 + status / 10 % 10) as u8,
        (48 + status % 10) as u8,
    ]
}

/// The model of a status code as a value, if it is there.
pub open spec fn some_status(status: Option<u16>) -> Option<Seq<u8>> {
    match status {
        Some(n) => Some(status_bytes(n)),
        None => None,
    }
}

/// All fields of a header in the order in which they are sent.
pub open spec fn list(h: HeaderView) -> Seq<FieldView> {
    pseudo(":method"@, h.method) + pseudo(":scheme"@, h.scheme) + pseudo(
        ":authority"@,
        h.authority,
    ) + pseudo(":path"@, h.path) + pseudo(":status"@, some_status(h.status)) + h.fields
}

/// A header without fields.
pub open spec fn blank() -> HeaderView {
    HeaderView {
        method: None,
        scheme: None,
        authority: None,
        path: None,
        status: None,
        fields: Seq::empty(),
    }
}

/// The header of a request. The scheme and the path have defaults.
pub open spec fn request_header(
    method: Seq<u8>,
    uri: Uri,
    fields: Seq<FieldView>,
) -> HeaderView {
    HeaderView {
        method: Some(method),
        scheme: Some(
            match uri.scheme {
                Some(s) => s@,
                None => name_bytes("https"@),
            },
        ),
        authority: some_bytes(uri.authority),
        path: Some(
            if uri.path@.len() == 0 {
                name_bytes("/"@)
            } else {
                uri.path@
            },
        ),
        status: None,
        fields,
    }
}

/// What is wrong with a field.
pub enum Fault {
    /// The name.
    Name(Seq<u8>),
    /// The value of the field with the given name.
    Value(Seq<u8>, Seq<u8>),
    /// The method.
    Method,
}

/// The header after one more field.
pub open spec fn with_field(h: HeaderView, f: FieldView) -> Result<HeaderView, Fault> {
    if f.0.len() == 0 || f.0[0] != 58 {
        if !http_syntax::is_name(f.0) {
            Err(Fault::Name(f.0))
        } else if !http_syntax::is_value(f.1) {
            Err(Fault::Value(f.0, f.1))
        } else {
            Ok(HeaderView { fields: h.fields.push(f), ..h })
        }
    } else if f.0 == name_bytes(":method"@) {
        if http_syntax::is_method(f.1) {
            Ok(HeaderView { method: Some(f.1), ..h })
        } else {
            Err(Fault::Method)
        }
    } else if f.0 == name_bytes(":status"@) {
        match http_syntax::status_of(f.1) {
            Some(n) => Ok(HeaderView { status: Some(n), ..h }),
            None => Err(Fault::Value(f.0, f.1)),
        }
    } else if f.0 == name_bytes(":scheme"@) || f.0 == name_bytes(":authority"@) || f.0
        == name_bytes(":path"@) {
        if !http_syntax::is_value(f.1) {
            Err(Fault::Value(f.0, f.1))
        } else if f.0 == name_bytes(":scheme"@) {
            Ok(HeaderView { scheme: Some(f.1), ..h })
        } else if f.0 == name_bytes(":authority"@) {
            Ok(HeaderView { authority: Some(f.1), ..h })
        } else {
            Ok(HeaderView { path: Some(f.1), ..h })
        }
    } else {
        Err(Fault::Name(f.0))
    }
}

/// The header that some fields make up, or what is wrong with the first of them that is not
/// valid.
pub open spec fn parse(fields: Seq<FieldView>) -> Result<HeaderView, Fault>
    decreases fields.len(),
{
    if fields.len() == 0 {
        Ok(blank())
    } else {
        match parse(fields.drop_last()) {
            Ok(h) => with_field(h, fields.last()),
            Err(e) => Err(e),
        }
    }
}

/// Why there is no header, or not the one that is needed.
#[derive(Debug, PartialEq)]
pub enum Error {
    InvalidHeaderName(String),
    InvalidHeaderValue(String),
    InvalidRequest(String),
    MissingMethod,
    MissingStatus,
}

/// Whether an error tells of a fault.
pub open spec fn tells(e: Error, fault: Fault) -> bool {
    match fault {
        Fault::Name(name) => e matches Error::InvalidHeaderName(t) && t@ == text::list_text(name),
        Fault::Value(name, value) => e matches Error::InvalidHeaderValue(t) && t@
            == text::list_text(name) + " "@ + text::list_text(value),
        Fault::Method => e matches Error::InvalidRequest(t) && t@ == "InvalidMethod"@,
    }
}

fn bad_name(name: &[u8]) -> (e: Error)
    ensures
        tells(e, Fault::Name(name@)),
{
    Error::InvalidHeaderName(text::list(name))
}

fn bad_value(name: &[u8], value: &[u8]) -> (e: Error)
    ensures
        tells(e, Fault::Value(name@, value@)),
{
    Error::InvalidHeaderValue(
        text::wrap(text::list(name).as_str(), " ", text::list(value).as_str()),
    )
}

/// Whether a name is that of a pseudo header field.
fn named(name: &[u8], pseudo: &str) -> (r: bool)
    ensures
        r == (name@ == name_bytes(pseudo@)),
{
    static_table::same_bytes(name, pseudo.as_bytes())
}

fn push_pseudo(out: &mut Vec<HeaderField>, name: &str, value: &Option<Vec<u8>>)
    ensures
        models(final(out)@) == models(old(out)@) + pseudo(name@, some_bytes(*value)),
{
    match value {
        Some(v) => {
            let field = HeaderField {
                name: vstd::slice::slice_to_vec(name.as_bytes()),
                value: vstd::slice::slice_to_vec(v.as_slice()),
            };
            out.push(field);
        },
        None => {},
    }
    assert(models(out@) == models(old(out)@) + pseudo(name@, some_bytes(*value)));
}

/// The number of fields that may be there.
fn one_if(present: bool) -> (n: u128)
    ensures
        n == (if present {
            1int
        } else {
            0
        }),
{
    if present {
        1
    } else {
        0
    }
}

impl Header {
    /// The header of a request. Without a scheme it is for `https`, and without a path for the
    /// root.
    pub fn request(method: Vec<u8>, uri: Uri, fields: Vec<HeaderField>) -> (h: Header)
        ensures
            h@ == request_header(method@, uri, models(fields@)),
    {
        let scheme = match uri.scheme {
            Some(s) => s,
            None => vstd::slice::slice_to_vec("https".as_bytes()),
        };
        let path = if uri.path.len() == 0 {
            vstd::slice::slice_to_vec("/".as_bytes())
        } else {
            uri.path
        };
        Header {
            method: Some(method),
            scheme: Some(scheme),
            authority: uri.authority,
            path: Some(path),
            status: None,
            fields,
        }
    }

    /// The header that trailers make up.
    pub fn trailer(fields: Vec<HeaderField>) -> (h: Header)
        ensures
            h@ == (HeaderView { fields: models(fields@), ..blank() }),
    {
        Header { method: None, scheme: None, authority: None, path: None, status: None, fields }
    }

    /// The number of fields, pseudo header fields among them.
    pub fn len(&self) -> (n: u128)
        ensures
            n == list(self@).len(),
    {
        one_if(self.method.is_some()) + one_if(self.scheme.is_some()) + one_if(
            self.authority.is_some(),
        ) + one_if(self.path.is_some()) + one_if(self.status.is_some()) + self.fields.len() as u128
    }

    /// All fields in the order in which they are sent.
    pub fn into_fields(self) -> (r: Vec<HeaderField>)
        ensures
            models(r@) == list(self@),
    {
        let mut out: Vec<HeaderField> = Vec::new();
        assert(models(out@) == Seq::<FieldView>::empty());
        push_pseudo(&mut out, ":method", &self.method);
        push_pseudo(&mut out, ":scheme", &self.scheme);
        push_pseudo(&mut out, ":authority", &self.authority);
        push_pseudo(&mut out, ":path", &self.path);
        let status: Option<Vec<u8>> = match self.status {
            Some(n) => {
                let mut digits: Vec<u8> = Vec::new();
                digits.push((48 + n / 100 % 10) as u8);
                digits.push((48 + n / 10 % 10) as u8);
                digits.push((48 + n % 10) as u8);
                assert(digits@ == status_bytes(n));
                Some(digits)
            },
            None => None,
        };
        push_pseudo(&mut out, ":status", &status);
        let ghost head = models(out@);
        let mut rest = self.fields;
        let ghost tail = rest@;
        out.append(&mut rest);
        assert(models(out@) == head + models(tail));
        out
    }

    fn accept(&mut self, field: HeaderField) -> (r: Result<(), Error>)
        ensures
            match r {
                Ok(_) => with_field(old(self)@, field@) == Ok::<HeaderView, Fault>(final(self)@),
                Err(e) => with_field(old(self)@, field@) matches Err(fault) && tells(e, fault),
            },
    {
        let name = field.name.as_slice();
        let value = field.value.as_slice();
        if name.len() == 0 || name[0] != 58 {
            if http_syntax::parse_name(name).is_none() {
                return Err(bad_name(name));
            }
            if http_syntax::parse_value(value).is_none() {
                return Err(bad_value(name, value));
            }
            let ghost before = self.fields@;
            self.fields.push(field);
            assert(models(self.fields@) == models(before).push(field@));
            return Ok(());
        }
        if named(name, ":method") {
            return match http_syntax::parse_method(value) {
                Ok(method) => {
                    self.method = Some(method);
                    Ok(())
                },
                Err(text) => Err(Error::InvalidRequest(text)),
            };
        }
        if named(name, ":status") {
            return match http_syntax::parse_status(value) {
                Some(status) => {
                    self.status = Some(status);
                    Ok(())
                },
                None => Err(bad_value(name, value)),
            };
        }
        let scheme: bool = named(name, ":scheme");
        let authority: bool = named(name, ":authority");
        if !scheme && !authority && !named(name, ":path") {
            return Err(bad_name(name));
        }
        match http_syntax::parse_value(value) {
            None => Err(bad_value(name, value)),
            Some(v) => {
                if scheme {
                    self.scheme = Some(v);
                } else if authority {
                    self.authority = Some(v);
                } else {
                    self.path = Some(v);
                }
                Ok(())
            },
        }
    }

    /// The header that some fields make up.
    pub fn try_from(fields: Vec<HeaderField>) -> (r: Result<Header, Error>)
        ensures
            match r {
                Ok(h) => parse(models(fields@)) == Ok::<HeaderView, Fault>(h@),
                Err(e) => parse(models(fields@)) matches Err(fault) && tells(e, fault),
            },
    {
        let ghost all = models(fields@);
        let mut header = Header::trailer(Vec::new());
        let mut i: usize = 0;
        assert(all.take(0) == Seq::<FieldView>::empty());
        assert(header@.fields == Seq::<FieldView>::empty());
        while i < fields.len()
            invariant
                i <= fields@.len(),
                all == models(fields@),
                parse(all.take(i as int)) == Ok::<HeaderView, Fault>(header@),
            decreases fields@.len() - i,
        {
            assert(all.take(i + 1).drop_last() == all.take(i as int));
            assert(all.take(i + 1).last() == fields@[i as int]@);
            match header.accept(fields[i].duplicate()) {
                Ok(_) => {},
                Err(e) => {
                    proof {
                        parse_fails_on(all, i + 1);
                    }
                    return Err(e);
                },
            }
            i = i + 1;
        }
        assert(all.take(i as int) == all);
        Ok(header)
    }

    /// The status code and the fields of a response.
    pub fn into_response_parts(self) -> (r: Result<(u16, Vec<HeaderField>), Error>)
        ensures
            match self.status {
                Some(n) => r matches Ok((status, fields)) && status == n && models(fields@)
                    == self@.fields,
                None => r == Err::<(u16, Vec<HeaderField>), Error>(Error::MissingStatus),
            },
    {
        match self.status {
            Some(status) => Ok((status, self.fields)),
            None => Err(Error::MissingStatus),
        }
    }
}

/// What is wrong with the beginning of a list is wrong with the list.
proof fn parse_fails_on(fields: Seq<FieldView>, n: int)
    requires
        0 <= n <= fields.len(),
        parse(fields.take(n)) is Err,
    ensures
        parse(fields) == parse(fields.take(n)),
    decreases fields.len() - n,
{
    if n < fields.len() {
        assert(fields.take(n + 1).drop_last() == fields.take(n));
        parse_fails_on(fields, n + 1);
    } else {
        assert(fields.take(n) == fields);
    }
}

/// Whether all parts of a header are what the protocol allows.
pub open spec fn valid(h: HeaderView) -> bool {
    &&& h.method matches Some(v) ==> http_syntax::is_method(v)
    &&& h.scheme matches Some(v) ==> http_syntax::is_value(v)
    &&& h.authority matches Some(v) ==> http_syntax::is_value(v)
    &&& h.path matches Some(v) ==> http_syntax::is_value(v)
    &&& h.status matches Some(n) ==> 100 <= n <= 999
    &&& forall|i: int|
        0 <= i < h.fields.len() ==> http_syntax::is_name((#[trigger] h.fields[i]).0)
            && http_syntax::is_value(h.fields[i].1)
}

/// The names of pseudo header fields start with a colon and differ.
proof fn pseudo_names()
    ensures
        name_bytes(":method"@).len() > 0 && name_bytes(":method"@)[0] == 58,
        name_bytes(":scheme"@).len() > 0 && name_bytes(":scheme"@)[0] == 58,
        name_bytes(":authority"@).len() > 0 && name_bytes(":authority"@)[0] == 58,
        name_bytes(":path"@).len() > 0 && name_bytes(":path"@)[0] == 58,
        name_bytes(":status"@).len() > 0 && name_bytes(":status"@)[0] == 58,
        name_bytes(":scheme"@) != name_bytes(":method"@),
        name_bytes(":scheme"@) != name_bytes(":status"@),
        name_bytes(":authority"@) != name_bytes(":method"@),
        name_bytes(":authority"@) != name_bytes(":status"@),
        name_bytes(":authority"@) != name_bytes(":scheme"@),
        name_bytes(":path"@) != name_bytes(":method"@),
        name_bytes(":path"@) != name_bytes(":status"@),
        name_bytes(":path"@) != name_bytes(":scheme"@),
        name_bytes(":path"@) != name_bytes(":authority"@),
        name_bytes(":status"@) != name_bytes(":method"@),
{
    reveal_strlit(":method");
    reveal_strlit(":scheme");
    reveal_strlit(":authority");
    reveal_strlit(":path");
    reveal_strlit(":status");
    vstd::utf8::is_ascii_chars_encode_utf8(":method"@);
    vstd::utf8::is_ascii_chars_encode_utf8(":scheme"@);
    vstd::utf8::is_ascii_chars_encode_utf8(":authority"@);
    vstd::utf8::is_ascii_chars_encode_utf8(":path"@);
    vstd::utf8::is_ascii_chars_encode_utf8(":status"@);
    assert(name_bytes(":method"@)[0] == ':' as u8);
    assert(name_bytes(":scheme"@)[0] == ':' as u8);
    assert(name_bytes(":authority"@)[0] == ':' as u8);
    assert(name_bytes(":path"@)[0] == ':' as u8);
    assert(name_bytes(":status"@)[0] == ':' as u8);
    assert(name_bytes(":method"@)[1] == 'm' as u8);
    assert(name_bytes(":scheme"@)[1] == 's' as u8);
    assert(name_bytes(":authority"@)[1] == 'a' as u8);
    assert(name_bytes(":path"@)[1] == 'p' as u8);
    assert(name_bytes(":status"@)[1] == 's' as u8);
    assert(name_bytes(":scheme"@)[2] == 'c' as u8);
    assert(name_bytes(":status"@)[2] == 't' as u8);
}

/// A pseudo header field that is there is read where it is written.
proof fn parse_pseudo(
    s: Seq<FieldView>,
    name: Seq<char>,
    value: Option<Seq<u8>>,
    h: HeaderView,
    next: HeaderView,
)
    requires
        parse(s) == Ok::<HeaderView, Fault>(h),
        match value {
            Some(v) => with_field(h, (name_bytes(name), v)) == Ok::<HeaderView, Fault>(next),
            None => next == h,
        },
    ensures
        parse(s + pseudo(name, value)) == Ok::<HeaderView, Fault>(next),
{
    match value {
        Some(v) => {
            let f = (name_bytes(name), v);
            assert(s + pseudo(name, value) == s.push(f));
            assert(s.push(f).drop_last() == s);
        },
        None => {
            assert(s + pseudo(name, value) == s);
        },
    }
}

proof fn method_is_read(h: HeaderView, v: Seq<u8>)
    requires
        http_syntax::is_method(v),
    ensures
        with_field(h, (name_bytes(":method"@), v)) == Ok::<HeaderView, Fault>(
            HeaderView { method: Some(v), ..h },
        ),
{
    pseudo_names();
}

proof fn scheme_is_read(h: HeaderView, v: Seq<u8>)
    requires
        http_syntax::is_value(v),
    ensures
        with_field(h, (name_bytes(":scheme"@), v)) == Ok::<HeaderView, Fault>(
            HeaderView { scheme: Some(v), ..h },
        ),
{
    pseudo_names();
}

proof fn authority_is_read(h: HeaderView, v: Seq<u8>)
    requires
        http_syntax::is_value(v),
    ensures
        with_field(h, (name_bytes(":authority"@), v)) == Ok::<HeaderView, Fault>(
            HeaderView { authority: Some(v), ..h },
        ),
{
    pseudo_names();
}

proof fn path_is_read(h: HeaderView, v: Seq<u8>)
    requires
        http_syntax::is_value(v),
    ensures
        with_field(h, (name_bytes(":path"@), v)) == Ok::<HeaderView, Fault>(
            HeaderView { path: Some(v), ..h },
        ),
{
    pseudo_names();
}

proof fn status_is_read(h: HeaderView, n: u16)
    requires
        100 <= n <= 999,
    ensures
        with_field(h, (name_bytes(":status"@), status_bytes(n))) == Ok::<HeaderView, Fault>(
            HeaderView { status: Some(n), ..h },
        ),
{
    pseudo_names();
    assert(http_syntax::status_of(status_bytes(n)) == Some(n));
}

/// Regular fields are read in order.
proof fn parse_regular(s: Seq<FieldView>, h: HeaderView, fields: Seq<FieldView>)
    requires
        parse(s) == Ok::<HeaderView, Fault>(h),
        forall|i: int|
            0 <= i < fields.len() ==> http_syntax::is_name((#[trigger] fields[i]).0)
                && http_syntax::is_value(fields[i].1),
    ensures
        parse(s + fields) == Ok::<HeaderView, Fault>(
            HeaderView { fields: h.fields + fields, ..h },
        ),
    decreases fields.len(),
{
    if fields.len() == 0 {
        assert(s + fields == s);
        assert(h.fields + fields == h.fields);
    } else {
        let head = fields.drop_last();
        let f = fields[fields.len() - 1];
        assert forall|i: int| 0 <= i < head.len() implies http_syntax::is_name(
            (#[trigger] head[i]).0,
        ) && http_syntax::is_value(head[i].1) by {
            assert(head[i] == fields[i]);
        }
        parse_regular(s, h, head);
        assert((s + fields).drop_last() == s + head);
        assert((s + fields).last() == f);
        assert(http_syntax::is_name_byte(f.0[0]));
        assert((h.fields + head).push(f) == h.fields + fields);
    }
}

/// Reading the fields of a valid header gives back the header.
pub proof fn parse_gives_back(h: HeaderView)
    requires
        valid(h),
    ensures
        parse(list(h)) == Ok::<HeaderView, Fault>(h),
{
    let none = Seq::<FieldView>::empty();
    let a = none + pseudo(":method"@, h.method);
    let b = a + pseudo(":scheme"@, h.scheme);
    let c = b + pseudo(":authority"@, h.authority);
    let d = c + pseudo(":path"@, h.path);
    let e = d + pseudo(":status"@, some_status(h.status));
    let h0 = blank();
    let h1 = HeaderView { method: h.method, ..h0 };
    let h2 = HeaderView { scheme: h.scheme, ..h1 };
    let h3 = HeaderView { authority: h.authority, ..h2 };
    let h4 = HeaderView { path: h.path, ..h3 };
    let h5 = HeaderView { status: h.status, ..h4 };
    if let Some(v) = h.method {
        method_is_read(h0, v);
    }
    parse_pseudo(none, ":method"@, h.method, h0, h1);
    if let Some(v) = h.scheme {
        scheme_is_read(h1, v);
    }
    parse_pseudo(a, ":scheme"@, h.scheme, h1, h2);
    if let Some(v) = h.authority {
        authority_is_read(h2, v);
    }
    parse_pseudo(b, ":authority"@, h.authority, h2, h3);
    if let Some(v) = h.path {
        path_is_read(h3, v);
    }
    parse_pseudo(c, ":path"@, h.path, h3, h4);
    if let Some(n) = h.status {
        status_is_read(h4, n);
    }
    parse_pseudo(d, ":status"@, some_status(h.status), h4, h5);
    parse_regular(e, h5, h.fields);
    assert(list(h) == e + h.fields);
    assert(none + h.fields == h.fields);
}

} // verus!
