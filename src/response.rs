use vstd::prelude::*;
use vstd::string::StringExecFns;
use vstd::utf8::encode_utf8;

use crate::fields::{FieldsView, pairs_view, field, put, get_field, put_field, lemma_put_field,
    names_unique, lemma_put_names_unique};
use crate::http_status::{HttpStatus, status_text};
use crate::text::{decimal, decimal_string};

verus! {

/// Name under which the status line's text is kept.
pub open spec fn status_key() -> Seq<char> {
    "Status"@
}

/// Name of the content type field.
pub open spec fn content_type_key() -> Seq<char> {
    "Content-Type"@
}

/// Name of the content length field.
pub open spec fn content_length_key() -> Seq<char> {
    "Content-Length"@
}

/// Name under which the body is kept.
pub open spec fn body_key() -> Seq<char> {
    "Body"@
}

/// The four names that `response` writes itself rather than as plain headers.
pub open spec fn is_reserved(name: Seq<char>) -> bool {
    name == status_key() || name == content_type_key() || name == content_length_key() || name
        == body_key()
}

/// Length in bytes of the UTF-8 encoding of `s`.
pub open spec fn byte_len(s: Seq<char>) -> nat {
    encode_utf8(s).len()
}

/// The value of field `k`, or `d` when it is not set.
pub open spec fn field_or(f: FieldsView, k: Seq<char>, d: Seq<char>) -> Seq<char> {
    match field(f, k) {
        Some(v) => v,
        None => d,
    }
}

/// One `Name: Value` line of the response head.
pub open spec fn header_line(name: Seq<char>, value: Seq<char>) -> Seq<char> {
    name + ": "@ + value + "\r\n"@
}

/// The lines of every field that is not reserved, in the order of the fields.
pub open spec fn header_lines(f: FieldsView) -> Seq<char>
    decreases f.len(),
{
    if f.len() == 0 {
        seq![]
    } else {
        header_lines(f.drop_last()) + if is_reserved(f.last().0) {
            Seq::<char>::empty()
        } else {
            header_line(f.last().0, f.last().1)
        }
    }
}

/// The fields after the missing defaults are filled in: content type
/// `text/plain`, an empty body with length `0`, and status `200 OK`.
pub open spec fn with_defaults(f: FieldsView) -> FieldsView {
    let f1 = if field(f, content_type_key()) is None {
        put(f, content_type_key(), "text/plain"@)
    } else {
        f
    };
    let f2 = if field(f1, body_key()) is None {
        put(put(f1, body_key(), Seq::<char>::empty()), content_length_key(), "0"@)
    } else {
        f1
    };
    if field(f2, status_key()) is None {
        put(f2, status_key(), "200 OK"@)
    } else {
        f2
    }
}

/// The wire form of a response with fields `f`: status line, content type,
/// content length computed from the body, the other headers in order, a blank
/// line, then the body.
pub open spec fn wire(f: FieldsView) -> Seq<char> {
    let body = field_or(f, body_key(), Seq::<char>::empty());
    "HTTP/1.1 "@ + field_or(f, status_key(), "200 OK"@) + "\r\n"@ + "Content-Type: "@
        + field_or(f, content_type_key(), "text/plain"@) + "; charset=utf-8\r\n"@
        + "Content-Length: "@ + decimal(byte_len(body)) + "\r\n"@ + header_lines(f) + "\r\n"@
        + body
}

/// The fields after a body is set: its length, then the body itself.
pub open spec fn with_body(f: FieldsView, body: Seq<char>) -> FieldsView {
    put(put(f, content_length_key(), decimal(byte_len(body))), body_key(), body)
}

/// `p` is a prefix of `a`.
pub open spec fn starts_with(a: Seq<char>, p: Seq<char>) -> bool {
    a.len() >= p.len() && a.subrange(0, p.len() as int) == p
}

proof fn lemma_reserved_names_distinct()
    ensures
        status_key() != content_type_key(),
        status_key() != content_length_key(),
        status_key() != body_key(),
        content_type_key() != content_length_key(),
        content_type_key() != body_key(),
        content_length_key() != body_key(),
{
    reveal_strlit("Status");
    reveal_strlit("Content-Type");
    reveal_strlit("Content-Length");
    reveal_strlit("Body");
    assert(status_key().len() == 6);
    assert(content_type_key().len() == 12);
    assert(content_length_key().len() == 14);
    assert(body_key().len() == 4);
}

/// Setting a body twice leaves the second body, with the content length
/// computed from it: the last write wins.
pub proof fn lemma_last_body_wins(f: FieldsView, a: Seq<char>, b: Seq<char>)
    ensures
        field(with_body(with_body(f, a), b), content_length_key()) == Some(decimal(byte_len(b))),
        field(with_body(with_body(f, a), b), body_key()) == Some(b),
{
    lemma_reserved_names_distinct();
    let g = with_body(f, a);
    let h = put(g, content_length_key(), decimal(byte_len(b)));
    lemma_put_field(h, body_key(), b, content_length_key());
    lemma_put_field(g, content_length_key(), decimal(byte_len(b)), content_length_key());
    lemma_put_field(h, body_key(), b, body_key());
}

/// Once a status is set, the response's wire form starts with its status
/// line, whatever defaults are filled in.
pub proof fn lemma_status_line(f: FieldsView, status: Seq<char>)
    ensures
        field(with_defaults(put(f, status_key(), status)), status_key()) == Some(status),
        starts_with(
            wire(with_defaults(put(f, status_key(), status))),
            "HTTP/1.1 "@ + status + "\r\n"@,
        ),
{
    lemma_reserved_names_distinct();
    let g = put(f, status_key(), status);
    lemma_put_field(f, status_key(), status, status_key());
    let f1 = if field(g, content_type_key()) is None {
        put(g, content_type_key(), "text/plain"@)
    } else {
        g
    };
    lemma_put_field(g, content_type_key(), "text/plain"@, status_key());
    let e = Seq::<char>::empty();
    lemma_put_field(f1, body_key(), e, status_key());
    lemma_put_field(put(f1, body_key(), e), content_length_key(), "0"@, status_key());
    let w = wire(with_defaults(g));
    let p = "HTTP/1.1 "@ + status + "\r\n"@;
    assert(w.subrange(0, p.len() as int) =~= p);
}

/// Filling in the defaults keeps the field names distinct.
pub proof fn lemma_with_defaults_names_unique(f: FieldsView)
    requires
        names_unique(f),
    ensures
        names_unique(with_defaults(f)),
{
    lemma_put_names_unique(f, content_type_key(), "text/plain"@);
    let f1 = if field(f, content_type_key()) is None {
        put(f, content_type_key(), "text/plain"@)
    } else {
        f
    };
    lemma_put_names_unique(f1, body_key(), Seq::<char>::empty());
    lemma_put_names_unique(put(f1, body_key(), Seq::<char>::empty()), content_length_key(), "0"@);
    let f2 = if field(f1, body_key()) is None {
        put(put(f1, body_key(), Seq::<char>::empty()), content_length_key(), "0"@)
    } else {
        f1
    };
    lemma_put_names_unique(f2, status_key(), "200 OK"@);
}

/// Headers that a handler can set.
#[derive(Debug, Clone)]
pub enum HttpHeader {
    ContentType(String),
    UserAgent(String),
    Location(String),
    Custom(String, String),
}

/// The name and value of a header.
pub open spec fn header_pair(h: HttpHeader) -> (Seq<char>, Seq<char>) {
    match h {
        HttpHeader::ContentType(v) => ("Content-Type"@, v@),
        HttpHeader::UserAgent(v) => ("User-Agent"@, v@),
        HttpHeader::Location(v) => ("Location"@, v@),
        HttpHeader::Custom(n, v) => (n@, v@),
    }
}

impl HttpHeader {
    /// The header's name and value.
    pub fn as_str(&self) -> (r: (String, String))
        ensures
            (r.0@, r.1@) == header_pair(*self),
    {
        match self {
            HttpHeader::ContentType(v) => ("Content-Type".to_owned(), v.clone()),
            HttpHeader::UserAgent(v) => ("User-Agent".to_owned(), v.clone()),
            HttpHeader::Location(v) => ("Location".to_owned(), v.clone()),
            HttpHeader::Custom(n, v) => (n.clone(), v.clone()),
        }
    }
}

/// Accumulates the fields of one response and writes its wire form.
pub struct ResponseWriter {
    response_map: Vec<(String, String)>,
}

impl View for ResponseWriter {
    type V = FieldsView;

    closed spec fn view(&self) -> FieldsView {
        pairs_view(self.response_map@)
    }
}

fn is_reserved_name(name: &String) -> (r: bool)
    ensures
        r == is_reserved(name@),
{
    *name == "Status".to_owned() || *name == "Content-Type".to_owned() || *name
        == "Content-Length".to_owned() || *name == "Body".to_owned()
}

impl ResponseWriter {
    /// A writer with no field set.
    pub fn new() -> (r: ResponseWriter)
        ensures
            r@ == Seq::<(Seq<char>, Seq<char>)>::empty(),
    {
        let r = ResponseWriter { response_map: Vec::new() };
        assert(r@ =~= Seq::<(Seq<char>, Seq<char>)>::empty());
        r
    }

    /// The value of field `name`, if set.
    pub fn get(&self, name: &str) -> (r: Option<String>)
        ensures
            r matches Some(s) ==> field(self@, name@) == Some(s@),
            r is None ==> field(self@, name@) is None,
    {
        get_field(&self.response_map, &name.to_owned())
    }

    fn set_response(&mut self, key: String, value: String) -> (r: Option<String>)
        ensures
            final(self)@ == put(old(self)@, key@, value@),
            r matches Some(s) ==> field(old(self)@, key@) == Some(s@),
            r is None ==> field(old(self)@, key@) is None,
    {
        put_field(&mut self.response_map, key, value)
    }

    /// Sets the content type; gives back the one it replaces.
    pub fn set_content_type(&mut self, value: String) -> (r: Option<String>)
        ensures
            final(self)@ == put(old(self)@, content_type_key(), value@),
            r matches Some(s) ==> field(old(self)@, content_type_key()) == Some(s@),
            r is None ==> field(old(self)@, content_type_key()) is None,
    {
        self.set_response("Content-Type".to_owned(), value)
    }

    /// Sets a header; gives back the value it replaces.
    pub fn set_header(&mut self, header: HttpHeader) -> (r: Option<String>)
        ensures
            final(self)@ == put(old(self)@, header_pair(header).0, header_pair(header).1),
            r matches Some(s) ==> field(old(self)@, header_pair(header).0) == Some(s@),
            r is None ==> field(old(self)@, header_pair(header).0) is None,
    {
        let (key, value) = header.as_str();
        self.set_response(key, value)
    }

    /// Sets the body, and the content length to its length in bytes.
    pub fn set_body(&mut self, body: String)
        ensures
            final(self)@ == with_body(old(self)@, body@),
    {
        let n = body.as_str().as_bytes().len();
        assert(n == byte_len(body@));
        self.set_response("Content-Length".to_owned(), decimal_string(n));
        self.set_response("Body".to_owned(), body);
    }

    /// Sets an HTML document as the body, with content type `text/html`.
    pub fn set_html_body(&mut self, body: String)
        ensures
            final(self)@ == put(with_body(old(self)@, body@), content_type_key(), "text/html"@),
    {
        self.set_body(body);
        self.set_content_type("text/html".to_owned());
    }

    /// Sets the status line's text from a known status.
    pub fn set_status(&mut self, status: HttpStatus)
        ensures
            final(self)@ == put(old(self)@, status_key(), status_text(status)),
    {
        self.set_response("Status".to_owned(), status.to_string());
    }

    /// Sets the status line's text as given, such as `"201"`.
    pub fn set_status_text(&mut self, status: String)
        ensures
            final(self)@ == put(old(self)@, status_key(), status@),
    {
        self.set_response("Status".to_owned(), status);
    }

    /// Fills in the missing defaults and writes the response's wire form.
    pub fn response(&mut self) -> (r: String)
        ensures
            final(self)@ == with_defaults(old(self)@),
            r@ == wire(final(self)@),
    {
        if self.get("Content-Type").is_none() {
            self.set_response("Content-Type".to_owned(), "text/plain".to_owned());
        }
        if self.get("Body").is_none() {
            self.set_response("Body".to_owned(), String::new());
            self.set_response("Content-Length".to_owned(), "0".to_owned());
        }
        if self.get("Status").is_none() {
            self.set_response("Status".to_owned(), "200 OK".to_owned());
        }
        let mut headers = String::new();
        let mut i: usize = 0;
        while i < self.response_map.len()
            invariant
                i <= self.response_map@.len(),
                headers@ == header_lines(pairs_view(self.response_map@.subrange(0, i as int))),
            decreases self.response_map@.len() - i,
        {
            let ghost before = pairs_view(self.response_map@.subrange(0, i as int));
            let ghost after = pairs_view(self.response_map@.subrange(0, i as int + 1));
            assert(after.drop_last() =~= before);
            let name = &self.response_map[i].0;
            if !is_reserved_name(name) {
                headers.append(name.as_str());
                headers.append(": ");
                headers.append(self.response_map[i].1.as_str());
                headers.append("\r\n");
                assert(headers@ =~= header_lines(after));
            } else {
                assert(headers@ =~= header_lines(after));
            }
            i = i + 1;
        }
        assert(self.response_map@.subrange(0, self.response_map@.len() as int)
            =~= self.response_map@);
        let status = self.get("Status");
        let content_type = self.get("Content-Type");
        let body = self.get("Body");
        let status = match status { Some(s) => s, None => "200 OK".to_owned() };
        let content_type = match content_type { Some(s) => s, None => "text/plain".to_owned() };
        let body = match body { Some(s) => s, None => String::new() };
        assert(status@ == field_or(self@, status_key(), "200 OK"@));
        assert(content_type@ == field_or(self@, content_type_key(), "text/plain"@));
        assert(body@ == field_or(self@, body_key(), Seq::<char>::empty()));
        assert(headers@ == header_lines(self@));
        let length = decimal_string(body.as_str().as_bytes().len());
        let mut out = "HTTP/1.1 ".to_owned();
        out.append(status.as_str());
        out.append("\r\n");
        out.append("Content-Type: ");
        out.append(content_type.as_str());
        out.append("; charset=utf-8\r\n");
        out.append("Content-Length: ");
        out.append(length.as_str());
        out.append("\r\n");
        out.append(headers.as_str());
        out.append("\r\n");
        out.append(body.as_str());
        assert(out@ =~= wire(self@));
        out
    }
}

} // verus!
