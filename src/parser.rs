use vstd::prelude::*;
use vstd::utf8::{valid_utf8, decode_utf8, encode_utf8};

use crate::fields::{FieldsView, pairs_view, field, put, first_wins, last_wins, get_field,
    put_field};
use crate::http_method::{HttpMethod, method_name};
use crate::text::{text_of_bytes, concat_str};

verus! {

/// What the head scanner reports on a buffer, as plain values.
pub enum HeadShape {
    Complete {
        method: Option<Seq<char>>,
        path: Option<Seq<char>>,
        headers: Seq<(Seq<char>, Seq<u8>)>,
        head_len: nat,
    },
    Partial,
    Invalid,
}

/// The request line and header block of a request, as scanned.
pub struct RawHead {
    pub method: Option<String>,
    pub path: Option<String>,
    pub headers: Vec<(String, Vec<u8>)>,
    /// Offset of the first byte after the head.
    pub head_len: usize,
}

/// Outcome of scanning a buffer for a request head.
pub enum HeadScan {
    Complete(RawHead),
    Partial,
    Invalid,
}

/// The names and raw values of `v`.
pub open spec fn raw_headers_view(v: Seq<(String, Vec<u8>)>) -> Seq<(Seq<char>, Seq<u8>)> {
    Seq::new(v.len(), |i: int| (v[i].0@, v[i].1@))
}

pub open spec fn opt_text(s: Option<String>) -> Option<Seq<char>> {
    match s {
        Some(t) => Some(t@),
        None => None,
    }
}

impl View for HeadScan {
    type V = HeadShape;

    open spec fn view(&self) -> HeadShape {
        match self {
            HeadScan::Complete(h) => HeadShape::Complete {
                method: opt_text(h.method),
                path: opt_text(h.path),
                headers: raw_headers_view(h.headers@),
                head_len: h.head_len as nat,
            },
            HeadScan::Partial => HeadShape::Partial,
            HeadScan::Invalid => HeadShape::Invalid,
        }
    }
}

/// What the `httparse` request parser makes of `buf`.
pub uninterp spec fn scanned_head(buf: Seq<u8>) -> HeadShape;

/// Relies on `httparse::Request::parse` (with room for 64 headers): its
/// outcome depends on the bytes alone, and a complete head ends within them.
#[verifier::external_body]
pub(crate) fn scan_head(buf: &[u8]) -> (r: HeadScan)
    ensures
        r@ == scanned_head(buf@),
        r is Complete ==> r->0.head_len <= buf@.len(),
{
    let mut slots = [httparse::EMPTY_HEADER; 64];
    let mut req = httparse::Request::new(&mut slots);
    match req.parse(buf) {
        Ok(httparse::Status::Complete(n)) => HeadScan::Complete(RawHead {
            method: req.method.map(|m| m.to_string()),
            path: req.path.map(|p| p.to_string()),
            headers: req.headers.iter().map(|h| (h.name.to_string(), h.value.to_vec())).collect(),
            head_len: n,
        }),
        Ok(httparse::Status::Partial) => HeadScan::Partial,
        Err(_) => HeadScan::Invalid,
    }
}

/// What the `url` crate makes of `target` joined onto the base URL `base`:
/// the path, and the decoded query pairs in order.
pub uninterp spec fn joined_url(base: Seq<char>, target: Seq<char>) -> Option<(Seq<char>, FieldsView)>;

/// Relies on `url::Url::parse` of the base, `Url::join` of the target onto
/// it, and the joined URL's `path` and `query_pairs`: the outcome depends on
/// the two texts alone.
#[verifier::external_body]
pub(crate) fn join_url(base: &str, target: &str) -> (r: Option<(String, Vec<(String, String)>)>)
    ensures
        match r {
            Some((p, q)) => joined_url(base@, target@) == Some((p@, pairs_view(q@))),
            None => joined_url(base@, target@) is None,
        },
{
    let full = url::Url::parse(base).ok()?.join(target).ok()?;
    let pairs = full.query_pairs().map(|(k, v)| (k.into_owned(), v.into_owned())).collect();
    Some((full.path().to_string(), pairs))
}

/// Why a request head could not be read.
#[derive(Debug, Clone, Copy, PartialEq, Eq, Structural)]
pub enum ParseError {
    MissingMethod,
    MissingPath,
    InvalidTarget,
    InvalidHeaderValue,
}

/// A request, as read from its head and the bytes after it.
#[derive(Debug, Clone)]
pub struct Parser {
    pub method: String,
    pub path: String,
    /// Headers by name, first occurrence first; a repeated name keeps its
    /// first value.
    pub header: Vec<(String, String)>,
    /// Query pairs by key, a repeated key keeping its last value.
    pub query_params: Option<Vec<(String, String)>>,
    pub body: Option<String>,
}

/// Methods whose requests carry a body.
pub open spec fn reads_body(m: Seq<char>) -> bool {
    m == method_name(HttpMethod::POST) || m == method_name(HttpMethod::PUT) || m == method_name(
        HttpMethod::DELETE,
    )
}

/// The body: what follows the head, for a method that carries one, when
/// some bytes follow and they are valid UTF-8.
pub open spec fn body_spec(method: Seq<char>, buf: Seq<u8>, head_len: nat) -> Option<Seq<char>> {
    let rest = buf.subrange(head_len as int, buf.len() as int);
    if reads_body(method) && rest.len() > 0 && valid_utf8(rest) {
        Some(decode_utf8(rest))
    } else {
        None
    }
}

/// Every header value is valid UTF-8.
pub open spec fn header_values_valid(h: Seq<(Seq<char>, Seq<u8>)>) -> bool {
    forall|i: int| 0 <= i < h.len() ==> valid_utf8(#[trigger] h[i].1)
}

/// The headers with their values decoded.
pub open spec fn decoded_headers(h: Seq<(Seq<char>, Seq<u8>)>) -> FieldsView {
    Seq::new(h.len(), |i: int| (h[i].0, decode_utf8(h[i].1)))
}

/// The base URL against which request targets are resolved.
pub open spec fn base_url(address: Seq<char>) -> Seq<char> {
    "http://"@ + address
}

impl Parser {
    /// The value of header `name`, if the request has it.
    pub fn get_header(&self, name: &str) -> (r: Option<String>)
        ensures
            r matches Some(s) ==> field(pairs_view(self.header@), name@) == Some(s@),
            r is None ==> field(pairs_view(self.header@), name@) is None,
    {
        get_field(&self.header, &name.to_owned())
    }

    /// The value of query parameter `key`, if the request has it.
    pub fn get_query_param(&self, key: &str) -> (r: Option<String>)
        ensures
            match self.query_params {
                Some(q) => {
                    &&& r matches Some(s) ==> field(pairs_view(q@), key@) == Some(s@)
                    &&& r is None ==> field(pairs_view(q@), key@) is None
                },
                None => r is None,
            },
    {
        match &self.query_params {
            Some(q) => get_field(q, &key.to_owned()),
            None => None,
        }
    }
}

/// The headers kept by the parser: each value decoded, the first of each name.
pub open spec fn header_map(h: Seq<(Seq<char>, Seq<u8>)>) -> FieldsView {
    first_wins(decoded_headers(h))
}

/// The request that a scanned head and its buffer make, or why there is none.
pub open spec fn request_spec(
    head: HeadShape,
    address: Seq<char>,
    buf: Seq<u8>,
) -> Result<(Seq<char>, Seq<char>, FieldsView, FieldsView, Option<Seq<char>>), ParseError> {
    match head {
        HeadShape::Complete { method, path, headers, head_len } => {
            if method is None {
                Err(ParseError::MissingMethod)
            } else if path is None {
                Err(ParseError::MissingPath)
            } else if joined_url(base_url(address), path->0) is None || decoded_path(
                (joined_url(base_url(address), path->0)->0).0,
            ) is None {
                Err(ParseError::InvalidTarget)
            } else if !header_values_valid(headers) {
                Err(ParseError::InvalidHeaderValue)
            } else {
                let (p, q) = joined_url(base_url(address), path->0)->0;
                Ok(
                    (
                        method->0,
                        decoded_path(p)->0,
                        header_map(headers),
                        last_wins(q),
                        body_spec(method->0, buf, head_len),
                    ),
                )
            }
        },
        _ => Err(ParseError::MissingMethod),
    }
}

/// The parts of a parsed request, as plain values.
pub open spec fn parser_view(p: Parser) -> (Seq<char>, Seq<char>, FieldsView, FieldsView, Option<Seq<char>>) {
    (
        p.method@,
        p.path@,
        pairs_view(p.header@),
        match p.query_params {
            Some(q) => pairs_view(q@),
            None => seq![],
        },
        opt_text(p.body),
    )
}

/// The pairs of `s` put one after another, so that a later key replaces
/// the value of an earlier one.
pub fn collect_last_wins(s: Vec<(String, String)>) -> (r: Vec<(String, String)>)
    ensures
        pairs_view(r@) == last_wins(pairs_view(s@)),
{
    let mut out: Vec<(String, String)> = Vec::new();
    let mut i: usize = 0;
    assert(pairs_view(s@).subrange(0, 0) =~= Seq::<(Seq<char>, Seq<char>)>::empty());
    assert(pairs_view(out@) =~= Seq::<(Seq<char>, Seq<char>)>::empty());
    while i < s.len()
        invariant
            i <= s@.len(),
            pairs_view(out@) == last_wins(pairs_view(s@).subrange(0, i as int)),
        decreases s@.len() - i,
    {
        let ghost prefix = pairs_view(s@).subrange(0, i as int + 1);
        assert(prefix.drop_last() =~= pairs_view(s@).subrange(0, i as int));
        let k = s[i].0.clone();
        let v = s[i].1.clone();
        put_field(&mut out, k, v);
        i = i + 1;
    }
    assert(pairs_view(s@).subrange(0, s@.len() as int) =~= pairs_view(s@));
    out
}

impl Parser {
    /// Builds the request from a scanned head and the buffer it was scanned
    /// from; `base_address` is the `host:port` that targets are resolved
    /// against.
    pub fn new(payload: &RawHead, base_address: &str, buffer: &[u8]) -> (r: Result<Parser, ParseError>)
        requires
            payload.head_len <= buffer@.len(),
        ensures
            match r {
                Ok(p) => request_spec(HeadScan::Complete(*payload)@, base_address@, buffer@)
                    == Ok::<_, ParseError>(parser_view(p)) && p.query_params is Some,
                Err(e) => request_spec(HeadScan::Complete(*payload)@, base_address@, buffer@)
                    == Err::<(Seq<char>, Seq<char>, FieldsView, FieldsView, Option<Seq<char>>), _>(e),
            },
    {
        let method = match &payload.method {
            Some(verb) => verb.clone(),
            None => return Err(ParseError::MissingMethod),
        };
        let target = match &payload.path {
            Some(p) => p.clone(),
            None => return Err(ParseError::MissingPath),
        };
        let body = Parser::parse_body(&method, buffer, payload.head_len);
        let (path, query_params) = match Parser::parse_url_and_get_query_params(&target, base_address) {
            Some(t) => t,
            None => return Err(ParseError::InvalidTarget),
        };
        let header = match Parser::parse_headers(&payload.headers) {
            Some(h) => h,
            None => return Err(ParseError::InvalidHeaderValue),
        };
        Ok(Parser { method, path, header, query_params: Some(query_params), body })
    }

    fn parse_url_and_get_query_params(relative_path: &String, base_address: &str) -> (r: Option<(String, Vec<(String, String)>)>)
        ensures
            match r {
                Some((p, q)) => joined_url(base_url(base_address@), relative_path@) matches Some(j)
                    && decoded_path(j.0) == Some(p@) && pairs_view(q@) == last_wins(j.1),
                None => joined_url(base_url(base_address@), relative_path@) is None || decoded_path(
                    (joined_url(base_url(base_address@), relative_path@)->0).0,
                ) is None,
            },
    {
        let base = concat_str("http://", base_address);
        match join_url(base.as_str(), relative_path.as_str()) {
            Some((path, pairs)) => {
                let decoded = percent_decode(path.as_str().as_bytes());
                match text_of_bytes(decoded.as_slice()) {
                    Some(p) => Some((p, collect_last_wins(pairs))),
                    None => None,
                }
            },
            None => None,
        }
    }

    fn parse_body(method: &String, buffer: &[u8], parsed_len: usize) -> (r: Option<String>)
        requires
            parsed_len <= buffer@.len(),
        ensures
            opt_text(r) == body_spec(method@, buffer@, parsed_len as nat),
    {
        let m = HttpMethod::from_name(method.as_str());
        proof {
            crate::http_method::lemma_method_of_name(HttpMethod::POST);
            crate::http_method::lemma_method_of_name(HttpMethod::PUT);
            crate::http_method::lemma_method_of_name(HttpMethod::DELETE);
            crate::http_method::lemma_method_of_name(HttpMethod::GET);
        }
        match m {
            Some(HttpMethod::POST) | Some(HttpMethod::PUT) | Some(HttpMethod::DELETE) => {
                if parsed_len == buffer.len() {
                    return None;
                }
                let rest = slice_from(buffer, parsed_len);
                text_of_bytes(rest.as_slice())
            },
            _ => None,
        }
    }

    fn parse_headers(headers: &Vec<(String, Vec<u8>)>) -> (r: Option<Vec<(String, String)>>)
        ensures
            match r {
                Some(h) => header_values_valid(raw_headers_view(headers@)) && pairs_view(h@)
                    == header_map(raw_headers_view(headers@)),
                None => !header_values_valid(raw_headers_view(headers@)),
            },
    {
        let ghost raw = raw_headers_view(headers@);
        let mut out: Vec<(String, String)> = Vec::new();
        let mut i: usize = 0;
        assert(decoded_headers(raw).subrange(0, 0) =~= Seq::<(Seq<char>, Seq<char>)>::empty());
        assert(pairs_view(out@) =~= Seq::<(Seq<char>, Seq<char>)>::empty());
        while i < headers.len()
            invariant
                i <= headers@.len(),
                raw == raw_headers_view(headers@),
                forall|j: int| 0 <= j < i ==> valid_utf8(#[trigger] raw[j].1),
                pairs_view(out@) == first_wins(decoded_headers(raw).subrange(0, i as int)),
            decreases headers@.len() - i,
        {
            let value = match text_of_bytes(headers[i].1.as_slice()) {
                Some(v) => v,
                None => {
                    assert(!valid_utf8(raw[i as int].1));
                    return None;
                },
            };
            let ghost prefix = decoded_headers(raw).subrange(0, i as int + 1);
            assert(prefix.drop_last() =~= decoded_headers(raw).subrange(0, i as int));
            assert(prefix.last() == (raw[i as int].0, value@));
            let name = headers[i].0.clone();
            if get_field(&out, &name).is_none() {
                out.push((name, value));
                assert(pairs_view(out@) =~= first_wins(prefix));
            }
            i = i + 1;
        }
        assert(decoded_headers(raw).subrange(0, headers@.len() as int) =~= decoded_headers(raw));
        Some(out)
    }
}

/// The value of an ASCII hexadecimal digit.
pub open spec fn hex_value(b: u8) -> Option<nat> {
    if 0x30 <= b <= 0x39 {
        Some((b - 0x30) as nat)
    } else if 0x41 <= b <= 0x46 {
        Some((b - 0x41 + 10) as nat)
    } else if 0x61 <= b <= 0x66 {
        Some((b - 0x61 + 10) as nat)
    } else {
        None
    }
}

/// `s` with each `%` followed by two hexadecimal digits replaced by the
/// byte they denote; any other byte is kept.
pub open spec fn percent_decoded(s: Seq<u8>) -> Seq<u8>
    decreases s.len(),
{
    if s.len() == 0 {
        seq![]
    } else if s.len() >= 3 && s[0] == 0x25 && hex_value(s[1]) is Some && hex_value(s[2]) is Some {
        seq![(hex_value(s[1])->0 * 16 + hex_value(s[2])->0) as u8] + percent_decoded(
            s.subrange(3, s.len() as int),
        )
    } else {
        seq![s[0]] + percent_decoded(s.subrange(1, s.len() as int))
    }
}

/// A path with its percent escapes decoded, when the result is UTF-8 text.
pub open spec fn decoded_path(p: Seq<char>) -> Option<Seq<char>> {
    let b = percent_decoded(encode_utf8(p));
    if valid_utf8(b) {
        Some(decode_utf8(b))
    } else {
        None
    }
}

fn hex_digit(b: u8) -> (r: Option<u8>)
    ensures
        match hex_value(b) {
            Some(v) => r == Some(v as u8),
            None => r is None,
        },
{
    if 0x30 <= b && b <= 0x39 {
        Some(b - 0x30)
    } else if 0x41 <= b && b <= 0x46 {
        Some(b - 0x41 + 10)
    } else if 0x61 <= b && b <= 0x66 {
        Some(b - 0x61 + 10)
    } else {
        None
    }
}

/// Decodes the percent escapes of `s`, as `percent_decoded` states.
pub fn percent_decode(s: &[u8]) -> (r: Vec<u8>)
    ensures
        r@ == percent_decoded(s@),
{
    let mut out: Vec<u8> = Vec::new();
    let mut i: usize = 0;
    assert(s@.subrange(0, s@.len() as int) =~= s@);
    while i < s.len()
        invariant
            i <= s@.len(),
            out@ + percent_decoded(s@.subrange(i as int, s@.len() as int)) == percent_decoded(s@),
        decreases s@.len() - i,
    {
        let ghost rest = s@.subrange(i as int, s@.len() as int);
        let mut step: usize = 1;
        let mut byte: u8 = s[i];
        if s[i] == 0x25 && s.len() - i >= 3 {
            match (hex_digit(s[i + 1]), hex_digit(s[i + 2])) {
                (Some(hi), Some(lo)) => {
                    byte = hi * 16 + lo;
                    step = 3;
                },
                _ => {},
            }
        }
        assert(rest.subrange(step as int, rest.len() as int) =~= s@.subrange(
            i + step,
            s@.len() as int,
        ));
        assert(percent_decoded(rest) == seq![byte] + percent_decoded(
            rest.subrange(step as int, rest.len() as int),
        ));
        out.push(byte);
        i = i + step;
    }
    assert(percent_decoded(s@.subrange(s@.len() as int, s@.len() as int)) =~= Seq::<u8>::empty());
    assert(out@ + Seq::<u8>::empty() =~= out@);
    out
}

/// The bytes of `b` from `start` on.
pub fn slice_from(b: &[u8], start: usize) -> (r: Vec<u8>)
    requires
        start <= b@.len(),
    ensures
        r@ == b@.subrange(start as int, b@.len() as int),
{
    let mut out: Vec<u8> = Vec::new();
    let mut i: usize = start;
    while i < b.len()
        invariant
            start <= i <= b@.len(),
            out@ == b@.subrange(start as int, i as int),
        decreases b@.len() - i,
    {
        out.push(b[i]);
        i = i + 1;
        assert(out@ =~= b@.subrange(start as int, i as int));
    }
    out
}

} // verus!
