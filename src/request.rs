use vstd::prelude::*;
use vstd::utf8::{valid_utf8, decode_utf8};

use crate::fields::{FieldsView, pairs_view, field, put, last_wins, lemma_put_at};
use crate::parser::{Parser, collect_last_wins, opt_text};
use crate::text::{chars_of, string_of, text_of_bytes};

verus! {

/// The pairs that `application/x-www-form-urlencoded` decoding of `body` gives, in order.
pub uninterp spec fn form_decoded(body: Seq<char>) -> FieldsView;

/// Relies on `url::form_urlencoded::parse`: the decoded pairs depend on the
/// bytes alone.
#[verifier::external_body]
fn form_pairs(body: &str) -> (r: Vec<(String, String)>)
    ensures
        pairs_view(r@) == form_decoded(body@),
{
    url::form_urlencoded::parse(body.as_bytes()).into_owned().collect()
}

/// The fields, with their raw contents, that a multipart body holds for
/// the given boundary, in order, up to the first that cannot be read.
pub uninterp spec fn multipart_fields(body: Seq<char>, boundary: Seq<char>) -> Seq<(Seq<char>, Seq<u8>)>;

/// Relies on `multipart::server::Multipart::read_entry` over the body, and
/// on reading each entry's data to its end: the fields depend on the body
/// and the boundary alone.
#[verifier::external_body]
fn read_multipart(body: &str, boundary: &str) -> (r: Vec<(String, Vec<u8>)>)
    ensures
        Seq::new(r@.len(), |i: int| (r@[i].0@, r@[i].1@)) == multipart_fields(body@, boundary@),
{
    let cursor = std::io::Cursor::new(body.as_bytes().to_vec());
    let mut form = multipart::server::Multipart::with_body(cursor, boundary);
    let mut out = Vec::new();
    while let Ok(Some(mut entry)) = form.read_entry() {
        let mut data = Vec::new();
        if std::io::Read::read_to_end(&mut entry.data, &mut data).is_err() {
            break;
        }
        out.push((entry.headers.name.to_string(), data));
    }
    out
}

/// A request as handed to a handler.
pub struct Request {
    pub request: Parser,
}

/// One field of a multipart form: a text value, or the bytes of a file.
#[derive(Debug, Clone, PartialEq, Eq)]
pub struct MultiForm {
    pub generic_value: Option<String>,
    pub file: Option<Vec<u8>>,
}

/// A form field's text value and file bytes.
pub open spec fn multi_form_view(m: MultiForm) -> (Option<Seq<char>>, Option<Seq<u8>>) {
    (opt_text(m.generic_value), match m.file {
        Some(b) => Some(b@),
        None => None,
    })
}

/// The characters that trimming removes at either end.
pub open spec fn is_space(c: char) -> bool {
    c == ' ' || c == '\t' || c == '\n' || c == '\r' || c == '\x0c'
}

/// `s` without the spaces at its start.
pub open spec fn trim_start(s: Seq<char>) -> Seq<char>
    decreases s.len(),
{
    if s.len() > 0 && is_space(s[0]) {
        trim_start(s.drop_first())
    } else {
        s
    }
}

/// `s` without the spaces at its end.
pub open spec fn trim_end(s: Seq<char>) -> Seq<char>
    decreases s.len(),
{
    if s.len() > 0 && is_space(s.last()) {
        trim_end(s.drop_last())
    } else {
        s
    }
}

/// `s` without the spaces at either end.
pub open spec fn trim(s: Seq<char>) -> Seq<char> {
    trim_end(trim_start(s))
}

/// The parameter name that introduces a multipart boundary.
pub open spec fn boundary_prefix() -> Seq<char> {
    "boundary="@
}

/// The position of the first `;` in `s`, or its length when there is none.
pub open spec fn segment_end(s: Seq<char>) -> int
    decreases s.len(),
{
    if s.len() == 0 {
        0
    } else if s[0] == ';' {
        0
    } else {
        1 + segment_end(s.drop_first())
    }
}

/// The boundary named in a content type: of the `;`-separated parts, the
/// first that starts, once trimmed, with `boundary=`, without that prefix.
pub open spec fn boundary_of(s: Seq<char>) -> Option<Seq<char>>
    decreases s.len(),
    via boundary_of_decreases
{
    let end = segment_end(s);
    let part = trim(s.subrange(0, end));
    if part.len() >= boundary_prefix().len() && part.subrange(0, boundary_prefix().len() as int)
        == boundary_prefix() {
        Some(part.subrange(boundary_prefix().len() as int, part.len() as int))
    } else if end >= s.len() {
        None
    } else {
        boundary_of(s.subrange(end + 1, s.len() as int))
    }
}

/// The name that marks a multipart field as a file.
pub open spec fn file_field_name() -> Seq<char> {
    "file"@
}

/// Every field that is not a file is valid UTF-8 text.
pub open spec fn text_fields_valid(e: Seq<(Seq<char>, Seq<u8>)>) -> bool {
    forall|i: int| 0 <= i < e.len() ==> #[trigger] e[i].0 == file_field_name() || valid_utf8(e[i].1)
}

/// Each field as a form value: a file for the field named `file`, text otherwise.
pub open spec fn form_values(e: Seq<(Seq<char>, Seq<u8>)>) -> Seq<(Seq<char>, (Option<Seq<char>>, Option<Seq<u8>>))> {
    Seq::new(
        e.len(),
        |i: int|
            (e[i].0, if e[i].0 == file_field_name() {
                (None, Some(e[i].1))
            } else {
                (Some(decode_utf8(e[i].1)), None)
            }),
    )
}

/// The forms' names and values.
pub open spec fn forms_view(v: Seq<(String, MultiForm)>) -> Seq<(Seq<char>, (Option<Seq<char>>, Option<Seq<u8>>))> {
    Seq::new(v.len(), |i: int| (v[i].0@, multi_form_view(v[i].1)))
}

fn starts_with_boundary_prefix(part: &Vec<char>) -> (r: bool)
    ensures
        r == (part@.len() >= boundary_prefix().len() && part@.subrange(
            0,
            boundary_prefix().len() as int,
        ) == boundary_prefix()),
{
    let prefix = chars_of("boundary=");
    if part.len() < prefix.len() {
        return false;
    }
    let mut i: usize = 0;
    while i < prefix.len()
        invariant
            prefix@ == boundary_prefix(),
            prefix@.len() <= part@.len(),
            i <= prefix@.len(),
            forall|j: int| 0 <= j < i ==> part@[j] == prefix@[j],
        decreases prefix@.len() - i,
    {
        if part[i] != prefix[i] {
            assert(part@.subrange(0, prefix@.len() as int)[i as int] != prefix@[i as int]);
            return false;
        }
        i = i + 1;
    }
    assert(part@.subrange(0, prefix@.len() as int) =~= prefix@);
    true
}

fn is_space_char(c: char) -> (r: bool)
    ensures
        r == is_space(c),
{
    c == ' ' || c == '\t' || c == '\n' || c == '\r' || c == '\x0c'
}

proof fn lemma_trim_start_skip(s: Seq<char>, i: int)
    requires
        0 <= i <= s.len(),
        forall|j: int| 0 <= j < i ==> is_space(#[trigger] s[j]),
    ensures
        trim_start(s) == trim_start(s.subrange(i, s.len() as int)),
    decreases i,
{
    if i > 0 {
        lemma_trim_start_skip(s.drop_first(), i - 1);
        assert(s.drop_first().subrange(i - 1, s.len() - 1) =~= s.subrange(i, s.len() as int));
    } else {
        assert(s.subrange(0, s.len() as int) =~= s);
    }
}

proof fn lemma_trim_end_skip(s: Seq<char>, i: int)
    requires
        0 <= i <= s.len(),
        forall|j: int| i <= j < s.len() ==> is_space(#[trigger] s[j]),
    ensures
        trim_end(s) == trim_end(s.subrange(0, i)),
    decreases s.len() - i,
{
    if i < s.len() {
        lemma_trim_end_skip(s.drop_last(), i);
        assert(s.drop_last().subrange(0, i) =~= s.subrange(0, i));
    } else {
        assert(s.subrange(0, s.len() as int) =~= s);
    }
}

/// The characters of `s` from `lo` to `hi`, with the spaces at either end removed.
fn trimmed_range(s: &Vec<char>, lo: usize, hi: usize) -> (r: Vec<char>)
    requires
        lo <= hi <= s@.len(),
    ensures
        r@ == trim(s@.subrange(lo as int, hi as int)),
{
    let ghost part = s@.subrange(lo as int, hi as int);
    let mut a: usize = lo;
    while a < hi && is_space_char(s[a])
        invariant
            lo <= a <= hi,
            hi <= s@.len(),
            forall|j: int| lo <= j < a ==> is_space(#[trigger] s@[j]),
        decreases hi - a,
    {
        a = a + 1;
    }
    proof {
        assert forall|j: int| 0 <= j < a - lo implies is_space(#[trigger] part[j]) by {
            assert(part[j] == s@[lo + j]);
        }
        lemma_trim_start_skip(part, a - lo);
        assert(part.subrange(a - lo, part.len() as int) =~= s@.subrange(a as int, hi as int));
        if a < hi {
            assert(s@.subrange(a as int, hi as int)[0] == s@[a as int]);
        }
        assert(trim_start(s@.subrange(a as int, hi as int)) == s@.subrange(a as int, hi as int));
    }
    let ghost mid = s@.subrange(a as int, hi as int);
    let mut b: usize = hi;
    while b > a && is_space_char(s[b - 1])
        invariant
            a <= b <= hi,
            hi <= s@.len(),
            forall|j: int| b <= j < hi ==> is_space(#[trigger] s@[j]),
        decreases b - a,
    {
        b = b - 1;
    }
    proof {
        assert forall|j: int| b - a <= j < mid.len() implies is_space(#[trigger] mid[j]) by {
            assert(mid[j] == s@[a + j]);
        }
        lemma_trim_end_skip(mid, b - a);
        assert(mid.subrange(0, b - a) =~= s@.subrange(a as int, b as int));
        if b > a {
            assert(s@.subrange(a as int, b as int).last() == s@[b - 1]);
        }
        assert(trim_end(s@.subrange(a as int, b as int)) == s@.subrange(a as int, b as int));
    }
    let mut out: Vec<char> = Vec::new();
    let mut i: usize = a;
    while i < b
        invariant
            a <= i <= b,
            b <= s@.len(),
            out@ == s@.subrange(a as int, i as int),
        decreases b - i,
    {
        out.push(s[i]);
        i = i + 1;
        assert(out@ =~= s@.subrange(a as int, i as int));
    }
    out
}

proof fn lemma_segment_end_bound(s: Seq<char>)
    ensures
        0 <= segment_end(s) <= s.len(),
    decreases s.len(),
{
    if s.len() > 0 && s[0] != ';' {
        lemma_segment_end_bound(s.drop_first());
    }
}

#[via_fn]
proof fn boundary_of_decreases(s: Seq<char>) {
    lemma_segment_end_bound(s);
}

proof fn lemma_segment_end(s: Seq<char>, i: int)
    requires
        0 <= i <= s.len(),
        forall|j: int| 0 <= j < i ==> s[j] != ';',
        i < s.len() ==> s[i] == ';',
    ensures
        segment_end(s) == i,
    decreases i,
{
    if i > 0 {
        lemma_segment_end(s.drop_first(), i - 1);
    }
}

/// The boundary named in a content type, as `boundary_of` states it.
pub fn find_boundary(content_type: &str) -> (r: Option<String>)
    ensures
        opt_text(r) == boundary_of(content_type@),
{
    let s = chars_of(content_type);
    let mut start: usize = 0;
    assert(s@.subrange(0, s@.len() as int) =~= s@);
    proof {
        reveal_strlit("boundary=");
        assert(boundary_prefix().len() == 9);
    }
    loop
        invariant
            start <= s@.len(),
            boundary_of(s@) == boundary_of(s@.subrange(start as int, s@.len() as int)),
            s@ == content_type@,
            boundary_prefix().len() == 9,
        decreases s@.len() - start,
    {
        let ghost rest = s@.subrange(start as int, s@.len() as int);
        let mut end: usize = start;
        while end < s.len() && s[end] != ';'
            invariant
                start <= end <= s@.len(),
                forall|j: int| start <= j < end ==> s@[j] != ';',
            decreases s@.len() - end,
        {
            end = end + 1;
        }
        proof {
            assert forall|j: int| 0 <= j < end - start implies rest[j] != ';' by {
                assert(rest[j] == s@[start + j]);
            }
            if end < s@.len() {
                assert(rest[end - start] == s@[end as int]);
            }
            lemma_segment_end(rest, end - start);
            assert(rest.subrange(0, end - start) =~= s@.subrange(start as int, end as int));
        }
        let part = trimmed_range(&s, start, end);
        assert(part@ == trim(rest.subrange(0, segment_end(rest))));
        if starts_with_boundary_prefix(&part) {
            let tail = slice_chars(&part, 9);
            return Some(string_of(tail.as_slice()));
        }
        if end == s.len() {
            return None;
        }
        assert(rest.subrange(end - start + 1, rest.len() as int) =~= s@.subrange(
            end as int + 1,
            s@.len() as int,
        ));
        start = end + 1;
    }
}

/// The characters of `v` from `start` on.
fn slice_chars(v: &Vec<char>, start: usize) -> (r: Vec<char>)
    requires
        start <= v@.len(),
    ensures
        r@ == v@.subrange(start as int, v@.len() as int),
{
    let mut out: Vec<char> = Vec::new();
    let mut i: usize = start;
    while i < v.len()
        invariant
            start <= i <= v@.len(),
            out@ == v@.subrange(start as int, i as int),
        decreases v@.len() - i,
    {
        out.push(v[i]);
        i = i + 1;
        assert(out@ =~= v@.subrange(start as int, i as int));
    }
    out
}

/// The header that names a multipart body's boundary, as clients send it.
pub open spec fn multipart_type_key() -> Seq<char> {
    "content-type"@
}

/// The form a multipart request carries: `None` when it has no content type
/// header, no boundary in it, or no body, or when a text field is not valid
/// UTF-8; otherwise each field by name, a later one replacing an earlier one.
pub open spec fn multipart_spec(p: Parser) -> Option<Seq<(Seq<char>, (Option<Seq<char>>, Option<Seq<u8>>))>> {
    match field(pairs_view(p.header@), multipart_type_key()) {
        None => None,
        Some(ct) => match boundary_of(ct) {
            None => None,
            Some(b) => match p.body {
                None => None,
                Some(body) => {
                    let e = multipart_fields(body@, b);
                    if text_fields_valid(e) {
                        Some(last_wins(form_values(e)))
                    } else {
                        None
                    }
                },
            },
        },
    }
}

impl Request {
    pub fn new(request: Parser) -> (r: Request)
        ensures
            r.request == request,
    {
        Request { request }
    }

    /// The pairs of a URL-encoded form body, a later key replacing the value
    /// of an earlier one; `None` when the request has no body.
    pub fn parse_url_form(&self) -> (r: Option<Vec<(String, String)>>)
        ensures
            match self.request.body {
                Some(b) => r matches Some(m) && pairs_view(m@) == last_wins(form_decoded(b@)),
                None => r is None,
            },
    {
        match &self.request.body {
            Some(b) => Some(collect_last_wins(form_pairs(b.as_str()))),
            None => None,
        }
    }

    /// The fields of a multipart form body, as `multipart_spec` states them.
    pub fn parse_multipart_form(&self) -> (r: Option<Vec<(String, MultiForm)>>)
        ensures
            match r {
                Some(m) => multipart_spec(self.request) == Some(forms_view(m@)),
                None => multipart_spec(self.request) is None,
            },
    {
        let content_type = match self.request.get_header("content-type") {
            Some(c) => c,
            None => return None,
        };
        let boundary = match find_boundary(content_type.as_str()) {
            Some(b) => b,
            None => return None,
        };
        let body = match &self.request.body {
            Some(b) => b,
            None => return None,
        };
        let entries = read_multipart(body.as_str(), boundary.as_str());
        let ghost e = Seq::new(entries@.len(), |i: int| (entries@[i].0@, entries@[i].1@));
        let file_name = "file".to_owned();
        let mut out: Vec<(String, MultiForm)> = Vec::new();
        let mut i: usize = 0;
        assert(form_values(e).subrange(0, 0) =~= Seq::<(Seq<char>, (Option<Seq<char>>, Option<Seq<u8>>))>::empty());
        assert(forms_view(out@) =~= Seq::<(Seq<char>, (Option<Seq<char>>, Option<Seq<u8>>))>::empty());
        while i < entries.len()
            invariant
                i <= entries@.len(),
                e == Seq::new(entries@.len(), |i: int| (entries@[i].0@, entries@[i].1@)),
                file_name@ == file_field_name(),
                e == multipart_fields(body@, boundary@),
                field(pairs_view(self.request.header@), multipart_type_key()) == Some(content_type@),
                boundary_of(content_type@) == Some(boundary@),
                self.request.body == Some(*body),
                forall|j: int| 0 <= j < i ==> #[trigger] e[j].0 == file_field_name() || valid_utf8(e[j].1),
                forms_view(out@) == last_wins(form_values(e).subrange(0, i as int)),
            decreases entries@.len() - i,
        {
            let name = entries[i].0.clone();
            let form = if name == file_name {
                MultiForm { generic_value: None, file: Some(entries[i].1.clone()) }
            } else {
                match text_of_bytes(entries[i].1.as_slice()) {
                    Some(text) => MultiForm { generic_value: Some(text), file: None },
                    None => {
                        assert(!(e[i as int].0 == file_field_name() || valid_utf8(e[i as int].1)));
                        assert(!text_fields_valid(e));
                        return None;
                    },
                }
            };
            let ghost prefix = form_values(e).subrange(0, i as int + 1);
            assert(prefix.drop_last() =~= form_values(e).subrange(0, i as int));
            assert(prefix.last() == (name@, multi_form_view(form)));
            put_form(&mut out, name, form);
            i = i + 1;
        }
        assert(form_values(e).subrange(0, entries@.len() as int) =~= form_values(e));
        Some(out)
    }
}

fn put_form(v: &mut Vec<(String, MultiForm)>, k: String, form: MultiForm)
    ensures
        forms_view(final(v)@) == put(forms_view(old(v)@), k@, multi_form_view(form)),
{
    let ghost f = forms_view(v@);
    let ghost kv = k@;
    let ghost fv = multi_form_view(form);
    let mut i: usize = 0;
    while i < v.len()
        invariant
            i <= v@.len(),
            f == forms_view(v@),
            f == forms_view(old(v)@),
            kv == k@,
            fv == multi_form_view(form),
            forall|j: int| 0 <= j < i ==> f[j].0 != k@,
        decreases v@.len() - i,
    {
        if v[i].0 == k {
            proof {
                lemma_put_at(f, k@, multi_form_view(form), i as int);
            }
            v.set(i, (k, form));
            assert(forms_view(v@) =~= f.update(i as int, (kv, fv)));
            return;
        }
        i = i + 1;
    }
    proof {
        lemma_put_at(f, k@, multi_form_view(form), f.len() as int);
    }
    v.push((k, form));
    assert(forms_view(v@) =~= f.push((kv, fv)));
}

} // verus!
