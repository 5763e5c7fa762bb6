use vstd::prelude::*;
use vstd::string::*;
use crate::decimal::{
    is_ascii_digit, lemma_parse_i64_in_range, parse_i64, parse_i64_bytes, unsigned_digits,
};
use crate::text::{header_value_text, is_visible_ascii, visible_text};

verus! {

/// The name of the header that gives the body's length.
pub const CONTENT_LENGTH: &'static str = "content-length";

/// The name of the header that gives the body's media type.
pub const CONTENT_TYPE: &'static str = "content-type";

/// The name of the header that names the client software.
pub const USER_AGENT: &'static str = "user-agent";

/// The text of an optional `String`.
pub open spec fn opt_text(o: Option<String>) -> Option<Seq<char>> {
    match o {
        Some(s) => Some(s@),
        None => None,
    }
}

/// One header of a request, as the request carried it: its name, in the
/// lowercase form that HTTP header names take, and the raw bytes of its value.
pub struct HeaderField {
    pub name: String,
    pub value: Vec<u8>,
}

/// The headers of a request as (name, value bytes) pairs, in the order the
/// request's header map yields them.
pub open spec fn headers_view(headers: Seq<HeaderField>) -> Seq<(Seq<char>, Seq<u8>)> {
    headers.map_values(|f: HeaderField| (f.name@, f.value@))
}

/// What the service keeps of a request before its body is read: the method,
/// the path, the query (without its `?`) when the URI has one, and the headers.
pub struct CapturedRequest {
    pub method: String,
    pub path: String,
    pub query: Option<String>,
    pub headers: Vec<HeaderField>,
}

/// The model of a [`CapturedRequest`].
pub struct CapturedRequestView {
    pub method: Seq<char>,
    pub path: Seq<char>,
    pub query: Option<Seq<char>>,
    pub headers: Seq<(Seq<char>, Seq<u8>)>,
}

impl View for CapturedRequest {
    type V = CapturedRequestView;

    open spec fn view(&self) -> CapturedRequestView {
        CapturedRequestView {
            method: self.method@,
            path: self.path@,
            query: opt_text(self.query),
            headers: headers_view(self.headers@),
        }
    }
}

/// The value of the first header from position `i` on whose name is `name`.
pub open spec fn first_header_from(headers: Seq<(Seq<char>, Seq<u8>)>, name: Seq<char>, i: int) -> Option<Seq<u8>>
    decreases headers.len() - i,
{
    if i < 0 || i >= headers.len() {
        None
    } else if headers[i].0 == name {
        Some(headers[i].1)
    } else {
        first_header_from(headers, name, i + 1)
    }
}

/// The value of the first header named `name`, as a header map's `get` gives it.
pub open spec fn first_header_value(headers: Seq<(Seq<char>, Seq<u8>)>, name: Seq<char>) -> Option<Seq<u8>> {
    first_header_from(headers, name, 0)
}

/// The text of the first header named `name`, when there is one and its value
/// reads as text.
pub open spec fn header_text_of(headers: Seq<(Seq<char>, Seq<u8>)>, name: Seq<char>) -> Option<Seq<char>> {
    match first_header_value(headers, name) {
        Some(v) => visible_text(v),
        None => None,
    }
}

/// The length that the `content-length` header states: its text read as an
/// `i64`, when the header is there and reads as one.
pub open spec fn content_length_of(headers: Seq<(Seq<char>, Seq<u8>)>) -> Option<i64> {
    match first_header_value(headers, CONTENT_LENGTH@) {
        Some(v) => match visible_text(v) {
            Some(_) => match parse_i64(v) {
                Some(n) => Some(n as i64),
                None => None,
            },
            None => None,
        },
        None => None,
    }
}

/// The text stored for a header value: the value read as text, or the empty
/// text when it does not read as text.
pub open spec fn stored_header_text(value: Seq<u8>) -> Seq<char> {
    match visible_text(value) {
        Some(t) => t,
        None => Seq::empty(),
    }
}

/// The position of the first header named `name`.
pub fn find_header(headers: &Vec<HeaderField>, name: &String) -> (r: Option<usize>)
    ensures
        match r {
            Some(i) => i < headers@.len() && first_header_value(headers_view(headers@), name@)
                == Some(headers@[i as int].value@),
            None => first_header_value(headers_view(headers@), name@) is None,
        },
{
    let ghost hv = headers_view(headers@);
    let mut i: usize = 0;
    while i < headers.len()
        invariant
            i <= headers@.len(),
            hv == headers_view(headers@),
            first_header_value(hv, name@) == first_header_from(hv, name@, i as int),
        decreases headers@.len() - i,
    {
        if headers[i].name == *name {
            return Some(i);
        }
        i = i + 1;
    }
    None
}

/// The text of the first header named `name`, when there is one and its value is
/// visible ASCII text.
pub fn header_text(headers: &Vec<HeaderField>, name: &String) -> (r: Option<String>)
    ensures
        opt_text(r) == header_text_of(headers_view(headers@), name@),
{
    match find_header(headers, name) {
        Some(i) => header_value_text(headers[i].value.as_slice()),
        None => None,
    }
}

/// The body length that the request's `content-length` header states.
pub fn content_length(headers: &Vec<HeaderField>) -> (r: Option<i64>)
    ensures
        r == content_length_of(headers_view(headers@)),
        match first_header_value(headers_view(headers@), CONTENT_LENGTH@) {
            Some(b) => match parse_i64(b) {
                Some(n) => r == Some(n as i64),
                None => r is None,
            },
            None => r is None,
        },
{
    proof {
        let h = headers_view(headers@);
        if let Some(b) = first_header_value(h, CONTENT_LENGTH@) {
            if let Some(n) = parse_i64(b) {
                law_content_length_reads_header(h, b, n);
            }
        }
    }
    let name = String::from_str(CONTENT_LENGTH);
    match find_header(headers, &name) {
        Some(i) => {
            let value = headers[i].value.as_slice();
            match header_value_text(value) {
                Some(_) => parse_i64_bytes(value),
                None => None,
            }
        },
        None => None,
    }
}

/// A header as it is stored: its name and its value as text.
pub struct HeaderRow {
    pub name: String,
    pub value: String,
}

/// The header rows stored for headers `headers`: one per header, in order, the
/// value stored as text or as the empty text when it does not read as text.
pub open spec fn header_rows_of(headers: Seq<(Seq<char>, Seq<u8>)>) -> Seq<(Seq<char>, Seq<char>)> {
    headers.map_values(|h: (Seq<char>, Seq<u8>)| (h.0, stored_header_text(h.1)))
}

/// The (name, value) texts of header rows.
pub open spec fn rows_view(rows: Seq<HeaderRow>) -> Seq<(Seq<char>, Seq<char>)> {
    rows.map_values(|r: HeaderRow| (r.name@, r.value@))
}

/// The rows to store for the headers of a request.
pub fn header_rows(headers: &Vec<HeaderField>) -> (r: Vec<HeaderRow>)
    ensures
        rows_view(r@) == header_rows_of(headers_view(headers@)),
{
    let mut rows: Vec<HeaderRow> = Vec::new();
    let mut i: usize = 0;
    while i < headers.len()
        invariant
            i <= headers@.len(),
            rows_view(rows@) == header_rows_of(headers_view(headers@)).take(i as int),
        decreases headers@.len() - i,
    {
        let value = match header_value_text(headers[i].value.as_slice()) {
            Some(text) => text,
            None => String::new(),
        };
        let row = HeaderRow { name: headers[i].name.clone(), value };
        assert(headers_view(headers@)[i as int] == (headers@[i as int].name@, headers@[i as int].value@));
        assert((row.name@, row.value@) == header_rows_of(headers_view(headers@))[i as int]);
        let ghost before = rows@;
        rows.push(row);
        assert(rows@ == before.push(row));
        assert(rows_view(rows@) =~= rows_view(before).push((row.name@, row.value@)));
        assert(rows_view(rows@) =~= header_rows_of(headers_view(headers@)).take(i + 1));
        i = i + 1;
    }
    assert(header_rows_of(headers_view(headers@)).take(i as int) =~= header_rows_of(headers_view(headers@)));
    rows
}

/// The row stored for a request.
pub struct RequestRecord {
    pub method: String,
    pub path: String,
    pub query: Option<String>,
    pub content_length: Option<i64>,
    pub content_type: Option<String>,
    pub user_agent: Option<String>,
    pub client_ip: Option<String>,
}

/// The model of a [`RequestRecord`].
pub struct RequestRecordView {
    pub method: Seq<char>,
    pub path: Seq<char>,
    pub query: Option<Seq<char>>,
    pub content_length: Option<i64>,
    pub content_type: Option<Seq<char>>,
    pub user_agent: Option<Seq<char>>,
    pub client_ip: Option<Seq<char>>,
}

impl View for RequestRecord {
    type V = RequestRecordView;

    open spec fn view(&self) -> RequestRecordView {
        RequestRecordView {
            method: self.method@,
            path: self.path@,
            query: opt_text(self.query),
            content_length: self.content_length,
            content_type: opt_text(self.content_type),
            user_agent: opt_text(self.user_agent),
            client_ip: opt_text(self.client_ip),
        }
    }
}

/// The row stored for request `req` that came from `client_ip`.
pub open spec fn record_of(req: CapturedRequestView, client_ip: Option<Seq<char>>) -> RequestRecordView {
    RequestRecordView {
        method: req.method,
        path: req.path,
        query: req.query,
        content_length: content_length_of(req.headers),
        content_type: header_text_of(req.headers, CONTENT_TYPE@),
        user_agent: header_text_of(req.headers, USER_AGENT@),
        client_ip,
    }
}

/// A copy of an optional text.
pub fn copy_text(o: &Option<String>) -> (r: Option<String>)
    ensures
        opt_text(r) == opt_text(*o),
{
    match o {
        Some(s) => Some(s.clone()),
        None => None,
    }
}

impl RequestRecord {
    /// The row to store for request `req` that came from `client_ip`.
    pub fn from_request(req: &CapturedRequest, client_ip: Option<String>) -> (r: RequestRecord)
        ensures
            r@ == record_of(req@, opt_text(client_ip)),
            opt_text(r.client_ip) == opt_text(client_ip),
            r.method@ == req.method@,
            r.path@ == req.path@,
            opt_text(r.query) == opt_text(req.query),
    {
        let content_type_name = String::from_str(CONTENT_TYPE);
        let user_agent_name = String::from_str(USER_AGENT);
        RequestRecord {
            method: req.method.clone(),
            path: req.path.clone(),
            query: copy_text(&req.query),
            content_length: content_length(&req.headers),
            content_type: header_text(&req.headers, &content_type_name),
            user_agent: header_text(&req.headers, &user_agent_name),
            client_ip,
        }
    }

    /// A copy of this row.
    pub fn duplicate(&self) -> (r: RequestRecord)
        ensures
            r@ == self@,
    {
        RequestRecord {
            method: self.method.clone(),
            path: self.path.clone(),
            query: copy_text(&self.query),
            content_length: self.content_length,
            content_type: copy_text(&self.content_type),
            user_agent: copy_text(&self.user_agent),
            client_ip: copy_text(&self.client_ip),
        }
    }
}

/// A text that reads as an `i64` consists of visible ASCII: digits and at most a
/// leading sign.
proof fn lemma_number_is_visible(b: Seq<u8>)
    requires
        parse_i64(b) is Some,
    ensures
        visible_text(b) is Some,
{
    assert forall|i: int| 0 <= i < b.len() implies is_visible_ascii(#[trigger] b[i]) by {
        if i > 0 && b[0] == 45u8 {
            assert(b.drop_first()[i - 1] == b[i]);
            assert(is_ascii_digit(b.drop_first()[i - 1]));
        } else if i > 0 && b[0] == 43u8 {
            assert(b.drop_first()[i - 1] == b[i]);
            assert(is_ascii_digit(b.drop_first()[i - 1]));
        } else if i == 0 && (b[0] == 45u8 || b[0] == 43u8) {
        } else {
            assert(unsigned_digits(b) == b);
            assert(is_ascii_digit(b[i]));
        }
    }
}

/// The stored content length is the number that the first `content-length` header
/// gives, whatever that number is, whenever its value reads as an `i64`; and a
/// content length is stored only when that header is there and reads as one.
pub proof fn law_content_length_reads_header(headers: Seq<(Seq<char>, Seq<u8>)>, b: Seq<u8>, n: int)
    requires
        first_header_value(headers, CONTENT_LENGTH@) == Some(b),
        parse_i64(b) == Some(n),
    ensures
        content_length_of(headers) == Some(n as i64),
        i64::MIN <= n <= i64::MAX,
{
    lemma_number_is_visible(b);
    lemma_parse_i64_in_range(b);
}

/// The stored content length is absent when there is no `content-length` header,
/// or when its value does not read as an `i64`.
pub proof fn law_content_length_absent(headers: Seq<(Seq<char>, Seq<u8>)>)
    requires
        match first_header_value(headers, CONTENT_LENGTH@) {
            Some(b) => parse_i64(b) is None,
            None => true,
        },
    ensures
        content_length_of(headers) is None,
{
}

/// A header found by name has that name and is the first with it: every header
/// before it has another name.
pub proof fn law_first_header_is_first(headers: Seq<(Seq<char>, Seq<u8>)>, name: Seq<char>, i: int)
    requires
        0 <= i < headers.len(),
        headers[i].0 == name,
        forall|k: int| 0 <= k < i ==> #[trigger] headers[k].0 != name,
    ensures
        first_header_value(headers, name) == Some(headers[i].1),
{
    lemma_first_from(headers, name, 0, i);
}

proof fn lemma_first_from(headers: Seq<(Seq<char>, Seq<u8>)>, name: Seq<char>, j: int, i: int)
    requires
        0 <= j <= i < headers.len(),
        headers[i].0 == name,
        forall|k: int| 0 <= k < i ==> #[trigger] headers[k].0 != name,
    ensures
        first_header_from(headers, name, j) == Some(headers[i].1),
    decreases i - j,
{
    if j < i {
        lemma_first_from(headers, name, j + 1, i);
    }
}

/// One header row is stored per header, in order: the row has the header's name,
/// and its value is the header's value as text, or the empty text when the value
/// does not read as text.
pub proof fn law_header_rows(headers: Seq<(Seq<char>, Seq<u8>)>)
    ensures
        header_rows_of(headers).len() == headers.len(),
        forall|i: int|
            0 <= i < headers.len() ==> (#[trigger] header_rows_of(headers)[i]).0 == headers[i].0,
        forall|i: int|
            0 <= i < headers.len() ==> match visible_text(headers[i].1) {
                Some(t) => (#[trigger] header_rows_of(headers)[i]).1 == t,
                None => header_rows_of(headers)[i].1.len() == 0,
            },
{
}

/// The row of a request holds the request's method, path and query, the client
/// address given, the content length, and the first `content-type` and
/// `user-agent` headers as text.
pub proof fn law_record_fields(req: CapturedRequestView, client_ip: Option<Seq<char>>)
    ensures
        record_of(req, client_ip).method == req.method,
        record_of(req, client_ip).path == req.path,
        record_of(req, client_ip).query == req.query,
        record_of(req, client_ip).client_ip == client_ip,
        record_of(req, client_ip).content_length == content_length_of(req.headers),
        match first_header_value(req.headers, CONTENT_TYPE@) {
            Some(v) => record_of(req, client_ip).content_type == visible_text(v),
            None => record_of(req, client_ip).content_type is None,
        },
        match first_header_value(req.headers, USER_AGENT@) {
            Some(v) => record_of(req, client_ip).user_agent == visible_text(v),
            None => record_of(req, client_ip).user_agent is None,
        },
{
}

} // verus!
