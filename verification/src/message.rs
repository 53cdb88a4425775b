//! The data carried through the pipeline: requests in their streaming and
//! buffered forms, the response builder, and the finished response.

use vstd::prelude::*;

verus! {

/// The standard HTTP request methods.
#[derive(Clone, Copy, PartialEq, Eq, Structural, Debug, Hash)]
pub enum Method {
    Get,
    Post,
    Put,
    Delete,
    Patch,
    Head,
    Options,
    Trace,
    Connect,
}

/// Decision produced by a middleware or guard step: either the request keeps
/// moving through the pipeline, or processing stops and the response builder
/// as written so far becomes the response.
#[derive(Clone, Copy, PartialEq, Eq, Structural, Debug)]
pub enum RequestContinuation {
    Continue,
    Stop,
}

/// Abstract value of a streaming-form request: everything but the body,
/// which is not yet materialized.
#[verifier::ext_equal]
pub struct ReqView {
    pub method: Method,
    pub path: Seq<char>,
    pub query: Seq<char>,
    pub headers: Seq<(Seq<char>, Seq<char>)>,
    pub extensions: Seq<(Seq<char>, Seq<char>)>,
}

impl ReqView {
    /// The same request head with another path.
    pub open spec fn with_path(self, path: Seq<char>) -> ReqView {
        ReqView { path, ..self }
    }
}

/// A request while it passes through the middleware chain: the head of the
/// inbound message.  Its body is still a stream owned by the transport; only
/// the conversion to [`BinaryRequest`] attaches the materialized bytes.
#[derive(Debug)]
pub struct Request {
    pub method: Method,
    pub path: String,
    pub query: String,
    pub headers: Vec<(String, String)>,
    pub extensions: Vec<(String, String)>,
}

impl View for Request {
    type V = ReqView;

    open spec fn view(&self) -> ReqView {
        ReqView {
            method: self.method,
            path: self.path@,
            query: self.query@,
            headers: self.headers.deep_view(),
            extensions: self.extensions.deep_view(),
        }
    }
}

/// First value stored under `key`, scanning the pairs from index `i` on.
pub open spec fn lookup_from(
    pairs: Seq<(Seq<char>, Seq<char>)>,
    key: Seq<char>,
    i: int,
) -> Option<Seq<char>>
    decreases pairs.len() - i,
{
    if i < 0 || i >= pairs.len() {
        None
    } else if pairs[i].0 == key {
        Some(pairs[i].1)
    } else {
        lookup_from(pairs, key, i + 1)
    }
}

/// Whether two characters are equal up to ASCII case.
pub open spec fn char_eq_ci(a: char, b: char) -> bool {
    ||| a == b
    ||| ('A' <= a && a <= 'Z' && a as u64 + 32 == b as u64)
    ||| ('A' <= b && b <= 'Z' && b as u64 + 32 == a as u64)
}

/// Whether two texts are equal up to ASCII case, as header names are
/// compared.
pub open spec fn text_eq_ci(a: Seq<char>, b: Seq<char>) -> bool {
    a.len() == b.len() && (forall|i: int| 0 <= i < a.len() ==> char_eq_ci(#[trigger] a[i], b[i]))
}

/// First value stored under a key equal to `key` up to ASCII case, scanning
/// the pairs from index `i` on.
pub open spec fn header_lookup_from(
    pairs: Seq<(Seq<char>, Seq<char>)>,
    key: Seq<char>,
    i: int,
) -> Option<Seq<char>>
    decreases pairs.len() - i,
{
    if i < 0 || i >= pairs.len() {
        None
    } else if text_eq_ci(pairs[i].0, key) {
        Some(pairs[i].1)
    } else {
        header_lookup_from(pairs, key, i + 1)
    }
}

/// Whether two texts are equal up to ASCII case.
#[verifier::loop_isolation(false)]
fn text_matches_ci(a: &String, b: &String) -> (r: bool)
    ensures
        r == text_eq_ci(a@, b@),
{
    let alen = a.as_str().unicode_len();
    let blen = b.as_str().unicode_len();
    if alen != blen {
        return false;
    }
    let mut i: usize = 0;
    while i < alen
        invariant
            0 <= i <= alen,
            forall|k: int| 0 <= k < i ==> char_eq_ci(#[trigger] a@[k], b@[k]),
        decreases alen - i,
    {
        let ca = a.as_str().get_char(i);
        let cb = b.as_str().get_char(i);
        let same = ca == cb || ('A' <= ca && ca <= 'Z' && ca as u64 + 32 == cb as u64) || ('A'
            <= cb && cb <= 'Z' && cb as u64 + 32 == ca as u64);
        if !same {
            return false;
        }
        i = i + 1;
    }
    true
}

impl Request {
    /// A request head with no headers and no extensions.
    pub fn new(method: Method, path: String, query: String) -> (r: Request)
        ensures
            r@ == (ReqView {
                method,
                path: path@,
                query: query@,
                headers: Seq::empty(),
                extensions: Seq::empty(),
            }),
    {
        let r = Request { method, path, query, headers: Vec::new(), extensions: Vec::new() };
        assert(r@ =~= ReqView {
            method,
            path: path@,
            query: query@,
            headers: Seq::empty(),
            extensions: Seq::empty(),
        });
        r
    }

    /// Append a header pair.
    pub fn add_header(&mut self, key: String, value: String)
        ensures
            final(self)@ == (ReqView {
                headers: old(self)@.headers.push((key@, value@)),
                ..old(self)@
            }),
    {
        let ghost before = self@;
        self.headers.push((key, value));
        assert(self@.headers =~= before.headers.push((key@, value@)));
        assert(self@ =~= (ReqView { headers: before.headers.push((key@, value@)), ..before }));
    }

    /// Store a side-channel entry for a later pipeline stage.
    pub fn insert_extension(&mut self, key: String, value: String)
        ensures
            final(self)@ == (ReqView {
                extensions: old(self)@.extensions.push((key@, value@)),
                ..old(self)@
            }),
    {
        let ghost before = self@;
        self.extensions.push((key, value));
        assert(self@.extensions =~= before.extensions.push((key@, value@)));
        assert(self@ =~= (ReqView { extensions: before.extensions.push((key@, value@)), ..before }));
    }

    /// First header value stored under `name`; header names compare equal up
    /// to ASCII case.
    #[verifier::loop_isolation(false)]
    pub fn get_header(&self, name: &String) -> (r: Option<&String>)
        ensures
            match r {
                Some(v) => header_lookup_from(self@.headers, name@, 0) == Some(v@),
                None => header_lookup_from(self@.headers, name@, 0) is None,
            },
    {
        let mut i: usize = 0;
        while i < self.headers.len()
            invariant
                0 <= i <= self.headers.len(),
                header_lookup_from(self@.headers, name@, 0) == header_lookup_from(
                    self@.headers,
                    name@,
                    i as int,
                ),
            decreases self.headers.len() - i,
        {
            proof {
                assert(self@.headers[i as int] == (
                    self.headers@[i as int].0@,
                    self.headers@[i as int].1@,
                ));
            }
            if text_matches_ci(&self.headers[i].0, name) {
                proof {
                    assert(header_lookup_from(self@.headers, name@, i as int) == Some(
                        self@.headers[i as int].1,
                    ));
                }
                return Some(&self.headers[i].1);
            }
            proof {
                assert(header_lookup_from(self@.headers, name@, i as int) == header_lookup_from(
                    self@.headers,
                    name@,
                    i + 1,
                ));
            }
            i = i + 1;
        }
        None
    }

    /// First side-channel value stored under `key`.
    pub fn get_extension(&self, key: &String) -> (r: Option<&String>)
        ensures
            match r {
                Some(v) => lookup_from(self@.extensions, key@, 0) == Some(v@),
                None => lookup_from(self@.extensions, key@, 0) is None,
            },
    {
        let mut i: usize = 0;
        while i < self.extensions.len()
            invariant
                0 <= i <= self.extensions.len(),
                lookup_from(self@.extensions, key@, 0) == lookup_from(self@.extensions, key@, i as int),
            decreases self.extensions.len() - i,
        {
            proof {
                assert(self@.extensions[i as int] == (
                    self.extensions@[i as int].0@,
                    self.extensions@[i as int].1@,
                ));
            }
            if self.extensions[i].0 == *key {
                proof {
                    assert(self@.extensions[i as int].0 == key@);
                    assert(lookup_from(self@.extensions, key@, i as int) == Some(
                        self@.extensions[i as int].1,
                    ));
                }
                return Some(&self.extensions[i].1);
            }
            proof {
                assert(self@.extensions[i as int].0 != key@);
                assert(lookup_from(self@.extensions, key@, i as int) == lookup_from(
                    self@.extensions,
                    key@,
                    i + 1,
                ));
            }
            i = i + 1;
        }
        None
    }
}

/// Abstract value of a buffered-form request.
#[verifier::ext_equal]
pub struct BinReqView {
    pub head: ReqView,
    pub body: Seq<u8>,
}

/// A request whose body has been fully materialized: the only form a guard
/// or a handler ever sees.  Built once per request by
/// [`BinaryRequest::from_http_request_parts`]; the body length is fixed from
/// then on.
#[derive(Debug)]
pub struct BinaryRequest {
    pub head: Request,
    pub body: Vec<u8>,
}

impl View for BinaryRequest {
    type V = BinReqView;

    open spec fn view(&self) -> BinReqView {
        BinReqView { head: self.head@, body: self.body@ }
    }
}

impl BinaryRequest {
    /// The buffering boundary: the streaming head plus the bytes the
    /// transport collected become the worker-side request.
    pub fn from_http_request_parts(head: Request, body: Vec<u8>) -> (r: BinaryRequest)
        ensures
            r@.head == head@,
            r@.body == body@,
    {
        let r = BinaryRequest { head, body };
        assert(r@.body =~= r.body@);
        r
    }

    /// The request method.
    pub fn method(&self) -> (m: Method)
        ensures
            m == self@.head.method,
    {
        self.head.method
    }

    /// The materialized body bytes.
    pub fn body(&self) -> (b: &Vec<u8>)
        ensures
            b@ == self@.body,
    {
        let b = &self.body;
        assert(b@ =~= self@.body);
        b
    }
}

/// Abstract value of a response builder.  `status` is `None` until a status
/// code is set; building defaults it to 200.
#[verifier::ext_equal]
pub struct BuilderView {
    pub status: Option<u16>,
    pub headers: Seq<(Seq<char>, Seq<char>)>,
    pub body: Seq<u8>,
}

impl BuilderView {
    /// The same accumulated response with the status replaced.
    pub open spec fn with_status(self, status: u16) -> BuilderView {
        BuilderView { status: Some(status), ..self }
    }
}

/// Abstract value of a finished response.
#[verifier::ext_equal]
pub struct RespView {
    pub status: u16,
    pub headers: Seq<(Seq<char>, Seq<char>)>,
    pub body: Seq<u8>,
}

/// Accumulates a status code, headers and a body; [`ResponseBuilder::build`]
/// turns the accumulated parts into a [`Response`].
#[derive(Debug)]
pub struct ResponseBuilder {
    pub status: Option<u16>,
    pub headers: Vec<(String, String)>,
    pub body: Vec<u8>,
}

impl View for ResponseBuilder {
    type V = BuilderView;

    open spec fn view(&self) -> BuilderView {
        BuilderView {
            status: self.status,
            headers: self.headers.deep_view(),
            body: self.body@,
        }
    }
}

/// A finished response.
#[derive(Debug)]
pub struct Response {
    pub status: u16,
    pub headers: Vec<(String, String)>,
    pub body: Vec<u8>,
}

impl View for Response {
    type V = RespView;

    open spec fn view(&self) -> RespView {
        RespView {
            status: self.status,
            headers: self.headers.deep_view(),
            body: self.body@,
        }
    }
}

/// A character allowed in a header name: ASCII letters, digits, `-` and `_`.
pub open spec fn valid_header_name_char(c: char) -> bool {
    ('a' <= c && c <= 'z') || ('A' <= c && c <= 'Z') || ('0' <= c && c <= '9') || c == '-' || c
        == '_'
}

/// A well-formed header name: non-empty, every character allowed.
pub open spec fn valid_header_name(s: Seq<char>) -> bool {
    s.len() > 0 && (forall|i: int| 0 <= i < s.len() ==> valid_header_name_char(#[trigger] s[i]))
}

/// A well-formed header value: free of line breaks and NUL.
pub open spec fn valid_header_value(s: Seq<char>) -> bool {
    forall|i: int|
        0 <= i < s.len() ==> #[trigger] s[i] != '\r' && s[i] != '\n' && s[i] != '\u{0}'
}

/// A well-formed header pair.
pub open spec fn header_ok(h: (Seq<char>, Seq<char>)) -> bool {
    valid_header_name(h.0) && valid_header_value(h.1)
}

/// Every accumulated header is well-formed.
pub open spec fn headers_well_formed(hs: Seq<(Seq<char>, Seq<char>)>) -> bool {
    forall|i: int| 0 <= i < hs.len() ==> header_ok(#[trigger] hs[i])
}

/// The message carried by the assembly error.
pub open spec fn assembly_error_text() -> Seq<char> {
    "malformed header in response"@
}

/// The response that building a well-formed builder produces: the default
/// status 200 is applied if none was set.
pub open spec fn built_view(b: BuilderView) -> RespView {
    RespView {
        status: match b.status {
            Some(s) => s,
            None => 200,
        },
        headers: b.headers,
        body: b.body,
    }
}

fn header_name_ok(s: &String) -> (r: bool)
    ensures
        r == valid_header_name(s@),
{
    let len = s.as_str().unicode_len();
    if len == 0 {
        return false;
    }
    let mut i: usize = 0;
    while i < len
        invariant
            0 <= i <= len,
            len == s@.len(),
            forall|k: int| 0 <= k < i ==> valid_header_name_char(#[trigger] s@[k]),
        decreases len - i,
    {
        let c = s.as_str().get_char(i);
        let ok = ('a' <= c && c <= 'z') || ('A' <= c && c <= 'Z') || ('0' <= c && c <= '9') || c
            == '-' || c == '_';
        if !ok {
            return false;
        }
        i = i + 1;
    }
    true
}

fn header_value_ok(s: &String) -> (r: bool)
    ensures
        r == valid_header_value(s@),
{
    let len = s.as_str().unicode_len();
    let mut i: usize = 0;
    while i < len
        invariant
            0 <= i <= len,
            len == s@.len(),
            forall|k: int|
                0 <= k < i ==> #[trigger] s@[k] != '\r' && s@[k] != '\n' && s@[k] != '\u{0}',
        decreases len - i,
    {
        let c = s.as_str().get_char(i);
        if c == '\r' || c == '\n' || c == '\u{0}' {
            return false;
        }
        i = i + 1;
    }
    true
}

impl ResponseBuilder {
    /// An empty builder: no status, no headers, no body.
    pub fn new() -> (r: ResponseBuilder)
        ensures
            r@ == (BuilderView { status: None, headers: Seq::empty(), body: Seq::empty() }),
    {
        let r = ResponseBuilder { status: None, headers: Vec::new(), body: Vec::new() };
        assert(r@ =~= BuilderView { status: None, headers: Seq::empty(), body: Seq::empty() });
        r
    }

    /// Set the status code, replacing any earlier one.
    pub fn status(&mut self, status: u16)
        ensures
            final(self)@ == old(self)@.with_status(status),
    {
        self.status = Some(status);
        assert(self@ =~= old(self)@.with_status(status));
    }

    /// Append a header pair.
    pub fn header(&mut self, key: String, value: String)
        ensures
            final(self)@ == (BuilderView {
                headers: old(self)@.headers.push((key@, value@)),
                ..old(self)@
            }),
    {
        let ghost before = self@;
        self.headers.push((key, value));
        assert(self@.headers =~= before.headers.push((key@, value@)));
        assert(self@ =~= (BuilderView { headers: before.headers.push((key@, value@)), ..before }));
    }

    /// Replace the body.
    pub fn body(&mut self, body: Vec<u8>)
        ensures
            final(self)@ == (BuilderView { body: body@, ..old(self)@ }),
    {
        let ghost before = self@;
        self.body = body;
        assert(self@.body =~= self.body@);
        assert(self@ =~= (BuilderView { body: self.body@, ..before }));
    }

    /// Assemble the response.  Succeeds exactly when every accumulated
    /// header is well-formed; an unset status is not an error and defaults
    /// to 200.
    pub fn build(self) -> (r: Result<Response, String>)
        ensures
            (r is Ok) == headers_well_formed(self@.headers),
            r matches Ok(resp) ==> resp@ == built_view(self@),
            r matches Err(e) ==> e@ == assembly_error_text(),
    {
        let mut i: usize = 0;
        let n = self.headers.len();
        while i < n
            invariant
                0 <= i <= n,
                n == self@.headers.len(),
                self@.headers =~= self.headers.deep_view(),
                forall|k: int| 0 <= k < i ==> header_ok(#[trigger] self@.headers[k]),
            decreases n - i,
        {
            proof {
                assert(self@.headers[i as int] == (
                    self.headers@[i as int].0@,
                    self.headers@[i as int].1@,
                ));
            }
            let name_ok = header_name_ok(&self.headers[i].0);
            let value_ok = header_value_ok(&self.headers[i].1);
            if !name_ok || !value_ok {
                assert(!header_ok(self@.headers[i as int]));
                assert(!headers_well_formed(self@.headers));
                return Err(String::from_str("malformed header in response"));
            }
            i = i + 1;
        }
        let status = match self.status {
            Some(s) => s,
            None => 200,
        };
        let resp = Response { status, headers: self.headers, body: self.body };
        assert(resp@ =~= built_view(self@));
        Ok(resp)
    }
}

} // verus!
