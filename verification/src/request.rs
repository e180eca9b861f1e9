//! Building a request, and the head and body chunks that go over the wire.

use crate::decimal::{decimal, render};
use crate::error::{Error, JsonError};
use crate::fields::{valid_name, valid_value, Entry, Fields, HeaderError};
use crate::url::{authority_of, Url, UrlView};
use vstd::prelude::*;
use vstd::string::*;

verus! {

/// The size of the pieces in which a body is written, in bytes.
pub const CHUNK_SIZE: usize = 4096;

/// The method of a request.
#[derive(Debug, PartialEq, Eq)]
pub enum Method {
    Get,
    Head,
    Post,
    Put,
    Delete,
    Connect,
    Options,
    Trace,
    Patch,
    /// A method that has no name of its own here.
    Other(String),
}

impl Clone for Method {
    fn clone(&self) -> (r: Self)
        ensures
            r == *self,
    {
        match self {
            Method::Get => Method::Get,
            Method::Head => Method::Head,
            Method::Post => Method::Post,
            Method::Put => Method::Put,
            Method::Delete => Method::Delete,
            Method::Connect => Method::Connect,
            Method::Options => Method::Options,
            Method::Trace => Method::Trace,
            Method::Patch => Method::Patch,
            Method::Other(name) => Method::Other(name.clone()),
        }
    }
}

/// The scheme of a request as the transport knows it.
#[derive(Debug, PartialEq, Eq)]
pub enum Scheme {
    Http,
    Https,
    /// Any other scheme, by its name.
    Other(String),
}

/// A scheme as contracts see it.
pub enum SchemeView {
    Http,
    Https,
    Other(Seq<char>),
}

impl View for Scheme {
    type V = SchemeView;

    open spec fn view(&self) -> SchemeView {
        match self {
            Scheme::Http => SchemeView::Http,
            Scheme::Https => SchemeView::Https,
            Scheme::Other(name) => SchemeView::Other(name@),
        }
    }
}

impl Clone for Scheme {
    fn clone(&self) -> (r: Self)
        ensures
            r@ == self@,
    {
        match self {
            Scheme::Http => Scheme::Http,
            Scheme::Https => Scheme::Https,
            Scheme::Other(name) => Scheme::Other(name.clone()),
        }
    }
}

/// The scheme that stands for a URL's scheme: `http` and `https` have their
/// own, every other scheme is carried by name.
pub open spec fn scheme_of(name: Seq<char>) -> SchemeView {
    if name == "http"@ {
        SchemeView::Http
    } else if name == "https"@ {
        SchemeView::Https
    } else {
        SchemeView::Other(name)
    }
}

/// The path of a URL, followed by `?` and the query where the URL has one.
/// A URL with an empty query and a URL without one differ only by the `?`.
pub open spec fn path_with_query(url: UrlView) -> Seq<char> {
    match url.query {
        Some(query) => url.path + "?"@ + query,
        None => url.path,
    }
}

/// The head of an outgoing request as contracts see it.
pub struct HeadView {
    pub method: Method,
    pub scheme: SchemeView,
    pub authority: Seq<char>,
    pub path_with_query: Seq<char>,
    pub headers: Seq<Entry>,
}

/// The head that a request to `url` has: the scheme that stands for the
/// URL's, the authority as `host` or `host:port` without the URL's user or
/// password, and the path with the query.
pub open spec fn head_of(url: UrlView, method: Method, headers: Seq<Entry>) -> HeadView {
    HeadView {
        method,
        scheme: scheme_of(url.scheme),
        authority: authority_of(url),
        path_with_query: path_with_query(url),
        headers,
    }
}

/// The head of an outgoing request: all that the transport needs to open it.
#[derive(Debug)]
pub struct OutgoingRequest {
    pub method: Method,
    pub scheme: Scheme,
    pub authority: String,
    pub path_with_query: String,
    pub headers: Fields,
}

impl View for OutgoingRequest {
    type V = HeadView;

    open spec fn view(&self) -> HeadView {
        HeadView {
            method: self.method,
            scheme: self.scheme@,
            authority: self.authority@,
            path_with_query: self.path_with_query@,
            headers: self.headers@,
        }
    }
}

impl OutgoingRequest {
    /// The method.
    pub fn method(&self) -> (r: Method)
        ensures
            r == self@.method,
    {
        self.method.clone()
    }

    /// The scheme; a head always has one.
    pub fn scheme(&self) -> (r: Option<Scheme>)
        ensures
            r is Some,
            r->Some_0@ == self@.scheme,
    {
        Some(self.scheme.clone())
    }

    /// The authority; a head always has one, be it empty.
    pub fn authority(&self) -> (r: Option<String>)
        ensures
            r is Some,
            r->Some_0@ == self@.authority,
    {
        Some(self.authority.clone())
    }

    /// The path with the query; a head always has one.
    pub fn path_with_query(&self) -> (r: Option<String>)
        ensures
            r is Some,
            r->Some_0@ == self@.path_with_query,
    {
        Some(self.path_with_query.clone())
    }

    /// A copy of the headers.
    pub fn headers(&self) -> (r: Fields)
        ensures
            r@ == self@.headers,
    {
        self.headers.clone()
    }

    /// The head of a request to `url` with the given method and headers. Of
    /// the URL's authority only host and port go into the head: a user or a
    /// password in the URL is left out.
    pub fn from_url(url: &Url, method: &Method, headers: Fields) -> (r: Self)
        ensures
            r@ == head_of(url@, *method, headers@),
    {
        let http = String::from_str("http");
        let https = String::from_str("https");
        let scheme = if url.scheme == http {
            Scheme::Http
        } else if url.scheme == https {
            Scheme::Https
        } else {
            Scheme::Other(url.scheme.clone())
        };
        let path_with_query = match &url.query {
            Some(query) => url.path.clone().concat("?").concat(query.as_str()),
            None => url.path.clone(),
        };
        OutgoingRequest {
            method: method.clone(),
            scheme,
            authority: url.authority(),
            path_with_query,
            headers,
        }
    }
}

/// How many chunks a body of `len` bytes is written in.
pub open spec fn chunk_count(len: nat) -> nat {
    (len + CHUNK_SIZE - 1) as nat / (CHUNK_SIZE as nat)
}

/// The chunk of `body` with the given index: 4096 bytes, or what is left of
/// the body for the last one.
pub open spec fn chunk(body: Seq<u8>, index: nat) -> Seq<u8> {
    let start = index * CHUNK_SIZE;
    let end = if start + CHUNK_SIZE <= body.len() {
        start + CHUNK_SIZE
    } else {
        body.len() as int
    };
    body.subrange(start, end)
}

/// The first `count` chunks of `body`, one after the other.
pub open spec fn chunks_joined(body: Seq<u8>, count: nat) -> Seq<u8>
    decreases count,
{
    if count == 0 {
        Seq::empty()
    } else {
        chunks_joined(body, (count - 1) as nat) + chunk(body, (count - 1) as nat)
    }
}

/// The first chunks of a body, joined, are the body's first bytes.
pub proof fn lemma_chunks_prefix(body: Seq<u8>, count: nat)
    requires
        count <= chunk_count(body.len()),
    ensures
        chunks_joined(body, count) == body.take(
            if count * CHUNK_SIZE <= body.len() {
                count * CHUNK_SIZE
            } else {
                body.len() as int
            },
        ),
    decreases count,
{
    if count == 0 {
        assert(body.take(0) =~= Seq::<u8>::empty());
    } else {
        lemma_chunks_prefix(body, (count - 1) as nat);
        let start = (count - 1) * CHUNK_SIZE;
        assert(start < body.len());
        let end = if count * CHUNK_SIZE <= body.len() {
            count * CHUNK_SIZE
        } else {
            body.len() as int
        };
        assert(body.take(start) + body.subrange(start, end) =~= body.take(end));
    }
}

/// The chunks of a body are not empty, hold at most 4096 bytes each, and
/// joined in order they are the body.
pub proof fn lemma_chunks_cover(body: Seq<u8>)
    ensures
        chunks_joined(body, chunk_count(body.len())) == body,
        forall|i: nat|
            i < chunk_count(body.len()) ==> 0 < (#[trigger] chunk(body, i)).len() <= CHUNK_SIZE,
        forall|i: nat|
            i + 1 < chunk_count(body.len()) ==> (#[trigger] chunk(body, i)).len() == CHUNK_SIZE,
{
    lemma_chunks_prefix(body, chunk_count(body.len()));
    assert(body.take(body.len() as int) =~= body);
}

/// The number of chunks that `body` is written in.
pub fn count_chunks(body: &[u8]) -> (r: usize)
    ensures
        r == chunk_count(body@.len()),
{
    let whole: usize = body.len() / CHUNK_SIZE;
    if body.len() % CHUNK_SIZE == 0 {
        whole
    } else {
        whole + 1
    }
}

/// A copy of the chunk of `body` with the given index.
pub fn copy_chunk(body: &[u8], index: usize) -> (r: Vec<u8>)
    requires
        index < chunk_count(body@.len()),
    ensures
        r@ == chunk(body@, index as nat),
{
    let len: usize = body.len();
    assert(index * CHUNK_SIZE < len);
    let start: usize = index * CHUNK_SIZE;
    let end: usize = if len - start >= CHUNK_SIZE {
        start + CHUNK_SIZE
    } else {
        body.len()
    };
    let mut out: Vec<u8> = Vec::new();
    let mut i: usize = start;
    while i < end
        invariant
            start <= i <= end <= body.len(),
            out@ == body@.subrange(start as int, i as int),
        decreases end - i,
    {
        out.push(body[i]);
        assert(body@.subrange(start as int, i + 1) =~= body@.subrange(start as int, i as int).push(
            body@[i as int],
        ));
        i = i + 1;
    }
    out
}

/// A request as contracts see it.
pub struct RequestView {
    pub method: Method,
    pub url: UrlView,
    pub headers: Seq<Entry>,
    pub body: Option<Seq<u8>>,
}

/// The value of the `Content-Type` header of a JSON body.
pub open spec fn json_content_type() -> Seq<u8> {
    vstd::utf8::encode_utf8("application/json; charset=UTF-8"@)
}

/// A request under construction.
#[derive(Debug)]
pub struct Request {
    method: Method,
    url: Url,
    headers: Fields,
    body: Option<Vec<u8>>,
}

impl View for Request {
    type V = RequestView;

    closed spec fn view(&self) -> RequestView {
        RequestView {
            method: self.method,
            url: self.url@,
            headers: self.headers@,
            body: match self.body {
                Some(bytes) => Some(bytes@),
                None => None,
            },
        }
    }
}

proof fn lemma_content_length_name()
    ensures
        valid_name("Content-Length"@),
{
    reveal_strlit("Content-Length");
    let name = "Content-Length"@;
    assert forall|i: int| 0 <= i < name.len() implies crate::fields::is_token_char(
        #[trigger] name[i],
    ) by {
        if i == 0 {
        } else if i == 1 {
        } else if i == 2 {
        } else if i == 3 {
        } else if i == 4 {
        } else if i == 5 {
        } else if i == 6 {
        } else if i == 7 {
        } else if i == 8 {
        } else if i == 9 {
        } else if i == 10 {
        } else if i == 11 {
        } else if i == 12 {
        } else {
        }
    }
}

proof fn lemma_content_type_name()
    ensures
        valid_name("Content-Type"@),
{
    reveal_strlit("Content-Type");
    let name = "Content-Type"@;
    assert forall|i: int| 0 <= i < name.len() implies crate::fields::is_token_char(
        #[trigger] name[i],
    ) by {
        if i == 0 {
        } else if i == 1 {
        } else if i == 2 {
        } else if i == 3 {
        } else if i == 4 {
        } else if i == 5 {
        } else if i == 6 {
        } else if i == 7 {
        } else if i == 8 {
        } else if i == 9 {
        } else if i == 10 {
        } else {
        }
    }
}

proof fn lemma_json_content_type()
    ensures
        valid_value(json_content_type()),
        json_content_type().len() == 31,
{
    reveal_strlit("application/json; charset=UTF-8");
    let text = "application/json; charset=UTF-8"@;
    assert(vstd::utf8::is_ascii_chars(text)) by {
        assert forall|i: int| 0 <= i < text.len() implies '\0' <= #[trigger] text[i]
            <= '\u{7f}' by {
            lemma_printable(text, i);
        }
    }
    vstd::utf8::is_ascii_chars_encode_utf8(text);
    let bytes = json_content_type();
    assert forall|i: int| 0 <= i < bytes.len() implies crate::fields::is_value_byte(
        #[trigger] bytes[i],
    ) by {
        lemma_printable(text, i);
        assert(bytes[i] == text[i] as u8);
    }
}

proof fn lemma_printable(text: Seq<char>, i: int)
    requires
        text == "application/json; charset=UTF-8"@,
        0 <= i < text.len(),
    ensures
        ' ' <= text[i] <= '~',
{
    reveal_strlit("application/json; charset=UTF-8");
    if i < 8 {
        if i < 4 {
        } else {
        }
    } else if i < 16 {
        if i < 12 {
        } else {
        }
    } else if i < 24 {
        if i < 20 {
        } else {
        }
    } else {
        if i < 28 {
        } else {
        }
    }
}

/// The header that declares the length of `body`.
pub open spec fn content_length_of(body: Seq<u8>) -> Entry {
    ("Content-Length"@, decimal(body.len()))
}

/// Whether a request declares the length of its body: where it has a body,
/// one of its `Content-Length` headers gives the body's exact length in
/// decimal. Every step of building keeps this but
/// [`with_headers`](Request::with_headers), which puts other headers in place
/// of those that declared it.
pub open spec fn declares_length(request: RequestView) -> bool {
    match request.body {
        Some(body) => crate::fields::values_of(request.headers, "Content-Length"@).contains(
            decimal(body.len()),
        ),
        None => true,
    }
}

/// A further header does not undo the declaration of the body's length.
pub proof fn lemma_header_keeps_length(request: RequestView, header: Entry)
    requires
        declares_length(request),
    ensures
        declares_length(RequestView { headers: request.headers.push(header), ..request }),
{
    if request.body is Some {
        let name = "Content-Length"@;
        let before = crate::fields::values_of(request.headers, name);
        let wanted = decimal(request.body->Some_0.len());
        crate::fields::lemma_values_after_push(request.headers, header, name);
        let i = choose|i: int| 0 <= i < before.len() && before[i] == wanted;
        if crate::fields::same_name(header.0, name) {
            assert(before.push(header.1)[i] == wanted);
        }
    }
}

/// Once a body is set, its exact length stands under `Content-Length`, as
/// the value added last; where no length was declared before, it is the one
/// that a reader of the headers finds.
pub proof fn lemma_body_length_declared(headers: Seq<Entry>, body: Seq<u8>)
    ensures
        crate::fields::values_of(headers.push(content_length_of(body)), "Content-Length"@).last()
            == decimal(body.len()),
        crate::fields::first_value(headers, "Content-Length"@) is None
            ==> crate::fields::first_value(
            headers.push(content_length_of(body)),
            "Content-Length"@,
        ) == Some(decimal(body.len())),
        body.len() <= u64::MAX ==> crate::decimal::parse_unsigned(decimal(body.len())) == Some(
            body.len() as u64,
        ),
        crate::fields::values_of(headers.push(content_length_of(body)), "Content-Length"@).contains(
            decimal(body.len()),
        ),
{
    crate::fields::lemma_values_after_push(headers, content_length_of(body), "Content-Length"@);
    crate::fields::lemma_same_name_equivalence(
        "Content-Length"@,
        "Content-Length"@,
        "Content-Length"@,
    );
    if body.len() <= u64::MAX {
        crate::decimal::lemma_parse_decimal(body.len() as u64);
    }
}

/// A header and a body can be added in either order: the body is the same,
/// and so is what is found under any header name, unless the header is a
/// `Content-Length` itself.
pub proof fn lemma_builder_order(
    headers: Seq<Entry>,
    header: Entry,
    body: Seq<u8>,
    name: Seq<char>,
)
    requires
        !crate::fields::same_name(header.0, "Content-Length"@),
    ensures
        crate::fields::values_of(headers.push(header).push(content_length_of(body)), name)
            == crate::fields::values_of(headers.push(content_length_of(body)).push(header), name),
{
    crate::fields::lemma_append_order(headers, header, content_length_of(body), name);
}

fn bytes_equal(a: &[u8], b: &[u8]) -> (r: bool)
    ensures
        r == (a@ == b@),
{
    if a.len() != b.len() {
        return false;
    }
    let mut i: usize = 0;
    while i < a.len()
        invariant
            i <= a.len(),
            a.len() == b.len(),
            forall|j: int| 0 <= j < i ==> a@[j] == b@[j],
        decreases a.len() - i,
    {
        if a[i] != b[i] {
            return false;
        }
        i = i + 1;
    }
    assert(a@ =~= b@);
    true
}

impl Clone for Request {
    fn clone(&self) -> (r: Self)
        ensures
            r@ == self@,
    {
        Request {
            method: self.method.clone(),
            url: self.url.clone(),
            headers: self.headers.clone(),
            body: match &self.body {
                Some(bytes) => Some(bytes.clone()),
                None => None,
            },
        }
    }
}

impl Request {
    /// A request with no header and no body.
    pub fn new(method: Method, url: Url) -> (r: Self)
        ensures
            r@ == (RequestView { method, url: url@, headers: Seq::empty(), body: None }),
            declares_length(r@),
    {
        Request { method, url, headers: Fields::new(), body: None }
    }

    /// The same request with `headers` in place of its headers.
    pub fn with_headers(self, headers: Fields) -> (r: Self)
        ensures
            r@ == (RequestView { headers: headers@, ..self@ }),
    {
        let mut r = self;
        r.headers = headers;
        r
    }

    /// The same request with one more header after those it has. A name or
    /// value that is not well formed is refused.
    pub fn with_header(self, name: &str, value: &str) -> (r: Result<Self, Error>)
        ensures
            valid_name(name@) && valid_value(value.spec_bytes()) ==> r is Ok && r->Ok_0@ == (
            RequestView { headers: self@.headers.push((name@, value.spec_bytes())), ..self@ }),
            !(valid_name(name@) && valid_value(value.spec_bytes())) ==> r matches Err(
                Error::Header(HeaderError::InvalidSyntax),
            ),
            r is Ok && declares_length(self@) ==> declares_length(r->Ok_0@),
    {
        proof {
            if declares_length(self@) {
                lemma_header_keeps_length(self@, (name@, value.spec_bytes()));
            }
        }
        let mut r = self;
        match r.headers.append(name, value.as_bytes()) {
            Ok(()) => Ok(r),
            Err(e) => Err(Error::Header(e)),
        }
    }

    /// The same request with `body` as its body and, after the headers it
    /// has, a `Content-Length` header that gives the body's length in
    /// decimal.
    pub fn with_body(self, body: Vec<u8>) -> (r: Result<Self, Error>)
        ensures
            r is Ok,
            r->Ok_0@ == (RequestView {
                headers: self@.headers.push(("Content-Length"@, decimal(body@.len()))),
                body: Some(body@),
                ..self@
            }),
            declares_length(r->Ok_0@),
    {
        let length = render(body.len() as u64);
        proof {
            lemma_body_length_declared(self@.headers, body@);
            lemma_content_length_name();
            crate::decimal::lemma_decimal_digits(body@.len());
            assert(valid_value(length@)) by {
                assert forall|i: int| 0 <= i < length@.len() implies crate::fields::is_value_byte(
                    #[trigger] length@[i],
                ) by {
                    assert(crate::decimal::is_digit(length@[i]));
                }
            }
        }
        let mut r = self;
        r.body = Some(body);
        match r.headers.append("Content-Length", length.as_slice()) {
            Ok(()) => Ok(r),
            Err(e) => Err(Error::Header(e)),
        }
    }

    /// The same request with a JSON text as its body. `encoded` is what the
    /// encoder made of the value to send. A `Content-Type` header for JSON is
    /// added first, then the text becomes the body as in
    /// [`with_body`](Self::with_body); where encoding failed, so does this.
    pub fn with_json(self, encoded: Result<String, JsonError>) -> (r: Result<Self, Error>)
        ensures
            match encoded {
                Ok(text) => r is Ok && r->Ok_0@ == (RequestView {
                    headers: self@.headers.push(("Content-Type"@, json_content_type())).push(
                        ("Content-Length"@, decimal(vstd::utf8::encode_utf8(text@).len())),
                    ),
                    body: Some(vstd::utf8::encode_utf8(text@)),
                    ..self@
                }),
                Err(e) => r == Err::<Self, Error>(Error::SerdeJson(e)),
            },
            r is Ok ==> declares_length(r->Ok_0@),
    {
        let content_type = "application/json; charset=UTF-8";
        proof {
            lemma_content_type_name();
            lemma_json_content_type();
        }
        let mut r = self;
        match r.headers.append("Content-Type", content_type.as_bytes()) {
            Ok(()) => {},
            Err(e) => {
                return Err(Error::Header(e));
            },
        }
        match encoded {
            Ok(text) => r.with_body(text.as_str().as_bytes_vec()),
            Err(e) => Err(Error::SerdeJson(e)),
        }
    }

    /// Whether the length of the body is declared.
    pub fn declares_body_length(&self) -> (r: bool)
        ensures
            r == declares_length(self@),
    {
        match &self.body {
            Some(body) => {
                let wanted = render(body.len() as u64);
                let values = self.headers.get("Content-Length");
                let mut i: usize = 0;
                while i < values.len()
                    invariant
                        i <= values.len(),
                        wanted@ == decimal(body@.len()),
                        self@.body == Some(body@),
                        crate::fields::byte_views(values@) == crate::fields::values_of(
                            self@.headers,
                            "Content-Length"@,
                        ),
                        forall|j: int| 0 <= j < i ==> (#[trigger] values@[j])@ != wanted@,
                    decreases values.len() - i,
                {
                    if bytes_equal(values[i].as_slice(), wanted.as_slice()) {
                        proof {
                            let all = crate::fields::byte_views(values@);
                            assert(all[i as int] == wanted@);
                        }
                        return true;
                    }
                    i = i + 1;
                }
                proof {
                    let all = crate::fields::byte_views(values@);
                    assert forall|j: int| 0 <= j < all.len() implies all[j] != wanted@ by {
                        assert(all[j] == values@[j]@);
                    }
                }
                false
            },
            None => true,
        }
    }

    /// The method.
    pub fn method(&self) -> (r: &Method)
        ensures
            *r == self@.method,
    {
        &self.method
    }

    /// The URL.
    pub fn url(&self) -> (r: &Url)
        ensures
            r@ == self@.url,
    {
        &self.url
    }

    /// The headers.
    pub fn headers(&self) -> (r: &Fields)
        ensures
            r@ == self@.headers,
            crate::fields::valid_entries(r@),
    {
        proof {
            use_type_invariant(&self.headers);
            self.headers.lemma_valid();
        }
        &self.headers
    }

    /// The body, where the request has one.
    pub fn body(&self) -> (r: Option<&Vec<u8>>)
        ensures
            r is Some <==> self@.body is Some,
            r is Some ==> r->Some_0@ == self@.body->Some_0,
    {
        self.body.as_ref()
    }
}

} // verus!
