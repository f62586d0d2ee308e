use vstd::prelude::*;
use vstd::string::StringExecFns;

use crate::content_type::{content_type_text, ContentType};
use crate::decimal::{decimal_text, usize_to_decimal};
use crate::body::BodyRequest;
use crate::header::{headers_view, Header, HeaderView};

verus! {

/// The source of a request body. A file is known by its length, which the
/// caller reads from the file system; a stream has no known length.
pub enum RequestBody {
    Data(Vec<u8>),
    File(usize),
    Stream,
    Empty,
}

/// The byte count that a body source announces.
pub open spec fn body_len(b: RequestBody) -> nat {
    match b {
        RequestBody::Data(d) => d@.len(),
        RequestBody::File(n) => n as nat,
        RequestBody::Stream => 0,
        RequestBody::Empty => 0,
    }
}

impl RequestBody {
    pub fn new_data(data: Vec<u8>) -> (r: RequestBody)
        ensures
            r == RequestBody::Data(data),
    {
        RequestBody::Data(data)
    }

    pub fn new_stream() -> (r: RequestBody)
        ensures
            r == RequestBody::Stream,
    {
        RequestBody::Stream
    }

    /// True when both bodies are of the same kind; an empty body matches any.
    pub fn same_kind(&self, other: &RequestBody) -> (r: bool)
        ensures
            r == match (*self, *other) {
                (RequestBody::Data(_), RequestBody::Data(_)) => true,
                (RequestBody::File(_), RequestBody::File(_)) => true,
                (RequestBody::Stream, RequestBody::Stream) => true,
                (RequestBody::Empty, _) => true,
                _ => false,
            },
    {
        match (self, other) {
            (RequestBody::Data(_), RequestBody::Data(_)) => true,
            (RequestBody::File(_), RequestBody::File(_)) => true,
            (RequestBody::Stream, RequestBody::Stream) => true,
            (RequestBody::Empty, _) => true,
            _ => false,
        }
    }

    /// The byte count of the body: 0 for a stream, whose length is not known.
    pub fn len(&self) -> (r: usize)
        ensures
            r as nat == body_len(*self),
    {
        match self {
            RequestBody::Data(d) => d.len(),
            RequestBody::File(n) => *n,
            RequestBody::Stream => 0,
            RequestBody::Empty => 0,
        }
    }
}

/// An HTTP method; a POST carries its body.
pub enum H3Method {
    GET,
    POST { payload: RequestBody },
    PUT,
    DELETE,
    STREAM,
}


/// What a method name in raw bytes stands for.
pub open spec fn parse_method_spec(input: Seq<u8>) -> Option<H3Method> {
    if input == seq![71u8, 69, 84] {
        Some(H3Method::GET)
    } else if input == seq![80u8, 79, 83, 84] {
        Some(H3Method::POST { payload: RequestBody::Empty })
    } else if input == seq![80u8, 85, 84] {
        Some(H3Method::PUT)
    } else if input == seq![68u8, 69, 76, 69, 84, 69] {
        Some(H3Method::DELETE)
    } else {
        None
    }
}

fn bytes_equal(a: &[u8], b: &[u8]) -> (r: bool)
    ensures
        r == (a@ == b@),
{
    if a.len() != b.len() {
        return false;
    }
    let mut i: usize = 0;
    while i < a.len()
        invariant
            i <= a@.len(),
            a@.len() == b@.len(),
            forall|j: int| 0 <= j < i ==> a@[j] == b@[j],
        decreases a@.len() - i,
    {
        if a[i] != b[i] {
            return false;
        }
        i = i + 1;
    }
    assert(a@ =~= b@);
    true
}

impl H3Method {
    /// Reads a method from its name in raw bytes: GET, POST (with an empty
    /// body), PUT or DELETE.
    pub fn parse(input: &[u8]) -> (r: Result<H3Method, ()>)
        ensures
            r matches Ok(m) ==> parse_method_spec(input@) == Some(m),
            r is Err ==> parse_method_spec(input@) is None,
    {
        let get: [u8; 3] = [71, 69, 84];
        let post: [u8; 4] = [80, 79, 83, 84];
        let put: [u8; 3] = [80, 85, 84];
        let delete: [u8; 6] = [68, 69, 76, 69, 84, 69];
        assert(get@ =~= seq![71u8, 69, 84]);
        assert(post@ =~= seq![80u8, 79, 83, 84]);
        assert(put@ =~= seq![80u8, 85, 84]);
        assert(delete@ =~= seq![68u8, 69, 76, 69, 84, 69]);
        if bytes_equal(input, get.as_slice()) {
            Ok(H3Method::GET)
        } else if bytes_equal(input, post.as_slice()) {
            Ok(H3Method::POST { payload: RequestBody::Empty })
        } else if bytes_equal(input, put.as_slice()) {
            Ok(H3Method::PUT)
        } else if bytes_equal(input, delete.as_slice()) {
            Ok(H3Method::DELETE)
        } else {
            Err(())
        }
    }
}

/// The interval, in seconds, at which a persistent stream is pinged.
pub struct KeepAlive {
    pub secs: u64,
}

impl KeepAlive {
    pub fn new(duration_as_sec: u64) -> (r: KeepAlive)
        ensures
            r.secs == duration_as_sec,
    {
        KeepAlive { secs: duration_as_sec }
    }

    /// The ping interval in seconds.
    pub fn duration(&self) -> (r: u64)
        ensures
            r == self.secs,
    {
        self.secs
    }
}

/// A request body waiting to be chunked.
pub struct Content {
    pub payload: RequestBody,
}

impl Content {
    pub fn new(request_body: RequestBody) -> (r: Content)
        ensures
            r.payload == request_body,
    {
        Content { payload: request_body }
    }

    pub fn take(self) -> (r: RequestBody)
        ensures
            r == self.payload,
    {
        self.payload
    }
}

/// The header unit of a request; `is_end` is set when no body follows.
pub struct HeaderRequest {
    pub headers: Vec<Header>,
    pub is_end: bool,
}

impl HeaderRequest {
    pub fn new(is_end: bool) -> (r: HeaderRequest)
        ensures
            r.headers@.len() == 0,
            r.is_end == is_end,
    {
        HeaderRequest { headers: Vec::new(), is_end }
    }

    pub fn add_header(self, name: &str, value: &str) -> (r: HeaderRequest)
        ensures
            headers_view(r.headers@) == headers_view(self.headers@).push((name@, value@)),
            r.is_end == self.is_end,
    {
        let mut r = self;
        r.add_header_mut(name, value);
        r
    }

    pub fn add_header_mut(&mut self, name: &str, value: &str)
        ensures
            headers_view(final(self).headers@) == headers_view(old(self).headers@).push(
                (name@, value@),
            ),
            final(self).is_end == old(self).is_end,
    {
        self.headers.push(Header::new(name, value));
        assert(headers_view(self.headers@) =~= headers_view(old(self).headers@).push(
            (name@, value@),
        ));
    }

    pub fn add_header_option(self, header_option: Option<Header>) -> (r: HeaderRequest)
        ensures
            header_option matches Some(h) ==> headers_view(r.headers@) == headers_view(
                self.headers@,
            ).push(h@),
            header_option is None ==> headers_view(r.headers@) == headers_view(self.headers@),
            r.is_end == self.is_end,
    {
        let mut r = self;
        if let Some(h) = header_option {
            let ghost old_headers = r.headers@;
            r.headers.push(h);
            assert(headers_view(r.headers@) =~= headers_view(old_headers).push(h@));
        }
        r
    }

    pub fn headers(&self) -> (r: &Vec<Header>)
        ensures
            r == &self.headers,
    {
        &self.headers
    }

    pub fn is_end(&self) -> (r: bool)
        ensures
            r == self.is_end,
    {
        self.is_end
    }

    pub fn clone_request(&self) -> (r: HeaderRequest)
        ensures
            headers_view(r.headers@) == headers_view(self.headers@),
            r.is_end == self.is_end,
    {
        HeaderRequest { headers: crate::header::clone_headers(&self.headers), is_end: self.is_end }
    }
}

/// A unit that request building hands to submission.
pub enum Http3RequestPrep {
    Body(Content),
    Header(HeaderRequest),
    Ping(u64),
    BodyFromFile,
}

impl Http3RequestPrep {
    /// A builder for a request to `authority`.
    pub fn new(authority: Option<String>, req_build_uuid: u128) -> (r: Http3RequestBuilder)
        ensures
            r.method is None,
            r.path is None,
            r.authority == authority,
            r.custom_headers is None,
            r.content_type is None,
            r.uuid == req_build_uuid,
    {
        Http3RequestBuilder::new(authority, req_build_uuid)
    }
}

/// What a unit stands for: the header list and end flag of a header unit, the
/// body of a body unit, the interval of a ping unit.
pub enum PrepModel {
    Header(Seq<HeaderView>, bool),
    Body(RequestBody),
    Ping(u64),
    BodyFromFile,
}

pub open spec fn prep_model(u: Http3RequestPrep) -> PrepModel {
    match u {
        Http3RequestPrep::Body(c) => PrepModel::Body(c.payload),
        Http3RequestPrep::Header(h) => PrepModel::Header(headers_view(h.headers@), h.is_end),
        Http3RequestPrep::Ping(s) => PrepModel::Ping(s),
        Http3RequestPrep::BodyFromFile => PrepModel::BodyFromFile,
    }
}

pub open spec fn preps_model(us: Seq<Http3RequestPrep>) -> Seq<PrepModel> {
    us.map_values(|u: Http3RequestPrep| prep_model(u))
}

/// Why a request could not be built.
#[derive(PartialEq, Eq, Structural, Debug, Clone, Copy)]
pub enum BuildError {
    /// The method, the path or the authority is not set.
    MissingField,
    /// A POST whose body is known to be empty.
    EmptyPayload,
    /// A method that requests are not built for (PUT, STREAM).
    UnsupportedMethod,
}

/// Builds a request: method, path, authority, headers and body.
pub struct Http3RequestBuilder {
    pub method: Option<H3Method>,
    pub path: Option<String>,
    pub scheme: Option<String>,
    pub content_type: Option<String>,
    pub user_agent: Option<String>,
    pub authority: Option<String>,
    pub custom_headers: Option<Vec<(String, String)>>,
    pub uuid: u128,
}

pub open spec fn custom_view(c: Option<Vec<(String, String)>>) -> Seq<HeaderView> {
    match c {
        Some(v) => v@.map_values(|p: (String, String)| (p.0@, p.1@)),
        None => Seq::empty(),
    }
}

pub open spec fn opt_text(s: Option<String>) -> Option<Seq<char>> {
    match s {
        Some(t) => Some(t@),
        None => None,
    }
}

/// The header list of a request without body: method, scheme, path,
/// authority, accept, then the custom headers in order.
pub open spec fn bodiless_headers(
    method: Seq<char>,
    path: Seq<char>,
    authority: Seq<char>,
    custom: Seq<HeaderView>,
) -> Seq<HeaderView> {
    seq![
        (":method"@, method),
        (":scheme"@, "https"@),
        (":path"@, path),
        (":authority"@, authority),
        ("accept"@, "*/*"@),
    ] + custom
}

/// The header list of a POST: method, scheme, path, content length,
/// authority, the content type when one is set, accept, then the custom
/// headers in order.
pub open spec fn post_headers(
    path: Seq<char>,
    authority: Seq<char>,
    len: nat,
    content_type: Option<Seq<char>>,
    custom: Seq<HeaderView>,
) -> Seq<HeaderView> {
    let head = seq![
        (":method"@, "POST"@),
        (":scheme"@, "https"@),
        (":path"@, path),
        ("content-length"@, decimal_text(len)),
        (":authority"@, authority),
    ];
    let typed = match content_type {
        Some(ct) => head.push(("content-type"@, ct)),
        None => head,
    };
    typed.push(("accept"@, "*/*"@)) + custom
}

/// The units that building yields from a builder's fields. `strict` refuses
/// a POST whose body is known to be empty; `ping` adds a ping unit after a
/// POST's body.
pub open spec fn build_spec(b: Http3RequestBuilder, ping: Option<u64>, strict: bool) -> Result<
    Seq<PrepModel>,
    BuildError,
> {
    if b.method is None || b.path is None || b.authority is None {
        Err(BuildError::MissingField)
    } else {
        let path = b.path.unwrap()@;
        let authority = b.authority.unwrap()@;
        let custom = custom_view(b.custom_headers);
        match b.method.unwrap() {
            H3Method::GET => Ok(
                seq![PrepModel::Header(bodiless_headers("GET"@, path, authority, custom), true)],
            ),
            H3Method::DELETE => Ok(
                seq![PrepModel::Header(bodiless_headers("DELETE"@, path, authority, custom), true)],
            ),
            H3Method::POST { payload } => {
                if strict && body_len(payload) == 0 && !(payload is Stream) {
                    Err(BuildError::EmptyPayload)
                } else {
                    let units = seq![
                        PrepModel::Header(
                            post_headers(
                                path,
                                authority,
                                body_len(payload),
                                opt_text(b.content_type),
                                custom,
                            ),
                            false,
                        ),
                        PrepModel::Body(payload),
                    ];
                    match ping {
                        Some(s) => Ok(units.push(PrepModel::Ping(s))),
                        None => Ok(units),
                    }
                }
            },
            _ => Err(BuildError::UnsupportedMethod),
        }
    }
}

pub open spec fn same_but_method(a: Http3RequestBuilder, b: Http3RequestBuilder) -> bool {
    &&& a.path == b.path
    &&& a.scheme == b.scheme
    &&& a.content_type == b.content_type
    &&& a.user_agent == b.user_agent
    &&& a.authority == b.authority
    &&& a.custom_headers == b.custom_headers
    &&& a.uuid == b.uuid
}

fn append_custom(hdr: &mut HeaderRequest, custom: &Option<Vec<(String, String)>>)
    ensures
        headers_view(final(hdr).headers@) == headers_view(old(hdr).headers@) + custom_view(
            *custom,
        ),
        final(hdr).is_end == old(hdr).is_end,
{
    if let Some(list) = custom {
        let ghost start = headers_view(hdr.headers@);
        let mut i: usize = 0;
        while i < list.len()
            invariant
                i <= list@.len(),
                custom_view(*custom) == list@.map_values(|p: (String, String)| (p.0@, p.1@)),
                headers_view(hdr.headers@) =~= start + custom_view(*custom).subrange(0, i as int),
                hdr.is_end == old(hdr).is_end,
            decreases list@.len() - i,
        {
            hdr.add_header_mut(list[i].0.as_str(), list[i].1.as_str());
            i = i + 1;
        }
        assert(custom_view(*custom).subrange(0, list@.len() as int) =~= custom_view(*custom));
    } else {
        assert(headers_view(hdr.headers@) + custom_view(*custom) =~= headers_view(hdr.headers@));
    }
}

fn bodiless_request(
    method: &str,
    path: &String,
    authority: &String,
    custom: &Option<Vec<(String, String)>>,
) -> (r: HeaderRequest)
    ensures
        headers_view(r.headers@) == bodiless_headers(method@, path@, authority@, custom_view(*custom)),
        r.is_end,
{
    let mut hdr = HeaderRequest::new(true).add_header(":method", method).add_header(
        ":scheme",
        "https",
    ).add_header(":path", path.as_str()).add_header(":authority", authority.as_str()).add_header(
        "accept",
        "*/*",
    );
    append_custom(&mut hdr, custom);
    assert(headers_view(hdr.headers@) =~= bodiless_headers(
        method@,
        path@,
        authority@,
        custom_view(*custom),
    ));
    hdr
}

fn post_request(
    path: &String,
    authority: &String,
    len: usize,
    content_type: &Option<String>,
    custom: &Option<Vec<(String, String)>>,
) -> (r: HeaderRequest)
    ensures
        headers_view(r.headers@) == post_headers(
            path@,
            authority@,
            len as nat,
            opt_text(*content_type),
            custom_view(*custom),
        ),
        !r.is_end,
{
    let len_text = usize_to_decimal(len);
    let content_header = match content_type {
        Some(ct) => Some(Header::new("content-type", ct.as_str())),
        None => None,
    };
    let mut hdr = HeaderRequest::new(false).add_header(":method", "POST").add_header(
        ":scheme",
        "https",
    ).add_header(":path", path.as_str()).add_header("content-length", len_text.as_str()).add_header(
        ":authority",
        authority.as_str(),
    ).add_header_option(content_header).add_header("accept", "*/*");
    append_custom(&mut hdr, custom);
    assert(headers_view(hdr.headers@) =~= post_headers(
        path@,
        authority@,
        len as nat,
        opt_text(*content_type),
        custom_view(*custom),
    ));
    hdr
}

impl Http3RequestBuilder {
    /// A builder for a request to `authority`, with nothing else set.
    pub fn new(authority: Option<String>, uuid: u128) -> (r: Http3RequestBuilder)
        ensures
            r.method is None,
            r.path is None,
            r.scheme is None,
            r.content_type is None,
            r.user_agent is None,
            r.authority == authority,
            r.custom_headers is None,
            r.uuid == uuid,
    {
        Http3RequestBuilder {
            method: None,
            path: None,
            scheme: None,
            content_type: None,
            user_agent: None,
            authority,
            custom_headers: None,
            uuid,
        }
    }

    pub fn post_data(&mut self, path: String, data: Vec<u8>)
        ensures
            final(self).method == Some(H3Method::POST { payload: RequestBody::Data(data) }),
            final(self).path == Some(path),
            same_but_path_method(*old(self), *final(self)),
    {
        self.post(path, RequestBody::new_data(data))
    }

    /// A POST of a file, known here by its length.
    pub fn post_file(&mut self, req_path: String, file_len: usize)
        ensures
            final(self).method == Some(H3Method::POST { payload: RequestBody::File(file_len) }),
            final(self).path == Some(req_path),
            same_but_path_method(*old(self), *final(self)),
    {
        self.post(req_path, RequestBody::File(file_len))
    }

    /// A POST of a stream of unknown length.
    pub fn post_stream(&mut self, req_path: String)
        ensures
            final(self).method == Some(H3Method::POST { payload: RequestBody::Stream }),
            final(self).path == Some(req_path),
            same_but_path_method(*old(self), *final(self)),
    {
        self.post(req_path, RequestBody::new_stream())
    }

    pub fn post(&mut self, path: String, payload: RequestBody)
        ensures
            final(self).method == Some(H3Method::POST { payload }),
            final(self).path == Some(path),
            same_but_path_method(*old(self), *final(self)),
    {
        self.method = Some(H3Method::POST { payload });
        self.path = Some(path);
    }

    /// A POST that opens a persistent stream with a first payload.
    pub fn down_stream(&mut self, path: String, payload: Vec<u8>)
        ensures
            final(self).method == Some(H3Method::POST { payload: RequestBody::Data(payload) }),
            final(self).path == Some(path),
            same_but_path_method(*old(self), *final(self)),
    {
        self.post(path, RequestBody::Data(payload))
    }

    pub fn get(&mut self, path: String)
        ensures
            final(self).method == Some(H3Method::GET),
            final(self).path == Some(path),
            same_but_path_method(*old(self), *final(self)),
    {
        self.method = Some(H3Method::GET);
        self.path = Some(path);
    }

    /// A DELETE, authorised by `auth_token` in an `Authorization` header.
    pub fn delete(&mut self, req_path: String, auth_token: String)
        ensures
            final(self).method == Some(H3Method::DELETE),
            final(self).path == Some(req_path),
            custom_view(final(self).custom_headers) == custom_view(old(self).custom_headers).push(
                ("Authorization"@, auth_token@),
            ),
            final(self).authority == old(self).authority,
            final(self).content_type == old(self).content_type,
    {
        self.method = Some(H3Method::DELETE);
        self.path = Some(req_path);
        self.set_header(String::from_str("Authorization"), auth_token);
    }

    pub fn get_path(&self) -> (r: Option<String>)
        ensures
            opt_text(r) == opt_text(self.path),
    {
        match &self.path {
            Some(p) => Some(p.clone()),
            None => None,
        }
    }

    pub fn set_user_agent(&mut self, user_agent: String)
        ensures
            final(self).user_agent == Some(user_agent),
            final(self).method == old(self).method,
            final(self).path == old(self).path,
            final(self).authority == old(self).authority,
            final(self).custom_headers == old(self).custom_headers,
            final(self).content_type == old(self).content_type,
    {
        self.user_agent = Some(user_agent);
    }

    /// Appends a custom header; custom headers keep their order.
    pub fn set_header(&mut self, name: String, value: String)
        ensures
            custom_view(final(self).custom_headers) == custom_view(old(self).custom_headers).push(
                (name@, value@),
            ),
            final(self).custom_headers is Some,
            final(self).method == old(self).method,
            final(self).path == old(self).path,
            final(self).authority == old(self).authority,
            final(self).content_type == old(self).content_type,
    {
        let ghost before = custom_view(self.custom_headers);
        let mut list = match self.custom_headers.take() {
            Some(l) => l,
            None => Vec::new(),
        };
        proof {
            assert(before =~= list@.map_values(|p: (String, String)| (p.0@, p.1@)));
        }
        list.push((name, value));
        self.custom_headers = Some(list);
        assert(custom_view(self.custom_headers) =~= before.push((name@, value@)));
    }

    pub fn set_content_type(&mut self, content_type: ContentType)
        ensures
            opt_text(final(self).content_type) == Some(content_type_text(content_type)),
            final(self).method == old(self).method,
            final(self).path == old(self).path,
            final(self).authority == old(self).authority,
            final(self).custom_headers == old(self).custom_headers,
    {
        self.content_type = Some(content_type.to_string());
    }

    /// Builds the units of the request: a header unit, then for a POST a
    /// body unit. A POST whose body is known to be empty is refused.
    pub fn build(&mut self) -> (r: Result<Vec<Http3RequestPrep>, BuildError>)
        ensures
            match r {
                Ok(units) => build_spec(*old(self), None, true) == Ok::<
                    Seq<PrepModel>,
                    BuildError,
                >(preps_model(units@)),
                Err(e) => build_spec(*old(self), None, true) == Err::<Seq<PrepModel>, BuildError>(
                    e,
                ),
            },
            r is Err && r->Err_0 == BuildError::MissingField ==> *final(self) == *old(self),
            !(r is Err && r->Err_0 == BuildError::MissingField) ==> final(self).method is None,
            same_but_method(*old(self), *final(self)),
    {
        self.build_units(None, true)
    }

    /// Builds the units of a persistent stream: as `build`, without refusing
    /// an empty body, and with a ping unit after the body when `keep_alive`
    /// is set.
    pub fn build_down_stream(&mut self, keep_alive: &Option<KeepAlive>) -> (r: Result<
        Vec<Http3RequestPrep>,
        BuildError,
    >)
        ensures
            match r {
                Ok(units) => build_spec(*old(self), ping_of(*keep_alive), false) == Ok::<
                    Seq<PrepModel>,
                    BuildError,
                >(preps_model(units@)),
                Err(e) => build_spec(*old(self), ping_of(*keep_alive), false) == Err::<
                    Seq<PrepModel>,
                    BuildError,
                >(e),
            },
            r is Err && r->Err_0 == BuildError::MissingField ==> *final(self) == *old(self),
            !(r is Err && r->Err_0 == BuildError::MissingField) ==> final(self).method is None,
            same_but_method(*old(self), *final(self)),
    {
        let ping = match keep_alive {
            Some(k) => Some(k.duration()),
            None => None,
        };
        self.build_units(ping, false)
    }

    fn build_units(&mut self, ping: Option<u64>, strict: bool) -> (r: Result<
        Vec<Http3RequestPrep>,
        BuildError,
    >)
        ensures
            match r {
                Ok(units) => build_spec(*old(self), ping, strict) == Ok::<
                    Seq<PrepModel>,
                    BuildError,
                >(preps_model(units@)),
                Err(e) => build_spec(*old(self), ping, strict) == Err::<Seq<PrepModel>, BuildError>(
                    e,
                ),
            },
            r is Err && r->Err_0 == BuildError::MissingField ==> *final(self) == *old(self),
            !(r is Err && r->Err_0 == BuildError::MissingField) ==> final(self).method is None,
            same_but_method(*old(self), *final(self)),
    {
        if self.method.is_none() || self.path.is_none() || self.authority.is_none() {
            return Err(BuildError::MissingField);
        }
        let ghost start = *self;
        let method = self.method.take().unwrap();
        let path = self.path.as_ref().unwrap();
        let authority = self.authority.as_ref().unwrap();
        match method {
            H3Method::GET => {
                let hdr = bodiless_request("GET", path, authority, &self.custom_headers);
                let units = vec![Http3RequestPrep::Header(hdr)];
                assert(preps_model(units@) =~= build_spec(start, ping, strict)->Ok_0);
                Ok(units)
            },
            H3Method::DELETE => {
                let hdr = bodiless_request("DELETE", path, authority, &self.custom_headers);
                let units = vec![Http3RequestPrep::Header(hdr)];
                assert(preps_model(units@) =~= build_spec(start, ping, strict)->Ok_0);
                Ok(units)
            },
            H3Method::POST { payload } => {
                let len = payload.len();
                let is_stream = match payload {
                    RequestBody::Stream => true,
                    _ => false,
                };
                if strict && len == 0 && !is_stream {
                    return Err(BuildError::EmptyPayload);
                }
                let hdr = post_request(
                    path,
                    authority,
                    len,
                    &self.content_type,
                    &self.custom_headers,
                );
                let mut units = vec![
                    Http3RequestPrep::Header(hdr),
                    Http3RequestPrep::Body(Content::new(payload)),
                ];
                if let Some(secs) = ping {
                    units.push(Http3RequestPrep::Ping(secs));
                }
                assert(preps_model(units@) =~= build_spec(start, ping, strict)->Ok_0);
                Ok(units)
            },
            _ => Err(BuildError::UnsupportedMethod),
        }
    }
}

pub open spec fn ping_of(k: Option<KeepAlive>) -> Option<u64> {
    match k {
        Some(k) => Some(k.secs),
        None => None,
    }
}

pub open spec fn same_but_path_method(a: Http3RequestBuilder, b: Http3RequestBuilder) -> bool {
    &&& a.scheme == b.scheme
    &&& a.content_type == b.content_type
    &&& a.user_agent == b.user_agent
    &&& a.authority == b.authority
    &&& a.custom_headers == b.custom_headers
    &&& a.uuid == b.uuid
}

/// The headers of a keep-alive ping, and whether pings are to stop.
pub struct PingStatus {
    pub close_ping_emission: bool,
    pub headers: Vec<Header>,
}

/// The headers that a ping carries.
pub open spec fn ping_headers() -> Seq<HeaderView> {
    seq![
        (":method"@, "GET"@),
        (":path"@, "/ping"@),
        (":authority"@, "chat_client"@),
        (":scheme"@, ":https"@),
    ]
}

impl Default for PingStatus {
    fn default() -> (r: PingStatus)
        ensures
            !r.close_ping_emission,
            headers_view(r.headers@) == ping_headers(),
    {
        let mut headers: Vec<Header> = Vec::new();
        headers.push(Header::new(":method", "GET"));
        headers.push(Header::new(":path", "/ping"));
        headers.push(Header::new(":authority", "chat_client"));
        headers.push(Header::new(":scheme", ":https"));
        assert(headers_view(headers@) =~= ping_headers());
        PingStatus { close_ping_emission: false, headers }
    }
}

impl PingStatus {
    pub fn close_ping(self) -> (r: PingStatus)
        ensures
            r.close_ping_emission,
            r.headers == self.headers,
    {
        let mut r = self;
        r.close_ping_emission = true;
        r
    }

    pub fn headers(&self) -> (r: &Vec<Header>)
        ensures
            r == &self.headers,
    {
        &self.headers
    }
}

/// A unit on the outbound queue that the event loop drains: a request's
/// headers, a body chunk, or a ping on a stream.
pub enum Http3Request {
    Body(BodyRequest),
    Header(HeaderRequest),
    Ping(u64),
    BodyFromFile,
}

impl Http3Request {
    /// A builder for a request to `authority`.
    pub fn new(authority: Option<String>, uuid: u128) -> (r: Http3RequestBuilder)
        ensures
            r.method is None,
            r.path is None,
            r.authority == authority,
            r.custom_headers is None,
            r.content_type is None,
            r.uuid == uuid,
    {
        Http3RequestBuilder::new(authority, uuid)
    }

    /// The stream a unit is addressed to, once it has one.
    pub fn stream_id(&self) -> (r: Option<u64>)
        ensures
            r == match self {
                Http3Request::Body(b) => Some(b.stream_id),
                Http3Request::Ping(s) => Some(*s),
                _ => None::<u64>,
            },
    {
        match self {
            Http3Request::Body(b) => Some(b.stream_id),
            Http3Request::Ping(s) => Some(*s),
            _ => None,
        }
    }
}

/// A value that can be sent as a request body.
pub trait IntoBodyReq {
    fn content_type(&self) -> ContentType;

    fn into_bytes(self) -> Vec<u8>;
}

impl IntoBodyReq for Vec<u8> {
    fn content_type(&self) -> ContentType {
        ContentType::OctetStream
    }

    fn into_bytes(self) -> Vec<u8> {
        self
    }
}

/// The units of a built request sorted for submission: the header units go
/// out first, the body is read after the stream id comes back, and the ping
/// interval starts a keep-alive emitter.
pub struct SubmissionParts {
    pub headers: Vec<HeaderRequest>,
    pub body: Option<RequestBody>,
    pub ping: Option<u64>,
}

/// The byte count that a body announces when it is known: a stream's is not.
pub open spec fn known_length(b: RequestBody) -> Option<nat> {
    match b {
        RequestBody::Stream => None,
        _ => Some(body_len(b)),
    }
}

/// The header units of a unit sequence, in order.
pub open spec fn header_units(us: Seq<PrepModel>) -> Seq<PrepModel>
    decreases us.len(),
{
    if us.len() == 0 {
        Seq::empty()
    } else {
        let rest = header_units(us.drop_last());
        if us.last() is Header {
            rest.push(us.last())
        } else {
            rest
        }
    }
}

/// The last body unit of a unit sequence.
pub open spec fn last_body(us: Seq<PrepModel>) -> Option<RequestBody>
    decreases us.len(),
{
    if us.len() == 0 {
        None
    } else if let PrepModel::Body(b) = us.last() {
        Some(b)
    } else {
        last_body(us.drop_last())
    }
}

/// The last ping unit of a unit sequence.
pub open spec fn last_ping(us: Seq<PrepModel>) -> Option<u64>
    decreases us.len(),
{
    if us.len() == 0 {
        None
    } else if let PrepModel::Ping(s) = us.last() {
        Some(s)
    } else {
        last_ping(us.drop_last())
    }
}

impl RequestBody {
    /// The announced byte count, when the source knows it.
    pub fn known_len(&self) -> (r: Option<usize>)
        ensures
            match known_length(*self) {
                Some(n) => r == Some(n as usize),
                None => r is None,
            },
    {
        match self {
            RequestBody::Stream => None,
            _ => Some(self.len()),
        }
    }
}

/// Sorts the units of a built request for submission.
pub fn split_units(units: Vec<Http3RequestPrep>) -> (r: SubmissionParts)
    ensures
        preps_model(r.headers@.map_values(|h: HeaderRequest| Http3RequestPrep::Header(h)))
            == header_units(preps_model(units@)),
        r.body == last_body(preps_model(units@)),
        r.ping == last_ping(preps_model(units@)),
{
    let ghost all = preps_model(units@);
    let mut headers: Vec<HeaderRequest> = Vec::new();
    let mut body: Option<RequestBody> = None;
    let mut ping: Option<u64> = None;
    let mut rest = units;
    let ghost mut done: Seq<PrepModel> = Seq::empty();
    proof {
        assert(all =~= done + preps_model(rest@));
        assert(preps_model(headers@.map_values(|h: HeaderRequest| Http3RequestPrep::Header(h)))
            =~= header_units(done));
    }
    while rest.len() > 0
        invariant
            all == preps_model(units@),
            all =~= done + preps_model(rest@),
            preps_model(headers@.map_values(|h: HeaderRequest| Http3RequestPrep::Header(h)))
                == header_units(done),
            body == last_body(done),
            ping == last_ping(done),
        decreases rest@.len(),
    {
        let ghost rest_before = preps_model(rest@);
        let u = rest.remove(0);
        let ghost m = prep_model(u);
        proof {
            assert(preps_model(rest@) =~= rest_before.drop_first());
            assert(rest_before[0] == m);
            assert(rest_before =~= seq![m] + preps_model(rest@));
        }
        let ghost hs_before = headers@;
        match u {
            Http3RequestPrep::Header(h) => {
                headers.push(h);
                proof {
                    assert(headers@.map_values(|x: HeaderRequest| Http3RequestPrep::Header(x))
                        =~= hs_before.map_values(|x: HeaderRequest| Http3RequestPrep::Header(x)).push(
                        Http3RequestPrep::Header(h),
                    ));
                    assert(preps_model(headers@.map_values(|x: HeaderRequest| Http3RequestPrep::Header(x)))
                        =~= preps_model(hs_before.map_values(|x: HeaderRequest| Http3RequestPrep::Header(x))).push(m));
                }
            },
            Http3RequestPrep::Body(c) => {
                body = Some(c.take());
            },
            Http3RequestPrep::Ping(secs) => {
                ping = Some(secs);
            },
            Http3RequestPrep::BodyFromFile => {},
        }
        proof {
            let after = done.push(m);
            assert(after.drop_last() =~= done);
            assert(after.last() == m);
            done = after;
        }
    }
    assert(all =~= done);
    SubmissionParts { headers, body, ping }
}

} // verus!
