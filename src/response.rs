use vstd::prelude::*;
use vstd::string::StringExecFns;

use crate::body::copy_range;
use crate::header::{clone_headers, find_header_index, header_value, headers_view, Header, HeaderView};
use crate::progress::{clamp_ratio, parse_progress, Ratio, UploadProgressStatus};

verus! {

/// The headers that arrived on a stream.
pub struct Http3ResponseHeader {
    pub stream_id: u64,
    pub connexion_id: String,
    pub headers: Vec<Header>,
    pub end: bool,
}

impl Http3ResponseHeader {
    pub fn new(stream_id: u64, connexion_id: String, headers: Vec<Header>, end: bool) -> (r:
        Http3ResponseHeader)
        ensures
            r.stream_id == stream_id,
            r.connexion_id == connexion_id,
            r.headers == headers,
            r.end == end,
    {
        Http3ResponseHeader { stream_id, connexion_id, headers, end }
    }

    pub fn ids(&self) -> (r: (u64, String))
        ensures
            r.0 == self.stream_id,
            r.1@ == self.connexion_id@,
    {
        (self.stream_id, self.connexion_id.clone())
    }

    pub fn stream_id(&self) -> (r: u64)
        ensures
            r == self.stream_id,
    {
        self.stream_id
    }

    pub fn connexion_id(&self) -> (r: &String)
        ensures
            r == &self.connexion_id,
    {
        &self.connexion_id
    }

    pub fn headers(&self) -> (r: &Vec<Header>)
        ensures
            r == &self.headers,
    {
        &self.headers
    }

    pub fn is_end(&self) -> (r: bool)
        ensures
            r == self.end,
    {
        self.end
    }
}

/// Body bytes that arrived on a stream; an empty one with `end` set closes it.
pub struct Http3ResponseBody {
    pub stream_id: u64,
    pub connexion_id: String,
    pub packet: Vec<u8>,
    pub packet_count: usize,
    pub end: bool,
}

impl Http3ResponseBody {
    pub fn new(stream_id: u64, connexion_id: String, packet: Vec<u8>, end: bool) -> (r:
        Http3ResponseBody)
        ensures
            r.stream_id == stream_id,
            r.connexion_id == connexion_id,
            r.packet == packet,
            r.packet_count == 0,
            r.end == end,
    {
        Http3ResponseBody { stream_id, connexion_id, packet, packet_count: 0, end }
    }

    /// What the bytes are: a progress report or plain body bytes.
    pub fn body_type(&self, req_path: &str, req_uuid: u128) -> (r: BodyType)
        ensures
            body_type_spec(r, self.packet@, req_path@, req_uuid),
    {
        BodyType::parse_packet(self.packet.as_slice(), req_path, req_uuid)
    }

    pub fn ids(&self) -> (r: (u64, String))
        ensures
            r.0 == self.stream_id,
            r.1@ == self.connexion_id@,
    {
        (self.stream_id, self.connexion_id.clone())
    }

    pub fn stream_id(&self) -> (r: u64)
        ensures
            r == self.stream_id,
    {
        self.stream_id
    }

    pub fn connexion_id(&self) -> (r: &String)
        ensures
            r == &self.connexion_id,
    {
        &self.connexion_id
    }

    pub fn packet(&self) -> (r: &[u8])
        ensures
            r@ == self.packet@,
    {
        self.packet.as_slice()
    }

    pub fn len(&self) -> (r: usize)
        ensures
            r == self.packet@.len(),
    {
        self.packet.len()
    }

    pub fn is_end(&self) -> (r: bool)
        ensures
            r == self.end,
    {
        self.end
    }
}

/// One event of a response as the transport reports it.
pub enum Http3Response {
    Header(Http3ResponseHeader),
    Body(Http3ResponseBody),
}

/// Server-initiated unidirectional streams carry progress reports.
pub open spec fn is_progress_stream(stream_id: u64) -> bool {
    stream_id % 4 == 3
}

impl Http3Response {
    pub fn new_body_data(stream_id: u64, connexion_id: String, packet: &[u8], end: bool) -> (r:
        Http3Response)
        ensures
            r matches Http3Response::Body(b) && b.stream_id == stream_id && b.connexion_id
                == connexion_id && b.packet@ == packet@ && b.end == end,
    {
        let data = copy_range(packet, 0, packet.len());
        assert(packet@.subrange(0, packet@.len() as int) =~= packet@);
        Http3Response::Body(Http3ResponseBody::new(stream_id, connexion_id, data, end))
    }

    pub fn new_header(stream_id: u64, connexion_id: String, headers: Vec<Header>, end: bool) -> (r:
        Http3Response)
        ensures
            r matches Http3Response::Header(h) && h.stream_id == stream_id && h.connexion_id
                == connexion_id && h.headers == headers && h.end == end,
    {
        Http3Response::Header(Http3ResponseHeader::new(stream_id, connexion_id, headers, end))
    }

    /// True when the event comes from a server-initiated unidirectional stream.
    pub fn is_progress_status_response(&self) -> (r: bool)
        ensures
            r == is_progress_stream(self.spec_stream_id()),
    {
        self.stream_id() % 4 == 3
    }

    pub open spec fn spec_stream_id(&self) -> u64 {
        match self {
            Http3Response::Header(h) => h.stream_id,
            Http3Response::Body(b) => b.stream_id,
        }
    }

    pub open spec fn spec_connexion_id(&self) -> Seq<char> {
        match self {
            Http3Response::Header(h) => h.connexion_id@,
            Http3Response::Body(b) => b.connexion_id@,
        }
    }

    pub fn ids(&self) -> (r: (u64, String))
        ensures
            r.0 == self.spec_stream_id(),
            r.1@ == self.spec_connexion_id(),
    {
        match self {
            Http3Response::Header(h) => h.ids(),
            Http3Response::Body(b) => b.ids(),
        }
    }

    pub fn stream_id(&self) -> (r: u64)
        ensures
            r == self.spec_stream_id(),
    {
        match self {
            Http3Response::Header(h) => h.stream_id,
            Http3Response::Body(b) => b.stream_id,
        }
    }

    pub fn connexion_id(&self) -> (r: &String)
        ensures
            r@ == self.spec_connexion_id(),
    {
        match self {
            Http3Response::Header(h) => &h.connexion_id,
            Http3Response::Body(b) => &b.connexion_id,
        }
    }

    /// The header list of a header event.
    pub fn headers(&self) -> (r: Option<Vec<Header>>)
        ensures
            self matches Http3Response::Header(h) ==> (r matches Some(v) && headers_view(v@)
                == headers_view(h.headers@)),
            self is Body ==> r is None,
    {
        match self {
            Http3Response::Header(h) => Some(clone_headers(&h.headers)),
            Http3Response::Body(_) => None,
        }
    }

    /// The bytes of a body event.
    pub fn packet(&self) -> (r: Option<&[u8]>)
        ensures
            self matches Http3Response::Body(b) ==> (r matches Some(p) && p@ == b.packet@),
            self is Header ==> r is None,
    {
        match self {
            Http3Response::Header(_) => None,
            Http3Response::Body(b) => Some(b.packet.as_slice()),
        }
    }

    pub fn len(&self) -> (r: Option<usize>)
        ensures
            self matches Http3Response::Body(b) ==> r == Some(b.packet@.len() as usize),
            self is Header ==> r is None,
    {
        match self {
            Http3Response::Header(_) => None,
            Http3Response::Body(b) => Some(b.packet.len()),
        }
    }

    pub fn is_end(&self) -> (r: bool)
        ensures
            r == match self {
                Http3Response::Header(h) => h.end,
                Http3Response::Body(b) => b.end,
            },
    {
        match self {
            Http3Response::Header(h) => h.end,
            Http3Response::Body(b) => b.end,
        }
    }
}

/// The four bytes `s??%` that open a progress report.
pub open spec fn progress_sentinel() -> Seq<u8> {
    seq![115u8, 63, 63, 37]
}

pub open spec fn has_sentinel(p: Seq<u8>) -> bool {
    p.len() >= 4 && p.subrange(0, 4) == progress_sentinel()
}

/// Body bytes read as what they carry.
pub enum BodyType {
    /// A well-formed progress report.
    UploadProgressStatusBody(UploadProgressStatus),
    /// Plain body bytes.
    Packet(Vec<u8>),
    /// A progress report that does not parse.
    Malformed,
}

/// A packet that opens with the sentinel is a progress report, well-formed
/// or not; any other is plain bytes.
pub open spec fn body_type_spec(r: BodyType, p: Seq<u8>, path: Seq<char>, uuid: u128) -> bool {
    if has_sentinel(p) {
        let rest = p.subrange(4, p.len() as int);
        match parse_progress(rest) {
            Some((num, den, w, t)) => r matches BodyType::UploadProgressStatusBody(st)
                && st.req_path@ == path && st.request_uuid == uuid && st.completed == clamp_ratio(
                Ratio { num: num as u64, den: den as u64 },
            ) && st.received == w && st.total == t,
            None => r is Malformed,
        }
    } else {
        r matches BodyType::Packet(b) && b@ == p
    }
}

fn starts_with_sentinel(packet: &[u8]) -> (r: bool)
    ensures
        r == has_sentinel(packet@),
{
    if packet.len() < 4 {
        return false;
    }
    let r = packet[0] == 115 && packet[1] == 63 && packet[2] == 63 && packet[3] == 37;
    assert(r == (packet@.subrange(0, 4) =~= progress_sentinel()));
    r
}

impl BodyType {
    /// True when body bytes open with the sentinel `s??%`.
    pub fn is_progress_report(packet: &[u8]) -> (r: bool)
        ensures
            r == has_sentinel(packet@),
    {
        starts_with_sentinel(packet)
    }

    /// Reads body bytes: a progress report after the sentinel `s??%`, or
    /// plain bytes.
    pub fn parse_packet(packet: &[u8], req_path: &str, req_uuid: u128) -> (r: BodyType)
        ensures
            body_type_spec(r, packet@, req_path@, req_uuid),
    {
        if !starts_with_sentinel(packet) {
            let b = copy_range(packet, 0, packet.len());
            assert(packet@.subrange(0, packet@.len() as int) =~= packet@);
            return BodyType::Packet(b);
        }
        let rest = copy_range(packet, 4, packet.len());
        match UploadProgressStatus::from_bytes(req_path, req_uuid, rest.as_slice()) {
            Some(st) => BodyType::UploadProgressStatusBody(st),
            None => BodyType::Malformed,
        }
    }
}

/// A whole response: its headers and its body.
pub struct CompletedResponse {
    pub headers: Vec<Header>,
    pub stream_id: u64,
    pub data: Vec<u8>,
}

/// The outcome that a response's status gives.
pub enum ReqStatus {
    Success { stream_id: u64, headers: Vec<Header>, data: Option<Vec<u8>> },
    Error { stream_id: u64, headers: Vec<Header>, data: Option<Vec<u8>> },
    NoStatus,
}

pub open spec fn status_text(hs: Seq<HeaderView>) -> Option<Seq<char>> {
    header_value(hs, ":status"@)
}

impl CompletedResponse {
    pub fn new(stream_id: u64, headers: Vec<Header>, data: Vec<u8>) -> (r: CompletedResponse)
        ensures
            r.stream_id == stream_id,
            r.headers == headers,
            r.data == data,
    {
        CompletedResponse { headers, stream_id, data }
    }

    pub fn as_data(&self) -> (r: &[u8])
        ensures
            r@ == self.data@,
    {
        self.data.as_slice()
    }

    /// The value of the `:status` header.
    pub fn status_code(&self) -> (r: Option<String>)
        ensures
            match r {
                Some(v) => status_text(headers_view(self.headers@)) == Some(v@),
                None => status_text(headers_view(self.headers@)) is None,
            },
    {
        match find_header_index(&self.headers, ":status") {
            Some(i) => Some(self.headers[i].value.clone()),
            None => None,
        }
    }

    /// Moves the body out, leaving an empty one.
    pub fn raw_data(&mut self) -> (r: Vec<u8>)
        ensures
            r@ == old(self).data@,
            final(self).data@.len() == 0,
            final(self).headers == old(self).headers,
            final(self).stream_id == old(self).stream_id,
    {
        let mut out: Vec<u8> = Vec::new();
        std::mem::swap(&mut out, &mut self.data);
        out
    }

    /// Success for status 200 or 201, an error for any other status, and
    /// nothing without a status. Headers and body are moved out; an empty
    /// body becomes `None`.
    pub fn status(&mut self) -> (r: ReqStatus)
        ensures
            match status_text(headers_view(old(self).headers@)) {
                None => r is NoStatus,
                Some(v) => {
                    let ok = v == "200"@ || v == "201"@;
                    let data_ok = |d: Option<Vec<u8>>|
                        if old(self).data@.len() == 0 {
                            d is None
                        } else {
                            d matches Some(x) && x@ == old(self).data@
                        };
                    if ok {
                        r matches ReqStatus::Success { stream_id, headers, data } && stream_id
                            == old(self).stream_id && headers_view(headers@) == headers_view(
                            old(self).headers@,
                        ) && data_ok(data)
                    } else {
                        r matches ReqStatus::Error { stream_id, headers, data } && stream_id
                            == old(self).stream_id && headers_view(headers@) == headers_view(
                            old(self).headers@,
                        ) && data_ok(data)
                    }
                },
            },
    {
        let code = match self.status_code() {
            Some(c) => c,
            None => return ReqStatus::NoStatus,
        };
        let ok200 = String::from_str("200");
        let ok201 = String::from_str("201");
        let ok = code == ok200 || code == ok201;
        let mut headers: Vec<Header> = Vec::new();
        std::mem::swap(&mut headers, &mut self.headers);
        let data = if self.data.len() == 0 {
            None
        } else {
            Some(self.raw_data())
        };
        if ok {
            ReqStatus::Success { stream_id: self.stream_id, headers, data }
        } else {
            ReqStatus::Error { stream_id: self.stream_id, headers, data }
        }
    }

    pub fn has_body(&self) -> (r: bool)
        ensures
            r == (self.data@.len() > 0),
    {
        self.data.len() > 0
    }

    /// True when the `content-type` header says `application/json`.
    pub fn is_json(&self) -> (r: bool)
        ensures
            r == (header_value(headers_view(self.headers@), "content-type"@) == Some(
                "application/json"@,
            )),
    {
        match find_header_index(&self.headers, "content-type") {
            Some(i) => {
                let json = String::from_str("application/json");
                self.headers[i].value == json
            },
            None => false,
        }
    }

    pub fn headers(&self) -> (r: Vec<Header>)
        ensures
            headers_view(r@) == headers_view(self.headers@),
    {
        clone_headers(&self.headers)
    }
}

/// A whole frame that arrived on a persistent stream.
pub struct StreamEvent {
    pub req_path: String,
    pub stream_id: u64,
    pub headers: Vec<Header>,
    pub body: Vec<u8>,
}

impl StreamEvent {
    pub fn new(req_path: String, stream_id: u64, headers: Vec<Header>, body: Vec<u8>) -> (r:
        StreamEvent)
        ensures
            r.req_path == req_path,
            r.stream_id == stream_id,
            r.headers == headers,
            r.body == body,
    {
        StreamEvent { req_path, stream_id, headers, body }
    }

    pub fn body_as_slice(&self) -> (r: &[u8])
        ensures
            r@ == self.body@,
    {
        self.body.as_slice()
    }

    pub fn stream_id(&self) -> (r: u64)
        ensures
            r == self.stream_id,
    {
        self.stream_id
    }
}

} // verus!
