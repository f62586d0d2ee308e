use vstd::prelude::*;

use crate::decimal::{parse_decimal_str, parse_decimal_text};
use crate::framing::{frames_of, rest_of, FrameDecoder};
use crate::header::{clone_headers, find_header_index, header_value, headers_view, Header, HeaderView};
use crate::progress::{
    clamp_ratio, parse_progress, ratio_le, DownloadProgressStatus, Ratio, UploadProgressStatus,
};
use crate::response::{
    has_sentinel, status_text, BodyType, CompletedResponse, Http3Response, Http3ResponseBody,
    Http3ResponseHeader, StreamEvent,
};

verus! {

/// What response assembly hands on: progress for the listeners, the whole
/// response for the waiting caller, or a frame for a stream's callback.
pub enum ResponseEvent {
    Upload(UploadProgressStatus),
    Download(DownloadProgressStatus),
    Completed(CompletedResponse),
    Frame(StreamEvent),
}

/// An event as its numbers and bytes.
pub enum EventModel {
    Upload { received: nat, total: nat, ratio: Ratio },
    Download { received: nat, total: nat, ratio: Ratio },
    Completed { headers: Seq<HeaderView>, data: Seq<u8> },
    Frame { headers: Seq<HeaderView>, body: Seq<u8> },
}

pub open spec fn event_model(e: ResponseEvent) -> EventModel {
    match e {
        ResponseEvent::Upload(u) => EventModel::Upload {
            received: u.received as nat,
            total: u.total as nat,
            ratio: u.completed,
        },
        ResponseEvent::Download(d) => EventModel::Download {
            received: d.received as nat,
            total: d.total as nat,
            ratio: d.progress,
        },
        ResponseEvent::Completed(c) => EventModel::Completed {
            headers: headers_view(c.headers@),
            data: c.data@,
        },
        ResponseEvent::Frame(f) => EventModel::Frame { headers: headers_view(f.headers@), body: f.body@ },
    }
}

pub open spec fn events_model(es: Seq<ResponseEvent>) -> Seq<EventModel> {
    es.map_values(|e: ResponseEvent| event_model(e))
}

/// An event is addressed to the request of the entry that made it.
pub open spec fn event_of(e: ResponseEvent, p: PartialResponse) -> bool {
    match e {
        ResponseEvent::Upload(u) => u.req_path@ == p.req_path@ && u.request_uuid == p.request_uuid,
        ResponseEvent::Download(d) => d.req_path@ == p.req_path@ && d.request_uuid
            == p.request_uuid,
        ResponseEvent::Completed(c) => c.stream_id == p.stream_id,
        ResponseEvent::Frame(f) => f.req_path@ == p.req_path@ && f.stream_id == p.stream_id,
    }
}

/// The response being put together for one request.
pub struct PartialResponse {
    pub stream_id: u64,
    pub connexion_id: String,
    pub request_uuid: u128,
    pub req_path: String,
    pub streamable: bool,
    pub headers: Option<Vec<Header>>,
    pub content_length: Option<usize>,
    pub data: Vec<u8>,
    pub packet_count: usize,
    pub decoder: FrameDecoder,
    pub completed: bool,
}

/// The stored headers, or none.
pub open spec fn stored_headers(p: PartialResponse) -> Seq<HeaderView> {
    match p.headers {
        Some(h) => headers_view(h@),
        None => Seq::empty(),
    }
}

pub open spec fn opt_headers(p: PartialResponse) -> Option<Seq<HeaderView>> {
    match p.headers {
        Some(h) => Some(headers_view(h@)),
        None => None,
    }
}

/// The fields that identify an entry.
pub open spec fn same_identity(a: PartialResponse, b: PartialResponse) -> bool {
    &&& a.stream_id == b.stream_id
    &&& a.connexion_id@ == b.connexion_id@
    &&& a.request_uuid == b.request_uuid
    &&& a.req_path@ == b.req_path@
    &&& a.streamable == b.streamable
}

/// The fields that accumulate a response.
pub open spec fn same_progress(a: PartialResponse, b: PartialResponse) -> bool {
    &&& opt_headers(a) == opt_headers(b)
    &&& a.content_length == b.content_length
    &&& a.data@ == b.data@
    &&& a.decoder.buffer@ == b.decoder.buffer@
    &&& a.completed == b.completed
}

/// An informational `:status: 100` header.
pub open spec fn is_status_100(hs: Seq<HeaderView>) -> bool {
    exists|i: int| 0 <= i < hs.len() && #[trigger] hs[i] == (":status"@, "100"@)
}

/// The byte count that an `x-progress` header reports.
pub open spec fn x_progress(hs: Seq<HeaderView>) -> Option<nat> {
    match header_value(hs, "x-progress"@) {
        Some(v) => parse_decimal_text(v),
        None => None,
    }
}

/// The length that a `content-length` header announces.
pub open spec fn announced_length(hs: Seq<HeaderView>) -> Option<nat> {
    match header_value(hs, "content-length"@) {
        Some(v) => parse_decimal_text(v),
        None => None,
    }
}

/// The status that the headers give, as a number.
pub open spec fn status_number(hs: Seq<HeaderView>) -> Option<nat> {
    match status_text(hs) {
        Some(v) => parse_decimal_text(v),
        None => None,
    }
}

/// A header event: a `100` status reports upload progress and changes
/// nothing; other headers are stored, with the announced length, and when
/// they end the stream the response is complete with an empty body.
pub open spec fn header_step(
    o: PartialResponse,
    f: PartialResponse,
    h: Http3ResponseHeader,
    r: Seq<EventModel>,
) -> bool {
    let hv = headers_view(h.headers@);
    if is_status_100(hv) {
        &&& same_progress(o, f)
        &&& r == match x_progress(hv) {
            Some(n) => seq![
                EventModel::Upload { received: n, total: 0, ratio: Ratio { num: 0, den: 1 } },
            ],
            None => Seq::empty(),
        }
    } else {
        &&& opt_headers(f) == Some(hv)
        &&& f.content_length == match announced_length(hv) {
            Some(n) => Some(n as usize),
            None => o.content_length,
        }
        &&& f.data@ == o.data@
        &&& f.decoder.buffer@ == o.decoder.buffer@
        &&& f.completed == h.end
        &&& r == if h.end {
            seq![EventModel::Completed { headers: hv, data: Seq::empty() }]
        } else {
            Seq::empty()
        }
    }
}

/// A body event. On a persistent stream the bytes go to the frame decoder
/// and each whole frame is handed on. Before any headers, a progress report
/// is handed on as upload progress. Otherwise the bytes join the body, the
/// download progress is reported when a length was announced, and the end of
/// the stream completes the response unless its status is `100`.
pub open spec fn body_step(
    o: PartialResponse,
    f: PartialResponse,
    b: Http3ResponseBody,
    r: Seq<EventModel>,
) -> bool {
    let p = b.packet@;
    if o.streamable {
        let all = o.decoder.buffer@ + p;
        &&& f.decoder.buffer@ == rest_of(all)
        &&& opt_headers(f) == opt_headers(o)
        &&& f.content_length == o.content_length
        &&& f.data@ == o.data@
        &&& f.completed == o.completed
        &&& r == frames_of(all).map_values(
            |fr: Seq<u8>| EventModel::Frame { headers: stored_headers(o), body: fr },
        )
    } else if o.headers is None && has_sentinel(p) {
        &&& same_progress(o, f)
        &&& r == match parse_progress(p.subrange(4, p.len() as int)) {
            Some((num, den, w, t)) => seq![
                EventModel::Upload {
                    received: w,
                    total: t,
                    ratio: clamp_ratio(Ratio { num: num as u64, den: den as u64 }),
                },
            ],
            None => Seq::empty(),
        }
    } else {
        let body = o.data@ + p;
        let complete = b.end && status_number(stored_headers(o)) != Some(100nat);
        let progress = download_events(o.content_length, body.len());
        &&& opt_headers(f) == opt_headers(o)
        &&& f.content_length == o.content_length
        &&& f.decoder.buffer@ == o.decoder.buffer@
        &&& f.completed == complete
        &&& f.data@ == if complete {
            Seq::empty()
        } else {
            body
        }
        &&& r == progress + if complete {
            seq![EventModel::Completed { headers: stored_headers(o), data: body }]
        } else {
            Seq::empty()
        }
    }
}

/// The download report after a body event: present when a nonzero length
/// was announced.
pub open spec fn download_events(content_length: Option<usize>, received: nat) -> Seq<EventModel> {
    match content_length {
        Some(cl) => if cl > 0 {
            seq![
                EventModel::Download {
                    received: received,
                    total: cl as nat,
                    ratio: clamp_ratio(Ratio { num: received as u64, den: cl as u64 }),
                },
            ]
        } else {
            Seq::empty()
        },
        None => Seq::empty(),
    }
}

/// Relies on uuid's `Uuid::new_v4`: a random identifier for a request, read
/// as its 128-bit value.
#[verifier::external_body]
fn new_request_uuid() -> (r: u128) {
    uuid::Uuid::new_v4().as_u128()
}

fn has_status_100(hs: &Vec<Header>) -> (r: bool)
    ensures
        r == is_status_100(headers_view(hs@)),
{
    let status = String::from_str(":status");
    let hundred = String::from_str("100");
    proof {
        reveal_strlit(":status");
        reveal_strlit("100");
    }
    let ghost v = headers_view(hs@);
    let mut i: usize = 0;
    while i < hs.len()
        invariant
            i <= hs@.len(),
            v == headers_view(hs@),
            status@ == ":status"@,
            hundred@ == "100"@,
            forall|j: int| 0 <= j < i ==> #[trigger] v[j] != (":status"@, "100"@),
        decreases hs@.len() - i,
    {
        if hs[i].name == status && hs[i].value == hundred {
            assert(v[i as int] == (":status"@, "100"@));
            return true;
        }
        i = i + 1;
    }
    false
}

/// Parses the value of the first header named `name` as a number.
fn header_number(hs: &Vec<Header>, name: &str) -> (r: Option<usize>)
    ensures
        r == match header_value(headers_view(hs@), name@) {
            Some(v) => match parse_decimal_text(v) {
                Some(n) => Some(n as usize),
                None => None::<usize>,
            },
            None => None::<usize>,
        },
{
    match find_header_index(hs, name) {
        Some(i) => parse_decimal_str(hs[i].value.as_str()),
        None => None,
    }
}

impl PartialResponse {
    /// An empty entry for the request sent on `stream_ids`, under a fresh
    /// random request identifier.
    pub fn new(req_path: &str, stream_ids: &(u64, String)) -> (r: PartialResponse)
        ensures
            r.stream_id == stream_ids.0,
            r.connexion_id@ == stream_ids.1@,
            r.req_path@ == req_path@,
            !r.streamable,
            r.headers is None,
            r.content_length is None,
            r.data@.len() == 0,
            r.decoder.buffer@.len() == 0,
            !r.completed,
    {
        PartialResponse::with_uuid(req_path, stream_ids, new_request_uuid(), false)
    }

    /// An empty entry for a persistent stream, whose body is a sequence of
    /// frames.
    pub fn new_streamable(req_path: &str, stream_ids: &(u64, String)) -> (r: PartialResponse)
        ensures
            r.stream_id == stream_ids.0,
            r.connexion_id@ == stream_ids.1@,
            r.req_path@ == req_path@,
            r.streamable,
            r.headers is None,
            r.content_length is None,
            r.data@.len() == 0,
            r.decoder.buffer@.len() == 0,
            !r.completed,
    {
        PartialResponse::with_uuid(req_path, stream_ids, new_request_uuid(), true)
    }

    /// An empty entry under a given request identifier.
    pub fn with_uuid(req_path: &str, stream_ids: &(u64, String), request_uuid: u128, streamable: bool) -> (r:
        PartialResponse)
        ensures
            r.stream_id == stream_ids.0,
            r.connexion_id@ == stream_ids.1@,
            r.request_uuid == request_uuid,
            r.req_path@ == req_path@,
            r.streamable == streamable,
            r.headers is None,
            r.content_length is None,
            r.data@.len() == 0,
            r.decoder.buffer@.len() == 0,
            !r.completed,
    {
        PartialResponse {
            stream_id: stream_ids.0,
            connexion_id: stream_ids.1.clone(),
            request_uuid,
            req_path: req_path.to_owned(),
            streamable,
            headers: None,
            content_length: None,
            data: Vec::new(),
            packet_count: 0,
            decoder: FrameDecoder::new(),
            completed: false,
        }
    }

    pub fn stream_id(&self) -> (r: u64)
        ensures
            r == self.stream_id,
    {
        self.stream_id
    }

    pub fn connexion_id(&self) -> (r: &str)
        ensures
            r@ == self.connexion_id@,
    {
        self.connexion_id.as_str()
    }

    pub fn data_len(&self) -> (r: usize)
        ensures
            r == self.data@.len(),
    {
        self.data.len()
    }

    pub fn has_stream(&self) -> (r: bool)
        ensures
            r == self.streamable,
    {
        self.streamable
    }

    /// Takes in one event of the response and returns what it gives, in
    /// order. Once the response is complete, later events give nothing.
    pub fn extend_data(&mut self, server_packet: Http3Response) -> (r: Vec<ResponseEvent>)
        requires
            server_packet matches Http3Response::Body(b) ==> old(self).data@.len()
                + b.packet@.len() <= usize::MAX && old(self).decoder.buffer@.len()
                + b.packet@.len() <= usize::MAX,
        ensures
            same_identity(*old(self), *final(self)),
            forall|i: int| 0 <= i < r@.len() ==> event_of(#[trigger] r@[i], *old(self)),
            old(self).completed ==> r@.len() == 0 && same_progress(*old(self), *final(self)),
            !old(self).completed ==> match server_packet {
                Http3Response::Header(h) => header_step(
                    *old(self),
                    *final(self),
                    h,
                    events_model(r@),
                ),
                Http3Response::Body(b) => body_step(*old(self), *final(self), b, events_model(r@)),
            },
            old(self).completed ==> final(self).completed,
            (exists|i: int| 0 <= i < r@.len() && #[trigger] r@[i] is Completed) <==> (
            !old(self).completed && final(self).completed),
            forall|i: int, j: int|
                0 <= i < r@.len() && 0 <= j < r@.len() && #[trigger] r@[i] is Completed
                    && #[trigger] r@[j] is Completed ==> i == j,
    {
        let mut out: Vec<ResponseEvent> = Vec::new();
        if self.completed {
            return out;
        }
        match server_packet {
            Http3Response::Header(h) => {
                self.take_headers(h, &mut out);
            },
            Http3Response::Body(b) => {
                if self.streamable {
                    self.take_frames(b, &mut out);
                } else if self.headers.is_none() && BodyType::is_progress_report(b.packet.as_slice()) {
                    self.take_progress_report(b, &mut out);
                } else {
                    self.take_body(b, &mut out);
                }
            },
        }
        out
    }

    fn take_headers(&mut self, h: Http3ResponseHeader, out: &mut Vec<ResponseEvent>)
        requires
            !old(self).completed,
            old(out)@.len() == 0,
        ensures
            same_identity(*old(self), *final(self)),
            header_step(*old(self), *final(self), h, events_model(final(out)@)),
            forall|i: int| 0 <= i < final(out)@.len() ==> event_of(#[trigger] final(out)@[i], *old(self)),
            (exists|i: int| 0 <= i < final(out)@.len() && #[trigger] final(out)@[i] is Completed)
                <==> final(self).completed,
            final(out)@.len() <= 1,
    {
        let ghost hv = headers_view(h.headers@);
        if has_status_100(&h.headers) {
            match header_number(&h.headers, "x-progress") {
                Some(n) => {
                    let st = UploadProgressStatus::new(
                        self.req_path.as_str(),
                        self.request_uuid,
                        n,
                        0,
                        Ratio { num: 0, den: 1 },
                    );
                    out.push(ResponseEvent::Upload(st));
                    assert(events_model(out@) =~= seq![
                        EventModel::Upload { received: n as nat, total: 0, ratio: Ratio { num: 0, den: 1 } },
                    ]);
                },
                None => {
                    assert(events_model(out@) =~= Seq::<EventModel>::empty());
                },
            }
            return;
        }
        match header_number(&h.headers, "content-length") {
            Some(n) => {
                self.content_length = Some(n);
            },
            None => {},
        }
        if h.end {
            let hs = clone_headers(&h.headers);
            out.push(ResponseEvent::Completed(CompletedResponse::new(self.stream_id, hs, Vec::new())));
            self.completed = true;
            assert(events_model(out@) =~= seq![
                EventModel::Completed { headers: hv, data: Seq::empty() },
            ]);
        } else {
            assert(events_model(out@) =~= Seq::<EventModel>::empty());
        }
        self.headers = Some(h.headers);
    }

    fn take_frames(&mut self, b: Http3ResponseBody, out: &mut Vec<ResponseEvent>)
        requires
            !old(self).completed,
            old(self).streamable,
            old(out)@.len() == 0,
            old(self).decoder.buffer@.len() + b.packet@.len() <= usize::MAX,
        ensures
            same_identity(*old(self), *final(self)),
            body_step(*old(self), *final(self), b, events_model(final(out)@)),
            forall|i: int| 0 <= i < final(out)@.len() ==> event_of(#[trigger] final(out)@[i], *old(self)),
            forall|i: int| 0 <= i < final(out)@.len() ==> !(#[trigger] final(out)@[i] is Completed),
            !final(self).completed,
    {
        let frames = self.decoder.push_slice(b.packet.as_slice());
        let ghost fv = frames@.map_values(|f: Vec<u8>| f@);
        let ghost sh = stored_headers(*old(self));
        let mut i: usize = 0;
        while i < frames.len()
            invariant
                i <= frames@.len(),
                fv == frames@.map_values(|f: Vec<u8>| f@),
                sh == stored_headers(*self),
                same_identity(*old(self), *self),
                events_model(out@) =~= fv.subrange(0, i as int).map_values(
                    |fr: Seq<u8>| EventModel::Frame { headers: sh, body: fr },
                ),
                forall|k: int| 0 <= k < out@.len() ==> event_of(#[trigger] out@[k], *old(self)),
                forall|k: int| 0 <= k < out@.len() ==> !(#[trigger] out@[k] is Completed),
            decreases frames@.len() - i,
        {
            let hs = match &self.headers {
                Some(h) => clone_headers(h),
                None => Vec::new(),
            };
            let body = crate::body::copy_range(frames[i].as_slice(), 0, frames[i].len());
            assert(frames@[i as int]@.subrange(0, frames@[i as int]@.len() as int) =~= frames@[i as int]@);
            assert(headers_view(hs@) =~= sh);
            let ghost before = events_model(out@);
            let ev = ResponseEvent::Frame(StreamEvent::new(self.req_path.clone(), self.stream_id, hs, body));
            assert(event_model(ev) == EventModel::Frame { headers: sh, body: fv[i as int] });
            out.push(ev);
            assert(events_model(out@) =~= before.push(EventModel::Frame { headers: sh, body: fv[i as int] }));
            i = i + 1;
        }
        assert(fv.subrange(0, frames@.len() as int) =~= fv);
    }

    fn take_progress_report(&mut self, b: Http3ResponseBody, out: &mut Vec<ResponseEvent>)
        requires
            old(out)@.len() == 0,
            has_sentinel(b.packet@),
        ensures
            same_identity(*old(self), *final(self)),
            same_progress(*old(self), *final(self)),
            final(self).data == old(self).data,
            final(self).completed == old(self).completed,
            events_model(final(out)@) == match parse_progress(
                b.packet@.subrange(4, b.packet@.len() as int),
            ) {
                Some((num, den, w, t)) => seq![
                    EventModel::Upload {
                        received: w,
                        total: t,
                        ratio: clamp_ratio(Ratio { num: num as u64, den: den as u64 }),
                    },
                ],
                None => Seq::empty(),
            },
            forall|i: int| 0 <= i < final(out)@.len() ==> event_of(#[trigger] final(out)@[i], *old(self)),
            forall|i: int| 0 <= i < final(out)@.len() ==> !(#[trigger] final(out)@[i] is Completed),
    {
        match b.body_type(self.req_path.as_str(), self.request_uuid) {
            BodyType::UploadProgressStatusBody(st) => {
                out.push(ResponseEvent::Upload(st));
                assert(events_model(out@) =~= seq![event_model(out@[0])]);
            },
            _ => {
                assert(events_model(out@) =~= Seq::<EventModel>::empty());
            },
        }
    }

    fn take_body(&mut self, b: Http3ResponseBody, out: &mut Vec<ResponseEvent>)
        requires
            !old(self).completed,
            !old(self).streamable,
            old(out)@.len() == 0,
            old(self).data@.len() + b.packet@.len() <= usize::MAX,
            !(old(self).headers is None && has_sentinel(b.packet@)),
        ensures
            same_identity(*old(self), *final(self)),
            body_step(*old(self), *final(self), b, events_model(final(out)@)),
            forall|i: int| 0 <= i < final(out)@.len() ==> event_of(#[trigger] final(out)@[i], *old(self)),
            (exists|i: int| 0 <= i < final(out)@.len() && #[trigger] final(out)@[i] is Completed)
                <==> final(self).completed,
            forall|i: int, j: int|
                0 <= i < final(out)@.len() && 0 <= j < final(out)@.len()
                    && #[trigger] final(out)@[i] is Completed && #[trigger] final(out)@[j] is Completed
                    ==> i == j,
    {
        let ghost o = *self;
        if b.packet.len() > 0 {
            self.packet_count = if self.packet_count < usize::MAX {
                self.packet_count + 1
            } else {
                self.packet_count
            };
        }
        let mut k: usize = 0;
        while k < b.packet.len()
            invariant
                k <= b.packet@.len(),
                self.data@ == o.data@ + b.packet@.subrange(0, k as int),
                o.data@.len() + b.packet@.len() <= usize::MAX,
                same_identity(o, *self),
                opt_headers(o) == opt_headers(*self),
                self.content_length == o.content_length,
                self.decoder.buffer@ == o.decoder.buffer@,
                self.completed == o.completed,
            decreases b.packet@.len() - k,
        {
            self.data.push(b.packet[k]);
            k = k + 1;
            assert(self.data@ =~= o.data@ + b.packet@.subrange(0, k as int));
        }
        assert(b.packet@.subrange(0, b.packet@.len() as int) =~= b.packet@);
        let len = self.data.len();
        match self.content_length {
            Some(cl) => {
                if cl > 0 {
                    let st = DownloadProgressStatus::new(
                        self.req_path.as_str(),
                        self.request_uuid,
                        len,
                        cl,
                        Ratio { num: len as u64, den: cl as u64 },
                    );
                    out.push(ResponseEvent::Download(st));
                }
            },
            None => {},
        }
        let ghost progress = events_model(out@);
        assert(progress =~= download_events(o.content_length, (o.data@ + b.packet@).len()));
        let status = match &self.headers {
            Some(h) => header_number(h, ":status"),
            None => None,
        };
        proof {
            if o.headers is None {
                assert(stored_headers(o) =~= Seq::<HeaderView>::empty());
                assert(status_text(stored_headers(o)) is None) by {
                    assert(!(exists|i: int| 0 <= i < stored_headers(o).len() && (#[trigger] stored_headers(o)[i]).0 == ":status"@));
                }
            }
        }
        let complete = b.end && match status {
            Some(s) => s != 100,
            None => true,
        };
        proof {
            if let Some(h) = o.headers {
                assert(stored_headers(o) == headers_view(h@));
            }
            assert(complete == (b.end && status_number(stored_headers(o)) != Some(100nat)));
            assert(forall|i: int| 0 <= i < out@.len() ==> !(#[trigger] out@[i] is Completed));
        }
        let ghost n_before = out@.len();
        if complete {
            let hs = match &self.headers {
                Some(h) => clone_headers(h),
                None => Vec::new(),
            };
            assert(headers_view(hs@) =~= stored_headers(o));
            let mut body: Vec<u8> = Vec::new();
            std::mem::swap(&mut body, &mut self.data);
            let ev = ResponseEvent::Completed(CompletedResponse::new(self.stream_id, hs, body));
            assert(event_model(ev) == EventModel::Completed { headers: stored_headers(o), data: o.data@ + b.packet@ });
            out.push(ev);
            self.completed = true;
            assert(events_model(out@) =~= progress + seq![
                EventModel::Completed { headers: stored_headers(o), data: o.data@ + b.packet@ },
            ]);
            assert(out@[n_before as int] is Completed);
            assert forall|i: int, j: int|
                0 <= i < out@.len() && 0 <= j < out@.len() && #[trigger] out@[i] is Completed
                    && #[trigger] out@[j] is Completed implies i == j by {
                if i != n_before as int {
                    assert(!(out@[i] is Completed));
                }
                if j != n_before as int {
                    assert(!(out@[j] is Completed));
                }
            }
        } else {
            assert(events_model(out@) =~= progress + Seq::<EventModel>::empty());
        }
    }
}

/// Successive download reports of one request never go back and never pass
/// one: after two body events with the same announced length, the fraction of
/// the second is at least that of the first, and at most one.
pub proof fn lemma_download_progress_monotone(
    o: PartialResponse,
    m: PartialResponse,
    f: PartialResponse,
    b1: Http3ResponseBody,
    b2: Http3ResponseBody,
    r1: Seq<EventModel>,
    r2: Seq<EventModel>,
    i: int,
    j: int,
)
    requires
        body_step(o, m, b1, r1),
        !m.completed,
        body_step(m, f, b2, r2),
        0 <= i < r1.len(),
        0 <= j < r2.len(),
        r1[i] is Download,
        r2[j] is Download,
        m.data@.len() + b2.packet@.len() <= usize::MAX,
    ensures
        ratio_le(r1[i]->Download_ratio, r2[j]->Download_ratio),
        ratio_le(r2[j]->Download_ratio, Ratio { num: 1, den: 1 }),
        r1[i]->Download_received <= r2[j]->Download_received,
{
    let cl = o.content_length->Some_0;
    assert(r1[i] == EventModel::Download {
        received: (o.data@ + b1.packet@).len(),
        total: cl as nat,
        ratio: clamp_ratio(Ratio { num: (o.data@ + b1.packet@).len() as u64, den: cl as u64 }),
    });
    let a = (o.data@ + b1.packet@).len();
    let b = (m.data@ + b2.packet@).len();
    assert(m.data@ == o.data@ + b1.packet@);
    assert(a <= b);
    assert(r2[j] == EventModel::Download {
        received: b,
        total: cl as nat,
        ratio: clamp_ratio(Ratio { num: b as u64, den: cl as u64 }),
    });
    lemma_clamped_le(a as u64, b as u64, cl as u64);
}

proof fn lemma_clamped_le(a: u64, b: u64, c: u64)
    requires
        a <= b,
        c > 0,
    ensures
        ratio_le(clamp_ratio(Ratio { num: a, den: c }), clamp_ratio(Ratio { num: b, den: c })),
        ratio_le(clamp_ratio(Ratio { num: b, den: c }), Ratio { num: 1, den: 1 }),
{
    let ra = clamp_ratio(Ratio { num: a, den: c });
    let rb = clamp_ratio(Ratio { num: b, den: c });
    if a > c {
        assert(rb == Ratio { num: 1u64, den: 1u64 });
    } else if b > c {
        assert((a as int) * 1 <= 1 * (c as int));
    } else {
        assert((a as int) * (c as int) <= (b as int) * (c as int)) by (nonlinear_arith)
            requires
                a <= b,
        ;
    }
}

} // verus!
