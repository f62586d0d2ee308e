use vstd::prelude::*;

use crate::assembly::{body_step, events_model, header_step, same_identity, PartialResponse, ResponseEvent};
use crate::progress::{clamp_ratio, parse_progress, Ratio, UploadProgressStatus};
use crate::response::{has_sentinel, BodyType, Http3Response};

verus! {

/// The responses in progress, one entry per stream of a connection.
pub struct ResponseTable {
    pub entries: Vec<PartialResponse>,
}

/// The entry of a stream, if the table holds one.
pub open spec fn entry_index(es: Seq<PartialResponse>, stream_id: u64, conn: Seq<char>) -> Option<
    int,
> {
    if exists|i: int|
        0 <= i < es.len() && (#[trigger] es[i]).stream_id == stream_id && es[i].connexion_id@
            == conn {
        Some(
            choose|i: int|
                0 <= i < es.len() && (#[trigger] es[i]).stream_id == stream_id
                    && es[i].connexion_id@ == conn,
        )
    } else {
        None
    }
}

impl ResponseTable {
    /// No two entries share a stream and a connection.
    pub open spec fn wf(&self) -> bool {
        forall|i: int, j: int|
            0 <= i < self.entries@.len() && 0 <= j < self.entries@.len() && i != j
                ==> !(#[trigger] self.entries@[i].stream_id == #[trigger] self.entries@[j].stream_id
                && self.entries@[i].connexion_id@ == self.entries@[j].connexion_id@)
    }

    pub fn new() -> (r: ResponseTable)
        ensures
            r.wf(),
            r.entries@.len() == 0,
    {
        ResponseTable { entries: Vec::new() }
    }

    fn find(&self, stream_id: u64, conn: &String) -> (r: Option<usize>)
        ensures
            r matches Some(i) ==> i < self.entries@.len() && self.entries@[i as int].stream_id
                == stream_id && self.entries@[i as int].connexion_id@ == conn@,
            r is None ==> entry_index(self.entries@, stream_id, conn@) is None,
    {
        let mut i: usize = 0;
        while i < self.entries.len()
            invariant
                i <= self.entries@.len(),
                forall|j: int|
                    0 <= j < i ==> !((#[trigger] self.entries@[j]).stream_id == stream_id
                        && self.entries@[j].connexion_id@ == conn@),
            decreases self.entries@.len() - i,
        {
            if self.entries[i].stream_id == stream_id && self.entries[i].connexion_id == *conn {
                return Some(i);
            }
            i = i + 1;
        }
        None
    }

    /// Registers the entry of a request. An entry already held for the same
    /// stream and connection gives way to it.
    pub fn register(&mut self, p: PartialResponse)
        requires
            old(self).wf(),
        ensures
            final(self).wf(),
            exists|i: int|
                0 <= i < final(self).entries@.len() && #[trigger] final(self).entries@[i] == p,
            final(self).entries@.len() <= old(self).entries@.len() + 1,
    {
        let ghost sid = p.stream_id;
        let ghost conn = p.connexion_id@;
        match self.find(p.stream_id, &p.connexion_id) {
            Some(i) => {
                self.entries.set(i, p);
                assert(self.entries@[i as int] == p);
                assert forall|a: int, b: int|
                    0 <= a < self.entries@.len() && 0 <= b < self.entries@.len() && a != b
                        implies !(#[trigger] self.entries@[a].stream_id
                        == #[trigger] self.entries@[b].stream_id && self.entries@[a].connexion_id@
                        == self.entries@[b].connexion_id@) by {
                    if a == i as int {
                        assert(old(self).entries@[a].stream_id == sid);
                    }
                    if b == i as int {
                        assert(old(self).entries@[b].stream_id == sid);
                    }
                }
            },
            None => {
                self.entries.push(p);
                let ghost n: int = self.entries@.len() - 1;
                assert(self.entries@[n] == p);
                assert forall|a: int, b: int|
                    0 <= a < self.entries@.len() && 0 <= b < self.entries@.len() && a != b
                        implies !(#[trigger] self.entries@[a].stream_id
                        == #[trigger] self.entries@[b].stream_id && self.entries@[a].connexion_id@
                        == self.entries@[b].connexion_id@) by {
                    if a == n && b < n {
                        assert(old(self).entries@[b] == self.entries@[b]);
                    }
                    if b == n && a < n {
                        assert(old(self).entries@[a] == self.entries@[a]);
                    }
                }
            },
        }
    }

    /// Hands a response event to the entry of its stream and returns what it
    /// gives; an entry whose response is complete leaves the table. An event
    /// for a stream without an entry gives nothing.
    pub fn dispatch(&mut self, event: Http3Response) -> (r: Vec<ResponseEvent>)
        requires
            old(self).wf(),
            forall|i: int|
                0 <= i < old(self).entries@.len() ==> !(#[trigger] old(self).entries@[i]).completed,
            event matches Http3Response::Body(b) ==> forall|i: int|
                0 <= i < old(self).entries@.len() ==> (#[trigger] old(self).entries@[i]).data@.len()
                    + b.packet@.len() <= usize::MAX && old(self).entries@[i].decoder.buffer@.len()
                    + b.packet@.len() <= usize::MAX,
        ensures
            final(self).wf(),
            forall|i: int|
                0 <= i < final(self).entries@.len() ==> !(#[trigger] final(self).entries@[i]).completed,
            entry_index(old(self).entries@, event.spec_stream_id(), event.spec_connexion_id())
                is None ==> r@.len() == 0 && final(self).entries@ == old(self).entries@,
            entry_index(old(self).entries@, event.spec_stream_id(), event.spec_connexion_id())
                matches Some(k) ==> exists|f: PartialResponse|
                same_identity(old(self).entries@[k], f) && match event {
                    Http3Response::Header(h) => header_step(
                        old(self).entries@[k],
                        f,
                        h,
                        events_model(r@),
                    ),
                    Http3Response::Body(b) => body_step(
                        old(self).entries@[k],
                        f,
                        b,
                        events_model(r@),
                    ),
                },
            (exists|i: int| 0 <= i < r@.len() && #[trigger] r@[i] is Completed)
                ==> final(self).entries@.len() + 1 == old(self).entries@.len(),
            !(exists|i: int| 0 <= i < r@.len() && #[trigger] r@[i] is Completed)
                ==> final(self).entries@.len() == old(self).entries@.len(),
    {
        let sid = event.stream_id();
        let i = match self.find(sid, event.connexion_id()) {
            Some(i) => i,
            None => return Vec::new(),
        };
        proof {
            let k = entry_index(old(self).entries@, event.spec_stream_id(), event.spec_connexion_id())->Some_0;
            assert(old(self).entries@[i as int].stream_id == event.spec_stream_id());
            if k != i as int {
                assert(old(self).entries@[k].stream_id == old(self).entries@[i as int].stream_id);
            }
        }
        let mut entry = self.entries.remove(i);
        let r = entry.extend_data(event);
        assert(same_identity(old(self).entries@[i as int], entry));
        if entry.completed {
            assert forall|a: int, b: int|
                0 <= a < self.entries@.len() && 0 <= b < self.entries@.len() && a != b
                    implies !(#[trigger] self.entries@[a].stream_id
                    == #[trigger] self.entries@[b].stream_id && self.entries@[a].connexion_id@
                    == self.entries@[b].connexion_id@) by {
                let a0 = if a < i { a } else { a + 1 };
                let b0 = if b < i { b } else { b + 1 };
                assert(self.entries@[a] == old(self).entries@[a0]);
                assert(self.entries@[b] == old(self).entries@[b0]);
            }
        } else {
            self.entries.insert(i, entry);
            assert forall|a: int, b: int|
                0 <= a < self.entries@.len() && 0 <= b < self.entries@.len() && a != b
                    implies !(#[trigger] self.entries@[a].stream_id
                    == #[trigger] self.entries@[b].stream_id && self.entries@[a].connexion_id@
                    == self.entries@[b].connexion_id@) by {
                if a != i as int {
                    assert(self.entries@[a] == old(self).entries@[a]);
                }
                if b != i as int {
                    assert(self.entries@[b] == old(self).entries@[b]);
                }
            }
        }
        r
    }

    /// Empties the table when the connection closes, handing back the
    /// entries whose responses will not come.
    pub fn close_all(&mut self) -> (r: Vec<PartialResponse>)
        requires
            old(self).wf(),
        ensures
            final(self).wf(),
            final(self).entries@.len() == 0,
            r@ == old(self).entries@,
    {
        let mut r: Vec<PartialResponse> = Vec::new();
        std::mem::swap(&mut r, &mut self.entries);
        r
    }

    pub fn len(&self) -> (r: usize)
        ensures
            r == self.entries@.len(),
    {
        self.entries.len()
    }
    /// A progress report that arrived on a server-initiated stream, read once
    /// for each request in flight, in table order. Bytes that are not a
    /// well-formed report give nothing.
    pub fn progress_for_all(&self, packet: &[u8]) -> (r: Vec<UploadProgressStatus>)
        ensures
            r@.len() == if has_sentinel(packet@) && parse_progress(
                packet@.subrange(4, packet@.len() as int),
            ) is Some {
                self.entries@.len()
            } else {
                0
            },
            forall|i: int|
                0 <= i < r@.len() ==> {
                    let (num, den, w, t) = parse_progress(
                        packet@.subrange(4, packet@.len() as int),
                    )->Some_0;
                    &&& (#[trigger] r@[i]).req_path@ == self.entries@[i].req_path@
                    &&& r@[i].request_uuid == self.entries@[i].request_uuid
                    &&& r@[i].completed == clamp_ratio(Ratio { num: num as u64, den: den as u64 })
                    &&& r@[i].received == w
                    &&& r@[i].total == t
                },
    {
        let mut r: Vec<UploadProgressStatus> = Vec::new();
        if !BodyType::is_progress_report(packet) {
            return r;
        }
        let mut i: usize = 0;
        while i < self.entries.len()
            invariant
                i <= self.entries@.len(),
                has_sentinel(packet@),
                r@.len() == if parse_progress(packet@.subrange(4, packet@.len() as int)) is Some {
                    i as nat
                } else {
                    0
                },
                forall|j: int|
                    0 <= j < r@.len() ==> {
                        let (num, den, w, t) = parse_progress(
                            packet@.subrange(4, packet@.len() as int),
                        )->Some_0;
                        &&& (#[trigger] r@[j]).req_path@ == self.entries@[j].req_path@
                        &&& r@[j].request_uuid == self.entries@[j].request_uuid
                        &&& r@[j].completed == clamp_ratio(
                            Ratio { num: num as u64, den: den as u64 },
                        )
                        &&& r@[j].received == w
                        &&& r@[j].total == t
                    },
            decreases self.entries@.len() - i,
        {
            let e = &self.entries[i];
            match BodyType::parse_packet(packet, e.req_path.as_str(), e.request_uuid) {
                BodyType::UploadProgressStatusBody(st) => {
                    r.push(st);
                },
                _ => {
                    return r;
                },
            }
            i = i + 1;
        }
        r
    }
}

} // verus!
